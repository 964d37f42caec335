//! The API modes of the play-url lookup.

use vstd::prelude::*;
use crate::plan::{ascii_lower_word, lowercase, to_lowercase};
use crate::text::is_str;

verus! {

/// Which API a play-url lookup goes through.
#[derive(Debug, Clone, Copy, PartialEq, Eq, Structural)]
pub enum ApiMode {
    /// The web API.
    Web,
    /// The app API.
    App,
    /// The TV API.
    Tv,
    /// The international API.
    Intl,
    /// Chosen automatically.
    Auto,
}

/// The name of a mode.
pub open spec fn mode_name(m: ApiMode) -> Seq<char> {
    match m {
        ApiMode::Web => "web"@,
        ApiMode::App => "app"@,
        ApiMode::Tv => "tv"@,
        ApiMode::Intl => "intl"@,
        ApiMode::Auto => "auto"@,
    }
}

/// The mode a lowercased name reads as: `web`, `app`, `tv` or `intl`;
/// `Auto` for anything else.
pub open spec fn mode_of_lower(t: Seq<char>) -> ApiMode {
    if t == "web"@ {
        ApiMode::Web
    } else if t == "app"@ {
        ApiMode::App
    } else if t == "tv"@ {
        ApiMode::Tv
    } else if t == "intl"@ {
        ApiMode::Intl
    } else {
        ApiMode::Auto
    }
}

impl ApiMode {
    /// Reads a mode name: the name is lowercased (`str::to_lowercase`) and
    /// matched against `web`, `app`, `tv` and `intl`; anything else gives
    /// `Auto`. A name already in ASCII lowercase is matched as it is.
    pub fn parse(s: &str) -> (m: ApiMode)
        ensures
            m == mode_of_lower(lowercase(s@)),
            ascii_lower_word(s@) ==> m == mode_of_lower(s@),
    {
        let t = to_lowercase(s);
        if is_str(&t, "web") {
            ApiMode::Web
        } else if is_str(&t, "app") {
            ApiMode::App
        } else if is_str(&t, "tv") {
            ApiMode::Tv
        } else if is_str(&t, "intl") {
            ApiMode::Intl
        } else {
            ApiMode::Auto
        }
    }

    /// The name of the mode (`"web"`, `"app"`, `"tv"`, `"intl"`, `"auto"`).
    pub fn as_str(&self) -> (s: &'static str)
        ensures
            s@ == mode_name(*self),
    {
        match self {
            ApiMode::Web => "web",
            ApiMode::App => "app",
            ApiMode::Tv => "tv",
            ApiMode::Intl => "intl",
            ApiMode::Auto => "auto",
        }
    }
}

impl Default for ApiMode {
    fn default() -> (m: ApiMode)
        ensures
            m == ApiMode::Web,
    {
        ApiMode::Web
    }
}

/// Reading a mode's name gives the mode back: every name is ASCII
/// lowercase, so [`ApiMode::parse`] matches it as it is, and it matches its
/// own mode.
pub proof fn law_mode_name_round_trip(m: ApiMode)
    ensures
        ascii_lower_word(mode_name(m)),
        mode_of_lower(mode_name(m)) == m,
{
    reveal_strlit("web");
    reveal_strlit("app");
    reveal_strlit("tv");
    reveal_strlit("intl");
    reveal_strlit("auto");
    assert("app"@[0] != "web"@[0]);
    assert("app"@ != "web"@ && "tv"@ != "web"@ && "intl"@ != "web"@ && "auto"@ != "web"@);
    assert("tv"@.len() == 2 && "app"@.len() == 3 && "intl"@.len() == 4 && "auto"@.len() == 4);
    assert("tv"@ != "app"@ && "intl"@ != "app"@ && "auto"@ != "app"@);
    assert("intl"@.len() != "tv"@.len() && "auto"@.len() != "tv"@.len());
    assert("intl"@ != "tv"@ && "auto"@ != "tv"@);
    assert("auto"@[0] != "intl"@[0]);
    assert("auto"@ != "intl"@);
}

} // verus!
