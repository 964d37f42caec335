//! File name templates: `{var}` placeholders, rewritten into the
//! `{{ var }}` form of the template engine.

use vstd::prelude::*;
use crate::text::{chars_of, push_char, push_str};

verus! {

/// The default template.
pub const DEFAULT_PATTERN: &'static str = "{title}/{p_title}";

/// The rewriting of the characters of `s`, `inside` telling whether an
/// opening brace is pending: an opening `{` becomes `{{ `, the `}` that
/// closes it ` }}`; any other brace or character stays.
pub open spec fn tera_text(s: Seq<char>, inside: bool) -> Seq<char>
    decreases s.len(),
{
    if s.len() == 0 {
        seq![]
    } else {
        let c = s[0];
        let rest = s.drop_first();
        if c == '{' && !inside {
            "{{ "@ + tera_text(rest, true)
        } else if c == '}' && inside {
            " }}"@ + tera_text(rest, false)
        } else {
            seq![c] + tera_text(rest, inside)
        }
    }
}

/// Rewrites `{var}` placeholders into `{{ var }}` (see [`tera_text`]).
pub fn pattern_to_tera(pattern: &str) -> (r: String)
    ensures
        r@ == tera_text(pattern@, false),
{
    let v = chars_of(pattern);
    let mut out = String::new();
    let mut inside = false;
    let mut i: usize = 0;
    assert(v@.skip(0) == v@);
    while i < v.len()
        invariant
            i <= v@.len(),
            v@ == pattern@,
            out@ + tera_text(v@.skip(i as int), inside) == tera_text(pattern@, false),
        decreases v.len() - i,
    {
        let c = v[i];
        let ghost rest = v@.skip(i as int);
        assert(rest.drop_first() == v@.skip(i + 1));
        assert(rest[0] == c);
        let ghost before = out@;
        if c == '{' && !inside {
            push_str(&mut out, "{{ ");
            inside = true;
            assert(before + ("{{ "@ + tera_text(v@.skip(i + 1), true)) == out@ + tera_text(
                v@.skip(i + 1),
                true,
            ));
        } else if c == '}' && inside {
            push_str(&mut out, " }}");
            inside = false;
            assert(before + (" }}"@ + tera_text(v@.skip(i + 1), false)) == out@ + tera_text(
                v@.skip(i + 1),
                false,
            ));
        } else {
            push_char(&mut out, c);
            assert(out@ == before + seq![c]);
            assert(before + (seq![c] + tera_text(v@.skip(i + 1), inside)) == out@ + tera_text(
                v@.skip(i + 1),
                inside,
            ));
        }
        i = i + 1;
    }
    assert(v@.skip(v@.len() as int) == Seq::<char>::empty());
    assert(out@ + Seq::<char>::empty() == out@);
    out
}

} // verus!

verus! {

/// Why a template could not be rendered.
#[derive(Debug, Clone, Copy, PartialEq, Eq, Structural)]
pub enum TemplateError {
    /// The template engine refused the template or could not fill it in.
    Render,
    /// The extension holds a path separator.
    BadExtension,
}

/// A template cut into pieces: `(false, text)` literal text, `(true, name)`
/// a variable.
pub type Pieces = Seq<(bool, Seq<char>)>;

/// The variables as pairs of texts.
pub open spec fn vars_view(vars: Seq<(String, String)>) -> Seq<(Seq<char>, Seq<char>)> {
    vars.map_values(|p: (String, String)| (p.0@, p.1@))
}

/// The value bound last to `name`, if any.
pub open spec fn var_value(vars: Seq<(Seq<char>, Seq<char>)>, name: Seq<char>) -> Option<Seq<char>>
    decreases vars.len(),
{
    if vars.len() == 0 {
        None
    } else if vars.last().0 == name {
        Some(vars.last().1)
    } else {
        var_value(vars.drop_last(), name)
    }
}

/// A variable name that the template engine reads as a plain lookup: an
/// ASCII letter, then ASCII letters, digits and `_`; not one of its words
/// `not`, `and`, `or`, `in`, `is`; and not starting with `true`, `false`,
/// `True` or `False` (the engine reads those as a boolean, whatever
/// follows).
pub open spec fn plain_name(n: Seq<char>) -> bool {
    &&& n.len() > 0
    &&& (('a' <= n[0] && n[0] <= 'z') || ('A' <= n[0] && n[0] <= 'Z'))
    &&& forall|i: int|
        0 <= i < n.len() ==> ('a' <= #[trigger] n[i] && n[i] <= 'z') || ('A' <= n[i] && n[i] <= 'Z')
            || ('0' <= n[i] && n[i] <= '9') || n[i] == '_'
    &&& !crate::text::seq_has_at(n, 0, "true"@) && !crate::text::seq_has_at(n, 0, "false"@)
        && !crate::text::seq_has_at(n, 0, "True"@) && !crate::text::seq_has_at(n, 0, "False"@)
    &&& n != "not"@ && n != "and"@ && n != "or"@ && n != "in"@ && n != "is"@
}

/// Text without braces.
pub open spec fn brace_free(t: Seq<char>) -> bool {
    forall|i: int| 0 <= i < t.len() ==> #[trigger] t[i] != '{' && t[i] != '}'
}

/// A template cut into pieces: `(false, text)` is literal text without
/// braces, `(true, name)` a variable with a plain name bound in `vars`.
pub open spec fn pieces_ok(ps: Pieces, vars: Seq<(Seq<char>, Seq<char>)>) -> bool {
    forall|i: int|
        0 <= i < ps.len() ==> if (#[trigger] ps[i]).0 {
            plain_name(ps[i].1) && var_value(vars, ps[i].1) is Some
        } else {
            brace_free(ps[i].1)
        }
}

/// The pattern of the pieces: each variable written `{name}`.
pub open spec fn pattern_source(ps: Pieces) -> Seq<char>
    decreases ps.len(),
{
    if ps.len() == 0 {
        seq![]
    } else if ps[0].0 {
        seq!['{'] + ps[0].1 + seq!['}'] + pattern_source(ps.drop_first())
    } else {
        ps[0].1 + pattern_source(ps.drop_first())
    }
}

/// The template-engine text of the pieces: each variable written
/// `{{ name }}`.
pub open spec fn engine_source(ps: Pieces) -> Seq<char>
    decreases ps.len(),
{
    if ps.len() == 0 {
        seq![]
    } else if ps[0].0 {
        "{{ "@ + ps[0].1 + " }}"@ + engine_source(ps.drop_first())
    } else {
        ps[0].1 + engine_source(ps.drop_first())
    }
}

/// The pieces filled in: each variable replaced by its value.
pub open spec fn filled(ps: Pieces, vars: Seq<(Seq<char>, Seq<char>)>) -> Seq<char>
    decreases ps.len(),
{
    if ps.len() == 0 {
        seq![]
    } else if ps[0].0 {
        match var_value(vars, ps[0].1) {
            Some(v) => v + filled(ps.drop_first(), vars),
            None => filled(ps.drop_first(), vars),
        }
    } else {
        ps[0].1 + filled(ps.drop_first(), vars)
    }
}

/// What rendering `template` gives where it is made only of brace-free text
/// and `{{ name }}` tags whose plain names are bound: the text with each tag
/// replaced by its value.
pub open spec fn plain_render(
    template: Seq<char>,
    vars: Seq<(Seq<char>, Seq<char>)>,
    r: Result<String, TemplateError>,
) -> bool {
    forall|ps: Pieces|
        #![trigger engine_source(ps)]
        pieces_ok(ps, vars) && template == engine_source(ps) ==> (r matches Ok(s) && s@ == filled(
            ps,
            vars,
        ))
}

/// `tera::Tera::one_off(template, context, false)`, the context holding each
/// pair of `vars` as a string (a later pair of a name replacing an earlier
/// one). Claimed: a template made only of brace-free text and `{{ name }}`
/// tags whose plain names are bound renders to the text with each tag
/// replaced by its value (escaping is off). Other templates are left unsaid:
/// the engine's language reaches much further (and can read the
/// environment); its error is mapped to [`TemplateError::Render`].
#[verifier::external_body]
fn tera_render(template: &str, vars: &Vec<(String, String)>) -> (r: Result<String, TemplateError>)
    ensures
        plain_render(template@, vars_view(vars@), r),
{
    let mut ctx = tera::Context::new();
    for (k, v) in vars.iter() {
        ctx.insert(k.as_str(), v);
    }
    match tera::Tera::one_off(template, &ctx, false) {
        Ok(s) => Ok(s),
        Err(_) => Err(TemplateError::Render),
    }
}

proof fn lemma_tera_text_plain(t: Seq<char>, rest: Seq<char>, inside: bool)
    requires
        brace_free(t),
    ensures
        tera_text(t + rest, inside) == t + tera_text(rest, inside),
    decreases t.len(),
{
    if t.len() == 0 {
        assert(t + rest == rest);
        assert(t + tera_text(rest, inside) == tera_text(rest, inside));
    } else {
        let s = t + rest;
        assert(s[0] == t[0]);
        assert(s.drop_first() == t.drop_first() + rest);
        assert forall|i: int| 0 <= i < t.drop_first().len() implies #[trigger] t.drop_first()[i] != '{'
            && t.drop_first()[i] != '}' by {
            assert(t.drop_first()[i] == t[i + 1]);
        }
        lemma_tera_text_plain(t.drop_first(), rest, inside);
        assert(t == seq![t[0]] + t.drop_first());
    }
}

proof fn lemma_tera_text_pieces(ps: Pieces, vars: Seq<(Seq<char>, Seq<char>)>)
    requires
        pieces_ok(ps, vars),
    ensures
        tera_text(pattern_source(ps), false) == engine_source(ps),
    decreases ps.len(),
{
    reveal_strlit("{{ ");
    reveal_strlit(" }}");
    if ps.len() > 0 {
        let rest = ps.drop_first();
        assert forall|i: int| 0 <= i < rest.len() implies (if (#[trigger] rest[i]).0 {
            plain_name(rest[i].1) && var_value(vars, rest[i].1) is Some
        } else {
            brace_free(rest[i].1)
        }) by {
            assert(rest[i] == ps[i + 1]);
        }
        lemma_tera_text_pieces(rest, vars);
        let tail = pattern_source(rest);
        assert(pieces_ok(ps, vars));
        let p0 = ps[0];
        if p0.0 {
            let n = p0.1;
            assert(plain_name(n));
            assert(brace_free(n)) by {
                assert forall|i: int| 0 <= i < n.len() implies #[trigger] n[i] != '{' && n[i] != '}' by {
                    assert(('a' <= n[i] && n[i] <= 'z') || ('A' <= n[i] && n[i] <= 'Z') || ('0' <= n[i]
                        && n[i] <= '9') || n[i] == '_');
                }
            }
            let s = seq!['{'] + n + seq!['}'] + tail;
            assert(s[0] == '{');
            assert(s.drop_first() == n + (seq!['}'] + tail));
            lemma_tera_text_plain(n, seq!['}'] + tail, true);
            let u = seq!['}'] + tail;
            assert(u[0] == '}');
            assert(u.drop_first() == tail);
            assert(tera_text(u, true) == " }}"@ + tera_text(tail, false));
            assert(tera_text(s, false) == "{{ "@ + tera_text(s.drop_first(), true));
            assert(tera_text(s, false) == "{{ "@ + n + " }}"@ + engine_source(rest));
        } else {
            lemma_tera_text_plain(p0.1, tail, false);
        }
    }
}

/// Renders a `{name}` pattern with the variables: the pattern is rewritten
/// into the engine's form (see [`pattern_to_tera`]) and filled in. For a
/// pattern of brace-free text and `{name}` placeholders whose plain names
/// are all bound, the result is the pattern with each placeholder replaced
/// by its value; a pattern the engine cannot read gives an error.
pub fn render(pattern: &str, vars: &Vec<(String, String)>) -> (r: Result<String, TemplateError>)
    ensures
        forall|ps: Pieces|
            #![trigger pattern_source(ps)]
            pieces_ok(ps, vars_view(vars@)) && pattern@ == pattern_source(ps) ==> (r matches Ok(s)
                && s@ == filled(ps, vars_view(vars@))),
{
    let tpl = pattern_to_tera(pattern);
    proof {
        assert forall|ps: Pieces|
            pieces_ok(ps, vars_view(vars@)) && pattern@ == #[trigger] pattern_source(ps) implies tpl@
            == engine_source(ps) by {
            lemma_tera_text_pieces(ps, vars_view(vars@));
        }
    }
    tera_render(tpl.as_str(), vars)
}

fn ext_has_separator(ext: &str) -> (r: bool)
    ensures
        r == crate::path::has_separator(ext@),
{
    let e = chars_of(ext);
    let mut i: usize = 0;
    while i < e.len()
        invariant
            i <= e@.len(),
            e@ == ext@,
            forall|j: int| 0 <= j < i ==> e@[j] != '/' && e@[j] != '\\',
        decreases e.len() - i,
    {
        if e[i] == '/' || e[i] == '\\' {
            return true;
        }
        i = i + 1;
    }
    false
}

/// Renders a path pattern and gives the path the extension `ext` where it
/// has none (see [`crate::path::with_default_extension`]); an extension
/// holding a path separator is refused.
pub fn render_path(pattern: &str, vars: &Vec<(String, String)>, ext: &str) -> (r: Result<
    String,
    TemplateError,
>)
    ensures
        crate::path::has_separator(ext@) ==> r == Err::<String, TemplateError>(
            TemplateError::BadExtension,
        ),
        forall|ps: Pieces|
            #![trigger pattern_source(ps)]
            pieces_ok(ps, vars_view(vars@)) && pattern@ == pattern_source(ps)
                && !crate::path::has_separator(ext@) ==> (r matches Ok(s) && s@
                == crate::path::default_ext_path(filled(ps, vars_view(vars@)), ext@)),
{
    if ext_has_separator(ext) {
        return Err(TemplateError::BadExtension);
    }
    let rendered = match render(pattern, vars) {
        Ok(s) => s,
        Err(e) => {
            return Err(e);
        },
    };
    match crate::path::with_default_extension(rendered.as_str(), ext) {
        Some(p) => Ok(p),
        None => Err(TemplateError::BadExtension),
    }
}

} // verus!
