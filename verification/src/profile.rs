//! A login profile: the session cookies of one account, and how they are
//! read from and written to a `Cookie:` header.

use vstd::prelude::*;
use crate::cookie::{header_safe, header_text_ok, CookieMap, piece_pair, pair_of_piece, merge_cookies};
use crate::text::{chars_of, concat, is_str, join_strings, join_with, split_on, split_ranges};

verus! {

/// The cookies and account data of a login.
#[derive(Debug)]
pub struct AuthProfile {
    /// Profile name (the key it is stored under).
    pub name: String,
    /// Account id (0 when not logged in).
    pub mid: u64,
    /// User name.
    pub uname: String,
    /// Main session cookie, `SESSDATA`.
    pub sessdata: String,
    /// CSRF token, `bili_jct`.
    pub bili_jct: String,
    /// `DedeUserID` (TV login).
    pub dedeuserid: String,
    /// `ac_time_value` (TV login).
    pub ac_time_value: String,
    /// Device fingerprint v3.
    pub buvid3: String,
    /// Device fingerprint v4.
    pub buvid4: String,
    /// Every other cookie.
    pub cookies: CookieMap,
}

impl Default for AuthProfile {
    fn default() -> (r: AuthProfile)
        ensures
            r.name@.len() == 0 && r.uname@.len() == 0 && r.mid == 0,
            r.sessdata@.len() == 0 && r.bili_jct@.len() == 0 && r.dedeuserid@.len() == 0,
            r.ac_time_value@.len() == 0 && r.buvid3@.len() == 0 && r.buvid4@.len() == 0,
            r.cookies@.len() == 0,
    {
        AuthProfile {
            name: String::new(),
            mid: 0,
            uname: String::new(),
            sessdata: String::new(),
            bili_jct: String::new(),
            dedeuserid: String::new(),
            ac_time_value: String::new(),
            buvid3: String::new(),
            buvid4: String::new(),
            cookies: CookieMap::new(),
        }
    }
}

/// `name=value` when the value is not empty.
pub open spec fn part_if(name: Seq<char>, value: Seq<char>) -> Seq<Seq<char>> {
    if value.len() == 0 {
        seq![]
    } else {
        seq![name + "="@ + value]
    }
}

/// The `name=value` pieces of the cookie header of a profile: the known
/// cookies that are set, in a fixed order, then the other cookies.
pub open spec fn header_parts(p: AuthProfile) -> Seq<Seq<char>> {
    part_if("SESSDATA"@, p.sessdata@) + part_if("bili_jct"@, p.bili_jct@) + part_if(
        "DedeUserID"@,
        p.dedeuserid@,
    ) + part_if("ac_time_value"@, p.ac_time_value@) + part_if("buvid3"@, p.buvid3@) + part_if(
        "buvid4"@,
        p.buvid4@,
    ) + p.cookies@.map_values(|e: (Seq<char>, Seq<char>)| e.0 + "="@ + e.1)
}

/// The names that have a field of their own.
pub open spec fn known_cookie(k: Seq<char>) -> bool {
    k == "SESSDATA"@ || k == "bili_jct"@ || k == "DedeUserID"@ || k == "ac_time_value"@ || k
        == "buvid3"@ || k == "buvid4"@
}

/// The value of the last piece named `name`, or empty.
pub open spec fn last_value(pieces: Seq<Seq<char>>, name: Seq<char>) -> Seq<char>
    decreases pieces.len(),
{
    if pieces.len() == 0 {
        seq![]
    } else {
        match piece_pair(pieces.last()) {
            Some((k, v)) => if k == name {
                v
            } else {
                last_value(pieces.drop_last(), name)
            },
            None => last_value(pieces.drop_last(), name),
        }
    }
}

/// The cookies of the pieces whose names have no field of their own.
pub open spec fn other_cookies(pieces: Seq<Seq<char>>) -> Map<Seq<char>, Seq<char>>
    decreases pieces.len(),
{
    if pieces.len() == 0 {
        Map::empty()
    } else {
        match piece_pair(pieces.last()) {
            Some((k, v)) => if known_cookie(k) {
                other_cookies(pieces.drop_last())
            } else {
                other_cookies(pieces.drop_last()).insert(k, v)
            },
            None => other_cookies(pieces.drop_last()),
        }
    }
}

/// The new value of a field in a merge: the other profile's when set.
pub open spec fn prefer_set(old: Seq<char>, other: Seq<char>) -> Seq<char> {
    if other.len() > 0 {
        other
    } else {
        old
    }
}

fn push_part(parts: &mut Vec<String>, name: &str, value: &String)
    ensures
        final(parts)@.map_values(|p: String| p@) == old(parts)@.map_values(|p: String| p@) + part_if(
            name@,
            value@,
        ),
{
    let ghost before = parts@.map_values(|p: String| p@);
    if !value.as_str().is_empty() {
        let mut s = concat(name, "=");
        crate::text::push_str(&mut s, value.as_str());
        parts.push(s);
        assert(parts@.map_values(|p: String| p@) =~= before + part_if(name@, value@));
    } else {
        assert(parts@.map_values(|p: String| p@) =~= before + part_if(name@, value@));
    }
}

proof fn lemma_known_names_distinct()
    ensures
        "SESSDATA"@ != "bili_jct"@ && "SESSDATA"@ != "DedeUserID"@ && "SESSDATA"@ != "ac_time_value"@
            && "SESSDATA"@ != "buvid3"@ && "SESSDATA"@ != "buvid4"@,
        "bili_jct"@ != "DedeUserID"@ && "bili_jct"@ != "ac_time_value"@ && "bili_jct"@ != "buvid3"@
            && "bili_jct"@ != "buvid4"@,
        "DedeUserID"@ != "ac_time_value"@ && "DedeUserID"@ != "buvid3"@ && "DedeUserID"@
            != "buvid4"@,
        "ac_time_value"@ != "buvid3"@ && "ac_time_value"@ != "buvid4"@,
        "buvid3"@ != "buvid4"@,
{
    reveal_strlit("SESSDATA");
    reveal_strlit("bili_jct");
    reveal_strlit("DedeUserID");
    reveal_strlit("ac_time_value");
    reveal_strlit("buvid3");
    reveal_strlit("buvid4");
    assert("SESSDATA"@[0] != "bili_jct"@[0]);
    assert("SESSDATA"@[0] != "DedeUserID"@[0]);
    assert("bili_jct"@[0] != "DedeUserID"@[0]);
    assert("buvid3"@[5] != "buvid4"@[5]);
}

/// Files one `name=value` pair of a cookie header into the profile.
fn absorb(p: &mut AuthProfile, k: String, val: String)
    ensures
        final(p).name@ == old(p).name@ && final(p).uname@ == old(p).uname@ && final(p).mid == old(
            p,
        ).mid,
        final(p).sessdata@ == (if k@ == "SESSDATA"@ {
            val@
        } else {
            old(p).sessdata@
        }),
        final(p).bili_jct@ == (if k@ == "bili_jct"@ {
            val@
        } else {
            old(p).bili_jct@
        }),
        final(p).dedeuserid@ == (if k@ == "DedeUserID"@ {
            val@
        } else {
            old(p).dedeuserid@
        }),
        final(p).ac_time_value@ == (if k@ == "ac_time_value"@ {
            val@
        } else {
            old(p).ac_time_value@
        }),
        final(p).buvid3@ == (if k@ == "buvid3"@ {
            val@
        } else {
            old(p).buvid3@
        }),
        final(p).buvid4@ == (if k@ == "buvid4"@ {
            val@
        } else {
            old(p).buvid4@
        }),
        final(p).cookies.map() == (if known_cookie(k@) {
            old(p).cookies.map()
        } else {
            old(p).cookies.map().insert(k@, val@)
        }),
{
    proof {
        lemma_known_names_distinct();
    }
    if is_str(&k, "SESSDATA") {
        p.sessdata = val;
    } else if is_str(&k, "bili_jct") {
        p.bili_jct = val;
    } else if is_str(&k, "DedeUserID") {
        p.dedeuserid = val;
    } else if is_str(&k, "ac_time_value") {
        p.ac_time_value = val;
    } else if is_str(&k, "buvid3") {
        p.buvid3 = val;
    } else if is_str(&k, "buvid4") {
        p.buvid4 = val;
    } else {
        p.cookies.insert(k, val);
    }
}

/// The cookies of a login that get a field of their own.
pub open spec fn login_field(k: Seq<char>) -> bool {
    k == "SESSDATA"@ || k == "bili_jct"@ || k == "DedeUserID"@ || k == "buvid3"@ || k == "buvid4"@
}

/// The value of cookie `k`, empty where there is none.
pub open spec fn value_or_empty(m: Map<Seq<char>, Seq<char>>, k: Seq<char>) -> Seq<char> {
    if m.contains_key(k) {
        m[k]
    } else {
        seq![]
    }
}

/// The cookies of a login that get no field of their own.
pub open spec fn other_login_cookies(m: Map<Seq<char>, Seq<char>>) -> Map<Seq<char>, Seq<char>> {
    Map::new(|k: Seq<char>| m.contains_key(k) && !login_field(k), |k: Seq<char>| m[k])
}

/// Files one cookie of a login into the profile.
fn absorb_login(p: &mut AuthProfile, k: String, val: String)
    ensures
        final(p).name@ == old(p).name@ && final(p).uname@ == old(p).uname@ && final(p).mid == old(
            p,
        ).mid && final(p).ac_time_value@ == old(p).ac_time_value@,
        final(p).sessdata@ == (if k@ == "SESSDATA"@ {
            val@
        } else {
            old(p).sessdata@
        }),
        final(p).bili_jct@ == (if k@ == "bili_jct"@ {
            val@
        } else {
            old(p).bili_jct@
        }),
        final(p).dedeuserid@ == (if k@ == "DedeUserID"@ {
            val@
        } else {
            old(p).dedeuserid@
        }),
        final(p).buvid3@ == (if k@ == "buvid3"@ {
            val@
        } else {
            old(p).buvid3@
        }),
        final(p).buvid4@ == (if k@ == "buvid4"@ {
            val@
        } else {
            old(p).buvid4@
        }),
        final(p).cookies.map() == (if login_field(k@) {
            old(p).cookies.map()
        } else {
            old(p).cookies.map().insert(k@, val@)
        }),
{
    proof {
        lemma_known_names_distinct();
    }
    if is_str(&k, "SESSDATA") {
        p.sessdata = val;
    } else if is_str(&k, "bili_jct") {
        p.bili_jct = val;
    } else if is_str(&k, "DedeUserID") {
        p.dedeuserid = val;
    } else if is_str(&k, "buvid3") {
        p.buvid3 = val;
    } else if is_str(&k, "buvid4") {
        p.buvid4 = val;
    } else {
        p.cookies.insert(k, val);
    }
}

/// The profile `name` made of the cookies a login gave: `SESSDATA`,
/// `bili_jct`, `DedeUserID`, `buvid3` and `buvid4` in their fields (empty
/// where missing), every other cookie kept as it is.
pub fn login_profile(name: String, cookies: &CookieMap) -> (r: AuthProfile)
    ensures
        r.name@ == name@ && r.mid == 0 && r.uname@.len() == 0 && r.ac_time_value@.len() == 0,
        r.sessdata@ == value_or_empty(cookies.map(), "SESSDATA"@),
        r.bili_jct@ == value_or_empty(cookies.map(), "bili_jct"@),
        r.dedeuserid@ == value_or_empty(cookies.map(), "DedeUserID"@),
        r.buvid3@ == value_or_empty(cookies.map(), "buvid3"@),
        r.buvid4@ == value_or_empty(cookies.map(), "buvid4"@),
        r.cookies.map() == other_login_cookies(cookies.map()),
{
    let mut p = AuthProfile::default();
    p.name = name;
    let ghost es = cookies@;
    let n = cookies.len();
    let mut i: usize = 0;
    proof {
        assert(es.take(0) == Seq::<(Seq<char>, Seq<char>)>::empty());
        assert(other_login_cookies(crate::cookie::pairs_map(es.take(0))) =~= p.cookies.map());
    }
    while i < n
        invariant
            i <= n == es.len(),
            es == cookies@,
            p.name@ == name@ && p.mid == 0 && p.uname@.len() == 0 && p.ac_time_value@.len() == 0,
            p.sessdata@ == value_or_empty(crate::cookie::pairs_map(es.take(i as int)), "SESSDATA"@),
            p.bili_jct@ == value_or_empty(crate::cookie::pairs_map(es.take(i as int)), "bili_jct"@),
            p.dedeuserid@ == value_or_empty(
                crate::cookie::pairs_map(es.take(i as int)),
                "DedeUserID"@,
            ),
            p.buvid3@ == value_or_empty(crate::cookie::pairs_map(es.take(i as int)), "buvid3"@),
            p.buvid4@ == value_or_empty(crate::cookie::pairs_map(es.take(i as int)), "buvid4"@),
            p.cookies.map() == other_login_cookies(crate::cookie::pairs_map(es.take(i as int))),
        decreases n - i,
    {
        let (k, v) = cookies.entry(i);
        let ghost before = crate::cookie::pairs_map(es.take(i as int));
        proof {
            assert(es.take(i + 1).drop_last() == es.take(i as int));
            assert(es.take(i + 1).last() == es[i as int]);
            assert(other_login_cookies(before.insert(k@, v@)) =~= if login_field(k@) {
                other_login_cookies(before)
            } else {
                other_login_cookies(before).insert(k@, v@)
            });
        }
        absorb_login(&mut p, k.clone(), v.clone());
        i = i + 1;
    }
    assert(es.take(n as int) == es);
    p
}

impl AuthProfile {
    /// How the account is shown: its user name, `mid=<id>` where it has none.
    pub fn account_label(&self) -> (r: String)
        ensures
            r@ == if self.uname@.len() == 0 {
                "mid="@ + crate::text::dec(self.mid as nat)
            } else {
                self.uname@
            },
    {
        if self.uname.as_str().is_empty() {
            let mut r = crate::text::owned("mid=");
            crate::text::push_dec(&mut r, self.mid);
            r
        } else {
            self.uname.clone()
        }
    }
}

impl AuthProfile {
    /// Logged in: `SESSDATA` is set.
    pub fn is_logged_in(&self) -> (r: bool)
        ensures
            r == (self.sessdata@.len() > 0),
    {
        !self.sessdata.as_str().is_empty()
    }

    /// The `Cookie:` header: `SESSDATA`, `bili_jct`, `DedeUserID`,
    /// `ac_time_value`, `buvid3`, `buvid4` where set, then the other
    /// cookies, joined by `"; "`.
    pub fn cookie_header(&self) -> (s: String)
        ensures
            s@ == join_with(header_parts(*self), "; "@),
    {
        let mut parts: Vec<String> = Vec::new();
        push_part(&mut parts, "SESSDATA", &self.sessdata);
        push_part(&mut parts, "bili_jct", &self.bili_jct);
        push_part(&mut parts, "DedeUserID", &self.dedeuserid);
        push_part(&mut parts, "ac_time_value", &self.ac_time_value);
        push_part(&mut parts, "buvid3", &self.buvid3);
        push_part(&mut parts, "buvid4", &self.buvid4);
        let ghost known = parts@.map_values(|p: String| p@);
        let n = self.cookies.len();
        let mut i: usize = 0;
        while i < n
            invariant
                i <= n,
                n == self.cookies@.len(),
                parts@.map_values(|p: String| p@) == known + self.cookies@.take(i as int).map_values(
                    |e: (Seq<char>, Seq<char>)| e.0 + "="@ + e.1,
                ),
            decreases n - i,
        {
            let (k, v) = self.cookies.entry(i);
            let mut s = concat(k.as_str(), "=");
            crate::text::push_str(&mut s, v.as_str());
            let ghost before = parts@.map_values(|p: String| p@);
            let ghost sv = s@;
            parts.push(s);
            proof {
                assert(parts@.map_values(|p: String| p@) =~= before.push(sv));
                assert(sv == k@ + "="@ + v@);
                let f = |e: (Seq<char>, Seq<char>)| e.0 + "="@ + e.1;
                assert(self.cookies@.take(i + 1).map_values(f) =~= self.cookies@.take(
                    i as int,
                ).map_values(f).push(k@ + "="@ + v@));
                assert(parts@.map_values(|p: String| p@) =~= known + self.cookies@.take(
                    i + 1,
                ).map_values(f));
            }
            i = i + 1;
        }
        assert(self.cookies@.take(n as int) == self.cookies@);
        join_strings(&parts, "; ")
    }

    /// Reads a `Cookie:` header value: the six known names fill their fields
    /// (a later piece wins), every other `name=value` piece goes to
    /// `cookies`; everything else is empty.
    pub fn from_cookie_string(s: &str) -> (r: AuthProfile)
        ensures
            r.name@.len() == 0 && r.uname@.len() == 0 && r.mid == 0,
            r.sessdata@ == last_value(split_on(s@, ';'), "SESSDATA"@),
            r.bili_jct@ == last_value(split_on(s@, ';'), "bili_jct"@),
            r.dedeuserid@ == last_value(split_on(s@, ';'), "DedeUserID"@),
            r.ac_time_value@ == last_value(split_on(s@, ';'), "ac_time_value"@),
            r.buvid3@ == last_value(split_on(s@, ';'), "buvid3"@),
            r.buvid4@ == last_value(split_on(s@, ';'), "buvid4"@),
            r.cookies.map() == other_cookies(split_on(s@, ';')),
    {
        let mut p = AuthProfile::default();
        let v = chars_of(s);
        let ranges = split_ranges(&v, ';');
        let ghost pieces = split_on(s@, ';');
        let mut i: usize = 0;
        while i < ranges.len()
            invariant
                i <= ranges@.len(),
                v@ == s@,
                pieces == split_on(v@, ';'),
                ranges@.len() == pieces.len(),
                forall|j: int|
                    0 <= j < ranges@.len() ==> #[trigger] ranges@[j].0 <= ranges@[j].1 <= v@.len()
                        && v@.subrange(ranges@[j].0 as int, ranges@[j].1 as int) == pieces[j],
                p.name@.len() == 0 && p.uname@.len() == 0 && p.mid == 0,
                p.sessdata@ == last_value(pieces.take(i as int), "SESSDATA"@),
                p.bili_jct@ == last_value(pieces.take(i as int), "bili_jct"@),
                p.dedeuserid@ == last_value(pieces.take(i as int), "DedeUserID"@),
                p.ac_time_value@ == last_value(pieces.take(i as int), "ac_time_value"@),
                p.buvid3@ == last_value(pieces.take(i as int), "buvid3"@),
                p.buvid4@ == last_value(pieces.take(i as int), "buvid4"@),
                p.cookies.map() == other_cookies(pieces.take(i as int)),
            decreases ranges.len() - i,
        {
            let (lo, hi) = ranges[i];
            let pair = pair_of_piece(&v, lo, hi);
            proof {
                let t = pieces.take(i + 1);
                assert(t.drop_last() == pieces.take(i as int));
                assert(t.last() == pieces[i as int]);
            }
            match pair {
                Some((k, val)) => {
                    absorb(&mut p, k, val);
                },
                None => {},
            }
            i = i + 1;
        }
        assert(pieces.take(pieces.len() as int) == pieces);
        p
    }

    /// Takes every field that `other` has set (`SESSDATA`, `bili_jct`,
    /// `DedeUserID`, `ac_time_value`, `buvid3`, `buvid4`, a non-zero `mid`,
    /// the user name) and all of `other`'s cookies; keeps the rest.
    pub fn merge(&mut self, other: &AuthProfile)
        ensures
            final(self).sessdata@ == prefer_set(old(self).sessdata@, other.sessdata@),
            final(self).bili_jct@ == prefer_set(old(self).bili_jct@, other.bili_jct@),
            final(self).dedeuserid@ == prefer_set(old(self).dedeuserid@, other.dedeuserid@),
            final(self).buvid3@ == prefer_set(old(self).buvid3@, other.buvid3@),
            final(self).buvid4@ == prefer_set(old(self).buvid4@, other.buvid4@),
            final(self).uname@ == prefer_set(old(self).uname@, other.uname@),
            final(self).mid == (if other.mid != 0 {
                other.mid
            } else {
                old(self).mid
            }),
            final(self).name@ == old(self).name@,
            final(self).ac_time_value@ == prefer_set(old(self).ac_time_value@, other.ac_time_value@),
            final(self).cookies.map() == old(self).cookies.map().union_prefer_right(
                other.cookies.map(),
            ),
    {
        if !other.sessdata.as_str().is_empty() {
            self.sessdata = other.sessdata.clone();
        }
        if !other.bili_jct.as_str().is_empty() {
            self.bili_jct = other.bili_jct.clone();
        }
        if !other.dedeuserid.as_str().is_empty() {
            self.dedeuserid = other.dedeuserid.clone();
        }
        if !other.ac_time_value.as_str().is_empty() {
            self.ac_time_value = other.ac_time_value.clone();
        }
        if !other.buvid3.as_str().is_empty() {
            self.buvid3 = other.buvid3.clone();
        }
        if !other.buvid4.as_str().is_empty() {
            self.buvid4 = other.buvid4.clone();
        }
        if other.mid != 0 {
            self.mid = other.mid;
        }
        if !other.uname.as_str().is_empty() {
            self.uname = other.uname.clone();
        }
        merge_cookies(&mut self.cookies, &other.cookies);
    }
}

/// The device fingerprints that the home page sets: the `buvid3` and
/// `buvid4` of its `Set-Cookie` headers (a later header winning), each empty
/// where none is set.
pub fn buvid_from_set_cookies(headers: &[String]) -> (r: (String, String))
    ensures
        r.0@ == value_or_empty(
            crate::cookie::set_cookies_map(headers@.map_values(|h: String| h@)),
            "buvid3"@,
        ),
        r.1@ == value_or_empty(
            crate::cookie::set_cookies_map(headers@.map_values(|h: String| h@)),
            "buvid4"@,
        ),
{
    let m = crate::cookie::parse_set_cookie(headers);
    let b3 = match m.get("buvid3") {
        Some(v) => v.clone(),
        None => String::new(),
    };
    let b4 = match m.get("buvid4") {
        Some(v) => v.clone(),
        None => String::new(),
    };
    (b3, b4)
}


// ---------------------------------------------------------------------------
// The cookie header read back
// ---------------------------------------------------------------------------

/// `(name, value)` when the value is not empty.
pub open spec fn pair_if(name: Seq<char>, value: Seq<char>) -> Seq<(Seq<char>, Seq<char>)> {
    if value.len() == 0 {
        seq![]
    } else {
        seq![(name, value)]
    }
}

/// The `(name, value)` pairs of the known cookies that a profile has set, in
/// header order.
pub open spec fn known_pairs(p: AuthProfile) -> Seq<(Seq<char>, Seq<char>)> {
    pair_if("SESSDATA"@, p.sessdata@) + pair_if("bili_jct"@, p.bili_jct@) + pair_if(
        "DedeUserID"@,
        p.dedeuserid@,
    ) + pair_if("ac_time_value"@, p.ac_time_value@) + pair_if("buvid3"@, p.buvid3@) + pair_if(
        "buvid4"@,
        p.buvid4@,
    )
}

/// The value of the last pair named `name`, or empty.
pub open spec fn pairs_last(s: Seq<(Seq<char>, Seq<char>)>, name: Seq<char>) -> Seq<char>
    decreases s.len(),
{
    if s.len() == 0 {
        seq![]
    } else if s.last().0 == name {
        s.last().1
    } else {
        pairs_last(s.drop_last(), name)
    }
}

/// The pairs whose names have no field of their own, as a map (a later pair
/// winning).
pub open spec fn pairs_others(s: Seq<(Seq<char>, Seq<char>)>) -> Map<Seq<char>, Seq<char>>
    decreases s.len(),
{
    if s.len() == 0 {
        Map::empty()
    } else if known_cookie(s.last().0) {
        pairs_others(s.drop_last())
    } else {
        pairs_others(s.drop_last()).insert(s.last().0, s.last().1)
    }
}

/// A profile whose cookie header reads back as itself: the six known values
/// and the other cookies pass [`crate::cookie::header_safe`], and no other
/// cookie has a known name.
pub open spec fn profile_header_safe(p: AuthProfile) -> bool {
    &&& header_text_ok(p.sessdata@)
    &&& header_text_ok(p.bili_jct@)
    &&& header_text_ok(p.dedeuserid@)
    &&& header_text_ok(p.ac_time_value@)
    &&& header_text_ok(p.buvid3@)
    &&& header_text_ok(p.buvid4@)
    &&& header_safe(p.cookies@)
    &&& forall|i: int| 0 <= i < p.cookies@.len() ==> !known_cookie(#[trigger] p.cookies@[i].0)
}

proof fn lemma_pieces_follow_pairs(q: Seq<Seq<char>>, s: Seq<(Seq<char>, Seq<char>)>, name: Seq<char>)
    requires
        q.len() == s.len(),
        forall|i: int| 0 <= i < q.len() ==> piece_pair(#[trigger] q[i]) == Some(s[i]),
    ensures
        last_value(q, name) == pairs_last(s, name),
        other_cookies(q) == pairs_others(s),
    decreases q.len(),
{
    if q.len() > 0 {
        let q2 = q.drop_last();
        let s2 = s.drop_last();
        assert forall|i: int| 0 <= i < q2.len() implies piece_pair(#[trigger] q2[i]) == Some(s2[i]) by {
            assert(q2[i] == q[i]);
            assert(s2[i] == s[i]);
        }
        lemma_pieces_follow_pairs(q2, s2, name);
        assert(piece_pair(q[q.len() - 1]) == Some(s[s.len() - 1]));
    }
}

proof fn lemma_pairs_last_skip(a: Seq<(Seq<char>, Seq<char>)>, b: Seq<(Seq<char>, Seq<char>)>, name: Seq<char>)
    requires
        forall|i: int| 0 <= i < b.len() ==> (#[trigger] b[i]).0 != name,
    ensures
        pairs_last(a + b, name) == pairs_last(a, name),
    decreases b.len(),
{
    if b.len() == 0 {
        assert(a + b == a);
    } else {
        let b2 = b.drop_last();
        assert forall|i: int| 0 <= i < b2.len() implies (#[trigger] b2[i]).0 != name by {
            assert(b2[i] == b[i]);
        }
        lemma_pairs_last_skip(a, b2, name);
        assert((a + b).drop_last() == a + b2);
        assert((a + b).last() == b[b.len() - 1]);
    }
}

proof fn lemma_pairs_last_if(a: Seq<(Seq<char>, Seq<char>)>, name: Seq<char>, v: Seq<char>)
    requires
        forall|i: int| 0 <= i < a.len() ==> (#[trigger] a[i]).0 != name,
    ensures
        pairs_last(a + pair_if(name, v), name) == v,
{
    let e = Seq::<(Seq<char>, Seq<char>)>::empty();
    lemma_pairs_last_skip(e, a, name);
    assert(e + a == a);
    if v.len() == 0 {
        assert(a + pair_if(name, v) == a);
    } else {
        assert((a + pair_if(name, v)).last() == (name, v));
    }
}

proof fn lemma_pairs_others_tail(a: Seq<(Seq<char>, Seq<char>)>, b: Seq<(Seq<char>, Seq<char>)>)
    requires
        forall|i: int| 0 <= i < a.len() ==> known_cookie((#[trigger] a[i]).0),
        forall|i: int| 0 <= i < b.len() ==> !known_cookie((#[trigger] b[i]).0),
    ensures
        pairs_others(a + b) == crate::cookie::pairs_map(b),
    decreases a.len() + b.len(),
{
    if b.len() == 0 {
        assert(a + b == a);
        if a.len() > 0 {
            let a2 = a.drop_last();
            assert forall|i: int| 0 <= i < a2.len() implies known_cookie((#[trigger] a2[i]).0) by {
                assert(a2[i] == a[i]);
            }
            lemma_pairs_others_tail(a2, b);
            assert(a2 + b == a2);
            assert(known_cookie(a[a.len() - 1].0));
        }
    } else {
        let b2 = b.drop_last();
        assert forall|i: int| 0 <= i < b2.len() implies !known_cookie((#[trigger] b2[i]).0) by {
            assert(b2[i] == b[i]);
        }
        lemma_pairs_others_tail(a, b2);
        assert((a + b).drop_last() == a + b2);
        assert((a + b).last() == b[b.len() - 1]);
        assert(!known_cookie(b[b.len() - 1].0));
    }
}


proof fn lemma_known_name_ok(n: Seq<char>)
    requires
        known_cookie(n),
    ensures
        header_text_ok(n),
        forall|j: int| 0 <= j < n.len() ==> n[j] != '=',
{
    reveal_strlit("SESSDATA");
    reveal_strlit("bili_jct");
    reveal_strlit("DedeUserID");
    reveal_strlit("ac_time_value");
    reveal_strlit("buvid3");
    reveal_strlit("buvid4");
}

/// The pieces that reading the cookie header of `p` splits it into.
pub open spec fn header_pieces(p: AuthProfile) -> Seq<Seq<char>> {
    split_on(join_with(header_parts(p), "; "@), ';')
}

proof fn lemma_header_parts(p: AuthProfile)
    ensures
        header_parts(p).len() == (known_pairs(p) + p.cookies@).len(),
        forall|i: int|
            0 <= i < header_parts(p).len() ==> #[trigger] header_parts(p)[i] == (known_pairs(p)
                + p.cookies@)[i].0 + "="@ + (known_pairs(p) + p.cookies@)[i].1,
{
    let f = |e: (Seq<char>, Seq<char>)| e.0 + "="@ + e.1;
    let s = known_pairs(p) + p.cookies@;
    assert(header_parts(p) =~= s.map_values(f));
}


proof fn lemma_pairs_last_step(a: Seq<(Seq<char>, Seq<char>)>, m: Seq<char>, v: Seq<char>, n: Seq<char>)
    requires
        m != n,
    ensures
        pairs_last(a + pair_if(m, v), n) == pairs_last(a, n),
{
    lemma_pairs_last_skip(a, pair_if(m, v), n);
}

proof fn lemma_known_pairs_last(p: AuthProfile)
    ensures
        pairs_last(known_pairs(p), "SESSDATA"@) == p.sessdata@,
        pairs_last(known_pairs(p), "bili_jct"@) == p.bili_jct@,
        pairs_last(known_pairs(p), "DedeUserID"@) == p.dedeuserid@,
        pairs_last(known_pairs(p), "ac_time_value"@) == p.ac_time_value@,
        pairs_last(known_pairs(p), "buvid3"@) == p.buvid3@,
        pairs_last(known_pairs(p), "buvid4"@) == p.buvid4@,
{
    lemma_known_names_distinct();
    let (n1, n2, n3, n4, n5, n6) = (
        "SESSDATA"@,
        "bili_jct"@,
        "DedeUserID"@,
        "ac_time_value"@,
        "buvid3"@,
        "buvid4"@,
    );
    let a1 = pair_if(n1, p.sessdata@);
    let a2 = a1 + pair_if(n2, p.bili_jct@);
    let a3 = a2 + pair_if(n3, p.dedeuserid@);
    let a4 = a3 + pair_if(n4, p.ac_time_value@);
    let a5 = a4 + pair_if(n5, p.buvid3@);
    let k = a5 + pair_if(n6, p.buvid4@);
    assert(k == known_pairs(p));
    let e = Seq::<(Seq<char>, Seq<char>)>::empty();
    assert(e + a1 == a1);
    assert(pairs_last(k, n1) == p.sessdata@) by {
        lemma_pairs_last_step(a5, n6, p.buvid4@, n1);
        lemma_pairs_last_step(a4, n5, p.buvid3@, n1);
        lemma_pairs_last_step(a3, n4, p.ac_time_value@, n1);
        lemma_pairs_last_step(a2, n3, p.dedeuserid@, n1);
        lemma_pairs_last_step(a1, n2, p.bili_jct@, n1);
        lemma_pairs_last_if(e, n1, p.sessdata@);
    }
    assert(pairs_last(k, n2) == p.bili_jct@) by {
        lemma_pairs_last_step(a5, n6, p.buvid4@, n2);
        lemma_pairs_last_step(a4, n5, p.buvid3@, n2);
        lemma_pairs_last_step(a3, n4, p.ac_time_value@, n2);
        lemma_pairs_last_step(a2, n3, p.dedeuserid@, n2);
        lemma_pairs_last_step(e, n1, p.sessdata@, n2);
        lemma_pairs_last_if(a1, n2, p.bili_jct@);
    }
    assert(pairs_last(k, n3) == p.dedeuserid@) by {
        lemma_pairs_last_step(a5, n6, p.buvid4@, n3);
        lemma_pairs_last_step(a4, n5, p.buvid3@, n3);
        lemma_pairs_last_step(a3, n4, p.ac_time_value@, n3);
        lemma_pairs_last_step(a1, n2, p.bili_jct@, n3);
        lemma_pairs_last_step(e, n1, p.sessdata@, n3);
        lemma_pairs_last_if(a2, n3, p.dedeuserid@);
    }
    assert(pairs_last(k, n4) == p.ac_time_value@) by {
        lemma_pairs_last_step(a5, n6, p.buvid4@, n4);
        lemma_pairs_last_step(a4, n5, p.buvid3@, n4);
        lemma_pairs_last_step(a2, n3, p.dedeuserid@, n4);
        lemma_pairs_last_step(a1, n2, p.bili_jct@, n4);
        lemma_pairs_last_step(e, n1, p.sessdata@, n4);
        lemma_pairs_last_if(a3, n4, p.ac_time_value@);
    }
    assert(pairs_last(k, n5) == p.buvid3@) by {
        lemma_pairs_last_step(a5, n6, p.buvid4@, n5);
        lemma_pairs_last_step(a3, n4, p.ac_time_value@, n5);
        lemma_pairs_last_step(a2, n3, p.dedeuserid@, n5);
        lemma_pairs_last_step(a1, n2, p.bili_jct@, n5);
        lemma_pairs_last_step(e, n1, p.sessdata@, n5);
        lemma_pairs_last_if(a4, n5, p.buvid3@);
    }
    assert(pairs_last(k, n6) == p.buvid4@) by {
        lemma_pairs_last_step(a4, n5, p.buvid3@, n6);
        lemma_pairs_last_step(a3, n4, p.ac_time_value@, n6);
        lemma_pairs_last_step(a2, n3, p.dedeuserid@, n6);
        lemma_pairs_last_step(a1, n2, p.bili_jct@, n6);
        lemma_pairs_last_step(e, n1, p.sessdata@, n6);
        lemma_pairs_last_if(a5, n6, p.buvid4@);
    }
}

proof fn lemma_header_pieces_pairs(p: AuthProfile, n: Seq<char>)
    requires
        profile_header_safe(p),
    ensures
        last_value(header_pieces(p), n) == pairs_last(known_pairs(p) + p.cookies@, n),
        other_cookies(header_pieces(p)) == pairs_others(known_pairs(p) + p.cookies@),
{
    let k = known_pairs(p);
    let c = p.cookies@;
    let s = k + c;
    let parts = header_parts(p);
    let q = header_pieces(p);
    lemma_header_parts(p);
    assert forall|i: int| 0 <= i < s.len() implies header_text_ok((#[trigger] s[i]).0)
        && header_text_ok(s[i].1) && (forall|j: int| 0 <= j < s[i].0.len() ==> s[i].0[j] != '=') by {
        if i < k.len() {
            assert(s[i] == k[i]);
            lemma_known_name_ok(k[i].0);
        } else {
            assert(s[i] == c[i - k.len()]);
        }
    }
    if parts.len() == 0 {
        crate::text::lemma_split_on_free(Seq::<char>::empty(), ';');
        assert(q == seq![Seq::<char>::empty()]);
        crate::text::lemma_trim_unchanged(Seq::<char>::empty());
        crate::text::lemma_first_index(Seq::<char>::empty(), '=');
        assert(piece_pair(q[0]) is None);
        assert(q.drop_last().len() == 0);
        assert(s.len() == 0);
        assert(q.last() == Seq::<char>::empty());
        assert(last_value(q, n) == last_value(q.drop_last(), n));
        assert(other_cookies(q) == other_cookies(q.drop_last()));
    } else {
        assert forall|i: int| 0 <= i < s.len() implies piece_pair(#[trigger] parts[i]) == Some(s[i])
            && piece_pair(seq![' '] + parts[i]) == Some(s[i]) && (forall|j: int|
            0 <= j < parts[i].len() ==> parts[i][j] != ';') by {
            crate::cookie::lemma_pair_text(s[i].0, s[i].1);
            assert(seq![' '] + parts[i] == seq![' '] + s[i].0 + "="@ + s[i].1);
        }
        assert forall|i: int, j: int| 0 <= i < parts.len() && 0 <= j < parts[i].len() implies #[trigger] parts[i][j]
            != ';' by {
            assert(piece_pair(parts[i]) == Some(s[i]));
        }
        crate::text::lemma_split_joined(parts);
        assert forall|i: int| 0 <= i < q.len() implies piece_pair(#[trigger] q[i]) == Some(s[i]) by {
            assert(piece_pair(parts[i]) == Some(s[i]));
        }
        lemma_pieces_follow_pairs(q, s, n);
    }
}

proof fn lemma_field_back(p: AuthProfile, n: Seq<char>)
    requires
        profile_header_safe(p),
        known_cookie(n),
    ensures
        last_value(header_pieces(p), n) == pairs_last(known_pairs(p), n),
{
    lemma_header_pieces_pairs(p, n);
    lemma_pairs_last_skip(known_pairs(p), p.cookies@, n);
}

/// The cookie header of a profile reads back as the same login: each of the
/// six known cookies gets its value back, and the other cookies come back as
/// they were, for a profile whose header carries its values unchanged
/// ([`profile_header_safe`]).
pub proof fn law_profile_header_round_trip(p: AuthProfile)
    requires
        profile_header_safe(p),
    ensures
        last_value(header_pieces(p), "SESSDATA"@) == p.sessdata@,
        last_value(header_pieces(p), "bili_jct"@) == p.bili_jct@,
        last_value(header_pieces(p), "DedeUserID"@) == p.dedeuserid@,
        last_value(header_pieces(p), "ac_time_value"@) == p.ac_time_value@,
        last_value(header_pieces(p), "buvid3"@) == p.buvid3@,
        last_value(header_pieces(p), "buvid4"@) == p.buvid4@,
        other_cookies(header_pieces(p)) == p.cookies.map(),
{
    let k = known_pairs(p);
    let c = p.cookies@;
    lemma_known_pairs_last(p);
    lemma_field_back(p, "SESSDATA"@);
    lemma_field_back(p, "bili_jct"@);
    lemma_field_back(p, "DedeUserID"@);
    lemma_field_back(p, "ac_time_value"@);
    lemma_field_back(p, "buvid3"@);
    lemma_field_back(p, "buvid4"@);
    lemma_header_pieces_pairs(p, seq![]);
    assert forall|i: int| 0 <= i < k.len() implies known_cookie((#[trigger] k[i]).0) by {}
    lemma_pairs_others_tail(k, c);
}

} // verus!
