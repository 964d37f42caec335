//! File names: cleaning a title into a file name, the file name of a link,
//! output paths, and a free name next to an existing file.

use vstd::prelude::*;
use crate::text::{
    chars_of, concat, dec, is_ws, owned, push_char, push_dec, push_str, split_on, split_ranges,
    string_of_range, trim, trim_bounds,
};

verus! {

/// A character that file names cannot hold: `\ / : * ? " < > |`.
pub open spec fn forbidden_char(c: char) -> bool {
    c == '\\' || c == '/' || c == ':' || c == '*' || c == '?' || c == '"' || c == '<' || c == '>'
        || c == '|'
}

/// A control character (general category `Cc`).
pub open spec fn control_char(c: char) -> bool {
    (c as u32) <= 0x1f || (0x7f <= (c as u32) && (c as u32) <= 0x9f)
}

/// How one character of a title is written in a file name: forbidden
/// characters become the ideographic space U+3000, control characters `_`.
pub open spec fn clean_char(c: char) -> char {
    if forbidden_char(c) {
        '\u{3000}'
    } else if control_char(c) {
        '_'
    } else {
        c
    }
}

/// `s` without its trailing `.`s.
pub open spec fn strip_dots(s: Seq<char>) -> Seq<char>
    decreases s.len(),
{
    if s.len() > 0 && s.last() == '.' {
        strip_dots(s.drop_last())
    } else {
        s
    }
}

/// A title as a file name: each character cleaned, then trimmed, then
/// trailing `.`s removed.
pub open spec fn clean_name(s: Seq<char>) -> Seq<char> {
    strip_dots(trim(s.map_values(|c: char| clean_char(c))))
}

fn clean_char_exec(c: char) -> (r: char)
    ensures
        r == clean_char(c),
{
    if c == '\\' || c == '/' || c == ':' || c == '*' || c == '?' || c == '"' || c == '<' || c == '>'
        || c == '|' {
        '\u{3000}'
    } else if (c as u32) <= 0x1f || (0x7f <= (c as u32) && (c as u32) <= 0x9f) {
        '_'
    } else {
        c
    }
}

/// Cleans a title into a file name (see [`clean_name`]).
pub fn sanitize_filename(name: &str) -> (r: String)
    ensures
        r@ == clean_name(name@),
{
    let v = chars_of(name);
    let mut m: Vec<char> = Vec::new();
    let mut i: usize = 0;
    while i < v.len()
        invariant
            i <= v@.len(),
            v@ == name@,
            m@ == v@.take(i as int).map_values(|c: char| clean_char(c)),
        decreases v.len() - i,
    {
        m.push(clean_char_exec(v[i]));
        proof {
            assert(v@.take(i + 1).map_values(|c: char| clean_char(c)) =~= v@.take(i as int).map_values(
                |c: char| clean_char(c),
            ).push(clean_char(v@[i as int])));
        }
        i = i + 1;
    }
    assert(v@.take(v@.len() as int) == v@);
    let (a, b) = trim_bounds(&m, 0, m.len());
    assert(m@.subrange(0, m@.len() as int) == m@);
    let mut e = b;
    while e > a && m[e - 1] == '.'
        invariant
            a <= e <= b <= m@.len(),
            strip_dots(m@.subrange(a as int, b as int)) == strip_dots(m@.subrange(a as int, e as int)),
        decreases e - a,
    {
        assert(m@.subrange(a as int, e as int).drop_last() == m@.subrange(a as int, e - 1));
        e = e - 1;
    }
    string_of_range(&m, a, e)
}

/// Every character of `s` may stand in a file name: none is forbidden and
/// none is a control character.
pub open spec fn name_chars_ok(s: Seq<char>) -> bool {
    forall|i: int| 0 <= i < s.len() ==> !forbidden_char(#[trigger] s[i]) && !control_char(s[i])
}

proof fn lemma_trim_start_keeps_ok(s: Seq<char>)
    requires
        name_chars_ok(s),
    ensures
        name_chars_ok(crate::text::trim_start(s)),
    decreases s.len(),
{
    if s.len() > 0 && is_ws(s[0]) {
        let t = s.drop_first();
        assert forall|i: int| 0 <= i < t.len() implies !forbidden_char(#[trigger] t[i])
            && !control_char(t[i]) by {
            assert(t[i] == s[i + 1]);
        }
        lemma_trim_start_keeps_ok(t);
    }
}

proof fn lemma_drop_last_keeps_ok(s: Seq<char>)
    requires
        name_chars_ok(s),
        s.len() > 0,
    ensures
        name_chars_ok(s.drop_last()),
{
    let t = s.drop_last();
    assert forall|i: int| 0 <= i < t.len() implies !forbidden_char(#[trigger] t[i]) && !control_char(
        t[i],
    ) by {
        assert(t[i] == s[i]);
    }
}

proof fn lemma_trim_end_keeps_ok(s: Seq<char>)
    requires
        name_chars_ok(s),
    ensures
        name_chars_ok(crate::text::trim_end(s)),
    decreases s.len(),
{
    if s.len() > 0 && is_ws(s.last()) {
        lemma_drop_last_keeps_ok(s);
        lemma_trim_end_keeps_ok(s.drop_last());
    }
}

proof fn lemma_strip_dots_keeps_ok(s: Seq<char>)
    requires
        name_chars_ok(s),
    ensures
        name_chars_ok(strip_dots(s)),
        strip_dots(s).len() > 0 ==> strip_dots(s).last() != '.',
    decreases s.len(),
{
    if s.len() > 0 && s.last() == '.' {
        lemma_drop_last_keeps_ok(s);
        lemma_strip_dots_keeps_ok(s.drop_last());
    }
}

/// A cleaned title can always stand as a file name: it holds no forbidden
/// character, no control character, and does not end with `.`.
pub proof fn law_sanitized_name_is_clean(name: Seq<char>)
    ensures
        name_chars_ok(clean_name(name)),
        clean_name(name).len() > 0 ==> clean_name(name).last() != '.',
{
    let m = name.map_values(|c: char| clean_char(c));
    assert forall|i: int| 0 <= i < m.len() implies !forbidden_char(#[trigger] m[i]) && !control_char(
        m[i],
    ) by {
        assert(m[i] == clean_char(name[i]));
    }
    lemma_trim_start_keeps_ok(m);
    lemma_trim_end_keeps_ok(crate::text::trim_start(m));
    lemma_strip_dots_keeps_ok(trim(m));
}

/// `s` without its trailing `/`s.
pub open spec fn strip_slashes(s: Seq<char>) -> Seq<char>
    decreases s.len(),
{
    if s.len() > 0 && s.last() == '/' {
        strip_slashes(s.drop_last())
    } else {
        s
    }
}

/// The file name of a link: the last `/`-piece of the part before `?`
/// (trailing `/`s removed), cleaned; `None` when that piece is empty.
pub open spec fn link_file_name(url: Seq<char>) -> Option<Seq<char>> {
    let path = strip_slashes(split_on(url, '?')[0]);
    let parts = split_on(path, '/');
    let last = parts[parts.len() - 1];
    if last.len() == 0 {
        None
    } else {
        Some(clean_name(last))
    }
}

/// The file name of a link (see [`link_file_name`]).
pub fn url_to_filename(url: &str) -> (r: Option<String>)
    ensures
        match link_file_name(url@) {
            Some(n) => r matches Some(s) && s@ == n,
            None => r is None,
        },
{
    let v = chars_of(url);
    let q = split_ranges(&v, '?');
    let (a, b) = q[0];
    let mut e = b;
    while e > a && v[e - 1] == '/'
        invariant
            a <= e <= b <= v@.len(),
            strip_slashes(v@.subrange(a as int, b as int)) == strip_slashes(v@.subrange(a as int, e as int)),
        decreases e - a,
    {
        assert(v@.subrange(a as int, e as int).drop_last() == v@.subrange(a as int, e - 1));
        e = e - 1;
    }
    let path = string_of_range(&v, a, e);
    let pv = chars_of(path.as_str());
    let parts = split_ranges(&pv, '/');
    let (c, d) = parts[parts.len() - 1];
    if c == d {
        return None;
    }
    let last = string_of_range(&pv, c, d);
    Some(sanitize_filename(last.as_str()))
}

/// What `Path::new(a).join(b)` gives, as text.
pub uninterp spec fn path_joined(a: Seq<char>, b: Seq<char>) -> Seq<char>;

/// `Path::new(a).join(b)`, as text.
#[verifier::external_body]
fn path_join(a: &str, b: &str) -> (r: String)
    ensures
        r@ == path_joined(a@, b@),
{
    std::path::Path::new(a).join(b).to_string_lossy().into_owned()
}

/// The path that the cleaned pieces of `relative` make when pushed one by
/// one onto an empty path.
pub open spec fn joined_pieces(pieces: Seq<Seq<char>>) -> Seq<char>
    decreases pieces.len(),
{
    if pieces.len() == 0 {
        seq![]
    } else {
        path_joined(joined_pieces(pieces.drop_last()), clean_name(pieces.last()))
    }
}

/// The output path: `base` joined with the `/`-pieces of `relative`, each
/// cleaned into a file name.
pub fn join_output(base: &str, relative: &str) -> (r: String)
    ensures
        r@ == path_joined(base@, joined_pieces(split_on(relative@, '/'))),
{
    let v = chars_of(relative);
    let parts = split_ranges(&v, '/');
    let ghost pieces = split_on(relative@, '/');
    let mut acc = String::new();
    let mut i: usize = 0;
    while i < parts.len()
        invariant
            i <= parts@.len(),
            v@ == relative@,
            pieces == split_on(v@, '/'),
            parts@.len() == pieces.len(),
            forall|j: int|
                0 <= j < parts@.len() ==> #[trigger] parts@[j].0 <= parts@[j].1 <= v@.len() && v@.subrange(
                    parts@[j].0 as int,
                    parts@[j].1 as int,
                ) == pieces[j],
            acc@ == joined_pieces(pieces.take(i as int)),
        decreases parts.len() - i,
    {
        let (a, b) = parts[i];
        let piece = string_of_range(&v, a, b);
        let clean = sanitize_filename(piece.as_str());
        acc = path_join(acc.as_str(), clean.as_str());
        proof {
            let t = pieces.take(i + 1);
            assert(t.drop_last() == pieces.take(i as int));
            assert(t.last() == pieces[i as int]);
        }
        i = i + 1;
    }
    assert(pieces.take(pieces.len() as int) == pieces);
    path_join(base, acc.as_str())
}

/// Whether a file exists at `p`; the answer depends on the disk, so nothing
/// is stated of it.
#[verifier::external_body]
fn path_exists(p: &str) -> bool {
    std::path::Path::new(p).exists()
}

/// `Path::parent`, as text.
pub uninterp spec fn path_parent_of(p: Seq<char>) -> Option<Seq<char>>;

/// `Path::file_stem`, as text.
pub uninterp spec fn path_stem_of(p: Seq<char>) -> Option<Seq<char>>;

/// `Path::extension`, as text.
pub uninterp spec fn path_ext_of(p: Seq<char>) -> Option<Seq<char>>;

/// `Path::new(p).parent()`, as text.
#[verifier::external_body]
fn path_parent(p: &str) -> (r: Option<String>)
    ensures
        match path_parent_of(p@) {
            Some(x) => r matches Some(s) && s@ == x,
            None => r is None,
        },
{
    std::path::Path::new(p).parent().map(|q| q.to_string_lossy().into_owned())
}

/// `Path::new(p).file_stem()`, as text (`None` also when it is not UTF-8).
#[verifier::external_body]
fn path_file_stem(p: &str) -> (r: Option<String>)
    ensures
        match path_stem_of(p@) {
            Some(x) => r matches Some(s) && s@ == x,
            None => r is None,
        },
{
    std::path::Path::new(p).file_stem().and_then(|s| s.to_str()).map(|s| s.to_string())
}

/// `Path::new(p).extension()`, as text (`None` also when it is not UTF-8).
#[verifier::external_body]
fn path_extension(p: &str) -> (r: Option<String>)
    ensures
        match path_ext_of(p@) {
            Some(x) => r matches Some(s) && s@ == x,
            None => r is None,
        },
{
    std::path::Path::new(p).extension().and_then(|s| s.to_str()).map(|s| s.to_string())
}

/// `PathBuf::set_extension`, as text.
pub uninterp spec fn path_with_ext_of(p: Seq<char>, ext: Seq<char>) -> Seq<char>;

/// Whether `s` holds a path separator (`/`, or `\\` on Windows).
pub open spec fn has_separator(s: Seq<char>) -> bool {
    exists|i: int| 0 <= i < s.len() && (s[i] == '/' || s[i] == '\\')
}

/// `PathBuf::from(p)` after `set_extension(ext)`, as text. Claimed: the
/// result is [`path_with_ext_of`] of the two texts, a function of them
/// alone. `set_extension` panics on an extension that holds a separator,
/// which `requires` leaves out.
#[verifier::external_body]
fn path_set_extension(p: &str, ext: &str) -> (r: String)
    requires
        !has_separator(ext@),
    ensures
        r@ == path_with_ext_of(p@, ext@),
{
    let mut b = std::path::PathBuf::from(p);
    b.set_extension(ext);
    b.to_string_lossy().into_owned()
}

/// A rendered path with an extension: `None` when `ext` holds a path
/// separator; otherwise `ext` is set when it is not empty and the path has
/// none, and the path is kept as it is otherwise.
pub fn with_default_extension(path: &str, ext: &str) -> (r: Option<String>)
    ensures
        has_separator(ext@) <==> r is None,
        r matches Some(s) ==> s@ == default_ext_path(path@, ext@),
{
    let e = chars_of(ext);
    let mut i: usize = 0;
    while i < e.len()
        invariant
            i <= e@.len(),
            e@ == ext@,
            forall|j: int| 0 <= j < i ==> e@[j] != '/' && e@[j] != '\\',
        decreases e.len() - i,
    {
        if e[i] == '/' || e[i] == '\\' {
            return None;
        }
        i = i + 1;
    }
    if e.len() > 0 && path_extension(path).is_none() {
        Some(path_set_extension(path, ext))
    } else {
        Some(owned(path))
    }
}

/// The path with the default extension `ext` (see
/// [`with_default_extension`]).
pub open spec fn default_ext_path(path: Seq<char>, ext: Seq<char>) -> Seq<char> {
    if ext.len() > 0 && path_ext_of(path) is None {
        path_with_ext_of(path, ext)
    } else {
        path
    }
}

/// The `n`-th free-name candidate next to `target`:
/// `<parent>/<stem> (<n>)[.<ext>]`.
pub open spec fn unique_candidate(target: Seq<char>, n: nat) -> Seq<char> {
    let parent = match path_parent_of(target) {
        Some(p) => p,
        None => "."@,
    };
    let stem = match path_stem_of(target) {
        Some(s) => s,
        None => "file"@,
    };
    let ext = match path_ext_of(target) {
        Some(e) => e,
        None => seq![],
    };
    let name = if ext.len() == 0 {
        stem + " ("@ + dec(n) + ")"@
    } else {
        stem + " ("@ + dec(n) + ")."@ + ext
    };
    path_joined(parent, name)
}

/// Candidate `n` is the first free one: `n` is in `1..=9999`, its answer
/// is "free", and every candidate before it is taken.
pub open spec fn first_free(taken: Seq<bool>, n: int) -> bool {
    &&& 1 <= n <= 9999
    &&& !taken[n]
    &&& forall|m: int| 1 <= m < n ==> #[trigger] taken[m]
}

/// The path chosen for a new file at `target`, given whether the target
/// (`taken[0]`) and each candidate `n` (`taken[n]`) are taken: the target
/// when it is free, else the first free candidate, else the target.
pub open spec fn unique_choice(target: Seq<char>, taken: Seq<bool>) -> Seq<char> {
    if !taken[0] {
        target
    } else if exists|n: int| first_free(taken, n) {
        unique_candidate(target, (choose|n: int| first_free(taken, n)) as nat)
    } else {
        target
    }
}

/// The `n`-th candidate (see [`unique_candidate`]).
fn candidate_path(target: &str, n: u64) -> (r: String)
    ensures
        r@ == unique_candidate(target@, n as nat),
{
    let parent = match path_parent(target) {
        Some(p) => p,
        None => owned("."),
    };
    let stem = match path_file_stem(target) {
        Some(s) => s,
        None => owned("file"),
    };
    let ext = match path_extension(target) {
        Some(e) => e,
        None => String::new(),
    };
    let mut name = concat(stem.as_str(), " (");
    push_dec(&mut name, n);
    if ext.as_str().is_empty() {
        push_str(&mut name, ")");
    } else {
        push_str(&mut name, ").");
        push_str(&mut name, ext.as_str());
    }
    path_join(parent.as_str(), name.as_str())
}

/// The path for a new file at `target`, given the answers `taken` (see
/// [`unique_choice`]).
pub fn pick_unique(target: &str, taken: &Vec<bool>) -> (r: String)
    requires
        taken@.len() == 10000,
    ensures
        r@ == unique_choice(target@, taken@),
{
    if !taken[0] {
        return owned(target);
    }
    let mut n: usize = 1;
    while n <= 9999
        invariant
            1 <= n <= 10000,
            taken@.len() == 10000,
            taken@[0],
            forall|m: int| 1 <= m < n ==> #[trigger] taken@[m],
        decreases 10000 - n,
    {
        if !taken[n] {
            proof {
                assert(first_free(taken@, n as int));
                let k = choose|k: int| first_free(taken@, k);
                if k < n {
                    assert(taken@[k]);
                }
                if k > n {
                    assert(taken@[n as int]);
                }
            }
            return candidate_path(target, n as u64);
        }
        n = n + 1;
    }
    proof {
        assert forall|k: int| !first_free(taken@, k) by {
            if 1 <= k <= 9999 {
                assert(taken@[k]);
            }
        }
    }
    owned(target)
}

/// A path for a new file at `target`: the disk is asked whether the target,
/// then candidate 1, 2, … (up to 9999) exist, stopping at the first that
/// does not; [`pick_unique`] then chooses from those answers (the answers
/// not asked for count as taken). Which answers the disk gives is not known
/// here; the result is [`unique_choice`] of them.
pub fn unique_path(target: &str) -> (r: String)
    ensures
        exists|taken: Seq<bool>| taken.len() == 10000 && r@ == unique_choice(target@, taken),
{
    let mut taken: Vec<bool> = Vec::new();
    let mut found = false;
    let mut i: usize = 0;
    while i < 10000
        invariant
            i <= 10000,
            taken@.len() == i,
        decreases 10000 - i,
    {
        if found {
            taken.push(true);
        } else {
            let p = if i == 0 {
                owned(target)
            } else {
                candidate_path(target, i as u64)
            };
            let t = path_exists(p.as_str());
            taken.push(t);
            if !t {
                found = true;
            }
        }
        i = i + 1;
    }
    pick_unique(target, &taken)
}

} // verus!
