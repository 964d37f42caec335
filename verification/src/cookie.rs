//! Cookies: a map from names to values, the `Cookie:` header form
//! (`k=v; k=v`), and the first pair of `Set-Cookie` headers.

use vstd::prelude::*;
use crate::text::{
    first_index, is_ws, lemma_first_index, owned, push_char, push_str, split_on, split_once, split_ranges,
    string_of_range, trim, trim_bounds, chars_of, find_char,
};

verus! {

/// A map from cookie names to values. Names are unique; the entries keep the
/// order in which names were first inserted.
#[derive(Debug)]
pub struct CookieMap {
    entries: Vec<(String, String)>,
}

/// The map that a list of `(name, value)` pairs stands for: a later pair of
/// the same name wins.
pub open spec fn pairs_map(s: Seq<(Seq<char>, Seq<char>)>) -> Map<Seq<char>, Seq<char>>
    decreases s.len(),
{
    if s.len() == 0 {
        Map::empty()
    } else {
        pairs_map(s.drop_last()).insert(s.last().0, s.last().1)
    }
}

/// Whether no name occurs twice.
pub open spec fn keys_unique(s: Seq<(Seq<char>, Seq<char>)>) -> bool {
    forall|i: int, j: int| 0 <= i < j < s.len() ==> #[trigger] s[i].0 != #[trigger] s[j].0
}

impl View for CookieMap {
    type V = Seq<(Seq<char>, Seq<char>)>;

    closed spec fn view(&self) -> Seq<(Seq<char>, Seq<char>)> {
        self.entries@.map_values(|e: (String, String)| (e.0@, e.1@))
    }
}

impl CookieMap {
    #[verifier::type_invariant]
    closed spec fn wf(&self) -> bool {
        keys_unique(self@)
    }

    /// The cookies as a map from names to values.
    pub open spec fn map(&self) -> Map<Seq<char>, Seq<char>> {
        pairs_map(self@)
    }

    /// An empty map.
    pub fn new() -> (r: CookieMap)
        ensures
            r@ == Seq::<(Seq<char>, Seq<char>)>::empty(),
            r.map() == Map::<Seq<char>, Seq<char>>::empty(),
    {
        let r = CookieMap { entries: Vec::new() };
        assert(r@ =~= Seq::<(Seq<char>, Seq<char>)>::empty());
        r
    }

    /// The number of cookies.
    pub fn len(&self) -> (n: usize)
        ensures
            n == self@.len(),
            n == self.map().len(),
    {
        proof {
            use_type_invariant(self);
            lemma_pairs_map_len(self@);
        }
        self.entries.len()
    }

    /// Whether there are no cookies.
    pub fn is_empty(&self) -> (b: bool)
        ensures
            b == (self@.len() == 0),
            b == (self.map() == Map::<Seq<char>, Seq<char>>::empty()),
    {
        proof {
            use_type_invariant(self);
            lemma_pairs_map_len(self@);
            if self@.len() > 0 {
                lemma_pairs_map_has(self@, 0);
                assert(self.map().contains_key(self@[0].0));
            } else {
                assert(self.map() =~= Map::<Seq<char>, Seq<char>>::empty());
            }
        }
        self.entries.len() == 0
    }

    /// The `i`-th entry, in insertion order.
    pub fn entry(&self, i: usize) -> (r: (&String, &String))
        requires
            i < self@.len(),
        ensures
            (r.0@, r.1@) == self@[i as int],
    {
        let e = &self.entries[i];
        (&e.0, &e.1)
    }

    fn position(&self, key: &String) -> (r: Option<usize>)
        ensures
            r matches Some(i) ==> i < self@.len() && self@[i as int].0 == key@,
            r is None ==> forall|i: int| 0 <= i < self@.len() ==> #[trigger] self@[i].0 != key@,
    {
        let mut i: usize = 0;
        while i < self.entries.len()
            invariant
                i <= self@.len(),
                self@.len() == self.entries@.len(),
                forall|j: int| 0 <= j < i ==> #[trigger] self@[j].0 != key@,
            decreases self.entries.len() - i,
        {
            if self.entries[i].0 == *key {
                return Some(i);
            }
            i = i + 1;
        }
        None
    }

    /// The value of cookie `key`, if there is one.
    pub fn get(&self, key: &str) -> (r: Option<&String>)
        ensures
            r is Some <==> self.map().contains_key(key@),
            r matches Some(v) ==> self.map()[key@] == v@,
    {
        proof {
            use_type_invariant(self);
        }
        let k = owned(key);
        match self.position(&k) {
            Some(i) => {
                proof {
                    lemma_pairs_map_has(self@, i as int);
                }
                Some(&self.entries[i].1)
            },
            None => {
                proof {
                    lemma_pairs_map_has_not(self@, key@);
                }
                None
            },
        }
    }

    /// Sets cookie `key` to `value`: an existing name keeps its place, a new
    /// one goes last.
    pub fn insert(&mut self, key: String, value: String)
        ensures
            final(self).map() == old(self).map().insert(key@, value@),
            old(self).map().contains_key(key@) ==> final(self)@.len() == old(self)@.len(),
            !old(self).map().contains_key(key@) ==> final(self)@ == old(self)@.push((key@, value@)),
    {
        proof {
            use_type_invariant(&*self);
            lemma_pairs_map_has_not(self@, key@);
        }
        let ghost old_view = self@;
        let ghost kv = key@;
        let ghost vv = value@;
        let pos = self.position(&key);
        let mut ents: Vec<(String, String)> = Vec::new();
        std::mem::swap(&mut ents, &mut self.entries);
        assert(ents@.map_values(|e: (String, String)| (e.0@, e.1@)) == old_view);
        match pos {
            Some(i) => {
                proof {
                    lemma_pairs_map_has(old_view, i as int);
                    lemma_pairs_map_update(old_view, i as int, vv);
                }
                ents.set(i, (key, value));
                assert(ents@.map_values(|e: (String, String)| (e.0@, e.1@)) =~= old_view.update(
                    i as int,
                    (old_view[i as int].0, vv),
                ));
            },
            None => {
                ents.push((key, value));
                assert(ents@.map_values(|e: (String, String)| (e.0@, e.1@)) =~= old_view.push(
                    (kv, vv),
                ));
                assert(old_view.push((kv, vv)).drop_last() == old_view);
            },
        }
        std::mem::swap(&mut ents, &mut self.entries);
    }
}

proof fn lemma_pairs_map_has(s: Seq<(Seq<char>, Seq<char>)>, i: int)
    requires
        keys_unique(s),
        0 <= i < s.len(),
    ensures
        pairs_map(s).contains_key(s[i].0),
        pairs_map(s)[s[i].0] == s[i].1,
    decreases s.len(),
{
    if i < s.len() - 1 {
        let t = s.drop_last();
        assert(t[i] == s[i]);
        lemma_pairs_map_has(t, i);
        assert(s.last().0 != s[i].0);
    }
}

proof fn lemma_pairs_map_has_not(s: Seq<(Seq<char>, Seq<char>)>, k: Seq<char>)
    ensures
        pairs_map(s).contains_key(k) <==> exists|i: int| 0 <= i < s.len() && #[trigger] s[i].0 == k,
    decreases s.len(),
{
    if s.len() > 0 {
        let t = s.drop_last();
        lemma_pairs_map_has_not(t, k);
        if pairs_map(s).contains_key(k) {
            if s.last().0 != k {
                let i = choose|i: int| 0 <= i < t.len() && #[trigger] t[i].0 == k;
                assert(s[i].0 == k);
            } else {
                assert(s[s.len() - 1].0 == k);
            }
        } else {
            assert forall|i: int| 0 <= i < s.len() implies #[trigger] s[i].0 != k by {
                if i < s.len() - 1 {
                    assert(t[i] == s[i]);
                }
            }
        }
    }
}

proof fn lemma_pairs_map_len(s: Seq<(Seq<char>, Seq<char>)>)
    requires
        keys_unique(s),
    ensures
        pairs_map(s).dom().finite(),
        pairs_map(s).len() == s.len(),
    decreases s.len(),
{
    if s.len() > 0 {
        let t = s.drop_last();
        assert(keys_unique(t)) by {
            assert forall|i: int, j: int| 0 <= i < j < t.len() implies #[trigger] t[i].0
                != #[trigger] t[j].0 by {
                assert(s[i] == t[i] && s[j] == t[j]);
            }
        }
        lemma_pairs_map_len(t);
        lemma_pairs_map_has_not(t, s.last().0);
        if pairs_map(t).contains_key(s.last().0) {
            let i = choose|i: int| 0 <= i < t.len() && #[trigger] t[i].0 == s.last().0;
            assert(s[i].0 == s[s.len() - 1].0);
        }
    }
}

proof fn lemma_pairs_map_update(s: Seq<(Seq<char>, Seq<char>)>, i: int, v: Seq<char>)
    requires
        keys_unique(s),
        0 <= i < s.len(),
    ensures
        keys_unique(s.update(i, (s[i].0, v))),
        pairs_map(s.update(i, (s[i].0, v))) == pairs_map(s).insert(s[i].0, v),
    decreases s.len(),
{
    let u = s.update(i, (s[i].0, v));
    assert(keys_unique(u)) by {
        assert forall|a: int, b: int| 0 <= a < b < u.len() implies #[trigger] u[a].0
            != #[trigger] u[b].0 by {
            assert(u[a].0 == s[a].0 && u[b].0 == s[b].0);
        }
    }
    let t = s.drop_last();
    assert(keys_unique(t)) by {
        assert forall|a: int, b: int| 0 <= a < b < t.len() implies #[trigger] t[a].0
            != #[trigger] t[b].0 by {
            assert(s[a] == t[a] && s[b] == t[b]);
        }
    }
    if i == s.len() - 1 {
        assert(u.drop_last() == t);
        assert(pairs_map(u) =~= pairs_map(s).insert(s[i].0, v));
    } else {
        lemma_pairs_map_update(t, i, v);
        assert(u.drop_last() == t.update(i, (t[i].0, v)));
        assert(s.last().0 != s[i].0);
        assert(pairs_map(u) =~= pairs_map(s).insert(s[i].0, v));
    }
}

// ---------------------------------------------------------------------------
// Parsing and writing
// ---------------------------------------------------------------------------

/// The `(name, value)` pair of one `;`-separated piece: the text around its
/// first `=`, each trimmed; `None` when it has no `=`.
pub open spec fn piece_pair(piece: Seq<char>) -> Option<(Seq<char>, Seq<char>)> {
    match split_once(trim(piece), '=') {
        Some((k, v)) => Some((trim(k), trim(v))),
        None => None,
    }
}

/// The cookies of a list of pieces, later pairs of a name winning.
pub open spec fn pieces_map(pieces: Seq<Seq<char>>) -> Map<Seq<char>, Seq<char>>
    decreases pieces.len(),
{
    if pieces.len() == 0 {
        Map::empty()
    } else {
        match piece_pair(pieces.last()) {
            Some((k, v)) => pieces_map(pieces.drop_last()).insert(k, v),
            None => pieces_map(pieces.drop_last()),
        }
    }
}

/// The pair of piece `v[lo..hi]`, as strings.
pub fn pair_of_piece(v: &Vec<char>, lo: usize, hi: usize) -> (r: Option<(String, String)>)
    requires
        lo <= hi <= v@.len(),
    ensures
        r is Some <==> piece_pair(v@.subrange(lo as int, hi as int)) is Some,
        r matches Some(p) ==> piece_pair(v@.subrange(lo as int, hi as int)) == Some((p.0@, p.1@)),
{
    let (a, b) = trim_bounds(v, lo, hi);
    let ghost t = v@.subrange(a as int, b as int);
    match find_char(v, a, b, '=') {
        Some(q) => {
            proof {
                lemma_first_index(t, '=');
                assert(t.take(q - a) == v@.subrange(a as int, q as int));
                assert(t.skip(q - a + 1) == v@.subrange(q + 1, b as int));
            }
            let (ka, kb) = trim_bounds(v, a, q);
            let (va, vb) = trim_bounds(v, q + 1, b);
            Some((string_of_range(v, ka, kb), string_of_range(v, va, vb)))
        },
        None => None,
    }
}

/// Parses a `Cookie:` header value, `"k=v; k=v"`: pieces without `=` are
/// skipped, names and values are trimmed, and a later name wins.
pub fn parse_cookie_string(s: &str) -> (r: CookieMap)
    ensures
        r.map() == pieces_map(split_on(s@, ';')),
{
    let v = chars_of(s);
    let ranges = split_ranges(&v, ';');
    let ghost pieces = split_on(s@, ';');
    let mut m = CookieMap::new();
    let mut i: usize = 0;
    while i < ranges.len()
        invariant
            i <= ranges@.len(),
            v@ == s@,
            pieces == split_on(v@, ';'),
            ranges@.len() == pieces.len(),
            forall|j: int|
                0 <= j < ranges@.len() ==> #[trigger] ranges@[j].0 <= ranges@[j].1 <= v@.len()
                    && v@.subrange(ranges@[j].0 as int, ranges@[j].1 as int) == pieces[j],
            m.map() == pieces_map(pieces.take(i as int)),
        decreases ranges.len() - i,
    {
        let (lo, hi) = ranges[i];
        let p = pair_of_piece(&v, lo, hi);
        proof {
            let t = pieces.take(i + 1);
            assert(t.drop_last() == pieces.take(i as int));
            assert(t.last() == pieces[i as int]);
        }
        match p {
            Some((k, val)) => {
                m.insert(k, val);
            },
            None => {},
        }
        i = i + 1;
    }
    assert(pieces.take(pieces.len() as int) == pieces);
    m
}

/// The pair that a `Set-Cookie` header gives: that of its first `;`-piece.
pub open spec fn set_cookie_pair(header: Seq<char>) -> Option<(Seq<char>, Seq<char>)> {
    piece_pair(split_on(header, ';')[0])
}

/// The cookies of a list of `Set-Cookie` headers, later headers winning.
pub open spec fn set_cookies_map(headers: Seq<Seq<char>>) -> Map<Seq<char>, Seq<char>>
    decreases headers.len(),
{
    if headers.len() == 0 {
        Map::empty()
    } else {
        match set_cookie_pair(headers.last()) {
            Some((k, v)) => set_cookies_map(headers.drop_last()).insert(k, v),
            None => set_cookies_map(headers.drop_last()),
        }
    }
}

/// Reads the `name=value` pair at the start of each `Set-Cookie` header
/// (`"SESSDATA=abc; Path=/; HttpOnly"`); a later header of the same name wins.
pub fn parse_set_cookie(headers: &[String]) -> (r: CookieMap)
    ensures
        r.map() == set_cookies_map(headers@.map_values(|h: String| h@)),
{
    let ghost hs = headers@.map_values(|h: String| h@);
    let mut m = CookieMap::new();
    let mut i: usize = 0;
    while i < headers.len()
        invariant
            i <= headers@.len(),
            hs == headers@.map_values(|h: String| h@),
            m.map() == set_cookies_map(hs.take(i as int)),
        decreases headers.len() - i,
    {
        let v = chars_of(headers[i].as_str());
        let ranges = split_ranges(&v, ';');
        proof {
            let t = hs.take(i + 1);
            assert(t.drop_last() == hs.take(i as int));
            assert(t.last() == v@);
        }
        let (lo, hi) = ranges[0];
        match pair_of_piece(&v, lo, hi) {
            Some((k, val)) => {
                m.insert(k, val);
            },
            None => {},
        }
        i = i + 1;
    }
    assert(hs.take(hs.len() as int) == hs);
    m
}

/// `name=value` pairs joined by `"; "`.
pub open spec fn join_pairs(s: Seq<(Seq<char>, Seq<char>)>) -> Seq<char>
    decreases s.len(),
{
    if s.len() == 0 {
        seq![]
    } else if s.len() == 1 {
        s[0].0 + "="@ + s[0].1
    } else {
        join_pairs(s.drop_last()) + "; "@ + s.last().0 + "="@ + s.last().1
    }
}

/// Appends `; name=value` (without the separator for the first pair).
fn push_pair(out: &mut String, first: bool, k: &String, v: &String)
    ensures
        final(out)@ == old(out)@ + (if first {
            Seq::<char>::empty()
        } else {
            "; "@
        }) + k@ + "="@ + v@,
{
    if !first {
        push_str(out, "; ");
    } else {
        assert(old(out)@ + Seq::<char>::empty() == old(out)@);
    }
    push_str(out, k.as_str());
    push_str(out, "=");
    push_str(out, v.as_str());
}

/// The `Cookie:` header for the cookies: `name=value` pairs in insertion
/// order, joined by `"; "`.
pub fn to_cookie_header(cookies: &CookieMap) -> (s: String)
    ensures
        s@ == join_pairs(cookies@),
{
    let mut out = String::new();
    let n = cookies.len();
    let mut i: usize = 0;
    while i < n
        invariant
            i <= n,
            n == cookies@.len(),
            out@ == join_pairs(cookies@.take(i as int)),
        decreases n - i,
    {
        let (k, v) = cookies.entry(i);
        push_pair(&mut out, i == 0, k, v);
        proof {
            let t = cookies@.take(i + 1);
            assert(t.drop_last() == cookies@.take(i as int));
            if i == 0 {
                assert(Seq::<char>::empty() + k@ + "="@ + v@ == k@ + "="@ + v@);
            }
        }
        i = i + 1;
    }
    assert(cookies@.take(n as int) == cookies@);
    out
}

/// Copies every cookie of `other` into `base`, `other` winning on a shared
/// name.
pub fn merge_cookies(base: &mut CookieMap, other: &CookieMap)
    ensures
        final(base).map() == old(base).map().union_prefer_right(other.map()),
{
    let n = other.len();
    let mut i: usize = 0;
    while i < n
        invariant
            i <= n,
            n == other@.len(),
            base.map() == old(base).map().union_prefer_right(pairs_map(other@.take(i as int))),
        decreases n - i,
    {
        let (k, v) = other.entry(i);
        base.insert(k.clone(), v.clone());
        proof {
            let t = other@.take(i + 1);
            assert(t.drop_last() == other@.take(i as int));
            assert(base.map() =~= old(base).map().union_prefer_right(pairs_map(t)));
        }
        i = i + 1;
    }
    assert(other@.take(n as int) == other@);
}

/// A cookie name or value that a `Cookie:` header carries unchanged: no `;`,
/// and neither leading nor trailing whitespace.
pub open spec fn header_text_ok(t: Seq<char>) -> bool {
    &&& forall|j: int| 0 <= j < t.len() ==> #[trigger] t[j] != ';'
    &&& (t.len() == 0 || (!is_ws(t[0]) && !is_ws(t.last())))
}

/// Cookies that a `Cookie:` header carries unchanged: each name and value
/// passes [`header_text_ok`], and no name holds `=`.
pub open spec fn header_safe(s: Seq<(Seq<char>, Seq<char>)>) -> bool {
    forall|i: int|
        0 <= i < s.len() ==> header_text_ok(#[trigger] s[i].0) && header_text_ok(s[i].1) && (forall|
            j: int,
        | 0 <= j < s[i].0.len() ==> s[i].0[j] != '=')
}

/// The piece `k=v`, with or without a space before it, reads back as `(k, v)`,
/// and holds no `;`.
pub proof fn lemma_pair_text(k: Seq<char>, v: Seq<char>)
    requires
        header_text_ok(k),
        header_text_ok(v),
        forall|j: int| 0 <= j < k.len() ==> k[j] != '=',
    ensures
        piece_pair(k + "="@ + v) == Some((k, v)),
        piece_pair(seq![' '] + k + "="@ + v) == Some((k, v)),
        forall|j: int| 0 <= j < (k + "="@ + v).len() ==> (k + "="@ + v)[j] != ';',
{
    reveal_strlit("=");
    let x = k + "="@ + v;
    assert(x[k.len() as int] == '=');
    assert(!is_ws(x[0])) by {
        if k.len() > 0 {
            assert(x[0] == k[0]);
        }
    }
    assert(!is_ws(x.last())) by {
        if v.len() > 0 {
            assert(x.last() == v.last());
        }
    }
    assert forall|j: int| 0 <= j < k.len() implies x[j] != '=' by {
        assert(x[j] == k[j]);
    }
    assert forall|j: int| 0 <= j < x.len() implies x[j] != ';' by {
        if j < k.len() {
            assert(x[j] == k[j]);
        } else if j > k.len() {
            assert(x[j] == v[j - k.len() - 1]);
        }
    }
    crate::text::lemma_trim_unchanged(x);
    crate::text::lemma_first_index_at(x, '=', k.len() as int);
    assert(x.take(k.len() as int) == k);
    assert(x.skip(k.len() as int + 1) == v);
    crate::text::lemma_trim_unchanged(k);
    crate::text::lemma_trim_unchanged(v);
    crate::text::lemma_trim_after_space(x);
    assert(seq![' '] + k + "="@ + v == seq![' '] + x);
}

/// The `Cookie:` header written for cookies that it carries unchanged reads
/// back as the same cookies.
pub proof fn law_cookie_header_round_trip(s: Seq<(Seq<char>, Seq<char>)>)
    requires
        header_safe(s),
    ensures
        pieces_map(split_on(join_pairs(s), ';')) == pairs_map(s),
    decreases s.len(),
{
    reveal_strlit("=");
    reveal_strlit("; ");
    if s.len() == 0 {
        crate::text::lemma_split_on_free(Seq::<char>::empty(), ';');
        let p = split_on(join_pairs(s), ';');
        assert(p.drop_last().len() == 0);
        assert(trim(Seq::<char>::empty()) == Seq::<char>::empty()) by {
            crate::text::lemma_trim_unchanged(Seq::<char>::empty());
        }
        lemma_first_index(Seq::<char>::empty(), '=');
        assert(join_pairs(s) == Seq::<char>::empty());
        assert(p.last() == Seq::<char>::empty());
        assert(piece_pair(p.last()) is None);
        assert(pieces_map(p) == pieces_map(p.drop_last()));
        assert(pieces_map(p) =~= pairs_map(s));
    } else {
        let k = s.last().0;
        let v = s.last().1;
        assert(header_text_ok(s[s.len() - 1].0));
        lemma_pair_text(k, v);
        let x = k + "="@ + v;
        if s.len() == 1 {
            assert(join_pairs(s) == x);
            crate::text::lemma_split_on_free(x, ';');
            let p = split_on(join_pairs(s), ';');
            assert(p.drop_last().len() == 0);
            assert(pairs_map(s.drop_last()) == Map::<Seq<char>, Seq<char>>::empty());
            assert(p.last() == x);
            assert(pieces_map(p) == pieces_map(p.drop_last()).insert(k, v));
            assert(pieces_map(p.drop_last()) == Map::<Seq<char>, Seq<char>>::empty());
            assert(pieces_map(p) =~= pairs_map(s));
        } else {
            let t = s.drop_last();
            assert forall|i: int| 0 <= i < t.len() implies header_text_ok(#[trigger] t[i].0)
                && header_text_ok(t[i].1) && (forall|j: int| 0 <= j < t[i].0.len() ==> t[i].0[j]
                != '=') by {
                assert(t[i] == s[i]);
            }
            law_cookie_header_round_trip(t);
            let y = seq![' '] + x;
            assert forall|j: int| 0 <= j < y.len() implies y[j] != ';' by {
                if j > 0 {
                    assert(y[j] == x[j - 1]);
                }
            }
            crate::text::lemma_split_on_free(y, ';');
            let jt = join_pairs(t);
            assert(join_pairs(s) == jt + "; "@ + k + "="@ + v);
            assert(jt + "; "@ + k + "="@ + v =~= jt + seq![';'] + y);
            crate::text::lemma_split_on_join(jt, y, ';');
            let p = split_on(join_pairs(s), ';');
            assert(p == split_on(jt, ';').push(y));
            assert(p.drop_last() == split_on(jt, ';'));
            assert(p.last() == y);
            assert(y == seq![' '] + k + "="@ + v);
            assert(piece_pair(p.last()) == Some((k, v)));
            assert(pieces_map(p) == pieces_map(split_on(jt, ';')).insert(k, v));
        }
    }
}

/// After a merge, every name of `other` has `other`'s value, and every other
/// name of `base` keeps its value.
pub proof fn law_merge_overrides(
    base: Map<Seq<char>, Seq<char>>,
    other: Map<Seq<char>, Seq<char>>,
    k: Seq<char>,
)
    ensures
        other.contains_key(k) ==> base.union_prefer_right(other)[k] == other[k],
        !other.contains_key(k) && base.contains_key(k) ==> base.union_prefer_right(other)[k]
            == base[k],
        base.union_prefer_right(other).contains_key(k) <==> base.contains_key(k)
            || other.contains_key(k),
{
}

} // verus!
