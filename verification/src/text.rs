//! Character and string helpers shared by the parsers of the crate.
//!
//! Strings are modelled by their characters (`Seq<char>`); the helpers here
//! state, over that model, what trimming, splitting and number parsing do.

use vstd::prelude::*;

verus! {

// ---------------------------------------------------------------------------
// Building strings
// ---------------------------------------------------------------------------

/// `String::push`: appends one character.
#[verifier::external_body]
pub(crate) fn push_char(s: &mut String, c: char)
    ensures
        final(s)@ == old(s)@.push(c),
{
    s.push(c);
}

/// The characters of `s`, in order.
pub fn chars_of(s: &str) -> (v: Vec<char>)
    ensures
        v@ == s@,
{
    let mut v: Vec<char> = Vec::new();
    for c in it: s.chars()
        invariant
            v@ == it.seq().take(it.index() as int),
    {
        v.push(c);
    }
    v
}

/// Appends `v[lo..hi]` to `out`.
pub fn push_range(out: &mut String, v: &Vec<char>, lo: usize, hi: usize)
    requires
        lo <= hi <= v@.len(),
    ensures
        final(out)@ == old(out)@ + v@.subrange(lo as int, hi as int),
{
    let mut i = lo;
    while i < hi
        invariant
            lo <= i <= hi <= v@.len(),
            out@ == old(out)@ + v@.subrange(lo as int, i as int),
        decreases hi - i,
    {
        push_char(out, v[i]);
        i = i + 1;
        assert(v@.subrange(lo as int, i as int) == v@.subrange(lo as int, i - 1).push(v@[i - 1]));
    }
}

/// A new string holding `v[lo..hi]`.
pub fn string_of_range(v: &Vec<char>, lo: usize, hi: usize) -> (s: String)
    requires
        lo <= hi <= v@.len(),
    ensures
        s@ == v@.subrange(lo as int, hi as int),
{
    let mut s = String::new();
    push_range(&mut s, v, lo, hi);
    s
}

/// Appends the characters of `t` to `out`.
pub fn push_str(out: &mut String, t: &str)
    ensures
        final(out)@ == old(out)@ + t@,
{
    let v = chars_of(t);
    push_range(out, &v, 0, v.len());
    assert(v@.subrange(0, v@.len() as int) == t@);
}

/// A copy of `t` as an owned string.
pub fn owned(t: &str) -> (s: String)
    ensures
        s@ == t@,
{
    let mut s = String::new();
    push_str(&mut s, t);
    s
}

/// Does `v[i..]` start with the characters of `lit`?
pub open spec fn seq_has_at(v: Seq<char>, i: int, lit: Seq<char>) -> bool {
    0 <= i && i + lit.len() <= v.len() && v.subrange(i, i + lit.len()) == lit
}

/// Whether `lit` occurs in `v` at position `i`.
pub fn has_at(v: &Vec<char>, i: usize, lit: &str) -> (r: bool)
    ensures
        r == seq_has_at(v@, i as int, lit@),
{
    let l = chars_of(lit);
    if l.len() > v.len() || i > v.len() - l.len() {
        return false;
    }
    let mut k: usize = 0;
    while k < l.len()
        invariant
            k <= l@.len(),
            i + l@.len() <= v@.len(),
            l@ == lit@,
            forall|j: int| 0 <= j < k ==> v@[i + j] == l@[j],
        decreases l.len() - k,
    {
        let _vl = v.len();
        assert(i + k < v@.len());
        if v[i + k] != l[k] {
            assert(v@.subrange(i as int, i + l@.len())[k as int] != lit@[k as int]);
            return false;
        }
        k = k + 1;
    }
    assert(v@.subrange(i as int, i + l@.len()) =~= lit@);
    true
}

// ---------------------------------------------------------------------------
// Whitespace and trimming
// ---------------------------------------------------------------------------

/// Unicode `White_Space`, the set that `char::is_whitespace` tests.
pub open spec fn is_ws(c: char) -> bool {
    let u = c as u32;
    (0x9 <= u && u <= 0xd) || u == 0x20 || u == 0x85 || u == 0xa0 || u == 0x1680 || (0x2000 <= u
        && u <= 0x200a) || u == 0x2028 || u == 0x2029 || u == 0x202f || u == 0x205f || u == 0x3000
}

/// Executable form of [`is_ws`].
pub fn char_is_ws(c: char) -> (r: bool)
    ensures
        r == is_ws(c),
{
    let u = c as u32;
    (0x9 <= u && u <= 0xd) || u == 0x20 || u == 0x85 || u == 0xa0 || u == 0x1680 || (0x2000 <= u
        && u <= 0x200a) || u == 0x2028 || u == 0x2029 || u == 0x202f || u == 0x205f || u == 0x3000
}

/// `s` without its leading whitespace.
pub open spec fn trim_start(s: Seq<char>) -> Seq<char>
    decreases s.len(),
{
    if s.len() > 0 && is_ws(s[0]) {
        trim_start(s.drop_first())
    } else {
        s
    }
}

/// `s` without its trailing whitespace.
pub open spec fn trim_end(s: Seq<char>) -> Seq<char>
    decreases s.len(),
{
    if s.len() > 0 && is_ws(s.last()) {
        trim_end(s.drop_last())
    } else {
        s
    }
}

/// `s` without leading and trailing whitespace (`str::trim`).
pub open spec fn trim(s: Seq<char>) -> Seq<char> {
    trim_end(trim_start(s))
}

/// Only whitespace.
pub open spec fn all_ws(w: Seq<char>) -> bool {
    forall|i: int| 0 <= i < w.len() ==> is_ws(#[trigger] w[i])
}

proof fn lemma_trim_start_ws_prefix(w: Seq<char>, t: Seq<char>)
    requires
        all_ws(w),
    ensures
        trim_start(w + t) == trim_start(t),
    decreases w.len(),
{
    if w.len() == 0 {
        assert(w + t == t);
    } else {
        assert((w + t)[0] == w[0]);
        assert((w + t).drop_first() == w.drop_first() + t);
        assert forall|i: int| 0 <= i < w.drop_first().len() implies is_ws(#[trigger] w.drop_first()[i]) by {
            assert(w.drop_first()[i] == w[i + 1]);
        }
        lemma_trim_start_ws_prefix(w.drop_first(), t);
    }
}

proof fn lemma_trim_end_ws_suffix(t: Seq<char>, w: Seq<char>)
    requires
        all_ws(w),
    ensures
        trim_end(t + w) == trim_end(t),
    decreases w.len(),
{
    if w.len() == 0 {
        assert(t + w == t);
    } else {
        assert((t + w).last() == w.last());
        assert((t + w).drop_last() == t + w.drop_last());
        assert forall|i: int| 0 <= i < w.drop_last().len() implies is_ws(#[trigger] w.drop_last()[i]) by {
            assert(w.drop_last()[i] == w[i]);
        }
        lemma_trim_end_ws_suffix(t, w.drop_last());
    }
}

proof fn lemma_trim_start_append(s: Seq<char>, w: Seq<char>)
    ensures
        trim_start(s).len() > 0 ==> trim_start(s + w) == trim_start(s) + w,
        trim_start(s).len() == 0 ==> trim_start(s + w) == trim_start(w),
    decreases s.len(),
{
    if s.len() == 0 {
        assert(s + w == w);
    } else {
        assert((s + w)[0] == s[0]);
        assert((s + w).drop_first() == s.drop_first() + w);
        if is_ws(s[0]) {
            lemma_trim_start_append(s.drop_first(), w);
        }
    }
}

/// Whitespace around a text does not change its trim.
pub proof fn lemma_trim_padded(w1: Seq<char>, s: Seq<char>, w2: Seq<char>)
    requires
        all_ws(w1),
        all_ws(w2),
    ensures
        trim(w1 + s + w2) == trim(s),
{
    assert(w1 + s + w2 == w1 + (s + w2));
    lemma_trim_start_ws_prefix(w1, s + w2);
    lemma_trim_start_append(s, w2);
    if trim_start(s).len() > 0 {
        lemma_trim_end_ws_suffix(trim_start(s), w2);
    } else {
        let e = Seq::<char>::empty();
        lemma_trim_start_ws_prefix(w2, e);
        assert(w2 + e == w2);
        assert(trim_start(s) == e);
    }
}

/// The bounds of `trim(v[lo..hi])` inside `v`.
pub fn trim_bounds(v: &Vec<char>, lo: usize, hi: usize) -> (r: (usize, usize))
    requires
        lo <= hi <= v@.len(),
    ensures
        lo <= r.0 <= r.1 <= hi,
        v@.subrange(r.0 as int, r.1 as int) == trim(v@.subrange(lo as int, hi as int)),
{
    let mut a = lo;
    while a < hi && char_is_ws(v[a])
        invariant
            lo <= a <= hi <= v@.len(),
            trim_start(v@.subrange(lo as int, hi as int)) == trim_start(
                v@.subrange(a as int, hi as int),
            ),
        decreases hi - a,
    {
        assert(v@.subrange(a as int, hi as int).drop_first() == v@.subrange(a + 1, hi as int));
        a = a + 1;
    }
    assert(trim_start(v@.subrange(a as int, hi as int)) == v@.subrange(a as int, hi as int));
    let mut b = hi;
    while b > a && char_is_ws(v[b - 1])
        invariant
            lo <= a <= b <= hi <= v@.len(),
            trim_end(v@.subrange(a as int, hi as int)) == trim_end(v@.subrange(a as int, b as int)),
        decreases b - a,
    {
        assert(v@.subrange(a as int, b as int).drop_last() == v@.subrange(a as int, b - 1));
        b = b - 1;
    }
    (a, b)
}

/// `trim(v[lo..hi])` as a new string.
pub fn trimmed_string(v: &Vec<char>, lo: usize, hi: usize) -> (s: String)
    requires
        lo <= hi <= v@.len(),
    ensures
        s@ == trim(v@.subrange(lo as int, hi as int)),
{
    let (a, b) = trim_bounds(v, lo, hi);
    string_of_range(v, a, b)
}

// ---------------------------------------------------------------------------
// Searching and splitting
// ---------------------------------------------------------------------------

/// Index of the first `c` in `s`, if any.
pub open spec fn first_index(s: Seq<char>, c: char) -> Option<int>
    decreases s.len(),
{
    if s.len() == 0 {
        None
    } else if s[0] == c {
        Some(0)
    } else {
        match first_index(s.drop_first(), c) {
            Some(i) => Some(i + 1),
            None => None,
        }
    }
}

/// What [`first_index`] gives, in terms of the positions of `s`.
pub proof fn lemma_first_index(s: Seq<char>, c: char)
    ensures
        first_index(s, c) is None <==> (forall|j: int| 0 <= j < s.len() ==> s[j] != c),
        first_index(s, c) matches Some(i) ==> 0 <= i < s.len() && s[i] == c && (forall|j: int|
            0 <= j < i ==> s[j] != c),
    decreases s.len(),
{
    if s.len() > 0 {
        lemma_first_index(s.drop_first(), c);
        if s[0] != c {
            assert forall|j: int| 0 < j < s.len() implies s[j] == s.drop_first()[j - 1] by {}
            if first_index(s.drop_first(), c) is None {
                assert forall|j: int| 0 <= j < s.len() implies s[j] != c by {
                    if j > 0 {
                        assert(s.drop_first()[j - 1] != c);
                    }
                }
            }
        }
    }
}

/// The first index `i` in `lo..hi` with `v[i] == c`, if any.
pub fn find_char(v: &Vec<char>, lo: usize, hi: usize, c: char) -> (r: Option<usize>)
    requires
        lo <= hi <= v@.len(),
    ensures
        r matches Some(i) ==> first_index(v@.subrange(lo as int, hi as int), c) == Some(i - lo)
            && lo <= i < hi,
        r is None ==> first_index(v@.subrange(lo as int, hi as int), c) is None,
{
    let ghost s = v@.subrange(lo as int, hi as int);
    proof {
        lemma_first_index(s, c);
    }
    let mut i = lo;
    while i < hi
        invariant
            lo <= i <= hi <= v@.len(),
            s == v@.subrange(lo as int, hi as int),
            forall|j: int| lo <= j < i ==> v@[j] != c,
        decreases hi - i,
    {
        if v[i] == c {
            proof {
                lemma_first_index(s, c);
                assert(s[i - lo] == c);
                match first_index(s, c) {
                    Some(k) => {
                        if k < i - lo {
                            assert(s[k] == v@[lo + k]);
                        }
                    },
                    None => {},
                }
            }
            return Some(i);
        }
        i = i + 1;
    }
    proof {
        assert forall|j: int| 0 <= j < s.len() implies s[j] != c by {
            assert(s[j] == v@[lo + j]);
        }
    }
    None
}

/// `s.split(c)`: the pieces between the occurrences of `c`, in order.
pub open spec fn split_on(s: Seq<char>, c: char) -> Seq<Seq<char>>
    decreases s.len(),
{
    match first_index(s, c) {
        Some(i) => {
            if 0 <= i < s.len() {
                seq![s.take(i)] + split_on(s.skip(i + 1), c)
            } else {
                seq![s]
            }
        },
        None => seq![s],
    }
}

/// `s.split_once(c)`: the parts before and after the first `c`.
pub open spec fn split_once(s: Seq<char>, c: char) -> Option<(Seq<char>, Seq<char>)> {
    match first_index(s, c) {
        Some(i) => Some((s.take(i), s.skip(i + 1))),
        None => None,
    }
}

// ---------------------------------------------------------------------------
// Decimal numbers
// ---------------------------------------------------------------------------

/// An ASCII decimal digit.
pub open spec fn is_digit(c: char) -> bool {
    '0' <= c && c <= '9'
}

/// Executable form of [`is_digit`].
pub fn char_is_digit(c: char) -> (r: bool)
    ensures
        r == is_digit(c),
{
    '0' <= c && c <= '9'
}

/// Whether every character of `s` is an ASCII digit.
pub open spec fn all_digits(s: Seq<char>) -> bool {
    forall|i: int| 0 <= i < s.len() ==> is_digit(#[trigger] s[i])
}

/// The number that the ASCII digits of `s` spell.
pub open spec fn digits_value(s: Seq<char>) -> nat
    decreases s.len(),
{
    if s.len() == 0 {
        0
    } else {
        digits_value(s.drop_last()) * 10 + ((s.last() as u32) - ('0' as u32)) as nat
    }
}

/// `str::parse` for an unsigned type whose largest value is `max`: an optional
/// `+`, then at least one ASCII digit, and a value not above `max`.
pub open spec fn parse_uint(s: Seq<char>, max: int) -> Option<nat> {
    let body = if s.len() > 0 && s[0] == '+' {
        s.drop_first()
    } else {
        s
    };
    if body.len() > 0 && all_digits(body) && digits_value(body) <= max {
        Some(digits_value(body))
    } else {
        None
    }
}

/// A longer run of digits never spells a smaller number.
pub proof fn lemma_digits_value_mono(s: Seq<char>, k: int)
    requires
        0 <= k <= s.len(),
        all_digits(s),
    ensures
        digits_value(s.take(k)) <= digits_value(s),
    decreases s.len(),
{
    if k < s.len() {
        let t = s.drop_last();
        assert(t.take(k) == s.take(k));
        lemma_digits_value_mono(t, k);
    } else {
        assert(s.take(k) == s);
    }
}

/// `parse_uint(v[lo..hi], u64::MAX)`.
pub fn parse_u64_range(v: &Vec<char>, lo: usize, hi: usize) -> (r: Option<u64>)
    requires
        lo <= hi <= v@.len(),
    ensures
        r matches Some(n) ==> parse_uint(v@.subrange(lo as int, hi as int), u64::MAX as int)
            == Some(n as nat),
        r is None ==> parse_uint(v@.subrange(lo as int, hi as int), u64::MAX as int) is None,
{
    let ghost s = v@.subrange(lo as int, hi as int);
    let mut a = lo;
    if a < hi && v[a] == '+' {
        a = a + 1;
    }
    let ghost body = v@.subrange(a as int, hi as int);
    assert(body == (if s.len() > 0 && s[0] == '+' { s.drop_first() } else { s }));
    if a == hi {
        return None;
    }
    let mut acc: u64 = 0;
    let mut i = a;
    while i < hi
        invariant
            a <= i <= hi <= v@.len(),
            a < hi,
            body == v@.subrange(a as int, hi as int),
            s == v@.subrange(lo as int, hi as int),
            body == (if s.len() > 0 && s[0] == '+' {
                s.drop_first()
            } else {
                s
            }),
            all_digits(body.take(i - a)),
            acc as nat == digits_value(body.take(i - a)),
        decreases hi - i,
    {
        let c = v[i];
        if !char_is_digit(c) {
            assert(body[i - a] == c);
            return None;
        }
        let d = (c as u32 - '0' as u32) as u64;
        proof {
            let t = body.take(i - a + 1);
            assert(t.drop_last() == body.take(i - a));
            assert(t.last() == c);
        }
        if acc > (u64::MAX - d) / 10 {
            proof {
                let t = body.take(i - a + 1);
                assert(digits_value(t) > u64::MAX) by (nonlinear_arith)
                    requires
                        acc > (u64::MAX - d) / 10,
                        digits_value(t) == acc * 10 + d,
                        d <= 9,
                ;
                if all_digits(body) {
                    lemma_digits_value_mono(body, i - a + 1);
                }
            }
            return None;
        }
        assert(acc * 10 + d <= u64::MAX) by (nonlinear_arith)
            requires
                acc <= (u64::MAX - d) / 10,
                d <= 9,
        ;
        acc = acc * 10 + d;
        i = i + 1;
    }
    assert(body.take(hi - a) == body);
    Some(acc)
}

/// `parse_uint(v[lo..hi], u32::MAX)`.
pub fn parse_u32_range(v: &Vec<char>, lo: usize, hi: usize) -> (r: Option<u32>)
    requires
        lo <= hi <= v@.len(),
    ensures
        r matches Some(n) ==> parse_uint(v@.subrange(lo as int, hi as int), u32::MAX as int)
            == Some(n as nat),
        r is None ==> parse_uint(v@.subrange(lo as int, hi as int), u32::MAX as int) is None,
{
    match parse_u64_range(v, lo, hi) {
        Some(n) => {
            if n <= u32::MAX as u64 {
                Some(n as u32)
            } else {
                None
            }
        },
        None => None,
    }
}

/// The ASCII digit for `d` (`0 <= d <= 9`).
pub open spec fn digit_char(d: nat) -> char {
    if d == 0 {
        '0'
    } else if d == 1 {
        '1'
    } else if d == 2 {
        '2'
    } else if d == 3 {
        '3'
    } else if d == 4 {
        '4'
    } else if d == 5 {
        '5'
    } else if d == 6 {
        '6'
    } else if d == 7 {
        '7'
    } else if d == 8 {
        '8'
    } else {
        '9'
    }
}

/// The decimal digits of `n`, as `n.to_string()` writes them.
pub open spec fn dec(n: nat) -> Seq<char>
    decreases n,
{
    if n < 10 {
        seq![digit_char(n)]
    } else {
        dec(n / 10).push(digit_char(n % 10))
    }
}

/// The decimal digits of `n` are ASCII digits, at least one, and they spell `n`.
pub proof fn lemma_dec_spells(n: nat)
    ensures
        dec(n).len() > 0,
        all_digits(dec(n)),
        digits_value(dec(n)) == n,
    decreases n,
{
    let d = dec(n);
    assert((digit_char(n % 10) as u32) - ('0' as u32) == n % 10);
    assert(d.last() == digit_char(n % 10));
    assert(digits_value(d) == digits_value(d.drop_last()) * 10 + ((d.last() as u32) - ('0' as u32)) as nat);
    if n < 10 {
        assert(d.drop_last().len() == 0);
        assert(digits_value(d.drop_last()) == 0);
    } else {
        lemma_dec_spells(n / 10);
        assert(d.drop_last() == dec(n / 10));
        assert(n == (n / 10) * 10 + n % 10);
        assert forall|i: int| 0 <= i < d.len() implies is_digit(#[trigger] d[i]) by {
            if i < d.len() - 1 {
                assert(d[i] == dec(n / 10)[i]);
            }
        }
    }
}

fn digit_of(d: u64) -> (c: char)
    requires
        d <= 9,
    ensures
        c == digit_char(d as nat),
{
    if d == 0 {
        '0'
    } else if d == 1 {
        '1'
    } else if d == 2 {
        '2'
    } else if d == 3 {
        '3'
    } else if d == 4 {
        '4'
    } else if d == 5 {
        '5'
    } else if d == 6 {
        '6'
    } else if d == 7 {
        '7'
    } else if d == 8 {
        '8'
    } else {
        '9'
    }
}

/// Appends the decimal digits of `n` to `out`.
pub fn push_dec(out: &mut String, n: u64)
    ensures
        final(out)@ == old(out)@ + dec(n as nat),
    decreases n,
{
    if n < 10 {
        push_char(out, digit_of(n));
        assert(old(out)@.push(digit_char(n as nat)) == old(out)@ + seq![digit_char(n as nat)]);
    } else {
        push_dec(out, n / 10);
        push_char(out, digit_of(n % 10));
        assert(old(out)@ + dec(n as nat / 10) + seq![digit_char(n as nat % 10)] == old(out)@ + dec(
            n as nat,
        ));
    }
}

/// `n.to_string()`.
pub fn dec_string(n: u64) -> (s: String)
    ensures
        s@ == dec(n as nat),
{
    let mut s = String::new();
    push_dec(&mut s, n);
    s
}


/// A split always has at least one piece.
pub proof fn lemma_split_on_nonempty(s: Seq<char>, c: char)
    ensures
        split_on(s, c).len() >= 1,
    decreases s.len(),
{
    lemma_first_index(s, c);
    match first_index(s, c) {
        Some(i) => {
            lemma_split_on_nonempty(s.skip(i + 1), c);
        },
        None => {},
    }
}

/// The first `c` of `s` is at `i` when `s[i]` is one and none comes before.
pub proof fn lemma_first_index_at(s: Seq<char>, c: char, i: int)
    requires
        0 <= i < s.len(),
        s[i] == c,
        forall|j: int| 0 <= j < i ==> s[j] != c,
    ensures
        first_index(s, c) == Some(i),
{
    lemma_first_index(s, c);
    match first_index(s, c) {
        Some(k) => {
            if k > i {
                assert(s[i] != c);
            }
        },
        None => {
            assert(s[i] != c);
        },
    }
}

/// A text without `c` is a single piece.
pub proof fn lemma_split_on_free(s: Seq<char>, c: char)
    requires
        forall|j: int| 0 <= j < s.len() ==> s[j] != c,
    ensures
        split_on(s, c) == seq![s],
{
    lemma_first_index(s, c);
}

/// Splitting `a`, `c`, `b` gives the pieces of `a` followed by those of `b`.
pub proof fn lemma_split_on_join(a: Seq<char>, b: Seq<char>, c: char)
    ensures
        split_on(a + seq![c] + b, c) == split_on(a, c) + split_on(b, c),
    decreases a.len(),
{
    let s = a + seq![c] + b;
    lemma_first_index(a, c);
    match first_index(a, c) {
        Some(i) => {
            assert forall|j: int| 0 <= j < i implies s[j] != c by {
                assert(s[j] == a[j]);
            }
            assert(s[i] == a[i]);
            lemma_first_index_at(s, c, i);
            assert(s.take(i) == a.take(i));
            assert(s.skip(i + 1) == a.skip(i + 1) + seq![c] + b);
            lemma_split_on_join(a.skip(i + 1), b, c);
            assert(split_on(s, c) =~= split_on(a, c) + split_on(b, c));
        },
        None => {
            assert forall|j: int| 0 <= j < a.len() implies s[j] != c by {
                assert(s[j] == a[j]);
            }
            lemma_first_index_at(s, c, a.len() as int);
            assert(s.take(a.len() as int) == a);
            assert(s.skip(a.len() as int + 1) == b);
            assert(split_on(s, c) =~= split_on(a, c) + split_on(b, c));
        },
    }
}

/// A text that neither starts nor ends with whitespace is its own trim.
pub proof fn lemma_trim_unchanged(s: Seq<char>)
    requires
        s.len() == 0 || (!is_ws(s[0]) && !is_ws(s.last())),
    ensures
        trim(s) == s,
{
    assert(trim_start(s) == s);
    assert(trim_end(s) == s);
}

/// One space before such a text is trimmed away.
pub proof fn lemma_trim_after_space(s: Seq<char>)
    requires
        s.len() > 0,
        !is_ws(s[0]),
        !is_ws(s.last()),
    ensures
        trim(seq![' '] + s) == s,
{
    let t = seq![' '] + s;
    assert(is_ws(t[0]));
    assert(t.drop_first() == s);
    assert(trim_start(s) == s);
    assert(trim_start(t) == s);
    lemma_trim_unchanged(s);
}

/// The bounds of the pieces of `split_on(v, c)`, in order.
pub fn split_ranges(v: &Vec<char>, c: char) -> (r: Vec<(usize, usize)>)
    ensures
        r@.len() == split_on(v@, c).len(),
        r@.len() >= 1,
        forall|i: int|
            0 <= i < r@.len() ==> #[trigger] r@[i].0 <= r@[i].1 <= v@.len() && v@.subrange(
                r@[i].0 as int,
                r@[i].1 as int,
            ) == split_on(v@, c)[i],
{
    proof {
        lemma_split_on_nonempty(v@, c);
    }
    let n = v.len();
    let mut r: Vec<(usize, usize)> = Vec::new();
    let mut p: usize = 0;
    let ghost mut done: Seq<Seq<char>> = seq![];
    assert(v@.subrange(0, n as int) == v@);
    loop
        invariant
            p <= n,
            n == v@.len(),
            split_on(v@, c) == done + split_on(v@.subrange(p as int, n as int), c),
            r@.len() == done.len(),
            forall|i: int|
                0 <= i < r@.len() ==> #[trigger] r@[i].0 <= r@[i].1 <= v@.len() && v@.subrange(
                    r@[i].0 as int,
                    r@[i].1 as int,
                ) == done[i],
        decreases n - p,
    {
        let ghost rest = v@.subrange(p as int, n as int);
        match find_char(v, p, n, c) {
            Some(q) => {
                proof {
                    lemma_first_index(rest, c);
                    assert(rest.take(q - p) == v@.subrange(p as int, q as int));
                    assert(rest.skip(q - p + 1) == v@.subrange(q + 1, n as int));
                    assert(split_on(rest, c) == seq![v@.subrange(p as int, q as int)] + split_on(
                        v@.subrange(q + 1, n as int),
                        c,
                    ));
                    done = done.push(v@.subrange(p as int, q as int));
                    assert(split_on(v@, c) == done + split_on(v@.subrange(q + 1, n as int), c));
                }
                r.push((p, q));
                p = q + 1;
            },
            None => {
                proof {
                    assert(split_on(rest, c) == seq![rest]);
                    done = done.push(rest);
                    assert(split_on(v@, c) == done);
                }
                let ghost before = r@;
                r.push((p, n));
                proof {
                    assert forall|i: int| 0 <= i < r@.len() implies #[trigger] r@[i].0 <= r@[i].1
                        <= v@.len() && v@.subrange(r@[i].0 as int, r@[i].1 as int) == split_on(
                        v@,
                        c,
                    )[i] by {
                        if i < before.len() {
                            assert(r@[i] == before[i]);
                        }
                    }
                }
                return r;
            },
        }
    }
}


/// The pieces joined by `sep`.
pub open spec fn join_with(parts: Seq<Seq<char>>, sep: Seq<char>) -> Seq<char>
    decreases parts.len(),
{
    if parts.len() == 0 {
        seq![]
    } else if parts.len() == 1 {
        parts[0]
    } else {
        join_with(parts.drop_last(), sep) + sep + parts.last()
    }
}

/// Splitting pieces without `;` joined by `"; "` at each `;` gives the first
/// piece, then each later one behind a space.
pub proof fn lemma_split_joined(parts: Seq<Seq<char>>)
    requires
        parts.len() >= 1,
        forall|i: int, j: int| 0 <= i < parts.len() && 0 <= j < parts[i].len() ==> #[trigger] parts[i][j] != ';',
    ensures
        split_on(join_with(parts, "; "@), ';').len() == parts.len(),
        split_on(join_with(parts, "; "@), ';')[0] == parts[0],
        forall|i: int| 0 < i < parts.len() ==> #[trigger] split_on(join_with(parts, "; "@), ';')[i]
            == seq![' '] + parts[i],
    decreases parts.len(),
{
    reveal_strlit("; ");
    if parts.len() == 1 {
        assert forall|j: int| 0 <= j < parts[0].len() implies parts[0][j] != ';' by {
            assert(parts[0][j] != ';');
        }
        lemma_split_on_free(parts[0], ';');
    } else {
        let t = parts.drop_last();
        assert forall|i: int, j: int| 0 <= i < t.len() && 0 <= j < t[i].len() implies #[trigger] t[i][j]
            != ';' by {
            assert(t[i] == parts[i]);
            assert(parts[i][j] != ';');
        }
        lemma_split_joined(t);
        let l = parts.last();
        let y = seq![' '] + l;
        assert forall|j: int| 0 <= j < y.len() implies y[j] != ';' by {
            if j > 0 {
                assert(y[j] == l[j - 1]);
                assert(parts[parts.len() - 1][j - 1] != ';');
            }
        }
        lemma_split_on_free(y, ';');
        let jt = join_with(t, "; "@);
        assert(join_with(parts, "; "@) =~= jt + seq![';'] + y);
        lemma_split_on_join(jt, y, ';');
        let r = split_on(join_with(parts, "; "@), ';');
        assert(r == split_on(jt, ';') + seq![y]);
        assert forall|i: int| 0 < i < parts.len() implies #[trigger] r[i] == seq![' '] + parts[i] by {
            if i < t.len() {
                assert(r[i] == split_on(jt, ';')[i]);
                assert(t[i] == parts[i]);
            }
        }
        assert(r[0] == split_on(jt, ';')[0]);
    }
}

/// The strings joined by `sep` (`[..].join(sep)`).
pub fn join_strings(parts: &Vec<String>, sep: &str) -> (s: String)
    ensures
        s@ == join_with(parts@.map_values(|p: String| p@), sep@),
{
    let ghost ps = parts@.map_values(|p: String| p@);
    let mut out = String::new();
    let mut i: usize = 0;
    while i < parts.len()
        invariant
            i <= parts@.len(),
            ps == parts@.map_values(|p: String| p@),
            out@ == join_with(ps.take(i as int), sep@),
        decreases parts.len() - i,
    {
        if i > 0 {
            push_str(&mut out, sep);
        }
        push_str(&mut out, parts[i].as_str());
        proof {
            let t = ps.take(i + 1);
            assert(t.drop_last() == ps.take(i as int));
            if i == 0 {
                assert(Seq::<char>::empty() + parts@[0]@ == parts@[0]@);
            }
        }
        i = i + 1;
    }
    assert(ps.take(ps.len() as int) == ps);
    out
}

/// Whether `s` holds exactly the characters of `lit`.
pub fn is_str(s: &String, lit: &str) -> (r: bool)
    ensures
        r == (s@ == lit@),
{
    let l = owned(lit);
    *s == l
}

/// `s` followed by `t`, as a new string.
pub fn concat(s: &str, t: &str) -> (r: String)
    ensures
        r@ == s@ + t@,
{
    let mut r = owned(s);
    push_str(&mut r, t);
    r
}

} // verus!
