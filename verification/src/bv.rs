//! Conversion between AV numbers and BV numbers.
//!
//! An AV number `av` (`1 <= av < 2^51`) is mixed with a fixed mask, written
//! as nine Base58 digits, two pairs of digits are exchanged, and the result
//! is prefixed with `BV1`. Reading a BV number undoes each step.

use vstd::prelude::*;
use crate::codec::{bv_alphabet, bv_alphabet_pos, bv_alphabet_byte, bv_alphabet_index, lemma_bv_alphabet_pos};
use crate::text::{push_char, owned};

verus! {

/// The mask mixed into every AV number.
pub const XOR_CODE: u64 = 23442827791579;

/// The low 51 bits.
pub const MASK_CODE: u64 = 2251799813685247;

/// One past the largest AV number (`2^51`).
pub const MAX_AID: u64 = 2251799813685248;

/// Why an AV or BV number was refused.
#[derive(Debug, Clone, Copy, PartialEq, Eq, Structural)]
pub enum BvError {
    /// The AV number is 0.
    AvTooSmall,
    /// The AV number does not fit in 51 bits.
    AvTooLarge,
    /// The BV number is not 12 characters long.
    BadLength,
    /// The BV number does not start with `BV1`.
    BadPrefix,
    /// The BV number holds a character outside the Base58 table.
    BadChar,
}

/// `58^n`.
pub open spec fn pow58(n: nat) -> nat
    decreases n,
{
    if n == 0 {
        1
    } else {
        58 * pow58((n - 1) as nat)
    }
}

/// The last `n` Base58 digits of `x`, most significant first.
pub open spec fn digits58(x: nat, n: nat) -> Seq<nat>
    decreases n,
{
    if n == 0 {
        seq![]
    } else {
        digits58(x / 58, (n - 1) as nat).push(x % 58)
    }
}

/// The number that Base58 digits spell, most significant first.
pub open spec fn value58(d: Seq<nat>) -> nat
    decreases d.len(),
{
    if d.len() == 0 {
        0
    } else {
        value58(d.drop_last()) * 58 + d.last()
    }
}

/// Exchanges positions 0 and 6, then 1 and 4 (its own inverse).
pub open spec fn shuffle<T>(d: Seq<T>) -> Seq<T> {
    let a = d.update(0, d[6]).update(6, d[0]);
    a.update(1, a[4]).update(4, a[1])
}

/// The position that [`shuffle`] moves to position `k`.
pub open spec fn shuffle_src(k: int) -> int {
    if k == 0 {
        6
    } else if k == 6 {
        0
    } else if k == 1 {
        4
    } else if k == 4 {
        1
    } else {
        k
    }
}

proof fn lemma_shuffle_at<T>(d: Seq<T>, k: int)
    requires
        d.len() == 9,
        0 <= k < 9,
    ensures
        shuffle(d)[k] == d[shuffle_src(k)],
        0 <= shuffle_src(k) < 9,
        shuffle(d).len() == 9,
{
}

fn shuffle_src_exec(k: usize) -> (r: usize)
    requires
        k < 9,
    ensures
        r as int == shuffle_src(k as int),
        r < 9,
{
    if k == 0 {
        6
    } else if k == 6 {
        0
    } else if k == 1 {
        4
    } else if k == 4 {
        1
    } else {
        k
    }
}

/// The number that is written in Base58 for `av`.
pub open spec fn mixed(av: u64) -> u64 {
    (MAX_AID | av) ^ XOR_CODE
}

/// The nine payload bytes of the BV number of `av`.
pub open spec fn bv_payload(av: u64) -> Seq<u8> {
    shuffle(digits58(mixed(av) as nat, 9)).map_values(|d: nat| bv_alphabet(d as int))
}

/// The BV number of `av`, as characters.
pub open spec fn bv_of_av(av: u64) -> Seq<char> {
    seq!['B', 'V', '1'] + bv_payload(av).map_values(|b: u8| b as char)
}

/// A character of the Base58 table.
pub open spec fn bv_char(c: char) -> bool {
    c <= '\u{7f}' && bv_alphabet_pos(c as u32 as u8) >= 0
}

/// Whether `s` passes [`validate_bv`]: 12 characters, the prefix `BV1`, and
/// every character in the Base58 table.
pub open spec fn bv_valid(s: Seq<char>) -> bool {
    &&& s.len() == 12
    &&& s[0] == 'B' && s[1] == 'V' && s[2] == '1'
    &&& forall|i: int| 0 <= i < s.len() ==> bv_char(#[trigger] s[i])
}

/// The low byte of each character (its byte, for the ASCII characters of a
/// valid BV number).
pub open spec fn bv_bytes(s: Seq<char>) -> Seq<u8> {
    s.map_values(|c: char| c as u32 as u8)
}

/// Position of the first payload byte in the Base58 table order after the
/// shuffle is undone.
pub open spec fn payload_digits(bytes: Seq<u8>) -> Seq<nat> {
    shuffle(bytes.subrange(3, 12)).map_values(|b: u8| bv_alphabet_pos(b) as nat)
}

/// The AV number that the bytes of a valid BV number give, or `None` when a
/// payload byte lies outside the table.
pub open spec fn av_of_bytes(bytes: Seq<u8>) -> Option<u64> {
    if forall|i: int| 3 <= i < 12 ==> bv_alphabet_pos(#[trigger] bytes[i]) >= 0 {
        Some(((value58(payload_digits(bytes)) as u64) & MASK_CODE) ^ XOR_CODE)
    } else {
        None
    }
}

proof fn lemma_digits58_len(x: nat, n: nat)
    ensures
        digits58(x, n).len() == n,
        forall|i: int| 0 <= i < n ==> #[trigger] digits58(x, n)[i] < 58,
    decreases n,
{
    if n > 0 {
        lemma_digits58_len(x / 58, (n - 1) as nat);
    }
}

proof fn lemma_value_digits58(x: nat, n: nat)
    ensures
        value58(digits58(x, n)) == x % pow58(n),
    decreases n,
{
    if n > 0 {
        let d = digits58(x, n);
        assert(d.drop_last() == digits58(x / 58, (n - 1) as nat));
        lemma_value_digits58(x / 58, (n - 1) as nat);
        let p = pow58((n - 1) as nat);
        assert(p > 0) by {
            lemma_pow58_pos((n - 1) as nat);
        }
        assert((x / 58) % p * 58 + x % 58 == x % (58 * p)) by {
            vstd::arithmetic::div_mod::lemma_breakdown(x as int, 58, p as int);
        }
    }
}

proof fn lemma_pow58_pos(n: nat)
    ensures
        pow58(n) > 0,
    decreases n,
{
    if n > 0 {
        lemma_pow58_pos((n - 1) as nat);
    }
}

proof fn lemma_shuffle_twice<T>(d: Seq<T>)
    requires
        d.len() == 9,
    ensures
        shuffle(shuffle(d)) == d,
        shuffle(d).len() == 9,
{
    assert(shuffle(shuffle(d)) =~= d);
}

proof fn lemma_mixed(av: u64)
    requires
        1 <= av < MAX_AID,
    ensures
        mixed(av) < 4503599627370496,
        (mixed(av) & MASK_CODE) ^ XOR_CODE == av,
{
    assert(((2251799813685248u64 | av) ^ 23442827791579u64) < 4503599627370496u64) by (bit_vector)
        requires
            av < 2251799813685248u64,
    ;
    assert((((2251799813685248u64 | av) ^ 23442827791579u64) & 2251799813685247u64)
        ^ 23442827791579u64 == av) by (bit_vector)
        requires
            av < 2251799813685248u64,
    ;
}

/// Checks the form of a BV number: 12 characters, the prefix `BV1`, and only
/// characters of the Base58 table.
pub fn validate_bv(bv: &str) -> (r: Result<(), BvError>)
    ensures
        r is Ok <==> bv_valid(bv@),
        r matches Err(e) ==> bv_check(bv@) == Some(e),
{
    let v = crate::text::chars_of(bv);
    if v.len() != 12 {
        return Err(BvError::BadLength);
    }
    if !(v[0] == 'B' && v[1] == 'V' && v[2] == '1') {
        return Err(BvError::BadPrefix);
    }
    let mut i: usize = 0;
    while i < v.len()
        invariant
            i <= v@.len(),
            v@ == bv@,
            v@.len() == 12,
            v@[0] == 'B' && v@[1] == 'V' && v@[2] == '1',
            forall|j: int| 0 <= j < i ==> bv_char(#[trigger] v@[j]),
        decreases v.len() - i,
    {
        let c = v[i];
        if c > '\u{7f}' || bv_alphabet_index((c as u32) as u8).is_none() {
            return Err(BvError::BadChar);
        }
        i = i + 1;
    }
    Ok(())
}

fn digits58_exec(x: u64, n: usize) -> (d: Vec<u64>)
    ensures
        d@.len() == n,
        forall|i: int| 0 <= i < n ==> #[trigger] d@[i] as nat == digits58(x as nat, n as nat)[i],
        forall|i: int| 0 <= i < n ==> #[trigger] d@[i] < 58,
    decreases n,
{
    proof {
        lemma_digits58_len(x as nat, n as nat);
    }
    if n == 0 {
        Vec::new()
    } else {
        let mut d = digits58_exec(x / 58, n - 1);
        d.push(x % 58);
        proof {
            lemma_digits58_len((x / 58) as nat, (n - 1) as nat);
            assert forall|i: int| 0 <= i < n implies #[trigger] d@[i] as nat == digits58(
                x as nat,
                n as nat,
            )[i] by {
                if i < n - 1 {
                    assert(digits58(x as nat, n as nat)[i] == digits58((x / 58) as nat, (n - 1) as nat)[i]);
                }
            }
        }
        d
    }
}

/// The BV number of an AV number.
pub fn av_to_bv(av: u64) -> (r: Result<String, BvError>)
    ensures
        r is Ok <==> 1 <= av < MAX_AID,
        r matches Ok(s) ==> s@ == bv_of_av(av),
        av < 1 ==> r == Err::<String, BvError>(BvError::AvTooSmall),
        av >= MAX_AID ==> r == Err::<String, BvError>(BvError::AvTooLarge),
{
    if av < 1 {
        return Err(BvError::AvTooSmall);
    }
    if av >= MAX_AID {
        return Err(BvError::AvTooLarge);
    }
    let tmp = (MAX_AID | av) ^ XOR_CODE;
    let d = digits58_exec(tmp, 9);
    let ghost dd = digits58(tmp as nat, 9);
    proof {
        lemma_digits58_len(tmp as nat, 9);
    }
    let mut out = owned("BV1");
    proof {
        reveal_strlit("BV1");
    }
    let mut k: usize = 0;
    while k < 9
        invariant
            k <= 9,
            d@.len() == 9,
            dd.len() == 9,
            dd == digits58(tmp as nat, 9),
            tmp == mixed(av),
            forall|i: int| 0 <= i < 9 ==> #[trigger] d@[i] as nat == dd[i],
            forall|i: int| 0 <= i < 9 ==> #[trigger] d@[i] < 58,
            out@ == seq!['B', 'V', '1'] + shuffle(dd).map_values(|x: nat| bv_alphabet(x as int)).take(
                k as int,
            ).map_values(|b: u8| b as char),
        decreases 9 - k,
    {
        let j = shuffle_src_exec(k);
        let b = bv_alphabet_byte(d[j]);
        push_char(&mut out, b as char);
        proof {
            let p = shuffle(dd).map_values(|x: nat| bv_alphabet(x as int));
            lemma_shuffle_at(dd, k as int);
            assert(p.take(k + 1) == p.take(k as int).push(b));
            assert(p.take(k + 1).map_values(|b: u8| b as char) == p.take(k as int).map_values(
                |b: u8| b as char,
            ).push(b as char));
        }
        k = k + 1;
    }
    proof {
        let p = shuffle(dd).map_values(|x: nat| bv_alphabet(x as int));
        assert(p.take(9) == p);
    }
    Ok(out)
}

/// The AV number of a BV number.
pub fn bv_to_av(bv: &str) -> (r: Result<u64, BvError>)
    ensures
        r is Ok <==> bv_valid(bv@) && av_of_bytes(bv_bytes(bv@)) is Some,
        r matches Ok(a) ==> av_of_bytes(bv_bytes(bv@)) == Some(a),
        bv_check(bv@) matches Some(e) ==> r == Err::<u64, BvError>(e),
        bv_valid(bv@) && av_of_bytes(bv_bytes(bv@)) is None ==> r == Err::<u64, BvError>(
            BvError::BadChar,
        ),
{
    match validate_bv(bv) {
        Err(e) => {
            return Err(e);
        },
        Ok(()) => {},
    }
    let v = crate::text::chars_of(bv);
    let ghost bs = bv_bytes(bv@);
    let mut avid: u64 = 0;
    let mut k: usize = 0;
    while k < 9
        invariant
            k <= 9,
            v@ == bv@,
            bs == bv_bytes(bv@),
            bv_valid(bv@),
            bs.len() == 12,
            forall|t: int| 0 <= t < k ==> 0 <= #[trigger] bv_alphabet_pos(shuffle(
                bs.subrange(3, 12),
            )[t]),
            avid as nat == value58(payload_digits(bs).take(k as int)),
            avid < pow58(k as nat),
        decreases 9 - k,
    {
        let j = 3 + shuffle_src_exec(k);
        let b = (v[j] as u32) as u8;
        let ghost sh = shuffle(bs.subrange(3, 12));
        proof {
            lemma_shuffle_at(bs.subrange(3, 12), k as int);
        }
        assert(sh[k as int] == b);
        match bv_alphabet_index(b) {
            None => {
                proof {
                    assert(bv_alphabet_pos(bs[j as int]) < 0);
                    assert(!(3 <= j < 12 ==> bv_alphabet_pos(bs[j as int]) >= 0));
                }
                return Err(BvError::BadChar);
            },
            Some(pos) => {
                proof {
                    lemma_bv_alphabet_pos();
                    let pd = payload_digits(bs);
                    assert(pd.take(k + 1).drop_last() == pd.take(k as int));
                    assert(pd.take(k + 1).last() == pos);
                    assert(avid * 58 + pos < pow58(k as nat) * 58) by (nonlinear_arith)
                        requires
                            avid < pow58(k as nat),
                            pos < 58,
                    ;
                    assert(pow58((k + 1) as nat) == 58 * pow58(k as nat));
                    assert(pow58(k as nat) <= pow58(9)) by {
                        lemma_pow58_mono(k as nat, 9);
                    }
                    assert(pow58(9) == 7427658739644928nat) by {
                        reveal_with_fuel(pow58, 10);
                    }
                }
                avid = avid * 58 + pos;
            },
        }
        k = k + 1;
    }
    proof {
        let pd = payload_digits(bs);
        assert(pd.take(9) == pd);
        let sh = shuffle(bs.subrange(3, 12));
        lemma_shuffle_twice(bs.subrange(3, 12));
        assert forall|i: int| 3 <= i < 12 implies bv_alphabet_pos(#[trigger] bs[i]) >= 0 by {
            assert(bs[i] == bs.subrange(3, 12)[i - 3]);
            assert(bs.subrange(3, 12)[i - 3] == shuffle(sh)[i - 3]);
        }
    }
    Ok((avid & MASK_CODE) ^ XOR_CODE)
}

/// The first rule of [`bv_valid`] that `s` breaks, if any.
pub open spec fn bv_check(s: Seq<char>) -> Option<BvError> {
    if s.len() != 12 {
        Some(BvError::BadLength)
    } else if !(s[0] == 'B' && s[1] == 'V' && s[2] == '1') {
        Some(BvError::BadPrefix)
    } else if !bv_valid(s) {
        Some(BvError::BadChar)
    } else {
        None
    }
}

proof fn lemma_pow58_mono(a: nat, b: nat)
    requires
        a <= b,
    ensures
        pow58(a) <= pow58(b),
    decreases b,
{
    if a < b {
        lemma_pow58_mono(a, (b - 1) as nat);
        lemma_pow58_pos((b - 1) as nat);
    }
}

} // verus!

verus! {

/// Reading back the BV number of an AV number gives the AV number: for every
/// `1 <= av < 2^51`, the BV number that [`av_to_bv`] writes passes
/// [`validate_bv`] and [`bv_to_av`] turns it into `av` again.
pub proof fn law_bv_round_trip(av: u64)
    requires
        1 <= av < MAX_AID,
    ensures
        bv_valid(bv_of_av(av)),
        av_of_bytes(bv_bytes(bv_of_av(av))) == Some(av),
{
    let s = bv_of_av(av);
    let tmp = mixed(av);
    let dd = digits58(tmp as nat, 9);
    lemma_digits58_len(tmp as nat, 9);
    lemma_bv_alphabet_pos();
    lemma_mixed(av);
    let p = bv_payload(av);
    assert(p.len() == 9);
    assert forall|k: int| 0 <= k < 9 implies #[trigger] p[k] == bv_alphabet(dd[shuffle_src(k)] as int)
        by {
        lemma_shuffle_at(dd, k);
    }
    assert(s.len() == 12);
    assert forall|i: int| 3 <= i < 12 implies #[trigger] s[i] == p[i - 3] as char by {}
    assert(vstd::utf8::is_ascii_chars(s)) by {
        assert forall|i: int| 0 <= i < s.len() implies '\0' <= #[trigger] s[i] <= '\u{7f}' by {
            if i >= 3 {
                assert(p[i - 3] < 128);
            }
        }
    }
    let bytes = bv_bytes(s);
    assert forall|i: int| 0 <= i < s.len() implies bv_char(#[trigger] s[i]) by {
        if i >= 3 {
            assert(p[i - 3] < 128);
            assert((p[i - 3] as char) as u32 as u8 == p[i - 3]);
        }
    }
    assert forall|i: int| 3 <= i < 12 implies #[trigger] bytes[i] == p[i - 3] by {
        assert(bytes[i] == s[i] as u32 as u8);
        assert((p[i - 3] as char) as u32 as u8 == p[i - 3]);
    }
    assert(bytes.subrange(3, 12) =~= p);
    let pd = payload_digits(bytes);
    lemma_shuffle_twice(dd);
    assert forall|k: int| 0 <= k < 9 implies #[trigger] pd[k] == dd[k] by {
        lemma_shuffle_at(p, k);
        let j = shuffle_src(k);
        assert(shuffle_src(j) == k);
        lemma_shuffle_at(dd, j);
    }
    assert(pd =~= dd);
    lemma_value_digits58(tmp as nat, 9);
    assert(pow58(9) == 7427658739644928nat) by {
        reveal_with_fuel(pow58, 10);
    }
    assert(value58(dd) == tmp);
    assert forall|i: int| 3 <= i < 12 implies bv_alphabet_pos(#[trigger] bytes[i]) >= 0 by {
        lemma_shuffle_at(dd, i - 3);
    }
}

} // verus!
