//! Byte and text encodings: hexadecimal, percent-encoding, the Base58 table
//! of BV numbers, and the digests used to sign requests.

use vstd::prelude::*;
use vstd::utf8::{encode_utf8, encode_scalar, decode_utf8, valid_utf8};
use crate::text::{push_char, chars_of};

verus! {

/// The byte at position `i` of the Base58 table of BV numbers
/// (`FcwAPNKTMug3GV5Lj7EJnHpWsx4tb8haYeviqBz6rkCy12mUSDQX9RdoZf`).
pub open spec fn bv_alphabet(i: int) -> u8 {
    if i == 0 {
        70u8
    } else if i == 1 {
        99u8
    } else if i == 2 {
        119u8
    } else if i == 3 {
        65u8
    } else if i == 4 {
        80u8
    } else if i == 5 {
        78u8
    } else if i == 6 {
        75u8
    } else if i == 7 {
        84u8
    } else if i == 8 {
        77u8
    } else if i == 9 {
        117u8
    } else if i == 10 {
        103u8
    } else if i == 11 {
        51u8
    } else if i == 12 {
        71u8
    } else if i == 13 {
        86u8
    } else if i == 14 {
        53u8
    } else if i == 15 {
        76u8
    } else if i == 16 {
        106u8
    } else if i == 17 {
        55u8
    } else if i == 18 {
        69u8
    } else if i == 19 {
        74u8
    } else if i == 20 {
        110u8
    } else if i == 21 {
        72u8
    } else if i == 22 {
        112u8
    } else if i == 23 {
        87u8
    } else if i == 24 {
        115u8
    } else if i == 25 {
        120u8
    } else if i == 26 {
        52u8
    } else if i == 27 {
        116u8
    } else if i == 28 {
        98u8
    } else if i == 29 {
        56u8
    } else if i == 30 {
        104u8
    } else if i == 31 {
        97u8
    } else if i == 32 {
        89u8
    } else if i == 33 {
        101u8
    } else if i == 34 {
        118u8
    } else if i == 35 {
        105u8
    } else if i == 36 {
        113u8
    } else if i == 37 {
        66u8
    } else if i == 38 {
        122u8
    } else if i == 39 {
        54u8
    } else if i == 40 {
        114u8
    } else if i == 41 {
        107u8
    } else if i == 42 {
        67u8
    } else if i == 43 {
        121u8
    } else if i == 44 {
        49u8
    } else if i == 45 {
        50u8
    } else if i == 46 {
        109u8
    } else if i == 47 {
        85u8
    } else if i == 48 {
        83u8
    } else if i == 49 {
        68u8
    } else if i == 50 {
        81u8
    } else if i == 51 {
        88u8
    } else if i == 52 {
        57u8
    } else if i == 53 {
        82u8
    } else if i == 54 {
        100u8
    } else if i == 55 {
        111u8
    } else if i == 56 {
        90u8
    } else if i == 57 {
        102u8
    } else {
        0u8
    }
}

/// Position of byte `b` in the Base58 table, or -1 when it is not in it.
pub open spec fn bv_alphabet_pos(b: u8) -> int {
    if b == 70 {
        0int
    } else if b == 99 {
        1int
    } else if b == 119 {
        2int
    } else if b == 65 {
        3int
    } else if b == 80 {
        4int
    } else if b == 78 {
        5int
    } else if b == 75 {
        6int
    } else if b == 84 {
        7int
    } else if b == 77 {
        8int
    } else if b == 117 {
        9int
    } else if b == 103 {
        10int
    } else if b == 51 {
        11int
    } else if b == 71 {
        12int
    } else if b == 86 {
        13int
    } else if b == 53 {
        14int
    } else if b == 76 {
        15int
    } else if b == 106 {
        16int
    } else if b == 55 {
        17int
    } else if b == 69 {
        18int
    } else if b == 74 {
        19int
    } else if b == 110 {
        20int
    } else if b == 72 {
        21int
    } else if b == 112 {
        22int
    } else if b == 87 {
        23int
    } else if b == 115 {
        24int
    } else if b == 120 {
        25int
    } else if b == 52 {
        26int
    } else if b == 116 {
        27int
    } else if b == 98 {
        28int
    } else if b == 56 {
        29int
    } else if b == 104 {
        30int
    } else if b == 97 {
        31int
    } else if b == 89 {
        32int
    } else if b == 101 {
        33int
    } else if b == 118 {
        34int
    } else if b == 105 {
        35int
    } else if b == 113 {
        36int
    } else if b == 66 {
        37int
    } else if b == 122 {
        38int
    } else if b == 54 {
        39int
    } else if b == 114 {
        40int
    } else if b == 107 {
        41int
    } else if b == 67 {
        42int
    } else if b == 121 {
        43int
    } else if b == 49 {
        44int
    } else if b == 50 {
        45int
    } else if b == 109 {
        46int
    } else if b == 85 {
        47int
    } else if b == 83 {
        48int
    } else if b == 68 {
        49int
    } else if b == 81 {
        50int
    } else if b == 88 {
        51int
    } else if b == 57 {
        52int
    } else if b == 82 {
        53int
    } else if b == 100 {
        54int
    } else if b == 111 {
        55int
    } else if b == 90 {
        56int
    } else if b == 102 {
        57int
    } else {
        -1int
    }
}

/// The table and its positions undo each other.
pub proof fn lemma_bv_alphabet_pos()
    ensures
        forall|i: int| 0 <= i < 58 ==> #[trigger] bv_alphabet_pos(bv_alphabet(i)) == i,
        forall|b: u8| 0 <= #[trigger] bv_alphabet_pos(b) ==> bv_alphabet_pos(b) < 58
            && bv_alphabet(bv_alphabet_pos(b)) == b,
        forall|i: int| 0 <= i < 58 ==> #[trigger] bv_alphabet(i) < 128,
{
}

/// Executable form of [`bv_alphabet`].
pub fn bv_alphabet_byte(i: u64) -> (b: u8)
    requires
        i < 58,
    ensures
        b == bv_alphabet(i as int),
{
    if i == 0 {
        70u8
    } else if i == 1 {
        99u8
    } else if i == 2 {
        119u8
    } else if i == 3 {
        65u8
    } else if i == 4 {
        80u8
    } else if i == 5 {
        78u8
    } else if i == 6 {
        75u8
    } else if i == 7 {
        84u8
    } else if i == 8 {
        77u8
    } else if i == 9 {
        117u8
    } else if i == 10 {
        103u8
    } else if i == 11 {
        51u8
    } else if i == 12 {
        71u8
    } else if i == 13 {
        86u8
    } else if i == 14 {
        53u8
    } else if i == 15 {
        76u8
    } else if i == 16 {
        106u8
    } else if i == 17 {
        55u8
    } else if i == 18 {
        69u8
    } else if i == 19 {
        74u8
    } else if i == 20 {
        110u8
    } else if i == 21 {
        72u8
    } else if i == 22 {
        112u8
    } else if i == 23 {
        87u8
    } else if i == 24 {
        115u8
    } else if i == 25 {
        120u8
    } else if i == 26 {
        52u8
    } else if i == 27 {
        116u8
    } else if i == 28 {
        98u8
    } else if i == 29 {
        56u8
    } else if i == 30 {
        104u8
    } else if i == 31 {
        97u8
    } else if i == 32 {
        89u8
    } else if i == 33 {
        101u8
    } else if i == 34 {
        118u8
    } else if i == 35 {
        105u8
    } else if i == 36 {
        113u8
    } else if i == 37 {
        66u8
    } else if i == 38 {
        122u8
    } else if i == 39 {
        54u8
    } else if i == 40 {
        114u8
    } else if i == 41 {
        107u8
    } else if i == 42 {
        67u8
    } else if i == 43 {
        121u8
    } else if i == 44 {
        49u8
    } else if i == 45 {
        50u8
    } else if i == 46 {
        109u8
    } else if i == 47 {
        85u8
    } else if i == 48 {
        83u8
    } else if i == 49 {
        68u8
    } else if i == 50 {
        81u8
    } else if i == 51 {
        88u8
    } else if i == 52 {
        57u8
    } else if i == 53 {
        82u8
    } else if i == 54 {
        100u8
    } else if i == 55 {
        111u8
    } else if i == 56 {
        90u8
    } else if i == 57 {
        102u8
    } else {
        0u8
    }
}

/// Executable form of [`bv_alphabet_pos`].
pub fn bv_alphabet_index(b: u8) -> (r: Option<u64>)
    ensures
        r matches Some(i) ==> bv_alphabet_pos(b) == i,
        r is None ==> bv_alphabet_pos(b) == -1,
{
    if b == 70 {
        Some(0u64)
    } else if b == 99 {
        Some(1u64)
    } else if b == 119 {
        Some(2u64)
    } else if b == 65 {
        Some(3u64)
    } else if b == 80 {
        Some(4u64)
    } else if b == 78 {
        Some(5u64)
    } else if b == 75 {
        Some(6u64)
    } else if b == 84 {
        Some(7u64)
    } else if b == 77 {
        Some(8u64)
    } else if b == 117 {
        Some(9u64)
    } else if b == 103 {
        Some(10u64)
    } else if b == 51 {
        Some(11u64)
    } else if b == 71 {
        Some(12u64)
    } else if b == 86 {
        Some(13u64)
    } else if b == 53 {
        Some(14u64)
    } else if b == 76 {
        Some(15u64)
    } else if b == 106 {
        Some(16u64)
    } else if b == 55 {
        Some(17u64)
    } else if b == 69 {
        Some(18u64)
    } else if b == 74 {
        Some(19u64)
    } else if b == 110 {
        Some(20u64)
    } else if b == 72 {
        Some(21u64)
    } else if b == 112 {
        Some(22u64)
    } else if b == 87 {
        Some(23u64)
    } else if b == 115 {
        Some(24u64)
    } else if b == 120 {
        Some(25u64)
    } else if b == 52 {
        Some(26u64)
    } else if b == 116 {
        Some(27u64)
    } else if b == 98 {
        Some(28u64)
    } else if b == 56 {
        Some(29u64)
    } else if b == 104 {
        Some(30u64)
    } else if b == 97 {
        Some(31u64)
    } else if b == 89 {
        Some(32u64)
    } else if b == 101 {
        Some(33u64)
    } else if b == 118 {
        Some(34u64)
    } else if b == 105 {
        Some(35u64)
    } else if b == 113 {
        Some(36u64)
    } else if b == 66 {
        Some(37u64)
    } else if b == 122 {
        Some(38u64)
    } else if b == 54 {
        Some(39u64)
    } else if b == 114 {
        Some(40u64)
    } else if b == 107 {
        Some(41u64)
    } else if b == 67 {
        Some(42u64)
    } else if b == 121 {
        Some(43u64)
    } else if b == 49 {
        Some(44u64)
    } else if b == 50 {
        Some(45u64)
    } else if b == 109 {
        Some(46u64)
    } else if b == 85 {
        Some(47u64)
    } else if b == 83 {
        Some(48u64)
    } else if b == 68 {
        Some(49u64)
    } else if b == 81 {
        Some(50u64)
    } else if b == 88 {
        Some(51u64)
    } else if b == 57 {
        Some(52u64)
    } else if b == 82 {
        Some(53u64)
    } else if b == 100 {
        Some(54u64)
    } else if b == 111 {
        Some(55u64)
    } else if b == 90 {
        Some(56u64)
    } else if b == 102 {
        Some(57u64)
    } else {
        None
    }
}


// ---------------------------------------------------------------------------
// Hexadecimal
// ---------------------------------------------------------------------------

/// The lowercase hexadecimal digit for `d < 16`.
pub open spec fn hex_lower(d: int) -> char {
    if d < 10 {
        (('0' as int) + d) as char
    } else {
        (('a' as int) + d - 10) as char
    }
}

/// The uppercase hexadecimal digit for `d < 16`.
pub open spec fn hex_upper(d: int) -> char {
    if d < 10 {
        (('0' as int) + d) as char
    } else {
        (('A' as int) + d - 10) as char
    }
}

/// Two lowercase hexadecimal digits per byte, most significant first.
pub open spec fn hex_enc(b: Seq<u8>) -> Seq<char>
    decreases b.len(),
{
    if b.len() == 0 {
        seq![]
    } else {
        hex_enc(b.drop_last()) + seq![hex_lower((b.last() / 16) as int), hex_lower((b.last() % 16) as int)]
    }
}

/// The value of a hexadecimal digit byte (either case), or -1.
pub open spec fn hex_val(c: u8) -> int {
    if 48 <= c <= 57 {
        c - 48
    } else if 97 <= c <= 102 {
        c - 87
    } else if 65 <= c <= 70 {
        c - 55
    } else {
        -1
    }
}

fn hex_val_exec(c: u8) -> (r: Option<u8>)
    ensures
        r matches Some(v) ==> hex_val(c) == v && v < 16,
        r is None ==> hex_val(c) == -1,
{
    if 48 <= c && c <= 57 {
        Some(c - 48)
    } else if 97 <= c && c <= 102 {
        Some(c - 87)
    } else if 65 <= c && c <= 70 {
        Some(c - 55)
    } else {
        None
    }
}

fn hex_digit_lower(d: u8) -> (c: char)
    requires
        d < 16,
    ensures
        c == hex_lower(d as int),
{
    if d < 10 {
        (48 + d) as char
    } else {
        (87 + d) as char
    }
}

fn hex_digit_upper(d: u8) -> (c: char)
    requires
        d < 16,
    ensures
        c == hex_upper(d as int),
{
    if d < 10 {
        (48 + d) as char
    } else {
        (55 + d) as char
    }
}

/// Lowercase hexadecimal: two digits per byte.
pub fn hex_encode(bytes: &[u8]) -> (s: String)
    ensures
        s@ == hex_enc(bytes@),
{
    let mut s = String::new();
    let mut i: usize = 0;
    while i < bytes.len()
        invariant
            i <= bytes@.len(),
            s@ == hex_enc(bytes@.take(i as int)),
        decreases bytes.len() - i,
    {
        let b = bytes[i];
        push_char(&mut s, hex_digit_lower(b / 16));
        push_char(&mut s, hex_digit_lower(b % 16));
        proof {
            let t = bytes@.take(i + 1);
            assert(t.drop_last() == bytes@.take(i as int));
            assert(t.last() == b);
        }
        i = i + 1;
    }
    assert(bytes@.take(bytes@.len() as int) == bytes@);
    s
}

/// The value of one two-byte group: two hexadecimal digits (either case),
/// the first the more significant; anything else is refused.
pub open spec fn hex_pair(x: u8, y: u8) -> Option<u8> {
    if hex_val(x) >= 0 && hex_val(y) >= 0 {
        Some((hex_val(x) * 16 + hex_val(y)) as u8)
    } else {
        None
    }
}

/// The bytes that an even number of bytes decode to, group by group.
pub open spec fn hex_dec(b: Seq<u8>) -> Option<Seq<u8>>
    decreases b.len(),
{
    if b.len() < 2 {
        Some(seq![])
    } else {
        match hex_pair(b[0], b[1]) {
            Some(v) => match hex_dec(b.skip(2)) {
                Some(rest) => Some(seq![v] + rest),
                None => None,
            },
            None => None,
        }
    }
}

/// Why a hexadecimal string was refused.
#[derive(Debug, Clone, Copy, PartialEq, Eq, Structural)]
pub enum HexError {
    /// The string has an odd number of bytes.
    OddLength,
    /// A group of two bytes is not a hexadecimal number.
    InvalidDigit,
}

/// Decodes hexadecimal text, two bytes at a time.
pub fn hex_decode(s: &str) -> (r: Result<Vec<u8>, HexError>)
    ensures
        encode_utf8(s@).len() % 2 == 1 ==> r == Err::<Vec<u8>, HexError>(HexError::OddLength),
        encode_utf8(s@).len() % 2 == 0 ==> match hex_dec(encode_utf8(s@)) {
            Some(v) => r matches Ok(out) && out@ == v,
            None => r == Err::<Vec<u8>, HexError>(HexError::InvalidDigit),
        },
{
    let b = s.as_bytes();
    let ghost bs = encode_utf8(s@);
    if b.len() % 2 != 0 {
        return Err(HexError::OddLength);
    }
    let mut out: Vec<u8> = Vec::new();
    let mut i: usize = 0;
    proof {
        assert(bs.skip(0) =~= bs);
        match hex_dec(bs) {
            Some(t) => {
                assert(out@ + t =~= t);
            },
            None => {},
        }
    }
    while i < b.len()
        invariant
            b@ == bs,
            bs == encode_utf8(s@),
            bs.len() % 2 == 0,
            i % 2 == 0,
            i <= bs.len(),
            hex_dec(bs) == match hex_dec(bs.skip(i as int)) {
                Some(t) => Some(out@ + t),
                None => None::<Seq<u8>>,
            },
        decreases b.len() - i,
    {
        let ghost rest = bs.skip(i as int);
        assert(rest.skip(2) == bs.skip(i + 2));
        let x = b[i];
        let y = b[i + 1];
        assert(rest[0] == x && rest[1] == y);
        let v: u8;
        match (hex_val_exec(x), hex_val_exec(y)) {
            (Some(h), Some(l)) => {
                v = h * 16 + l;
            },
            _ => {
                return Err(HexError::InvalidDigit);
            },
        }
        assert(hex_pair(x, y) == Some(v));
        out.push(v);
        i = i + 2;
    }
    assert(bs.skip(i as int).len() == 0);
    assert(out@ + seq![] == out@);
    Ok(out)
}


proof fn lemma_hex_enc_at(b: Seq<u8>)
    ensures
        hex_enc(b).len() == 2 * b.len(),
        forall|k: int|
            0 <= k < b.len() ==> #[trigger] hex_enc(b)[2 * k] == hex_lower((b[k] / 16) as int)
                && hex_enc(b)[2 * k + 1] == hex_lower((b[k] % 16) as int),
    decreases b.len(),
{
    if b.len() > 0 {
        lemma_hex_enc_at(b.drop_last());
    }
}

proof fn lemma_hex_dec_pairs(x: Seq<u8>, b: Seq<u8>)
    requires
        x.len() == 2 * b.len(),
        forall|j: int| 0 <= j < x.len() ==> #[trigger] x[j] < 128,
        forall|k: int| 0 <= k < b.len() ==> #[trigger] hex_pair(x[2 * k], x[2 * k + 1]) == Some(b[k]),
    ensures
        hex_dec(x) == Some(b),
    decreases b.len(),
{
    if b.len() > 0 {
        let x2 = x.skip(2);
        let b2 = b.skip(1);
        assert forall|k: int| 0 <= k < b2.len() implies #[trigger] hex_pair(
            x2[2 * k],
            x2[2 * k + 1],
        ) == Some(b2[k]) by {
            assert(hex_pair(x[2 * (k + 1)], x[2 * (k + 1) + 1]) == Some(b[k + 1]));
        }
        assert forall|j: int| 0 <= j < x2.len() implies #[trigger] x2[j] < 128 by {
            assert(x[j + 2] < 128);
        }
        lemma_hex_dec_pairs(x2, b2);
        assert(hex_pair(x[2 * 0int], x[2 * 0int + 1]) == Some(b[0]));
        assert(x[0] < 128);
        assert(x.len() > 2 ==> x[2] < 128);
        assert(seq![b[0]] + b2 =~= b);
    } else {
        assert(hex_dec(x) == Some(Seq::<u8>::empty()));
        assert(b =~= Seq::<u8>::empty());
    }
}

/// Decoding the hexadecimal text of any bytes gives the bytes back.
pub proof fn law_hex_round_trip(b: Seq<u8>)
    ensures
        encode_utf8(hex_enc(b)).len() % 2 == 0,
        hex_dec(encode_utf8(hex_enc(b))) == Some(b),
{
    let h = hex_enc(b);
    lemma_hex_enc_at(b);
    assert forall|j: int| 0 <= j < h.len() implies '\0' <= #[trigger] h[j] <= '\u{7f}' by {
        let k = j / 2;
        if j == 2 * k {
            assert(h[2 * k] == hex_lower((b[k] / 16) as int));
        } else {
            assert(j == 2 * k + 1);
            assert(h[2 * k] == hex_lower((b[k] / 16) as int));
            assert(h[2 * k + 1] == hex_lower((b[k] % 16) as int));
        }
    }
    assert(vstd::utf8::is_ascii_chars(h));
    vstd::utf8::is_ascii_chars_encode_utf8(h);
    let x = encode_utf8(h);
    assert forall|j: int| 0 <= j < x.len() implies #[trigger] x[j] < 128 by {
        assert(h[j] as u8 == x[j]);
    }
    assert forall|k: int| 0 <= k < b.len() implies #[trigger] hex_pair(x[2 * k], x[2 * k + 1])
        == Some(b[k]) by {
        assert(h[2 * k] as u8 == x[2 * k]);
        assert(h[2 * k + 1] as u8 == x[2 * k + 1]);
        let hi = (b[k] / 16) as int;
        let lo = (b[k] % 16) as int;
        assert(hex_val(hex_lower(hi) as u8) == hi);
        assert(hex_val(hex_lower(lo) as u8) == lo);
    }
    lemma_hex_dec_pairs(x, b);
}


// ---------------------------------------------------------------------------
// Percent-encoding
// ---------------------------------------------------------------------------

/// The UTF-8 bytes of one character.
pub fn utf8_of_char(c: char) -> (r: Vec<u8>)
    ensures
        r@ == encode_scalar(c as u32),
{
    let u = c as u32;
    let mut r: Vec<u8> = Vec::new();
    if u <= 0x7f {
        r.push((u & 0x7F) as u8);
    } else if u <= 0x7ff {
        r.push(0xC0 | ((u >> 6) & 0x1F) as u8);
        r.push(0x80 | (u & 0x3F) as u8);
    } else if u <= 0xffff {
        r.push(0xE0 | ((u >> 12) & 0x0F) as u8);
        r.push(0x80 | ((u >> 6) & 0x3F) as u8);
        r.push(0x80 | (u & 0x3F) as u8);
    } else {
        r.push(0xF0 | ((u >> 18) & 0x7) as u8);
        r.push(0x80 | ((u >> 12) & 0x3F) as u8);
        r.push(0x80 | ((u >> 6) & 0x3F) as u8);
        r.push(0x80 | (u & 0x3F) as u8);
    }
    proof {
        vstd::utf8::char_is_scalar(c);
    }
    assert(r@ =~= encode_scalar(u));
    r
}

/// The characters that percent-encoding leaves as they are: ASCII letters
/// and digits, `_ - ~ ! * ( ) '`, and `.` when `keep_dot` holds.
pub open spec fn url_keep(c: char, keep_dot: bool) -> bool {
    ('A' <= c && c <= 'Z') || ('a' <= c && c <= 'z') || ('0' <= c && c <= '9') || c == '_' || c
        == '-' || c == '~' || c == '!' || c == '*' || c == '(' || c == ')' || c == '\'' || (keep_dot
        && c == '.')
}

/// `%XX` (uppercase) for each byte.
pub open spec fn pct_bytes(b: Seq<u8>) -> Seq<char>
    decreases b.len(),
{
    if b.len() == 0 {
        seq![]
    } else {
        pct_bytes(b.drop_last()) + seq![
            '%',
            hex_upper((b.last() / 16) as int),
            hex_upper((b.last() % 16) as int),
        ]
    }
}

/// Percent-encoding of a text component: kept characters stay, every other
/// character becomes `%XX` for each byte of its UTF-8 encoding.
pub open spec fn url_enc(s: Seq<char>, keep_dot: bool) -> Seq<char>
    decreases s.len(),
{
    if s.len() == 0 {
        seq![]
    } else {
        url_enc(s.drop_last(), keep_dot) + if url_keep(s.last(), keep_dot) {
            seq![s.last()]
        } else {
            pct_bytes(encode_scalar(s.last() as u32))
        }
    }
}

fn push_pct_bytes(out: &mut String, b: &Vec<u8>)
    ensures
        final(out)@ == old(out)@ + pct_bytes(b@),
{
    let mut i: usize = 0;
    while i < b.len()
        invariant
            i <= b@.len(),
            out@ == old(out)@ + pct_bytes(b@.take(i as int)),
        decreases b.len() - i,
    {
        let x = b[i];
        push_char(out, '%');
        push_char(out, hex_digit_upper(x / 16));
        push_char(out, hex_digit_upper(x % 16));
        proof {
            let t = b@.take(i + 1);
            assert(t.drop_last() == b@.take(i as int));
            assert(t.last() == x);
        }
        i = i + 1;
    }
    assert(b@.take(b@.len() as int) == b@);
}

/// Percent-encodes a text component the way JavaScript's
/// `encodeURIComponent` does (keeping `A-Z a-z 0-9 _ - . ~ ! * ( ) '`).
pub fn url_encode_component(s: &str) -> (r: String)
    ensures
        r@ == url_enc(s@, true),
{
    encode_component(s, true)
}

/// Percent-encodes a text component, keeping `A-Z a-z 0-9 _ - ~ ! * ( ) '`,
/// and `.` when `keep_dot` holds.
pub fn encode_component(s: &str, keep_dot: bool) -> (r: String)
    ensures
        r@ == url_enc(s@, keep_dot),
{
    let v = chars_of(s);
    let mut out = String::new();
    let mut i: usize = 0;
    while i < v.len()
        invariant
            i <= v@.len(),
            v@ == s@,
            out@ == url_enc(v@.take(i as int), keep_dot),
        decreases v.len() - i,
    {
        let c = v[i];
        let keep = ('A' <= c && c <= 'Z') || ('a' <= c && c <= 'z') || ('0' <= c && c <= '9') || c
            == '_' || c == '-' || c == '~' || c == '!' || c == '*' || c == '(' || c == ')' || c
            == '\'' || (keep_dot && c == '.');
        if keep {
            push_char(&mut out, c);
        } else {
            let b = utf8_of_char(c);
            push_pct_bytes(&mut out, &b);
        }
        proof {
            let t = v@.take(i + 1);
            assert(t.drop_last() == v@.take(i as int));
            assert(t.last() == c);
            assert(seq![c] == Seq::<char>::empty().push(c));
        }
        i = i + 1;
    }
    assert(v@.take(v@.len() as int) == v@);
    out
}

/// The bytes that percent-decoding gives: `%` and two hexadecimal digits
/// (either case) become one byte; every other byte stays.
pub open spec fn pct_decoded(b: Seq<u8>) -> Seq<u8>
    decreases b.len(),
{
    if b.len() == 0 {
        seq![]
    } else if b[0] == 37 && b.len() >= 3 && hex_val(b[1]) >= 0 && hex_val(b[2]) >= 0 {
        seq![(hex_val(b[1]) * 16 + hex_val(b[2])) as u8] + pct_decoded(b.skip(3))
    } else {
        seq![b[0]] + pct_decoded(b.skip(1))
    }
}

/// `percent_encoding::percent_decode_str(s).decode_utf8()`: percent-decodes
/// the bytes of `s` and reads the result as UTF-8, giving `None` when it is
/// not well-formed UTF-8.
#[verifier::external_body]
fn percent_decode_utf8(s: &str) -> (r: Option<String>)
    ensures
        r is Some <==> valid_utf8(pct_decoded(encode_utf8(s@))),
        r matches Some(t) ==> t@ == decode_utf8(pct_decoded(encode_utf8(s@))),
{
    match percent_encoding::percent_decode_str(s).decode_utf8() {
        Ok(c) => Some(c.into_owned()),
        Err(_) => None,
    }
}

/// Why a percent-encoded component could not be decoded.
#[derive(Debug, Clone, Copy, PartialEq, Eq, Structural)]
pub enum UrlDecodeError {
    /// The decoded bytes are not well-formed UTF-8.
    InvalidUtf8,
}

/// Percent-decodes a text component.
pub fn url_decode_component(s: &str) -> (r: Result<String, UrlDecodeError>)
    ensures
        r is Ok <==> valid_utf8(pct_decoded(encode_utf8(s@))),
        r matches Ok(t) ==> t@ == decode_utf8(pct_decoded(encode_utf8(s@))),
        r matches Err(e) ==> e == UrlDecodeError::InvalidUtf8,
{
    match percent_decode_utf8(s) {
        Some(t) => Ok(t),
        None => Err(UrlDecodeError::InvalidUtf8),
    }
}

// ---------------------------------------------------------------------------
// Decoding undoes encoding
// ---------------------------------------------------------------------------

proof fn lemma_ascii_scalar(u: u32)
    requires
        u < 128,
    ensures
        encode_scalar(u) == seq![u as u8],
{
    assert((u & 0x7F) == u) by (bit_vector)
        requires
            u < 128,
    ;
    assert(u as u8 == (u & 0x7F) as u8);
}

proof fn lemma_encode_utf8_concat(a: Seq<char>, b: Seq<char>)
    ensures
        encode_utf8(a + b) == encode_utf8(a) + encode_utf8(b),
    decreases a.len(),
{
    if a.len() == 0 {
        assert(a + b == b);
        assert(encode_utf8(a) + encode_utf8(b) == encode_utf8(b));
    } else {
        lemma_encode_utf8_concat(a.drop_first(), b);
        assert((a + b).drop_first() == a.drop_first() + b);
        assert((a + b)[0] == a[0]);
    }
}

proof fn lemma_url_enc_concat(a: Seq<char>, b: Seq<char>, keep_dot: bool)
    ensures
        url_enc(a + b, keep_dot) == url_enc(a, keep_dot) + url_enc(b, keep_dot),
    decreases b.len(),
{
    if b.len() == 0 {
        assert(a + b == a);
        assert(url_enc(a, keep_dot) + url_enc(b, keep_dot) == url_enc(a, keep_dot));
    } else {
        lemma_url_enc_concat(a, b.drop_last(), keep_dot);
        assert((a + b).drop_last() == a + b.drop_last());
        assert((a + b).last() == b.last());
    }
}

proof fn lemma_pct_bytes_front(b: Seq<u8>)
    requires
        b.len() > 0,
    ensures
        pct_bytes(b) == seq!['%', hex_upper((b[0] / 16) as int), hex_upper((b[0] % 16) as int)]
            + pct_bytes(b.drop_first()),
    decreases b.len(),
{
    if b.len() == 1 {
        assert(b.drop_last() == Seq::<u8>::empty());
        assert(b.drop_first() == Seq::<u8>::empty());
    } else {
        lemma_pct_bytes_front(b.drop_last());
        assert(b.drop_last()[0] == b[0]);
        assert(b.drop_last().drop_first() == b.drop_first().drop_last());
        assert(b.drop_first().last() == b.last());
    }
}

proof fn lemma_hex_digit(d: int)
    requires
        0 <= d < 16,
    ensures
        (hex_upper(d) as u32) < 128,
        hex_val(hex_upper(d) as u32 as u8) == d,
{
}

proof fn lemma_pct_decode_bytes(b: Seq<u8>, rest: Seq<u8>)
    ensures
        pct_decoded(encode_utf8(pct_bytes(b)) + rest) == b + pct_decoded(rest),
    decreases b.len(),
{
    if b.len() == 0 {
        assert(encode_utf8(pct_bytes(b)) + rest == rest);
        assert(b + pct_decoded(rest) == pct_decoded(rest));
    } else {
        let x = b[0];
        let h1 = hex_upper((x / 16) as int);
        let h2 = hex_upper((x % 16) as int);
        lemma_pct_bytes_front(b);
        lemma_hex_digit((x / 16) as int);
        lemma_hex_digit((x % 16) as int);
        let head = seq!['%', h1, h2];
        lemma_encode_utf8_concat(head, pct_bytes(b.drop_first()));
        lemma_ascii_scalar('%' as u32);
        lemma_ascii_scalar(h1 as u32);
        lemma_ascii_scalar(h2 as u32);
        assert(encode_utf8(head) == seq![37u8, h1 as u32 as u8, h2 as u32 as u8]) by {
            let h_1 = head.drop_first();
            let h_2 = h_1.drop_first();
            let h_3 = h_2.drop_first();
            assert(h_3 == Seq::<char>::empty());
            assert(h_1[0] == h1);
            assert(h_2[0] == h2);
            assert(encode_utf8(h_3) == Seq::<u8>::empty());
            assert(encode_utf8(h_2) == seq![h2 as u32 as u8] + encode_utf8(h_3));
            assert(encode_utf8(h_1) == seq![h1 as u32 as u8] + encode_utf8(h_2));
            assert(encode_utf8(head) == seq![37u8] + encode_utf8(h_1));
            assert(seq![h2 as u32 as u8] + Seq::<u8>::empty() == seq![h2 as u32 as u8]);
            assert(seq![h1 as u32 as u8] + seq![h2 as u32 as u8] == seq![h1 as u32 as u8, h2 as u32 as u8]);
            assert(seq![37u8] + seq![h1 as u32 as u8, h2 as u32 as u8] == seq![37u8, h1 as u32 as u8, h2 as u32 as u8]);
        }
        let tail = encode_utf8(pct_bytes(b.drop_first())) + rest;
        let whole = encode_utf8(pct_bytes(b)) + rest;
        assert(whole == seq![37u8, h1 as u32 as u8, h2 as u32 as u8] + tail);
        assert(whole[0] == 37u8 && whole[1] == h1 as u32 as u8 && whole[2] == h2 as u32 as u8);
        assert(whole.skip(3) == tail);
        lemma_pct_decode_bytes(b.drop_first(), rest);
        assert((hex_val(whole[1]) * 16 + hex_val(whole[2])) as u8 == x);
        assert(b == seq![x] + b.drop_first());
    }
}

proof fn lemma_url_round_trip_bytes(s: Seq<char>, keep_dot: bool)
    ensures
        pct_decoded(encode_utf8(url_enc(s, keep_dot))) == encode_utf8(s),
    decreases s.len(),
{
    if s.len() > 0 {
        let c = s[0];
        let t = s.drop_first();
        assert(s == seq![c] + t);
        lemma_url_enc_concat(seq![c], t, keep_dot);
        lemma_url_round_trip_bytes(t, keep_dot);
        assert(seq![c].drop_last() == Seq::<char>::empty());
        assert(seq![c].last() == c);
        assert(url_enc(Seq::<char>::empty(), keep_dot) == Seq::<char>::empty());
        let head = url_enc(seq![c], keep_dot);
        assert(head == Seq::<char>::empty() + if url_keep(c, keep_dot) {
            seq![c]
        } else {
            pct_bytes(encode_scalar(c as u32))
        });
        lemma_encode_utf8_concat(head, url_enc(t, keep_dot));
        let rest = encode_utf8(url_enc(t, keep_dot));
        if url_keep(c, keep_dot) {
            assert(Seq::<char>::empty() + seq![c] == seq![c]);
            assert(head == seq![c]);
            lemma_ascii_scalar(c as u32);
            assert(encode_utf8(seq![c]) == seq![c as u32 as u8]) by {
                assert(seq![c].drop_first() == Seq::<char>::empty());
                assert(encode_utf8(Seq::<char>::empty()) == Seq::<u8>::empty());
                assert(seq![c][0] == c);
                assert(encode_utf8(seq![c]) == encode_scalar(c as u32) + encode_utf8(
                    Seq::<char>::empty(),
                ));
                assert(seq![c as u32 as u8] + Seq::<u8>::empty() == seq![c as u32 as u8]);
            }
            let whole = seq![c as u32 as u8] + rest;
            assert(whole[0] != 37u8);
            assert(whole.skip(1) == rest);
            assert(encode_utf8(s) == encode_scalar(c as u32) + encode_utf8(t));
        } else {
            assert(Seq::<char>::empty() + pct_bytes(encode_scalar(c as u32)) == pct_bytes(
                encode_scalar(c as u32),
            ));
            assert(head == pct_bytes(encode_scalar(c as u32)));
            lemma_pct_decode_bytes(encode_scalar(c as u32), rest);
            assert(encode_utf8(s) == encode_scalar(c as u32) + encode_utf8(t));
        }
    }
}

/// Percent-decoding undoes percent-encoding: for every text, decoding its
/// encoding (with `.` kept or not) is well-formed UTF-8 and gives the text
/// back, so that [`url_decode_component`] of [`url_encode_component`] is the
/// text itself.
pub proof fn law_url_round_trip(s: Seq<char>, keep_dot: bool)
    ensures
        valid_utf8(pct_decoded(encode_utf8(url_enc(s, keep_dot)))),
        decode_utf8(pct_decoded(encode_utf8(url_enc(s, keep_dot)))) == s,
{
    lemma_url_round_trip_bytes(s, keep_dot);
    vstd::utf8::encode_utf8_valid_utf8(s);
    vstd::utf8::encode_utf8_decode_utf8(s);
}

// ---------------------------------------------------------------------------
// Base58
// ---------------------------------------------------------------------------

/// The big-endian value of the bytes.
pub open spec fn be_value(b: Seq<u8>) -> nat
    decreases b.len(),
{
    if b.len() == 0 {
        0
    } else {
        be_value(b.drop_last()) * 256 + b.last() as nat
    }
}

/// How many zero bytes the bytes start with.
pub open spec fn leading_zeros(b: Seq<u8>) -> nat
    decreases b.len(),
{
    if b.len() == 0 || b[0] != 0 {
        0
    } else {
        1 + leading_zeros(b.drop_first())
    }
}

/// The Base58 digits of `n` with the BV table, without leading zeros (empty
/// for 0).
pub open spec fn b58(n: nat) -> Seq<char>
    decreases n,
{
    if n == 0 {
        seq![]
    } else {
        b58(n / 58).push(bv_alphabet((n % 58) as int) as char)
    }
}

/// Base58 text of bytes with the BV table: one `F` per leading zero byte,
/// then the digits of the big-endian value of all the bytes.
pub open spec fn base58_of(b: Seq<u8>) -> Seq<char> {
    Seq::new(leading_zeros(b), |i: int| 'F') + b58(be_value(b))
}

/// Bytes that are all zero have the value 0, and only they.
proof fn lemma_be_value_zero(b: Seq<u8>)
    ensures
        be_value(b) == 0 <==> forall|i: int| 0 <= i < b.len() ==> b[i] == 0,
    decreases b.len(),
{
    if b.len() > 0 {
        let t = b.drop_last();
        lemma_be_value_zero(t);
        if be_value(b) == 0 {
            assert forall|i: int| 0 <= i < b.len() implies b[i] == 0 by {
                if i < b.len() - 1 {
                    assert(b[i] == t[i]);
                }
            }
        } else {
            if forall|i: int| 0 <= i < b.len() ==> b[i] == 0 {
                assert forall|i: int| 0 <= i < t.len() implies t[i] == 0 by {
                    assert(b[i] == t[i]);
                }
                assert(b[b.len() - 1] == 0);
            }
        }
    }
}

/// The quotient and remainder of the big-endian number `q` by 58, the
/// quotient with as many bytes as `q`.
fn div58(q: &Vec<u8>) -> (r: (Vec<u8>, u8))
    ensures
        be_value(r.0@) == be_value(q@) / 58,
        r.1 as nat == be_value(q@) % 58,
{
    let mut out: Vec<u8> = Vec::new();
    let mut rem: u32 = 0;
    let mut i: usize = 0;
    while i < q.len()
        invariant
            i <= q@.len(),
            rem < 58,
            be_value(out@) * 58 + rem == be_value(q@.take(i as int)),
        decreases q.len() - i,
    {
        let x: u32 = rem * 256 + q[i] as u32;
        let ghost before = out@;
        out.push((x / 58) as u8);
        proof {
            let t = q@.take(i + 1);
            assert(t.drop_last() == q@.take(i as int));
            assert(t.last() == q@[i as int]);
            assert(out@.drop_last() == before);
            assert(be_value(out@) == be_value(before) * 256 + x / 58);
            let bv = be_value(before);
            assert((bv * 256 + x / 58) * 58 + x % 58 == (bv * 58 + rem) * 256 + q@[i as int]) by (nonlinear_arith)
                requires
                    x == rem * 256 + q@[i as int],
            ;
        }
        rem = x % 58;
        i = i + 1;
    }
    proof {
        assert(q@.take(q@.len() as int) == q@);
        vstd::arithmetic::div_mod::lemma_fundamental_div_mod_converse(
            be_value(q@) as int,
            58,
            be_value(out@) as int,
            rem as int,
        );
    }
    (out, rem as u8)
}

fn all_zero(q: &Vec<u8>) -> (r: bool)
    ensures
        r == (be_value(q@) == 0),
{
    proof {
        lemma_be_value_zero(q@);
    }
    let mut i: usize = 0;
    while i < q.len()
        invariant
            i <= q@.len(),
            forall|j: int| 0 <= j < i ==> q@[j] == 0,
            be_value(q@) == 0 <==> forall|j: int| 0 <= j < q@.len() ==> q@[j] == 0,
        decreases q.len() - i,
    {
        if q[i] != 0 {
            return false;
        }
        i = i + 1;
    }
    true
}

/// Base58 encoding with the BV table.
pub fn base58_encode(bytes: &[u8]) -> (r: String)
    ensures
        r@ == base58_of(bytes@),
{
    let mut zeros: usize = 0;
    assert(bytes@.skip(0) == bytes@);
    while zeros < bytes.len() && bytes[zeros] == 0
        invariant
            zeros <= bytes@.len(),
            forall|j: int| 0 <= j < zeros ==> bytes@[j] == 0,
            leading_zeros(bytes@) == zeros + leading_zeros(bytes@.skip(zeros as int)),
        decreases bytes.len() - zeros,
    {
        assert(bytes@.skip(zeros as int).drop_first() == bytes@.skip(zeros + 1));
        zeros = zeros + 1;
    }
    assert(leading_zeros(bytes@.skip(zeros as int)) == 0);
    let mut cur: Vec<u8> = Vec::new();
    let mut i: usize = 0;
    while i < bytes.len()
        invariant
            i <= bytes@.len(),
            cur@ == bytes@.take(i as int),
        decreases bytes.len() - i,
    {
        cur.push(bytes[i]);
        assert(bytes@.take(i + 1) == bytes@.take(i as int).push(bytes@[i as int]));
        i = i + 1;
    }
    assert(bytes@.take(bytes@.len() as int) == bytes@);
    let ghost n = be_value(bytes@);
    let ghost mut tail: Seq<char> = seq![];
    let mut ds: Vec<char> = Vec::new();
    while !all_zero(&cur)
        invariant
            b58(n) == b58(be_value(cur@)) + tail,
            ds@.len() == tail.len(),
            forall|k: int| 0 <= k < tail.len() ==> #[trigger] tail[k] == ds@[ds@.len() - 1 - k],
        decreases be_value(cur@),
    {
        let (q, rem) = div58(&cur);
        let c = bv_alphabet_byte(rem as u64) as char;
        proof {
            let v = be_value(cur@);
            assert(b58(v) == b58(v / 58).push(c));
            assert(b58(v) + tail == b58(v / 58) + (seq![c] + tail));
            tail = seq![c] + tail;
        }
        ds.push(c);
        cur = q;
    }
    assert(b58(n) == tail);
    let mut out = String::new();
    let mut k: usize = 0;
    while k < zeros
        invariant
            k <= zeros,
            out@ == Seq::new(k as nat, |i: int| 'F'),
        decreases zeros - k,
    {
        push_char(&mut out, bv_alphabet_byte(0) as char);
        assert(out@ =~= Seq::new((k + 1) as nat, |i: int| 'F'));
        k = k + 1;
    }
    let ghost head = out@;
    let mut m: usize = 0;
    while m < ds.len()
        invariant
            m <= ds@.len(),
            ds@.len() == tail.len(),
            forall|k: int| 0 <= k < tail.len() ==> #[trigger] tail[k] == ds@[ds@.len() - 1 - k],
            out@ == head + tail.take(m as int),
        decreases ds.len() - m,
    {
        push_char(&mut out, ds[ds.len() - 1 - m]);
        assert(tail.take(m + 1) == tail.take(m as int).push(tail[m as int]));
        m = m + 1;
    }
    assert(tail.take(tail.len() as int) == tail);
    out
}

// ---------------------------------------------------------------------------
// Digests
// ---------------------------------------------------------------------------

/// The MD5 digest (RFC 1321) of a byte string.
pub uninterp spec fn md5_digest(data: Seq<u8>) -> Seq<u8>;

/// The SHA-1 digest (FIPS 180-4) of a byte string.
pub uninterp spec fn sha1_digest(data: Seq<u8>) -> Seq<u8>;

/// `md5::Md5::digest` from the `md-5` crate: the 16-byte MD5 digest of `data`.
#[verifier::external_body]
fn md5_bytes(data: &[u8]) -> (r: Vec<u8>)
    ensures
        r@ == md5_digest(data@),
        r@.len() == 16,
{
    <md5::Md5 as md5::Digest>::digest(data).to_vec()
}

/// `sha1::Sha1::digest` from the `sha1` crate: the 20-byte SHA-1 digest of
/// `data`.
#[verifier::external_body]
fn sha1_bytes(data: &[u8]) -> (r: Vec<u8>)
    ensures
        r@ == sha1_digest(data@),
        r@.len() == 20,
{
    <sha1::Sha1 as sha1::Digest>::digest(data).to_vec()
}

/// The MD5 digest of `bytes`, as 32 lowercase hexadecimal digits.
pub fn md5_hex(bytes: &[u8]) -> (s: String)
    ensures
        s@ == hex_enc(md5_digest(bytes@)),
{
    let d = md5_bytes(bytes);
    hex_encode(d.as_slice())
}

/// The SHA-1 digest of `bytes`, as 40 lowercase hexadecimal digits.
pub fn sha1_hex(bytes: &[u8]) -> (s: String)
    ensures
        s@ == hex_enc(sha1_digest(bytes@)),
{
    let d = sha1_bytes(bytes);
    hex_encode(d.as_slice())
}

} // verus!
