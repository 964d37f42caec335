//! Danmaku (bullet comments): their display modes, colours in the ASS
//! subtitle format, how many rows fit on screen, and which ones are shown.

use vstd::prelude::*;
use crate::codec::hex_upper;
use crate::text::{chars_of, parse_u64_range, parse_uint, push_char, split_on, split_ranges, string_of_range};

verus! {

/// How a comment moves on screen.
#[derive(Debug, Clone, Copy, PartialEq, Eq, Hash, Structural)]
pub enum DanmakuMode {
    /// Scrolls from right to left (mode 1).
    Scroll,
    /// Fixed at the bottom (mode 4).
    Bottom,
    /// Fixed at the top (mode 5).
    Top,
    /// Scrolls from left to right (mode 6).
    Reverse,
    /// Positioned precisely (mode 7).
    Precise,
    /// Special (mode 8).
    Special,
}

/// The number of a mode.
pub open spec fn mode_number(m: DanmakuMode) -> u8 {
    match m {
        DanmakuMode::Scroll => 1,
        DanmakuMode::Bottom => 4,
        DanmakuMode::Top => 5,
        DanmakuMode::Reverse => 6,
        DanmakuMode::Precise => 7,
        DanmakuMode::Special => 8,
    }
}

/// The mode of a number: 4 to 8 name their modes, anything else scrolls.
pub open spec fn mode_of_number(v: u8) -> DanmakuMode {
    if v == 4 {
        DanmakuMode::Bottom
    } else if v == 5 {
        DanmakuMode::Top
    } else if v == 6 {
        DanmakuMode::Reverse
    } else if v == 7 {
        DanmakuMode::Precise
    } else if v == 8 {
        DanmakuMode::Special
    } else {
        DanmakuMode::Scroll
    }
}

impl DanmakuMode {
    /// The mode of a number; unknown numbers scroll.
    pub fn from_u8(v: u8) -> (m: DanmakuMode)
        ensures
            m == mode_of_number(v),
    {
        if v == 4 {
            DanmakuMode::Bottom
        } else if v == 5 {
            DanmakuMode::Top
        } else if v == 6 {
            DanmakuMode::Reverse
        } else if v == 7 {
            DanmakuMode::Precise
        } else if v == 8 {
            DanmakuMode::Special
        } else {
            DanmakuMode::Scroll
        }
    }

    /// The number of the mode.
    pub fn as_u8(self) -> (v: u8)
        ensures
            v == mode_number(self),
    {
        match self {
            DanmakuMode::Scroll => 1,
            DanmakuMode::Bottom => 4,
            DanmakuMode::Top => 5,
            DanmakuMode::Reverse => 6,
            DanmakuMode::Precise => 7,
            DanmakuMode::Special => 8,
        }
    }
}

/// Reading a mode's number gives the mode back.
pub proof fn law_mode_number_round_trip(m: DanmakuMode)
    ensures
        mode_of_number(mode_number(m)) == m,
{
}

/// An ASS colour: the blue, green and red bytes of `0xRRGGBB`, in that
/// order, as uppercase hexadecimal.
pub open spec fn ass_color(rgb: u32) -> Seq<char> {
    let r = (rgb / 65536) % 256;
    let g = (rgb / 256) % 256;
    let b = rgb % 256;
    seq![
        hex_upper((b / 16) as int),
        hex_upper((b % 16) as int),
        hex_upper((g / 16) as int),
        hex_upper((g % 16) as int),
        hex_upper((r / 16) as int),
        hex_upper((r % 16) as int),
    ]
}

fn hex_up(d: u32) -> (c: char)
    requires
        d < 16,
    ensures
        c == hex_upper(d as int),
{
    if d < 10 {
        ((d as u8) + 48) as char
    } else {
        ((d as u8) + 55) as char
    }
}

/// The ASS colour (`BBGGRR`) of a `0xRRGGBB` colour.
pub fn rgb_to_ass_color(rgb: u32) -> (s: String)
    ensures
        s@ == ass_color(rgb),
{
    let r = (rgb >> 16) & 0xFF;
    let g = (rgb >> 8) & 0xFF;
    let b = rgb & 0xFF;
    assert(r == (rgb / 65536) % 256 && g == (rgb / 256) % 256 && b == rgb % 256) by (bit_vector)
        requires
            r == (rgb >> 16) & 0xFF,
            g == (rgb >> 8) & 0xFF,
            b == rgb & 0xFF,
    ;
    let mut s = String::new();
    push_char(&mut s, hex_up(b / 16));
    push_char(&mut s, hex_up(b % 16));
    push_char(&mut s, hex_up(g / 16));
    push_char(&mut s, hex_up(g % 16));
    push_char(&mut s, hex_up(r / 16));
    push_char(&mut s, hex_up(r % 16));
    assert(s@ =~= ass_color(rgb));
    s
}

/// The number of comment rows: the given number, else the screen height
/// over the row height (font size plus spacing), at least 1; 12 when the row
/// height is 0.
pub open spec fn max_rows(max: Option<u32>, font_size: u8, line_spacing: u32, video_height: u32) -> u32 {
    match max {
        Some(m) => m,
        None => {
            let h = font_size + line_spacing;
            if h == 0 {
                12
            } else if (video_height as int) / h >= 1 {
                ((video_height as int) / h) as u32
            } else {
                1
            }
        },
    }
}

/// The number of comment rows (see [`max_rows`]); the row height must fit
/// in 32 bits.
pub fn effective_max_rows(max: Option<u32>, font_size: u8, line_spacing: u32, video_height: u32) -> (r:
    u32)
    requires
        max is None ==> font_size + line_spacing <= u32::MAX,
    ensures
        r == max_rows(max, font_size, line_spacing, video_height),
{
    match max {
        Some(m) => m,
        None => {
            let h = font_size as u32 + line_spacing;
            if h == 0 {
                12
            } else if video_height / h >= 1 {
                video_height / h
            } else {
                1
            }
        },
    }
}

/// Whether a comment of mode number `mode` is shown: scrolling, top and
/// bottom comments each by their switch, the other modes always; and never
/// a blocked mode.
pub open spec fn shown(
    mode: u8,
    show_scroll: bool,
    show_top: bool,
    show_bottom: bool,
    blocked: Seq<DanmakuMode>,
) -> bool {
    let m = mode_of_number(mode);
    let by_switch = match m {
        DanmakuMode::Scroll => show_scroll,
        DanmakuMode::Top => show_top,
        DanmakuMode::Bottom => show_bottom,
        _ => true,
    };
    by_switch && !blocked.contains(m)
}

/// Whether a comment of mode number `mode` is shown (see [`shown`]).
pub fn mode_shown(
    mode: u8,
    show_scroll: bool,
    show_top: bool,
    show_bottom: bool,
    blocked: &[DanmakuMode],
) -> (r: bool)
    ensures
        r == shown(mode, show_scroll, show_top, show_bottom, blocked@),
{
    let m = DanmakuMode::from_u8(mode);
    let by_switch = match m {
        DanmakuMode::Scroll => show_scroll,
        DanmakuMode::Top => show_top,
        DanmakuMode::Bottom => show_bottom,
        _ => true,
    };
    if !by_switch {
        return false;
    }
    let mut i: usize = 0;
    while i < blocked.len()
        invariant
            i <= blocked@.len(),
            m == mode_of_number(mode),
            by_switch,
            by_switch == (match m {
                DanmakuMode::Scroll => show_scroll,
                DanmakuMode::Top => show_top,
                DanmakuMode::Bottom => show_bottom,
                _ => true,
            }),
            forall|j: int| 0 <= j < i ==> blocked@[j] != m,
        decreases blocked.len() - i,
    {
        if blocked[i] == m {
            assert(blocked@.contains(m)) by {
                assert(blocked@[i as int] == m);
            }
            return false;
        }
        i = i + 1;
    }
    true
}

// ---------------------------------------------------------------------------
// The `p` attribute of XML comments
// ---------------------------------------------------------------------------

/// The integer fields of a comment's `p` attribute
/// (`time,mode,fontsize,color,date,pool,user,id`), with its time as text.
#[derive(Debug, Clone, PartialEq, Eq)]
pub struct DFields {
    /// The first field, the time in seconds, as written.
    pub time_text: String,
    /// Display mode.
    pub mode: u8,
    /// Font size.
    pub font_size: u8,
    /// Decimal RGB colour.
    pub color: u32,
    /// Sender id.
    pub sender_id: u64,
    /// Comment id.
    pub id: u64,
}

/// The fields of a `p` attribute: `None` when it has fewer than 8 parts or
/// when a part from the second to the eighth is not a number of its type
/// (`u8`, `u8`, `u32`, `u64`, `u8`, `u64`, `u64`).
pub open spec fn d_fields(p: Seq<char>) -> Option<(Seq<char>, u8, u8, u32, u64, u64)> {
    let parts = split_on(p, ',');
    if parts.len() < 8 {
        None
    } else {
        match (
            parse_uint(parts[1], u8::MAX as int),
            parse_uint(parts[2], u8::MAX as int),
            parse_uint(parts[3], u32::MAX as int),
            parse_uint(parts[4], u64::MAX as int),
            parse_uint(parts[5], u8::MAX as int),
            parse_uint(parts[6], u64::MAX as int),
            parse_uint(parts[7], u64::MAX as int),
        ) {
            (Some(m), Some(f), Some(c), Some(_), Some(_), Some(u), Some(i)) => Some(
                (parts[0], m as u8, f as u8, c as u32, u as u64, i as u64),
            ),
            _ => None,
        }
    }
}

fn field_at(v: &Vec<char>, r: (usize, usize), max: u64) -> (n: Option<u64>)
    requires
        r.0 <= r.1 <= v@.len(),
    ensures
        n matches Some(x) ==> parse_uint(v@.subrange(r.0 as int, r.1 as int), max as int) == Some(
            x as nat,
        ),
        n is None ==> parse_uint(v@.subrange(r.0 as int, r.1 as int), max as int) is None,
{
    match parse_u64_range(v, r.0, r.1) {
        Some(x) => if x <= max {
            Some(x)
        } else {
            None
        },
        None => None,
    }
}

/// Reads the integer fields of a comment's `p` attribute (see
/// [`d_fields`]); the time is left as text for the caller to read.
pub fn parse_d_fields(p: &str) -> (r: Option<DFields>)
    ensures
        match d_fields(p@) {
            None => r is None,
            Some((t, m, f, c, u, i)) => r matches Some(d) && d.time_text@ == t && d.mode == m
                && d.font_size == f && d.color == c && d.sender_id == u && d.id == i,
        },
{
    let v = chars_of(p);
    let rs = split_ranges(&v, ',');
    if rs.len() < 8 {
        return None;
    }
    let mode = field_at(&v, rs[1], 255);
    let font_size = field_at(&v, rs[2], 255);
    let color = field_at(&v, rs[3], 0xffff_ffff);
    let date = field_at(&v, rs[4], u64::MAX);
    let pool = field_at(&v, rs[5], 255);
    let sender = field_at(&v, rs[6], u64::MAX);
    let id = field_at(&v, rs[7], u64::MAX);
    match (mode, font_size, color, date, pool, sender, id) {
        (Some(m), Some(f), Some(c), Some(_), Some(_), Some(u), Some(i)) => Some(
            DFields {
                time_text: string_of_range(&v, rs[0].0, rs[0].1),
                mode: m as u8,
                font_size: f as u8,
                color: c as u32,
                sender_id: u,
                id: i,
            },
        ),
        _ => None,
    }
}

// ---------------------------------------------------------------------------
// The binary (protobuf) format
// ---------------------------------------------------------------------------

/// A reply of the binary danmaku API.
#[derive(Debug, Clone, Default)]
pub struct DmSegMobileReply {
    /// The comments.
    pub elems: Vec<DanmakuElem>,
}

/// A comment of the binary format.
#[derive(Debug, Clone, Default)]
pub struct DanmakuElem {
    /// Comment id.
    pub id: i64,
    /// Time, in milliseconds.
    pub progress: i32,
    /// Display mode.
    pub mode: i32,
    /// Font size.
    pub fontsize: i32,
    /// Decimal RGB colour.
    pub color: u64,
    /// Hash of the sender's id.
    pub mid_hash: String,
    /// Text.
    pub content: String,
    /// Sending time.
    pub ctime: i64,
    /// Weight.
    pub weight: i32,
    /// Action of advanced comments.
    pub action: String,
    /// Pool.
    pub pool: i32,
    /// Id of advanced comments.
    pub id_str: u32,
}

/// The integer fields of a comment of the binary format.
#[derive(Debug, Clone, PartialEq, Eq)]
pub struct ElemFields {
    /// Comment id.
    pub id: u64,
    /// Time, in milliseconds.
    pub progress_ms: i32,
    /// Display mode.
    pub mode: u8,
    /// Font size.
    pub font_size: u8,
    /// Decimal RGB colour.
    pub color: u32,
    /// Sender id.
    pub sender_id: u64,
    /// Text.
    pub content: String,
}

/// `v` brought into `0..=255`.
pub open spec fn clamp_u8(v: i32) -> u8 {
    if v < 0 {
        0
    } else if v > 255 {
        255
    } else {
        v as u8
    }
}

fn clamp_to_u8(v: i32) -> (r: u8)
    ensures
        r == clamp_u8(v),
{
    if v < 0 {
        0
    } else if v > 255 {
        255
    } else {
        v as u8
    }
}

/// The fields of a comment of the binary format: its id as unsigned (two's
/// complement), its mode and font size brought into `0..=255`, its colour
/// truncated to 32 bits, and its sender the hash read as a `u64`, 0 where it
/// is not one.
pub fn elem_fields(e: &DanmakuElem) -> (r: ElemFields)
    ensures
        r.id == e.id as u64,
        r.progress_ms == e.progress,
        r.mode == clamp_u8(e.mode),
        r.font_size == clamp_u8(e.fontsize),
        r.color == e.color as u32,
        r.sender_id == match parse_uint(e.mid_hash@, u64::MAX as int) {
            Some(n) => n as u64,
            None => 0,
        },
        r.content@ == e.content@,
{
    let h = chars_of(e.mid_hash.as_str());
    assert(h@.subrange(0, h@.len() as int) == h@);
    let sender_id = match parse_u64_range(&h, 0, h.len()) {
        Some(n) => n,
        None => 0,
    };
    ElemFields {
        id: e.id as u64,
        progress_ms: e.progress,
        mode: clamp_to_u8(e.mode),
        font_size: clamp_to_u8(e.fontsize),
        color: e.color as u32,
        sender_id,
        content: e.content.clone(),
    }
}


/// The value of an uppercase hexadecimal digit (`0-9`, `A-F`), -1 for any
/// other character.
pub open spec fn upper_hex_value(c: char) -> int {
    if '0' <= c && c <= '9' {
        (c as int) - ('0' as int)
    } else if 'A' <= c && c <= 'F' {
        (c as int) - ('A' as int) + 10
    } else {
        -1
    }
}

/// The number that a text of uppercase hexadecimal digits spells, most
/// significant digit first.
pub open spec fn upper_hex_number(s: Seq<char>) -> int
    decreases s.len(),
{
    if s.len() == 0 {
        0
    } else {
        upper_hex_number(s.drop_last()) * 16 + upper_hex_value(s.last())
    }
}

/// An ASS colour is six uppercase hexadecimal digits spelling the colour
/// with its bytes reversed: for `rgb = 0xRRGGBB` it spells `0xBBGGRR`
/// (`((rgb & 0xFF) << 16) | (rgb & 0xFF00) | ((rgb >> 16) & 0xFF)`); the
/// byte above the colour is ignored.
pub proof fn law_ass_color_reverses_bytes(rgb: u32)
    ensures
        ass_color(rgb).len() == 6,
        forall|i: int| 0 <= i < 6 ==> 0 <= #[trigger] upper_hex_value(ass_color(rgb)[i]) < 16,
        upper_hex_number(ass_color(rgb)) == (rgb % 256) * 65536 + ((rgb / 256) % 256) * 256 + (rgb
            / 65536) % 256,
        upper_hex_number(ass_color(rgb)) == (((rgb & 0xFF) << 16u32) | (rgb & 0xFF00) | ((rgb >> 16u32)
            & 0xFF)) as int,
{
    let s = ass_color(rgb);
    assert forall|d: int| 0 <= d < 16 implies #[trigger] upper_hex_value(hex_upper(d)) == d by {
        if d < 10 {
            assert(hex_upper(d) == (('0' as int) + d) as char);
        } else {
            assert(hex_upper(d) == (('A' as int) + d - 10) as char);
        }
    }
    let r = (rgb / 65536) % 256;
    let g = (rgb / 256) % 256;
    let b = rgb % 256;
    assert(upper_hex_value(s[0]) == b / 16);
    assert(upper_hex_value(s[1]) == b % 16);
    assert(upper_hex_value(s[2]) == g / 16);
    assert(upper_hex_value(s[3]) == g % 16);
    assert(upper_hex_value(s[4]) == r / 16);
    assert(upper_hex_value(s[5]) == r % 16);
    assert(s.drop_last().drop_last().drop_last().drop_last().drop_last().drop_last().len() == 0);
    reveal_with_fuel(upper_hex_number, 7);
    assert(upper_hex_number(s) == ((((b / 16) * 16 + b % 16) * 16 + g / 16) * 16 + g % 16) * 256
        + (r / 16) * 16 + r % 16) by (nonlinear_arith)
        requires
            upper_hex_number(s) == (((((b / 16) * 16 + b % 16) * 16 + g / 16) * 16 + g % 16) * 16 + r
                / 16) * 16 + r % 16,
    ;
    assert(((rgb & 0xFF) << 16u32) | (rgb & 0xFF00) | ((rgb >> 16u32) & 0xFF) == (rgb % 256) * 65536
        + ((rgb / 256) % 256) * 256 + (rgb / 65536) % 256) by (bit_vector);
}

} // verus!
