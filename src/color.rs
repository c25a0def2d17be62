use vstd::prelude::*;
use vstd::string::StrSliceExecFns;

verus! {

/// An RGBA color, one byte per channel.
#[derive(Clone, Copy, Debug, PartialEq, Eq, Structural)]
pub struct Color {
    pub red: u8,
    pub green: u8,
    pub blue: u8,
    pub alpha: u8,
}

/// Fully transparent, the fill color used when none is given.
pub open spec fn clear_color() -> Color {
    Color { red: 0, green: 0, blue: 0, alpha: 0 }
}

pub fn clear() -> (r: Color)
    ensures
        r == clear_color(),
{
    Color { red: 0, green: 0, blue: 0, alpha: 0 }
}

/// The value of one hexadecimal digit, either case.
pub open spec fn hex_digit(c: char) -> Option<nat> {
    if '0' <= c && c <= '9' {
        Some((c as nat - '0' as nat) as nat)
    } else if 'a' <= c && c <= 'f' {
        Some((c as nat - 'a' as nat + 10) as nat)
    } else if 'A' <= c && c <= 'F' {
        Some((c as nat - 'A' as nat + 10) as nat)
    } else {
        None
    }
}

/// The input without one leading `#`.
pub open spec fn strip_hash(s: Seq<char>) -> Seq<char> {
    if s.len() > 0 && s[0] == '#' {
        s.drop_first()
    } else {
        s
    }
}

/// Three-digit shorthand doubles each digit: `abc` reads as `aabbcc`.
pub open spec fn expand_shorthand(s: Seq<char>) -> Seq<char> {
    if s.len() == 3 {
        seq![s[0], s[0], s[1], s[1], s[2], s[2]]
    } else {
        s
    }
}

pub open spec fn all_hex_digits(s: Seq<char>) -> bool {
    forall|i: int| 0 <= i < s.len() ==> #[trigger] hex_digit(s[i]) is Some
}

/// The byte written by the two digits at `i` and `i + 1`.
pub open spec fn hex_byte(s: Seq<char>, i: int) -> u8 {
    (16 * hex_digit(s[i])->0 + hex_digit(s[i + 1])->0) as u8
}

/// The opaque color that a hex string denotes: an optional `#`, then six
/// digits or the three-digit shorthand.
pub open spec fn color_of_hex(s: Seq<char>) -> Option<Color> {
    let d = expand_shorthand(strip_hash(s));
    if d.len() == 6 && all_hex_digits(d) {
        Some(Color { red: hex_byte(d, 0), green: hex_byte(d, 2), blue: hex_byte(d, 4), alpha: 255 })
    } else {
        None
    }
}

/// Text of any length but three or six once a leading `#` is dropped names no color.
pub proof fn lemma_hex_length(s: Seq<char>)
    requires
        strip_hash(s).len() != 3,
        strip_hash(s).len() != 6,
    ensures
        color_of_hex(s) is None,
{
}

fn digit_value(c: char) -> (r: Option<u8>)
    ensures
        r is Some <==> hex_digit(c) is Some,
        r is Some ==> r->0 as nat == hex_digit(c)->0 && r->0 < 16,
{
    if '0' <= c && c <= '9' {
        Some((c as u32 - '0' as u32) as u8)
    } else if 'a' <= c && c <= 'f' {
        Some((c as u32 - 'a' as u32 + 10) as u8)
    } else if 'A' <= c && c <= 'F' {
        Some((c as u32 - 'A' as u32 + 10) as u8)
    } else {
        None
    }
}

fn byte_of(hi: char, lo: char) -> (r: Option<u8>)
    ensures
        r is Some <==> (hex_digit(hi) is Some && hex_digit(lo) is Some),
        r is Some ==> r->0 as nat == 16 * hex_digit(hi)->0 + hex_digit(lo)->0,
{
    match (digit_value(hi), digit_value(lo)) {
        (Some(h), Some(l)) => Some(h * 16 + l),
        _ => None,
    }
}

/// Parses `#rrggbb`, `rrggbb`, `#rgb` or `rgb` (either case) into an opaque color.
pub fn nscolor_from_hex(hex: &str) -> (r: Option<Color>)
    ensures
        r == color_of_hex(hex@),
{
    let len = hex.unicode_len();
    let start: usize = if len > 0 && hex.get_char(0) == '#' { 1 } else { 0 };
    let ghost d = expand_shorthand(strip_hash(hex@));
    let n: usize = len - start;
    let (i0, i1, i2, i3, i4, i5): (usize, usize, usize, usize, usize, usize) = if n == 3 {
        (start, start, start + 1, start + 1, start + 2, start + 2)
    } else if n == 6 {
        (start, start + 1, start + 2, start + 3, start + 4, start + 5)
    } else {
        return None;
    };
    assert(d.len() == 6);
    assert(d[0] == hex@[i0 as int] && d[1] == hex@[i1 as int] && d[2] == hex@[i2 as int]);
    assert(d[3] == hex@[i3 as int] && d[4] == hex@[i4 as int] && d[5] == hex@[i5 as int]);
    let red = byte_of(hex.get_char(i0), hex.get_char(i1));
    let green = byte_of(hex.get_char(i2), hex.get_char(i3));
    let blue = byte_of(hex.get_char(i4), hex.get_char(i5));
    match (red, green, blue) {
        (Some(red), Some(green), Some(blue)) => {
            assert(all_hex_digits(d)) by {
                assert forall|i: int| 0 <= i < 6 implies #[trigger] hex_digit(d[i]) is Some by {
                    if i == 0 {} else if i == 1 {} else if i == 2 {} else if i == 3 {} else if i == 4 {} else {}
                }
            }
            Some(Color { red, green, blue, alpha: 255 })
        },
        _ => {
            assert(!all_hex_digits(d)) by {
                if hex_digit(d[0]) is None || hex_digit(d[1]) is None {
                    assert(hex_digit(d[0]) is None || hex_digit(d[1]) is None);
                } else if hex_digit(d[2]) is None || hex_digit(d[3]) is None {
                } else {
                    assert(hex_digit(d[4]) is None || hex_digit(d[5]) is None);
                }
            }
            None
        },
    }
}

/// An opaque color from its three channels; every triple is a color.
pub fn nscolor_from_rgb(r: u8, g: u8, b: u8) -> (c: Option<Color>)
    ensures
        c == Some(Color { red: r, green: g, blue: b, alpha: 255 }),
{
    Some(Color { red: r, green: g, blue: b, alpha: 255 })
}

} // verus!
