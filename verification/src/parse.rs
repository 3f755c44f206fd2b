use vstd::prelude::*;

use crate::color::Color;
use crate::color::GradientError;

verus! {

/// Whether `c` is an ASCII hex digit, in either case.
pub open spec fn is_hex_digit(c: char) -> bool {
    ('0' <= c && c <= '9') || ('a' <= c && c <= 'f') || ('A' <= c && c <= 'F')
}

/// The value of one hex digit.
pub open spec fn hex_digit_value(c: char) -> int
    recommends
        is_hex_digit(c),
{
    if '0' <= c && c <= '9' {
        c as u32 - '0' as u32
    } else if 'a' <= c && c <= 'f' {
        c as u32 - 'a' as u32 + 10
    } else {
        c as u32 - 'A' as u32 + 10
    }
}

/// The byte written as the two hex digits `hi` then `lo`.
pub open spec fn byte_of_hex(hi: char, lo: char) -> u8
    recommends
        is_hex_digit(hi),
        is_hex_digit(lo),
{
    (hex_digit_value(hi) * 16 + hex_digit_value(lo)) as u8
}

/// A color argument with its optional leading `#` removed.
pub open spec fn strip_hash(s: Seq<char>) -> Seq<char> {
    if s.len() > 0 && s[0] == '#' {
        s.subrange(1, s.len() as int)
    } else {
        s
    }
}

/// Exactly six hex digits: the only shape that decodes to a color.
pub open spec fn valid_hex6(s: Seq<char>) -> bool {
    s.len() == 6 && (forall|i: int| 0 <= i < 6 ==> is_hex_digit(#[trigger] s[i]))
}

/// The color written as six hex digits `RRGGBB`.
pub open spec fn color_of_hex6(s: Seq<char>) -> Color
    recommends
        valid_hex6(s),
{
    Color {
        r: byte_of_hex(s[0], s[1]),
        g: byte_of_hex(s[2], s[3]),
        b: byte_of_hex(s[4], s[5]),
    }
}

/// What decoding one color argument yields: strip an optional leading
/// `#`, then require exactly six hex digits.
pub open spec fn spec_decode_color(s: Seq<char>) -> Option<Color> {
    if valid_hex6(strip_hash(s)) {
        Some(color_of_hex6(strip_hash(s)))
    } else {
        None
    }
}

/// Decodes one hex digit; `None` exactly on non-digits.
fn hex_digit(c: char) -> (r: Option<u8>)
    ensures
        r is Some <==> is_hex_digit(c),
        r is Some ==> r->0 == hex_digit_value(c) && r->0 < 16,
{
    if '0' <= c && c <= '9' {
        Some((c as u32 - '0' as u32) as u8)
    } else if 'a' <= c && c <= 'f' {
        Some((c as u32 - 'a' as u32 + 10) as u8)
    } else if 'A' <= c && c <= 'F' {
        Some((c as u32 - 'A' as u32 + 10) as u8)
    } else {
        None
    }
}

/// Decodes the byte written as the two hex digits `hi` then `lo`.
fn hex_pair(hi: char, lo: char) -> (r: Option<u8>)
    ensures
        r is Some <==> is_hex_digit(hi) && is_hex_digit(lo),
        r is Some ==> r->0 == byte_of_hex(hi, lo),
{
    match (hex_digit(hi), hex_digit(lo)) {
        (Some(h), Some(l)) => Some(h * 16 + l),
        _ => None,
    }
}

/// Decodes one color argument: an optional leading `#`, then exactly six
/// hex digits. Returns `None` exactly when the argument has any other
/// length or holds a non-hex character.
pub fn decode_color(s: &str) -> (r: Option<Color>)
    ensures
        r == spec_decode_color(s@),
{
    let n = s.unicode_len();
    let skip: usize = if n > 0 && s.get_char(0) == '#' {
        1
    } else {
        0
    };
    proof {
        assert(strip_hash(s@) =~= s@.subrange(skip as int, n as int));
    }
    if n - skip != 6 {
        return None;
    }
    let p0 = hex_pair(s.get_char(skip), s.get_char(skip + 1));
    let p1 = hex_pair(s.get_char(skip + 2), s.get_char(skip + 3));
    let p2 = hex_pair(s.get_char(skip + 4), s.get_char(skip + 5));
    match (p0, p1, p2) {
        (Some(r), Some(g), Some(b)) => {
            proof {
                assert forall|i: int| 0 <= i < 6 implies is_hex_digit(
                    #[trigger] strip_hash(s@)[i],
                ) by {
                    assert(strip_hash(s@)[i] == s@[skip + i]);
                }
            }
            Some(Color { r, g, b })
        },
        _ => {
            proof {
                if valid_hex6(strip_hash(s@)) {
                    assert(is_hex_digit(strip_hash(s@)[0]) && is_hex_digit(strip_hash(s@)[1]));
                    assert(is_hex_digit(strip_hash(s@)[2]) && is_hex_digit(strip_hash(s@)[3]));
                    assert(is_hex_digit(strip_hash(s@)[4]) && is_hex_digit(strip_hash(s@)[5]));
                }
            }
            None
        },
    }
}

/// Decodes every color argument in order, then checks that at least two
/// were supplied. The first undecodable argument is reported by position;
/// the count is checked only once every argument decodes.
pub fn decode(colors: &Vec<String>) -> (r: Result<Vec<Color>, GradientError>)
    ensures
        match r {
            Ok(anchors) => {
                &&& anchors@.len() == colors@.len()
                &&& anchors@.len() >= 2
                &&& forall|i: int|
                    0 <= i < colors@.len() ==> (#[trigger] spec_decode_color(colors@[i]@))
                        == Some(anchors@[i])
            },
            Err(GradientError::InvalidColorArgument { index }) => {
                &&& index < colors@.len()
                &&& spec_decode_color(colors@[index as int]@) is None
                &&& forall|i: int|
                    0 <= i < index ==> (#[trigger] spec_decode_color(colors@[i]@)) is Some
            },
            Err(GradientError::InsufficientColors) => {
                &&& colors@.len() < 2
                &&& forall|i: int|
                    0 <= i < colors@.len() ==> (#[trigger] spec_decode_color(colors@[i]@)) is Some
            },
        },
{
    let mut anchors: Vec<Color> = Vec::new();
    let mut i: usize = 0;
    while i < colors.len()
        invariant
            i <= colors@.len(),
            anchors@.len() == i,
            forall|k: int|
                0 <= k < i ==> (#[trigger] spec_decode_color(colors@[k]@)) == Some(anchors@[k]),
        decreases colors@.len() - i,
    {
        match decode_color(colors[i].as_str()) {
            Some(c) => anchors.push(c),
            None => {
                return Err(GradientError::InvalidColorArgument { index: i });
            },
        }
        i += 1;
    }
    if anchors.len() < 2 {
        return Err(GradientError::InsufficientColors);
    }
    Ok(anchors)
}

/// Law: a valid six-hex-digit string decodes to the same color with and
/// without a leading `#`; stripping is the only effect of the prefix.
pub proof fn lemma_decode_hash_irrelevant(s: Seq<char>)
    requires
        valid_hex6(s),
    ensures
        spec_decode_color(seq!['#'] + s) == spec_decode_color(s),
{
    let t = seq!['#'] + s;
    assert(t[0] == '#');
    assert(strip_hash(t) =~= s);
    assert(is_hex_digit(s[0]));
    assert(s[0] != '#');
    assert(strip_hash(s) == s);
}

} // verus!
