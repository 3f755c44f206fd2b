use vstd::prelude::*;

use unicode_segmentation::UnicodeSegmentation;

use crate::color::Color;
use crate::gradient::gradient_color;
use crate::gradient::interpolate;

verus! {

/// The grapheme clusters of a string, in order, exactly as the
/// `unicode_segmentation` crate splits extended grapheme clusters.
pub uninterp spec fn graphemes_of(s: Seq<char>) -> Seq<Seq<char>>;

/// Relies on `unicode_segmentation`'s `UnicodeSegmentation::graphemes`
/// with extended clusters: the clusters depend on the characters alone and
/// are consecutive substrings that cover the whole string in order.
#[verifier::external_body]
fn split_graphemes(s: &str) -> (r: Vec<String>)
    ensures
        r@.map_values(|g: String| g@) == graphemes_of(s@),
        r@.map_values(|g: String| g@).flatten() == s@,
{
    s.graphemes(true).map(|g| g.to_string()).collect()
}

/// The decimal digit `d` as a character.
pub open spec fn digit_char(d: int) -> char
    recommends
        0 <= d <= 9,
{
    if d == 0 {
        '0'
    } else if d == 1 {
        '1'
    } else if d == 2 {
        '2'
    } else if d == 3 {
        '3'
    } else if d == 4 {
        '4'
    } else if d == 5 {
        '5'
    } else if d == 6 {
        '6'
    } else if d == 7 {
        '7'
    } else if d == 8 {
        '8'
    } else {
        '9'
    }
}

/// The decimal digits of `n`, most significant first, with no sign and no
/// leading zeros — what formatting an unsigned integer prints.
pub open spec fn dec_digits(n: int) -> Seq<char>
    recommends
        0 <= n,
    decreases n,
{
    if n < 10 {
        seq![digit_char(n)]
    } else {
        dec_digits(n / 10) + seq![digit_char(n % 10)]
    }
}

/// The escape sequence written before text painted with a 24-bit
/// foreground color: `ESC [ 3 8 ; 2 ; R ; G ; B m`.
pub open spec fn color_prefix(c: Color) -> Seq<char> {
    seq!['\u{1b}', '[', '3', '8', ';', '2', ';'] + dec_digits(c.r as int) + seq![';']
        + dec_digits(c.g as int) + seq![';'] + dec_digits(c.b as int) + seq!['m']
}

/// The escape sequence that resets styling: `ESC [ 0 m`.
pub open spec fn color_reset() -> Seq<char> {
    seq!['\u{1b}', '[', '0', 'm']
}

/// One painted fragment: the text wrapped in its color's escape codes.
pub open spec fn painted(c: Color, text: Seq<char>) -> Seq<char> {
    color_prefix(c) + text + color_reset()
}

/// Relies on `ansi_term`: displaying `Colour::RGB(r, g, b).paint(text)`
/// writes `ESC[38;2;` then the three channels in plain decimal separated
/// by `;`, then `m`, the text unchanged, and the reset sequence `ESC[0m`.
#[verifier::external_body]
fn paint_rgb(c: &Color, text: &str) -> (r: String)
    ensures
        r@ == painted(*c, text@),
{
    ansi_term::Colour::RGB(c.r, c.g, c.b).paint(text).to_string()
}

/// The first `n` grapheme clusters of `gs`, each wrapped in the escape
/// codes of its own gradient color, concatenated in order.
pub open spec fn colored_prefix(anchors: Seq<Color>, gs: Seq<Seq<char>>, n: int) -> Seq<char>
    recommends
        anchors.len() >= 2,
        0 <= n <= gs.len(),
    decreases n,
{
    if n <= 0 {
        Seq::empty()
    } else {
        colored_prefix(anchors, gs, n - 1) + painted(
            gradient_color(anchors, gs.len() as int, n - 1),
            gs[n - 1],
        )
    }
}

/// The whole painted line: every grapheme cluster of `text`, in order,
/// paired with the gradient color of its position.
pub open spec fn colored_line(anchors: Seq<Color>, text: Seq<char>) -> Seq<char>
    recommends
        anchors.len() >= 2,
{
    colored_prefix(anchors, graphemes_of(text), graphemes_of(text).len() as int)
}

/// Paints `text` with the gradient over `anchors`: the text is split into
/// grapheme clusters, one color is interpolated per cluster — never per
/// code point or byte — and each cluster is wrapped in its color's escape
/// sequence.
pub fn colorize_line(anchors: &Vec<Color>, text: &str) -> (out: String)
    requires
        anchors@.len() >= 2,
    ensures
        out@ == colored_line(anchors@, text@),
{
    let graphemes = split_graphemes(text);
    let ghost gs = graphemes_of(text@);
    proof {
        assert(gs.len() == graphemes@.len());
    }
    let colors = interpolate(anchors, graphemes.len());
    let mut out = String::new();
    let mut i: usize = 0;
    while i < graphemes.len()
        invariant
            anchors@.len() >= 2,
            gs == graphemes_of(text@),
            graphemes@.map_values(|g: String| g@) == gs,
            gs.len() == graphemes@.len(),
            colors@.len() == graphemes@.len(),
            forall|p: int|
                0 <= p < colors@.len() ==> colors@[p] == gradient_color(
                    anchors@,
                    colors@.len() as int,
                    p,
                ),
            i <= graphemes@.len(),
            out@ == colored_prefix(anchors@, gs, i as int),
        decreases graphemes@.len() - i,
    {
        let piece = paint_rgb(&colors[i], graphemes[i].as_str());
        proof {
            assert(gs[i as int] == graphemes@.map_values(|g: String| g@)[i as int]);
            assert(gs[i as int] == graphemes@[i as int]@);
        }
        out.append(piece.as_str());
        i += 1;
    }
    out
}

} // verus!
