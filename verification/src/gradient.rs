use vstd::prelude::*;

use vstd::arithmetic::div_mod::lemma_div_by_self;
use vstd::arithmetic::div_mod::lemma_div_is_ordered;
use vstd::arithmetic::div_mod::lemma_div_multiples_vanish;
use vstd::arithmetic::div_mod::lemma_div_pos_is_pos;
use vstd::arithmetic::div_mod::lemma_fundamental_div_mod;
use vstd::arithmetic::div_mod::lemma_fundamental_div_mod_converse;
use vstd::arithmetic::div_mod::lemma_mod_division_less_than_divisor;

use crate::color::Color;

verus! {

/// The blended value of one channel, `j` truncated steps of `size` from
/// `from` toward `to`: exact interpolation `(to - from) * j / size` with
/// the fraction dropped toward zero, so the value never leaves the closed
/// interval between `from` and `to` and no channel ever wraps.
pub open spec fn blend_channel(from: u8, to: u8, j: int, size: int) -> u8
    recommends
        0 < size,
        0 <= j < size,
{
    if to >= from {
        (from + (to - from) * j / size) as u8
    } else {
        (from - (from - to) * j / size) as u8
    }
}

/// All three channels blended `j` steps of `size` from `from` toward `to`.
pub open spec fn blend(from: Color, to: Color, j: int, size: int) -> Color {
    Color {
        r: blend_channel(from.r, to.r, j, size),
        g: blend_channel(from.g, to.g, j, size),
        b: blend_channel(from.b, to.b, j, size),
    }
}

/// How many positions every segment between consecutive anchors receives.
pub open spec fn segment_size(anchors: Seq<Color>, length: int) -> int
    recommends
        anchors.len() >= 2,
{
    length / (anchors.len() - 1)
}

/// How many positions are left after all segments; they repeat the last
/// anchor exactly.
pub open spec fn segment_remainder(anchors: Seq<Color>, length: int) -> int
    recommends
        anchors.len() >= 2,
{
    length % (anchors.len() - 1)
}

/// The color of output position `p` in a gradient of `length` positions:
/// position `p` lies `p % size` steps into the segment from anchor
/// `p / size` to the next one. The remainder tail — and, when `length` is
/// too short to give every segment a position, the whole output — repeats
/// the last anchor.
pub open spec fn gradient_color(anchors: Seq<Color>, length: int, p: int) -> Color
    recommends
        anchors.len() >= 2,
        0 <= p < length,
{
    let size = segment_size(anchors, length);
    if size > 0 && p < (anchors.len() - 1) * size {
        blend(anchors[p / size], anchors[p / size + 1], p % size, size)
    } else {
        anchors[anchors.len() - 1]
    }
}

/// The signed per-channel difference `to - from`: the direction and
/// distance each channel travels across one segment.
pub fn calculate_delta(from: &Color, to: &Color) -> (d: (i16, i16, i16))
    ensures
        d.0 == to.r - from.r,
        d.1 == to.g - from.g,
        d.2 == to.b - from.b,
{
    (
        to.r as i16 - from.r as i16,
        to.g as i16 - from.g as i16,
        to.b as i16 - from.b as i16,
    )
}

/// The blended channel stays between its endpoints, so the `u8` narrowing
/// in `blend_channel` never truncates.
pub proof fn lemma_blend_channel_in_range(from: u8, to: u8, j: int, size: int)
    requires
        0 < size,
        0 <= j < size,
    ensures
        to >= from ==> from + (to - from) * j / size <= to,
        to >= from ==> blend_channel(from, to, j, size) == from + (to - from) * j / size,
        to < from ==> from - (from - to) * j / size >= to,
        to < from ==> blend_channel(from, to, j, size) == from - (from - to) * j / size,
{
    if to >= from {
        lemma_scaled_step_bounded(to - from, j, size);
    } else {
        lemma_scaled_step_bounded(from - to, j, size);
    }
}

/// A truncated interpolation step `d * j / size` with `j < size` never
/// exceeds the full distance `d` and never goes below zero.
proof fn lemma_scaled_step_bounded(d: int, j: int, size: int)
    requires
        0 <= d,
        0 < size,
        0 <= j < size,
    ensures
        0 <= d * j / size <= d,
{
    assert(0 <= d * j && d * j <= size * d) by (nonlinear_arith)
        requires
            0 <= d,
            0 <= j <= size,
    ;
    lemma_div_pos_is_pos(d * j, size);
    lemma_div_is_ordered(d * j, size * d, size);
    lemma_div_multiples_vanish(d, size);
}

/// Law: within one segment every channel approaches the next anchor
/// monotonically — non-decreasing when the channel's delta is positive or
/// zero, non-increasing when it is negative or zero.
pub proof fn lemma_monotonic_channel(from: u8, to: u8, j1: int, j2: int, size: int)
    requires
        0 < size,
        0 <= j1 <= j2 < size,
    ensures
        to >= from ==> blend_channel(from, to, j1, size) <= blend_channel(from, to, j2, size),
        to <= from ==> blend_channel(from, to, j1, size) >= blend_channel(from, to, j2, size),
{
    lemma_blend_channel_in_range(from, to, j1, size);
    lemma_blend_channel_in_range(from, to, j2, size);
    if to >= from {
        let d: int = to - from;
        assert(d * j1 <= d * j2) by (nonlinear_arith)
            requires
                0 <= d,
                j1 <= j2,
        ;
        lemma_div_is_ordered(d * j1, d * j2, size);
    } else {
        let d: int = from - to;
        assert(d * j1 <= d * j2) by (nonlinear_arith)
            requires
                0 <= d,
                j1 <= j2,
        ;
        lemma_div_is_ordered(d * j1, d * j2, size);
    }
}

/// Law: between two positions of one segment every channel of the
/// gradient moves monotonically toward the segment's ending anchor:
/// non-decreasing on channels whose delta is positive or zero,
/// non-increasing on the others.
pub proof fn lemma_monotonic_segment(anchors: Seq<Color>, length: int, p1: int, p2: int)
    requires
        anchors.len() >= 2,
        segment_size(anchors, length) > 0,
        0 <= p1 <= p2 < (anchors.len() - 1) * segment_size(anchors, length),
        p1 / segment_size(anchors, length) == p2 / segment_size(anchors, length),
    ensures
        ({
            let from = anchors[p1 / segment_size(anchors, length)];
            let to = anchors[p1 / segment_size(anchors, length) + 1];
            let c1 = gradient_color(anchors, length, p1);
            let c2 = gradient_color(anchors, length, p2);
            &&& to.r >= from.r ==> c1.r <= c2.r
            &&& to.r <= from.r ==> c1.r >= c2.r
            &&& to.g >= from.g ==> c1.g <= c2.g
            &&& to.g <= from.g ==> c1.g >= c2.g
            &&& to.b >= from.b ==> c1.b <= c2.b
            &&& to.b <= from.b ==> c1.b >= c2.b
        }),
{
    let size = segment_size(anchors, length);
    let i = p1 / size;
    let j1 = p1 % size;
    let j2 = p2 % size;
    lemma_fundamental_div_mod(p1, size);
    lemma_fundamental_div_mod(p2, size);
    lemma_mod_division_less_than_divisor(p1, size);
    lemma_mod_division_less_than_divisor(p2, size);
    assert(p1 == size * i + j1);
    assert(p2 == size * i + j2);
    assert(j1 <= j2);
    let from = anchors[i];
    let to = anchors[i + 1];
    lemma_monotonic_channel(from.r, to.r, j1, j2, size);
    lemma_monotonic_channel(from.g, to.g, j1, j2, size);
    lemma_monotonic_channel(from.b, to.b, j1, j2, size);
}

/// Law: the segments and the remainder tail partition the output exactly:
/// `(k - 1) * segment_size + segment_remainder == length` for every anchor
/// count `k >= 2` and every length.
pub proof fn lemma_segment_partition(anchors: Seq<Color>, length: int)
    requires
        anchors.len() >= 2,
        length >= 0,
    ensures
        (anchors.len() - 1) * segment_size(anchors, length) + segment_remainder(anchors, length)
            == length,
{
    lemma_fundamental_div_mod(length, anchors.len() - 1);
}

/// Law: as soon as every segment gets at least one position
/// (`length >= k - 1`), the gradient starts exactly at the first anchor.
pub proof fn lemma_first_color(anchors: Seq<Color>, length: int)
    requires
        anchors.len() >= 2,
        length >= anchors.len() - 1,
    ensures
        gradient_color(anchors, length, 0) == anchors[0],
{
    let segs = anchors.len() - 1;
    let size = segment_size(anchors, length);
    lemma_div_is_ordered(segs, length, segs);
    lemma_div_by_self(segs);
    assert(size >= 1);
    assert(segs * size >= 1) by (nonlinear_arith)
        requires
            segs >= 1,
            size >= 1,
    ;
    assert(0int / size == 0) by (nonlinear_arith)
        requires
            size > 0,
    ;
    assert(0int % size == 0) by (nonlinear_arith)
        requires
            size > 0,
    ;
    let a0 = anchors[0];
    let a1 = anchors[1];
    assert((a1.r - a0.r) * 0 == 0);
    assert((a0.r - a1.r) * 0 == 0);
    lemma_blend_channel_in_range(a0.r, a1.r, 0, size);
    lemma_blend_channel_in_range(a0.g, a1.g, 0, size);
    lemma_blend_channel_in_range(a0.b, a1.b, 0, size);
    assert(blend_channel(a0.r, a1.r, 0, size) == a0.r);
    assert(blend_channel(a0.g, a1.g, 0, size) == a0.g);
    assert(blend_channel(a0.b, a1.b, 0, size) == a0.b);
}

/// Law: whenever the remainder tail is not empty
/// (`length % (k - 1) != 0`), the gradient ends exactly at the last
/// anchor. When the remainder is zero the final position instead sits one
/// truncated interpolation step short of the last anchor.
pub proof fn lemma_last_color(anchors: Seq<Color>, length: int)
    requires
        anchors.len() >= 2,
        length >= 0,
        segment_remainder(anchors, length) != 0,
    ensures
        gradient_color(anchors, length, length - 1) == anchors[anchors.len() - 1],
{
    let segs = anchors.len() - 1;
    let size = segment_size(anchors, length);
    let rem = segment_remainder(anchors, length);
    lemma_fundamental_div_mod(length, segs);
    lemma_mod_division_less_than_divisor(length, segs);
    assert(rem >= 1);
    assert(length - 1 >= segs * size);
}

/// Builds the gradient: exactly `length` colors, partitioned into
/// `anchors.len() - 1` equal segments that each blend one anchor toward
/// the next, followed by a remainder tail that repeats the last anchor.
pub fn interpolate(colors: &Vec<Color>, length: usize) -> (out: Vec<Color>)
    requires
        colors@.len() >= 2,
    ensures
        out@.len() == length,
        forall|p: int|
            0 <= p < length ==> out@[p] == gradient_color(colors@, length as int, p),
{
    let distance = colors.len() - 1;
    let size = length / distance;
    let remainder = length % distance;
    proof {
        lemma_fundamental_div_mod(length as int, distance as int);
    }
    let mut out: Vec<Color> = Vec::new();
    let mut i: usize = 0;
    while i < distance
        invariant
            colors@.len() >= 2,
            distance == colors@.len() - 1,
            size == segment_size(colors@, length as int),
            i <= distance,
            out@.len() == i * size,
            forall|p: int|
                0 <= p < i * size ==> out@[p] == gradient_color(colors@, length as int, p),
        decreases distance - i,
    {
        let mut j: usize = 0;
        proof {
            assert((i + 1) * size == i * size + size) by (nonlinear_arith);
        }
        while j < size
            invariant
                colors@.len() >= 2,
                distance == colors@.len() - 1,
                size == segment_size(colors@, length as int),
                i < distance,
                j <= size,
                out@.len() == i * size + j,
                forall|p: int|
                    0 <= p < i * size + j ==> out@[p] == gradient_color(colors@, length as int, p),
            decreases size - j,
        {
            let c = blend_exec(&colors[i], &colors[i + 1], j, size);
            proof {
                let p = i * size + j;
                lemma_fundamental_div_mod_converse(p as int, size as int, i as int, j as int);
                assert(p < distance * size) by (nonlinear_arith)
                    requires
                        p == i * size + j,
                        i < distance,
                        0 <= j < size,
                ;
            }
            out.push(c);
            j += 1;
        }
        i += 1;
    }
    let last = colors[colors.len() - 1];
    let mut t: usize = 0;
    proof {
        assert(out@.len() == distance * size);
    }
    while t < remainder
        invariant
            colors@.len() >= 2,
            distance == colors@.len() - 1,
            size == segment_size(colors@, length as int),
            remainder == segment_remainder(colors@, length as int),
            last == colors@[colors@.len() - 1],
            t <= remainder,
            out@.len() == distance * size + t,
            distance * size + remainder == length,
            forall|p: int|
                0 <= p < distance * size + t ==> out@[p] == gradient_color(
                    colors@,
                    length as int,
                    p,
                ),
        decreases remainder - t,
    {
        out.push(last);
        t += 1;
    }
    out
}

/// One channel of `blend`, computed with exact unsigned arithmetic.
fn blend_channel_exec(from: u8, to: u8, j: usize, size: usize) -> (v: u8)
    requires
        0 < size,
        j < size,
    ensures
        v == blend_channel(from, to, j as int, size as int),
{
    proof {
        lemma_blend_channel_in_range(from, to, j as int, size as int);
    }
    if to >= from {
        let d: u128 = (to - from) as u128;
        proof {
            assert(d * (j as u128) <= 255 * (u64::MAX as int)) by (nonlinear_arith)
                requires
                    d <= 255,
                    j as u128 <= u64::MAX,
            ;
        }
        let q: u128 = d * (j as u128) / (size as u128);
        from + (q as u8)
    } else {
        let d: u128 = (from - to) as u128;
        proof {
            assert(d * (j as u128) <= 255 * (u64::MAX as int)) by (nonlinear_arith)
                requires
                    d <= 255,
                    j as u128 <= u64::MAX,
            ;
        }
        let q: u128 = d * (j as u128) / (size as u128);
        from - (q as u8)
    }
}

/// All three channels of `blend`.
fn blend_exec(from: &Color, to: &Color, j: usize, size: usize) -> (c: Color)
    requires
        0 < size,
        j < size,
    ensures
        c == blend(*from, *to, j as int, size as int),
{
    Color {
        r: blend_channel_exec(from.r, to.r, j, size),
        g: blend_channel_exec(from.g, to.g, j, size),
        b: blend_channel_exec(from.b, to.b, j, size),
    }
}

} // verus!

