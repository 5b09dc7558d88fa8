use vstd::prelude::*;
use vstd::seq_lib::{to_multiset_build, to_multiset_insert};
use crate::layout::Rectangle;

verus! {

/// Output `a` comes no later than output `b`: it lies higher, or at the
/// same height and no further right.
pub open spec fn precedes(a: Rectangle, b: Rectangle) -> bool {
    a.y < b.y || (a.y == b.y && a.x <= b.x)
}

/// The outputs are in order: top to bottom, then left to right.
pub open spec fn outputs_ordered(s: Seq<Rectangle>) -> bool {
    forall|i: int, j: int| 0 <= i < j < s.len() ==> precedes(#[trigger] s[i], #[trigger] s[j])
}

/// Orders the monitor rectangles top to bottom, then left to right. An
/// output's index, which constraints and
/// per-output settings refer to, is its place in this order.
pub fn order_outputs(rects: Vec<Rectangle>) -> (r: Vec<Rectangle>)
    ensures
        outputs_ordered(r@),
        r@.to_multiset() == rects@.to_multiset(),
{
    let mut out: Vec<Rectangle> = Vec::new();
    let mut i: usize = 0;
    assert(out@ =~= rects@.take(0));
    while i < rects.len()
        invariant
            i <= rects@.len(),
            outputs_ordered(out@),
            out@.to_multiset() == rects@.take(i as int).to_multiset(),
        decreases rects@.len() - i,
    {
        let x = rects[i];
        let mut pos: usize = 0;
        while pos < out.len() && precedes_exec(&out[pos], &x)
            invariant
                pos <= out@.len(),
                forall|j: int| 0 <= j < pos ==> precedes(#[trigger] out@[j], x),
            decreases out@.len() - pos,
        {
            pos = pos + 1;
        }
        let ghost before = out@;
        out.insert(pos, x);
        proof {
            assert forall|a: int, b: int| 0 <= a < b < out@.len() implies precedes(
                #[trigger] out@[a],
                #[trigger] out@[b],
            ) by {
                if b < pos {
                } else if b == pos {
                    assert(precedes(before[a], x));
                } else if a < pos {
                    assert(precedes(before[a], before[b - 1]));
                } else if a == pos {
                    assert(!precedes(before[pos as int], x));
                    assert(precedes(before[pos as int], before[b - 1]) || b - 1 == pos);
                } else {
                    assert(precedes(before[a - 1], before[b - 1]));
                }
            }
            to_multiset_insert(before, pos as int, x);
            assert(rects@.take(i + 1) =~= rects@.take(i as int).push(x));
            to_multiset_build(rects@.take(i as int), x);
        }
        i = i + 1;
    }
    assert(rects@.take(i as int) =~= rects@);
    out
}

fn precedes_exec(a: &Rectangle, b: &Rectangle) -> (r: bool)
    ensures
        r == precedes(*a, *b),
{
    a.y < b.y || (a.y == b.y && a.x <= b.x)
}

/// Whether an output lights a monitor: it is driven by a CRTC (id 0 is
/// none) and is not disconnected.
pub fn output_is_active(crtc: u32, disconnected: bool) -> (r: bool)
    ensures
        r == (crtc != 0 && !disconnected),
{
    crtc != 0 && !disconnected
}

/// `v` as a window-property cardinal: negative values become 0, values too
/// large become `u32::MAX`.
pub open spec fn cardinal(v: int) -> u32 {
    if v < 0 {
        0
    } else if v > u32::MAX {
        u32::MAX
    } else {
        v as u32
    }
}

fn to_cardinal(v: i64) -> (r: u32)
    ensures
        r == cardinal(v as int),
{
    if v < 0 {
        0
    } else if v > u32::MAX as i64 {
        u32::MAX
    } else {
        v as u32
    }
}

/// The space a bar of height `height` reserves along the top of the screen
/// over the monitor `rect`: the twelve values of a partial strut, left,
/// right, top, bottom, then the start and end of each side's span.
pub fn strut_partial(rect: &Rectangle, height: u32) -> (r: Vec<u32>)
    requires
        i64::MIN <= rect.x + rect.width <= i64::MAX,
    ensures
        r@ == seq![
            0u32,
            0,
            height,
            0,
            0,
            0,
            0,
            0,
            cardinal(rect.x as int),
            cardinal(rect.x + rect.width),
            0,
            0,
        ],
{
    let start = to_cardinal(rect.x);
    let end = to_cardinal(rect.x + rect.width);
    let r = vec![0u32, 0, height, 0, 0, 0, 0, 0, start, end, 0, 0];
    assert(r@ =~= seq![0u32, 0, height, 0, 0, 0, 0, 0, start, end, 0, 0]);
    r
}

/// The space a bar of height `height` reserves along the top of the
/// screen: left, right, top and bottom.
pub fn strut(height: u32) -> (r: Vec<u32>)
    ensures
        r@ == seq![0u32, 0, height, 0],
{
    let r = vec![0u32, 0, height, 0];
    assert(r@ =~= seq![0u32, 0, height, 0]);
    r
}

} // verus!
