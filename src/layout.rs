use vstd::prelude::*;
use crate::widget::{allowed_on, Alignment, Widget};

verus! {

/// Room added to each measured text width: the text's own width plus a
/// margin on either side.
pub const TEXT_PADDING: u32 = 10;

/// The largest total width, over all areas of all widgets, that one layout
/// pass accepts.
pub const MAX_TOTAL_WIDTH: u64 = 0xFFFF_FFFF;

/// A rectangle in whole pixels.
#[derive(Debug, Clone, Copy, PartialEq, Eq, Structural)]
pub struct Rectangle {
    pub x: i64,
    pub y: i64,
    pub width: i64,
    pub height: i64,
}

impl Rectangle {
    pub fn new(x: i64, y: i64, width: i64, height: i64) -> (r: Rectangle)
        ensures
            r == (Rectangle { x, y, width, height }),
    {
        Rectangle { x, y, width, height }
    }
}

/// The pixel size of an area's text as the canvas measured it.
#[derive(Debug, Clone, Copy, PartialEq, Eq, Structural)]
pub struct TextSize {
    pub width: u32,
    pub height: u32,
}

/// Where one area of one widget lands on an output: the x-range
/// `[left, right]`, spanning the whole bar height.
#[derive(Debug, Clone, Copy, PartialEq, Eq, Structural)]
pub struct Placement {
    pub widget: usize,
    pub area: usize,
    pub left: i64,
    pub right: i64,
}

/// How far from the origin any layout coordinate can reach.
pub const MAX_COORDINATE: i64 = 0x4_0000_0000;

/// Placement `p` names an area of `ws` with a measured size in `ms`, and its
/// range is ordered and within `MAX_COORDINATE`.
pub open spec fn placement_ok(p: Placement, ws: Seq<Widget>, ms: Seq<Seq<TextSize>>) -> bool {
    &&& p.widget < ws.len()
    &&& p.widget < ms.len()
    &&& p.area < ms[p.widget as int].len()
    &&& -MAX_COORDINATE <= p.left <= p.right <= MAX_COORDINATE
}

/// The horizontal room that an area takes.
pub open spec fn area_width(m: TextSize) -> int {
    m.width as int + TEXT_PADDING as int
}

/// The width of a widget: the sum of the widths of its areas.
pub open spec fn widget_width(ms: Seq<TextSize>) -> int
    decreases ms.len(),
{
    if ms.len() == 0 {
        0
    } else {
        widget_width(ms.drop_last()) + area_width(ms.last())
    }
}

/// The measured sizes, widget by widget, as sequences.
pub open spec fn sizes_view(sizes: Seq<Vec<TextSize>>) -> Seq<Seq<TextSize>> {
    sizes.map_values(|v: Vec<TextSize>| v@)
}

/// The sum of the widths of the first `n` widgets.
pub open spec fn total_width(ms: Seq<Seq<TextSize>>, n: int) -> int
    decreases n,
{
    if n <= 0 {
        0
    } else {
        total_width(ms, n - 1) + widget_width(ms[n - 1])
    }
}

/// There is one measured size for each area of each widget, and together
/// they fit one layout pass.
pub open spec fn sizes_fit(ws: Seq<Widget>, ms: Seq<Seq<TextSize>>) -> bool {
    &&& ms.len() == ws.len()
    &&& forall|i: int| 0 <= i < ws.len() ==> #[trigger] ms[i].len() == ws[i].content@.len()
    &&& total_width(ms, ms.len() as int) <= MAX_TOTAL_WIDTH
}

/// Widget `w` is laid out with alignment `a` on output `k`.
pub open spec fn in_group(w: Widget, a: Alignment, k: usize) -> bool {
    w.alignment == a && allowed_on(w.constraints.0@, k)
}

/// The width taken by the widgets of group `a` on output `k` among the
/// first `n` widgets.
pub open spec fn span_before(
    ws: Seq<Widget>,
    ms: Seq<Seq<TextSize>>,
    a: Alignment,
    k: usize,
    n: int,
) -> int
    decreases n,
{
    if n <= 0 {
        0
    } else {
        span_before(ws, ms, a, k, n - 1) + if in_group(ws[n - 1], a, k) {
            widget_width(ms[n - 1])
        } else {
            0
        }
    }
}

/// The left edge of widget `i` of group `a`, whose cursor starts at
/// `origin`: left and center groups grow rightwards from it, the right
/// group grows leftwards.
pub open spec fn widget_left(
    ws: Seq<Widget>,
    ms: Seq<Seq<TextSize>>,
    a: Alignment,
    k: usize,
    origin: int,
    i: int,
) -> int {
    if a == Alignment::Right {
        origin - span_before(ws, ms, a, k, i) - widget_width(ms[i])
    } else {
        origin + span_before(ws, ms, a, k, i)
    }
}

/// The right edge of widget `i` of group `a`.
pub open spec fn widget_right(
    ws: Seq<Widget>,
    ms: Seq<Seq<TextSize>>,
    a: Alignment,
    k: usize,
    origin: int,
    i: int,
) -> int {
    widget_left(ws, ms, a, k, origin, i) + widget_width(ms[i])
}

/// The areas of widget `i`, with sizes `ms`, side by side in reading order
/// from `x`.
pub open spec fn area_slots(i: int, ms: Seq<TextSize>, x: int) -> Seq<Placement>
    decreases ms.len(),
{
    if ms.len() == 0 {
        seq![]
    } else {
        area_slots(i, ms.drop_last(), x).push(
            Placement {
                widget: i as usize,
                area: (ms.len() - 1) as usize,
                left: (x + widget_width(ms.drop_last())) as i64,
                right: (x + widget_width(ms)) as i64,
            },
        )
    }
}

/// The placements of the widgets of group `a` among the first `n`, in
/// widget order.
pub open spec fn group(
    ws: Seq<Widget>,
    ms: Seq<Seq<TextSize>>,
    a: Alignment,
    k: usize,
    origin: int,
    n: int,
) -> Seq<Placement>
    decreases n,
{
    if n <= 0 {
        seq![]
    } else {
        group(ws, ms, a, k, origin, n - 1) + if in_group(ws[n - 1], a, k) {
            area_slots(n - 1, ms[n - 1], widget_left(ws, ms, a, k, origin, n - 1))
        } else {
            seq![]
        }
    }
}

/// Where the center group starts: it is centred on the output.
pub open spec fn center_origin(ws: Seq<Widget>, ms: Seq<Seq<TextSize>>, k: usize, width: int) -> int {
    width / 2 - span_before(ws, ms, Alignment::Center, k, ws.len() as int) / 2
}

/// The layout of output `k` of the given width: the left group from the
/// left edge, then the right group from the right edge, then the center
/// group, painted last so that it lies on top.
pub open spec fn layout_of(ws: Seq<Widget>, ms: Seq<Seq<TextSize>>, k: usize, width: int) -> Seq<
    Placement,
> {
    let n = ws.len() as int;
    group(ws, ms, Alignment::Left, k, 0, n) + group(ws, ms, Alignment::Right, k, width, n) + group(
        ws,
        ms,
        Alignment::Center,
        k,
        center_origin(ws, ms, k, width),
        n,
    )
}

/// The allocation state of one layout pass.
#[derive(Debug)]
pub struct Cursors {
    pub top: i64,
    pub bottom: i64,
    pub left: i64,
    pub center: i64,
    pub right: i64,
}

/// The cursor that group `a` advances.
pub open spec fn cursor_of(c: Cursors, a: Alignment) -> i64 {
    match a {
        Alignment::Left => c.left,
        Alignment::Center => c.center,
        Alignment::Right => c.right,
    }
}

impl Cursors {
    /// Takes `by` from the left cursor; returns the range taken.
    pub fn bump_left(&mut self, by: i64) -> (r: (i64, i64))
        requires
            i64::MIN <= old(self).left + by <= i64::MAX,
        ensures
            *final(self) == (Cursors { left: (old(self).left + by) as i64, ..*old(self) }),
            r == (old(self).left, final(self).left),
    {
        let before = self.left;
        self.left = self.left + by;
        (before, self.left)
    }

    /// Takes `by` from the right cursor, which moves leftwards; returns the
    /// range taken.
    pub fn bump_right(&mut self, by: i64) -> (r: (i64, i64))
        requires
            i64::MIN <= old(self).right - by <= i64::MAX,
        ensures
            *final(self) == (Cursors { right: (old(self).right - by) as i64, ..*old(self) }),
            r == (final(self).right, old(self).right),
    {
        let before = self.right;
        self.right = self.right - by;
        (self.right, before)
    }

    /// Takes `by` from the center cursor; returns the range taken.
    pub fn bump_center(&mut self, by: i64) -> (r: (i64, i64))
        requires
            i64::MIN <= old(self).center + by <= i64::MAX,
        ensures
            *final(self) == (Cursors { center: (old(self).center + by) as i64, ..*old(self) }),
            r == (old(self).center, final(self).center),
    {
        let before = self.center;
        self.center = self.center + by;
        (before, self.center)
    }

    /// Allocates `width` for `widget` from the cursor of its alignment and
    /// returns the widget's bounding rectangle, the full bar height.
    pub fn make_bounding_rectangle(&mut self, widget: &Widget, width: i64) -> (r: Rectangle)
        requires
            0 <= width,
            i64::MIN <= cursor_of(*old(self), widget.alignment) - width,
            cursor_of(*old(self), widget.alignment) + width <= i64::MAX,
            i64::MIN <= old(self).bottom - old(self).top <= i64::MAX,
        ensures
            widget.alignment == Alignment::Right ==> cursor_of(*final(self), widget.alignment)
                == cursor_of(*old(self), widget.alignment) - width,
            widget.alignment != Alignment::Right ==> cursor_of(*final(self), widget.alignment)
                == cursor_of(*old(self), widget.alignment) + width,
            forall|a: Alignment| a != widget.alignment ==> cursor_of(*final(self), a) == cursor_of(*old(self), a),
            final(self).top == old(self).top,
            final(self).bottom == old(self).bottom,
            r.x == if widget.alignment == Alignment::Right {
                cursor_of(*final(self), widget.alignment)
            } else {
                cursor_of(*old(self), widget.alignment)
            },
            r.width == width,
            r.y == old(self).top,
            r.height == old(self).bottom - old(self).top,
    {
        let (left, right) = match widget.alignment {
            Alignment::Left => self.bump_left(width),
            Alignment::Right => self.bump_right(width),
            // Center widgets come after all others so that they are painted on top.
            Alignment::Center => self.bump_center(width),
        };
        Rectangle::new(left, self.top, right - left, self.bottom - self.top)
    }

    /// The rectangle between the left and right cursors.
    pub fn as_rectangle(&self) -> (r: Rectangle)
        requires
            i64::MIN <= self.right - self.left <= i64::MAX,
            i64::MIN <= self.bottom - self.top <= i64::MAX,
        ensures
            r == (Rectangle {
                x: self.left,
                y: self.top,
                width: (self.right - self.left) as i64,
                height: (self.bottom - self.top) as i64,
            }),
    {
        Rectangle::new(self.left, self.top, self.right - self.left, self.bottom - self.top)
    }
}


proof fn lemma_widget_width_nonneg(ms: Seq<TextSize>)
    ensures
        widget_width(ms) >= 0,
    decreases ms.len(),
{
    if ms.len() > 0 {
        lemma_widget_width_nonneg(ms.drop_last());
    }
}

/// The areas before `j` take no more room than the whole widget.
proof fn lemma_widget_width_prefix(ms: Seq<TextSize>, j: int)
    requires
        0 <= j <= ms.len(),
    ensures
        0 <= widget_width(ms.take(j)) <= widget_width(ms),
    decreases ms.len(),
{
    if j < ms.len() {
        lemma_widget_width_prefix(ms.drop_last(), j);
        assert(ms.drop_last().take(j) =~= ms.take(j));
    } else {
        assert(ms.take(j) =~= ms);
        lemma_widget_width_nonneg(ms);
    }
}

/// One more area adds its width.
proof fn lemma_widget_width_step(ms: Seq<TextSize>, j: int)
    requires
        0 <= j < ms.len(),
    ensures
        widget_width(ms.take(j + 1)) == widget_width(ms.take(j)) + area_width(ms[j]),
        ms.take(j + 1).drop_last() == ms.take(j),
{
    assert(ms.take(j + 1).drop_last() =~= ms.take(j));
}

proof fn lemma_total_monotone(ms: Seq<Seq<TextSize>>, n: int, m: int)
    requires
        0 <= n <= m,
    ensures
        0 <= total_width(ms, n) <= total_width(ms, m),
    decreases m,
{
    if n < m {
        lemma_total_monotone(ms, n, m - 1);
        lemma_widget_width_nonneg(ms[m - 1]);
    } else if n > 0 {
        lemma_total_monotone(ms, n - 1, n - 1);
        lemma_widget_width_nonneg(ms[n - 1]);
    }
}

/// A group takes no more room than all widgets together.
proof fn lemma_span_bounds(ws: Seq<Widget>, ms: Seq<Seq<TextSize>>, a: Alignment, k: usize, n: int)
    requires
        0 <= n,
    ensures
        0 <= span_before(ws, ms, a, k, n) <= total_width(ms, n),
    decreases n,
{
    if n > 0 {
        lemma_span_bounds(ws, ms, a, k, n - 1);
        lemma_widget_width_nonneg(ms[n - 1]);
    }
}

/// Widget `i` of a fitting layout is no wider than all widgets together.
proof fn lemma_fit_widget(ws: Seq<Widget>, ms: Seq<Seq<TextSize>>, a: Alignment, k: usize, i: int)
    requires
        sizes_fit(ws, ms),
        0 <= i < ws.len(),
    ensures
        0 <= widget_width(ms[i]),
        0 <= span_before(ws, ms, a, k, i),
        span_before(ws, ms, a, k, i) + widget_width(ms[i]) <= MAX_TOTAL_WIDTH,
        0 <= span_before(ws, ms, a, k, i + 1) <= MAX_TOTAL_WIDTH,
{
    lemma_widget_width_nonneg(ms[i]);
    lemma_span_bounds(ws, ms, a, k, i);
    lemma_span_bounds(ws, ms, a, k, i + 1);
    lemma_total_monotone(ms, i + 1, ms.len() as int);
}

/// The width of a widget with the given measured areas.
fn measure_widget(sizes: &Vec<TextSize>) -> (r: i64)
    requires
        widget_width(sizes@) <= MAX_TOTAL_WIDTH,
    ensures
        r == widget_width(sizes@),
{
    let mut sum: i64 = 0;
    let mut j: usize = 0;
    while j < sizes.len()
        invariant
            j <= sizes@.len(),
            sum == widget_width(sizes@.take(j as int)),
            widget_width(sizes@) <= MAX_TOTAL_WIDTH,
        decreases sizes@.len() - j,
    {
        proof {
            lemma_widget_width_step(sizes@, j as int);
            lemma_widget_width_prefix(sizes@, j + 1);
        }
        sum = sum + sizes[j].width as i64 + TEXT_PADDING as i64;
        j = j + 1;
    }
    assert(sizes@.take(j as int) =~= sizes@);
    sum
}

/// Appends the areas of widget `i` side by side from `x`.
fn place_areas(i: usize, sizes: &Vec<TextSize>, x: i64, out: &mut Vec<Placement>)
    requires
        widget_width(sizes@) <= MAX_TOTAL_WIDTH,
        -0x2_0000_0000 <= x <= 0x2_0000_0000,
    ensures
        final(out)@ == old(out)@ + area_slots(i as int, sizes@, x as int),
        forall|q: int|
            old(out)@.len() <= q < final(out)@.len() ==> (#[trigger] final(out)@[q]).widget == i
                && final(out)@[q].area < sizes@.len() && -MAX_COORDINATE <= final(out)@[q].left
                <= final(out)@[q].right <= MAX_COORDINATE,
{
    let ghost base = out@;
    let mut cur: i64 = x;
    let mut j: usize = 0;
    while j < sizes.len()
        invariant
            j <= sizes@.len(),
            widget_width(sizes@) <= MAX_TOTAL_WIDTH,
            -0x2_0000_0000 <= x <= 0x2_0000_0000,
            cur == x + widget_width(sizes@.take(j as int)),
            out@ == base + area_slots(i as int, sizes@.take(j as int), x as int),
            base == old(out)@,
            forall|q: int|
                base.len() <= q < out@.len() ==> (#[trigger] out@[q]).widget == i && out@[q].area
                    < j && -MAX_COORDINATE <= out@[q].left <= out@[q].right <= MAX_COORDINATE,
        decreases sizes@.len() - j,
    {
        proof {
            lemma_widget_width_step(sizes@, j as int);
            lemma_widget_width_prefix(sizes@, j + 1);
        }
        let next = cur + sizes[j].width as i64 + TEXT_PADDING as i64;
        out.push(Placement { widget: i, area: j, left: cur, right: next });
        j = j + 1;
        cur = next;
        assert(out@ =~= base + area_slots(i as int, sizes@.take(j as int), x as int));
    }
    assert(sizes@.take(j as int) =~= sizes@);
}

/// The width taken by group `a` on output `k`.
fn group_width(ws: &Vec<Widget>, sizes: &Vec<Vec<TextSize>>, a: Alignment, k: usize) -> (r: i64)
    requires
        sizes_fit(ws@, sizes_view(sizes@)),
    ensures
        r == span_before(ws@, sizes_view(sizes@), a, k, ws@.len() as int),
        0 <= r <= MAX_TOTAL_WIDTH,
{
    let ghost ms = sizes_view(sizes@);
    let mut sum: i64 = 0;
    let mut i: usize = 0;
    while i < ws.len()
        invariant
            i <= ws@.len(),
            ms == sizes_view(sizes@),
            sizes_fit(ws@, ms),
            sum == span_before(ws@, ms, a, k, i as int),
        decreases ws@.len() - i,
    {
        proof {
            lemma_fit_widget(ws@, ms, a, k, i as int);
            assert(sizes@[i as int]@ == ms[i as int]);
        }
        let w = &ws[i];
        if w.alignment == a && w.constraints.allows(k) {
            let ww = measure_widget(&sizes[i]);
            sum = sum + ww;
        }
        i = i + 1;
    }
    proof {
        lemma_span_bounds(ws@, ms, a, k, i as int);
        lemma_total_monotone(ms, i as int, i as int);
    }
    sum
}

/// Lays out group `a` from its cursor, appending one placement per area.
fn place_group(
    ws: &Vec<Widget>,
    sizes: &Vec<Vec<TextSize>>,
    a: Alignment,
    k: usize,
    cursors: &mut Cursors,
    out: &mut Vec<Placement>,
)
    requires
        sizes_fit(ws@, sizes_view(sizes@)),
        -0x1_0000_0000 <= cursor_of(*old(cursors), a) <= 0x1_0000_0000,
        0 <= old(cursors).top <= old(cursors).bottom <= u32::MAX,
    ensures
        final(out)@ == old(out)@ + group(
            ws@,
            sizes_view(sizes@),
            a,
            k,
            cursor_of(*old(cursors), a) as int,
            ws@.len() as int,
        ),
        a == Alignment::Right ==> cursor_of(*final(cursors), a) == cursor_of(*old(cursors), a)
            - span_before(ws@, sizes_view(sizes@), a, k, ws@.len() as int),
        a != Alignment::Right ==> cursor_of(*final(cursors), a) == cursor_of(*old(cursors), a)
            + span_before(ws@, sizes_view(sizes@), a, k, ws@.len() as int),
        forall|b: Alignment| b != a ==> cursor_of(*final(cursors), b) == cursor_of(*old(cursors), b),
        final(cursors).top == old(cursors).top,
        final(cursors).bottom == old(cursors).bottom,
        forall|q: int|
            0 <= q < old(out)@.len() && placement_ok(#[trigger] old(out)@[q], ws@, sizes_view(sizes@))
                ==> placement_ok(final(out)@[q], ws@, sizes_view(sizes@)),
        forall|q: int|
            old(out)@.len() <= q < final(out)@.len() ==> placement_ok(
                #[trigger] final(out)@[q],
                ws@,
                sizes_view(sizes@),
            ),
{
    let ghost ms = sizes_view(sizes@);
    let ghost origin = cursor_of(*cursors, a) as int;
    let ghost c0 = *cursors;
    let ghost base = out@;
    let mut i: usize = 0;
    while i < ws.len()
        invariant
            i <= ws@.len(),
            ms == sizes_view(sizes@),
            sizes_fit(ws@, ms),
            -0x1_0000_0000 <= origin <= 0x1_0000_0000,
            out@ == base + group(ws@, ms, a, k, origin, i as int),
            a == Alignment::Right ==> cursor_of(*cursors, a) == origin - span_before(
                ws@,
                ms,
                a,
                k,
                i as int,
            ),
            a != Alignment::Right ==> cursor_of(*cursors, a) == origin + span_before(
                ws@,
                ms,
                a,
                k,
                i as int,
            ),
            forall|b: Alignment| b != a ==> cursor_of(*cursors, b) == cursor_of(c0, b),
            cursors.top == c0.top,
            cursors.bottom == c0.bottom,
            0 <= c0.top <= c0.bottom <= u32::MAX,
            base == old(out)@,
            forall|q: int|
                base.len() <= q < out@.len() ==> placement_ok(#[trigger] out@[q], ws@, ms),
        decreases ws@.len() - i,
    {
        proof {
            lemma_fit_widget(ws@, ms, a, k, i as int);
            assert(sizes@[i as int]@ == ms[i as int]);
        }
        let w = &ws[i];
        if w.alignment == a && w.constraints.allows(k) {
            let ww = measure_widget(&sizes[i]);
            let rect = cursors.make_bounding_rectangle(w, ww);
            let ghost before = out@;
            place_areas(i, &sizes[i], rect.x, out);
            assert forall|q: int| base.len() <= q < out@.len() implies placement_ok(
                #[trigger] out@[q],
                ws@,
                ms,
            ) by {
                if q < before.len() {
                    assert(out@[q] == before[q]);
                }
            }
        }
        i = i + 1;
        assert(out@ =~= base + group(ws@, ms, a, k, origin, i as int));
    }
}

/// Lays out the widgets on output `k`, of the given width and bar height:
/// left-aligned widgets from the left edge in order, right-aligned ones from
/// the right edge leftwards in order, and the centre group centred on the
/// output and placed last. Widgets that the output's index excludes are left
/// out.
pub fn layout(k: usize, width: u32, height: u32, ws: &Vec<Widget>, sizes: &Vec<Vec<TextSize>>) -> (r:
    Vec<Placement>)
    requires
        sizes_fit(ws@, sizes_view(sizes@)),
    ensures
        r@ == layout_of(ws@, sizes_view(sizes@), k, width as int),
        forall|q: int| 0 <= q < r@.len() ==> placement_ok(#[trigger] r@[q], ws@, sizes_view(sizes@)),
{
    let center_total = group_width(ws, sizes, Alignment::Center, k);
    let mut cursors = Cursors {
        top: 0,
        bottom: height as i64,
        left: 0,
        center: width as i64 / 2 - center_total / 2,
        right: width as i64,
    };
    let mut out: Vec<Placement> = Vec::new();
    place_group(ws, sizes, Alignment::Left, k, &mut cursors, &mut out);
    place_group(ws, sizes, Alignment::Right, k, &mut cursors, &mut out);
    place_group(ws, sizes, Alignment::Center, k, &mut cursors, &mut out);
    out
}

/// Whether `sizes` holds one measured size per area of each widget, with a
/// total width that one layout pass accepts.
pub fn check_sizes(ws: &Vec<Widget>, sizes: &Vec<Vec<TextSize>>) -> (r: bool)
    ensures
        r == sizes_fit(ws@, sizes_view(sizes@)),
{
    let ghost ms = sizes_view(sizes@);
    if sizes.len() != ws.len() {
        return false;
    }
    let mut total: u64 = 0;
    let mut i: usize = 0;
    while i < ws.len()
        invariant
            i <= ws@.len(),
            ms == sizes_view(sizes@),
            ms.len() == ws@.len(),
            forall|j: int| 0 <= j < i ==> #[trigger] ms[j].len() == ws@[j].content@.len(),
            total == total_width(ms, i as int),
            total <= MAX_TOTAL_WIDTH,
        decreases ws@.len() - i,
    {
        assert(sizes@[i as int]@ == ms[i as int]);
        if sizes[i].len() != ws[i].content.len() {
            return false;
        }
        let mut j: usize = 0;
        let ghost t0 = total as int;
        while j < sizes[i].len()
            invariant
                i < ws@.len(),
                ms == sizes_view(sizes@),
                ms.len() == ws@.len(),
                j <= ms[i as int].len(),
                t0 == total_width(ms, i as int),
                total == t0 + widget_width(ms[i as int].take(j as int)),
                total <= MAX_TOTAL_WIDTH,
            decreases ms[i as int].len() - j,
        {
            proof {
                lemma_widget_width_step(ms[i as int], j as int);
            }
            let w = sizes[i][j].width as u64 + TEXT_PADDING as u64;
            if w > MAX_TOTAL_WIDTH - total {
                proof {
                    lemma_widget_width_prefix(ms[i as int], j + 1);
                    lemma_total_monotone(ms, i + 1, ms.len() as int);
                }
                return false;
            }
            total = total + w;
            j = j + 1;
        }
        assert(ms[i as int].take(j as int) =~= ms[i as int]);
        i = i + 1;
    }
    true
}


/// With no member of group `a` strictly between `i` and `j`, the group's
/// width before `j` is its width up to and including `i`.
proof fn lemma_span_gap(ws: Seq<Widget>, ms: Seq<Seq<TextSize>>, a: Alignment, k: usize, i: int, j: int)
    requires
        0 <= i < j,
        forall|m: int| i < m < j ==> !in_group(#[trigger] ws[m], a, k),
    ensures
        span_before(ws, ms, a, k, j) == span_before(ws, ms, a, k, i + 1),
    decreases j,
{
    if j > i + 1 {
        lemma_span_gap(ws, ms, a, k, i, j - 1);
    }
}

/// With no member of group `a` before `j`, the group has taken no width.
proof fn lemma_span_none(ws: Seq<Widget>, ms: Seq<Seq<TextSize>>, a: Alignment, k: usize, j: int)
    requires
        0 <= j,
        forall|m: int| 0 <= m < j ==> !in_group(#[trigger] ws[m], a, k),
    ensures
        span_before(ws, ms, a, k, j) == 0,
    decreases j,
{
    if j > 0 {
        lemma_span_none(ws, ms, a, k, j - 1);
    }
}

/// Left-aligned widgets are laid side by side from the left edge with no
/// gaps: the first one shown on an output starts at 0, and each one ends
/// exactly where the next one shown begins.
pub proof fn lemma_left_widgets_contiguous(
    ws: Seq<Widget>,
    ms: Seq<Seq<TextSize>>,
    k: usize,
    i: int,
    j: int,
)
    requires
        0 <= i < j < ws.len(),
        in_group(ws[i], Alignment::Left, k),
        in_group(ws[j], Alignment::Left, k),
        forall|m: int| i < m < j ==> !in_group(#[trigger] ws[m], Alignment::Left, k),
    ensures
        widget_right(ws, ms, Alignment::Left, k, 0, i) == widget_left(
            ws,
            ms,
            Alignment::Left,
            k,
            0,
            j,
        ),
        (forall|m: int| 0 <= m < i ==> !in_group(#[trigger] ws[m], Alignment::Left, k))
            ==> widget_left(ws, ms, Alignment::Left, k, 0, i) == 0,
{
    lemma_span_gap(ws, ms, Alignment::Left, k, i, j);
    if forall|m: int| 0 <= m < i ==> !in_group(#[trigger] ws[m], Alignment::Left, k) {
        lemma_span_none(ws, ms, Alignment::Left, k, i);
    }
}

/// Right-aligned widgets are laid side by side from the right edge
/// leftwards with no gaps: the first one shown on an output ends at the
/// output's width, and each one begins exactly where the next one shown
/// ends.
pub proof fn lemma_right_widgets_contiguous(
    ws: Seq<Widget>,
    ms: Seq<Seq<TextSize>>,
    k: usize,
    width: int,
    i: int,
    j: int,
)
    requires
        0 <= i < j < ws.len(),
        in_group(ws[i], Alignment::Right, k),
        in_group(ws[j], Alignment::Right, k),
        forall|m: int| i < m < j ==> !in_group(#[trigger] ws[m], Alignment::Right, k),
    ensures
        widget_left(ws, ms, Alignment::Right, k, width, i) == widget_right(
            ws,
            ms,
            Alignment::Right,
            k,
            width,
            j,
        ),
        (forall|m: int| 0 <= m < i ==> !in_group(#[trigger] ws[m], Alignment::Right, k))
            ==> widget_right(ws, ms, Alignment::Right, k, width, i) == width,
{
    lemma_span_gap(ws, ms, Alignment::Right, k, i, j);
    if forall|m: int| 0 <= m < i ==> !in_group(#[trigger] ws[m], Alignment::Right, k) {
        lemma_span_none(ws, ms, Alignment::Right, k, i);
    }
}

/// The areas of a widget tile its span from `x`, in reading order: area
/// `j` covers the widths of the areas before it up to its own.
pub proof fn lemma_area_slots(i: int, ms: Seq<TextSize>, x: int)
    requires
        0 <= i <= usize::MAX,
        ms.len() <= usize::MAX,
        widget_width(ms) <= MAX_TOTAL_WIDTH,
        -0x2_0000_0000 <= x <= 0x2_0000_0000,
    ensures
        area_slots(i, ms, x).len() == ms.len(),
        forall|j: int|
            #![trigger area_slots(i, ms, x)[j]]
            0 <= j < ms.len() ==> {
                let p = area_slots(i, ms, x)[j];
                &&& p.widget == i
                &&& p.area == j
                &&& p.left == x + widget_width(ms.take(j))
                &&& p.right == x + widget_width(ms.take(j + 1))
            },
    decreases ms.len(),
{
    if ms.len() > 0 {
        let n = ms.len() - 1;
        lemma_widget_width_prefix(ms, n);
        assert(ms.take(n) =~= ms.drop_last());
        lemma_area_slots(i, ms.drop_last(), x);
        lemma_widget_width_nonneg(ms.drop_last());
        assert(ms.take(n + 1) =~= ms);
        let prev = area_slots(i, ms.drop_last(), x);
        let last = Placement {
            widget: i as usize,
            area: n as usize,
            left: (x + widget_width(ms.drop_last())) as i64,
            right: (x + widget_width(ms)) as i64,
        };
        assert(area_slots(i, ms, x) == prev.push(last));
        assert forall|j: int| 0 <= j < ms.len() implies {
            let p = #[trigger] prev.push(last)[j];
            &&& p.widget == i
            &&& p.area == j
            &&& p.left == x + widget_width(ms.take(j))
            &&& p.right == x + widget_width(ms.take(j + 1))
        } by {
            if j < n {
                assert(prev.push(last)[j] == prev[j]);
                assert(ms.drop_last().take(j) =~= ms.take(j));
                assert(ms.drop_last().take(j + 1) =~= ms.take(j + 1));
            } else {
                assert(prev.push(last)[j] == last);
            }
        }
    }
}

/// Every placement of a group belongs to a widget of that group.
proof fn lemma_group_members(
    ws: Seq<Widget>,
    ms: Seq<Seq<TextSize>>,
    a: Alignment,
    k: usize,
    origin: int,
    n: int,
)
    requires
        0 <= n <= ws.len(),
        ws.len() <= usize::MAX,
    ensures
        forall|q: int|
            #![trigger group(ws, ms, a, k, origin, n)[q]]
            0 <= q < group(ws, ms, a, k, origin, n).len() ==> {
                let p = group(ws, ms, a, k, origin, n)[q];
                p.widget < n && in_group(ws[p.widget as int], a, k)
            },
    decreases n,
{
    if n > 0 {
        lemma_group_members(ws, ms, a, k, origin, n - 1);
        let prev = group(ws, ms, a, k, origin, n - 1);
        if in_group(ws[n - 1], a, k) {
            let slots = area_slots(n - 1, ms[n - 1], widget_left(ws, ms, a, k, origin, n - 1));
            lemma_area_slots_widget(n - 1, ms[n - 1], widget_left(ws, ms, a, k, origin, n - 1));
            assert forall|q: int| prev.len() <= q < prev.len() + slots.len() implies (prev
                + slots)[q] == slots[q - prev.len()] by {}
        }
    }
}

/// Every placement of a widget's areas belongs to that widget.
proof fn lemma_area_slots_widget(i: int, ms: Seq<TextSize>, x: int)
    requires
        0 <= i <= usize::MAX,
    ensures
        forall|q: int|
            #![trigger area_slots(i, ms, x)[q]]
            0 <= q < area_slots(i, ms, x).len() ==> area_slots(i, ms, x)[q].widget == i,
    decreases ms.len(),
{
    if ms.len() > 0 {
        lemma_area_slots_widget(i, ms.drop_last(), x);
        let prev = area_slots(i, ms.drop_last(), x);
        let last = Placement {
            widget: i as usize,
            area: (ms.len() - 1) as usize,
            left: (x + widget_width(ms.drop_last())) as i64,
            right: (x + widget_width(ms)) as i64,
        };
        assert(area_slots(i, ms, x) == prev.push(last));
        assert forall|q: int| 0 <= q < prev.len() + 1 implies #[trigger] prev.push(last)[q].widget == i by {
            if q < prev.len() {
                assert(prev.push(last)[q] == prev[q]);
            }
        }
    }
}

/// A widget is placed on output `k` only where its monitor constraints
/// allow that output.
pub proof fn lemma_layout_respects_constraints(
    ws: Seq<Widget>,
    ms: Seq<Seq<TextSize>>,
    k: usize,
    width: int,
    q: int,
)
    requires
        ws.len() <= usize::MAX,
        0 <= q < layout_of(ws, ms, k, width).len(),
    ensures
        layout_of(ws, ms, k, width)[q].widget < ws.len(),
        allowed_on(ws[layout_of(ws, ms, k, width)[q].widget as int].constraints.0@, k),
{
    lemma_layout_alignment(ws, ms, k, width, q);
}

/// The placement at `q` belongs to a widget of its group, and the groups
/// come left, right, center.
proof fn lemma_layout_alignment(ws: Seq<Widget>, ms: Seq<Seq<TextSize>>, k: usize, width: int, q: int)
    requires
        ws.len() <= usize::MAX,
        0 <= q < layout_of(ws, ms, k, width).len(),
    ensures
        ({
            let n = ws.len() as int;
            let l = group(ws, ms, Alignment::Left, k, 0, n);
            let r = group(ws, ms, Alignment::Right, k, width, n);
            let p = layout_of(ws, ms, k, width)[q];
            let al = if q < l.len() {
                Alignment::Left
            } else if q < l.len() + r.len() {
                Alignment::Right
            } else {
                Alignment::Center
            };
            p.widget < n && in_group(ws[p.widget as int], al, k)
        }),
{
    let n = ws.len() as int;
    let l = group(ws, ms, Alignment::Left, k, 0, n);
    let r = group(ws, ms, Alignment::Right, k, width, n);
    let c = group(ws, ms, Alignment::Center, k, center_origin(ws, ms, k, width), n);
    lemma_group_members(ws, ms, Alignment::Left, k, 0, n);
    lemma_group_members(ws, ms, Alignment::Right, k, width, n);
    lemma_group_members(ws, ms, Alignment::Center, k, center_origin(ws, ms, k, width), n);
    if q < l.len() {
        assert(layout_of(ws, ms, k, width)[q] == l[q]);
    } else if q < l.len() + r.len() {
        assert(layout_of(ws, ms, k, width)[q] == r[q - l.len()]);
    } else {
        assert(layout_of(ws, ms, k, width)[q] == c[q - l.len() - r.len()]);
    }
}

/// Center-aligned widgets are placed after every left- or right-aligned
/// one, so they are painted on top of whatever shares their x-range.
pub proof fn lemma_center_placed_last(
    ws: Seq<Widget>,
    ms: Seq<Seq<TextSize>>,
    k: usize,
    width: int,
    q1: int,
    q2: int,
)
    requires
        ws.len() <= usize::MAX,
        0 <= q1 < q2 < layout_of(ws, ms, k, width).len(),
        ws[layout_of(ws, ms, k, width)[q1].widget as int].alignment == Alignment::Center,
    ensures
        ws[layout_of(ws, ms, k, width)[q2].widget as int].alignment == Alignment::Center,
{
    lemma_layout_alignment(ws, ms, k, width, q1);
    lemma_layout_alignment(ws, ms, k, width, q2);
}

} // verus!
