use vstd::prelude::*;
use crate::colour::Colour;
use crate::layout::{
    layout, layout_of, placement_ok, sizes_fit, sizes_view, Placement, Rectangle, TextSize,
};
use crate::paint::Paint;
use crate::widget::{Area, Config, Widget};

verus! {

/// How far right of its rectangle's left edge an area's text starts.
pub const TEXT_INSET: i64 = 5;

/// One drawing step on an output's canvas.
#[derive(Debug, Clone, Copy, PartialEq, Eq, Structural)]
pub enum DrawOp {
    /// Fill `rect` with `colour`.
    Fill { rect: Rectangle, colour: Colour },
    /// Draw the text of area `area` of widget `widget` in `colour`, its top
    /// left corner at `(x, y)`.
    Text { x: i64, y: i64, colour: Colour, widget: usize, area: usize },
}

/// What one redraw of one output does: the drawing steps in order, and the
/// paints that record where each area went.
#[derive(Debug)]
pub struct Frame {
    pub ops: Vec<DrawOp>,
    pub paints: Vec<Paint>,
}

/// The area that placement `p` puts on screen.
pub open spec fn area_at(ws: Seq<Widget>, p: Placement) -> Area {
    ws[p.widget as int].content@[p.area as int]
}

/// The background of an area: its own, or the output's default.
pub open spec fn background(a: Area, cfg: Config) -> Colour {
    match a.colours.bg {
        Some(c) => c,
        None => cfg.default_bg,
    }
}

/// The text colour of an area: its own, or the output's default.
pub open spec fn foreground(a: Area, cfg: Config) -> Colour {
    match a.colours.fg {
        Some(c) => c,
        None => cfg.default_fg,
    }
}

/// The rectangle of a placement: its x-range, the whole bar height.
pub open spec fn placement_rect(p: Placement, cfg: Config) -> Rectangle {
    Rectangle { x: p.left, y: 0, width: (p.right - p.left) as i64, height: cfg.height as i64 }
}

/// The top of text of height `text_height`, centred vertically in the bar.
pub open spec fn text_top(cfg: Config, text_height: u32) -> i64 {
    (cfg.height as int / 2 - text_height as int / 2) as i64
}

/// The two drawing steps for placement `p`: fill its rectangle with the
/// area's background, then draw its text, inset from the left and centred
/// vertically.
pub open spec fn area_ops(p: Placement, a: Area, size: TextSize, cfg: Config) -> (DrawOp, DrawOp) {
    (
        DrawOp::Fill { rect: placement_rect(p, cfg), colour: background(a, cfg) },
        DrawOp::Text {
            x: (p.left + TEXT_INSET) as i64,
            y: text_top(cfg, size.height),
            colour: foreground(a, cfg),
            widget: p.widget,
            area: p.area,
        },
    )
}

/// The whole bar of an output, filled with its default background.
pub open spec fn bar_fill(width: u32, cfg: Config) -> DrawOp {
    DrawOp::Fill {
        rect: Rectangle { x: 0, y: 0, width: width as i64, height: cfg.height as i64 },
        colour: cfg.default_bg,
    }
}

/// Plans one redraw of output `k`, whose window is `win` and whose width is
/// `width`: first the whole bar is filled with the default background, then
/// each placement of the layout, in layout order, has its rectangle filled
/// and its text drawn, and is recorded as a paint holding a copy of its area.
pub fn render(
    k: usize,
    win: u32,
    width: u32,
    cfg: &Config,
    ws: &Vec<Widget>,
    sizes: &Vec<Vec<TextSize>>,
) -> (r: Frame)
    requires
        sizes_fit(ws@, sizes_view(sizes@)),
    ensures
        ({
            let l = layout_of(ws@, sizes_view(sizes@), k, width as int);
            &&& r.paints@.len() == l.len()
            &&& r.ops@.len() == 2 * l.len() + 1
            &&& r.ops@[0] == bar_fill(width, *cfg)
            &&& forall|q: int|
                0 <= q < l.len() ==> {
                    let p = #[trigger] l[q];
                    let a = area_at(ws@, p);
                    let ops = area_ops(p, a, sizes_view(sizes@)[p.widget as int][p.area as int], *cfg);
                    &&& r.paints@[q].left == p.left
                    &&& r.paints@[q].right == p.right
                    &&& r.paints@[q].left <= r.paints@[q].right
                    &&& r.paints@[q].win == win
                    &&& r.paints@[q].area.same_as(a)
                    &&& r.ops@[2 * q + 1] == ops.0
                    &&& r.ops@[2 * q + 2] == ops.1
                }
        }),
{
    let ghost ms = sizes_view(sizes@);
    let placements = layout(k, width, cfg.height, ws, sizes);
    let ghost l = placements@;
    let mut ops: Vec<DrawOp> = Vec::new();
    ops.push(
        DrawOp::Fill {
            rect: Rectangle::new(0, 0, width as i64, cfg.height as i64),
            colour: cfg.default_bg,
        },
    );
    let mut paints: Vec<Paint> = Vec::new();
    let mut q: usize = 0;
    while q < placements.len()
        invariant
            q <= l.len(),
            l == placements@,
            ms == sizes_view(sizes@),
            sizes_fit(ws@, ms),
            forall|j: int| 0 <= j < l.len() ==> placement_ok(#[trigger] l[j], ws@, ms),
            paints@.len() == q,
            ops@.len() == 2 * q + 1,
            ops@[0] == bar_fill(width, *cfg),
            forall|j: int|
                0 <= j < q ==> {
                    let p = #[trigger] l[j];
                    let a = area_at(ws@, p);
                    let o = area_ops(p, a, ms[p.widget as int][p.area as int], *cfg);
                    &&& paints@[j].left == p.left
                    &&& paints@[j].right == p.right
                    &&& paints@[j].left <= paints@[j].right
                    &&& paints@[j].win == win
                    &&& paints@[j].area.same_as(a)
                    &&& ops@[2 * j + 1] == o.0
                    &&& ops@[2 * j + 2] == o.1
                },
        decreases l.len() - q,
    {
        let p = placements[q];
        assert(placement_ok(l[q as int], ws@, ms));
        assert(sizes@[p.widget as int]@ == ms[p.widget as int]);
        let widget = &ws[p.widget];
        let area = &widget.content[p.area];
        let size = sizes[p.widget][p.area];
        let bg = match area.colours.bg {
            Some(c) => c,
            None => cfg.default_bg,
        };
        let fg = match area.colours.fg {
            Some(c) => c,
            None => cfg.default_fg,
        };
        ops.push(
            DrawOp::Fill {
                rect: Rectangle::new(p.left, 0, p.right - p.left, cfg.height as i64),
                colour: bg,
            },
        );
        ops.push(
            DrawOp::Text {
                x: p.left + TEXT_INSET,
                y: cfg.height as i64 / 2 - size.height as i64 / 2,
                colour: fg,
                widget: p.widget,
                area: p.area,
            },
        );
        paints.push(Paint { left: p.left, right: p.right, win, area: area.snapshot() });
        q = q + 1;
    }
    Frame { ops, paints }
}

} // verus!
