use vstd::prelude::*;
use crate::widget::{Area, ClickHandler, MouseButton};

verus! {

/// An area as it was painted: its x-range on a window, and a copy of the
/// area taken at paint time.
#[derive(Debug, Clone)]
pub struct Paint {
    pub left: i64,
    pub right: i64,
    pub win: u32,
    pub area: Area,
}

/// Paint `p` lies on window `win` and its x-range holds `x`.
pub open spec fn covers(p: Paint, win: u32, x: i64) -> bool {
    p.win == win && p.left <= x && x <= p.right
}

pub open spec fn paint_width(p: Paint) -> int {
    p.right - p.left
}

/// Paint `q` is the one a click at `x` on `win` selects: it covers the
/// click, no covering paint is narrower, and every covering paint before it
/// is wider.
pub open spec fn is_hit(ps: Seq<Paint>, win: u32, x: i64, q: int) -> bool {
    &&& 0 <= q < ps.len()
    &&& covers(ps[q], win, x)
    &&& forall|j: int|
        0 <= j < ps.len() && covers(#[trigger] ps[j], win, x) ==> paint_width(ps[q]) <= paint_width(
            ps[j],
        ) && (j < q ==> paint_width(ps[q]) < paint_width(ps[j]))
}

/// Some paint covers a click at `x` on `win`.
pub open spec fn any_covers(ps: Seq<Paint>, win: u32, x: i64) -> bool {
    exists|j: int| 0 <= j < ps.len() && covers(#[trigger] ps[j], win, x)
}

/// Among the paints on window `win` whose x-range holds `x`, the narrowest;
/// of equally narrow ones, the first.
pub fn hit_test(ps: &Vec<Paint>, win: u32, x: i64) -> (r: Option<usize>)
    ensures
        r is None <==> !any_covers(ps@, win, x),
        r matches Some(q) ==> is_hit(ps@, win, x, q as int),
{
    let mut best: Option<usize> = None;
    let mut best_width: i128 = 0;
    let mut i: usize = 0;
    while i < ps.len()
        invariant
            i <= ps@.len(),
            best is None <==> forall|j: int| 0 <= j < i ==> !covers(#[trigger] ps@[j], win, x),
            best matches Some(q) ==> {
                &&& q < i
                &&& best_width == paint_width(ps@[q as int])
                &&& covers(ps@[q as int], win, x)
                &&& forall|j: int|
                    0 <= j < i && covers(#[trigger] ps@[j], win, x) ==> paint_width(ps@[q as int])
                        <= paint_width(ps@[j]) && (j < q ==> paint_width(ps@[q as int])
                        < paint_width(ps@[j]))
            },
        decreases ps@.len() - i,
    {
        let p = &ps[i];
        if p.win == win && p.left <= x && x <= p.right {
            let w = p.right as i128 - p.left as i128;
            match best {
                None => {
                    best = Some(i);
                    best_width = w;
                },
                Some(_) => {
                    if w < best_width {
                        best = Some(i);
                        best_width = w;
                    }
                },
            }
        }
        i = i + 1;
    }
    best
}

/// The outputs of the handlers in `hs` bound to `b`, in order.
pub open spec fn clicked(hs: Seq<ClickHandler>, b: MouseButton) -> Seq<String>
    decreases hs.len(),
{
    if hs.len() == 0 {
        seq![]
    } else {
        clicked(hs.drop_last(), b) + if hs.last().button == b {
            seq![hs.last().output]
        } else {
            seq![]
        }
    }
}

/// The outputs of every handler of `area` bound to `b`, in order.
pub fn outputs_for(area: &Area, b: MouseButton) -> (r: Vec<String>)
    ensures
        r@ == clicked(area.on_click@, b),
{
    let mut r: Vec<String> = Vec::new();
    let mut i: usize = 0;
    while i < area.on_click.len()
        invariant
            i <= area.on_click@.len(),
            r@ == clicked(area.on_click@.take(i as int), b),
        decreases area.on_click@.len() - i,
    {
        assert(area.on_click@.take(i + 1).drop_last() =~= area.on_click@.take(i as int));
        let h = &area.on_click[i];
        if h.button == b {
            r.push(h.output.clone());
        }
        i = i + 1;
        assert(r@ =~= clicked(area.on_click@.take(i as int), b));
    }
    assert(area.on_click@.take(i as int) =~= area.on_click@);
    r
}

impl MouseButton {
    /// The button of an X button code: 1 to 3 are left, middle and right,
    /// 4 to 7 scroll up, down, left and right. Other codes name no button.
    pub open spec fn spec_from_detail(detail: u8) -> Option<MouseButton> {
        if detail == 1 {
            Some(MouseButton::Left)
        } else if detail == 2 {
            Some(MouseButton::Middle)
        } else if detail == 3 {
            Some(MouseButton::Right)
        } else if detail == 4 {
            Some(MouseButton::ScrollUp)
        } else if detail == 5 {
            Some(MouseButton::ScrollDown)
        } else if detail == 6 {
            Some(MouseButton::ScrollLeft)
        } else if detail == 7 {
            Some(MouseButton::ScrollRight)
        } else {
            None
        }
    }

    pub fn from_detail(detail: u8) -> (r: Option<MouseButton>)
        ensures
            r == Self::spec_from_detail(detail),
    {
        match detail {
            1 => Some(MouseButton::Left),
            2 => Some(MouseButton::Middle),
            3 => Some(MouseButton::Right),
            4 => Some(MouseButton::ScrollUp),
            5 => Some(MouseButton::ScrollDown),
            6 => Some(MouseButton::ScrollLeft),
            7 => Some(MouseButton::ScrollRight),
            _ => None,
        }
    }
}

/// An event from the display.
#[derive(Debug, Clone, Copy, PartialEq, Eq, Structural)]
pub enum Event {
    /// Part of a window must be drawn again.
    Expose,
    /// A mouse button was pressed at `x` on `window`; `detail` is the
    /// button's code.
    ButtonPress { window: u32, x: i64, detail: u8 },
    /// Anything else.
    Other,
}

/// What the main loop does about an event.
#[derive(Debug)]
pub enum Reaction {
    /// Redraw every output.
    Redraw,
    /// Print each string, one per line.
    Emit(Vec<String>),
    /// Nothing.
    Ignore,
}

/// What a click at `x` on `win` with button code `detail` prints, given the
/// paints on screen: the outputs of the selected paint's handlers for that
/// button, or nothing when no paint is selected or the code names no button.
pub open spec fn click_outputs(ps: Seq<Paint>, win: u32, x: i64, detail: u8) -> Seq<String> {
    match MouseButton::spec_from_detail(detail) {
        Some(b) => if any_covers(ps, win, x) {
            clicked(ps[choose|q: int| is_hit(ps, win, x, q)].area.on_click@, b)
        } else {
            seq![]
        },
        None => seq![],
    }
}

proof fn lemma_hit_unique(ps: Seq<Paint>, win: u32, x: i64, q: int)
    requires
        is_hit(ps, win, x, q),
    ensures
        (choose|c: int| is_hit(ps, win, x, c)) == q,
{
    let c = choose|c: int| is_hit(ps, win, x, c);
    assert(is_hit(ps, win, x, c));
    if c < q {
        assert(covers(ps[c], win, x));
    } else if q < c {
        assert(covers(ps[q], win, x));
    }
}

/// Decides what to do about one event: an exposure asks for a redraw of
/// every output, a button press prints what the clicked area's handlers
/// for that button say, and anything else is ignored.
pub fn handle_event(ps: &Vec<Paint>, event: Event) -> (r: Reaction)
    ensures
        event == Event::Expose ==> r is Redraw,
        event == Event::Other ==> r is Ignore,
        event matches Event::ButtonPress { window, x, detail } ==> r matches Reaction::Emit(out)
            && out@ == click_outputs(ps@, window, x, detail),
{
    match event {
        Event::Expose => Reaction::Redraw,
        Event::Other => Reaction::Ignore,
        Event::ButtonPress { window, x, detail } => {
            match MouseButton::from_detail(detail) {
                None => Reaction::Emit(Vec::new()),
                Some(b) => match hit_test(ps, window, x) {
                    None => Reaction::Emit(Vec::new()),
                    Some(q) => {
                        proof {
                            lemma_hit_unique(ps@, window, x, q as int);
                        }
                        Reaction::Emit(outputs_for(&ps[q].area, b))
                    },
                },
            }
        },
    }
}

} // verus!
