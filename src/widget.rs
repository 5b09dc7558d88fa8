use vstd::prelude::*;
use crate::colour::{Colour, Colours};

verus! {

/// A mouse button that a click handler can be bound to.
#[derive(Debug, Clone, Copy, PartialEq, Eq, Structural)]
pub enum MouseButton {
    Left,
    Middle,
    Right,
    ScrollUp,
    ScrollDown,
    ScrollLeft,
    ScrollRight,
}

/// What to print when `button` is pressed over an area.
#[derive(Debug, Clone)]
pub struct ClickHandler {
    pub button: MouseButton,
    pub output: String,
}

impl ClickHandler {
    /// A copy of this handler, equal to it field by field.
    pub fn snapshot(&self) -> (r: ClickHandler)
        ensures
            r == *self,
    {
        ClickHandler { button: self.button, output: self.output.clone() }
    }
}

/// One piece of displayed text with its colours and click handlers.
#[derive(Debug, Clone)]
pub struct Area {
    pub text: String,
    pub colours: Colours,
    pub on_click: Vec<ClickHandler>,
}

impl Area {
    /// `self` and `other` hold the same text, colours and handlers.
    pub open spec fn same_as(&self, other: Area) -> bool {
        &&& self.text == other.text
        &&& self.colours == other.colours
        &&& self.on_click@ == other.on_click@
    }

    /// A copy of this area, taken by value so that later changes to the
    /// widget it came from cannot reach it.
    pub fn snapshot(&self) -> (r: Area)
        ensures
            r.same_as(*self),
    {
        let mut handlers: Vec<ClickHandler> = Vec::new();
        let mut i: usize = 0;
        while i < self.on_click.len()
            invariant
                i <= self.on_click@.len(),
                handlers@ == self.on_click@.subrange(0, i as int),
            decreases self.on_click@.len() - i,
        {
            handlers.push(self.on_click[i].snapshot());
            i = i + 1;
        }
        assert(handlers@ =~= self.on_click@);
        Area { text: self.text.clone(), colours: self.colours, on_click: handlers }
    }
}

/// Where on an output a widget is laid out.
#[derive(Debug, Clone, Copy, PartialEq, Eq, Structural)]
pub enum Alignment {
    Left,
    Center,
    Right,
}

impl Alignment {
    pub fn is_center(&self) -> (r: bool)
        ensures
            r == (*self == Alignment::Center),
    {
        match self {
            Alignment::Center => true,
            _ => false,
        }
    }

    pub fn is_right(&self) -> (r: bool)
        ensures
            r == (*self == Alignment::Right),
    {
        match self {
            Alignment::Right => true,
            _ => false,
        }
    }
}

/// The index of the output that a widget is restricted to.
#[derive(Debug, Clone, Copy, PartialEq, Eq, Structural)]
pub struct MonitorConstraint(pub usize);

impl MonitorConstraint {
    pub fn number(&self) -> (r: usize)
        ensures
            r == self.0,
    {
        self.0
    }
}

/// A restriction on where a widget is shown.
#[derive(Debug, Clone, Copy, PartialEq, Eq, Structural)]
pub enum Constraint {
    Monitor(MonitorConstraint),
}

impl Constraint {
    /// The output index named by a monitor constraint.
    pub open spec fn monitor_index(self) -> usize {
        match self {
            Constraint::Monitor(m) => m.0,
        }
    }
}

/// The restrictions of one widget.
#[derive(Debug, Clone)]
pub struct Constraints(pub Vec<Constraint>);

/// The output indices named by the monitor constraints in `cs`, in order.
pub open spec fn monitor_indices(cs: Seq<Constraint>) -> Seq<usize> {
    cs.map_values(|c: Constraint| c.monitor_index())
}

/// A widget may be shown on output `k`: it names no monitor, or names `k`.
pub open spec fn allowed_on(cs: Seq<Constraint>, k: usize) -> bool {
    monitor_indices(cs).len() == 0 || monitor_indices(cs).contains(k)
}

impl Constraints {
    /// An empty set of constraints: the widget is shown everywhere.
    pub fn new() -> (r: Constraints)
        ensures
            r.0@.len() == 0,
    {
        Constraints(Vec::new())
    }

    /// The monitor constraints, in order.
    pub fn monitor(&self) -> (r: Vec<MonitorConstraint>)
        ensures
            r@.map_values(|m: MonitorConstraint| m.0) == monitor_indices(self.0@),
    {
        let mut r: Vec<MonitorConstraint> = Vec::new();
        let mut i: usize = 0;
        while i < self.0.len()
            invariant
                i <= self.0@.len(),
                r@.len() == i,
                forall|j: int| 0 <= j < i ==> r@[j].0 == self.0@[j].monitor_index(),
            decreases self.0@.len() - i,
        {
            match &self.0[i] {
                Constraint::Monitor(m) => r.push(*m),
            }
            i = i + 1;
        }
        assert(r@.map_values(|m: MonitorConstraint| m.0) =~= monitor_indices(self.0@));
        r
    }

    /// Whether a widget with these constraints is shown on output `k`.
    pub fn allows(&self, k: usize) -> (r: bool)
        ensures
            r == allowed_on(self.0@, k),
    {
        if self.0.len() == 0 {
            return true;
        }
        let mut i: usize = 0;
        while i < self.0.len()
            invariant
                i <= self.0@.len(),
                forall|j: int| 0 <= j < i ==> monitor_indices(self.0@)[j] != k,
            decreases self.0@.len() - i,
        {
            match &self.0[i] {
                Constraint::Monitor(m) => {
                    if m.0 == k {
                        assert(monitor_indices(self.0@)[i as int] == k);
                        return true;
                    }
                },
            }
            i = i + 1;
        }
        false
    }
}

/// A tagged, aligned group of areas.
#[derive(Debug, Clone)]
pub struct Widget {
    pub tag: String,
    pub alignment: Alignment,
    pub content: Vec<Area>,
    pub constraints: Constraints,
}

/// Replace the content of the widget tagged `tag`.
#[derive(Debug, Clone)]
pub struct Update {
    pub tag: String,
    pub content: Vec<Area>,
}

/// Replace every widget.
#[derive(Debug, Clone)]
pub struct Draw {
    pub widgets: Vec<Widget>,
}

/// One line of the live-update protocol.
#[derive(Debug, Clone)]
pub enum Command {
    Update(Update),
    Draw(Draw),
}

/// The per-output settings: bar height, font, and default colours.
#[derive(Debug, Clone)]
pub struct Config {
    pub height: u32,
    pub font_str: String,
    pub default_bg: Colour,
    pub default_fg: Colour,
}

} // verus!
