use vstd::prelude::*;
use crate::widget::{Area, Command, Widget};

verus! {

/// Why an update was refused; the store is left as it was.
#[derive(Debug, Clone, Copy, PartialEq, Eq, Structural)]
pub enum UpdateError {
    /// The tag was empty: untagged widgets cannot be addressed.
    InvalidTag,
    /// No widget has the tag.
    UnknownTag,
}

/// Some widget in `ws` has the tag `tag`.
pub open spec fn has_tag(ws: Seq<Widget>, tag: Seq<char>) -> bool {
    exists|i: int| 0 <= i < ws.len() && (#[trigger] ws[i]).tag@ == tag
}

/// `i` is the first widget in `ws` with the tag `tag`.
pub open spec fn is_first_tagged(ws: Seq<Widget>, tag: Seq<char>, i: int) -> bool {
    &&& 0 <= i < ws.len()
    &&& ws[i].tag@ == tag
    &&& forall|j: int| 0 <= j < i ==> (#[trigger] ws[j]).tag@ != tag
}

/// The first widget in `ws` with the tag `tag`.
pub open spec fn first_tagged(ws: Seq<Widget>, tag: Seq<char>) -> int {
    choose|i: int| is_first_tagged(ws, tag, i)
}

/// The error with which updating `tag` in `ws` is refused, if it is.
pub open spec fn update_error(ws: Seq<Widget>, tag: Seq<char>) -> Option<UpdateError> {
    if tag.len() == 0 {
        Some(UpdateError::InvalidTag)
    } else if !has_tag(ws, tag) {
        Some(UpdateError::UnknownTag)
    } else {
        None
    }
}

/// The widgets after updating `tag` to `content`: the first widget with
/// that tag gets the new content and keeps its place, alignment and
/// constraints; a refused update changes nothing.
pub open spec fn updated(ws: Seq<Widget>, tag: Seq<char>, content: Vec<Area>) -> Seq<Widget> {
    if update_error(ws, tag) is Some {
        ws
    } else {
        let i = first_tagged(ws, tag);
        ws.update(i, Widget { content: content, ..ws[i] })
    }
}

/// The widgets after a draw of `new`: exactly `new`, in its order.
pub open spec fn drawn(ws: Seq<Widget>, new: Seq<Widget>) -> Seq<Widget> {
    new
}

/// The outcome of a command on `ws`: the error that refuses it, if any.
pub open spec fn command_error(ws: Seq<Widget>, cmd: Command) -> Option<UpdateError> {
    match cmd {
        Command::Update(u) => update_error(ws, u.tag@),
        Command::Draw(_) => None,
    }
}

/// The widgets after a command.
pub open spec fn commanded(ws: Seq<Widget>, cmd: Command) -> Seq<Widget> {
    match cmd {
        Command::Update(u) => updated(ws, u.tag@, u.content),
        Command::Draw(d) => drawn(ws, d.widgets@),
    }
}

/// `Ok` where there is no error, else the error.
pub open spec fn outcome(e: Option<UpdateError>) -> Result<(), UpdateError> {
    match e {
        Some(e) => Err(e),
        None => Ok(()),
    }
}

proof fn lemma_first_tagged(ws: Seq<Widget>, tag: Seq<char>, i: int)
    requires
        is_first_tagged(ws, tag, i),
    ensures
        first_tagged(ws, tag) == i,
{
    let c = first_tagged(ws, tag);
    assert(is_first_tagged(ws, tag, c));
    if c < i {
        assert(ws[c].tag@ != tag);
    } else if i < c {
        assert(ws[i].tag@ != tag);
    }
}

/// The widgets currently on display, in paint order.
#[derive(Debug)]
pub struct WidgetStore {
    widgets: Vec<Widget>,
}

impl WidgetStore {
    pub closed spec fn view(&self) -> Seq<Widget> {
        self.widgets@
    }

    /// An empty store.
    pub fn new() -> (r: WidgetStore)
        ensures
            r.view().len() == 0,
    {
        WidgetStore { widgets: Vec::new() }
    }

    /// The widgets, in paint order.
    pub fn widgets(&self) -> (r: &Vec<Widget>)
        ensures
            r@ == self.view(),
    {
        &self.widgets
    }

    /// Discards every widget and installs `new` in its place.
    pub fn draw(&mut self, new: Vec<Widget>)
        ensures
            final(self).view() == drawn(old(self).view(), new@),
    {
        self.widgets = new;
    }

    /// Replaces the content of the first widget tagged `tag`. An empty tag
    /// is refused with `InvalidTag`, a tag that no widget has with
    /// `UnknownTag`; a refused update changes nothing.
    pub fn update(&mut self, tag: &String, content: Vec<Area>) -> (r: Result<(), UpdateError>)
        ensures
            r == outcome(update_error(old(self).view(), tag@)),
            final(self).view() == updated(old(self).view(), tag@, content),
    {
        if tag.as_str().is_empty() {
            return Err(UpdateError::InvalidTag);
        }
        let mut i: usize = 0;
        while i < self.widgets.len()
            invariant
                i <= self.widgets@.len(),
                self.widgets@ == old(self).widgets@,
                tag@.len() > 0,
                forall|j: int| 0 <= j < i ==> (#[trigger] self.widgets@[j]).tag@ != tag@,
            decreases self.widgets@.len() - i,
        {
            if self.widgets[i].tag == *tag {
                proof {
                    lemma_first_tagged(self.widgets@, tag@, i as int);
                    assert(has_tag(self.widgets@, tag@));
                }
                let ghost ws = self.widgets@;
                let mut w = self.widgets.remove(i);
                w.content = content;
                self.widgets.insert(i, w);
                assert(self.widgets@ =~= ws.update(i as int, Widget { content: content, ..ws[i as int] }));
                return Ok(());
            }
            i = i + 1;
        }
        Err(UpdateError::UnknownTag)
    }

    /// Carries out one command. `Ok` means that the widgets changed and a
    /// redraw is due; an error means that nothing changed.
    pub fn apply(&mut self, cmd: Command) -> (r: Result<(), UpdateError>)
        ensures
            r == outcome(command_error(old(self).view(), cmd)),
            final(self).view() == commanded(old(self).view(), cmd),
    {
        match cmd {
            Command::Update(u) => self.update(&u.tag, u.content),
            Command::Draw(d) => {
                self.draw(d.widgets);
                Ok(())
            },
        }
    }
}

/// Updating with an empty tag is refused and changes nothing.
pub proof fn lemma_untagged_update_refused(ws: Seq<Widget>, content: Vec<Area>)
    ensures
        update_error(ws, Seq::empty()) == Some(UpdateError::InvalidTag),
        updated(ws, Seq::empty(), content) == ws,
{
}

/// Updating a tag that no widget has is refused and changes nothing.
pub proof fn lemma_unknown_tag_update_refused(ws: Seq<Widget>, tag: Seq<char>, content: Vec<Area>)
    requires
        forall|i: int| 0 <= i < ws.len() ==> (#[trigger] ws[i]).tag@ != tag,
    ensures
        update_error(ws, tag) is Some,
        updated(ws, tag, content) == ws,
{
}

/// A draw discards what an earlier draw installed: two draws in a row
/// leave exactly the widgets of the second.
pub proof fn lemma_draw_replaces(ws: Seq<Widget>, first: Seq<Widget>, second: Seq<Widget>)
    ensures
        drawn(drawn(ws, first), second) == second,
{
}

/// A successful update keeps every widget's place, tag, alignment and
/// constraints, and changes only the content of the widget addressed.
pub proof fn lemma_update_keeps_shape(ws: Seq<Widget>, tag: Seq<char>, content: Vec<Area>)
    requires
        update_error(ws, tag) is None,
    ensures
        updated(ws, tag, content).len() == ws.len(),
        forall|i: int|
            0 <= i < ws.len() ==> {
                let w = #[trigger] updated(ws, tag, content)[i];
                &&& w.tag == ws[i].tag
                &&& w.alignment == ws[i].alignment
                &&& w.constraints == ws[i].constraints
                &&& (ws[i].tag@ != tag ==> w == ws[i])
            },
        exists|i: int| 0 <= i < ws.len() && (#[trigger] updated(ws, tag, content)[i]).content == content
            && ws[i].tag@ == tag,
{
    let f = choose|i: int| 0 <= i < ws.len() && (#[trigger] ws[i]).tag@ == tag;
    // the first widget with the tag exists
    assert(exists|i: int| is_first_tagged(ws, tag, i)) by {
        lemma_first_exists(ws, tag, f);
    }
    let i = first_tagged(ws, tag);
    assert(updated(ws, tag, content)[i].content == content);
}

proof fn lemma_first_exists(ws: Seq<Widget>, tag: Seq<char>, f: int)
    requires
        0 <= f < ws.len(),
        ws[f].tag@ == tag,
    ensures
        exists|i: int| is_first_tagged(ws, tag, i),
    decreases f,
{
    if exists|j: int| 0 <= j < f && (#[trigger] ws[j]).tag@ == tag {
        let j = choose|j: int| 0 <= j < f && (#[trigger] ws[j]).tag@ == tag;
        lemma_first_exists(ws, tag, j);
    } else {
        assert(is_first_tagged(ws, tag, f));
    }
}

} // verus!
