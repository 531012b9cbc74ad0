use vstd::prelude::*;

pub mod log_viewer;
use crate::context::Context;
use crate::text::{decimal, push_decimal, push_str};
use crate::windows::{Segment, about_line, powered_by, segments_view};

verus! {

/// A single-line text editor pane.
#[derive(Debug)]
pub struct TabA {
    pub s: String,
}

/// A slider pane. The slider's value is held as the bit pattern of an
/// IEEE-754 single, which the drawing side reads and writes.
#[derive(Debug)]
pub struct TabB {
    pub a: u32,
}

/// A pane that tells what the application is built with.
#[derive(Debug)]
pub struct TabAbout {}

/// The content of a pane.
#[derive(Debug)]
pub enum TabKind {
    TabA(TabA),
    TabB(TabB),
}

/// A pane of the layout tree: its content and its number in creation order.
#[derive(Debug)]
pub struct Tab {
    pub kind: TabKind,
    pub nr: usize,
}

/// Which variant a tab's content is.
pub open spec fn is_tab_a(kind: TabKind) -> bool {
    kind is TabA
}

/// The title of a pane, by its content.
pub open spec fn title_of(kind: TabKind) -> Seq<char> {
    match kind {
        TabKind::TabA(_) => "Tab A"@,
        TabKind::TabB(_) => "Tab B"@,
    }
}

/// The title shown on a pane's tab: the title, led by the pane's number
/// and a colon when view numbers are shown.
pub open spec fn pane_label(show_view_numbers: bool, tab: Tab) -> Seq<char> {
    if show_view_numbers {
        decimal(tab.nr as nat) + ": "@ + title_of(tab.kind)
    } else {
        title_of(tab.kind)
    }
}

impl TabA {
    pub fn new() -> (r: TabA)
        ensures
            r.s@ == Seq::<char>::empty(),
    {
        TabA { s: String::new() }
    }

    pub fn title(&self) -> (r: &'static str)
        ensures
            r@ == "Tab A"@,
    {
        "Tab A"
    }

    pub fn is_closeable(&self) -> (r: bool)
        ensures
            r,
    {
        true
    }
}

impl TabB {
    pub fn new() -> (r: TabB)
        ensures
            r.a == 0,
    {
        TabB { a: 0 }
    }

    pub fn title(&self) -> (r: &'static str)
        ensures
            r@ == "Tab B"@,
    {
        "Tab B"
    }

    pub fn is_closeable(&self) -> (r: bool)
        ensures
            r,
    {
        true
    }
}

impl TabAbout {
    pub fn new() -> (r: TabAbout) {
        TabAbout {}
    }

    pub fn title(&self) -> (r: &'static str)
        ensures
            r@ == "About"@,
    {
        "About"
    }

    /// What the pane shows, in order: one line of text and links.
    pub fn ui(&mut self, cx: &mut Context) -> (r: Vec<Segment>)
        ensures
            segments_view(r@) == about_line(),
            *final(self) == *old(self),
            *final(cx) == *old(cx),
    {
        powered_by()
    }
}

impl TabKind {
    /// The name of the variant, as debug output shows it.
    pub fn variant_name(&self) -> (r: &'static str)
        ensures
            r@ == (if is_tab_a(*self) { "TabA"@ } else { "TabB"@ }),
    {
        match self {
            TabKind::TabA(_) => "TabA",
            TabKind::TabB(_) => "TabB",
        }
    }
}

impl Tab {
    pub fn new(kind: TabKind, nr: usize) -> (r: Tab)
        ensures
            r.kind == kind,
            r.nr == nr,
    {
        Tab { kind, nr }
    }

    pub fn title(&self) -> (r: &'static str)
        ensures
            r@ == title_of(self.kind),
    {
        match &self.kind {
            TabKind::TabA(t) => t.title(),
            TabKind::TabB(t) => t.title(),
        }
    }

    pub fn is_closeable(&self) -> (r: bool)
        ensures
            r,
    {
        match &self.kind {
            TabKind::TabA(t) => t.is_closeable(),
            TabKind::TabB(t) => t.is_closeable(),
        }
    }

    /// The text on this pane's tab.
    pub fn label(&self, show_view_numbers: bool) -> (r: String)
        ensures
            r@ == pane_label(show_view_numbers, *self),
    {
        let mut s = String::new();
        if show_view_numbers {
            push_decimal(&mut s, self.nr);
            push_str(&mut s, ": ");
        }
        push_str(&mut s, self.title());
        proof {
            reveal_strlit(": ");
            assert(s@ =~= pane_label(show_view_numbers, *self));
        }
        s
    }
}

} // verus!
