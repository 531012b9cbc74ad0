use vstd::prelude::*;
use crate::context::Context;

pub mod log_viewer;

pub use crate::windows::log_viewer::LogViewer;
use egui_tracing::EventCollector;

verus! {

/// A piece of text in a window, with the address it links to, if any.
#[derive(Clone, Copy, Debug, PartialEq, Eq)]
pub struct Segment {
    pub text: &'static str,
    pub link: Option<&'static str>,
}

/// The window that tells what the application is built with.
#[derive(Debug)]
pub struct AboutWindow {}

/// The configuration window.
#[derive(Debug)]
pub struct SettingsWindow {}

/// A window for diagnostics.
#[derive(Debug)]
pub struct DebugWindow {}

/// The line that the about window shows, piece by piece.
pub open spec fn about_line() -> Seq<(Seq<char>, Option<Seq<char>>)> {
    seq![
        ("Powered by "@, None),
        ("egui"@, Some("https://github.com/emilk/egui"@)),
        (" and "@, None),
        ("eframe"@, Some("https://github.com/emilk/egui/tree/master/crates/eframe"@)),
        ("."@, None),
    ]
}

/// The text and link of each segment.
pub open spec fn segments_view(s: Seq<Segment>) -> Seq<(Seq<char>, Option<Seq<char>>)> {
    s.map_values(
        |g: Segment|
            (
                g.text@,
                match g.link {
                    Some(l) => Some(l@),
                    None => None,
                },
            ),
    )
}

fn segment(text: &'static str, link: Option<&'static str>) -> (r: Segment)
    ensures
        r.text == text,
        r.link == link,
{
    Segment { text, link }
}

impl AboutWindow {
    pub fn new() -> (r: AboutWindow) {
        AboutWindow {}
    }

    /// What the window shows, in order: one line of text and links.
    pub fn ui(&mut self, cx: &mut Context) -> (r: Vec<Segment>)
        ensures
            segments_view(r@) == about_line(),
            *final(self) == *old(self),
            *final(cx) == *old(cx),
    {
        powered_by()
    }
}

/// The line that tells what the application is built with.
pub fn powered_by() -> (r: Vec<Segment>)
    ensures
        segments_view(r@) == about_line(),
{
    let mut v: Vec<Segment> = Vec::new();
    v.push(segment("Powered by ", None));
    v.push(segment("egui", Some("https://github.com/emilk/egui")));
    v.push(segment(" and ", None));
    v.push(segment("eframe", Some("https://github.com/emilk/egui/tree/master/crates/eframe")));
    v.push(segment(".", None));
    proof {
        assert(segments_view(v@) =~= about_line());
    }
    v
}

impl SettingsWindow {
    pub fn new() -> (r: SettingsWindow) {
        SettingsWindow {}
    }

    /// The heading of the window.
    pub fn ui(&mut self) -> (r: &'static str)
        ensures
            r@ == "Settings:"@,
    {
        "Settings:"
    }
}

impl DebugWindow {
    pub fn new() -> (r: DebugWindow) {
        DebugWindow {}
    }

    /// The heading of the window.
    pub fn ui(&mut self) -> (r: &'static str)
        ensures
            r@ == "Debug"@,
    {
        "Debug"
    }
}

} // verus!

verus! {

/// The windows of the registry, each with its own state.
#[derive(Debug)]
pub enum WindowKind {
    About(AboutWindow),
    Settings(SettingsWindow),
    LogViewer(LogViewer),
}

/// The menus that hold window toggles.
#[derive(Clone, Copy, Debug, PartialEq, Eq, Structural)]
pub enum WindowToggleButtonsLocations {
    File,
    Window,
    Help,
}

/// The registry of floating windows: one entry per kind, in the order of
/// `WindowKind`, each with its visibility.
#[derive(Debug)]
pub struct UniqueWindows {
    pub windows: Vec<(WindowKind, bool)>,
}

/// The number of window kinds.
pub const WINDOW_KINDS: usize = 3;

/// The position of a kind in the catalog.
pub open spec fn kind_index(k: WindowKind) -> int {
    match k {
        WindowKind::About(_) => 0,
        WindowKind::Settings(_) => 1,
        WindowKind::LogViewer(_) => 2,
    }
}

/// The menu that holds a kind's toggle.
pub open spec fn location_of(k: WindowKind) -> WindowToggleButtonsLocations {
    match k {
        WindowKind::About(_) => WindowToggleButtonsLocations::Help,
        WindowKind::Settings(_) => WindowToggleButtonsLocations::File,
        WindowKind::LogViewer(_) => WindowToggleButtonsLocations::Window,
    }
}

/// The title of a kind's window and toggle.
pub open spec fn title_of_kind(k: WindowKind) -> Seq<char> {
    match k {
        WindowKind::About(_) => "About"@,
        WindowKind::Settings(_) => "Settings"@,
        WindowKind::LogViewer(_) => "Log viewer"@,
    }
}

/// The longer description of a kind, shown on its toggle.
pub open spec fn detail_of_kind(k: WindowKind) -> Option<Seq<char>> {
    match k {
        WindowKind::Settings(_) => Some("Open configuration window"@),
        _ => None,
    }
}

/// `r` lists, in increasing order, exactly the indices below `n` at which
/// `p` holds.
pub open spec fn lists_exactly(r: Seq<usize>, n: int, p: spec_fn(int) -> bool) -> bool {
    &&& forall|a: int, b: int| 0 <= a < b < r.len() ==> r[a] < r[b]
    &&& forall|a: int| 0 <= a < r.len() ==> r[a] < n && p(r[a] as int)
    &&& forall|i: int| 0 <= i < n && #[trigger] p(i) ==> r.contains(i as usize)
}

impl WindowKind {
    /// The title of the window and of its toggle.
    pub fn get_message(&self) -> (r: &'static str)
        ensures
            r@ == title_of_kind(*self),
    {
        match self {
            WindowKind::About(_) => "About",
            WindowKind::Settings(_) => "Settings",
            WindowKind::LogViewer(_) => "Log viewer",
        }
    }

    /// The longer description, shown when hovering the toggle.
    pub fn get_detailed_message(&self) -> (r: Option<&'static str>)
        ensures
            r matches Some(s) ==> detail_of_kind(*self) == Some(s@),
            r is None <==> detail_of_kind(*self) is None,
    {
        match self {
            WindowKind::Settings(_) => Some("Open configuration window"),
            _ => None,
        }
    }

    /// Whether the kind's toggle sits in the menu `location`.
    pub fn is_at(&self, location: WindowToggleButtonsLocations) -> (r: bool)
        ensures
            r == (location_of(*self) == location),
    {
        match self {
            WindowKind::About(_) => location == WindowToggleButtonsLocations::Help,
            WindowKind::Settings(_) => location == WindowToggleButtonsLocations::File,
            WindowKind::LogViewer(_) => location == WindowToggleButtonsLocations::Window,
        }
    }
}

impl WindowKind {
    /// The position of the kind in the catalog.
    pub fn index(&self) -> (r: usize)
        ensures
            r == kind_index(*self),
    {
        match self {
            WindowKind::About(_) => 0,
            WindowKind::Settings(_) => 1,
            WindowKind::LogViewer(_) => 2,
        }
    }
}

impl UniqueWindows {
    /// One entry of each kind, in catalog order.
    pub open spec fn wf(&self) -> bool {
        &&& self.windows@.len() == WINDOW_KINDS
        &&& forall|i: int| 0 <= i < WINDOW_KINDS ==> kind_index(#[trigger] self.windows@[i].0) == i
    }

    /// The visibility of each entry.
    pub open spec fn visibility(&self) -> Seq<bool> {
        self.windows@.map_values(|w: (WindowKind, bool)| w.1)
    }

    /// The entries whose toggle sits in the menu `location`.
    pub open spec fn at_location(&self, location: WindowToggleButtonsLocations) -> spec_fn(int) -> bool {
        |i: int| location_of(self.windows@[i].0) == location
    }

    /// The entries that are visible.
    pub open spec fn is_open(&self) -> spec_fn(int) -> bool {
        |i: int| self.windows@[i].1
    }

    /// The same kinds in the same places as `other`.
    pub open spec fn same_kinds(&self, other: &UniqueWindows) -> bool {
        &&& self.windows@.len() == other.windows@.len()
        &&& forall|i: int|
            0 <= i < self.windows@.len() ==> #[trigger] kind_index(self.windows@[i].0)
                == kind_index(other.windows@[i].0)
    }

    /// Every window of the catalog, hidden.
    pub fn new() -> (r: UniqueWindows)
        ensures
            r.wf(),
            r.visibility() == seq![false, false, false],
    {
        let mut windows: Vec<(WindowKind, bool)> = Vec::new();
        windows.push((WindowKind::About(AboutWindow::new()), false));
        windows.push((WindowKind::Settings(SettingsWindow::new()), false));
        windows.push((WindowKind::LogViewer(LogViewer::new()), false));
        let r = UniqueWindows { windows };
        proof {
            assert(r.visibility() =~= seq![false, false, false]);
        }
        r
    }

    /// The number of entries.
    pub fn len(&self) -> (r: usize)
        ensures
            r == self.windows@.len(),
    {
        self.windows.len()
    }

    /// Whether the entry `i` is visible.
    pub fn is_visible(&self, i: usize) -> (r: bool)
        requires
            i < self.windows@.len(),
        ensures
            r == self.windows@[i as int].1,
    {
        self.windows[i].1
    }

    /// The title of the entry `i`.
    pub fn title(&self, i: usize) -> (r: &'static str)
        requires
            i < self.windows@.len(),
        ensures
            r@ == title_of_kind(self.windows@[i as int].0),
    {
        self.windows[i].0.get_message()
    }

    /// The hover text of the entry `i`, if it has one.
    pub fn detail(&self, i: usize) -> (r: Option<&'static str>)
        requires
            i < self.windows@.len(),
        ensures
            r matches Some(s) ==> detail_of_kind(self.windows@[i as int].0) == Some(s@),
            r is None <==> detail_of_kind(self.windows@[i as int].0) is None,
    {
        self.windows[i].0.get_detailed_message()
    }

    /// The entries whose toggles the menu `location` shows, in order.
    pub fn buttons(&self, location: WindowToggleButtonsLocations) -> (r: Vec<usize>)
        ensures
            lists_exactly(r@, self.windows@.len() as int, self.at_location(location)),
    {
        let mut r: Vec<usize> = Vec::new();
        let mut i: usize = 0;
        while i < self.windows.len()
            invariant
                i <= self.windows@.len(),
                forall|a: int, b: int| 0 <= a < b < r@.len() ==> r@[a] < r@[b],
                forall|a: int|
                    0 <= a < r@.len() ==> r@[a] < i && (self.at_location(location))(r@[a] as int),
                forall|j: int|
                    0 <= j < i && #[trigger] (self.at_location(location))(j) ==> r@.contains(j as usize),
            decreases self.windows@.len() - i,
        {
            if self.windows[i].0.is_at(location) {
                let ghost before = r@;
                r.push(i);
                proof {
                    assert forall|j: int|
                        0 <= j < i && #[trigger] (self.at_location(location))(j) implies r@.contains(
                            j as usize,
                        ) by {
                        let k = choose|k: int| 0 <= k < before.len() && before[k] == j as usize;
                        assert(r@[k] == j as usize);
                    }
                    assert(r@[r@.len() - 1] == i);
                }
            }
            i += 1;
        }
        r
    }

    /// Applies a menu's toggles: `clicked[k]` tells whether the k-th toggle
    /// that `buttons(location)` lists was clicked, and a click flips that
    /// window's visibility. Returns whether any toggle was clicked.
    pub fn toggle_buttons(&mut self, location: WindowToggleButtonsLocations, clicked: &Vec<bool>) -> (r: bool)
        ensures
            final(self).same_kinds(old(self)),
            final(self).wf() == old(self).wf(),
            exists|b: Seq<usize>|
                #![trigger lists_exactly(b, old(self).windows@.len() as int, old(self).at_location(location))]
                lists_exactly(b, old(self).windows@.len() as int, old(self).at_location(location))
                && final(self).visibility() == toggled(old(self).visibility(), b, clicked@)
                && r == clicked_any(b, clicked@),
    {
        let b = self.buttons(location);
        let ghost v0 = self.visibility();
        let mut any = false;
        let mut k: usize = 0;
        while k < b.len()
            invariant
                lists_exactly(b@, old(self).windows@.len() as int, old(self).at_location(location)),
                v0 == old(self).visibility(),
                self.same_kinds(old(self)),
                self.wf() == old(self).wf(),
                k <= b@.len(),
                self.visibility() == toggled(v0, b@.take(k as int), clicked@),
                any == clicked_any(b@.take(k as int), clicked@),
            decreases b@.len() - k,
        {
            let i = b[k];
            let hit = k < clicked.len() && clicked[k];
            if hit {
                let v = self.windows[i].1;
                self.set_visible(i, !v);
                any = true;
            }
            proof {
                lemma_toggled_step(v0, b@, clicked@, k as int);
                assert(b@.take(k as int + 1) =~= b@.take(k as int).push(b@[k as int]));
            }
            k += 1;
        }
        proof {
            assert(b@.take(b@.len() as int) =~= b@);
        }
        any
    }

    /// Sets the visibility of the entry `i`, as its window's chrome or its
    /// toggle does.
    pub fn set_visible(&mut self, i: usize, visible: bool)
        requires
            i < old(self).windows@.len(),
        ensures
            final(self).same_kinds(old(self)),
            final(self).wf() == old(self).wf(),
            final(self).visibility() == old(self).visibility().update(i as int, visible),
    {
        let mut entry = (WindowKind::About(AboutWindow::new()), false);
        std::mem::swap(&mut entry, &mut self.windows[i]);
        entry.1 = visible;
        std::mem::swap(&mut entry, &mut self.windows[i]);
        proof {
            assert(self.visibility() =~= old(self).visibility().update(i as int, visible));
            assert forall|j: int| 0 <= j < self.windows@.len() implies #[trigger] kind_index(self.windows@[j].0)
                == kind_index(old(self).windows@[j].0) by {}
            if old(self).wf() {
                assert forall|j: int| 0 <= j < WINDOW_KINDS implies kind_index(#[trigger] self.windows@[j].0) == j by {
                    assert(kind_index(old(self).windows@[j].0) == j);
                }
            }
            if self.wf() {
                assert forall|j: int| 0 <= j < WINDOW_KINDS implies kind_index(#[trigger] old(self).windows@[j].0) == j by {
                    assert(kind_index(self.windows@[j].0) == j);
                }
            }
        }
    }

    /// The entries whose windows are shown this frame, in order.
    pub fn show_open_windows(&self) -> (r: Vec<usize>)
        ensures
            lists_exactly(r@, self.windows@.len() as int, self.is_open()),
    {
        let mut r: Vec<usize> = Vec::new();
        let mut i: usize = 0;
        while i < self.windows.len()
            invariant
                i <= self.windows@.len(),
                forall|a: int, b: int| 0 <= a < b < r@.len() ==> r@[a] < r@[b],
                forall|a: int| 0 <= a < r@.len() ==> r@[a] < i && (self.is_open())(r@[a] as int),
                forall|j: int| 0 <= j < i && #[trigger] (self.is_open())(j) ==> r@.contains(j as usize),
            decreases self.windows@.len() - i,
        {
            if self.windows[i].1 {
                let ghost before = r@;
                r.push(i);
                proof {
                    assert forall|j: int| 0 <= j < i && #[trigger] (self.is_open())(j) implies r@.contains(
                        j as usize,
                    ) by {
                        let k = choose|k: int| 0 <= k < before.len() && before[k] == j as usize;
                        assert(r@[k] == j as usize);
                    }
                    assert(r@[r@.len() - 1] == i);
                }
            }
            i += 1;
        }
        r
    }
}

/// Visibility after the toggles `b` were applied in turn, the k-th one
/// flipping its entry where `clicked[k]` holds.
pub open spec fn toggled(v: Seq<bool>, b: Seq<usize>, clicked: Seq<bool>) -> Seq<bool>
    decreases b.len(),
{
    if b.len() == 0 {
        v
    } else {
        let k = b.len() - 1;
        let w = toggled(v, b.take(k), clicked);
        if k < clicked.len() && clicked[k] {
            w.update(b[k] as int, !w[b[k] as int])
        } else {
            w
        }
    }
}

/// Whether any of the toggles `b` was clicked.
pub open spec fn clicked_any(b: Seq<usize>, clicked: Seq<bool>) -> bool {
    exists|k: int| 0 <= k < b.len() && k < clicked.len() && clicked[k]
}

proof fn lemma_toggled_step(v: Seq<bool>, b: Seq<usize>, clicked: Seq<bool>, k: int)
    requires
        0 <= k < b.len(),
    ensures
        toggled(v, b.take(k + 1), clicked) == {
            let w = toggled(v, b.take(k), clicked);
            if k < clicked.len() && clicked[k] {
                w.update(b[k] as int, !w[b[k] as int])
            } else {
                w
            }
        },
        clicked_any(b.take(k + 1), clicked) == (clicked_any(b.take(k), clicked) || (k
            < clicked.len() && clicked[k])),
{
    assert(b.take(k + 1).take(k) =~= b.take(k));
    if clicked_any(b.take(k + 1), clicked) {
        let j = choose|j: int| 0 <= j < k + 1 && j < clicked.len() && clicked[j];
        if j < k {
            assert(0 <= j < b.take(k).len());
        }
    }
}


impl Default for UniqueWindows {
    fn default() -> (r: UniqueWindows)
        ensures
            r.wf(),
            r.visibility() == seq![false, false, false],
    {
        UniqueWindows::new()
    }
}

impl UniqueWindows {
    /// Whether the registry holds one entry of each kind, in catalog order.
    pub fn is_complete(&self) -> (r: bool)
        ensures
            r == self.wf(),
    {
        if self.windows.len() != WINDOW_KINDS {
            return false;
        }
        let mut i: usize = 0;
        while i < WINDOW_KINDS
            invariant
                self.windows@.len() == WINDOW_KINDS,
                i <= WINDOW_KINDS,
                forall|j: int| 0 <= j < i ==> kind_index(#[trigger] self.windows@[j].0) == j,
            decreases WINDOW_KINDS - i,
        {
            if self.windows[i].0.index() != i {
                return false;
            }
            i += 1;
        }
        true
    }

    /// A registry restored from saved state: kept where it holds one entry
    /// of each kind in catalog order, else replaced by a fresh one, every
    /// window hidden, since the catalog changed since it was saved.
    pub fn restored(self) -> (r: UniqueWindows)
        ensures
            r.wf(),
            self.wf() ==> r == self,
            !self.wf() ==> r.visibility() == seq![false, false, false],
    {
        if self.is_complete() {
            self
        } else {
            UniqueWindows::new()
        }
    }

    /// Hands the log collector to the log viewer, once the registry is
    /// restored: the collector is not saved with it.
    pub fn set_collector(&mut self, event_collector: EventCollector)
        requires
            old(self).wf(),
        ensures
            final(self).wf(),
            final(self).visibility() == old(self).visibility(),
            final(self).windows@[2].0 matches WindowKind::LogViewer(l) && l.collector()
                == event_collector,
            forall|j: int| 0 <= j < 2 ==> #[trigger] final(self).windows@[j] == old(self).windows@[j],
    {
        let mut entry = (WindowKind::About(AboutWindow::new()), false);
        std::mem::swap(&mut entry, &mut self.windows[2]);
        let (kind, visible) = entry;
        let mut kind = kind;
        match &mut kind {
            WindowKind::LogViewer(l) => l.set_collector(event_collector),
            _ => {},
        }
        let mut entry = (kind, visible);
        std::mem::swap(&mut entry, &mut self.windows[2]);
        proof {
            assert(self.visibility() =~= old(self).visibility());
            assert(kind_index(self.windows@[2].0) == 2);
        }
    }
}


proof fn lemma_toggled_at(v: Seq<bool>, b: Seq<usize>, clicked: Seq<bool>, i: int)
    requires
        forall|a: int, c: int| 0 <= a < c < b.len() ==> b[a] < b[c],
        forall|a: int| 0 <= a < b.len() ==> b[a] < v.len(),
        0 <= i < v.len(),
    ensures
        toggled(v, b, clicked).len() == v.len(),
        toggled(v, b, clicked)[i] == if exists|k: int|
            0 <= k < b.len() && b[k] == i && k < clicked.len() && clicked[k] {
            !v[i]
        } else {
            v[i]
        },
    decreases b.len(),
{
    if b.len() > 0 {
        let k = b.len() - 1;
        let t = b.take(k);
        lemma_toggled_at(v, t, clicked, i);
        lemma_toggled_at(v, t, clicked, b[k] as int);
        if exists|j: int| 0 <= j < b.len() && b[j] == i && j < clicked.len() && clicked[j] {
            let j = choose|j: int| 0 <= j < b.len() && b[j] == i && j < clicked.len() && clicked[j];
            if j < k {
                assert(t[j] == i);
            }
        }
        if exists|j: int| 0 <= j < t.len() && t[j] == i && j < clicked.len() && clicked[j] {
            let j = choose|j: int| 0 <= j < t.len() && t[j] == i && j < clicked.len() && clicked[j];
            assert(b[j] == i);
        }
    }
}

/// A window's visibility has a single source. A click on a menu toggle
/// flips the flag that decides whether the window is shown next; and a
/// window whose chrome was closed is neither shown nor read as on by its
/// toggle.
pub proof fn lemma_visibility_single_source(
    before: UniqueWindows,
    after: UniqueWindows,
    location: WindowToggleButtonsLocations,
    buttons: Seq<usize>,
    clicked: Seq<bool>,
    k: int,
    shown: Seq<usize>,
)
    requires
        lists_exactly(buttons, before.windows@.len() as int, before.at_location(location)),
        after.visibility() == toggled(before.visibility(), buttons, clicked),
        0 <= k < buttons.len(),
        k < clicked.len(),
        clicked[k],
        lists_exactly(shown, after.windows@.len() as int, after.is_open()),
    ensures
        shown.contains(buttons[k]) <==> !before.windows@[buttons[k] as int].1,
        after.windows@[buttons[k] as int].1 <==> !before.windows@[buttons[k] as int].1,
{
    let i = buttons[k] as int;
    let v = before.visibility();
    assert(v.len() == before.windows@.len());
    lemma_toggled_at(v, buttons, clicked, i);
    assert forall|j: int| 0 <= j < buttons.len() && buttons[j] == i implies j == k by {
        if j < k {
            assert(buttons[j] < buttons[k]);
        } else if j > k {
            assert(buttons[k] < buttons[j]);
        }
    }
    assert(after.visibility()[i] == after.windows@[i].1);
    assert(v[i] == before.windows@[i].1);
    if shown.contains(i as usize) {
        let a = choose|a: int| 0 <= a < shown.len() && shown[a] == i as usize;
        assert((after.is_open())(shown[a] as int));
    }
    if after.windows@[i].1 {
        assert((after.is_open())(i));
    }
}

/// A window closed from its chrome is not shown, and its toggle reads off.
pub proof fn lemma_closed_window_hidden(w: UniqueWindows, i: usize, shown: Seq<usize>)
    requires
        i < w.windows@.len(),
        w.visibility()[i as int] == false,
        lists_exactly(shown, w.windows@.len() as int, w.is_open()),
    ensures
        !shown.contains(i),
        !w.windows@[i as int].1,
{
    assert(w.visibility()[i as int] == w.windows@[i as int].1);
    if shown.contains(i) {
        let a = choose|a: int| 0 <= a < shown.len() && shown[a] == i;
        assert((w.is_open())(shown[a] as int));
    }
}

} // verus!
