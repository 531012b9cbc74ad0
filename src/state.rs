use vstd::prelude::*;
use crate::behavior::{TreeBehavior, add_requested_child, default_policy};
use crate::context::Context;
use crate::layout::{
    TileModel, children_of, default_tiles, has_parent, has_room, is_default_layout, panes_under_tabs,
    tiles_of, tiles_wf,
};
use crate::tabs::Tab;
use crate::windows::UniqueWindows;
use egui_tiles::{TileId, Tiles};
use egui_tracing::EventCollector;

verus! {

/// The application's state: the layout's tiles and root, the behavior of
/// the tree, the side panel's switch, the window registry, and the number
/// that the next new pane gets.
///
/// The context and the log collector are live handles: they are not saved,
/// and `reattach` hands them over again after a load.
pub struct State {
    pub tiles: Tiles<Tab>,
    pub root: Option<TileId>,
    pub tabs_behavior: TreeBehavior,
    pub side_panel_expanded: bool,
    pub windows: UniqueWindows,
    pub next_view_nr: usize,
}

impl State {
    /// The tiles form a well-formed forest whose root, if any, is a tile
    /// under no container, and the registry holds one entry of each kind.
    pub open spec fn wf(&self) -> bool {
        &&& tiles_wf(tiles_of(self.tiles))
        &&& self.root matches Some(r) ==> tiles_of(self.tiles).contains_key(r.0) && !has_parent(
            tiles_of(self.tiles),
            r.0,
        )
        &&& self.windows.wf()
    }

    /// The state of a fresh workspace, but for the live handles: the
    /// default layout, the default behavior with no pending request, the
    /// side panel open, every window hidden, and 3 as the next pane number.
    pub open spec fn is_fresh(&self) -> bool {
        &&& self.wf()
        &&& self.root matches Some(r) && is_default_layout(tiles_of(self.tiles), r.0)
        &&& panes_under_tabs(tiles_of(self.tiles))
        &&& default_policy(self.tabs_behavior.simplification_options)
        &&& self.tabs_behavior.add_child_to is None
        &&& !self.tabs_behavior.show_view_numbers
        &&& self.side_panel_expanded
        &&& self.windows.visibility() == seq![false, false, false]
        &&& self.next_view_nr == 3
    }

    /// A fresh workspace, with no context attached yet.
    pub fn new() -> (r: State)
        ensures
            r.is_fresh(),
            r.tabs_behavior.cx is None,
    {
        let (tiles, root) = default_tiles();
        State {
            tiles,
            root: Some(root),
            tabs_behavior: TreeBehavior::new(),
            side_panel_expanded: true,
            windows: UniqueWindows::new(),
            next_view_nr: 3,
        }
    }

    /// Hands the live handles to a state just loaded or reset: the registry
    /// is first rebuilt if it no longer matches the catalog.
    pub fn reattach(&mut self, cx: Context, event_collector: EventCollector)
        ensures
            old(self).is_fresh() ==> final(self).is_fresh(),
            old(self).wf() ==> final(self).wf(),
            final(self).windows.wf(),
            old(self).windows.wf() ==> final(self).windows.visibility() == old(self).windows.visibility(),
            !old(self).windows.wf() ==> final(self).windows.visibility() == seq![false, false, false],
            final(self).windows.windows@[2].0 matches crate::windows::WindowKind::LogViewer(l)
                && l.collector() == event_collector,
            final(self).tabs_behavior.cx == Some(cx),
            final(self).tabs_behavior.simplification_options == old(self).tabs_behavior.simplification_options,
            final(self).tabs_behavior.add_child_to == old(self).tabs_behavior.add_child_to,
            final(self).tabs_behavior.show_view_numbers == old(self).tabs_behavior.show_view_numbers,
            final(self).tiles == old(self).tiles,
            final(self).root == old(self).root,
            final(self).side_panel_expanded == old(self).side_panel_expanded,
            final(self).next_view_nr == old(self).next_view_nr,
    {
        let mut windows = UniqueWindows::new();
        std::mem::swap(&mut windows, &mut self.windows);
        let mut windows = windows.restored();
        windows.set_collector(event_collector);
        self.windows = windows;
        self.tabs_behavior.feed_cx(cx);
    }

    /// Handles the pending add request once: a new text pane, numbered next,
    /// joins the requested container. The request is cleared either way.
    pub fn handle_add_request(&mut self) -> (r: Option<TileId>)
        requires
            has_room(old(self).tiles),
            old(self).next_view_nr < usize::MAX,
        ensures
            old(self).wf() ==> final(self).wf(),
            final(self).tabs_behavior.add_child_to is None,
            final(self).root == old(self).root,
            r is Some <==> (old(self).tabs_behavior.add_child_to matches Some(p)
                && tiles_of(old(self).tiles).contains_key(p.0) && tiles_of(old(self).tiles)[p.0] is Container),
            r is None ==> tiles_of(final(self).tiles) == tiles_of(old(self).tiles)
                && final(self).next_view_nr == old(self).next_view_nr,
            r matches Some(id) ==> {
                let p = old(self).tabs_behavior.add_child_to->Some_0.0;
                let m = tiles_of(old(self).tiles);
                &&& !m.contains_key(id.0)
                &&& tiles_of(final(self).tiles)[id.0] matches TileModel::Pane(t) && t.nr
                    == old(self).next_view_nr && t.kind is TabA
                &&& tiles_of(final(self).tiles) == m.insert(id.0, tiles_of(final(self).tiles)[id.0]).insert(
                    p,
                    TileModel::Container(m[p]->Container_0, children_of(m, p).push(id.0)),
                )
                &&& final(self).next_view_nr == old(self).next_view_nr + 1
            },
    {
        let r = add_requested_child(&mut self.tabs_behavior, &mut self.tiles, self.next_view_nr);
        if r.is_some() {
            self.next_view_nr = self.next_view_nr + 1;
        }
        proof {
            let m = tiles_of(old(self).tiles);
            let m2 = tiles_of(self.tiles);
            if old(self).wf() {
            match self.root {
                Some(root) => {
                    assert(m2.contains_key(root.0));
                    if has_parent(m2, root.0) {
                        let (q, i) = choose|q: u64, i: int|
                            #![trigger children_of(m2, q)[i]]
                            m2.contains_key(q) && 0 <= i < children_of(m2, q).len()
                                && children_of(m2, q)[i] == root.0;
                        if r is Some {
                            let id = r->Some_0;
                            let p = old(self).tabs_behavior.add_child_to->Some_0.0;
                            if q == p && i == children_of(m, p).len() {
                                assert(root.0 == id.0);
                            } else if q == p {
                                assert(children_of(m, q)[i] == root.0);
                            } else {
                                assert(children_of(m, q)[i] == root.0);
                            }
                        } else {
                            assert(children_of(m, q)[i] == root.0);
                        }
                    }
                },
                None => {},
            }
            }
        }
        r
    }
}

impl Default for State {
    fn default() -> (r: State)
        ensures
            r.is_fresh(),
            r.tabs_behavior.cx is None,
    {
        State::new()
    }
}

} // verus!
