use vstd::prelude::*;
use crate::context::Context;
use crate::layout::{TileEntry, TileModel, add_child, children_of, has_room, is_container, tiles_of, tiles_wf, get_tile};
use crate::tabs::{TabA, TabKind};
use crate::tabs::{Tab, pane_label};
use egui_tiles::{SimplificationOptions, TileId, Tiles};

verus! {

#[verifier::external_type_specification]
pub struct ExSimplificationOptions(egui_tiles::SimplificationOptions);

/// The simplification policy of a fresh workspace: empty containers are
/// pruned and every pane sits in a tabs container; single children are not
/// collapsed and nested linear containers are not joined.
pub open spec fn default_policy(o: SimplificationOptions) -> bool {
    &&& o.prune_empty_tabs
    &&& o.prune_empty_containers
    &&& !o.prune_single_child_tabs
    &&& !o.prune_single_child_containers
    &&& o.all_panes_must_have_tabs
    &&& !o.join_nested_linear_containers
}

/// What the layout tree asks of the application: titles, closability, the
/// simplification policy, and the pending request to add a child to a
/// container.
pub struct TreeBehavior {
    pub simplification_options: SimplificationOptions,
    pub add_child_to: Option<TileId>,
    pub cx: Option<Context>,
    pub show_view_numbers: bool,
}

/// Whether the tile `id` of `m` may be closed from its tab: a pane may, a
/// container may not, and a missing tile counts as already gone.
pub open spec fn closable(m: Map<u64, TileModel>, id: u64) -> bool {
    match m.get(id) {
        Some(TileModel::Container(_, _)) => false,
        _ => true,
    }
}

impl TreeBehavior {
    pub fn new() -> (r: TreeBehavior)
        ensures
            default_policy(r.simplification_options),
            r.add_child_to is None,
            r.cx is None,
            !r.show_view_numbers,
    {
        TreeBehavior {
            simplification_options: SimplificationOptions {
                prune_empty_tabs: true,
                prune_empty_containers: true,
                prune_single_child_tabs: false,
                prune_single_child_containers: false,
                all_panes_must_have_tabs: true,
                join_nested_linear_containers: false,
            },
            add_child_to: None,
            cx: None,
            show_view_numbers: false,
        }
    }

    /// Attaches the shared context, which is not persisted with the layout.
    pub fn feed_cx(&mut self, cx: Context)
        ensures
            final(self).cx == Some(cx),
            final(self).simplification_options == old(self).simplification_options,
            final(self).add_child_to == old(self).add_child_to,
            final(self).show_view_numbers == old(self).show_view_numbers,
    {
        self.cx = Some(cx);
    }

    /// The text on a pane's tab.
    pub fn tab_title_for_pane(&self, view: &Tab) -> (r: String)
        ensures
            r@ == pane_label(self.show_view_numbers, *view),
    {
        view.label(self.show_view_numbers)
    }

    pub fn is_tab_closable(&self, tiles: &Tiles<Tab>, tile_id: TileId) -> (r: bool)
        ensures
            r == closable(tiles_of(*tiles), tile_id.0),
    {
        match get_tile(tiles, tile_id) {
            Some(TileEntry::Pane(tab)) => tab.is_closeable(),
            Some(TileEntry::Container(_, _)) => false,
            None => true,
        }
    }

    /// Called before a tile is removed; removal is never vetoed.
    pub fn on_tab_close(&mut self, tiles: &Tiles<Tab>, tile_id: TileId) -> (r: bool)
        ensures
            r,
            *final(self) == *old(self),
    {
        true
    }

    /// The add button on the tab bar of `tile_id` was clicked.
    pub fn request_add_child(&mut self, tile_id: TileId)
        ensures
            final(self).add_child_to == Some(tile_id),
            final(self).simplification_options == old(self).simplification_options,
            final(self).cx == old(self).cx,
            final(self).show_view_numbers == old(self).show_view_numbers,
    {
        self.add_child_to = Some(tile_id);
    }

    /// Hands out the pending add request and clears it, so that it is
    /// handled once.
    pub fn take_add_child(&mut self) -> (r: Option<TileId>)
        ensures
            r == old(self).add_child_to,
            final(self).add_child_to is None,
            final(self).simplification_options == old(self).simplification_options,
            final(self).cx == old(self).cx,
            final(self).show_view_numbers == old(self).show_view_numbers,
    {
        let r = self.add_child_to;
        self.add_child_to = None;
        r
    }

    pub fn simplification_options(&self) -> (r: SimplificationOptions)
        ensures
            r == self.simplification_options,
    {
        self.simplification_options
    }
}

impl Default for TreeBehavior {
    fn default() -> (r: TreeBehavior)
        ensures
            default_policy(r.simplification_options),
            r.add_child_to is None,
            r.cx is None,
            !r.show_view_numbers,
    {
        TreeBehavior::new()
    }
}

/// Handles the pending add request once: a new text pane numbered `nr`
/// becomes the last child of the requested container. A request for a tile
/// that is no container is dropped. The request is cleared either way.
pub fn add_requested_child(behavior: &mut TreeBehavior, tiles: &mut Tiles<Tab>, nr: usize) -> (r: Option<TileId>)
    requires
        has_room(*old(tiles)),
    ensures
        final(behavior).add_child_to is None,
        final(behavior).simplification_options == old(behavior).simplification_options,
        final(behavior).cx == old(behavior).cx,
        final(behavior).show_view_numbers == old(behavior).show_view_numbers,
        tiles_wf(tiles_of(*old(tiles))) ==> tiles_wf(tiles_of(*final(tiles))),
        r is Some <==> (old(behavior).add_child_to matches Some(p) && is_container(tiles_of(*old(tiles)), p.0)),
        r is None ==> tiles_of(*final(tiles)) == tiles_of(*old(tiles)),
        r matches Some(id) ==> {
            let p = old(behavior).add_child_to->Some_0.0;
            let m = tiles_of(*old(tiles));
            &&& !m.contains_key(id.0)
            &&& tiles_of(*final(tiles))[id.0] matches TileModel::Pane(t) && t.nr == nr && t.kind is TabA
            &&& tiles_of(*final(tiles)) == m.insert(id.0, tiles_of(*final(tiles))[id.0]).insert(
                p,
                TileModel::Container(m[p]->Container_0, children_of(m, p).push(id.0)),
            )
        },
{
    match behavior.take_add_child() {
        Some(parent) => add_child(tiles, parent, Tab::new(TabKind::TabA(TabA::new()), nr)),
        None => None,
    }
}

} // verus!
