use eframe_template::state::State;
use eframe_template::tabs::TabKind;
use eframe_template::windows::{AboutWindow, UniqueWindows, WindowKind};
use eframe_template::Context;
use egui_tiles::{Tile, TileId};

fn root_children(s: &State) -> Vec<TileId> {
    match s.tiles.get(s.root.unwrap()) {
        Some(Tile::Container(c)) => c.children().copied().collect(),
        _ => panic!("root is a container"),
    }
}

#[test]
fn fresh_state() {
    let s = State::default();
    assert_eq!(s.tiles.len(), 4);
    assert_eq!(root_children(&s).len(), 3);
    assert!(s.side_panel_expanded);
    assert_eq!(s.next_view_nr, 3);
    assert!(s.windows.show_open_windows().is_empty());
    assert!(s.tabs_behavior.cx.is_none());
}

#[test]
fn reattach_rebuilds_a_stale_registry() {
    let mut s = State::new();
    s.windows = UniqueWindows {
        windows: vec![(WindowKind::About(AboutWindow::new()), true)],
    };
    s.reattach(Context::new(), egui_tracing::EventCollector::new());
    assert_eq!(s.windows.len(), 3);
    assert!(s.windows.show_open_windows().is_empty());
    assert!(s.tabs_behavior.cx.is_some());
    assert_eq!(s.tiles.len(), 4);
}

#[test]
fn reattach_keeps_a_matching_registry() {
    let mut s = State::new();
    s.windows.set_visible(0, true);
    s.reattach(Context::new(), egui_tracing::EventCollector::new());
    assert_eq!(s.windows.show_open_windows(), vec![0]);
}

#[test]
fn add_request_numbers_new_panes() {
    let mut s = State::new();
    let root = s.root.unwrap();
    s.tabs_behavior.request_add_child(root);
    let id = s.handle_add_request().unwrap();
    assert_eq!(s.next_view_nr, 4);
    assert_eq!(root_children(&s).last(), Some(&id));
    match s.tiles.get(id) {
        Some(Tile::Pane(t)) => assert_eq!(t.nr, 3),
        _ => panic!("a pane was added"),
    }
    assert!(s.handle_add_request().is_none());
    assert_eq!(s.next_view_nr, 4);
    assert_eq!(s.tiles.len(), 5);
}

#[test]
fn fresh_state_layout_and_behavior() {
    let s = State::default();
    let kids = root_children(&s);
    for (i, k) in kids.iter().enumerate() {
        match s.tiles.get(*k) {
            Some(Tile::Pane(t)) => {
                assert_eq!(t.nr, i);
                match &t.kind {
                    TabKind::TabA(a) => {
                        assert!(i < 2);
                        assert!(a.s.is_empty());
                    }
                    TabKind::TabB(b) => {
                        assert_eq!(i, 2);
                        assert_eq!(b.a, 0);
                    }
                }
            }
            _ => panic!("child is a pane"),
        }
    }
    let o = s.tabs_behavior.simplification_options;
    assert!(o.all_panes_must_have_tabs && o.prune_empty_tabs && o.prune_empty_containers);
    assert!(!s.tabs_behavior.show_view_numbers);
    assert!(s.tabs_behavior.add_child_to.is_none());
}

#[test]
fn reset_gives_the_default_workspace_with_handles() {
    let mut s = State::default();
    s.reattach(Context::new(), egui_tracing::EventCollector::new());
    assert_eq!(s.tiles.len(), 4);
    assert_eq!(root_children(&s).len(), 3);
    assert!(s.tabs_behavior.cx.is_some());
    assert!(s.tabs_behavior.add_child_to.is_none());
    assert!(s.windows.show_open_windows().is_empty());
    assert!(s.side_panel_expanded);
}
