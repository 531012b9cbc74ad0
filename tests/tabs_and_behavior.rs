use eframe_template::behavior::TreeBehavior;
use eframe_template::layout::default_tiles;
use eframe_template::tabs::log_viewer::LogViewer;
use eframe_template::tabs::{Tab, TabA, TabAbout, TabB, TabKind};
use eframe_template::Context;
use egui_tiles::{Tile, TileId};

#[test]
fn tab_titles() {
    assert_eq!(Tab::new(TabKind::TabA(TabA::new()), 0).title(), "Tab A");
    assert_eq!(Tab::new(TabKind::TabB(TabB::new()), 1).title(), "Tab B");
    assert_eq!(TabAbout::new().title(), "About");
    assert_eq!(LogViewer::detached().title(), "Log Viewer");
}

#[test]
fn variant_names() {
    assert_eq!(TabKind::TabA(TabA::new()).variant_name(), "TabA");
    assert_eq!(TabKind::TabB(TabB::new()).variant_name(), "TabB");
}

#[test]
fn tabs_are_closeable() {
    assert!(Tab::new(TabKind::TabA(TabA::new()), 0).is_closeable());
    assert!(Tab::new(TabKind::TabB(TabB::new()), 0).is_closeable());
}

#[test]
fn labels_with_and_without_numbers() {
    let t = Tab::new(TabKind::TabB(TabB::new()), 12);
    assert_eq!(t.label(false), "Tab B");
    assert_eq!(t.label(true), "12: Tab B");
    assert_eq!(Tab::new(TabKind::TabA(TabA::new()), 0).label(true), "0: Tab A");
    assert_eq!(Tab::new(TabKind::TabA(TabA::new()), 1907).label(true), "1907: Tab A");
}

#[test]
fn behavior_titles_follow_the_number_switch() {
    let mut b = TreeBehavior::new();
    let t = Tab::new(TabKind::TabA(TabA::new()), 5);
    assert_eq!(b.tab_title_for_pane(&t), "Tab A");
    b.show_view_numbers = true;
    assert_eq!(b.tab_title_for_pane(&t), "5: Tab A");
}

#[test]
fn default_policy() {
    let o = TreeBehavior::default().simplification_options();
    assert!(o.prune_empty_tabs);
    assert!(o.prune_empty_containers);
    assert!(!o.prune_single_child_tabs);
    assert!(!o.prune_single_child_containers);
    assert!(o.all_panes_must_have_tabs);
    assert!(!o.join_nested_linear_containers);
}

#[test]
fn closability_by_tile() {
    let (tiles, root) = default_tiles();
    let b = TreeBehavior::new();
    let kid = match tiles.get(root) {
        Some(Tile::Container(c)) => *c.children().next().unwrap(),
        _ => panic!("root is a container"),
    };
    assert!(!b.is_tab_closable(&tiles, root));
    assert!(b.is_tab_closable(&tiles, kid));
    assert!(b.is_tab_closable(&tiles, TileId::from_u64(999)));
}

#[test]
fn closing_is_never_vetoed() {
    let (tiles, root) = default_tiles();
    let mut b = TreeBehavior::new();
    assert!(b.on_tab_close(&tiles, root));
    assert!(b.on_tab_close(&tiles, TileId::from_u64(999)));
}

#[test]
fn add_request_is_drained() {
    let mut b = TreeBehavior::new();
    assert!(b.take_add_child().is_none());
    b.request_add_child(TileId::from_u64(4));
    assert_eq!(b.take_add_child(), Some(TileId::from_u64(4)));
    assert!(b.take_add_child().is_none());
}

#[test]
fn context_is_attached() {
    let mut b = TreeBehavior::new();
    assert!(b.cx.is_none());
    b.feed_cx(Context::new());
    assert!(b.cx.is_some());
}

#[test]
fn about_pane_content() {
    let mut cx = Context::new();
    let s = TabAbout::new().ui(&mut cx);
    let texts: Vec<&str> = s.iter().map(|g| g.text).collect();
    assert_eq!(texts, vec!["Powered by ", "egui", " and ", "eframe", "."]);
    assert_eq!(s[1].link, Some("https://github.com/emilk/egui"));
    assert_eq!(s[3].link, Some("https://github.com/emilk/egui/tree/master/crates/eframe"));
    assert_eq!(s[0].link, None);
}
