use eframe_template::behavior::{add_requested_child, TreeBehavior};
use eframe_template::layout::{add_child, add_pane, add_tabs_container, close_tile, default_tiles};
use eframe_template::tabs::{Tab, TabA, TabB, TabKind};
use egui_tiles::{ContainerKind, Tile, TileId, Tiles};

fn children(tiles: &Tiles<Tab>, id: TileId) -> Vec<TileId> {
    match tiles.get(id) {
        Some(Tile::Container(c)) => c.children().copied().collect(),
        _ => panic!("not a container"),
    }
}

fn nr_of(tiles: &Tiles<Tab>, id: TileId) -> usize {
    match tiles.get(id) {
        Some(Tile::Pane(t)) => t.nr,
        _ => panic!("not a pane"),
    }
}

fn three_panes() -> (Tiles<Tab>, TileId, Vec<TileId>) {
    let (tiles, root) = default_tiles();
    let kids = children(&tiles, root);
    (tiles, root, kids)
}

#[test]
fn default_layout_is_three_panes_under_tabs() {
    let (tiles, root, kids) = three_panes();
    assert_eq!(tiles.len(), 4);
    assert_eq!(tiles.get(root).and_then(|t| t.kind()), Some(ContainerKind::Tabs));
    assert_eq!(kids.len(), 3);
    assert_eq!(nr_of(&tiles, kids[0]), 0);
    assert_eq!(nr_of(&tiles, kids[1]), 1);
    assert_eq!(nr_of(&tiles, kids[2]), 2);
    assert!(matches!(tiles.get(kids[0]), Some(Tile::Pane(Tab { kind: TabKind::TabA(_), .. }))));
    assert!(matches!(tiles.get(kids[1]), Some(Tile::Pane(Tab { kind: TabKind::TabA(_), .. }))));
    assert!(matches!(tiles.get(kids[2]), Some(Tile::Pane(Tab { kind: TabKind::TabB(_), .. }))));
    assert!(tiles.is_root(root));
}

#[test]
fn closing_middle_pane_keeps_order_and_container() {
    let (mut tiles, root, kids) = three_panes();
    assert!(close_tile(&mut tiles, kids[1]));
    assert_eq!(tiles.len(), 3);
    assert!(tiles.get(kids[1]).is_none());
    assert_eq!(children(&tiles, root), vec![kids[0], kids[2]]);
    assert_eq!(nr_of(&tiles, kids[0]), 0);
    assert_eq!(nr_of(&tiles, kids[2]), 2);
}

#[test]
fn closing_a_container_or_missing_tile_does_nothing() {
    let (mut tiles, root, kids) = three_panes();
    assert!(!close_tile(&mut tiles, root));
    assert!(!close_tile(&mut tiles, TileId::from_u64(999)));
    assert_eq!(tiles.len(), 4);
    assert_eq!(children(&tiles, root), kids);
}

#[test]
fn closed_panes_leave_no_dangling_children() {
    let (mut tiles, root, kids) = three_panes();
    for k in &kids {
        assert!(close_tile(&mut tiles, *k));
    }
    assert_eq!(tiles.len(), 1);
    assert!(children(&tiles, root).is_empty());
    for (_, tile) in tiles.iter() {
        if let Tile::Container(c) = tile {
            for child in c.children() {
                assert!(tiles.get(*child).is_some());
            }
        }
    }
}

#[test]
fn pane_without_parent_can_be_closed() {
    let mut tiles: Tiles<Tab> = Tiles::default();
    let id = add_pane(&mut tiles, Tab::new(TabKind::TabB(TabB::new()), 7));
    assert_eq!(tiles.len(), 1);
    assert!(tiles.is_root(id));
    assert!(close_tile(&mut tiles, id));
    assert!(tiles.is_empty());
}

#[test]
fn add_pane_gives_fresh_ids() {
    let mut tiles: Tiles<Tab> = Tiles::default();
    let a = add_pane(&mut tiles, Tab::new(TabKind::TabA(TabA::new()), 0));
    let b = add_pane(&mut tiles, Tab::new(TabKind::TabA(TabA::new()), 1));
    assert_ne!(a, b);
    let c = add_tabs_container(&mut tiles, vec![b, a]);
    assert_eq!(children(&tiles, c), vec![b, a]);
    assert_eq!(tiles.len(), 3);
}

#[test]
fn add_child_appends_to_container() {
    let (mut tiles, root, kids) = three_panes();
    let id = add_child(&mut tiles, root, Tab::new(TabKind::TabB(TabB::new()), 3)).unwrap();
    let mut expected = kids.clone();
    expected.push(id);
    assert_eq!(children(&tiles, root), expected);
    assert_eq!(nr_of(&tiles, id), 3);
    assert_eq!(tiles.len(), 5);
}

#[test]
fn add_child_to_a_pane_is_refused() {
    let (mut tiles, _root, kids) = three_panes();
    let r = add_child(&mut tiles, kids[0], Tab::new(TabKind::TabA(TabA::new()), 3));
    assert!(r.is_none());
    assert_eq!(tiles.len(), 4);
}

#[test]
fn add_request_is_handled_once() {
    let (mut tiles, root, kids) = three_panes();
    let mut b = TreeBehavior::new();
    b.request_add_child(root);
    let id = add_requested_child(&mut b, &mut tiles, 3).unwrap();
    assert!(b.add_child_to.is_none());
    assert_eq!(children(&tiles, root).len(), kids.len() + 1);
    assert_eq!(nr_of(&tiles, id), 3);
    assert!(matches!(tiles.get(id), Some(Tile::Pane(Tab { kind: TabKind::TabA(_), .. }))));
    assert!(add_requested_child(&mut b, &mut tiles, 4).is_none());
    assert_eq!(tiles.len(), 5);
}

#[test]
fn add_request_for_a_pane_is_dropped() {
    let (mut tiles, _root, kids) = three_panes();
    let mut b = TreeBehavior::new();
    b.request_add_child(kids[0]);
    assert!(add_requested_child(&mut b, &mut tiles, 3).is_none());
    assert!(b.add_child_to.is_none());
    assert_eq!(tiles.len(), 4);
}
