use vstd::prelude::*;
use crate::tabs::{Tab, TabA, TabB, TabKind};
use egui_tiles::{TileId, Tiles};

verus! {

#[verifier::external_type_specification]
pub struct ExTileId(egui_tiles::TileId);

#[verifier::external_type_specification]
#[verifier::external_body]
#[verifier::reject_recursive_types(Pane)]
pub struct ExTiles<Pane>(egui_tiles::Tiles<Pane>);

/// How a container lays out its children.
#[derive(Clone, Copy, Debug, PartialEq, Eq, Structural)]
pub enum Layout {
    Tabs,
    Horizontal,
    Vertical,
    Grid,
}

/// A tile as the layout tree holds it: a pane, or a container with its
/// layout and its children's ids in order.
pub enum TileModel {
    Pane(Tab),
    Container(Layout, Seq<u64>),
}

/// What the tile store holds, by tile id.
pub uninterp spec fn tiles_of(t: egui_tiles::Tiles<Tab>) -> Map<u64, TileModel>;

/// The id from which the tile store looks for the next free id.
pub uninterp spec fn next_id_of(t: egui_tiles::Tiles<Tab>) -> u64;

/// The raw ids of a list of tile ids.
pub open spec fn ids_of(s: Seq<TileId>) -> Seq<u64> {
    s.map_values(|c: TileId| c.0)
}

/// `s` without the first occurrence of `x`.
pub open spec fn without_first(s: Seq<u64>, x: u64) -> Seq<u64>
    decreases s.len(),
{
    if s.len() == 0 {
        s
    } else if s[0] == x {
        s.drop_first()
    } else {
        seq![s[0]] + without_first(s.drop_first(), x)
    }
}

/// A tile of the store as verified code reads it.
pub enum TileEntry<'a> {
    Pane(&'a Tab),
    Container(Layout, Vec<u64>),
}

/// Relies on `Tiles::get` and `Container::children`: the tile under the id,
/// if the store holds one, with a container's layout and children in order.
#[verifier::external_body]
pub(crate) fn get_tile<'a>(t: &'a Tiles<Tab>, id: TileId) -> (r: Option<TileEntry<'a>>)
    ensures
        match tiles_of(*t).get(id.0) {
            None => r is None,
            Some(TileModel::Pane(tab)) => r matches Some(TileEntry::Pane(p)) && *p == tab,
            Some(TileModel::Container(l, ch)) => r matches Some(TileEntry::Container(k, v)) && k == l
                && v@ == ch,
        },
{
    match t.get(id)? {
        egui_tiles::Tile::Pane(p) => Some(TileEntry::Pane(p)),
        egui_tiles::Tile::Container(c) => {
            let layout = match c.kind() {
                egui_tiles::ContainerKind::Tabs => Layout::Tabs,
                egui_tiles::ContainerKind::Horizontal => Layout::Horizontal,
                egui_tiles::ContainerKind::Vertical => Layout::Vertical,
                egui_tiles::ContainerKind::Grid => Layout::Grid,
            };
            Some(TileEntry::Container(layout, c.children().map(|k| k.0).collect()))
        },
    }
}

/// Relies on `Container::remove_child`: the first occurrence of the child
/// leaves the container's children, whose order is otherwise kept. A parent
/// that is no container is left as it is.
#[verifier::external_body]
fn detach_child(t: &mut Tiles<Tab>, parent: TileId, child: TileId)
    ensures
        next_id_of(*final(t)) == next_id_of(*old(t)),
        match tiles_of(*old(t)).get(parent.0) {
            Some(TileModel::Container(l, ch)) => tiles_of(*final(t)) == tiles_of(*old(t)).insert(
                parent.0,
                TileModel::Container(l, without_first(ch, child.0)),
            ),
            _ => tiles_of(*final(t)) == tiles_of(*old(t)),
        },
{
    if let Some(egui_tiles::Tile::Container(c)) = t.get_mut(parent) {
        c.remove_child(child);
    }
}

/// Relies on `Tiles::default`: an empty store whose next id is 1.
#[verifier::external_body]
fn empty_tiles() -> (r: Tiles<Tab>)
    ensures
        tiles_of(r).dom().is_empty(),
        next_id_of(r) == 1,
{
    Tiles::default()
}

/// Relies on `Tiles::insert_pane`: the pane gets the first id, from the
/// next id on, that the store does not hold; the next id passes it.
#[verifier::external_body]
fn insert_pane(t: &mut Tiles<Tab>, pane: Tab) -> (r: TileId)
    requires
        tiles_of(*old(t)).dom().finite(),
        next_id_of(*old(t)) + tiles_of(*old(t)).dom().len() < u64::MAX,
    ensures
        next_id_of(*old(t)) <= r.0 <= next_id_of(*old(t)) + tiles_of(*old(t)).dom().len(),
        !tiles_of(*old(t)).contains_key(r.0),
        tiles_of(*final(t)) == tiles_of(*old(t)).insert(r.0, TileModel::Pane(pane)),
        next_id_of(*final(t)) == r.0 + 1,
{
    t.insert_pane(pane)
}

/// Relies on `Tiles::insert_tab_tile`: a tabs container with the children in
/// the given order, under a fresh id chosen as for a pane.
#[verifier::external_body]
fn insert_tab_tile(t: &mut Tiles<Tab>, children: Vec<TileId>) -> (r: TileId)
    requires
        tiles_of(*old(t)).dom().finite(),
        next_id_of(*old(t)) + tiles_of(*old(t)).dom().len() < u64::MAX,
    ensures
        next_id_of(*old(t)) <= r.0 <= next_id_of(*old(t)) + tiles_of(*old(t)).dom().len(),
        !tiles_of(*old(t)).contains_key(r.0),
        tiles_of(*final(t)) == tiles_of(*old(t)).insert(
            r.0,
            TileModel::Container(Layout::Tabs, ids_of(children@)),
        ),
        next_id_of(*final(t)) == r.0 + 1,
{
    t.insert_tab_tile(children)
}

/// Relies on `Tiles::remove`: the tile leaves the store, and nothing else
/// changes; the result tells whether it was there.
#[verifier::external_body]
fn remove_tile(t: &mut Tiles<Tab>, id: TileId) -> (r: bool)
    ensures
        r == tiles_of(*old(t)).contains_key(id.0),
        tiles_of(*final(t)) == tiles_of(*old(t)).remove(id.0),
        next_id_of(*final(t)) == next_id_of(*old(t)),
{
    t.remove(id).is_some()
}

} // verus!

verus! {

/// The children of the tile `p` in `m`: none for a pane or a missing tile.
pub open spec fn children_of(m: Map<u64, TileModel>, p: u64) -> Seq<u64> {
    match m.get(p) {
        Some(TileModel::Container(_, ch)) => ch,
        _ => Seq::empty(),
    }
}

/// Every child listed by a container is a tile of the store.
pub open spec fn children_present(m: Map<u64, TileModel>) -> bool {
    forall|p: u64, i: int|
        #![trigger children_of(m, p)[i]]
        m.contains_key(p) && 0 <= i < children_of(m, p).len() ==> m.contains_key(children_of(m, p)[i])
}

/// No tile is listed twice as a child: neither by two containers nor twice
/// by one.
pub open spec fn unique_parents(m: Map<u64, TileModel>) -> bool {
    forall|p: u64, q: u64, i: int, j: int|
        #![trigger children_of(m, p)[i], children_of(m, q)[j]]
        m.contains_key(p) && m.contains_key(q) && 0 <= i < children_of(m, p).len() && 0 <= j
            < children_of(m, q).len() && children_of(m, p)[i] == children_of(m, q)[j] ==> p == q
            && i == j
}

/// `c` is listed as a child by some container of `m`.
pub open spec fn has_parent(m: Map<u64, TileModel>, c: u64) -> bool {
    exists|p: u64, i: int|
        #![trigger children_of(m, p)[i]]
        m.contains_key(p) && 0 <= i < children_of(m, p).len() && children_of(m, p)[i] == c
}

/// The tile store is a well-formed forest: finite, with no dangling child
/// and no tile under two parents.
pub open spec fn tiles_wf(m: Map<u64, TileModel>) -> bool {
    &&& m.dom().finite()
    &&& children_present(m)
    &&& unique_parents(m)
}

/// The store is finite, with room for one more tile before the id counter
/// could overflow.
pub open spec fn has_room(t: Tiles<Tab>) -> bool {
    &&& tiles_of(t).dom().finite()
    &&& next_id_of(t) + tiles_of(t).dom().len() < u64::MAX
}

proof fn lemma_insert_fresh_leaf(m: Map<u64, TileModel>, id: u64, tile: TileModel)
    requires
        tiles_wf(m),
        !m.contains_key(id),
        tile is Pane,
    ensures
        tiles_wf(m.insert(id, tile)),
{
    let m2 = m.insert(id, tile);
    assert forall|p: u64| m2.contains_key(p) implies children_of(m2, p) == (if p == id {
        Seq::<u64>::empty()
    } else {
        children_of(m, p)
    }) by {}
    assert forall|p: u64, i: int|
        m2.contains_key(p) && 0 <= i < children_of(m2, p).len() implies m2.contains_key(
            #[trigger] children_of(m2, p)[i],
        ) by {
        assert(m.contains_key(children_of(m, p)[i]));
    }
    assert forall|p: u64, q: u64, i: int, j: int|
        m2.contains_key(p) && m2.contains_key(q) && 0 <= i < children_of(m2, p).len() && 0 <= j
            < children_of(m2, q).len() && #[trigger] children_of(m2, p)[i]
            == #[trigger] children_of(m2, q)[j] implies p == q && i == j by {
        assert(children_of(m, p)[i] == children_of(m, q)[j]);
    }
}

/// Adds a pane to the store, under no container: the caller decides where it
/// goes.
pub fn add_pane(t: &mut Tiles<Tab>, pane: Tab) -> (r: TileId)
    requires
        has_room(*old(t)),
    ensures
        !tiles_of(*old(t)).contains_key(r.0),
        tiles_of(*final(t)) == tiles_of(*old(t)).insert(r.0, TileModel::Pane(pane)),
        tiles_wf(tiles_of(*old(t))) ==> tiles_wf(tiles_of(*final(t))),
        tiles_wf(tiles_of(*old(t))) ==> !has_parent(tiles_of(*final(t)), r.0),
        next_id_of(*final(t)) <= next_id_of(*old(t)) + tiles_of(*old(t)).dom().len() + 1,
{
    let r = insert_pane(t, pane);
    proof {
        let m = tiles_of(*old(t));
        let m2 = tiles_of(*t);
        if tiles_wf(m) {
            lemma_insert_fresh_leaf(m, r.0, TileModel::Pane(pane));
            assert(m2.dom() =~= m.dom().insert(r.0));
            assert(!has_parent(m2, r.0)) by {
                if has_parent(m2, r.0) {
                    let (p, i) = choose|p: u64, i: int|
                        #![trigger children_of(m2, p)[i]]
                        m2.contains_key(p) && 0 <= i < children_of(m2, p).len() && children_of(m2, p)[i] == r.0;
                    assert(p != r.0);
                    assert(children_of(m, p)[i] == r.0);
                }
            }
        }
    }
    r
}

} // verus!

verus! {

/// The ids in `s` are pairwise distinct.
pub open spec fn distinct_ids(s: Seq<u64>) -> bool {
    forall|i: int, j: int| 0 <= i < s.len() && 0 <= j < s.len() && s[i] == s[j] ==> i == j
}

proof fn lemma_without_first_at(s: Seq<u64>, x: u64, k: int)
    requires
        0 <= k < s.len(),
        s[k] == x,
        forall|j: int| 0 <= j < k ==> s[j] != x,
    ensures
        without_first(s, x) == s.remove(k),
    decreases s.len(),
{
    if k == 0 {
        assert(s.drop_first() =~= s.remove(0));
    } else {
        let t = s.drop_first();
        assert forall|j: int| 0 <= j < k - 1 implies t[j] != x by {
            assert(t[j] == s[j + 1]);
        }
        lemma_without_first_at(t, x, k - 1);
        assert(seq![s[0]] + t.remove(k - 1) =~= s.remove(k));
    }
}

/// Adds a tabs container over `children`, which must be tiles of the store
/// that no container holds yet, each named once.
pub fn add_tabs_container(t: &mut Tiles<Tab>, children: Vec<TileId>) -> (r: TileId)
    requires
        has_room(*old(t)),
        distinct_ids(ids_of(children@)),
        forall|i: int|
            0 <= i < children@.len() ==> tiles_of(*old(t)).contains_key(#[trigger] children@[i].0)
                && !has_parent(tiles_of(*old(t)), children@[i].0),
    ensures
        !tiles_of(*old(t)).contains_key(r.0),
        tiles_of(*final(t)) == tiles_of(*old(t)).insert(
            r.0,
            TileModel::Container(Layout::Tabs, ids_of(children@)),
        ),
        tiles_wf(tiles_of(*old(t))) ==> tiles_wf(tiles_of(*final(t))),
        tiles_wf(tiles_of(*old(t))) ==> !has_parent(tiles_of(*final(t)), r.0),
        next_id_of(*final(t)) <= next_id_of(*old(t)) + tiles_of(*old(t)).dom().len() + 1,
{
    let ghost ch = ids_of(children@);
    let r = insert_tab_tile(t, children);
    proof {
        let m = tiles_of(*old(t));
        let m2 = tiles_of(*t);
        let c = r.0;
        assert(m2.dom() =~= m.dom().insert(c));
        if tiles_wf(m) {
        assert forall|p: u64| m2.contains_key(p) implies children_of(m2, p) == (if p == c {
            ch
        } else {
            children_of(m, p)
        }) by {}
        assert forall|i: int| 0 <= i < ch.len() implies m.contains_key(ch[i]) && !has_parent(
            m,
            ch[i],
        ) by {
            assert(children@[i].0 == ch[i]);
        }
        assert forall|p: u64, i: int|
            m2.contains_key(p) && 0 <= i < children_of(m2, p).len() implies m2.contains_key(
                #[trigger] children_of(m2, p)[i],
            ) by {
            if p != c {
                assert(m.contains_key(children_of(m, p)[i]));
            }
        }
        assert forall|p: u64, q: u64, i: int, j: int|
            m2.contains_key(p) && m2.contains_key(q) && 0 <= i < children_of(m2, p).len() && 0
                <= j < children_of(m2, q).len() && #[trigger] children_of(m2, p)[i]
                == #[trigger] children_of(m2, q)[j] implies p == q && i == j by {
            if p == c && q == c {
            } else if p == c {
                assert(m.contains_key(q) && children_of(m, q)[j] == ch[i]);
                assert(has_parent(m, ch[i]));
            } else if q == c {
                assert(m.contains_key(p) && children_of(m, p)[i] == ch[j]);
                assert(has_parent(m, ch[j]));
            } else {
                assert(children_of(m, p)[i] == children_of(m, q)[j]);
            }
        }
        assert(!has_parent(m2, c)) by {
            if has_parent(m2, c) {
                let (p, i) = choose|p: u64, i: int|
                    #![trigger children_of(m2, p)[i]]
                    m2.contains_key(p) && 0 <= i < children_of(m2, p).len() && children_of(m2, p)[i] == c;
                if p == c {
                    assert(m.contains_key(ch[i]));
                } else {
                    assert(m.contains_key(children_of(m, p)[i]));
                }
            }
        }
        }
    }
    r
}

} // verus!

verus! {

/// Relies on `Tiles::parent_of`: some container that lists the child, or
/// none if no container does.
#[verifier::external_body]
fn find_parent(t: &Tiles<Tab>, child: TileId) -> (r: Option<TileId>)
    ensures
        r is None <==> !has_parent(tiles_of(*t), child.0),
        r matches Some(p) ==> tiles_of(*t).contains_key(p.0) && children_of(tiles_of(*t), p.0).contains(
            child.0,
        ),
{
    t.parent_of(child)
}

/// The container that lists `c`, if there is one.
pub open spec fn parent_in(m: Map<u64, TileModel>, c: u64) -> u64 {
    choose|p: u64| m.contains_key(p) && children_of(m, p).contains(c)
}

/// The store after the pane `id` is closed: it leaves the store and its
/// parent's children, whose order is otherwise kept.
pub open spec fn closed(m: Map<u64, TileModel>, id: u64) -> Map<u64, TileModel> {
    if has_parent(m, id) {
        let p = parent_in(m, id);
        match m[p] {
            TileModel::Container(l, ch) => m.remove(id).insert(
                p,
                TileModel::Container(l, without_first(ch, id)),
            ),
            TileModel::Pane(_) => m.remove(id),
        }
    } else {
        m.remove(id)
    }
}

/// Whether `id` is a pane of the store.
pub open spec fn is_pane(m: Map<u64, TileModel>, id: u64) -> bool {
    m.contains_key(id) && m[id] is Pane
}

/// Closes the pane `id`: it leaves the store and its container. A container
/// or a missing tile is not closed, and then nothing changes. The result
/// tells whether the pane was closed.
pub fn close_tile(t: &mut Tiles<Tab>, id: TileId) -> (r: bool)
    requires
        tiles_wf(tiles_of(*old(t))),
    ensures
        r == is_pane(tiles_of(*old(t)), id.0),
        r ==> tiles_of(*final(t)) == closed(tiles_of(*old(t)), id.0),
        !r ==> tiles_of(*final(t)) == tiles_of(*old(t)),
        next_id_of(*final(t)) == next_id_of(*old(t)),
        tiles_wf(tiles_of(*final(t))),
{
    let is_leaf = match get_tile(t, id) {
        Some(TileEntry::Pane(_)) => true,
        _ => false,
    };
    if !is_leaf {
        return false;
    }
    let ghost m = tiles_of(*t);
    match find_parent(t, id) {
        Some(p) => {
            proof {
                lemma_parent_unique(m, id.0, p.0);
            }
            detach_child(t, p, id);
        },
        None => {},
    }
    remove_tile(t, id);
    proof {
        lemma_closed_wf(m, id.0);
        assert(tiles_of(*t) =~= closed(m, id.0));
    }
    true
}

proof fn lemma_parent_unique(m: Map<u64, TileModel>, c: u64, p: u64)
    requires
        tiles_wf(m),
        m.contains_key(p),
        children_of(m, p).contains(c),
    ensures
        has_parent(m, c),
        parent_in(m, c) == p,
{
    let i = choose|i: int| 0 <= i < children_of(m, p).len() && children_of(m, p)[i] == c;
    assert(children_of(m, p)[i] == c);
    let q = parent_in(m, c);
    assert(m.contains_key(q) && children_of(m, q).contains(c));
    let j = choose|j: int| 0 <= j < children_of(m, q).len() && children_of(m, q)[j] == c;
    assert(children_of(m, q)[j] == children_of(m, p)[i]);
}

proof fn lemma_closed_wf(m: Map<u64, TileModel>, id: u64)
    requires
        tiles_wf(m),
        is_pane(m, id),
    ensures
        tiles_wf(closed(m, id)),
{
    let m2 = closed(m, id);
    if has_parent(m, id) {
        let (pk, k) = choose|p: u64, i: int|
            #![trigger children_of(m, p)[i]]
            m.contains_key(p) && 0 <= i < children_of(m, p).len() && children_of(m, p)[i] == id;
        assert(children_of(m, pk).contains(id));
        lemma_parent_unique(m, id, pk);
        let p = pk;
        let s = children_of(m, p);
        assert forall|j: int| 0 <= j < k implies s[j] != id by {
            if s[j] == id {
                assert(children_of(m, p)[j] == children_of(m, p)[k]);
            }
        }
        assert(m[p] is Container);
        lemma_without_first_at(s, id, k);
        let s2 = s.remove(k);
        assert(m2.dom() =~= m.dom().remove(id));
        assert forall|q: u64| m2.contains_key(q) implies children_of(m2, q) == (if q == p {
            s2
        } else {
            children_of(m, q)
        }) by {}
        // Each child of m2 is a child of m at a matching index.
        assert forall|q: u64, i: int|
            m2.contains_key(q) && 0 <= i < children_of(m2, q).len() implies {
                let i0 = if q == p && i >= k { i + 1 } else { i };
                0 <= i0 < children_of(m, q).len() && #[trigger] children_of(m2, q)[i]
                    == children_of(m, q)[i0] && (q == p ==> i0 != k)
            } by {}
        assert forall|q: u64, i: int|
            m2.contains_key(q) && 0 <= i < children_of(m2, q).len() implies m2.contains_key(
                #[trigger] children_of(m2, q)[i],
            ) by {
            let i0 = if q == p && i >= k { i + 1 } else { i };
            let c = children_of(m, q)[i0];
            assert(m.contains_key(c));
            if c == id {
                assert(children_of(m, q)[i0] == children_of(m, p)[k]);
            }
        }
        assert forall|q: u64, r: u64, i: int, j: int|
            m2.contains_key(q) && m2.contains_key(r) && 0 <= i < children_of(m2, q).len() && 0
                <= j < children_of(m2, r).len() && #[trigger] children_of(m2, q)[i]
                == #[trigger] children_of(m2, r)[j] implies q == r && i == j by {
            let i0 = if q == p && i >= k { i + 1 } else { i };
            let j0 = if r == p && j >= k { j + 1 } else { j };
            assert(children_of(m, q)[i0] == children_of(m, r)[j0]);
        }
    } else {
        assert(m2.dom() =~= m.dom().remove(id));
        assert forall|q: u64| m2.contains_key(q) implies children_of(m2, q) == children_of(m, q) by {}
        assert forall|q: u64, i: int|
            m2.contains_key(q) && 0 <= i < children_of(m2, q).len() implies m2.contains_key(
                #[trigger] children_of(m2, q)[i],
            ) by {
            assert(m.contains_key(children_of(m, q)[i]));
            if children_of(m, q)[i] == id {
                assert(has_parent(m, id));
            }
        }
        assert forall|q: u64, r: u64, i: int, j: int|
            m2.contains_key(q) && m2.contains_key(r) && 0 <= i < children_of(m2, q).len() && 0
                <= j < children_of(m2, r).len() && #[trigger] children_of(m2, q)[i]
                == #[trigger] children_of(m2, r)[j] implies q == r && i == j by {
            assert(children_of(m, q)[i] == children_of(m, r)[j]);
        }
    }
}

} // verus!

verus! {

/// Relies on `Container::add_child`: the child goes at the end of the
/// container's children. A parent that is no container is left as it is.
#[verifier::external_body]
fn attach_child(t: &mut Tiles<Tab>, parent: TileId, child: TileId)
    ensures
        next_id_of(*final(t)) == next_id_of(*old(t)),
        match tiles_of(*old(t)).get(parent.0) {
            Some(TileModel::Container(l, ch)) => tiles_of(*final(t)) == tiles_of(*old(t)).insert(
                parent.0,
                TileModel::Container(l, ch.push(child.0)),
            ),
            _ => tiles_of(*final(t)) == tiles_of(*old(t)),
        },
{
    if let Some(egui_tiles::Tile::Container(c)) = t.get_mut(parent) {
        c.add_child(child);
    }
}

/// Whether `id` is a container of the store.
pub open spec fn is_container(m: Map<u64, TileModel>, id: u64) -> bool {
    m.contains_key(id) && m[id] is Container
}

/// Adds `pane` as the last child of the container `parent` and returns its
/// id. Where `parent` is no container of the store nothing changes and the
/// result is `None`.
pub fn add_child(t: &mut Tiles<Tab>, parent: TileId, pane: Tab) -> (r: Option<TileId>)
    requires
        has_room(*old(t)),
    ensures
        tiles_wf(tiles_of(*old(t))) ==> tiles_wf(tiles_of(*final(t))),
        r is Some <==> is_container(tiles_of(*old(t)), parent.0),
        r is None ==> tiles_of(*final(t)) == tiles_of(*old(t)),
        r matches Some(id) ==> !tiles_of(*old(t)).contains_key(id.0) && tiles_of(*final(t))
            == tiles_of(*old(t)).insert(id.0, TileModel::Pane(pane)).insert(
            parent.0,
            TileModel::Container(
                tiles_of(*old(t))[parent.0]->Container_0,
                children_of(tiles_of(*old(t)), parent.0).push(id.0),
            ),
        ),
{
    let is_parent = match get_tile(t, parent) {
        Some(TileEntry::Container(_, _)) => true,
        _ => false,
    };
    if !is_parent {
        return None;
    }
    let ghost m = tiles_of(*t);
    let id = add_pane(t, pane);
    let ghost m1 = tiles_of(*t);
    attach_child(t, parent, id);
    proof {
        if tiles_wf(m) {
        let m2 = tiles_of(*t);
        let s = children_of(m, parent.0);
        assert(m1[parent.0] == m[parent.0]);
        assert(m2.dom() =~= m1.dom());
        assert forall|q: u64| m2.contains_key(q) implies children_of(m2, q) == (if q == parent.0 {
            s.push(id.0)
        } else {
            children_of(m1, q)
        }) by {}
        assert(children_of(m1, parent.0) == s);
        assert forall|q: u64, i: int|
            m2.contains_key(q) && 0 <= i < children_of(m2, q).len() implies m2.contains_key(
                #[trigger] children_of(m2, q)[i],
            ) by {
            if q == parent.0 && i == s.len() {
            } else {
                assert(m1.contains_key(children_of(m1, q)[i]));
            }
        }
        assert forall|q: u64, p: u64, i: int, j: int|
            m2.contains_key(q) && m2.contains_key(p) && 0 <= i < children_of(m2, q).len() && 0
                <= j < children_of(m2, p).len() && #[trigger] children_of(m2, q)[i]
                == #[trigger] children_of(m2, p)[j] implies q == p && i == j by {
            let iq = q == parent.0 && i == s.len();
            let jp = p == parent.0 && j == s.len();
            if iq && jp {
            } else if iq {
                assert(children_of(m1, p)[j] == id.0);
                assert(has_parent(m1, id.0));
            } else if jp {
                assert(children_of(m1, q)[i] == id.0);
                assert(has_parent(m1, id.0));
            } else {
                assert(children_of(m1, q)[i] == children_of(m1, p)[j]);
            }
        }
        }
    }
    Some(id)
}

/// Every pane is a child of a tabs container.
pub open spec fn panes_under_tabs(m: Map<u64, TileModel>) -> bool {
    forall|k: u64|
        #[trigger] is_pane(m, k) ==> exists|p: u64|
            #![trigger children_of(m, p)]
            m.contains_key(p) && m[p] is Container && m[p]->Container_0 == Layout::Tabs
                && children_of(m, p).contains(k)
}

/// The layout of a fresh workspace: the store holds a root tabs container
/// under no parent and its three children, which are an empty text pane
/// numbered 0, an empty text pane numbered 1 and a slider pane at zero
/// numbered 2, in that order.
pub open spec fn is_default_layout(m: Map<u64, TileModel>, root: u64) -> bool {
    &&& tiles_wf(m)
    &&& m.dom().len() == 4
    &&& m.contains_key(root)
    &&& !has_parent(m, root)
    &&& m[root] is Container
    &&& m[root]->Container_0 == Layout::Tabs
    &&& children_of(m, root).len() == 3
    &&& forall|k: u64| m.contains_key(k) ==> k == root || #[trigger] children_of(m, root).contains(k)
    &&& forall|i: int|
        0 <= i < 3 ==> {
            let c = #[trigger] children_of(m, root)[i];
            &&& m.contains_key(c)
            &&& m[c] is Pane
            &&& m[c]->Pane_0.nr == i
            &&& match m[c]->Pane_0.kind {
                TabKind::TabA(t) => i < 2 && t.s@ == Seq::<char>::empty(),
                TabKind::TabB(t) => i == 2 && t.a == 0,
            }
        }
}

/// The tiles of a fresh workspace and their root: a tabs container over two
/// text panes and a slider pane, numbered 0, 1 and 2 in that order.
pub fn default_tiles() -> (r: (Tiles<Tab>, TileId))
    ensures
        is_default_layout(tiles_of(r.0), r.1.0),
        panes_under_tabs(tiles_of(r.0)),
{
    let mut t = empty_tiles();
    proof {
        assert(tiles_of(t).dom() =~= Set::<u64>::empty());
    }
    let a = add_pane(&mut t, Tab::new(TabKind::TabA(TabA::new()), 0));
    let b = add_pane(&mut t, Tab::new(TabKind::TabA(TabA::new()), 1));
    let c = add_pane(&mut t, Tab::new(TabKind::TabB(TabB::new()), 2));
    let ghost m3 = tiles_of(t);
    let mut children: Vec<TileId> = Vec::new();
    children.push(a);
    children.push(b);
    children.push(c);
    proof {
        assert(m3.dom() =~= set![a.0, b.0, c.0]);
        assert(ids_of(children@) =~= seq![a.0, b.0, c.0]);
        assert forall|i: int| 0 <= i < children@.len() implies !has_parent(
            m3,
            #[trigger] children@[i].0,
        ) by {
            if has_parent(m3, children@[i].0) {
                let (p, j) = choose|p: u64, j: int|
                    #![trigger children_of(m3, p)[j]]
                    m3.contains_key(p) && 0 <= j < children_of(m3, p).len() && children_of(m3, p)[j]
                        == children@[i].0;
                assert(children_of(m3, p).len() == 0);
            }
        }
    }
    let root = add_tabs_container(&mut t, children);
    proof {
        assert(tiles_of(t).dom() =~= set![a.0, b.0, c.0, root.0]);
        let m = tiles_of(t);
        let ch = children_of(m, root.0);
        assert(ch == seq![a.0, b.0, c.0]);
        assert(ch[0] == a.0 && ch[1] == b.0 && ch[2] == c.0);
        assert forall|k: u64| m.contains_key(k) implies k == root.0 || #[trigger] ch.contains(k) by {
            if k == a.0 {
                assert(ch[0] == k);
            } else if k == b.0 {
                assert(ch[1] == k);
            } else if k == c.0 {
                assert(ch[2] == k);
            }
        }
        assert forall|k: u64| #[trigger] is_pane(m, k) implies exists|p: u64|
            #![trigger children_of(m, p)]
            m.contains_key(p) && m[p] is Container && m[p]->Container_0 == Layout::Tabs
                && children_of(m, p).contains(k) by {
            assert(k != root.0);
            assert(children_of(m, root.0).contains(k));
        }
    }
    (t, root)
}

} // verus!
