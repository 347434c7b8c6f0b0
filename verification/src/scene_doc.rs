//! The scene document: a forest of scene nodes and the editing operations on
//! it.

use vstd::multiset::Multiset;
use vstd::prelude::*;

use crate::scene_model::{
    F32_FIVE, F32_HALF, F32_NEG_FORTY_FIVE, F32_ONE, F32_POINT_THREE, F32_THIRTY, F32_TWO_THOUSAND,
    F32_ZERO, SceneLightKind, SceneNodeKind, SceneNodeProps, ScenePrimitive,
    forest_view, group_forest_view, lemma_forest_view, lemma_forest_view_ext, lemma_forest_view_insert, lemma_forest_view_push, lemma_forest_view_update, node_view, SceneNode,
    SceneNodeView,
};

verus! {

// ─── Mathematical model of the operations ──────────────────────────────────

/// Index of the first node at this level, at or after `i`, whose id is `id`;
/// -1 when there is none.
pub open spec fn level_index_from(s: Seq<SceneNodeView>, i: int, id: u64) -> int
    decreases s.len() - i,
{
    if i < 0 || i >= s.len() {
        -1
    } else if s[i].id == id {
        i
    } else {
        level_index_from(s, i + 1, id)
    }
}

pub open spec fn with_children(n: SceneNodeView, c: Seq<SceneNodeView>) -> SceneNodeView {
    SceneNodeView { children: c, ..n }
}

/// Detach the node with id `id`: first looked for among the nodes of this
/// level, then, node by node, inside their subtrees. Gives the forest without
/// it and the detached node.
pub open spec fn spec_take(s: Seq<SceneNodeView>, id: u64) -> (Seq<SceneNodeView>, Option<SceneNodeView>)
    decreases s, 1int, 0int,
{
    let p = level_index_from(s, 0, id);
    if 0 <= p < s.len() {
        (s.remove(p), Some(s[p]))
    } else {
        spec_take_among(s, 0, id)
    }
}

pub open spec fn spec_take_among(s: Seq<SceneNodeView>, i: int, id: u64) -> (Seq<SceneNodeView>, Option<SceneNodeView>)
    decreases s, 0int, s.len() - i,
{
    if i < 0 || i >= s.len() {
        (s, None)
    } else {
        let (c, r) = spec_take(s[i].children, id);
        if r is Some {
            (s.update(i, with_children(s[i], c)), r)
        } else {
            spec_take_among(s, i + 1, id)
        }
    }
}

pub proof fn lemma_level_index(s: Seq<SceneNodeView>, i: int, id: u64)
    requires
        0 <= i,
    ensures
        level_index_from(s, i, id) == -1 || (i <= level_index_from(s, i, id) < s.len()
            && s[level_index_from(s, i, id)].id == id),
        level_index_from(s, i, id) == -1 ==> forall|j: int| i <= j < s.len() ==> s[j].id != id,
        forall|j: int| i <= j < level_index_from(s, i, id) ==> s[j].id != id,
    decreases s.len() - i,
{
    if i < s.len() && s[i].id != id {
        lemma_level_index(s, i + 1, id);
    }
}

/// Detaching nothing leaves the forest as it was.
pub proof fn lemma_take_none(s: Seq<SceneNodeView>, id: u64)
    ensures
        spec_take(s, id).1 is None ==> spec_take(s, id).0 == s,
    decreases s, 1int, 0int,
{
    let p = level_index_from(s, 0, id);
    lemma_level_index(s, 0, id);
    if !(0 <= p < s.len()) {
        lemma_take_among_none(s, 0, id);
    }
}

pub proof fn lemma_take_among_none(s: Seq<SceneNodeView>, i: int, id: u64)
    ensures
        spec_take_among(s, i, id).1 is None ==> spec_take_among(s, i, id).0 == s,
    decreases s, 0int, s.len() - i,
{
    if 0 <= i < s.len() {
        lemma_take_none(s[i].children, id);
        lemma_take_among_none(s, i + 1, id);
    }
}

/// The first node, in depth-first pre-order, whose id is `id`.
pub open spec fn spec_find(s: Seq<SceneNodeView>, id: u64) -> Option<SceneNodeView>
    decreases s, 1int, 0int,
{
    spec_find_from(s, 0, id)
}

pub open spec fn spec_find_from(s: Seq<SceneNodeView>, i: int, id: u64) -> Option<SceneNodeView>
    decreases s, 0int, s.len() - i,
{
    if i < 0 || i >= s.len() {
        None
    } else if s[i].id == id {
        Some(s[i])
    } else {
        match spec_find(s[i].children, id) {
            Some(n) => Some(n),
            None => spec_find_from(s, i + 1, id),
        }
    }
}

/// The forest with the node that `spec_find` finds replaced by `new`.
pub open spec fn spec_replace(s: Seq<SceneNodeView>, id: u64, new: SceneNodeView) -> Seq<SceneNodeView>
    decreases s, 1int, 0int,
{
    spec_replace_from(s, 0, id, new)
}

pub open spec fn spec_replace_from(s: Seq<SceneNodeView>, i: int, id: u64, new: SceneNodeView) -> Seq<SceneNodeView>
    decreases s, 0int, s.len() - i,
{
    if i < 0 || i >= s.len() {
        s
    } else if s[i].id == id {
        s.update(i, new)
    } else if spec_find(s[i].children, id) is Some {
        s.update(i, with_children(s[i], spec_replace(s[i].children, id, new)))
    } else {
        spec_replace_from(s, i + 1, id, new)
    }
}

/// Add `node` as the last child of the node found with id `parent`; at the
/// end of the top level when there is no parent or it is not found.
pub open spec fn spec_add_node(s: Seq<SceneNodeView>, parent: Option<u64>, node: SceneNodeView) -> Seq<SceneNodeView> {
    match parent {
        None => s.push(node),
        Some(pid) => match spec_find(s, pid) {
            Some(p) => spec_replace(s, pid, with_children(p, p.children.push(node))),
            None => s.push(node),
        },
    }
}

// ─── Drag and drop ─────────────────────────────────────────────────────────

/// Where a dragged node lands relative to the node it is dropped on.
#[derive(Clone, Copy, Debug, PartialEq, Eq, Structural)]
pub enum DropPosition {
    Before,
    Inside,
    After,
}

#[derive(Clone, Copy, Debug)]
pub struct DropTarget {
    pub target_id: u64,
    pub position: DropPosition,
}

#[derive(Debug)]
pub struct DragDropState {
    pub dragging: Option<u64>,
    pub drop_target: Option<DropTarget>,
}

impl Default for DragDropState {
    fn default() -> (r: Self)
        ensures
            r.dragging is None,
            r.drop_target is None,
    {
        DragDropState { dragging: None, drop_target: None }
    }
}

/// `node` placed at index `p` of this level: before it, after it, or as its
/// last child.
pub open spec fn spec_place(s: Seq<SceneNodeView>, p: int, node: SceneNodeView, pos: DropPosition) -> Seq<SceneNodeView> {
    match pos {
        DropPosition::Before => s.insert(p, node),
        DropPosition::After => s.insert(p + 1, node),
        DropPosition::Inside => s.update(p, with_children(s[p], s[p].children.push(node))),
    }
}

/// Place `node` next to (or inside) the node with id `target`: looked for
/// first among the nodes of this level, then, node by node, inside their
/// subtrees. The flag tells whether the target was found.
pub open spec fn spec_insert(s: Seq<SceneNodeView>, node: SceneNodeView, target: u64, pos: DropPosition) -> (Seq<SceneNodeView>, bool)
    decreases s, 1int, 0int,
{
    let p = level_index_from(s, 0, target);
    if 0 <= p < s.len() {
        (spec_place(s, p, node, pos), true)
    } else {
        spec_insert_among(s, 0, node, target, pos)
    }
}

pub open spec fn spec_insert_among(s: Seq<SceneNodeView>, i: int, node: SceneNodeView, target: u64, pos: DropPosition) -> (Seq<SceneNodeView>, bool)
    decreases s, 0int, s.len() - i,
{
    if i < 0 || i >= s.len() {
        (s, false)
    } else {
        let (c, b) = spec_insert(s[i].children, node, target, pos);
        if b {
            (s.update(i, with_children(s[i], c)), true)
        } else {
            spec_insert_among(s, i + 1, node, target, pos)
        }
    }
}

/// Insertion next to the target, or at the end of the top level when the
/// target is not in the forest.
pub open spec fn spec_insert_node(s: Seq<SceneNodeView>, node: SceneNodeView, target: u64, pos: DropPosition) -> Seq<SceneNodeView> {
    let (t, b) = spec_insert(s, node, target, pos);
    if b {
        t
    } else {
        s.push(node)
    }
}

/// The node found with id `ancestor` is, or has below it, a node with id
/// `descendant`.
pub open spec fn spec_is_ancestor(s: Seq<SceneNodeView>, ancestor: u64, descendant: u64) -> bool {
    match spec_find(s, ancestor) {
        Some(n) => n.id == descendant || spec_find(n.children, descendant) is Some,
        None => false,
    }
}

/// Move the node `node_id` with its subtree next to (or into) `target_id`.
/// Refused when the two are the same node, when the target lies in the
/// moved subtree, or when the node is not in the forest.
pub open spec fn spec_move(s: Seq<SceneNodeView>, node_id: u64, target_id: u64, pos: DropPosition) -> (Seq<SceneNodeView>, bool) {
    if node_id == target_id {
        (s, false)
    } else if spec_is_ancestor(s, node_id, target_id) {
        (s, false)
    } else {
        let (s1, r) = spec_take(s, node_id);
        match r {
            Some(n) => (spec_insert_node(s1, n, target_id, pos), true),
            None => (s, false),
        }
    }
}

/// `(id, name)` of every node, in depth-first pre-order.
pub open spec fn spec_entries(s: Seq<SceneNodeView>) -> Seq<(u64, Seq<char>)>
    decreases s, 1int, 0int,
{
    spec_entries_from(s, 0)
}

pub open spec fn spec_entries_from(s: Seq<SceneNodeView>, i: int) -> Seq<(u64, Seq<char>)>
    decreases s, 0int, s.len() - i,
{
    if i < 0 || i >= s.len() {
        seq![]
    } else {
        seq![(s[i].id, s[i].name)] + spec_entries(s[i].children) + spec_entries_from(s, i + 1)
    }
}

pub open spec fn entries_view(v: Seq<(u64, String)>) -> Seq<(u64, Seq<char>)> {
    v.map_values(|e: (u64, String)| (e.0, e.1@))
}

pub proof fn lemma_insert_none(s: Seq<SceneNodeView>, node: SceneNodeView, target: u64, pos: DropPosition)
    ensures
        !spec_insert(s, node, target, pos).1 ==> spec_insert(s, node, target, pos).0 == s,
    decreases s, 1int, 0int,
{
    lemma_level_index(s, 0, target);
    if !(0 <= level_index_from(s, 0, target) < s.len()) {
        lemma_insert_among_none(s, 0, node, target, pos);
    }
}

pub proof fn lemma_insert_among_none(s: Seq<SceneNodeView>, i: int, node: SceneNodeView, target: u64, pos: DropPosition)
    ensures
        !spec_insert_among(s, i, node, target, pos).1 ==> spec_insert_among(s, i, node, target, pos).0 == s,
    decreases s, 0int, s.len() - i,
{
    if 0 <= i < s.len() {
        lemma_insert_none(s[i].children, node, target, pos);
        lemma_insert_among_none(s, i + 1, node, target, pos);
    }
}

/// The multiset of the ids of all the nodes of a forest.
pub open spec fn id_bag(s: Seq<SceneNodeView>) -> Multiset<u64>
    decreases s, 1int, 0int,
{
    id_bag_from(s, 0)
}

pub open spec fn id_bag_from(s: Seq<SceneNodeView>, i: int) -> Multiset<u64>
    decreases s, 0int, s.len() - i,
{
    if i < 0 || i >= s.len() {
        Multiset::empty()
    } else {
        Multiset::singleton(s[i].id).add(id_bag(s[i].children)).add(id_bag_from(s, i + 1))
    }
}

/// The multiset of the ids of a node and of all the nodes below it.
pub open spec fn node_bag(n: SceneNodeView) -> Multiset<u64> {
    Multiset::singleton(n.id).add(id_bag(n.children))
}

// ─── Executable operations ─────────────────────────────────────────────────

fn find_in(nodes: &Vec<SceneNode>, id: u64) -> (r: Option<&SceneNode>)
    ensures
        r matches Some(n) ==> spec_find(forest_view(nodes@), id) == Some(n@),
        r is None ==> spec_find(forest_view(nodes@), id) is None,
    decreases nodes,
{
    let ghost s = forest_view(nodes@);
    proof {
        lemma_forest_view(nodes@);
    }
    let mut i: usize = 0;
    while i < nodes.len()
        invariant
            i <= nodes@.len(),
            s == forest_view(nodes@),
            s.len() == nodes@.len(),
            forall|j: int| 0 <= j < nodes@.len() ==> #[trigger] s[j] == node_view(nodes@[j]),
            spec_find(s, id) == spec_find_from(s, i as int, id),
        decreases nodes@.len() - i,
    {
        if nodes[i].id == id {
            return Some(&nodes[i]);
        }
        match find_in(&nodes[i].children, id) {
            Some(f) => {
                return Some(f);
            },
            None => {},
        }
        i = i + 1;
    }
    None
}

/// Index of the top-level node that holds the first pre-order match of `id`,
/// either as itself or inside its subtree.
fn locate(nodes: &Vec<SceneNode>, id: u64) -> (r: Option<usize>)
    ensures
        r is None ==> spec_find(forest_view(nodes@), id) is None,
        r matches Some(i) ==> {
            let s = forest_view(nodes@);
            &&& i < nodes@.len()
            &&& spec_find(s, id) == spec_find_from(s, i as int, id)
            &&& forall|x: SceneNodeView| #[trigger] spec_replace(s, id, x) == spec_replace_from(s, i as int, id, x)
            &&& (s[i as int].id == id || spec_find(s[i as int].children, id) is Some)
        },
{
    let ghost s = forest_view(nodes@);
    proof {
        lemma_forest_view(nodes@);
    }
    let mut i: usize = 0;
    while i < nodes.len()
        invariant
            i <= nodes@.len(),
            s == forest_view(nodes@),
            s.len() == nodes@.len(),
            forall|j: int| 0 <= j < nodes@.len() ==> #[trigger] s[j] == node_view(nodes@[j]),
            spec_find(s, id) == spec_find_from(s, i as int, id),
            forall|x: SceneNodeView| #[trigger] spec_replace(s, id, x) == spec_replace_from(s, i as int, id, x),
        decreases nodes@.len() - i,
    {
        if nodes[i].id == id || find_in(&nodes[i].children, id).is_some() {
            return Some(i);
        }
        i = i + 1;
    }
    None
}

fn find_in_mut(nodes: &mut Vec<SceneNode>, id: u64) -> (r: Option<&mut SceneNode>)
    ensures
        r is None ==> spec_find(forest_view(old(nodes)@), id) is None && final(nodes)@ == old(nodes)@,
        r matches Some(n) ==> spec_find(forest_view(old(nodes)@), id) == Some((*n)@),
        r is Some ==> forest_view(final(nodes)@) == spec_replace(
            forest_view(old(nodes)@),
            id,
            (*final(r->0))@,
        ),
    decreases *old(nodes),
{
    broadcast use group_forest_view;

    proof {
        lemma_forest_view(nodes@);
    }
    match locate(nodes, id) {
        None => None,
        Some(i) => {
            if nodes[i].id == id {
                Some(&mut nodes[i])
            } else {
                find_in_mut(&mut nodes[i].children, id)
            }
        },
    }
}

fn take_from(nodes: &mut Vec<SceneNode>, id: u64) -> (r: Option<SceneNode>)
    ensures
        forest_view(final(nodes)@) == spec_take(forest_view(old(nodes)@), id).0,
        r matches Some(n) ==> spec_take(forest_view(old(nodes)@), id).1 == Some(n@),
        r is None ==> spec_take(forest_view(old(nodes)@), id).1 is None,
    decreases *old(nodes),
{
    let ghost s = forest_view(nodes@);
    proof {
        lemma_forest_view(nodes@);
        lemma_level_index(s, 0, id);
    }
    let mut i: usize = 0;
    while i < nodes.len()
        invariant
            i <= nodes@.len(),
            s == forest_view(nodes@),
            s.len() == nodes@.len(),
            forall|j: int| 0 <= j < nodes@.len() ==> #[trigger] s[j] == node_view(nodes@[j]),
            level_index_from(s, 0, id) == level_index_from(s, i as int, id),
            nodes@ == old(nodes)@,
        decreases nodes@.len() - i,
    {
        if nodes[i].id == id {
            let n = nodes.remove(i);
            proof {
                lemma_forest_view(nodes@);
                assert(forest_view(nodes@) =~= s.remove(i as int));
            }
            return Some(n);
        }
        i = i + 1;
    }
    proof {
        lemma_forest_view(nodes@);
    }
    let ghost orig = nodes@;
    let mut i: usize = 0;
    while i < nodes.len()
        invariant
            i <= nodes@.len(),
            nodes@.len() == orig.len(),
            s == forest_view(orig),
            s.len() == orig.len(),
            forall|j: int| 0 <= j < orig.len() ==> #[trigger] s[j] == node_view(orig[j]),
            forall|j: int| i <= j < orig.len() ==> #[trigger] nodes@[j] == orig[j],
            forall|j: int| 0 <= j < i ==> node_view(#[trigger] nodes@[j]) == node_view(orig[j]),
            spec_take(s, id) == spec_take_among(s, i as int, id),
            orig == old(nodes)@,
        decreases nodes@.len() - i,
    {
        let r = take_from(&mut nodes[i].children, id);
        proof {
            lemma_take_none(s[i as int].children, id);
        }
        if r.is_some() {
            proof {
                lemma_forest_view(nodes@);
                assert(forest_view(nodes@) =~= s.update(i as int, with_children(s[i as int], forest_view(nodes@[i as int].children@))));
            }
            return r;
        }
        i = i + 1;
    }
    proof {
        lemma_forest_view_ext(nodes@, orig);
    }
    None
}

fn insert_in(nodes: &mut Vec<SceneNode>, node: SceneNode, target: u64, pos: DropPosition) -> (r: Option<SceneNode>)
    ensures
        r is None <==> spec_insert(forest_view(old(nodes)@), node@, target, pos).1,
        forest_view(final(nodes)@) == spec_insert(forest_view(old(nodes)@), node@, target, pos).0,
        r matches Some(n) ==> n@ == node@,
    decreases *old(nodes),
{
    broadcast use group_forest_view;

    let ghost s = forest_view(nodes@);
    let ghost nv = node@;
    proof {
        lemma_forest_view(nodes@);
        lemma_level_index(s, 0, target);
    }
    let mut i: usize = 0;
    while i < nodes.len()
        invariant
            i <= nodes@.len(),
            s == forest_view(nodes@),
            s.len() == nodes@.len(),
            forall|j: int| 0 <= j < nodes@.len() ==> #[trigger] s[j] == node_view(nodes@[j]),
            level_index_from(s, 0, target) == level_index_from(s, i as int, target),
            nodes@ == old(nodes)@,
            nv == node@,
        decreases nodes@.len() - i,
    {
        if nodes[i].id == target {
            proof {
                assert(spec_insert(s, nv, target, pos).0 == spec_place(s, i as int, nv, pos));
            }
            match pos {
                DropPosition::Before => {
                    let ghost before = nodes@;
                    nodes.insert(i, node);
                    proof {
                        lemma_forest_view_insert(before, i as int, node);
                        assert(forest_view(nodes@) == s.insert(i as int, nv));
                        assert(forest_view(nodes@) == spec_place(s, i as int, nv, pos));
                    }
                },
                DropPosition::After => {
                    let ghost before = nodes@;
                    nodes.insert(i + 1, node);
                    proof {
                        lemma_forest_view_insert(before, i + 1, node);
                        assert(forest_view(nodes@) == spec_place(s, i as int, nv, pos));
                    }
                },
                DropPosition::Inside => {
                    let ghost c = nodes@[i as int].children@;
                    let ghost x = node;
                    let ghost oldn = nodes@[i as int];
                    let ghost before = nodes@;
                    assert(s[i as int] == node_view(oldn));
                    nodes[i].children.push(node);
                    proof {
                        lemma_forest_view_push(c, x);
                        assert(nodes@[i as int].children@ == c.push(x));
                        assert(nodes@[i as int].id == oldn.id);
                        assert(nodes@[i as int].name == oldn.name);
                        assert(node_view(nodes@[i as int]).children == forest_view(c.push(x)));
                        assert(forest_view(c.push(x)) == forest_view(c).push(nv));
                        assert(forest_view(c) == s[i as int].children);
                        assert(node_view(nodes@[i as int]).kind == s[i as int].kind);
                        assert(node_view(nodes@[i as int]).props == s[i as int].props);
                        assert(node_view(nodes@[i as int]).visible == s[i as int].visible);
                        assert(node_view(nodes@[i as int]).name == s[i as int].name);
                        assert(nodes@ == before.update(i as int, nodes@[i as int]));
                        lemma_forest_view_update(before, i as int, nodes@[i as int]);
                        assert(forest_view(nodes@) == spec_place(s, i as int, nv, pos));
                        assert(node_view(nodes@[i as int]) == with_children(s[i as int], s[i as int].children.push(nv)));
                    }
                },
            }
            assert(forest_view(nodes@) == spec_insert(s, nv, target, pos).0);
            assert(s == forest_view(old(nodes)@));
            assert(nv == node_view(node));
            return None;
        }
        i = i + 1;
    }
    let ghost orig = nodes@;
    let mut carried = node;
    let mut i: usize = 0;
    while i < nodes.len()
        invariant
            i <= nodes@.len(),
            nodes@.len() == orig.len(),
            s == forest_view(orig),
            s.len() == orig.len(),
            forall|j: int| 0 <= j < orig.len() ==> #[trigger] s[j] == node_view(orig[j]),
            forall|j: int| i <= j < orig.len() ==> #[trigger] nodes@[j] == orig[j],
            forall|j: int| 0 <= j < i ==> node_view(#[trigger] nodes@[j]) == node_view(orig[j]),
            carried@ == nv,
            nv == node@,
            spec_insert(s, nv, target, pos) == spec_insert_among(s, i as int, nv, target, pos),
            orig == old(nodes)@,
        decreases nodes@.len() - i,
    {
        let ghost oc = nodes@[i as int].children@;
        assert(s[i as int].children == forest_view(oc));
        let back = insert_in(&mut nodes[i].children, carried, target, pos);
        proof {
            lemma_insert_none(s[i as int].children, nv, target, pos);
        }
        match back {
            None => {
                proof {
                    assert(spec_insert(forest_view(oc), nv, target, pos).1);
                    assert(forest_view(nodes@[i as int].children@) == spec_insert(forest_view(oc), nv, target, pos).0);
                    assert(spec_insert_among(s, i as int, nv, target, pos).1);
                    lemma_forest_view(nodes@);
                    assert(forest_view(nodes@) =~= s.update(i as int, with_children(s[i as int], forest_view(nodes@[i as int].children@))));
                    assert(spec_insert(forest_view(old(nodes)@), nv, target, pos).1);
                    assert(forest_view(nodes@) == spec_insert(forest_view(old(nodes)@), nv, target, pos).0);
                }
                return None;
            },
            Some(n) => {
                carried = n;
            },
        }
        i = i + 1;
    }
    proof {
        lemma_forest_view_ext(nodes@, orig);
    }
    Some(carried)
}

fn collect(nodes: &Vec<SceneNode>, out: &mut Vec<(u64, String)>)
    ensures
        entries_view(final(out)@) == entries_view(old(out)@) + spec_entries(forest_view(nodes@)),
    decreases nodes,
{
    let ghost s = forest_view(nodes@);
    proof {
        lemma_forest_view(nodes@);
    }
    let mut i: usize = 0;
    while i < nodes.len()
        invariant
            i <= nodes@.len(),
            s == forest_view(nodes@),
            s.len() == nodes@.len(),
            forall|j: int| 0 <= j < nodes@.len() ==> #[trigger] s[j] == node_view(nodes@[j]),
            entries_view(out@) + spec_entries_from(s, i as int) == entries_view(old(out)@) + spec_entries(s),
        decreases nodes@.len() - i,
    {
        let ghost before = out@;
        out.push((nodes[i].id, nodes[i].name.clone()));
        proof {
            assert(entries_view(out@) =~= entries_view(before).push((s[i as int].id, s[i as int].name)));
        }
        let ghost mid = out@;
        collect(&nodes[i].children, out);
        proof {
            assert(spec_entries_from(s, i as int) == seq![(s[i as int].id, s[i as int].name)] + spec_entries(s[i as int].children) + spec_entries_from(s, i + 1));
            assert(entries_view(out@) + spec_entries_from(s, i + 1) =~= entries_view(before) + spec_entries_from(s, i as int));
        }
        i = i + 1;
    }
    proof {
        assert(entries_view(out@) =~= entries_view(out@) + spec_entries_from(s, i as int));
    }
}

// ─── The document ──────────────────────────────────────────────────────────

#[derive(Debug)]
pub struct SceneDocument {
    pub nodes: Vec<SceneNode>,
}

impl View for SceneDocument {
    type V = Seq<SceneNodeView>;

    open spec fn view(&self) -> Seq<SceneNodeView> {
        forest_view(self.nodes@)
    }
}

/// The ground plane of a new scene.
pub open spec fn spec_ground() -> SceneNodeView {
    SceneNodeView {
        id: 1,
        name: "Ground"@,
        kind: SceneNodeKind::Mesh(ScenePrimitive::Plane),
        props: SceneNodeProps {
            scale: [F32_FIVE, F32_ONE, F32_FIVE],
            color: [F32_POINT_THREE, F32_HALF, F32_POINT_THREE, F32_ONE],
            ..SceneNodeProps::spec_default()
        },
        visible: true,
        children: seq![],
    }
}

/// The sun of a new scene.
pub open spec fn spec_sun() -> SceneNodeView {
    SceneNodeView {
        id: 2,
        name: "Sun"@,
        kind: SceneNodeKind::Light(SceneLightKind::Directional),
        props: SceneNodeProps {
            rotation_euler: [F32_NEG_FORTY_FIVE, F32_THIRTY, F32_ZERO],
            light_intensity: F32_TWO_THOUSAND,
            light_shadows: true,
            ..SceneNodeProps::spec_default()
        },
        visible: true,
        children: seq![],
    }
}

impl Default for SceneDocument {
    /// A new scene: a ground plane and a sun.
    fn default() -> (r: Self)
        ensures
            r@ == seq![spec_ground(), spec_sun()],
    {
        broadcast use group_forest_view;

        let mut ground_props = SceneNodeProps::default();
        ground_props.scale = [F32_FIVE, F32_ONE, F32_FIVE];
        ground_props.color = [F32_POINT_THREE, F32_HALF, F32_POINT_THREE, F32_ONE];
        let ground = SceneNode {
            id: 1,
            name: String::from_str("Ground"),
            kind: SceneNodeKind::Mesh(ScenePrimitive::Plane),
            children: Vec::new(),
            props: ground_props,
            visible: true,
        };
        let mut sun_props = SceneNodeProps::default();
        sun_props.rotation_euler = [F32_NEG_FORTY_FIVE, F32_THIRTY, F32_ZERO];
        sun_props.light_intensity = F32_TWO_THOUSAND;
        sun_props.light_shadows = true;
        let sun = SceneNode {
            id: 2,
            name: String::from_str("Sun"),
            kind: SceneNodeKind::Light(SceneLightKind::Directional),
            children: Vec::new(),
            props: sun_props,
            visible: true,
        };
        let mut nodes: Vec<SceneNode> = Vec::new();
        proof {
            assert(forest_view(ground.children@) =~= seq![]);
            assert(forest_view(sun.children@) =~= seq![]);
        }
        nodes.push(ground);
        nodes.push(sun);
        proof {
            assert(forest_view(Seq::<SceneNode>::empty()) =~= seq![]);
            assert(nodes@ =~= Seq::<SceneNode>::empty().push(nodes@[0]).push(nodes@[1]));
        }
        SceneDocument { nodes }
    }
}

impl SceneDocument {
    /// Add `node` as the last child of `parent_id`, or at the top level when
    /// there is no parent or it is not in the scene.
    pub fn add_node(&mut self, parent_id: Option<u64>, node: SceneNode)
        ensures
            final(self)@ == spec_add_node(old(self)@, parent_id, node@),
    {
        broadcast use group_forest_view;

        match parent_id {
            None => {
                self.nodes.push(node);
            },
            Some(pid) => {
                let ghost nv = node@;
                match find_in_mut(&mut self.nodes, pid) {
                    Some(parent) => {
                        let ghost pv = (*parent)@;
                        let ghost c = parent.children@;
                        let ghost x = node;
                        parent.children.push(node);
                        proof {
                            lemma_forest_view_push(c, x);
                            assert((*parent)@ == with_children(pv, pv.children.push(nv)));
                        }
                    },
                    None => {
                        self.nodes.push(node);
                    },
                }
            },
        }
    }

    /// Remove the node with id `id` and its subtree; tells whether it was
    /// found.
    pub fn remove_node(&mut self, id: u64) -> (found: bool)
        ensures
            final(self)@ == spec_take(old(self)@, id).0,
            found == spec_take(old(self)@, id).1 is Some,
    {
        let r = take_from(&mut self.nodes, id);
        r.is_some()
    }

    /// Detach the node with id `id`, with its subtree, and hand it back.
    pub fn take_node(&mut self, id: u64) -> (r: Option<SceneNode>)
        ensures
            final(self)@ == spec_take(old(self)@, id).0,
            r matches Some(n) ==> spec_take(old(self)@, id).1 == Some(n@),
            r is None ==> spec_take(old(self)@, id).1 is None,
    {
        take_from(&mut self.nodes, id)
    }

    /// Place `node` before, after or inside the node `target_id`; at the end
    /// of the top level when the target is not in the scene.
    pub fn insert_node(&mut self, node: SceneNode, target_id: u64, position: DropPosition)
        ensures
            final(self)@ == spec_insert_node(old(self)@, node@, target_id, position),
    {
        broadcast use group_forest_view;

        let ghost s = self@;
        let ghost nv = node@;
        let back = insert_in(&mut self.nodes, node, target_id, position);
        proof {
            lemma_insert_none(s, nv, target_id, position);
        }
        match back {
            None => {},
            Some(n) => {
                self.nodes.push(n);
            },
        }
    }

    /// Move a node with its subtree; see `spec_move`.
    pub fn move_node(&mut self, node_id: u64, target_id: u64, position: DropPosition) -> (moved: bool)
        ensures
            final(self)@ == spec_move(old(self)@, node_id, target_id, position).0,
            moved == spec_move(old(self)@, node_id, target_id, position).1,
    {
        if node_id == target_id {
            return false;
        }
        if self.is_ancestor(node_id, target_id) {
            return false;
        }
        let ghost s = self@;
        proof {
            lemma_take_none(s, node_id);
        }
        match self.take_node(node_id) {
            Some(node) => {
                self.insert_node(node, target_id, position);
                true
            },
            None => false,
        }
    }

    /// Whether the node `ancestor_id` is, or contains, the node
    /// `descendant_id`.
    pub fn is_ancestor(&self, ancestor_id: u64, descendant_id: u64) -> (r: bool)
        ensures
            r == spec_is_ancestor(self@, ancestor_id, descendant_id),
    {
        match self.find_node(ancestor_id) {
            Some(anc) => anc.id == descendant_id || find_in(&anc.children, descendant_id).is_some(),
            None => false,
        }
    }

    /// The first node, in depth-first pre-order, with id `id`.
    pub fn find_node(&self, id: u64) -> (r: Option<&SceneNode>)
        ensures
            r matches Some(n) ==> spec_find(self@, id) == Some(n@),
            r is None ==> spec_find(self@, id) is None,
    {
        find_in(&self.nodes, id)
    }

    /// Mutable access to the node `find_node` finds; whatever is done through
    /// it is what changes in the document.
    pub fn find_node_mut(&mut self, id: u64) -> (r: Option<&mut SceneNode>)
        ensures
            r is None ==> spec_find(old(self)@, id) is None && final(self)@ == old(self)@,
            r matches Some(n) ==> spec_find(old(self)@, id) == Some((*n)@),
            r is Some ==> final(self)@ == spec_replace(old(self)@, id, (*final(r->0))@),
    {
        find_in_mut(&mut self.nodes, id)
    }

    /// `(id, name)` of every node, in depth-first pre-order.
    pub fn collect_ids(&self) -> (r: Vec<(u64, String)>)
        ensures
            entries_view(r@) == spec_entries(self@),
    {
        let mut out: Vec<(u64, String)> = Vec::new();
        collect(&self.nodes, &mut out);
        proof {
            assert(entries_view(Seq::<(u64, String)>::empty()) =~= seq![]);
            assert(entries_view(out@) =~= seq![] + spec_entries(self@));
        }
        out
    }
}

} // verus!
