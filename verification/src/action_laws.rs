//! What the editing actions keep: node ids stay unique and below the next
//! id the counter hands out, and an action of the hierarchy panel, the
//! toolbar or the shortcuts that changed the scene is undone by the next
//! undo.

use vstd::multiset::Multiset;
use vstd::prelude::*;

use crate::history::spec_undo;
use crate::scene_commands::{law_paste_numbers_children, spec_add_object, spec_delete_selected, spec_duplicate_selected, spec_paste, selected_node};
use crate::scene_actions::{
    forest_size, renumber, renumber_forest, spec_duplicate, spec_hierarchy_action, hierarchy_ids_fit,
    tree_size, HierarchyAction, SceneEditView,
};
use crate::scene_doc::{id_bag, node_bag, spec_find, spec_take};
use crate::scene_laws::{law_add_adds_subtree, law_find_after_add, law_take_detaches_one_subtree, lemma_bag_push, lemma_replace_bag};
use crate::scene_model::{spec_new_scene_node, SceneNodeKind, SceneNodeView};

verus! {

broadcast use vstd::multiset::group_multiset_axioms;

/// The ids `a`, `a + 1`, ..., `a + k - 1`, once each.
pub open spec fn range_bag(a: int, k: nat) -> Multiset<u64>
    decreases k,
{
    if k == 0 {
        Multiset::empty()
    } else {
        range_bag(a, (k - 1) as nat).insert((a + k - 1) as u64)
    }
}

proof fn lemma_range_bag_split(a: int, k1: nat, k2: nat)
    ensures
        range_bag(a, k1).add(range_bag(a + k1, k2)) =~= range_bag(a, k1 + k2),
    decreases k2,
{
    if k2 > 0 {
        lemma_range_bag_split(a, k1, (k2 - 1) as nat);
        assert(a + k1 + k2 - 1 == (a + k1) + k2 - 1);
    }
}

proof fn lemma_range_bag_count(a: int, k: nat, x: u64)
    requires
        0 <= a,
        a + k <= u64::MAX + 1,
    ensures
        range_bag(a, k).count(x) == if a <= x < a + k { 1nat } else { 0nat },
    decreases k,
{
    if k > 0 {
        lemma_range_bag_count(a, (k - 1) as nat, x);
    }
}

/// Renumbering a subtree from `next` on hands out the ids `next`,
/// `next + 1`, ... once each, as many as the subtree has nodes.
proof fn lemma_renumber_bag(n: SceneNodeView, next: int)
    ensures
        node_bag(renumber(n, next)) =~= range_bag(next, tree_size(n)),
    decreases n,
{
    lemma_renumber_forest_bag(n.children, next + 1);
    lemma_range_bag_split(next, 1, forest_size(n.children));
    assert(range_bag(next, 0) =~= Multiset::empty());
    assert(range_bag(next, 1) == Multiset::<u64>::empty().insert((next + 1 - 1) as u64));
    assert(Multiset::<u64>::empty().insert(next as u64) =~= Multiset::singleton(next as u64));
}

proof fn lemma_renumber_forest_bag(s: Seq<SceneNodeView>, next: int)
    ensures
        id_bag(renumber_forest(s, next)) =~= range_bag(next, forest_size(s)),
    decreases s,
{
    if s.len() == 0 {
        assert(id_bag(renumber_forest(s, next)) =~= Multiset::empty());
    } else {
        let pre = s.drop_last();
        lemma_renumber_forest_bag(pre, next);
        lemma_renumber_bag(s.last(), next + forest_size(pre));
        lemma_bag_push(renumber_forest(pre, next), renumber(s.last(), next + forest_size(pre)));
        lemma_range_bag_split(next, forest_size(pre), tree_size(s.last()));
    }
}

/// Node ids are unique, and each is below the next id the counter hands
/// out.
pub open spec fn ids_fresh(v: SceneEditView) -> bool {
    forall|x: u64| #[trigger] id_bag(v.nodes).count(x) <= 1 && (id_bag(v.nodes).count(x) > 0 ==> x < v.next_id)
}

/// Every hierarchy action keeps node ids unique and below the counter:
/// a duplicate takes fresh ids for its whole subtree, a new node the next
/// one, and deleting, unparenting and toggling visibility add none.
pub proof fn law_hierarchy_keeps_ids_unique(action: HierarchyAction, v: SceneEditView)
    requires
        ids_fresh(v),
        hierarchy_ids_fit(action, v),
    ensures
        ids_fresh(spec_hierarchy_action(action, v)),
{
    let w = spec_hierarchy_action(action, v);
    let s = v.nodes;
    match action {
        HierarchyAction::Select(_) => {},
        HierarchyAction::ToggleVisibility(id) => {
            if let Some(n) = spec_find(s, id) {
                let n2 = SceneNodeView { visible: !n.visible, ..n };
                lemma_replace_bag(s, id, n2);
                assert(node_bag(n2) == node_bag(n));
                assert forall|x: u64| #[trigger] id_bag(w.nodes).count(x) == id_bag(s).count(x) by {
                    assert(id_bag(w.nodes).add(node_bag(n)).count(x) == id_bag(s).add(node_bag(n2)).count(x));
                }
            }
        },
        HierarchyAction::Delete(id) => {
            law_take_detaches_one_subtree(s, id);
            if let Some(n) = spec_take(s, id).1 {
                assert forall|x: u64| #[trigger] id_bag(w.nodes).count(x) <= id_bag(s).count(x) by {
                    assert(id_bag(s).count(x) == id_bag(spec_take(s, id).0).count(x) + node_bag(n).count(x));
                }
            }
        },
        HierarchyAction::Unparent(id) => {
            law_take_detaches_one_subtree(s, id);
            if let Some(n) = spec_take(s, id).1 {
                lemma_bag_push(spec_take(s, id).0, n);
                assert(id_bag(w.nodes) =~= id_bag(s));
            }
        },
        HierarchyAction::Duplicate(id) => {
            if let Some(n) = spec_find(s, id) {
                let d = spec_duplicate(n, v.next_id as int);
                lemma_renumber_bag(n, v.next_id as int);
                assert(node_bag(d) == node_bag(renumber(n, v.next_id as int)));
                lemma_bag_push(s, d);
                assert forall|x: u64| #[trigger] id_bag(w.nodes).count(x) <= 1 && (id_bag(w.nodes).count(x) > 0 ==> x < w.next_id) by {
                    lemma_range_bag_count(v.next_id as int, tree_size(n), x);
                    assert(id_bag(w.nodes).count(x) == id_bag(s).count(x) + node_bag(d).count(x));
                }
            }
        },
        HierarchyAction::AddChild(parent, kind) => {
            let x0 = spec_new_scene_node(v.next_id, kind);
            law_add_adds_subtree(s, Some(parent), x0);
            assert(id_bag(x0.children) =~= Multiset::empty());
            assert forall|x: u64| #[trigger] id_bag(w.nodes).count(x) <= 1 && (id_bag(w.nodes).count(x) > 0 ==> x < w.next_id) by {
                assert(id_bag(w.nodes).count(x) == id_bag(s).count(x) + node_bag(x0).count(x));
            }
        },
        HierarchyAction::AddRoot(kind) => {
            let x0 = spec_new_scene_node(v.next_id, kind);
            law_add_adds_subtree(s, None, x0);
            assert(id_bag(x0.children) =~= Multiset::empty());
            assert forall|x: u64| #[trigger] id_bag(w.nodes).count(x) <= 1 && (id_bag(w.nodes).count(x) > 0 ==> x < w.next_id) by {
                assert(id_bag(w.nodes).count(x) == id_bag(s).count(x) + node_bag(x0).count(x));
            }
        },
    }
}

/// Whether an action records the scene for undo: all but selecting and
/// toggling visibility, and a duplicate of a node that is not there.
pub open spec fn hierarchy_records(action: HierarchyAction, v: SceneEditView) -> bool {
    match action {
        HierarchyAction::Select(_) => false,
        HierarchyAction::ToggleVisibility(_) => false,
        HierarchyAction::Duplicate(id) => spec_find(v.nodes, id) is Some,
        _ => true,
    }
}

/// Undo right after a hierarchy action that recorded the scene gives back
/// the scene as it was before the action.
pub proof fn law_undo_reverts_hierarchy_action(action: HierarchyAction, v: SceneEditView)
    requires
        hierarchy_records(action, v),
    ensures
        spec_undo(spec_hierarchy_action(action, v).undo, spec_hierarchy_action(action, v).nodes).1 == Some(v.nodes),
{
}

/// Undo right after one of the editing commands of the toolbar and the
/// shortcuts (adding an object, deleting or duplicating the selection,
/// pasting) gives back the scene as it was before the command, whenever the
/// command changed it.
pub proof fn law_undo_reverts_commands(v: SceneEditView, kind: SceneNodeKind, new_id: u64, x: u32, clip: SceneNodeView)
    ensures
        spec_undo(spec_add_object(v, kind).undo, spec_add_object(v, kind).nodes).1 == Some(v.nodes),
        v.selected is Some ==> spec_undo(spec_delete_selected(v).undo, spec_delete_selected(v).nodes).1 == Some(v.nodes),
        selected_node(v) is Some ==> spec_undo(
            spec_duplicate_selected(v, new_id, x).undo,
            spec_duplicate_selected(v, new_id, x).nodes,
        ).1 == Some(v.nodes),
        spec_undo(spec_paste(v, clip, x).undo, spec_paste(v, clip, x).nodes).1 == Some(v.nodes),
{
}

/// Adding an object from the toolbar keeps node ids unique and below the
/// counter: the new node takes the next id.
pub proof fn law_add_object_keeps_ids_unique(v: SceneEditView, kind: SceneNodeKind)
    requires
        ids_fresh(v),
        v.next_id < u64::MAX,
    ensures
        ids_fresh(spec_add_object(v, kind)),
{
    let w = spec_add_object(v, kind);
    let x0 = spec_new_scene_node(v.next_id, kind);
    law_add_adds_subtree(v.nodes, v.selected, x0);
    assert(id_bag(x0.children) =~= Multiset::empty());
    assert forall|x: u64| #[trigger] id_bag(w.nodes).count(x) <= 1 && (id_bag(w.nodes).count(x) > 0 ==> x < w.next_id) by {
        assert(id_bag(w.nodes).count(x) == id_bag(v.nodes).count(x) + node_bag(x0).count(x));
    }
}

/// Ctrl+V selects the pasted copy, and `find_node` on the selection gives
/// it: the clipboard node under id `clip.id + 20000` (wrapping at 2^64),
/// named with " (pasted)" after its name, moved to x position `x` (its other
/// properties kept), with as
/// many children as it had, the k-th (counting from zero) numbered
/// `new id + 100 * (k + 1)` (wrapping). This holds where the new id did not
/// occur in the scene before.
pub proof fn law_paste_selects_renumbered_copy(v: SceneEditView, clip: SceneNodeView, x: u32)
    requires
        id_bag(v.nodes).count(((clip.id + 20000) % 0x1_0000_0000_0000_0000int) as u64) == 0,
    ensures
        ({
            let w = spec_paste(v, clip, x);
            let nid = ((clip.id + 20000) % 0x1_0000_0000_0000_0000int) as u64;
            &&& w.selected == Some(nid)
            &&& spec_find(w.nodes, nid) matches Some(n) && {
                &&& n.id == nid
                &&& n.name == clip.name + " (pasted)"@
                &&& n.kind == clip.kind && n.visible == clip.visible
                &&& n.props.translation == [x, clip.props.translation[1], clip.props.translation[2]]
                &&& n.props == (crate::scene_model::SceneNodeProps { translation: n.props.translation, ..clip.props })
                &&& n.children.len() == clip.children.len()
                &&& forall|k: int| 0 <= k < clip.children.len()
                    ==> (#[trigger] n.children[k]).id as int == (nid + 100 * (k + 1)) % 0x1_0000_0000_0000_0000int
            }
        }),
{
    let w = spec_paste(v, clip, x);
    let nid = ((clip.id + 20000) % 0x1_0000_0000_0000_0000int) as u64;
    let pasted = SceneNodeView {
        id: nid,
        name: clip.name + " (pasted)"@,
        props: crate::scene_model::SceneNodeProps {
            translation: [x, clip.props.translation[1], clip.props.translation[2]],
            ..clip.props
        },
        children: crate::scene_commands::paste_children(clip.children, nid),
        ..clip
    };
    assert(w.nodes == crate::scene_doc::spec_add_node(v.nodes, v.selected, pasted));
    law_find_after_add(v.nodes, v.selected, pasted);
    law_paste_numbers_children(clip.children, nid);
}

} // verus!
