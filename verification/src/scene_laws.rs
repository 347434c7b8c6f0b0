//! What the scene operations keep: no node is lost or duplicated by a move,
//! and the moved node arrives whole; a removal takes away exactly one
//! subtree, an insertion adds exactly one, and removing a node just added
//! gives the scene back.

use vstd::multiset::Multiset;
use vstd::prelude::*;

use crate::scene_doc::{
    spec_add_node, spec_replace, spec_replace_from,
    id_bag, id_bag_from, level_index_from, lemma_level_index, node_bag, spec_find, spec_find_from,
    spec_insert, spec_insert_among, spec_insert_node, spec_move, spec_place, spec_take,
    spec_take_among, with_children, spec_is_ancestor, lemma_take_none, spec_entries, spec_entries_from,
};
use crate::scene_model::SceneNodeView;

verus! {

broadcast use vstd::multiset::group_multiset_axioms;

/// Two suffixes with the same nodes have the same id multiset.
proof fn lemma_bag_from_eq(a: Seq<SceneNodeView>, i: int, b: Seq<SceneNodeView>, j: int)
    requires
        0 <= i <= a.len(),
        0 <= j <= b.len(),
        a.len() - i == b.len() - j,
        forall|k: int| i <= k < a.len() ==> #[trigger] a[k] == b[k + (j - i)],
    ensures
        id_bag_from(a, i) == id_bag_from(b, j),
    decreases a.len() - i,
{
    if i < a.len() {
        assert(a[i] == b[i + (j - i)]);
        lemma_bag_from_eq(a, i + 1, b, j + 1);
    }
}

proof fn lemma_bag_update_from(s: Seq<SceneNodeView>, i: int, x: SceneNodeView, k: int)
    requires
        0 <= k <= i < s.len(),
    ensures
        id_bag_from(s.update(i, x), k).add(node_bag(s[i])) =~= id_bag_from(s, k).add(node_bag(x)),
    decreases i - k,
{
    let t = s.update(i, x);
    if k == i {
        lemma_bag_from_eq(t, i + 1, s, i + 1);
        assert(t[i] == x);
        assert(id_bag_from(t, i) == Multiset::singleton(x.id).add(id_bag(x.children)).add(id_bag_from(t, i + 1)));
        assert(id_bag_from(s, i) == Multiset::singleton(s[i].id).add(id_bag(s[i].children)).add(id_bag_from(s, i + 1)));
    } else {
        lemma_bag_update_from(s, i, x, k + 1);
        assert(t[k] == s[k]);
        assert(id_bag_from(t, k) == Multiset::singleton(s[k].id).add(id_bag(s[k].children)).add(id_bag_from(t, k + 1)));
        assert(id_bag_from(s, k) == Multiset::singleton(s[k].id).add(id_bag(s[k].children)).add(id_bag_from(s, k + 1)));
        let a = Multiset::singleton(s[k].id).add(id_bag(s[k].children));
        assert(id_bag_from(t, k).add(node_bag(s[i])) =~= a.add(id_bag_from(t, k + 1).add(node_bag(s[i]))));
        assert(id_bag_from(s, k).add(node_bag(x)) =~= a.add(id_bag_from(s, k + 1).add(node_bag(x))));
    }
}

/// Replacing one node changes the id multiset by that node's subtree.
pub proof fn lemma_bag_update(s: Seq<SceneNodeView>, i: int, x: SceneNodeView)
    requires
        0 <= i < s.len(),
    ensures
        id_bag(s.update(i, x)).add(node_bag(s[i])) =~= id_bag(s).add(node_bag(x)),
{
    lemma_bag_update_from(s, i, x, 0);
}

proof fn lemma_bag_remove_from(s: Seq<SceneNodeView>, i: int, k: int)
    requires
        0 <= k <= i < s.len(),
    ensures
        id_bag_from(s.remove(i), k).add(node_bag(s[i])) =~= id_bag_from(s, k),
    decreases i - k,
{
    let t = s.remove(i);
    if k == i {
        lemma_bag_from_eq(t, i, s, i + 1);
    } else {
        lemma_bag_remove_from(s, i, k + 1);
    }
}

/// Removing one node takes away that node's subtree from the id multiset.
pub proof fn lemma_bag_remove(s: Seq<SceneNodeView>, i: int)
    requires
        0 <= i < s.len(),
    ensures
        id_bag(s.remove(i)).add(node_bag(s[i])) =~= id_bag(s),
{
    lemma_bag_remove_from(s, i, 0);
}

proof fn lemma_bag_insert_from(s: Seq<SceneNodeView>, i: int, x: SceneNodeView, k: int)
    requires
        0 <= k <= i <= s.len(),
    ensures
        id_bag_from(s.insert(i, x), k) =~= id_bag_from(s, k).add(node_bag(x)),
    decreases i - k,
{
    let t = s.insert(i, x);
    if k == i {
        lemma_bag_from_eq(t, i + 1, s, i);
    } else {
        lemma_bag_insert_from(s, i, x, k + 1);
    }
}

/// Inserting one node adds that node's subtree to the id multiset.
pub proof fn lemma_bag_insert(s: Seq<SceneNodeView>, i: int, x: SceneNodeView)
    requires
        0 <= i <= s.len(),
    ensures
        id_bag(s.insert(i, x)) =~= id_bag(s).add(node_bag(x)),
{
    lemma_bag_insert_from(s, i, x, 0);
}

pub proof fn lemma_bag_push(s: Seq<SceneNodeView>, x: SceneNodeView)
    ensures
        id_bag(s.push(x)) =~= id_bag(s).add(node_bag(x)),
{
    assert(s.push(x) =~= s.insert(s.len() as int, x));
    lemma_bag_insert(s, s.len() as int, x);
}


proof fn lemma_bag_cancel_out(a: Multiset<u64>, b: Multiset<u64>, c: Multiset<u64>, d: Multiset<u64>, e: Multiset<u64>)
    requires
        a.add(c) == b.add(d),
        c == d.add(e),
    ensures
        b == a.add(e),
{
    assert forall|v: u64| #[trigger] b.count(v) == a.add(e).count(v) by {
        broadcast use vstd::multiset::group_multiset_axioms;
        assert(a.add(c).count(v) == b.add(d).count(v));
        assert(c.count(v) == d.add(e).count(v));
        assert(a.add(c).count(v) == a.count(v) + c.count(v));
        assert(b.add(d).count(v) == b.count(v) + d.count(v));
        assert(d.add(e).count(v) == d.count(v) + e.count(v));
        assert(a.add(e).count(v) == a.count(v) + e.count(v));
    }
    assert(b =~= a.add(e));
}

proof fn lemma_bag_cancel_in(a: Multiset<u64>, b: Multiset<u64>, c: Multiset<u64>, d: Multiset<u64>, e: Multiset<u64>)
    requires
        a.add(c) == b.add(d),
        d == c.add(e),
    ensures
        a == b.add(e),
{
    assert forall|v: u64| #[trigger] a.count(v) == b.add(e).count(v) by {
        broadcast use vstd::multiset::group_multiset_axioms;
        assert(a.add(c).count(v) == b.add(d).count(v));
        assert(d.count(v) == c.add(e).count(v));
        assert(a.add(c).count(v) == a.count(v) + c.count(v));
        assert(b.add(d).count(v) == b.count(v) + d.count(v));
        assert(c.add(e).count(v) == c.count(v) + e.count(v));
        assert(b.add(e).count(v) == b.count(v) + e.count(v));
    }
    assert(a =~= b.add(e));
}

proof fn lemma_bag_from_no_id(s: Seq<SceneNodeView>, i: int, id: u64)
    requires
        0 <= i,
        forall|j: int| i <= j < s.len() ==> #[trigger] s[j].id != id && id_bag(s[j].children).count(id) == 0,
    ensures
        id_bag_from(s, i).count(id) == 0,
    decreases s.len() - i,
{
    if i < s.len() {
        assert(s[i].id != id && id_bag(s[i].children).count(id) == 0);
        lemma_bag_from_no_id(s, i + 1, id);
    }
}

/// What `spec_find` finds carries the id looked for, and it finds something
/// exactly when the id occurs in the forest.
pub proof fn lemma_find_bag(s: Seq<SceneNodeView>, id: u64)
    ensures
        spec_find(s, id) matches Some(n) ==> n.id == id && id_bag(s).count(id) > 0,
        spec_find(s, id) is None ==> id_bag(s).count(id) == 0,
    decreases s, 1int, 0int,
{
    lemma_find_from_bag(s, 0, id);
}

proof fn lemma_find_from_bag(s: Seq<SceneNodeView>, i: int, id: u64)
    requires
        0 <= i,
    ensures
        spec_find_from(s, i, id) matches Some(n) ==> n.id == id && id_bag_from(s, i).count(id) > 0,
        spec_find_from(s, i, id) is None ==> id_bag_from(s, i).count(id) == 0,
    decreases s, 0int, s.len() - i,
{
    if i < s.len() {
        lemma_find_bag(s[i].children, id);
        lemma_find_from_bag(s, i + 1, id);
    }
}

/// What `spec_take` detaches carries the id looked for, with its whole
/// subtree; when nothing is detached the id does not occur.
pub proof fn lemma_take_bag(s: Seq<SceneNodeView>, id: u64)
    ensures
        spec_take(s, id).1 matches Some(n) ==> n.id == id && id_bag(s) =~= id_bag(spec_take(s, id).0).add(node_bag(n)),
        spec_take(s, id).1 is None ==> id_bag(s).count(id) == 0,
    decreases s, 1int, 0int,
{
    let p = level_index_from(s, 0, id);
    lemma_level_index(s, 0, id);
    if 0 <= p < s.len() {
        lemma_bag_remove(s, p);
    } else {
        lemma_take_among_bag(s, 0, id);
        if spec_take(s, id).1 is None {
            lemma_bag_from_no_id(s, 0, id);
        }
    }
}

proof fn lemma_take_among_bag(s: Seq<SceneNodeView>, i: int, id: u64)
    requires
        0 <= i,
    ensures
        spec_take_among(s, i, id).1 matches Some(n) ==> n.id == id && id_bag(s) =~= id_bag(spec_take_among(s, i, id).0).add(node_bag(n)),
        spec_take_among(s, i, id).1 is None ==> forall|j: int| i <= j < s.len() ==> #[trigger] id_bag(s[j].children).count(id) == 0,
    decreases s, 0int, s.len() - i,
{
    if i < s.len() {
        lemma_take_bag(s[i].children, id);
        lemma_take_among_bag(s, i + 1, id);
        let (c, r) = spec_take(s[i].children, id);
        if r is Some {
            let n = r->0;
            let x = with_children(s[i], c);
            lemma_bag_update(s, i, x);
            assert(node_bag(s[i]) =~= node_bag(x).add(node_bag(n)));
            lemma_bag_cancel_out(id_bag(s.update(i, x)), id_bag(s), node_bag(s[i]), node_bag(x), node_bag(n));
        }
    }
}

/// Placing a node at a level adds exactly its subtree.
proof fn lemma_place_bag(s: Seq<SceneNodeView>, p: int, x: SceneNodeView, pos: crate::scene_doc::DropPosition)
    requires
        0 <= p < s.len(),
    ensures
        id_bag(spec_place(s, p, x, pos)) =~= id_bag(s).add(node_bag(x)),
{
    match pos {
        crate::scene_doc::DropPosition::Before => {
            lemma_bag_insert(s, p, x);
        },
        crate::scene_doc::DropPosition::After => {
            lemma_bag_insert(s, p + 1, x);
        },
        crate::scene_doc::DropPosition::Inside => {
            let y = with_children(s[p], s[p].children.push(x));
            lemma_bag_update(s, p, y);
            lemma_bag_push(s[p].children, x);
            assert(node_bag(y) =~= node_bag(s[p]).add(node_bag(x)));
            lemma_bag_cancel_in(id_bag(s.update(p, y)), id_bag(s), node_bag(s[p]), node_bag(y), node_bag(x));
        },
    }
}

/// A successful insertion adds exactly the inserted subtree.
pub proof fn lemma_insert_bag(s: Seq<SceneNodeView>, x: SceneNodeView, target: u64, pos: crate::scene_doc::DropPosition)
    ensures
        spec_insert(s, x, target, pos).1 ==> id_bag(spec_insert(s, x, target, pos).0) =~= id_bag(s).add(node_bag(x)),
    decreases s, 1int, 0int,
{
    let p = level_index_from(s, 0, target);
    lemma_level_index(s, 0, target);
    if 0 <= p < s.len() {
        lemma_place_bag(s, p, x, pos);
    } else {
        lemma_insert_among_bag(s, 0, x, target, pos);
    }
}

proof fn lemma_insert_among_bag(s: Seq<SceneNodeView>, i: int, x: SceneNodeView, target: u64, pos: crate::scene_doc::DropPosition)
    requires
        0 <= i,
    ensures
        spec_insert_among(s, i, x, target, pos).1 ==> id_bag(spec_insert_among(s, i, x, target, pos).0) =~= id_bag(s).add(node_bag(x)),
    decreases s, 0int, s.len() - i,
{
    if i < s.len() {
        lemma_insert_bag(s[i].children, x, target, pos);
        lemma_insert_among_bag(s, i + 1, x, target, pos);
        let (c, b) = spec_insert(s[i].children, x, target, pos);
        if b {
            let y = with_children(s[i], c);
            lemma_bag_update(s, i, y);
            assert(node_bag(y) =~= node_bag(s[i]).add(node_bag(x)));
            lemma_bag_cancel_in(id_bag(s.update(i, y)), id_bag(s), node_bag(s[i]), node_bag(y), node_bag(x));
        }
    }
}

/// Inserting always adds exactly the inserted subtree, next to its target or
/// at the top level.
pub proof fn lemma_insert_node_bag(s: Seq<SceneNodeView>, x: SceneNodeView, target: u64, pos: crate::scene_doc::DropPosition)
    ensures
        id_bag(spec_insert_node(s, x, target, pos)) =~= id_bag(s).add(node_bag(x)),
{
    lemma_insert_bag(s, x, target, pos);
    lemma_bag_push(s, x);
}


/// Replacing the node that `spec_find` finds swaps its subtree for the new
/// one in the id multiset.
pub proof fn lemma_replace_bag(s: Seq<SceneNodeView>, id: u64, new: SceneNodeView)
    requires
        spec_find(s, id) is Some,
    ensures
        id_bag(spec_replace(s, id, new)).add(node_bag(spec_find(s, id)->0)) =~= id_bag(s).add(node_bag(new)),
    decreases s, 1int, 0int,
{
    lemma_replace_from_bag(s, 0, id, new);
}

proof fn lemma_replace_from_bag(s: Seq<SceneNodeView>, i: int, id: u64, new: SceneNodeView)
    requires
        0 <= i,
        spec_find_from(s, i, id) is Some,
    ensures
        id_bag(spec_replace_from(s, i, id, new)).add(node_bag(spec_find_from(s, i, id)->0)) =~= id_bag(s).add(node_bag(new)),
    decreases s, 0int, s.len() - i,
{
    if s[i].id == id {
        lemma_bag_update(s, i, new);
    } else if spec_find(s[i].children, id) is Some {
        let o = spec_find(s[i].children, id)->0;
        let c = spec_replace(s[i].children, id, new);
        lemma_replace_bag(s[i].children, id, new);
        let y = with_children(s[i], c);
        lemma_bag_update(s, i, y);
        // node_bag(y) + bag(o) == node_bag(s[i]) + bag(new)
        assert forall|v: u64| #[trigger] node_bag(y).add(node_bag(o)).count(v) == node_bag(s[i]).add(node_bag(new)).count(v) by {
            broadcast use vstd::multiset::group_multiset_axioms;
            assert(id_bag(c).add(node_bag(o)).count(v) == id_bag(s[i].children).add(node_bag(new)).count(v));
        }
        assert(node_bag(y).add(node_bag(o)) =~= node_bag(s[i]).add(node_bag(new)));
        let t = s.update(i, y);
        assert forall|v: u64| #[trigger] id_bag(t).add(node_bag(o)).count(v) == id_bag(s).add(node_bag(new)).count(v) by {
            broadcast use vstd::multiset::group_multiset_axioms;
            assert(id_bag(t).add(node_bag(s[i])).count(v) == id_bag(s).add(node_bag(y)).count(v));
            assert(node_bag(y).add(node_bag(o)).count(v) == node_bag(s[i]).add(node_bag(new)).count(v));
        }
    } else {
        lemma_replace_from_bag(s, i + 1, id, new);
    }
}

proof fn lemma_bag_from_elems(s: Seq<SceneNodeView>, k: int, id: u64)
    requires
        0 <= k,
        id_bag_from(s, k).count(id) == 0,
    ensures
        forall|j: int| k <= j < s.len() ==> #[trigger] s[j].id != id && id_bag(s[j].children).count(id) == 0,
    decreases s.len() - k,
{
    broadcast use vstd::multiset::group_multiset_axioms;

    if k < s.len() {
        assert(id_bag_from(s, k).count(id) == 1 * (if s[k].id == id { 1int } else { 0int }) + id_bag(s[k].children).count(id) + id_bag_from(s, k + 1).count(id));
        lemma_bag_from_elems(s, k + 1, id);
    }
}

proof fn lemma_find_from_skip(t: Seq<SceneNodeView>, i: int, m: int, id: u64)
    requires
        0 <= i <= m <= t.len(),
        forall|j: int| i <= j < m ==> #[trigger] t[j].id != id && spec_find(t[j].children, id) is None,
    ensures
        spec_find_from(t, i, id) == spec_find_from(t, m, id),
    decreases m - i,
{
    if i < m {
        assert(t[i].id != id && spec_find(t[i].children, id) is None);
        lemma_find_from_skip(t, i + 1, m, id);
    }
}

/// A node appended to a forest where its id does not occur is what a search
/// for that id finds.
proof fn lemma_find_pushed(s: Seq<SceneNodeView>, x: SceneNodeView)
    requires
        id_bag(s).count(x.id) == 0,
    ensures
        spec_find(s.push(x), x.id) == Some(x),
{
    let t = s.push(x);
    lemma_bag_from_elems(s, 0, x.id);
    assert forall|j: int| 0 <= j < s.len() implies #[trigger] t[j].id != x.id && spec_find(t[j].children, x.id) is None by {
        assert(t[j] == s[j]);
        assert(s[j].id != x.id && id_bag(s[j].children).count(x.id) == 0);
        lemma_find_bag(s[j].children, x.id);
    }
    lemma_find_from_skip(t, 0, s.len() as int, x.id);
}

proof fn lemma_replace_from_shape(s: Seq<SceneNodeView>, i: int, id: u64, new: SceneNodeView)
    requires
        0 <= i,
    ensures
        spec_replace_from(s, i, id, new).len() == s.len(),
        forall|j: int| 0 <= j < i && j < s.len() ==> #[trigger] spec_replace_from(s, i, id, new)[j] == s[j],
    decreases s.len() - i,
{
    if i < s.len() && s[i].id != id && !(spec_find(s[i].children, id) is Some) {
        lemma_replace_from_shape(s, i + 1, id, new);
    }
}

proof fn lemma_find_after_add_from(s: Seq<SceneNodeView>, i: int, pid: u64, p: SceneNodeView, x: SceneNodeView)
    requires
        0 <= i,
        spec_find_from(s, i, pid) == Some(p),
        id_bag(s).count(x.id) == 0,
    ensures
        spec_find_from(spec_replace_from(s, i, pid, with_children(p, p.children.push(x))), i, x.id) == Some(x),
    decreases s, 0int, s.len() - i,
{
    let np = with_children(p, p.children.push(x));
    lemma_bag_from_elems(s, 0, x.id);
    assert(s[i].id != x.id && id_bag(s[i].children).count(x.id) == 0);
    if s[i].id == pid {
        lemma_find_pushed(s[i].children, x);
    } else if spec_find(s[i].children, pid) is Some {
        lemma_find_after_add(s[i].children, pid, x);
    } else {
        lemma_find_after_add_from(s, i + 1, pid, p, x);
        lemma_replace_from_shape(s, i + 1, pid, np);
        lemma_find_bag(s[i].children, x.id);
        let t = spec_replace_from(s, i + 1, pid, np);
        assert(t[i] == s[i]);
    }
}

proof fn lemma_find_after_add(s: Seq<SceneNodeView>, pid: u64, x: SceneNodeView)
    requires
        spec_find(s, pid) is Some,
        id_bag(s).count(x.id) == 0,
    ensures
        spec_find(
            spec_replace(s, pid, with_children(spec_find(s, pid)->0, spec_find(s, pid)->0.children.push(x))),
            x.id,
        ) == Some(x),
    decreases s, 1int, 0int,
{
    lemma_find_after_add_from(s, 0, pid, spec_find(s, pid)->0, x);
}

proof fn lemma_find_after_replace_from(s: Seq<SceneNodeView>, i: int, id: u64, new: SceneNodeView)
    requires
        0 <= i,
        spec_find_from(s, i, id) is Some,
        new.id == id,
    ensures
        spec_find_from(spec_replace_from(s, i, id, new), i, id) == Some(new),
    decreases s, 0int, s.len() - i,
{
    if s[i].id == id {
    } else if spec_find(s[i].children, id) is Some {
        lemma_find_after_replace(s[i].children, id, new);
    } else {
        lemma_find_after_replace_from(s, i + 1, id, new);
        lemma_replace_from_shape(s, i + 1, id, new);
        assert(spec_replace_from(s, i + 1, id, new)[i] == s[i]);
    }
}

proof fn lemma_find_after_replace(s: Seq<SceneNodeView>, id: u64, new: SceneNodeView)
    requires
        spec_find(s, id) is Some,
        new.id == id,
    ensures
        spec_find(spec_replace(s, id, new), id) == Some(new),
    decreases s, 1int, 0int,
{
    lemma_find_after_replace_from(s, 0, id, new);
}

// ─── Laws ──────────────────────────────────────────────────────────────────

/// A change made through `find_node_mut` that keeps the node's id is what
/// `find_node` then gives back.
pub proof fn law_find_after_write(s: Seq<SceneNodeView>, id: u64, new: SceneNodeView)
    requires
        spec_find(s, id) is Some,
        new.id == id,
    ensures
        spec_find(spec_replace(s, id, new), id) == Some(new),
{
    lemma_find_after_replace(s, id, new);
}

/// After `add_node`, `find_node` on the new node's id gives the new node,
/// provided that id did not occur in the scene before.
pub proof fn law_find_after_add(s: Seq<SceneNodeView>, parent: Option<u64>, x: SceneNodeView)
    requires
        id_bag(s).count(x.id) == 0,
    ensures
        spec_find(spec_add_node(s, parent, x), x.id) == Some(x),
{
    lemma_find_pushed(s, x);
    if let Some(pid) = parent {
        if spec_find(s, pid) is Some {
            lemma_find_after_add(s, pid, x);
        }
    }
}

/// `remove_node` and `take_node` report success exactly when `find_node`
/// finds the id.
pub proof fn law_remove_reports_presence(s: Seq<SceneNodeView>, id: u64)
    ensures
        spec_take(s, id).1 is Some <==> spec_find(s, id) is Some,
{
    lemma_take_bag(s, id);
    lemma_find_bag(s, id);
    if spec_take(s, id).1 is Some {
        let n = spec_take(s, id).1->0;
        assert(id_bag(s).count(id) > 0) by {
            broadcast use vstd::multiset::group_multiset_axioms;
            assert(node_bag(n).count(id) > 0);
        }
    }
}

/// `take_node` hands back the node with the id asked for, and the scene
/// loses exactly that node's subtree.
pub proof fn law_take_detaches_one_subtree(s: Seq<SceneNodeView>, id: u64)
    ensures
        spec_take(s, id).1 matches Some(n) ==> n.id == id && id_bag(s) == id_bag(spec_take(s, id).0).add(node_bag(n)),
        spec_take(s, id).1 is None ==> spec_take(s, id).0 == s,
{
    lemma_take_bag(s, id);
    lemma_take_none(s, id);
}

/// When an id occurs at most once, removing it leaves no node with that id.
pub proof fn law_removed_is_gone(s: Seq<SceneNodeView>, id: u64)
    requires
        id_bag(s).count(id) <= 1,
    ensures
        spec_find(spec_take(s, id).0, id) is None,
{
    lemma_take_bag(s, id);
    lemma_take_none(s, id);
    let t = spec_take(s, id).0;
    lemma_find_bag(t, id);
    if spec_take(s, id).1 is Some {
        let n = spec_take(s, id).1->0;
        assert(id_bag(t).count(id) == 0) by {
            broadcast use vstd::multiset::group_multiset_axioms;
            assert(node_bag(n).count(id) >= 1);
            assert(id_bag(s).count(id) == id_bag(t).count(id) + node_bag(n).count(id));
        }
    } else {
        lemma_find_bag(s, id);
    }
}

/// `insert_node` adds exactly the inserted subtree, wherever it lands.
pub proof fn law_insert_adds_subtree(s: Seq<SceneNodeView>, x: SceneNodeView, target: u64, pos: crate::scene_doc::DropPosition)
    ensures
        id_bag(spec_insert_node(s, x, target, pos)) == id_bag(s).add(node_bag(x)),
{
    lemma_insert_node_bag(s, x, target, pos);
}

/// A drag-and-drop move never loses or duplicates a node: the multiset of
/// ids is the same after it; a refused move changes nothing.
pub proof fn law_move_keeps_nodes(s: Seq<SceneNodeView>, node_id: u64, target_id: u64, pos: crate::scene_doc::DropPosition)
    ensures
        id_bag(spec_move(s, node_id, target_id, pos).0) == id_bag(s),
        !spec_move(s, node_id, target_id, pos).1 ==> spec_move(s, node_id, target_id, pos).0 == s,
{
    if node_id != target_id && !spec_is_ancestor(s, node_id, target_id) {
        lemma_take_bag(s, node_id);
        let (s1, r) = spec_take(s, node_id);
        if r is Some {
            let n = r->0;
            lemma_insert_node_bag(s1, n, target_id, pos);
            assert(id_bag(spec_insert_node(s1, n, target_id, pos)) =~= id_bag(s));
        }
    }
}

/// `add_node` adds exactly the new subtree, under its parent or at the top
/// level.
pub proof fn law_add_adds_subtree(s: Seq<SceneNodeView>, parent: Option<u64>, x: SceneNodeView)
    ensures
        id_bag(spec_add_node(s, parent, x)) == id_bag(s).add(node_bag(x)),
{
    lemma_bag_push(s, x);
    if let Some(pid) = parent {
        if spec_find(s, pid) is Some {
            let p = spec_find(s, pid)->0;
            let np = with_children(p, p.children.push(x));
            lemma_replace_bag(s, pid, np);
            lemma_bag_push(p.children, x);
            assert(node_bag(np) =~= node_bag(p).add(node_bag(x)));
            lemma_bag_cancel_in(id_bag(spec_replace(s, pid, np)), id_bag(s), node_bag(p), node_bag(np), node_bag(x));
        }
    }
}

// ─── Removing what was just added ──────────────────────────────────────────

/// Detaching an id that does not occur takes nothing and changes nothing.
proof fn lemma_take_absent(s: Seq<SceneNodeView>, id: u64)
    requires
        id_bag(s).count(id) == 0,
    ensures
        spec_take(s, id) == (s, Option::<SceneNodeView>::None),
{
    lemma_take_bag(s, id);
    lemma_take_none(s, id);
    if spec_take(s, id).1 is Some {
        let n = spec_take(s, id).1->0;
        assert(id_bag(s).count(id) > 0) by {
            broadcast use vstd::multiset::group_multiset_axioms;
            assert(node_bag(n).count(id) > 0);
        }
    }
}

proof fn lemma_level_index_at(t: Seq<SceneNodeView>, i: int, m: int, id: u64)
    requires
        0 <= i <= m < t.len(),
        t[m].id == id,
        forall|j: int| i <= j < m ==> #[trigger] t[j].id != id,
    ensures
        level_index_from(t, i, id) == m,
    decreases m - i,
{
    if i < m {
        lemma_level_index_at(t, i + 1, m, id);
    }
}

/// A node appended where its id does not occur is what detaching that id
/// takes, and the forest is left as before the append.
proof fn lemma_take_pushed(s: Seq<SceneNodeView>, x: SceneNodeView)
    requires
        id_bag(s).count(x.id) == 0,
    ensures
        spec_take(s.push(x), x.id) == (s, Some(x)),
{
    let t = s.push(x);
    lemma_bag_from_elems(s, 0, x.id);
    assert forall|j: int| 0 <= j < s.len() implies #[trigger] t[j].id != x.id by {
        assert(t[j] == s[j]);
    }
    lemma_level_index_at(t, 0, s.len() as int, x.id);
    assert(t.remove(s.len() as int) =~= s);
}

proof fn lemma_replace_from_ids(s: Seq<SceneNodeView>, i: int, id: u64, new: SceneNodeView)
    requires
        0 <= i,
        new.id == id,
    ensures
        spec_replace_from(s, i, id, new).len() == s.len(),
        forall|j: int| 0 <= j < s.len() ==> #[trigger] spec_replace_from(s, i, id, new)[j].id == s[j].id,
    decreases s.len() - i,
{
    if i < s.len() && s[i].id != id && !(spec_find(s[i].children, id) is Some) {
        lemma_replace_from_ids(s, i + 1, id, new);
    }
}

proof fn lemma_take_among_after_add(s: Seq<SceneNodeView>, i: int, pid: u64, p: SceneNodeView, x: SceneNodeView)
    requires
        0 <= i,
        spec_find_from(s, i, pid) == Some(p),
        p.id == pid,
        id_bag(s).count(x.id) == 0,
    ensures
        spec_take_among(spec_replace_from(s, i, pid, with_children(p, p.children.push(x))), i, x.id) == (s, Some(x)),
    decreases s, 0int, s.len() - i,
{
    let np = with_children(p, p.children.push(x));
    let t = spec_replace_from(s, i, pid, np);
    lemma_bag_from_elems(s, 0, x.id);
    assert(s[i].id != x.id && id_bag(s[i].children).count(x.id) == 0);
    if s[i].id == pid {
        assert(p == s[i]);
        lemma_take_pushed(s[i].children, x);
        assert(t[i].children == s[i].children.push(x));
        assert(with_children(t[i], s[i].children) == s[i]);
        assert(t.update(i, with_children(t[i], s[i].children)) =~= s);
    } else if spec_find(s[i].children, pid) is Some {
        lemma_take_after_add(s[i].children, pid, x);
        assert(with_children(t[i], s[i].children) == s[i]);
        assert(t.update(i, with_children(t[i], s[i].children)) =~= s);
    } else {
        lemma_take_among_after_add(s, i + 1, pid, p, x);
        lemma_replace_from_shape(s, i + 1, pid, np);
        assert(t[i] == s[i]);
        lemma_take_absent(s[i].children, x.id);
    }
}

proof fn lemma_take_after_add(s: Seq<SceneNodeView>, pid: u64, x: SceneNodeView)
    requires
        spec_find(s, pid) is Some,
        id_bag(s).count(x.id) == 0,
    ensures
        spec_take(
            spec_replace(s, pid, with_children(spec_find(s, pid)->0, spec_find(s, pid)->0.children.push(x))),
            x.id,
        ) == (s, Some(x)),
    decreases s, 1int, 0int,
{
    let p = spec_find(s, pid)->0;
    let np = with_children(p, p.children.push(x));
    let t = spec_replace(s, pid, np);
    lemma_find_bag(s, pid);
    lemma_replace_from_ids(s, 0, pid, np);
    lemma_bag_from_elems(s, 0, x.id);
    lemma_level_index(t, 0, x.id);
    if level_index_from(t, 0, x.id) != -1 {
        let m = level_index_from(t, 0, x.id);
        assert(t[m].id == s[m].id);
    }
    lemma_take_among_after_add(s, 0, pid, p, x);
}

/// Removing a node right after adding it gives back the scene as it was,
/// provided its id did not occur before: the node added is the one taken
/// out, wherever it went.
pub proof fn law_remove_undoes_add(s: Seq<SceneNodeView>, parent: Option<u64>, x: SceneNodeView)
    requires
        id_bag(s).count(x.id) == 0,
    ensures
        spec_take(spec_add_node(s, parent, x), x.id) == (s, Some(x)),
{
    match parent {
        None => lemma_take_pushed(s, x),
        Some(pid) => {
            if spec_find(s, pid) is Some {
                lemma_take_after_add(s, pid, x);
            } else {
                lemma_take_pushed(s, x);
            }
        },
    }
}

// ─── A move keeps the moved node ───────────────────────────────────────────

/// A node of a suffix counts towards the suffix's id multiset.
proof fn lemma_bag_from_one(s: Seq<SceneNodeView>, k: int, m: int, id: u64)
    requires
        0 <= k <= m < s.len(),
    ensures
        id_bag_from(s, k).count(id) >= node_bag(s[m]).count(id),
    decreases m - k,
{
    if k < m {
        lemma_bag_from_one(s, k + 1, m, id);
    }
}

/// Two nodes of a suffix count towards the suffix's id multiset.
proof fn lemma_bag_from_pair(s: Seq<SceneNodeView>, k: int, j: int, m: int, id: u64)
    requires
        0 <= k <= j < m < s.len(),
    ensures
        id_bag_from(s, k).count(id) >= node_bag(s[j]).count(id) + node_bag(s[m]).count(id),
    decreases j - k,
{
    if k < j {
        lemma_bag_from_pair(s, k + 1, j, m, id);
    } else {
        lemma_bag_from_one(s, k + 1, m, id);
    }
}

proof fn lemma_take_is_find_among(s: Seq<SceneNodeView>, i: int, id: u64)
    requires
        0 <= i,
        id_bag(s).count(id) <= 1,
        forall|j: int| 0 <= j < s.len() ==> #[trigger] s[j].id != id,
    ensures
        spec_take_among(s, i, id).1 == spec_find_from(s, i, id),
    decreases s, 0int, s.len() - i,
{
    if i < s.len() {
        lemma_bag_from_one(s, 0, i, id);
        assert(s[i].id != id);
        lemma_take_is_find(s[i].children, id);
        lemma_take_is_find_among(s, i + 1, id);
    }
}

/// Where an id occurs at most once, the node `take_node` detaches is the one
/// `find_node` finds.
proof fn lemma_take_is_find(s: Seq<SceneNodeView>, id: u64)
    requires
        id_bag(s).count(id) <= 1,
    ensures
        spec_take(s, id).1 == spec_find(s, id),
    decreases s, 1int, 0int,
{
    let p = level_index_from(s, 0, id);
    lemma_level_index(s, 0, id);
    if 0 <= p < s.len() {
        assert forall|j: int| 0 <= j < p implies #[trigger] s[j].id != id && spec_find(s[j].children, id) is None by {
            lemma_bag_from_pair(s, 0, j, p, id);
            lemma_find_bag(s[j].children, id);
        }
        lemma_find_from_skip(s, 0, p, id);
    } else {
        lemma_take_is_find_among(s, 0, id);
    }
}

/// Inserting leaves the nodes before the index it starts from as they were.
proof fn lemma_insert_among_shape(s: Seq<SceneNodeView>, i: int, x: SceneNodeView, target: u64, pos: crate::scene_doc::DropPosition)
    requires
        0 <= i,
    ensures
        spec_insert_among(s, i, x, target, pos).0.len() == s.len(),
        forall|j: int| 0 <= j < i && j < s.len() ==> #[trigger] spec_insert_among(s, i, x, target, pos).0[j] == s[j],
    decreases s.len() - i,
{
    if i < s.len() && !spec_insert(s[i].children, x, target, pos).1 {
        lemma_insert_among_shape(s, i + 1, x, target, pos);
    }
}

proof fn lemma_find_after_insert_among(s: Seq<SceneNodeView>, i: int, x: SceneNodeView, target: u64, pos: crate::scene_doc::DropPosition)
    requires
        0 <= i,
        id_bag(s).count(x.id) == 0,
        spec_insert_among(s, i, x, target, pos).1,
    ensures
        spec_find_from(spec_insert_among(s, i, x, target, pos).0, i, x.id) == Some(x),
    decreases s, 0int, s.len() - i,
{
    lemma_bag_from_elems(s, 0, x.id);
    assert(s[i].id != x.id && id_bag(s[i].children).count(x.id) == 0);
    let t = spec_insert_among(s, i, x, target, pos).0;
    if spec_insert(s[i].children, x, target, pos).1 {
        lemma_find_after_insert(s[i].children, x, target, pos);
        assert(t[i].id == s[i].id);
    } else {
        lemma_find_after_insert_among(s, i + 1, x, target, pos);
        lemma_insert_among_shape(s, i + 1, x, target, pos);
        assert(t[i] == s[i]);
        lemma_find_bag(s[i].children, x.id);
    }
}

/// A node whose id does not occur, placed next to or inside a target that
/// is found, is what a search for its id finds.
proof fn lemma_find_after_insert(s: Seq<SceneNodeView>, x: SceneNodeView, target: u64, pos: crate::scene_doc::DropPosition)
    requires
        id_bag(s).count(x.id) == 0,
        spec_insert(s, x, target, pos).1,
    ensures
        spec_find(spec_insert(s, x, target, pos).0, x.id) == Some(x),
    decreases s, 1int, 0int,
{
    let a = x.id;
    lemma_bag_from_elems(s, 0, a);
    let p = level_index_from(s, 0, target);
    lemma_level_index(s, 0, target);
    if 0 <= p < s.len() {
        let t = spec_place(s, p, x, pos);
        assert forall|j: int| 0 <= j < p implies #[trigger] t[j].id != a && spec_find(t[j].children, a) is None by {
            assert(t[j] == s[j]);
            lemma_find_bag(s[j].children, a);
        }
        lemma_find_from_skip(t, 0, p, a);
        match pos {
            crate::scene_doc::DropPosition::Before => {
                assert(t[p] == x);
                assert(spec_find_from(t, p, a) == Some(x));
            },
            crate::scene_doc::DropPosition::After => {
                assert(t[p] == s[p]);
                lemma_find_bag(s[p].children, a);
                assert(t[p + 1] == x);
                assert(spec_find_from(t, p + 1, a) == Some(x));
                assert(spec_find_from(t, p, a) == Some(x));
            },
            crate::scene_doc::DropPosition::Inside => {
                lemma_find_pushed(s[p].children, x);
                assert(t[p].id == s[p].id);
                assert(t[p].children == s[p].children.push(x));
                assert(spec_find_from(t, p, a) == Some(x));
            },
        }
    } else {
        lemma_find_after_insert_among(s, 0, x, target, pos);
    }
}

/// A drag-and-drop move carries the moved node over whole: where its id
/// occurs once, after a move that went through `find_node` gives the same
/// node, subtree and all, as before.
pub proof fn law_move_keeps_moved_node(s: Seq<SceneNodeView>, node_id: u64, target_id: u64, pos: crate::scene_doc::DropPosition)
    requires
        id_bag(s).count(node_id) <= 1,
    ensures
        spec_move(s, node_id, target_id, pos).1 ==> spec_find(spec_move(s, node_id, target_id, pos).0, node_id)
            == spec_find(s, node_id),
{
    if spec_move(s, node_id, target_id, pos).1 {
        let (s1, r) = spec_take(s, node_id);
        let n = r->0;
        lemma_take_is_find(s, node_id);
        lemma_take_bag(s, node_id);
        assert(id_bag(s1).count(node_id) == 0) by {
            assert(node_bag(n).count(node_id) >= 1);
            assert(id_bag(s).count(node_id) == id_bag(s1).count(node_id) + node_bag(n).count(node_id));
        }
        if spec_insert(s1, n, target_id, pos).1 {
            lemma_find_after_insert(s1, n, target_id, pos);
        } else {
            lemma_find_pushed(s1, n);
        }
    }
}

/// Where an id occurs at most once, the node `take_node` detaches is the one
/// `find_node` finds (the scene left behind is the one `remove_node` leaves:
/// both contracts give `spec_take(s, id).0`).
pub proof fn law_take_gives_found_node(s: Seq<SceneNodeView>, id: u64)
    requires
        id_bag(s).count(id) <= 1,
    ensures
        spec_take(s, id).1 == spec_find(s, id),
{
    lemma_take_is_find(s, id);
}

// ─── Search and the id list ────────────────────────────────────────────────

proof fn lemma_find_entries_from(s: Seq<SceneNodeView>, i: int, id: u64)
    requires
        0 <= i,
    ensures
        spec_find_from(s, i, id) is None <==> forall|k: int| 0 <= k < spec_entries_from(s, i).len()
            ==> (#[trigger] spec_entries_from(s, i)[k]).0 != id,
        spec_find_from(s, i, id) matches Some(n) ==> n.id == id && exists|k: int|
            0 <= k < spec_entries_from(s, i).len() && #[trigger] spec_entries_from(s, i)[k] == (id, n.name)
                && forall|j: int| 0 <= j < k ==> (#[trigger] spec_entries_from(s, i)[j]).0 != id,
    decreases s, 0int, s.len() - i,
{
    if i < s.len() {
        let e = spec_entries_from(s, i);
        let h = (s[i].id, s[i].name);
        let c = spec_entries(s[i].children);
        let r = spec_entries_from(s, i + 1);
        assert(e == seq![h] + c + r);
        assert(e[0] == h);
        assert forall|k: int| 0 <= k < c.len() implies e[1 + k] == #[trigger] c[k] by {}
        assert forall|k: int| 0 <= k < r.len() implies e[1 + c.len() + k] == #[trigger] r[k] by {}
        if s[i].id == id {
            assert(e[0] == (id, s[i].name));
        } else {
            lemma_find_entries(s[i].children, id);
            lemma_find_entries_from(s, i + 1, id);
            match spec_find(s[i].children, id) {
                Some(n) => {
                    let kc = choose|k: int| 0 <= k < c.len() && #[trigger] c[k] == (id, n.name)
                        && forall|j: int| 0 <= j < k ==> (#[trigger] c[j]).0 != id;
                    assert(e[1 + kc] == c[kc]);
                    assert forall|j: int| 0 <= j < 1 + kc implies (#[trigger] e[j]).0 != id by {
                        if j > 0 {
                            assert(e[1 + (j - 1)] == c[j - 1]);
                        }
                    }
                    assert(e[0].0 == s[i].id);
                },
                None => {
                    assert forall|k: int| 0 <= k < 1 + c.len() implies (#[trigger] e[k]).0 != id by {
                        if k > 0 {
                            assert(e[1 + (k - 1)] == c[k - 1]);
                        }
                    }
                    if spec_find_from(s, i + 1, id) is None {
                        assert forall|k: int| 0 <= k < e.len() implies (#[trigger] e[k]).0 != id by {
                            if k >= 1 + c.len() {
                                assert(e[1 + c.len() + (k - 1 - c.len())] == r[k - 1 - c.len()]);
                            }
                        }
                    } else {
                        let n = spec_find_from(s, i + 1, id)->0;
                        let kr = choose|k: int| 0 <= k < r.len() && #[trigger] r[k] == (id, n.name)
                            && forall|j: int| 0 <= j < k ==> (#[trigger] r[j]).0 != id;
                        assert(e[1 + c.len() + kr] == r[kr]);
                        assert forall|j: int| 0 <= j < 1 + c.len() + kr implies (#[trigger] e[j]).0 != id by {
                            if j >= 1 + c.len() {
                                assert(e[1 + c.len() + (j - 1 - c.len())] == r[j - 1 - c.len()]);
                            }
                        }
                        assert(e[1 + c.len() + kr].0 == id);
                    }
                },
            }
        }
    }
}

proof fn lemma_find_entries(s: Seq<SceneNodeView>, id: u64)
    ensures
        spec_find(s, id) is None <==> forall|k: int| 0 <= k < spec_entries(s).len()
            ==> (#[trigger] spec_entries(s)[k]).0 != id,
        spec_find(s, id) matches Some(n) ==> n.id == id && exists|k: int|
            0 <= k < spec_entries(s).len() && #[trigger] spec_entries(s)[k] == (id, n.name)
                && forall|j: int| 0 <= j < k ==> (#[trigger] spec_entries(s)[j]).0 != id,
    decreases s, 1int, 0int,
{
    lemma_find_entries_from(s, 0, id);
    assert(spec_entries(s) == spec_entries_from(s, 0));
    assert(spec_find(s, id) == spec_find_from(s, 0, id));
}

/// `find_node` finds a node exactly when its id is among the `(id, name)`
/// pairs of `collect_ids`, and the node it finds is the first such pair in
/// that pre-order list: same id, same name.
pub proof fn law_find_is_first_listed(s: Seq<SceneNodeView>, id: u64)
    ensures
        spec_find(s, id) is Some <==> exists|k: int| 0 <= k < spec_entries(s).len() && (#[trigger] spec_entries(s)[k]).0 == id,
        spec_find(s, id) matches Some(n) ==> n.id == id && exists|k: int|
            0 <= k < spec_entries(s).len() && #[trigger] spec_entries(s)[k] == (id, n.name)
                && forall|j: int| 0 <= j < k ==> (#[trigger] spec_entries(s)[j]).0 != id,
{
    lemma_find_entries(s, id);
    if spec_find(s, id) is Some {
        let n = spec_find(s, id)->0;
        let k = choose|k: int| 0 <= k < spec_entries(s).len() && #[trigger] spec_entries(s)[k] == (id, n.name)
            && forall|j: int| 0 <= j < k ==> (#[trigger] spec_entries(s)[j]).0 != id;
        assert(spec_entries(s)[k].0 == id);
    }
}

// ─── Writing a node twice ──────────────────────────────────────────────────

proof fn lemma_replace_twice_from(s: Seq<SceneNodeView>, i: int, id: u64, a: SceneNodeView, b: SceneNodeView)
    requires
        0 <= i,
        a.id == id,
        spec_find_from(s, i, id) is Some,
    ensures
        spec_replace_from(spec_replace_from(s, i, id, a), i, id, b) == spec_replace_from(s, i, id, b),
    decreases s, 0int, s.len() - i,
{
    let t = spec_replace_from(s, i, id, a);
    if s[i].id == id {
        assert(t[i] == a);
        assert(t.update(i, b) =~= s.update(i, b));
    } else if spec_find(s[i].children, id) is Some {
        lemma_replace_twice(s[i].children, id, a, b);
        lemma_find_after_replace(s[i].children, id, a);
        assert(t[i].id == s[i].id);
        assert(t[i].children == spec_replace(s[i].children, id, a));
        assert(t.update(i, with_children(t[i], spec_replace(t[i].children, id, b)))
            =~= s.update(i, with_children(s[i], spec_replace(s[i].children, id, b))));
    } else {
        lemma_replace_twice_from(s, i + 1, id, a, b);
        lemma_replace_from_shape(s, i + 1, id, a);
        assert(t[i] == s[i]);
        let u = spec_replace_from(t, i + 1, id, b);
        lemma_replace_from_shape(t, i + 1, id, b);
        lemma_replace_from_shape(s, i + 1, id, b);
        assert(spec_replace_from(t, i, id, b) == u);
    }
}

proof fn lemma_replace_twice(s: Seq<SceneNodeView>, id: u64, a: SceneNodeView, b: SceneNodeView)
    requires
        a.id == id,
        spec_find(s, id) is Some,
    ensures
        spec_replace(spec_replace(s, id, a), id, b) == spec_replace(s, id, b),
    decreases s, 1int, 0int,
{
    lemma_replace_twice_from(s, 0, id, a, b);
}

proof fn lemma_replace_same_from(s: Seq<SceneNodeView>, i: int, id: u64)
    requires
        0 <= i,
        spec_find_from(s, i, id) is Some,
    ensures
        spec_replace_from(s, i, id, spec_find_from(s, i, id)->0) == s,
    decreases s, 0int, s.len() - i,
{
    if s[i].id == id {
        assert(s.update(i, s[i]) =~= s);
    } else if spec_find(s[i].children, id) is Some {
        lemma_replace_same(s[i].children, id);
        assert(with_children(s[i], s[i].children) == s[i]);
        assert(s.update(i, s[i]) =~= s);
    } else {
        lemma_replace_same_from(s, i + 1, id);
    }
}

proof fn lemma_replace_same(s: Seq<SceneNodeView>, id: u64)
    requires
        spec_find(s, id) is Some,
    ensures
        spec_replace(s, id, spec_find(s, id)->0) == s,
    decreases s, 1int, 0int,
{
    lemma_replace_same_from(s, 0, id);
}

/// Writing the node with id `id` as `a`, then the node `find_node` then
/// finds as the node first found, gives back the scene: a change made
/// through `find_node_mut` is taken back by writing the old node again.
pub proof fn law_write_back_restores(s: Seq<SceneNodeView>, id: u64, a: SceneNodeView)
    requires
        spec_find(s, id) is Some,
        a.id == id,
    ensures
        spec_find(spec_replace(s, id, a), id) == Some(a),
        spec_replace(spec_replace(s, id, a), id, spec_find(s, id)->0) == s,
{
    lemma_find_after_replace(s, id, a);
    lemma_replace_twice(s, id, a, spec_find(s, id)->0);
    lemma_replace_same(s, id);
}

/// A drop lands next to its target: where the target is the node at index
/// `p` of a level (the first there with its id), the node dropped before it
/// takes index `p`, the node dropped after it takes index `p + 1`, and the
/// nodes of the level keep their order around it; a node dropped inside
/// becomes the target's last child, the target otherwise unchanged. A
/// document's insertion does this on the top level, and, where the target
/// lies deeper, on the level that holds it.
pub proof fn law_drop_lands_next_to_target(
    s: Seq<SceneNodeView>,
    x: SceneNodeView,
    target: u64,
    pos: crate::scene_doc::DropPosition,
    p: int,
)
    requires
        0 <= p < s.len(),
        s[p].id == target,
        forall|j: int| 0 <= j < p ==> #[trigger] s[j].id != target,
    ensures
        spec_insert(s, x, target, pos).1,
        spec_insert_node(s, x, target, pos) == spec_insert(s, x, target, pos).0,
        ({
            let t = spec_insert(s, x, target, pos).0;
            &&& pos == crate::scene_doc::DropPosition::Before ==> {
                &&& t.len() == s.len() + 1
                &&& t[p] == x
                &&& forall|j: int| 0 <= j < p ==> #[trigger] t[j] == s[j]
                &&& forall|j: int| p <= j < s.len() ==> #[trigger] t[j + 1] == s[j]
            }
            &&& pos == crate::scene_doc::DropPosition::After ==> {
                &&& t.len() == s.len() + 1
                &&& t[p + 1] == x
                &&& forall|j: int| 0 <= j <= p ==> #[trigger] t[j] == s[j]
                &&& forall|j: int| p < j < s.len() ==> #[trigger] t[j + 1] == s[j]
            }
            &&& pos == crate::scene_doc::DropPosition::Inside ==> {
                &&& t.len() == s.len()
                &&& t[p].children == s[p].children.push(x)
                &&& t[p].id == s[p].id && t[p].name == s[p].name && t[p].kind == s[p].kind
                &&& t[p].props == s[p].props && t[p].visible == s[p].visible
                &&& forall|j: int| 0 <= j < s.len() && j != p ==> #[trigger] t[j] == s[j]
            }
        }),
{
    lemma_level_index_at(s, 0, p, target);
    assert(level_index_from(s, 0, target) == p);
}

/// A search from index `i` finds a node with id `id` where one stands at
/// this level from `i` on.
proof fn lemma_find_from_level(s: Seq<SceneNodeView>, i: int, m: int, id: u64)
    requires
        0 <= i <= m < s.len(),
        s[m].id == id,
    ensures
        spec_find_from(s, i, id) is Some,
    decreases m - i,
{
    if s[i].id != id && spec_find(s[i].children, id) is None {
        lemma_find_from_level(s, i + 1, m, id);
    }
}

/// Where no node of this level from `i` on has id `target`, insertion
/// among their subtrees succeeds exactly when a search there finds it.
proof fn lemma_insert_among_found(s: Seq<SceneNodeView>, i: int, x: SceneNodeView, target: u64, pos: crate::scene_doc::DropPosition)
    requires
        0 <= i,
        forall|j: int| i <= j < s.len() ==> #[trigger] s[j].id != target,
    ensures
        spec_insert_among(s, i, x, target, pos).1 == spec_find_from(s, i, target) is Some,
    decreases s, 0int, s.len() - i,
{
    if i < s.len() {
        lemma_insert_found(s[i].children, x, target, pos);
        lemma_insert_among_found(s, i + 1, x, target, pos);
    }
}

/// Insertion finds its target exactly when a search for it does.
proof fn lemma_insert_found(s: Seq<SceneNodeView>, x: SceneNodeView, target: u64, pos: crate::scene_doc::DropPosition)
    ensures
        spec_insert(s, x, target, pos).1 == spec_find(s, target) is Some,
    decreases s, 1int, 0int,
{
    let p = level_index_from(s, 0, target);
    lemma_level_index(s, 0, target);
    if 0 <= p < s.len() {
        lemma_find_from_level(s, 0, p, target);
    } else {
        lemma_insert_among_found(s, 0, x, target, pos);
    }
}

/// Insertion among the subtrees from `k` reaches the first of them, `i`,
/// that holds the target.
proof fn lemma_insert_among_reaches(s: Seq<SceneNodeView>, k: int, i: int, x: SceneNodeView, target: u64, pos: crate::scene_doc::DropPosition)
    requires
        0 <= k <= i < s.len(),
        forall|j: int| k <= j < i ==> !(#[trigger] spec_insert(s[j].children, x, target, pos)).1,
        spec_insert(s[i].children, x, target, pos).1,
    ensures
        spec_insert_among(s, k, x, target, pos)
            == (s.update(i, with_children(s[i], spec_insert(s[i].children, x, target, pos).0)), true),
    decreases i - k,
{
    if k < i {
        assert(!spec_insert(s[k].children, x, target, pos).1);
        lemma_insert_among_reaches(s, k + 1, i, x, target, pos);
    }
}

/// Where the target is not on a level, a drop goes into the subtree of the
/// first node of that level whose subtree holds it: that node's children
/// take the drop, by the same rule one level down, and nothing else
/// changes.
pub proof fn law_drop_descends_to_target(
    s: Seq<SceneNodeView>,
    x: SceneNodeView,
    target: u64,
    pos: crate::scene_doc::DropPosition,
    i: int,
)
    requires
        0 <= i < s.len(),
        forall|j: int| 0 <= j < s.len() ==> #[trigger] s[j].id != target,
        forall|j: int| 0 <= j < i ==> spec_find(#[trigger] s[j].children, target) is None,
        spec_find(s[i].children, target) is Some,
    ensures
        spec_insert(s, x, target, pos).1,
        spec_insert(s[i].children, x, target, pos).1,
        spec_insert_node(s, x, target, pos) == spec_insert(s, x, target, pos).0,
        ({
            let t = spec_insert(s, x, target, pos).0;
            &&& t.len() == s.len()
            &&& t[i].children == spec_insert(s[i].children, x, target, pos).0
            &&& t[i].id == s[i].id && t[i].name == s[i].name && t[i].kind == s[i].kind
            &&& t[i].props == s[i].props && t[i].visible == s[i].visible
            &&& forall|j: int| 0 <= j < s.len() && j != i ==> #[trigger] t[j] == s[j]
        }),
{
    lemma_level_index(s, 0, target);
    assert(level_index_from(s, 0, target) == -1);
    assert forall|j: int| 0 <= j < i implies !(#[trigger] spec_insert(s[j].children, x, target, pos)).1 by {
        lemma_insert_found(s[j].children, x, target, pos);
    }
    lemma_insert_found(s[i].children, x, target, pos);
    lemma_insert_among_reaches(s, 0, i, x, target, pos);
}

} // verus!
