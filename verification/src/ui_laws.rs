//! What the UI document operations keep: the laws of the scene document,
//! for the UI tree.

use vstd::multiset::Multiset;
use vstd::prelude::*;

use crate::ui_doc::{
    id_bag, id_bag_from, level_index_from, lemma_level_index, lemma_take_none, node_bag, spec_add_child,
    spec_find, spec_find_from, spec_replace, spec_replace_from, spec_take, spec_take_among,
    with_children,
};
use crate::ui_model::EditorUiNodeView;

verus! {

broadcast use vstd::multiset::group_multiset_axioms;

/// Two suffixes with the same nodes have the same id multiset.
proof fn lemma_bag_from_eq(a: Seq<EditorUiNodeView>, i: int, b: Seq<EditorUiNodeView>, j: int)
    requires
        0 <= i <= a.len(),
        0 <= j <= b.len(),
        a.len() - i == b.len() - j,
        forall|k: int| i <= k < a.len() ==> #[trigger] a[k] == b[k + (j - i)],
    ensures
        id_bag_from(a, i) == id_bag_from(b, j),
    decreases a.len() - i,
{
    if i < a.len() {
        assert(a[i] == b[i + (j - i)]);
        lemma_bag_from_eq(a, i + 1, b, j + 1);
    }
}

proof fn lemma_bag_update_from(s: Seq<EditorUiNodeView>, i: int, x: EditorUiNodeView, k: int)
    requires
        0 <= k <= i < s.len(),
    ensures
        id_bag_from(s.update(i, x), k).add(node_bag(s[i])) =~= id_bag_from(s, k).add(node_bag(x)),
    decreases i - k,
{
    let t = s.update(i, x);
    if k == i {
        lemma_bag_from_eq(t, i + 1, s, i + 1);
        assert(t[i] == x);
        assert(id_bag_from(t, i) == Multiset::singleton(x.id).add(id_bag(x.children)).add(id_bag_from(t, i + 1)));
        assert(id_bag_from(s, i) == Multiset::singleton(s[i].id).add(id_bag(s[i].children)).add(id_bag_from(s, i + 1)));
    } else {
        lemma_bag_update_from(s, i, x, k + 1);
        assert(t[k] == s[k]);
        assert(id_bag_from(t, k) == Multiset::singleton(s[k].id).add(id_bag(s[k].children)).add(id_bag_from(t, k + 1)));
        assert(id_bag_from(s, k) == Multiset::singleton(s[k].id).add(id_bag(s[k].children)).add(id_bag_from(s, k + 1)));
        let a = Multiset::singleton(s[k].id).add(id_bag(s[k].children));
        assert(id_bag_from(t, k).add(node_bag(s[i])) =~= a.add(id_bag_from(t, k + 1).add(node_bag(s[i]))));
        assert(id_bag_from(s, k).add(node_bag(x)) =~= a.add(id_bag_from(s, k + 1).add(node_bag(x))));
    }
}

/// Replacing one node changes the id multiset by that node's subtree.
pub proof fn lemma_bag_update(s: Seq<EditorUiNodeView>, i: int, x: EditorUiNodeView)
    requires
        0 <= i < s.len(),
    ensures
        id_bag(s.update(i, x)).add(node_bag(s[i])) =~= id_bag(s).add(node_bag(x)),
{
    lemma_bag_update_from(s, i, x, 0);
}

proof fn lemma_bag_remove_from(s: Seq<EditorUiNodeView>, i: int, k: int)
    requires
        0 <= k <= i < s.len(),
    ensures
        id_bag_from(s.remove(i), k).add(node_bag(s[i])) =~= id_bag_from(s, k),
    decreases i - k,
{
    let t = s.remove(i);
    if k == i {
        lemma_bag_from_eq(t, i, s, i + 1);
    } else {
        lemma_bag_remove_from(s, i, k + 1);
    }
}

/// Removing one node takes away that node's subtree from the id multiset.
pub proof fn lemma_bag_remove(s: Seq<EditorUiNodeView>, i: int)
    requires
        0 <= i < s.len(),
    ensures
        id_bag(s.remove(i)).add(node_bag(s[i])) =~= id_bag(s),
{
    lemma_bag_remove_from(s, i, 0);
}

proof fn lemma_bag_insert_from(s: Seq<EditorUiNodeView>, i: int, x: EditorUiNodeView, k: int)
    requires
        0 <= k <= i <= s.len(),
    ensures
        id_bag_from(s.insert(i, x), k) =~= id_bag_from(s, k).add(node_bag(x)),
    decreases i - k,
{
    let t = s.insert(i, x);
    if k == i {
        lemma_bag_from_eq(t, i + 1, s, i);
    } else {
        lemma_bag_insert_from(s, i, x, k + 1);
    }
}

/// Inserting one node adds that node's subtree to the id multiset.
pub proof fn lemma_bag_insert(s: Seq<EditorUiNodeView>, i: int, x: EditorUiNodeView)
    requires
        0 <= i <= s.len(),
    ensures
        id_bag(s.insert(i, x)) =~= id_bag(s).add(node_bag(x)),
{
    lemma_bag_insert_from(s, i, x, 0);
}

pub proof fn lemma_bag_push(s: Seq<EditorUiNodeView>, x: EditorUiNodeView)
    ensures
        id_bag(s.push(x)) =~= id_bag(s).add(node_bag(x)),
{
    assert(s.push(x) =~= s.insert(s.len() as int, x));
    lemma_bag_insert(s, s.len() as int, x);
}

proof fn lemma_bag_cancel_out(a: Multiset<u64>, b: Multiset<u64>, c: Multiset<u64>, d: Multiset<u64>, e: Multiset<u64>)
    requires
        a.add(c) == b.add(d),
        c == d.add(e),
    ensures
        b == a.add(e),
{
    assert forall|v: u64| #[trigger] b.count(v) == a.add(e).count(v) by {
        broadcast use vstd::multiset::group_multiset_axioms;
        assert(a.add(c).count(v) == b.add(d).count(v));
        assert(c.count(v) == d.add(e).count(v));
        assert(a.add(c).count(v) == a.count(v) + c.count(v));
        assert(b.add(d).count(v) == b.count(v) + d.count(v));
        assert(d.add(e).count(v) == d.count(v) + e.count(v));
        assert(a.add(e).count(v) == a.count(v) + e.count(v));
    }
    assert(b =~= a.add(e));
}

proof fn lemma_bag_cancel_in(a: Multiset<u64>, b: Multiset<u64>, c: Multiset<u64>, d: Multiset<u64>, e: Multiset<u64>)
    requires
        a.add(c) == b.add(d),
        d == c.add(e),
    ensures
        a == b.add(e),
{
    assert forall|v: u64| #[trigger] a.count(v) == b.add(e).count(v) by {
        broadcast use vstd::multiset::group_multiset_axioms;
        assert(a.add(c).count(v) == b.add(d).count(v));
        assert(d.count(v) == c.add(e).count(v));
        assert(a.add(c).count(v) == a.count(v) + c.count(v));
        assert(b.add(d).count(v) == b.count(v) + d.count(v));
        assert(c.add(e).count(v) == c.count(v) + e.count(v));
        assert(b.add(e).count(v) == b.count(v) + e.count(v));
    }
    assert(a =~= b.add(e));
}

proof fn lemma_bag_from_no_id(s: Seq<EditorUiNodeView>, i: int, id: u64)
    requires
        0 <= i,
        forall|j: int| i <= j < s.len() ==> #[trigger] s[j].id != id && id_bag(s[j].children).count(id) == 0,
    ensures
        id_bag_from(s, i).count(id) == 0,
    decreases s.len() - i,
{
    if i < s.len() {
        assert(s[i].id != id && id_bag(s[i].children).count(id) == 0);
        lemma_bag_from_no_id(s, i + 1, id);
    }
}

/// What `spec_find` finds carries the id looked for, and it finds something
/// exactly when the id occurs in the forest.
pub proof fn lemma_find_bag(s: Seq<EditorUiNodeView>, id: u64)
    ensures
        spec_find(s, id) matches Some(n) ==> n.id == id && id_bag(s).count(id) > 0,
        spec_find(s, id) is None ==> id_bag(s).count(id) == 0,
    decreases s, 1int, 0int,
{
    lemma_find_from_bag(s, 0, id);
}

proof fn lemma_find_from_bag(s: Seq<EditorUiNodeView>, i: int, id: u64)
    requires
        0 <= i,
    ensures
        spec_find_from(s, i, id) matches Some(n) ==> n.id == id && id_bag_from(s, i).count(id) > 0,
        spec_find_from(s, i, id) is None ==> id_bag_from(s, i).count(id) == 0,
    decreases s, 0int, s.len() - i,
{
    if i < s.len() {
        lemma_find_bag(s[i].children, id);
        lemma_find_from_bag(s, i + 1, id);
    }
}

/// What `spec_take` detaches carries the id looked for, with its whole
/// subtree; when nothing is detached the id does not occur.
pub proof fn lemma_take_bag(s: Seq<EditorUiNodeView>, id: u64)
    ensures
        spec_take(s, id).1 matches Some(n) ==> n.id == id && id_bag(s) =~= id_bag(spec_take(s, id).0).add(node_bag(n)),
        spec_take(s, id).1 is None ==> id_bag(s).count(id) == 0,
    decreases s, 1int, 0int,
{
    let p = level_index_from(s, 0, id);
    lemma_level_index(s, 0, id);
    if 0 <= p < s.len() {
        lemma_bag_remove(s, p);
    } else {
        lemma_take_among_bag(s, 0, id);
        if spec_take(s, id).1 is None {
            lemma_bag_from_no_id(s, 0, id);
        }
    }
}

proof fn lemma_take_among_bag(s: Seq<EditorUiNodeView>, i: int, id: u64)
    requires
        0 <= i,
    ensures
        spec_take_among(s, i, id).1 matches Some(n) ==> n.id == id && id_bag(s) =~= id_bag(spec_take_among(s, i, id).0).add(node_bag(n)),
        spec_take_among(s, i, id).1 is None ==> forall|j: int| i <= j < s.len() ==> #[trigger] id_bag(s[j].children).count(id) == 0,
    decreases s, 0int, s.len() - i,
{
    if i < s.len() {
        lemma_take_bag(s[i].children, id);
        lemma_take_among_bag(s, i + 1, id);
        let (c, r) = spec_take(s[i].children, id);
        if r is Some {
            let n = r->0;
            let x = with_children(s[i], c);
            lemma_bag_update(s, i, x);
            assert(node_bag(s[i]) =~= node_bag(x).add(node_bag(n)));
            lemma_bag_cancel_out(id_bag(s.update(i, x)), id_bag(s), node_bag(s[i]), node_bag(x), node_bag(n));
        }
    }
}

/// Replacing the node that `spec_find` finds swaps its subtree for the new
/// one in the id multiset.
pub proof fn lemma_replace_bag(s: Seq<EditorUiNodeView>, id: u64, new: EditorUiNodeView)
    requires
        spec_find(s, id) is Some,
    ensures
        id_bag(spec_replace(s, id, new)).add(node_bag(spec_find(s, id)->0)) =~= id_bag(s).add(node_bag(new)),
    decreases s, 1int, 0int,
{
    lemma_replace_from_bag(s, 0, id, new);
}

proof fn lemma_replace_from_bag(s: Seq<EditorUiNodeView>, i: int, id: u64, new: EditorUiNodeView)
    requires
        0 <= i,
        spec_find_from(s, i, id) is Some,
    ensures
        id_bag(spec_replace_from(s, i, id, new)).add(node_bag(spec_find_from(s, i, id)->0)) =~= id_bag(s).add(node_bag(new)),
    decreases s, 0int, s.len() - i,
{
    if s[i].id == id {
        lemma_bag_update(s, i, new);
    } else if spec_find(s[i].children, id) is Some {
        let o = spec_find(s[i].children, id)->0;
        let c = spec_replace(s[i].children, id, new);
        lemma_replace_bag(s[i].children, id, new);
        let y = with_children(s[i], c);
        lemma_bag_update(s, i, y);
        // node_bag(y) + bag(o) == node_bag(s[i]) + bag(new)
        assert forall|v: u64| #[trigger] node_bag(y).add(node_bag(o)).count(v) == node_bag(s[i]).add(node_bag(new)).count(v) by {
            broadcast use vstd::multiset::group_multiset_axioms;
            assert(id_bag(c).add(node_bag(o)).count(v) == id_bag(s[i].children).add(node_bag(new)).count(v));
        }
        assert(node_bag(y).add(node_bag(o)) =~= node_bag(s[i]).add(node_bag(new)));
        let t = s.update(i, y);
        assert forall|v: u64| #[trigger] id_bag(t).add(node_bag(o)).count(v) == id_bag(s).add(node_bag(new)).count(v) by {
            broadcast use vstd::multiset::group_multiset_axioms;
            assert(id_bag(t).add(node_bag(s[i])).count(v) == id_bag(s).add(node_bag(y)).count(v));
            assert(node_bag(y).add(node_bag(o)).count(v) == node_bag(s[i]).add(node_bag(new)).count(v));
        }
    } else {
        lemma_replace_from_bag(s, i + 1, id, new);
    }
}

proof fn lemma_bag_from_elems(s: Seq<EditorUiNodeView>, k: int, id: u64)
    requires
        0 <= k,
        id_bag_from(s, k).count(id) == 0,
    ensures
        forall|j: int| k <= j < s.len() ==> #[trigger] s[j].id != id && id_bag(s[j].children).count(id) == 0,
    decreases s.len() - k,
{
    broadcast use vstd::multiset::group_multiset_axioms;

    if k < s.len() {
        assert(id_bag_from(s, k).count(id) == 1 * (if s[k].id == id { 1int } else { 0int }) + id_bag(s[k].children).count(id) + id_bag_from(s, k + 1).count(id));
        lemma_bag_from_elems(s, k + 1, id);
    }
}

proof fn lemma_find_from_skip(t: Seq<EditorUiNodeView>, i: int, m: int, id: u64)
    requires
        0 <= i <= m <= t.len(),
        forall|j: int| i <= j < m ==> #[trigger] t[j].id != id && spec_find(t[j].children, id) is None,
    ensures
        spec_find_from(t, i, id) == spec_find_from(t, m, id),
    decreases m - i,
{
    if i < m {
        assert(t[i].id != id && spec_find(t[i].children, id) is None);
        lemma_find_from_skip(t, i + 1, m, id);
    }
}

/// A node appended to a forest where its id does not occur is what a search
/// for that id finds.
proof fn lemma_find_pushed(s: Seq<EditorUiNodeView>, x: EditorUiNodeView)
    requires
        id_bag(s).count(x.id) == 0,
    ensures
        spec_find(s.push(x), x.id) == Some(x),
{
    let t = s.push(x);
    lemma_bag_from_elems(s, 0, x.id);
    assert forall|j: int| 0 <= j < s.len() implies #[trigger] t[j].id != x.id && spec_find(t[j].children, x.id) is None by {
        assert(t[j] == s[j]);
        assert(s[j].id != x.id && id_bag(s[j].children).count(x.id) == 0);
        lemma_find_bag(s[j].children, x.id);
    }
    lemma_find_from_skip(t, 0, s.len() as int, x.id);
}

proof fn lemma_replace_from_shape(s: Seq<EditorUiNodeView>, i: int, id: u64, new: EditorUiNodeView)
    requires
        0 <= i,
    ensures
        spec_replace_from(s, i, id, new).len() == s.len(),
        forall|j: int| 0 <= j < i && j < s.len() ==> #[trigger] spec_replace_from(s, i, id, new)[j] == s[j],
    decreases s.len() - i,
{
    if i < s.len() && s[i].id != id && !(spec_find(s[i].children, id) is Some) {
        lemma_replace_from_shape(s, i + 1, id, new);
    }
}

proof fn lemma_find_after_add_from(s: Seq<EditorUiNodeView>, i: int, pid: u64, p: EditorUiNodeView, x: EditorUiNodeView)
    requires
        0 <= i,
        spec_find_from(s, i, pid) == Some(p),
        id_bag(s).count(x.id) == 0,
    ensures
        spec_find_from(spec_replace_from(s, i, pid, with_children(p, p.children.push(x))), i, x.id) == Some(x),
    decreases s, 0int, s.len() - i,
{
    let np = with_children(p, p.children.push(x));
    lemma_bag_from_elems(s, 0, x.id);
    assert(s[i].id != x.id && id_bag(s[i].children).count(x.id) == 0);
    if s[i].id == pid {
        lemma_find_pushed(s[i].children, x);
    } else if spec_find(s[i].children, pid) is Some {
        lemma_find_after_add(s[i].children, pid, x);
    } else {
        lemma_find_after_add_from(s, i + 1, pid, p, x);
        lemma_replace_from_shape(s, i + 1, pid, np);
        lemma_find_bag(s[i].children, x.id);
        let t = spec_replace_from(s, i + 1, pid, np);
        assert(t[i] == s[i]);
    }
}

proof fn lemma_find_after_add(s: Seq<EditorUiNodeView>, pid: u64, x: EditorUiNodeView)
    requires
        spec_find(s, pid) is Some,
        id_bag(s).count(x.id) == 0,
    ensures
        spec_find(
            spec_replace(s, pid, with_children(spec_find(s, pid)->0, spec_find(s, pid)->0.children.push(x))),
            x.id,
        ) == Some(x),
    decreases s, 1int, 0int,
{
    lemma_find_after_add_from(s, 0, pid, spec_find(s, pid)->0, x);
}

proof fn lemma_find_after_replace_from(s: Seq<EditorUiNodeView>, i: int, id: u64, new: EditorUiNodeView)
    requires
        0 <= i,
        spec_find_from(s, i, id) is Some,
        new.id == id,
    ensures
        spec_find_from(spec_replace_from(s, i, id, new), i, id) == Some(new),
    decreases s, 0int, s.len() - i,
{
    if s[i].id == id {
    } else if spec_find(s[i].children, id) is Some {
        lemma_find_after_replace(s[i].children, id, new);
    } else {
        lemma_find_after_replace_from(s, i + 1, id, new);
        lemma_replace_from_shape(s, i + 1, id, new);
        assert(spec_replace_from(s, i + 1, id, new)[i] == s[i]);
    }
}

proof fn lemma_find_after_replace(s: Seq<EditorUiNodeView>, id: u64, new: EditorUiNodeView)
    requires
        spec_find(s, id) is Some,
        new.id == id,
    ensures
        spec_find(spec_replace(s, id, new), id) == Some(new),
    decreases s, 1int, 0int,
{
    lemma_find_after_replace_from(s, 0, id, new);
}

// ─── Laws ──────────────────────────────────────────────────────────────────

/// A change made through `find_node_mut` that keeps the node's id is what
/// `find_node` then gives back.
pub proof fn law_find_after_write(s: Seq<EditorUiNodeView>, id: u64, new: EditorUiNodeView)
    requires
        spec_find(s, id) is Some,
        new.id == id,
    ensures
        spec_find(spec_replace(s, id, new), id) == Some(new),
{
    lemma_find_after_replace(s, id, new);
}

/// `remove_node` reports success exactly when `find_node`
/// finds the id.
pub proof fn law_remove_reports_presence(s: Seq<EditorUiNodeView>, id: u64)
    ensures
        spec_take(s, id).1 is Some <==> spec_find(s, id) is Some,
{
    lemma_take_bag(s, id);
    lemma_find_bag(s, id);
    if spec_take(s, id).1 is Some {
        let n = spec_take(s, id).1->0;
        assert(id_bag(s).count(id) > 0) by {
            broadcast use vstd::multiset::group_multiset_axioms;
            assert(node_bag(n).count(id) > 0);
        }
    }
}

/// the node removed is the one with the id asked for, and the document
/// loses exactly that node's subtree.
pub proof fn law_take_detaches_one_subtree(s: Seq<EditorUiNodeView>, id: u64)
    ensures
        spec_take(s, id).1 matches Some(n) ==> n.id == id && id_bag(s) == id_bag(spec_take(s, id).0).add(node_bag(n)),
        spec_take(s, id).1 is None ==> spec_take(s, id).0 == s,
{
    lemma_take_bag(s, id);
    lemma_take_none(s, id);
}

/// When an id occurs at most once, removing it leaves no node with that id.
pub proof fn law_removed_is_gone(s: Seq<EditorUiNodeView>, id: u64)
    requires
        id_bag(s).count(id) <= 1,
    ensures
        spec_find(spec_take(s, id).0, id) is None,
{
    lemma_take_bag(s, id);
    lemma_take_none(s, id);
    let t = spec_take(s, id).0;
    lemma_find_bag(t, id);
    if spec_take(s, id).1 is Some {
        let n = spec_take(s, id).1->0;
        assert(id_bag(t).count(id) == 0) by {
            broadcast use vstd::multiset::group_multiset_axioms;
            assert(node_bag(n).count(id) >= 1);
            assert(id_bag(s).count(id) == id_bag(t).count(id) + node_bag(n).count(id));
        }
    } else {
        lemma_find_bag(s, id);
    }
}

/// After `add_child` under no parent or under a parent that is in the
/// document, `find_node` on the new node's id gives the new node, provided
/// that id did not occur before.
pub proof fn law_find_after_add(s: Seq<EditorUiNodeView>, parent: Option<u64>, x: EditorUiNodeView)
    requires
        id_bag(s).count(x.id) == 0,
        parent matches Some(pid) ==> spec_find(s, pid) is Some,
    ensures
        spec_find(spec_add_child(s, parent, x), x.id) == Some(x),
{
    lemma_find_pushed(s, x);
    if let Some(pid) = parent {
        lemma_find_after_add(s, pid, x);
    }
}

/// `add_child` adds exactly the new subtree when the parent is there (or
/// none is given), and changes nothing otherwise.
pub proof fn law_add_adds_subtree(s: Seq<EditorUiNodeView>, parent: Option<u64>, x: EditorUiNodeView)
    ensures
        (parent is None || spec_find(s, parent->0) is Some) ==> id_bag(spec_add_child(s, parent, x)) == id_bag(s).add(node_bag(x)),
        (parent is Some && spec_find(s, parent->0) is None) ==> spec_add_child(s, parent, x) == s,
{
    lemma_bag_push(s, x);
    if let Some(pid) = parent {
        if spec_find(s, pid) is Some {
            let p = spec_find(s, pid)->0;
            let np = with_children(p, p.children.push(x));
            lemma_replace_bag(s, pid, np);
            lemma_bag_push(p.children, x);
            assert(node_bag(np) =~= node_bag(p).add(node_bag(x)));
            lemma_bag_cancel_in(id_bag(spec_replace(s, pid, np)), id_bag(s), node_bag(p), node_bag(np), node_bag(x));
        }
    }
}

// ─── Removing what was just added ──────────────────────────────────────────

/// Detaching an id that does not occur takes nothing and changes nothing.
proof fn lemma_take_absent(s: Seq<EditorUiNodeView>, id: u64)
    requires
        id_bag(s).count(id) == 0,
    ensures
        spec_take(s, id) == (s, Option::<EditorUiNodeView>::None),
{
    lemma_take_bag(s, id);
    lemma_take_none(s, id);
    if spec_take(s, id).1 is Some {
        let n = spec_take(s, id).1->0;
        assert(id_bag(s).count(id) > 0) by {
            broadcast use vstd::multiset::group_multiset_axioms;
            assert(node_bag(n).count(id) > 0);
        }
    }
}

proof fn lemma_level_index_at(t: Seq<EditorUiNodeView>, i: int, m: int, id: u64)
    requires
        0 <= i <= m < t.len(),
        t[m].id == id,
        forall|j: int| i <= j < m ==> #[trigger] t[j].id != id,
    ensures
        level_index_from(t, i, id) == m,
    decreases m - i,
{
    if i < m {
        lemma_level_index_at(t, i + 1, m, id);
    }
}

/// A node appended where its id does not occur is what detaching that id
/// takes, and the forest is left as before the append.
proof fn lemma_take_pushed(s: Seq<EditorUiNodeView>, x: EditorUiNodeView)
    requires
        id_bag(s).count(x.id) == 0,
    ensures
        spec_take(s.push(x), x.id) == (s, Some(x)),
{
    let t = s.push(x);
    lemma_bag_from_elems(s, 0, x.id);
    assert forall|j: int| 0 <= j < s.len() implies #[trigger] t[j].id != x.id by {
        assert(t[j] == s[j]);
    }
    lemma_level_index_at(t, 0, s.len() as int, x.id);
    assert(t.remove(s.len() as int) =~= s);
}

proof fn lemma_replace_from_ids(s: Seq<EditorUiNodeView>, i: int, id: u64, new: EditorUiNodeView)
    requires
        0 <= i,
        new.id == id,
    ensures
        spec_replace_from(s, i, id, new).len() == s.len(),
        forall|j: int| 0 <= j < s.len() ==> #[trigger] spec_replace_from(s, i, id, new)[j].id == s[j].id,
    decreases s.len() - i,
{
    if i < s.len() && s[i].id != id && !(spec_find(s[i].children, id) is Some) {
        lemma_replace_from_ids(s, i + 1, id, new);
    }
}

proof fn lemma_take_among_after_add(s: Seq<EditorUiNodeView>, i: int, pid: u64, p: EditorUiNodeView, x: EditorUiNodeView)
    requires
        0 <= i,
        spec_find_from(s, i, pid) == Some(p),
        p.id == pid,
        id_bag(s).count(x.id) == 0,
    ensures
        spec_take_among(spec_replace_from(s, i, pid, with_children(p, p.children.push(x))), i, x.id) == (s, Some(x)),
    decreases s, 0int, s.len() - i,
{
    let np = with_children(p, p.children.push(x));
    let t = spec_replace_from(s, i, pid, np);
    lemma_bag_from_elems(s, 0, x.id);
    assert(s[i].id != x.id && id_bag(s[i].children).count(x.id) == 0);
    if s[i].id == pid {
        assert(p == s[i]);
        lemma_take_pushed(s[i].children, x);
        assert(t[i].children == s[i].children.push(x));
        assert(with_children(t[i], s[i].children) == s[i]);
        assert(t.update(i, with_children(t[i], s[i].children)) =~= s);
    } else if spec_find(s[i].children, pid) is Some {
        lemma_take_after_add(s[i].children, pid, x);
        assert(with_children(t[i], s[i].children) == s[i]);
        assert(t.update(i, with_children(t[i], s[i].children)) =~= s);
    } else {
        lemma_take_among_after_add(s, i + 1, pid, p, x);
        lemma_replace_from_shape(s, i + 1, pid, np);
        assert(t[i] == s[i]);
        lemma_take_absent(s[i].children, x.id);
    }
}

proof fn lemma_take_after_add(s: Seq<EditorUiNodeView>, pid: u64, x: EditorUiNodeView)
    requires
        spec_find(s, pid) is Some,
        id_bag(s).count(x.id) == 0,
    ensures
        spec_take(
            spec_replace(s, pid, with_children(spec_find(s, pid)->0, spec_find(s, pid)->0.children.push(x))),
            x.id,
        ) == (s, Some(x)),
    decreases s, 1int, 0int,
{
    let p = spec_find(s, pid)->0;
    let np = with_children(p, p.children.push(x));
    let t = spec_replace(s, pid, np);
    lemma_find_bag(s, pid);
    lemma_replace_from_ids(s, 0, pid, np);
    lemma_bag_from_elems(s, 0, x.id);
    lemma_level_index(t, 0, x.id);
    if level_index_from(t, 0, x.id) != -1 {
        let m = level_index_from(t, 0, x.id);
        assert(t[m].id == s[m].id);
    }
    lemma_take_among_after_add(s, 0, pid, p, x);
}

/// Removing a node right after adding it gives back the document as it was,
/// provided its id did not occur before (as with the "+" buttons followed by
/// "Delete"): the node added is the one taken out, or nothing is taken when
/// the parent was missing and nothing was added.
pub proof fn law_remove_undoes_add(s: Seq<EditorUiNodeView>, parent: Option<u64>, x: EditorUiNodeView)
    requires
        id_bag(s).count(x.id) == 0,
    ensures
        (parent is None || spec_find(s, parent->0) is Some) ==> spec_take(spec_add_child(s, parent, x), x.id) == (s, Some(x)),
        (parent is Some && spec_find(s, parent->0) is None) ==> spec_take(spec_add_child(s, parent, x), x.id) == (s, Option::<EditorUiNodeView>::None),
{
    match parent {
        None => lemma_take_pushed(s, x),
        Some(pid) => {
            if spec_find(s, pid) is Some {
                lemma_take_after_add(s, pid, x);
            } else {
                lemma_take_absent(s, x.id);
            }
        },
    }
}

// ─── Take and find ─────────────────────────────────────────────────────────

/// A node of a suffix counts towards the suffix's id multiset.
proof fn lemma_bag_from_one(s: Seq<EditorUiNodeView>, k: int, m: int, id: u64)
    requires
        0 <= k <= m < s.len(),
    ensures
        id_bag_from(s, k).count(id) >= node_bag(s[m]).count(id),
    decreases m - k,
{
    if k < m {
        lemma_bag_from_one(s, k + 1, m, id);
    }
}

/// Two nodes of a suffix count towards the suffix's id multiset.
proof fn lemma_bag_from_pair(s: Seq<EditorUiNodeView>, k: int, j: int, m: int, id: u64)
    requires
        0 <= k <= j < m < s.len(),
    ensures
        id_bag_from(s, k).count(id) >= node_bag(s[j]).count(id) + node_bag(s[m]).count(id),
    decreases j - k,
{
    if k < j {
        lemma_bag_from_pair(s, k + 1, j, m, id);
    } else {
        lemma_bag_from_one(s, k + 1, m, id);
    }
}

proof fn lemma_take_is_find_among(s: Seq<EditorUiNodeView>, i: int, id: u64)
    requires
        0 <= i,
        id_bag(s).count(id) <= 1,
        forall|j: int| 0 <= j < s.len() ==> #[trigger] s[j].id != id,
    ensures
        spec_take_among(s, i, id).1 == spec_find_from(s, i, id),
    decreases s, 0int, s.len() - i,
{
    if i < s.len() {
        lemma_bag_from_one(s, 0, i, id);
        assert(s[i].id != id);
        lemma_take_is_find(s[i].children, id);
        lemma_take_is_find_among(s, i + 1, id);
    }
}

/// Where an id occurs at most once, the node `take_node` detaches is the one
/// `find_node` finds.
proof fn lemma_take_is_find(s: Seq<EditorUiNodeView>, id: u64)
    requires
        id_bag(s).count(id) <= 1,
    ensures
        spec_take(s, id).1 == spec_find(s, id),
    decreases s, 1int, 0int,
{
    let p = level_index_from(s, 0, id);
    lemma_level_index(s, 0, id);
    if 0 <= p < s.len() {
        assert forall|j: int| 0 <= j < p implies #[trigger] s[j].id != id && spec_find(s[j].children, id) is None by {
            lemma_bag_from_pair(s, 0, j, p, id);
            lemma_find_bag(s[j].children, id);
        }
        lemma_find_from_skip(s, 0, p, id);
    } else {
        lemma_take_is_find_among(s, 0, id);
    }
}

/// Where an id occurs at most once, the node `remove_node` takes out is the one
/// `find_node` finds.
pub proof fn law_take_gives_found_node(s: Seq<EditorUiNodeView>, id: u64)
    requires
        id_bag(s).count(id) <= 1,
    ensures
        spec_take(s, id).1 == spec_find(s, id),
{
    lemma_take_is_find(s, id);
}

} // verus!
