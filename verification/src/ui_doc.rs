//! The UI document: a forest of UI nodes and the editing operations on it.

use vstd::multiset::Multiset;
use vstd::prelude::*;

use crate::ui_model::{
    group_ui_forest_view, lemma_ui_forest_view, lemma_ui_forest_view_ext, lemma_ui_forest_view_push,
    ui_forest_view, ui_node_view, EditorNodeType, EditorUiNode, EditorUiNodeView, EditorVal,
    F32_HUNDRED,
};

verus! {

// ─── Mathematical model of the operations ──────────────────────────────────

/// Index of the first node at this level, at or after `i`, whose id is `id`;
/// -1 when there is none.
pub open spec fn level_index_from(s: Seq<EditorUiNodeView>, i: int, id: u64) -> int
    decreases s.len() - i,
{
    if i < 0 || i >= s.len() {
        -1
    } else if s[i].id == id {
        i
    } else {
        level_index_from(s, i + 1, id)
    }
}

pub open spec fn with_children(n: EditorUiNodeView, c: Seq<EditorUiNodeView>) -> EditorUiNodeView {
    EditorUiNodeView { children: c, ..n }
}

/// Detach the node with id `id`: first looked for among the nodes of this
/// level, then, node by node, inside their subtrees. Gives the forest without
/// it and the detached node.
pub open spec fn spec_take(s: Seq<EditorUiNodeView>, id: u64) -> (Seq<EditorUiNodeView>, Option<EditorUiNodeView>)
    decreases s, 1int, 0int,
{
    let p = level_index_from(s, 0, id);
    if 0 <= p < s.len() {
        (s.remove(p), Some(s[p]))
    } else {
        spec_take_among(s, 0, id)
    }
}

pub open spec fn spec_take_among(s: Seq<EditorUiNodeView>, i: int, id: u64) -> (Seq<EditorUiNodeView>, Option<EditorUiNodeView>)
    decreases s, 0int, s.len() - i,
{
    if i < 0 || i >= s.len() {
        (s, None)
    } else {
        let (c, r) = spec_take(s[i].children, id);
        if r is Some {
            (s.update(i, with_children(s[i], c)), r)
        } else {
            spec_take_among(s, i + 1, id)
        }
    }
}

pub proof fn lemma_level_index(s: Seq<EditorUiNodeView>, i: int, id: u64)
    requires
        0 <= i,
    ensures
        level_index_from(s, i, id) == -1 || (i <= level_index_from(s, i, id) < s.len()
            && s[level_index_from(s, i, id)].id == id),
        level_index_from(s, i, id) == -1 ==> forall|j: int| i <= j < s.len() ==> s[j].id != id,
        forall|j: int| i <= j < level_index_from(s, i, id) ==> s[j].id != id,
    decreases s.len() - i,
{
    if i < s.len() && s[i].id != id {
        lemma_level_index(s, i + 1, id);
    }
}

/// Detaching nothing leaves the forest as it was.
pub proof fn lemma_take_none(s: Seq<EditorUiNodeView>, id: u64)
    ensures
        spec_take(s, id).1 is None ==> spec_take(s, id).0 == s,
    decreases s, 1int, 0int,
{
    let p = level_index_from(s, 0, id);
    lemma_level_index(s, 0, id);
    if !(0 <= p < s.len()) {
        lemma_take_among_none(s, 0, id);
    }
}

pub proof fn lemma_take_among_none(s: Seq<EditorUiNodeView>, i: int, id: u64)
    ensures
        spec_take_among(s, i, id).1 is None ==> spec_take_among(s, i, id).0 == s,
    decreases s, 0int, s.len() - i,
{
    if 0 <= i < s.len() {
        lemma_take_none(s[i].children, id);
        lemma_take_among_none(s, i + 1, id);
    }
}

/// The first node, in depth-first pre-order, whose id is `id`.
pub open spec fn spec_find(s: Seq<EditorUiNodeView>, id: u64) -> Option<EditorUiNodeView>
    decreases s, 1int, 0int,
{
    spec_find_from(s, 0, id)
}

pub open spec fn spec_find_from(s: Seq<EditorUiNodeView>, i: int, id: u64) -> Option<EditorUiNodeView>
    decreases s, 0int, s.len() - i,
{
    if i < 0 || i >= s.len() {
        None
    } else if s[i].id == id {
        Some(s[i])
    } else {
        match spec_find(s[i].children, id) {
            Some(n) => Some(n),
            None => spec_find_from(s, i + 1, id),
        }
    }
}

/// The forest with the node that `spec_find` finds replaced by `new`.
pub open spec fn spec_replace(s: Seq<EditorUiNodeView>, id: u64, new: EditorUiNodeView) -> Seq<EditorUiNodeView>
    decreases s, 1int, 0int,
{
    spec_replace_from(s, 0, id, new)
}

pub open spec fn spec_replace_from(s: Seq<EditorUiNodeView>, i: int, id: u64, new: EditorUiNodeView) -> Seq<EditorUiNodeView>
    decreases s, 0int, s.len() - i,
{
    if i < 0 || i >= s.len() {
        s
    } else if s[i].id == id {
        s.update(i, new)
    } else if spec_find(s[i].children, id) is Some {
        s.update(i, with_children(s[i], spec_replace(s[i].children, id, new)))
    } else {
        spec_replace_from(s, i + 1, id, new)
    }
}

/// The multiset of the ids of all the nodes of a forest.
pub open spec fn id_bag(s: Seq<EditorUiNodeView>) -> Multiset<u64>
    decreases s, 1int, 0int,
{
    id_bag_from(s, 0)
}

pub open spec fn id_bag_from(s: Seq<EditorUiNodeView>, i: int) -> Multiset<u64>
    decreases s, 0int, s.len() - i,
{
    if i < 0 || i >= s.len() {
        Multiset::empty()
    } else {
        Multiset::singleton(s[i].id).add(id_bag(s[i].children)).add(id_bag_from(s, i + 1))
    }
}

/// The multiset of the ids of a node and of all the nodes below it.
pub open spec fn node_bag(n: EditorUiNodeView) -> Multiset<u64> {
    Multiset::singleton(n.id).add(id_bag(n.children))
}

// ─── Executable operations ─────────────────────────────────────────────────

fn find_in(nodes: &Vec<EditorUiNode>, id: u64) -> (r: Option<&EditorUiNode>)
    ensures
        r matches Some(n) ==> spec_find(ui_forest_view(nodes@), id) == Some(n@),
        r is None ==> spec_find(ui_forest_view(nodes@), id) is None,
    decreases nodes,
{
    let ghost s = ui_forest_view(nodes@);
    proof {
        lemma_ui_forest_view(nodes@);
    }
    let mut i: usize = 0;
    while i < nodes.len()
        invariant
            i <= nodes@.len(),
            s == ui_forest_view(nodes@),
            s.len() == nodes@.len(),
            forall|j: int| 0 <= j < nodes@.len() ==> #[trigger] s[j] == ui_node_view(nodes@[j]),
            spec_find(s, id) == spec_find_from(s, i as int, id),
        decreases nodes@.len() - i,
    {
        if nodes[i].id == id {
            return Some(&nodes[i]);
        }
        match find_in(&nodes[i].children, id) {
            Some(f) => {
                return Some(f);
            },
            None => {},
        }
        i = i + 1;
    }
    None
}

/// Index of the top-level node that holds the first pre-order match of `id`,
/// either as itself or inside its subtree.
fn locate(nodes: &Vec<EditorUiNode>, id: u64) -> (r: Option<usize>)
    ensures
        r is None ==> spec_find(ui_forest_view(nodes@), id) is None,
        r matches Some(i) ==> {
            let s = ui_forest_view(nodes@);
            &&& i < nodes@.len()
            &&& spec_find(s, id) == spec_find_from(s, i as int, id)
            &&& forall|x: EditorUiNodeView| #[trigger] spec_replace(s, id, x) == spec_replace_from(s, i as int, id, x)
            &&& (s[i as int].id == id || spec_find(s[i as int].children, id) is Some)
        },
{
    let ghost s = ui_forest_view(nodes@);
    proof {
        lemma_ui_forest_view(nodes@);
    }
    let mut i: usize = 0;
    while i < nodes.len()
        invariant
            i <= nodes@.len(),
            s == ui_forest_view(nodes@),
            s.len() == nodes@.len(),
            forall|j: int| 0 <= j < nodes@.len() ==> #[trigger] s[j] == ui_node_view(nodes@[j]),
            spec_find(s, id) == spec_find_from(s, i as int, id),
            forall|x: EditorUiNodeView| #[trigger] spec_replace(s, id, x) == spec_replace_from(s, i as int, id, x),
        decreases nodes@.len() - i,
    {
        if nodes[i].id == id || find_in(&nodes[i].children, id).is_some() {
            return Some(i);
        }
        i = i + 1;
    }
    None
}

fn find_in_mut(nodes: &mut Vec<EditorUiNode>, id: u64) -> (r: Option<&mut EditorUiNode>)
    ensures
        r is None ==> spec_find(ui_forest_view(old(nodes)@), id) is None && final(nodes)@ == old(nodes)@,
        r matches Some(n) ==> spec_find(ui_forest_view(old(nodes)@), id) == Some((*n)@),
        r is Some ==> ui_forest_view(final(nodes)@) == spec_replace(
            ui_forest_view(old(nodes)@),
            id,
            (*final(r->0))@,
        ),
    decreases *old(nodes),
{
    broadcast use group_ui_forest_view;

    proof {
        lemma_ui_forest_view(nodes@);
    }
    match locate(nodes, id) {
        None => None,
        Some(i) => {
            if nodes[i].id == id {
                Some(&mut nodes[i])
            } else {
                find_in_mut(&mut nodes[i].children, id)
            }
        },
    }
}

fn take_from(nodes: &mut Vec<EditorUiNode>, id: u64) -> (r: Option<EditorUiNode>)
    ensures
        ui_forest_view(final(nodes)@) == spec_take(ui_forest_view(old(nodes)@), id).0,
        r matches Some(n) ==> spec_take(ui_forest_view(old(nodes)@), id).1 == Some(n@),
        r is None ==> spec_take(ui_forest_view(old(nodes)@), id).1 is None,
    decreases *old(nodes),
{
    let ghost s = ui_forest_view(nodes@);
    proof {
        lemma_ui_forest_view(nodes@);
        lemma_level_index(s, 0, id);
    }
    let mut i: usize = 0;
    while i < nodes.len()
        invariant
            i <= nodes@.len(),
            s == ui_forest_view(nodes@),
            s.len() == nodes@.len(),
            forall|j: int| 0 <= j < nodes@.len() ==> #[trigger] s[j] == ui_node_view(nodes@[j]),
            level_index_from(s, 0, id) == level_index_from(s, i as int, id),
            nodes@ == old(nodes)@,
        decreases nodes@.len() - i,
    {
        if nodes[i].id == id {
            let n = nodes.remove(i);
            proof {
                lemma_ui_forest_view(nodes@);
                assert(ui_forest_view(nodes@) =~= s.remove(i as int));
            }
            return Some(n);
        }
        i = i + 1;
    }
    proof {
        lemma_ui_forest_view(nodes@);
    }
    let ghost orig = nodes@;
    let mut i: usize = 0;
    while i < nodes.len()
        invariant
            i <= nodes@.len(),
            nodes@.len() == orig.len(),
            s == ui_forest_view(orig),
            s.len() == orig.len(),
            forall|j: int| 0 <= j < orig.len() ==> #[trigger] s[j] == ui_node_view(orig[j]),
            forall|j: int| i <= j < orig.len() ==> #[trigger] nodes@[j] == orig[j],
            forall|j: int| 0 <= j < i ==> ui_node_view(#[trigger] nodes@[j]) == ui_node_view(orig[j]),
            spec_take(s, id) == spec_take_among(s, i as int, id),
            orig == old(nodes)@,
        decreases nodes@.len() - i,
    {
        let r = take_from(&mut nodes[i].children, id);
        proof {
            lemma_take_none(s[i as int].children, id);
        }
        if r.is_some() {
            proof {
                lemma_ui_forest_view(nodes@);
                assert(ui_forest_view(nodes@) =~= s.update(i as int, with_children(s[i as int], ui_forest_view(nodes@[i as int].children@))));
            }
            return r;
        }
        i = i + 1;
    }
    proof {
        lemma_ui_forest_view_ext(nodes@, orig);
    }
    None
}

/// Add `node` as the last child of the node found with id `parent`, or at
/// the end of the top level when there is no parent; when the parent is not
/// in the document nothing changes.
pub open spec fn spec_add_child(s: Seq<EditorUiNodeView>, parent: Option<u64>, node: EditorUiNodeView) -> Seq<EditorUiNodeView> {
    match parent {
        None => s.push(node),
        Some(pid) => match spec_find(s, pid) {
            Some(p) => spec_replace(s, pid, with_children(p, p.children.push(node))),
            None => s,
        },
    }
}

#[derive(Debug)]
pub struct EditorDocument {
    pub roots: Vec<EditorUiNode>,
}

impl View for EditorDocument {
    type V = Seq<EditorUiNodeView>;

    open spec fn view(&self) -> Seq<EditorUiNodeView> {
        ui_forest_view(self.roots@)
    }
}

impl Default for EditorDocument {
    /// One full-size container named "Root" with id 1.
    fn default() -> (r: Self)
        ensures
            r@.len() == 1,
            r@[0].id == 1,
            r@[0].name == "Root"@,
            r@[0].node_type == EditorNodeType::Container,
            r@[0].style.width == EditorVal::Percent(F32_HUNDRED),
            r@[0].style.height == EditorVal::Percent(F32_HUNDRED),
            r@[0].children == Seq::<EditorUiNodeView>::empty(),
    {
        broadcast use group_ui_forest_view;

        let mut root = EditorUiNode::default();
        root.id = 1;
        root.name = String::from_str("Root");
        root.node_type = EditorNodeType::Container;
        root.width = EditorVal::Percent(F32_HUNDRED);
        root.height = EditorVal::Percent(F32_HUNDRED);
        let mut roots: Vec<EditorUiNode> = Vec::new();
        roots.push(root);
        proof {
            assert(ui_forest_view(Seq::<EditorUiNode>::empty()) =~= seq![]);
            assert(roots@ =~= Seq::<EditorUiNode>::empty().push(roots@[0]));
        }
        EditorDocument { roots }
    }
}

impl EditorDocument {
    /// Add `node` under `parent_id`, or as a new root when there is no
    /// parent; a missing parent leaves the document as it was.
    pub fn add_child(&mut self, parent_id: Option<u64>, node: EditorUiNode)
        ensures
            final(self)@ == spec_add_child(old(self)@, parent_id, node@),
    {
        broadcast use group_ui_forest_view;

        match parent_id {
            None => {
                self.roots.push(node);
            },
            Some(pid) => {
                let ghost nv = node@;
                match find_in_mut(&mut self.roots, pid) {
                    Some(parent) => {
                        let ghost pv = (*parent)@;
                        let ghost c = parent.children@;
                        let ghost x = node;
                        parent.children.push(node);
                        proof {
                            lemma_ui_forest_view_push(c, x);
                            assert((*parent)@ == with_children(pv, pv.children.push(nv)));
                        }
                    },
                    None => {},
                }
            },
        }
    }

    /// Remove the node with id `id` and its subtree; tells whether it was
    /// found.
    pub fn remove_node(&mut self, id: u64) -> (found: bool)
        ensures
            final(self)@ == spec_take(old(self)@, id).0,
            found == spec_take(old(self)@, id).1 is Some,
    {
        let r = take_from(&mut self.roots, id);
        r.is_some()
    }

    /// The first node, in depth-first pre-order, with id `id`.
    pub fn find_node(&self, id: u64) -> (r: Option<&EditorUiNode>)
        ensures
            r matches Some(n) ==> spec_find(self@, id) == Some(n@),
            r is None ==> spec_find(self@, id) is None,
    {
        find_in(&self.roots, id)
    }

    /// Mutable access to the node `find_node` finds.
    pub fn find_node_mut(&mut self, id: u64) -> (r: Option<&mut EditorUiNode>)
        ensures
            r is None ==> spec_find(old(self)@, id) is None && final(self)@ == old(self)@,
            r matches Some(n) ==> spec_find(old(self)@, id) == Some((*n)@),
            r is Some ==> final(self)@ == spec_replace(old(self)@, id, (*final(r->0))@),
    {
        find_in_mut(&mut self.roots, id)
    }
}

} // verus!
