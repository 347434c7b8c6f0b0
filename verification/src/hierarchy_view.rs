//! What the hierarchy panel draws: a snapshot of the scene tree taken at the
//! start of a frame, the icon of each kind of node, and the name filter.

use vstd::prelude::*;

use crate::scene_model::{forest_view, SceneNode, SceneNodeKind, SceneNodeView};
use crate::text::{all_ascii, ascii_lower, chars_of, contains_in, contains_seq, to_lowercase, unicode_lower};

verus! {

/// The part of a node the panel shows, with its subtree.
pub struct NodeSnapshot {
    pub id: u64,
    pub name: String,
    pub kind: SceneNodeKind,
    pub visible: bool,
    pub children: Vec<NodeSnapshot>,
}

pub struct SnapshotView {
    pub id: u64,
    pub name: Seq<char>,
    pub kind: SceneNodeKind,
    pub visible: bool,
    pub children: Seq<SnapshotView>,
}

pub open spec fn snapshot_view(n: NodeSnapshot) -> SnapshotView
    decreases n,
{
    SnapshotView {
        id: n.id,
        name: n.name@,
        kind: n.kind,
        visible: n.visible,
        children: snapshots_view(n.children@),
    }
}

pub open spec fn snapshots_view(s: Seq<NodeSnapshot>) -> Seq<SnapshotView>
    decreases s,
{
    if s.len() == 0 {
        seq![]
    } else {
        seq![snapshot_view(s[0])] + snapshots_view(s.drop_first())
    }
}

impl View for NodeSnapshot {
    type V = SnapshotView;

    open spec fn view(&self) -> SnapshotView {
        snapshot_view(*self)
    }
}

/// A scene node seen by the panel.
pub open spec fn project(n: SceneNodeView) -> SnapshotView
    decreases n,
{
    SnapshotView {
        id: n.id,
        name: n.name,
        kind: n.kind,
        visible: n.visible,
        children: project_forest(n.children),
    }
}

pub open spec fn project_forest(s: Seq<SceneNodeView>) -> Seq<SnapshotView>
    decreases s,
{
    if s.len() == 0 {
        seq![]
    } else {
        seq![project(s[0])] + project_forest(s.drop_first())
    }
}

proof fn lemma_snapshots_view(s: Seq<NodeSnapshot>)
    ensures
        snapshots_view(s).len() == s.len(),
        forall|i: int| 0 <= i < s.len() ==> #[trigger] snapshots_view(s)[i] == snapshot_view(s[i]),
    decreases s.len(),
{
    if s.len() > 0 {
        lemma_snapshots_view(s.drop_first());
        assert forall|i: int| 0 <= i < s.len() implies #[trigger] snapshots_view(s)[i] == snapshot_view(s[i]) by {
            if i > 0 {
                assert(s.drop_first()[i - 1] == s[i]);
            }
        }
    }
}

proof fn lemma_project_forest(s: Seq<SceneNodeView>)
    ensures
        project_forest(s).len() == s.len(),
        forall|i: int| 0 <= i < s.len() ==> #[trigger] project_forest(s)[i] == project(s[i]),
    decreases s.len(),
{
    if s.len() > 0 {
        lemma_project_forest(s.drop_first());
        assert forall|i: int| 0 <= i < s.len() implies #[trigger] project_forest(s)[i] == project(s[i]) by {
            if i > 0 {
                assert(s.drop_first()[i - 1] == s[i]);
            }
        }
    }
}

/// A snapshot of the given nodes and their subtrees.
pub fn snapshot_nodes(nodes: &[SceneNode]) -> (r: Vec<NodeSnapshot>)
    ensures
        snapshots_view(r@) == project_forest(forest_view(nodes@)),
    decreases nodes@,
{
    let ghost s = forest_view(nodes@);
    proof {
        crate::scene_model::lemma_forest_view(nodes@);
        lemma_project_forest(s);
    }
    let mut out: Vec<NodeSnapshot> = Vec::new();
    let mut i: usize = 0;
    while i < nodes.len()
        invariant
            i <= nodes@.len(),
            out@.len() == i,
            s == forest_view(nodes@),
            s.len() == nodes@.len(),
            project_forest(s).len() == s.len(),
            forall|j: int| 0 <= j < nodes@.len() ==> #[trigger] s[j] == nodes@[j]@,
            forall|j: int| 0 <= j < s.len() ==> #[trigger] project_forest(s)[j] == project(s[j]),
            forall|j: int| 0 <= j < i ==> snapshot_view(#[trigger] out@[j]) == project(s[j]),
        decreases nodes@.len() - i,
    {
        let n = &nodes[i];
        let kids = snapshot_nodes(n.children.as_slice());
        out.push(NodeSnapshot { id: n.id, name: n.name.clone(), kind: n.kind, visible: n.visible, children: kids });
        i = i + 1;
    }
    proof {
        lemma_snapshots_view(out@);
        assert(snapshots_view(out@) =~= project_forest(s));
    }
    out
}

// ─── Lookups ───────────────────────────────────────────────────────────────

/// The name of the first node, in depth-first pre-order, with id `id`.
pub open spec fn spec_find_name(s: Seq<SnapshotView>, id: u64) -> Option<Seq<char>>
    decreases s,
{
    if s.len() == 0 {
        None
    } else if s[0].id == id {
        Some(s[0].name)
    } else {
        match spec_find_name(s[0].children, id) {
            Some(n) => Some(n),
            None => spec_find_name(s.drop_first(), id),
        }
    }
}

pub fn find_name_in_snaps<'a>(snaps: &'a [NodeSnapshot], id: u64) -> (r: Option<&'a str>)
    ensures
        match r {
            Some(n) => spec_find_name(snapshots_view(snaps@), id) == Some(n@),
            None => spec_find_name(snapshots_view(snaps@), id) is None,
        },
    decreases snaps@,
{
    let ghost s = snapshots_view(snaps@);
    proof {
        lemma_snapshots_view(snaps@);
        assert(s.subrange(0, s.len() as int) =~= s);
    }
    let mut i: usize = 0;
    while i < snaps.len()
        invariant
            i <= snaps@.len(),
            s == snapshots_view(snaps@),
            s.len() == snaps@.len(),
            forall|j: int| 0 <= j < snaps@.len() ==> #[trigger] s[j] == snaps@[j]@,
            spec_find_name(s, id) == spec_find_name(s.subrange(i as int, s.len() as int), id),
        decreases snaps@.len() - i,
    {
        let ghost rest = s.subrange(i as int, s.len() as int);
        proof {
            assert(rest[0] == s[i as int]);
            assert(rest.drop_first() =~= s.subrange(i + 1, s.len() as int));
        }
        if snaps[i].id == id {
            return Some(snaps[i].name.as_str());
        }
        match find_name_in_snaps(snaps[i].children.as_slice(), id) {
            Some(n) => {
                return Some(n);
            },
            None => {},
        }
        i = i + 1;
    }
    None
}

// ─── Filter ────────────────────────────────────────────────────────────────

/// Whether a node's lower-cased name contains `filter`, or one of its
/// descendants' does.
pub open spec fn spec_matches_filter(n: SnapshotView, filter: Seq<char>) -> bool
    decreases n,
{
    contains_seq(unicode_lower(n.name), filter) || spec_any_matches(n.children, filter)
}

pub open spec fn spec_any_matches(s: Seq<SnapshotView>, filter: Seq<char>) -> bool
    decreases s,
{
    s.len() > 0 && (spec_matches_filter(s[0], filter) || spec_any_matches(s.drop_first(), filter))
}

/// The same filter where every name is ASCII: names are lower-cased letter
/// by letter.
pub open spec fn spec_ascii_matches_filter(n: SnapshotView, filter: Seq<char>) -> bool
    decreases n,
{
    contains_seq(n.name.map_values(|c: char| ascii_lower(c)), filter) || spec_ascii_any_matches(n.children, filter)
}

pub open spec fn spec_ascii_any_matches(s: Seq<SnapshotView>, filter: Seq<char>) -> bool
    decreases s,
{
    s.len() > 0 && (spec_ascii_matches_filter(s[0], filter) || spec_ascii_any_matches(s.drop_first(), filter))
}

/// Every name in the subtree is ASCII.
pub open spec fn names_ascii(n: SnapshotView) -> bool
    decreases n,
{
    all_ascii(n.name) && all_names_ascii(n.children)
}

pub open spec fn all_names_ascii(s: Seq<SnapshotView>) -> bool
    decreases s,
{
    s.len() == 0 || (names_ascii(s[0]) && all_names_ascii(s.drop_first()))
}

/// Whether the panel shows a row under the filter `filter` (already lower
/// case).
pub fn node_matches_filter(snap: &NodeSnapshot, filter: &str) -> (r: bool)
    ensures
        r == spec_matches_filter(snap@, filter@),
        names_ascii(snap@) ==> r == spec_ascii_matches_filter(snap@, filter@),
    decreases snap,
{
    let lower = to_lowercase(snap.name.as_str());
    let v = chars_of(lower.as_str());
    let f = chars_of(filter);
    proof {
        assert(v@.subrange(0, v@.len() as int) =~= v@);
    }
    if contains_in(&v, 0, v.len(), &f) {
        return true;
    }
    let ghost s = snapshots_view(snap.children@);
    proof {
        lemma_snapshots_view(snap.children@);
        assert(s.subrange(0, s.len() as int) =~= s);
    }
    let mut i: usize = 0;
    while i < snap.children.len()
        invariant
            i <= snap.children@.len(),
            s == snapshots_view(snap.children@),
            s == snap@.children,
            s.len() == snap.children@.len(),
            forall|j: int| 0 <= j < snap.children@.len() ==> #[trigger] s[j] == snap.children@[j]@,
            spec_any_matches(s, filter@) == spec_any_matches(s.subrange(i as int, s.len() as int), filter@),
            names_ascii(snap@) ==> spec_ascii_any_matches(s, filter@) == spec_ascii_any_matches(s.subrange(i as int, s.len() as int), filter@),
            names_ascii(snap@) ==> all_names_ascii(s.subrange(i as int, s.len() as int)),
        decreases snap.children@.len() - i,
    {
        let ghost rest = s.subrange(i as int, s.len() as int);
        proof {
            assert(rest[0] == s[i as int]);
            assert(rest.drop_first() =~= s.subrange(i + 1, s.len() as int));
        }
        if node_matches_filter(&snap.children[i], filter) {
            return true;
        }
        i = i + 1;
    }
    false
}

// ─── Icons ─────────────────────────────────────────────────────────────────

pub open spec fn spec_node_icon(kind: SceneNodeKind) -> Seq<char> {
    match kind {
        SceneNodeKind::Empty => "\u{25cb}"@,
        SceneNodeKind::Mesh(_) => "\u{25c6}"@,
        SceneNodeKind::Light(_) => "\u{2600}"@,
    }
}

/// The symbol drawn before a node's name.
pub fn node_icon(kind: &SceneNodeKind) -> (r: &'static str)
    ensures
        r@ == spec_node_icon(*kind),
{
    match kind {
        SceneNodeKind::Empty => "\u{25cb}",
        SceneNodeKind::Mesh(_) => "\u{25c6}",
        SceneNodeKind::Light(_) => "\u{2600}",
    }
}

/// The colour of a node's symbol: grey for empty nodes, blue for meshes,
/// yellow for lights.
pub fn node_icon_color(kind: &SceneNodeKind) -> (rgb: (u8, u8, u8))
    ensures
        rgb == match *kind {
            SceneNodeKind::Empty => (180u8, 180u8, 180u8),
            SceneNodeKind::Mesh(_) => (100u8, 180u8, 255u8),
            SceneNodeKind::Light(_) => (255u8, 220u8, 80u8),
        },
{
    match kind {
        SceneNodeKind::Empty => (180, 180, 180),
        SceneNodeKind::Mesh(_) => (100, 180, 255),
        SceneNodeKind::Light(_) => (255, 220, 80),
    }
}

} // verus!
