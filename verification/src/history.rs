//! Undo and redo of scene edits: a bounded stack of earlier scenes and a
//! stack of undone ones.

use vstd::prelude::*;

use crate::scene_model::{forest_view, lemma_forest_view_ext, node_view, SceneNode, SceneNodeView};

verus! {

/// A copy of a slice of nodes with their subtrees.
pub fn clone_slice(nodes: &[SceneNode]) -> (r: Vec<SceneNode>)
    ensures
        forest_view(r@) == forest_view(nodes@),
{
    let mut out: Vec<SceneNode> = Vec::new();
    let mut i: usize = 0;
    while i < nodes.len()
        invariant
            i <= nodes@.len(),
            out@.len() == i,
            forall|j: int| 0 <= j < i ==> node_view(#[trigger] out@[j]) == node_view(nodes@[j]),
        decreases nodes@.len() - i,
    {
        let c = nodes[i].deep_clone();
        out.push(c);
        i = i + 1;
    }
    proof {
        lemma_forest_view_ext(out@, nodes@);
    }
    out
}

/// The scenes held by a stack of snapshots.
pub open spec fn stack_view(st: Seq<Vec<SceneNode>>) -> Seq<Seq<SceneNodeView>> {
    st.map_values(|v: Vec<SceneNode>| forest_view(v@))
}

/// How many scenes the undo stack keeps: past it, the oldest goes.
pub const HISTORY_CAPACITY: usize = 50;

pub struct UndoHistory {
    pub undo_stack: Vec<Vec<SceneNode>>,
    pub redo_stack: Vec<Vec<SceneNode>>,
}

/// The mathematical value of an undo history.
pub struct HistoryView {
    pub undo: Seq<Seq<SceneNodeView>>,
    pub redo: Seq<Seq<SceneNodeView>>,
}

impl View for UndoHistory {
    type V = HistoryView;

    open spec fn view(&self) -> HistoryView {
        HistoryView { undo: stack_view(self.undo_stack@), redo: stack_view(self.redo_stack@) }
    }
}

/// Recording the scene before an edit: it goes on top of the undo stack, the
/// oldest snapshot is dropped when the stack grows past its bound, and what
/// was undone can no longer be redone.
pub open spec fn spec_push_snapshot(h: HistoryView, snap: Seq<SceneNodeView>) -> HistoryView {
    let u = h.undo.push(snap);
    HistoryView {
        undo: if u.len() > HISTORY_CAPACITY { u.drop_first() } else { u },
        redo: seq![],
    }
}

/// Undo: the last recorded scene comes back and the current one is kept for
/// redo; nothing happens when there is nothing to undo.
pub open spec fn spec_undo(h: HistoryView, current: Seq<SceneNodeView>) -> (HistoryView, Option<Seq<SceneNodeView>>) {
    if h.undo.len() == 0 {
        (h, None)
    } else {
        (HistoryView { undo: h.undo.drop_last(), redo: h.redo.push(current) }, Some(h.undo.last()))
    }
}

/// Redo: the last undone scene comes back and the current one is kept for
/// undo; nothing happens when there is nothing to redo.
pub open spec fn spec_redo(h: HistoryView, current: Seq<SceneNodeView>) -> (HistoryView, Option<Seq<SceneNodeView>>) {
    if h.redo.len() == 0 {
        (h, None)
    } else {
        (HistoryView { undo: h.undo.push(current), redo: h.redo.drop_last() }, Some(h.redo.last()))
    }
}

/// Forgetting the last recorded scene; redo is left as it was.
pub open spec fn spec_discard_last(h: HistoryView) -> HistoryView {
    HistoryView { undo: if h.undo.len() > 0 { h.undo.drop_last() } else { h.undo }, ..h }
}

/// The history holds at most `HISTORY_CAPACITY` snapshots, undone ones
/// included.
pub open spec fn history_within_bound(h: HistoryView) -> bool {
    h.undo.len() + h.redo.len() <= HISTORY_CAPACITY
}

impl Default for UndoHistory {
    /// An empty history that keeps up to 50 snapshots.
    fn default() -> (r: Self)
        ensures
            r@ == (HistoryView { undo: seq![], redo: seq![] }),
    {
        let r = UndoHistory { undo_stack: Vec::new(), redo_stack: Vec::new() };
        proof {
            assert(stack_view(r.undo_stack@) =~= seq![]);
            assert(stack_view(r.redo_stack@) =~= seq![]);
        }
        r
    }
}

impl UndoHistory {
    pub fn push_snapshot(&mut self, nodes: &[SceneNode])
        ensures
            final(self)@ == spec_push_snapshot(old(self)@, forest_view(nodes@)),
    {
        let snap = clone_slice(nodes);
        let ghost before = self.undo_stack@;
        self.undo_stack.push(snap);
        proof {
            assert(stack_view(self.undo_stack@) =~= stack_view(before).push(forest_view(nodes@)));
        }
        if self.undo_stack.len() > HISTORY_CAPACITY {
            let ghost pushed = self.undo_stack@;
            self.undo_stack.remove(0);
            proof {
                assert(stack_view(self.undo_stack@) =~= stack_view(pushed).drop_first());
            }
        }
        self.redo_stack.clear();
        proof {
            assert(stack_view(self.redo_stack@) =~= seq![]);
        }
    }

    pub fn undo(&mut self, current: &[SceneNode]) -> (r: Option<Vec<SceneNode>>)
        ensures
            final(self)@ == spec_undo(old(self)@, forest_view(current@)).0,
            r matches Some(v) ==> spec_undo(old(self)@, forest_view(current@)).1 == Some(forest_view(v@)),
            r is None ==> spec_undo(old(self)@, forest_view(current@)).1 is None,
    {
        let ghost before_undo = self.undo_stack@;
        let ghost before_redo = self.redo_stack@;
        match self.undo_stack.pop() {
            Some(prev) => {
                proof {
                    assert(stack_view(self.undo_stack@) =~= stack_view(before_undo).drop_last());
                }
                let snap = clone_slice(current);
                self.redo_stack.push(snap);
                proof {
                    assert(stack_view(self.redo_stack@) =~= stack_view(before_redo).push(forest_view(current@)));
                }
                Some(prev)
            },
            None => None,
        }
    }

    pub fn redo(&mut self, current: &[SceneNode]) -> (r: Option<Vec<SceneNode>>)
        ensures
            final(self)@ == spec_redo(old(self)@, forest_view(current@)).0,
            r matches Some(v) ==> spec_redo(old(self)@, forest_view(current@)).1 == Some(forest_view(v@)),
            r is None ==> spec_redo(old(self)@, forest_view(current@)).1 is None,
    {
        let ghost before_undo = self.undo_stack@;
        let ghost before_redo = self.redo_stack@;
        match self.redo_stack.pop() {
            Some(next) => {
                proof {
                    assert(stack_view(self.redo_stack@) =~= stack_view(before_redo).drop_last());
                }
                let snap = clone_slice(current);
                self.undo_stack.push(snap);
                proof {
                    assert(stack_view(self.undo_stack@) =~= stack_view(before_undo).push(forest_view(current@)));
                }
                Some(next)
            },
            None => None,
        }
    }

    /// Forget the last recorded scene, as when the edit it was recorded for
    /// is called off; redo is left as it was.
    pub fn discard_last(&mut self)
        ensures
            final(self)@ == spec_discard_last(old(self)@),
    {
        let ghost before = self.undo_stack@;
        let _ = self.undo_stack.pop();
        proof {
            if before.len() > 0 {
                assert(stack_view(self.undo_stack@) =~= stack_view(before).drop_last());
            }
        }
    }

    pub fn can_undo(&self) -> (r: bool)
        ensures
            r == (self@.undo.len() > 0),
    {
        !self.undo_stack.is_empty()
    }

    pub fn can_redo(&self) -> (r: bool)
        ensures
            r == (self@.redo.len() > 0),
    {
        !self.redo_stack.is_empty()
    }
}

// ─── Laws ──────────────────────────────────────────────────────────────────

/// Undo right after recording gives back the recorded scene and keeps the
/// current one for redo.
pub proof fn law_undo_after_push(h: HistoryView, snap: Seq<SceneNodeView>, current: Seq<SceneNodeView>)
    ensures
        spec_undo(spec_push_snapshot(h, snap), current).1 == Some(snap),
        spec_undo(spec_push_snapshot(h, snap), current).0.redo == seq![current],
{
    let h1 = spec_push_snapshot(h, snap);
    assert(h1.undo.last() == snap);
    assert(h1.redo.push(current) =~= seq![current]);
}

/// Redo right after undo gives back the scene that was current at the undo
/// and restores the history as it was.
pub proof fn law_redo_undoes_undo(h: HistoryView, current: Seq<SceneNodeView>)
    requires
        h.undo.len() > 0,
    ensures
        ({
            let (h1, prev) = spec_undo(h, current);
            let (h2, next) = spec_redo(h1, prev->0);
            next == Some(current) && h2 == h
        }),
{
    let (h1, prev) = spec_undo(h, current);
    let (h2, next) = spec_redo(h1, prev->0);
    assert(h2.undo =~= h.undo);
    assert(h2.redo =~= h.redo);
}

/// Undo right after redo gives back the scene that was current at the redo
/// and restores the history as it was.
pub proof fn law_undo_undoes_redo(h: HistoryView, current: Seq<SceneNodeView>)
    requires
        h.redo.len() > 0,
    ensures
        ({
            let (h1, next) = spec_redo(h, current);
            let (h2, prev) = spec_undo(h1, next->0);
            prev == Some(current) && h2 == h
        }),
{
    let (h1, next) = spec_redo(h, current);
    let (h2, prev) = spec_undo(h1, next->0);
    assert(h2.undo =~= h.undo);
    assert(h2.redo =~= h.redo);
}

/// Forgetting a scene just recorded gives back the undo stack as it was,
/// unless recording it pushed the oldest scene out; redo stays empty.
pub proof fn law_discard_undoes_push(h: HistoryView, snap: Seq<SceneNodeView>)
    requires
        h.undo.len() < HISTORY_CAPACITY,
    ensures
        spec_discard_last(spec_push_snapshot(h, snap)).undo == h.undo,
        spec_discard_last(spec_push_snapshot(h, snap)).redo == Seq::<Seq<SceneNodeView>>::empty(),
{
    assert(h.undo.push(snap).drop_last() =~= h.undo);
}

/// Every operation keeps the history within its bound.
pub proof fn law_history_stays_bounded(h: HistoryView, scene: Seq<SceneNodeView>)
    requires
        history_within_bound(h),
    ensures
        history_within_bound(spec_push_snapshot(h, scene)),
        history_within_bound(spec_undo(h, scene).0),
        history_within_bound(spec_redo(h, scene).0),
{
}

} // verus!
