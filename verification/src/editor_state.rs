//! Selection, id allocation, change flags and the editor's own settings.

use vstd::prelude::*;

verus! {

#[derive(Debug)]
pub struct SceneSelection {
    pub selected: Option<u64>,
}

impl Default for SceneSelection {
    fn default() -> (r: Self)
        ensures
            r.selected is None,
    {
        SceneSelection { selected: None }
    }
}

/// Hands out fresh node ids, counting up from 100.
pub struct SceneIdCounter {
    counter: u64,
}

impl View for SceneIdCounter {
    type V = u64;

    closed spec fn view(&self) -> u64 {
        self.counter
    }
}

impl Default for SceneIdCounter {
    fn default() -> (r: Self)
        ensures
            r@ == 100,
    {
        SceneIdCounter { counter: 100 }
    }
}

impl SceneIdCounter {
    /// The id the next call of `next_id` hands out.
    pub fn current(&self) -> (id: u64)
        ensures
            id == self@,
    {
        self.counter
    }

    /// The next id; every later call gives a larger one.
    pub fn next_id(&mut self) -> (id: u64)
        requires
            old(self)@ < u64::MAX,
        ensures
            id == old(self)@,
            final(self)@ == old(self)@ + 1,
    {
        let id = self.counter;
        self.counter = self.counter + 1;
        id
    }
}

#[derive(Debug)]
pub struct SceneChanged {
    pub dirty: bool,
}

impl Default for SceneChanged {
    /// A new scene has to be drawn.
    fn default() -> (r: Self)
        ensures
            r.dirty,
    {
        SceneChanged { dirty: true }
    }
}

// ─── Transform mode ────────────────────────────────────────────────────────

#[derive(Clone, Copy, Debug, PartialEq, Eq, Structural)]
pub enum TransformMode {
    Select,
    Translate,
    Rotate,
    Scale,
}

impl Default for TransformMode {
    fn default() -> (r: Self)
        ensures
            r == TransformMode::Select,
    {
        TransformMode::Select
    }
}

impl TransformMode {
    pub open spec fn spec_label(self) -> Seq<char> {
        match self {
            TransformMode::Select => "Select"@,
            TransformMode::Translate => "Move"@,
            TransformMode::Rotate => "Rotate"@,
            TransformMode::Scale => "Scale"@,
        }
    }

    /// The display text of the mode; translation is shown as "Move".
    pub fn label(&self) -> (s: String)
        ensures
            s@ == self.spec_label(),
    {
        match self {
            TransformMode::Select => String::from_str("Select"),
            TransformMode::Translate => String::from_str("Move"),
            TransformMode::Rotate => String::from_str("Rotate"),
            TransformMode::Scale => String::from_str("Scale"),
        }
    }
}

// ─── Editor state ──────────────────────────────────────────────────────────

/// The camera orbit saved when play mode starts: yaw, pitch, distance and
/// focus point, each `f32` held as its bit pattern.
pub type SavedOrbit = (u32, u32, u32, [u32; 3]);

pub struct EditorState {
    pub transform_mode: TransformMode,
    pub scene_file_path: Option<String>,
    pub scene_dirty: bool,
    pub show_grid: bool,
    pub show_stats: bool,
    pub play_mode: bool,
    pub saved_orbit: Option<SavedOrbit>,
}

impl Default for EditorState {
    fn default() -> (r: Self)
        ensures
            r.transform_mode == TransformMode::Select,
            r.scene_file_path is None,
            !r.scene_dirty,
            r.show_grid,
            r.show_stats,
            !r.play_mode,
            r.saved_orbit is None,
    {
        EditorState {
            transform_mode: TransformMode::Select,
            scene_file_path: None,
            scene_dirty: false,
            show_grid: true,
            show_stats: true,
            play_mode: false,
            saved_orbit: None,
        }
    }
}

/// Ids handed out by a fresh counter, one call after the other (a fresh
/// counter stands at 100, and each `next_id` gives the counter's value and
/// moves it on by one): the k-th is 100 + k, so they increase, no two are
/// equal, and none is 1 or 2, the ids of a fresh scene's nodes.
pub proof fn law_fresh_counter_ids(ids: Seq<u64>)
    requires
        ids.len() > 0 ==> ids[0] == 100,
        forall|j: int| 0 <= j < ids.len() - 1 ==> #[trigger] ids[j + 1] == ids[j] + 1,
    ensures
        forall|j: int| 0 <= j < ids.len() ==> #[trigger] ids[j] == 100 + j,
        forall|i: int, j: int| 0 <= i < j < ids.len() ==> ids[i] < ids[j],
        forall|j: int| 0 <= j < ids.len() ==> #[trigger] ids[j] != 1 && ids[j] != 2,
    decreases ids.len(),
{
    if ids.len() > 0 {
        let pre = ids.drop_last();
        assert forall|j: int| 0 <= j < pre.len() - 1 implies #[trigger] pre[j + 1] == pre[j] + 1 by {
            assert(pre[j + 1] == ids[j + 1] && pre[j] == ids[j]);
        }
        law_fresh_counter_ids(pre);
        assert forall|j: int| 0 <= j < ids.len() implies #[trigger] ids[j] == 100 + j by {
            if j < ids.len() - 1 {
                assert(ids[j] == pre[j]);
            } else if j > 0 {
                assert(ids[j - 1] == pre[j - 1]);
                assert(ids[(j - 1) + 1] == ids[j - 1] + 1);
            }
        }
    }
}

} // verus!
