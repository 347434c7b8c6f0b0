//! The 3D scene model: primitives, lights, node kinds and scene nodes.
//!
//! Every floating-point property of a node is carried as the IEEE-754 bit
//! pattern of an `f32` (a `u32`). The library moves these values around with
//! the nodes and never computes with them.

use vstd::prelude::*;

verus! {

// ─── Bit patterns of the f32 constants the model uses ──────────────────────

pub const F32_ZERO: u32 = 0x0000_0000;
pub const F32_HALF: u32 = 0x3f00_0000;
pub const F32_ONE: u32 = 0x3f80_0000;
pub const F32_FOUR: u32 = 0x4080_0000;
pub const F32_FIVE: u32 = 0x40a0_0000;
pub const F32_TWENTY: u32 = 0x41a0_0000;
pub const F32_THIRTY: u32 = 0x41f0_0000;
pub const F32_FORTY_FIVE: u32 = 0x4234_0000;
pub const F32_NEG_FORTY_FIVE: u32 = 0xc234_0000;
pub const F32_NEG_NINETY: u32 = 0xc2b4_0000;
pub const F32_EIGHT_HUNDRED: u32 = 0x4448_0000;
pub const F32_ONE_THOUSAND: u32 = 0x447a_0000;
pub const F32_TWO_THOUSAND: u32 = 0x44fa_0000;
pub const F32_POINT_THREE: u32 = 0x3e99_999a;
pub const F32_POINT_EIGHT: u32 = 0x3f4c_cccd;

// ─── 3D primitive shapes ───────────────────────────────────────────────────

#[derive(Clone, Copy, Debug, PartialEq, Eq, Structural)]
pub enum ScenePrimitive {
    Cube,
    Sphere,
    Cylinder,
    Capsule,
    Plane,
    Torus,
    Cone,
    Tetrahedron,
}

impl Default for ScenePrimitive {
    fn default() -> (r: Self)
        ensures
            r == ScenePrimitive::Cube,
    {
        ScenePrimitive::Cube
    }
}

impl ScenePrimitive {
    /// The name under which the primitive is shown.
    pub open spec fn spec_label(self) -> Seq<char> {
        match self {
            ScenePrimitive::Cube => "Cube"@,
            ScenePrimitive::Sphere => "Sphere"@,
            ScenePrimitive::Cylinder => "Cylinder"@,
            ScenePrimitive::Capsule => "Capsule"@,
            ScenePrimitive::Plane => "Plane"@,
            ScenePrimitive::Torus => "Torus"@,
            ScenePrimitive::Cone => "Cone"@,
            ScenePrimitive::Tetrahedron => "Tetrahedron"@,
        }
    }

    /// The display text of the primitive.
    pub fn label(&self) -> (s: String)
        ensures
            s@ == self.spec_label(),
    {
        match self {
            ScenePrimitive::Cube => String::from_str("Cube"),
            ScenePrimitive::Sphere => String::from_str("Sphere"),
            ScenePrimitive::Cylinder => String::from_str("Cylinder"),
            ScenePrimitive::Capsule => String::from_str("Capsule"),
            ScenePrimitive::Plane => String::from_str("Plane"),
            ScenePrimitive::Torus => String::from_str("Torus"),
            ScenePrimitive::Cone => String::from_str("Cone"),
            ScenePrimitive::Tetrahedron => String::from_str("Tetrahedron"),
        }
    }
}


// ─── Light types ───────────────────────────────────────────────────────────

#[derive(Clone, Copy, Debug, PartialEq, Eq, Structural)]
pub enum SceneLightKind {
    Point,
    Directional,
    Spot,
}

impl Default for SceneLightKind {
    fn default() -> (r: Self)
        ensures
            r == SceneLightKind::Point,
    {
        SceneLightKind::Point
    }
}

impl SceneLightKind {
    pub open spec fn spec_label(self) -> Seq<char> {
        match self {
            SceneLightKind::Point => "Point"@,
            SceneLightKind::Directional => "Directional"@,
            SceneLightKind::Spot => "Spot"@,
        }
    }

    /// The display text of the light kind.
    pub fn label(&self) -> (s: String)
        ensures
            s@ == self.spec_label(),
    {
        match self {
            SceneLightKind::Point => String::from_str("Point"),
            SceneLightKind::Directional => String::from_str("Directional"),
            SceneLightKind::Spot => String::from_str("Spot"),
        }
    }
}

// ─── Node kind ─────────────────────────────────────────────────────────────

#[derive(Clone, Copy, Debug, PartialEq, Eq, Structural)]
pub enum SceneNodeKind {
    Empty,
    Mesh(ScenePrimitive),
    Light(SceneLightKind),
}

impl Default for SceneNodeKind {
    fn default() -> (r: Self)
        ensures
            r == SceneNodeKind::Empty,
    {
        SceneNodeKind::Empty
    }
}

impl SceneNodeKind {
    /// `Empty`, `Mesh (<primitive>)` or `Light (<light kind>)`.
    pub open spec fn spec_label(self) -> Seq<char> {
        match self {
            SceneNodeKind::Empty => "Empty"@,
            SceneNodeKind::Mesh(p) => "Mesh ("@ + p.spec_label() + ")"@,
            SceneNodeKind::Light(l) => "Light ("@ + l.spec_label() + ")"@,
        }
    }

    /// The display text of the node kind.
    pub fn label(&self) -> (s: String)
        ensures
            s@ == self.spec_label(),
    {
        match self {
            SceneNodeKind::Empty => String::from_str("Empty"),
            SceneNodeKind::Mesh(p) => {
                let mut s = String::from_str("Mesh (");
                let inner = p.label();
                s.append(inner.as_str());
                s.append(")");
                s
            },
            SceneNodeKind::Light(l) => {
                let mut s = String::from_str("Light (");
                let inner = l.label();
                s.append(inner.as_str());
                s.append(")");
                s
            },
        }
    }
}

// ─── Scene node ────────────────────────────────────────────────────────────

/// Transform, material and light properties of a node, each `f32` held as
/// its bit pattern.
#[derive(Clone, Copy, Debug, PartialEq)]
pub struct SceneNodeProps {
    pub translation: [u32; 3],
    pub rotation_euler: [u32; 3],
    pub scale: [u32; 3],
    pub color: [u32; 4],
    pub metallic: u32,
    pub roughness: u32,
    pub emissive: [u32; 4],
    pub light_color: [u32; 4],
    pub light_intensity: u32,
    pub light_range: u32,
    pub light_shadows: bool,
    pub spot_angle: u32,
}

impl SceneNodeProps {
    /// The properties of a freshly made node.
    pub open spec fn spec_default() -> SceneNodeProps {
        SceneNodeProps {
            translation: [F32_ZERO, F32_ZERO, F32_ZERO],
            rotation_euler: [F32_ZERO, F32_ZERO, F32_ZERO],
            scale: [F32_ONE, F32_ONE, F32_ONE],
            color: [F32_POINT_EIGHT, F32_POINT_EIGHT, F32_POINT_EIGHT, F32_ONE],
            metallic: F32_ZERO,
            roughness: F32_HALF,
            emissive: [F32_ZERO, F32_ZERO, F32_ZERO, F32_ONE],
            light_color: [F32_ONE, F32_ONE, F32_ONE, F32_ONE],
            light_intensity: F32_EIGHT_HUNDRED,
            light_range: F32_TWENTY,
            light_shadows: true,
            spot_angle: F32_FORTY_FIVE,
        }
    }
}

impl Default for SceneNodeProps {
    fn default() -> (r: Self)
        ensures
            r == SceneNodeProps::spec_default(),
    {
        SceneNodeProps {
            translation: [F32_ZERO, F32_ZERO, F32_ZERO],
            rotation_euler: [F32_ZERO, F32_ZERO, F32_ZERO],
            scale: [F32_ONE, F32_ONE, F32_ONE],
            color: [F32_POINT_EIGHT, F32_POINT_EIGHT, F32_POINT_EIGHT, F32_ONE],
            metallic: F32_ZERO,
            roughness: F32_HALF,
            emissive: [F32_ZERO, F32_ZERO, F32_ZERO, F32_ONE],
            light_color: [F32_ONE, F32_ONE, F32_ONE, F32_ONE],
            light_intensity: F32_EIGHT_HUNDRED,
            light_range: F32_TWENTY,
            light_shadows: true,
            spot_angle: F32_FORTY_FIVE,
        }
    }
}

#[derive(Debug)]
pub struct SceneNode {
    pub id: u64,
    pub name: String,
    pub kind: SceneNodeKind,
    pub children: Vec<SceneNode>,
    pub props: SceneNodeProps,
    pub visible: bool,
}

/// The mathematical value of a scene node: its children are a sequence of
/// node values.
pub struct SceneNodeView {
    pub id: u64,
    pub name: Seq<char>,
    pub kind: SceneNodeKind,
    pub props: SceneNodeProps,
    pub visible: bool,
    pub children: Seq<SceneNodeView>,
}

pub open spec fn node_view(n: SceneNode) -> SceneNodeView
    decreases n,
{
    SceneNodeView {
        id: n.id,
        name: n.name@,
        kind: n.kind,
        props: n.props,
        visible: n.visible,
        children: forest_view(n.children@),
    }
}

pub open spec fn forest_view(s: Seq<SceneNode>) -> Seq<SceneNodeView>
    decreases s,
{
    if s.len() == 0 {
        seq![]
    } else {
        seq![node_view(s[0])] + forest_view(s.drop_first())
    }
}

impl View for SceneNode {
    type V = SceneNodeView;

    open spec fn view(&self) -> SceneNodeView {
        node_view(*self)
    }
}

/// The view of a sequence of nodes is the sequence of their views.
pub proof fn lemma_forest_view(s: Seq<SceneNode>)
    ensures
        forest_view(s).len() == s.len(),
        forall|i: int| 0 <= i < s.len() ==> #[trigger] forest_view(s)[i] == node_view(s[i]),
    decreases s.len(),
{
    if s.len() > 0 {
        lemma_forest_view(s.drop_first());
        assert forall|i: int| 0 <= i < s.len() implies #[trigger] forest_view(s)[i] == node_view(s[i]) by {
            if i > 0 {
                assert(s.drop_first()[i - 1] == s[i]);
            }
        }
    }
}

/// Two node sequences with equal element views have equal views.
pub proof fn lemma_forest_view_ext(a: Seq<SceneNode>, b: Seq<SceneNode>)
    requires
        a.len() == b.len(),
        forall|i: int| 0 <= i < a.len() ==> node_view(#[trigger] a[i]) == node_view(b[i]),
    ensures
        forest_view(a) == forest_view(b),
{
    lemma_forest_view(a);
    lemma_forest_view(b);
    assert(forest_view(a) =~= forest_view(b));
}

/// Views of edited node sequences, element by element.
pub broadcast proof fn lemma_forest_view_update(s: Seq<SceneNode>, i: int, x: SceneNode)
    requires
        0 <= i < s.len(),
    ensures
        #[trigger] forest_view(s.update(i, x)) == forest_view(s).update(i, node_view(x)),
{
    lemma_forest_view(s);
    lemma_forest_view(s.update(i, x));
    assert(forest_view(s.update(i, x)) =~= forest_view(s).update(i, node_view(x)));
}

pub broadcast proof fn lemma_forest_view_push(s: Seq<SceneNode>, x: SceneNode)
    ensures
        #[trigger] forest_view(s.push(x)) == forest_view(s).push(node_view(x)),
{
    lemma_forest_view(s);
    lemma_forest_view(s.push(x));
    assert(forest_view(s.push(x)) =~= forest_view(s).push(node_view(x)));
}

pub broadcast proof fn lemma_forest_view_remove(s: Seq<SceneNode>, i: int)
    requires
        0 <= i < s.len(),
    ensures
        #[trigger] forest_view(s.remove(i)) == forest_view(s).remove(i),
{
    lemma_forest_view(s);
    lemma_forest_view(s.remove(i));
    assert(forest_view(s.remove(i)) =~= forest_view(s).remove(i));
}

pub broadcast proof fn lemma_forest_view_insert(s: Seq<SceneNode>, i: int, x: SceneNode)
    requires
        0 <= i <= s.len(),
    ensures
        #[trigger] forest_view(s.insert(i, x)) == forest_view(s).insert(i, node_view(x)),
{
    lemma_forest_view(s);
    lemma_forest_view(s.insert(i, x));
    assert(forest_view(s.insert(i, x)) =~= forest_view(s).insert(i, node_view(x)));
}

pub broadcast group group_forest_view {
    lemma_forest_view_update,
    lemma_forest_view_push,
    lemma_forest_view_remove,
    lemma_forest_view_insert,
}

impl SceneNode {
    /// A copy of the node and its whole subtree.
    pub fn deep_clone(&self) -> (r: SceneNode)
        ensures
            r@ == self@,
        decreases self,
    {
        SceneNode {
            id: self.id,
            name: self.name.clone(),
            kind: self.kind,
            children: clone_nodes(&self.children),
            props: self.props,
            visible: self.visible,
        }
    }
}

/// A copy of a sequence of nodes with their subtrees.
pub fn clone_nodes(v: &Vec<SceneNode>) -> (r: Vec<SceneNode>)
    ensures
        forest_view(r@) == forest_view(v@),
    decreases v,
{
    let mut out: Vec<SceneNode> = Vec::new();
    let mut i: usize = 0;
    while i < v.len()
        invariant
            i <= v.len(),
            out@.len() == i,
            forall|j: int| 0 <= j < i ==> node_view(#[trigger] out@[j]) == node_view(v@[j]),
        decreases v.len() - i,
    {
        let c = v[i].deep_clone();
        out.push(c);
        i = i + 1;
    }
    proof {
        lemma_forest_view_ext(out@, v@);
    }
    out
}


impl Default for SceneNode {
    fn default() -> (r: Self)
        ensures
            r@ == (SceneNodeView {
                id: 0,
                name: "Node"@,
                kind: SceneNodeKind::Empty,
                props: SceneNodeProps::spec_default(),
                visible: true,
                children: seq![],
            }),
    {
        SceneNode {
            id: 0,
            name: String::from_str("Node"),
            kind: SceneNodeKind::Empty,
            children: Vec::new(),
            props: SceneNodeProps::default(),
            visible: true,
        }
    }
}

// ─── Factory ───────────────────────────────────────────────────────────────

/// The name a new node of the given kind gets.
pub open spec fn spec_default_name(kind: SceneNodeKind) -> Seq<char> {
    match kind {
        SceneNodeKind::Empty => "Empty"@,
        SceneNodeKind::Mesh(p) => p.spec_label(),
        SceneNodeKind::Light(l) => l.spec_label() + " Light"@,
    }
}

/// The properties a new node of the given kind gets: a plane is a wide green
/// floor, other meshes rest on the ground, lights are placed and aimed.
pub open spec fn spec_default_props(kind: SceneNodeKind) -> SceneNodeProps {
    let d = SceneNodeProps::spec_default();
    match kind {
        SceneNodeKind::Empty => d,
        SceneNodeKind::Mesh(ScenePrimitive::Plane) => SceneNodeProps {
            scale: [F32_FIVE, F32_ONE, F32_FIVE],
            color: [F32_POINT_THREE, F32_HALF, F32_POINT_THREE, F32_ONE],
            ..d
        },
        SceneNodeKind::Mesh(ScenePrimitive::Capsule) => SceneNodeProps {
            translation: [F32_ZERO, F32_ONE, F32_ZERO],
            ..d
        },
        SceneNodeKind::Mesh(_) => SceneNodeProps { translation: [F32_ZERO, F32_HALF, F32_ZERO], ..d },
        SceneNodeKind::Light(SceneLightKind::Point) => SceneNodeProps {
            translation: [F32_ZERO, F32_FOUR, F32_ZERO],
            light_intensity: F32_EIGHT_HUNDRED,
            ..d
        },
        SceneNodeKind::Light(SceneLightKind::Directional) => SceneNodeProps {
            rotation_euler: [F32_NEG_FORTY_FIVE, F32_THIRTY, F32_ZERO],
            light_intensity: F32_TWO_THOUSAND,
            ..d
        },
        SceneNodeKind::Light(SceneLightKind::Spot) => SceneNodeProps {
            translation: [F32_ZERO, F32_FIVE, F32_ZERO],
            rotation_euler: [F32_NEG_NINETY, F32_ZERO, F32_ZERO],
            light_intensity: F32_ONE_THOUSAND,
            ..d
        },
    }
}

/// A visible, childless node of the given kind, named after the kind.
pub open spec fn spec_new_scene_node(id: u64, kind: SceneNodeKind) -> SceneNodeView {
    SceneNodeView {
        id,
        name: spec_default_name(kind),
        kind,
        props: spec_default_props(kind),
        visible: true,
        children: seq![],
    }
}

pub fn new_scene_node(id: u64, kind: SceneNodeKind) -> (node: SceneNode)
    ensures
        node@ == spec_new_scene_node(id, kind),
{
    let name = match kind {
        SceneNodeKind::Empty => String::from_str("Empty"),
        SceneNodeKind::Mesh(p) => p.label(),
        SceneNodeKind::Light(l) => {
            let mut s = l.label();
            s.append(" Light");
            s
        },
    };
    let mut props = SceneNodeProps::default();
    match kind {
        SceneNodeKind::Mesh(ScenePrimitive::Plane) => {
            props.scale = [F32_FIVE, F32_ONE, F32_FIVE];
            props.color = [F32_POINT_THREE, F32_HALF, F32_POINT_THREE, F32_ONE];
        },
        SceneNodeKind::Mesh(ScenePrimitive::Capsule) => {
            props.translation = [F32_ZERO, F32_ONE, F32_ZERO];
        },
        SceneNodeKind::Mesh(_) => {
            props.translation = [F32_ZERO, F32_HALF, F32_ZERO];
        },
        SceneNodeKind::Light(SceneLightKind::Point) => {
            props.translation = [F32_ZERO, F32_FOUR, F32_ZERO];
            props.light_intensity = F32_EIGHT_HUNDRED;
        },
        SceneNodeKind::Light(SceneLightKind::Directional) => {
            props.rotation_euler = [F32_NEG_FORTY_FIVE, F32_THIRTY, F32_ZERO];
            props.light_intensity = F32_TWO_THOUSAND;
        },
        SceneNodeKind::Light(SceneLightKind::Spot) => {
            props.translation = [F32_ZERO, F32_FIVE, F32_ZERO];
            props.rotation_euler = [F32_NEG_NINETY, F32_ZERO, F32_ZERO];
            props.light_intensity = F32_ONE_THOUSAND;
        },
        SceneNodeKind::Empty => {},
    }
    let node = SceneNode { id, name, kind, children: Vec::new(), props, visible: true };
    proof {
        assert(forest_view(node.children@) =~= seq![]);
    }
    node
}

} // verus!
