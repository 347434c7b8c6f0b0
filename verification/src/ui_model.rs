//! The UI layout model: values, rectangles, layout enums and UI nodes.
//!
//! As in the scene model, every `f32` is carried as its IEEE-754 bit
//! pattern.

use vstd::prelude::*;

use crate::scene_model::{F32_ONE, F32_ZERO};

verus! {

pub const F32_SIXTEEN: u32 = 0x4180_0000;
pub const F32_HUNDRED: u32 = 0x42c8_0000;

/// A length: automatic, pixels, percent of the parent, or percent of the
/// viewport width or height.
#[derive(Clone, Copy, Debug)]
pub enum EditorVal {
    Auto,
    Px(u32),
    Percent(u32),
    Vw(u32),
    Vh(u32),
}

impl Default for EditorVal {
    fn default() -> (r: Self)
        ensures
            r == EditorVal::Auto,
    {
        EditorVal::Auto
    }
}

impl EditorVal {
    /// The name of the unit, as the inspector shows it.
    pub open spec fn spec_type_label(self) -> Seq<char> {
        match self {
            EditorVal::Auto => "Auto"@,
            EditorVal::Px(_) => "Px"@,
            EditorVal::Percent(_) => "Percent"@,
            EditorVal::Vw(_) => "Vw"@,
            EditorVal::Vh(_) => "Vh"@,
        }
    }

    pub fn type_label(&self) -> (s: &'static str)
        ensures
            s@ == self.spec_type_label(),
    {
        match self {
            EditorVal::Auto => "Auto",
            EditorVal::Px(_) => "Px",
            EditorVal::Percent(_) => "Percent",
            EditorVal::Vw(_) => "Vw",
            EditorVal::Vh(_) => "Vh",
        }
    }

    /// The number the value carries; zero for `Auto`.
    pub open spec fn spec_inner(self) -> u32 {
        match self {
            EditorVal::Auto => F32_ZERO,
            EditorVal::Px(x) => x,
            EditorVal::Percent(x) => x,
            EditorVal::Vw(x) => x,
            EditorVal::Vh(x) => x,
        }
    }

    pub fn inner(&self) -> (x: u32)
        ensures
            x == self.spec_inner(),
    {
        match self {
            EditorVal::Auto => F32_ZERO,
            EditorVal::Px(x) => *x,
            EditorVal::Percent(x) => *x,
            EditorVal::Vw(x) => *x,
            EditorVal::Vh(x) => *x,
        }
    }
}

/// Whether an `f32` bit pattern is zero (either sign), the values that
/// compare equal to `0.0`.
pub open spec fn spec_is_zero(bits: u32) -> bool {
    bits == 0 || bits == 0x8000_0000
}

pub fn is_zero(bits: u32) -> (r: bool)
    ensures
        r == spec_is_zero(bits),
{
    bits == 0 || bits == 0x8000_0000
}

#[derive(Clone, Copy, Debug)]
pub struct EditorRect {
    pub top: EditorVal,
    pub right: EditorVal,
    pub bottom: EditorVal,
    pub left: EditorVal,
}

impl Default for EditorRect {
    /// Zero pixels on every side.
    fn default() -> (r: Self)
        ensures
            r == (EditorRect {
                top: EditorVal::Px(F32_ZERO),
                right: EditorVal::Px(F32_ZERO),
                bottom: EditorVal::Px(F32_ZERO),
                left: EditorVal::Px(F32_ZERO),
            }),
    {
        EditorRect {
            top: EditorVal::Px(F32_ZERO),
            right: EditorVal::Px(F32_ZERO),
            bottom: EditorVal::Px(F32_ZERO),
            left: EditorVal::Px(F32_ZERO),
        }
    }
}

#[derive(Clone, Copy, Debug, PartialEq, Eq, Structural)]
pub enum EditorFlexDirection {
    Row,
    Column,
    RowReverse,
    ColumnReverse,
}

impl Default for EditorFlexDirection {
    fn default() -> (r: Self)
        ensures
            r == EditorFlexDirection::Row,
    {
        EditorFlexDirection::Row
    }
}

impl EditorFlexDirection {
    pub open spec fn spec_label(self) -> Seq<char> {
        match self {
            EditorFlexDirection::Row => "Row"@,
            EditorFlexDirection::Column => "Column"@,
            EditorFlexDirection::RowReverse => "RowReverse"@,
            EditorFlexDirection::ColumnReverse => "ColumnReverse"@,
        }
    }

    /// The display text of the value: its variant name.
    pub fn label(&self) -> (s: String)
        ensures
            s@ == self.spec_label(),
    {
        match self {
            EditorFlexDirection::Row => String::from_str("Row"),
            EditorFlexDirection::Column => String::from_str("Column"),
            EditorFlexDirection::RowReverse => String::from_str("RowReverse"),
            EditorFlexDirection::ColumnReverse => String::from_str("ColumnReverse"),
        }
    }
}

#[derive(Clone, Copy, Debug, PartialEq, Eq, Structural)]
pub enum EditorJustifyContent {
    FlexStart,
    FlexEnd,
    Center,
    SpaceBetween,
    SpaceAround,
    SpaceEvenly,
}

impl Default for EditorJustifyContent {
    fn default() -> (r: Self)
        ensures
            r == EditorJustifyContent::FlexStart,
    {
        EditorJustifyContent::FlexStart
    }
}

impl EditorJustifyContent {
    pub open spec fn spec_label(self) -> Seq<char> {
        match self {
            EditorJustifyContent::FlexStart => "FlexStart"@,
            EditorJustifyContent::FlexEnd => "FlexEnd"@,
            EditorJustifyContent::Center => "Center"@,
            EditorJustifyContent::SpaceBetween => "SpaceBetween"@,
            EditorJustifyContent::SpaceAround => "SpaceAround"@,
            EditorJustifyContent::SpaceEvenly => "SpaceEvenly"@,
        }
    }

    /// The display text of the value: its variant name.
    pub fn label(&self) -> (s: String)
        ensures
            s@ == self.spec_label(),
    {
        match self {
            EditorJustifyContent::FlexStart => String::from_str("FlexStart"),
            EditorJustifyContent::FlexEnd => String::from_str("FlexEnd"),
            EditorJustifyContent::Center => String::from_str("Center"),
            EditorJustifyContent::SpaceBetween => String::from_str("SpaceBetween"),
            EditorJustifyContent::SpaceAround => String::from_str("SpaceAround"),
            EditorJustifyContent::SpaceEvenly => String::from_str("SpaceEvenly"),
        }
    }
}

#[derive(Clone, Copy, Debug, PartialEq, Eq, Structural)]
pub enum EditorAlignItems {
    FlexStart,
    FlexEnd,
    Center,
    Stretch,
    Baseline,
}

impl Default for EditorAlignItems {
    fn default() -> (r: Self)
        ensures
            r == EditorAlignItems::Stretch,
    {
        EditorAlignItems::Stretch
    }
}

impl EditorAlignItems {
    pub open spec fn spec_label(self) -> Seq<char> {
        match self {
            EditorAlignItems::FlexStart => "FlexStart"@,
            EditorAlignItems::FlexEnd => "FlexEnd"@,
            EditorAlignItems::Center => "Center"@,
            EditorAlignItems::Stretch => "Stretch"@,
            EditorAlignItems::Baseline => "Baseline"@,
        }
    }

    /// The display text of the value: its variant name.
    pub fn label(&self) -> (s: String)
        ensures
            s@ == self.spec_label(),
    {
        match self {
            EditorAlignItems::FlexStart => String::from_str("FlexStart"),
            EditorAlignItems::FlexEnd => String::from_str("FlexEnd"),
            EditorAlignItems::Center => String::from_str("Center"),
            EditorAlignItems::Stretch => String::from_str("Stretch"),
            EditorAlignItems::Baseline => String::from_str("Baseline"),
        }
    }
}

#[derive(Clone, Copy, Debug, PartialEq, Eq, Structural)]
pub enum EditorPositionType {
    Relative,
    Absolute,
}

impl Default for EditorPositionType {
    fn default() -> (r: Self)
        ensures
            r == EditorPositionType::Relative,
    {
        EditorPositionType::Relative
    }
}

impl EditorPositionType {
    pub open spec fn spec_label(self) -> Seq<char> {
        match self {
            EditorPositionType::Relative => "Relative"@,
            EditorPositionType::Absolute => "Absolute"@,
        }
    }

    /// The display text of the value: its variant name.
    pub fn label(&self) -> (s: String)
        ensures
            s@ == self.spec_label(),
    {
        match self {
            EditorPositionType::Relative => String::from_str("Relative"),
            EditorPositionType::Absolute => String::from_str("Absolute"),
        }
    }
}

#[derive(Clone, Copy, Debug, PartialEq, Eq, Structural)]
pub enum EditorOverflow {
    Visible,
    Clip,
    Hidden,
}

impl Default for EditorOverflow {
    fn default() -> (r: Self)
        ensures
            r == EditorOverflow::Visible,
    {
        EditorOverflow::Visible
    }
}

impl EditorOverflow {
    pub open spec fn spec_label(self) -> Seq<char> {
        match self {
            EditorOverflow::Visible => "Visible"@,
            EditorOverflow::Clip => "Clip"@,
            EditorOverflow::Hidden => "Hidden"@,
        }
    }

    /// The display text of the value: its variant name.
    pub fn label(&self) -> (s: String)
        ensures
            s@ == self.spec_label(),
    {
        match self {
            EditorOverflow::Visible => String::from_str("Visible"),
            EditorOverflow::Clip => String::from_str("Clip"),
            EditorOverflow::Hidden => String::from_str("Hidden"),
        }
    }
}

#[derive(Clone, Copy, Debug, PartialEq, Eq, Structural)]
pub enum EditorNodeType {
    Container,
    Text,
    Button,
    Image,
}

impl Default for EditorNodeType {
    fn default() -> (r: Self)
        ensures
            r == EditorNodeType::Container,
    {
        EditorNodeType::Container
    }
}

impl EditorNodeType {
    pub open spec fn spec_label(self) -> Seq<char> {
        match self {
            EditorNodeType::Container => "Container"@,
            EditorNodeType::Text => "Text"@,
            EditorNodeType::Button => "Button"@,
            EditorNodeType::Image => "Image"@,
        }
    }

    /// The display text of the value: its variant name.
    pub fn label(&self) -> (s: String)
        ensures
            s@ == self.spec_label(),
    {
        match self {
            EditorNodeType::Container => String::from_str("Container"),
            EditorNodeType::Text => String::from_str("Text"),
            EditorNodeType::Button => String::from_str("Button"),
            EditorNodeType::Image => String::from_str("Image"),
        }
    }
}


// ─── UI node ───────────────────────────────────────────────────────────────

#[derive(Debug)]
pub struct EditorUiNode {
    pub id: u64,
    pub name: String,
    pub node_type: EditorNodeType,
    pub children: Vec<EditorUiNode>,
    pub width: EditorVal,
    pub height: EditorVal,
    pub flex_direction: EditorFlexDirection,
    pub justify_content: EditorJustifyContent,
    pub align_items: EditorAlignItems,
    pub position_type: EditorPositionType,
    pub padding: EditorRect,
    pub margin: EditorRect,
    pub border: EditorRect,
    pub flex_wrap: bool,
    pub flex_grow: u32,
    pub flex_shrink: u32,
    pub flex_basis: EditorVal,
    pub row_gap: EditorVal,
    pub column_gap: EditorVal,
    pub overflow_x: EditorOverflow,
    pub overflow_y: EditorOverflow,
    pub background_color: [u32; 4],
    pub border_color: [u32; 4],
    pub border_radius: u32,
    pub z_index: i32,
    pub visible: bool,
    pub text_content: String,
    pub font_size: u32,
    pub text_color: [u32; 4],
    pub image_path: String,
}

/// Layout and look of a UI node: every field but the id, the texts and the
/// children.
#[derive(Clone, Copy, Debug)]
pub struct EditorUiStyle {
    pub width: EditorVal,
    pub height: EditorVal,
    pub flex_direction: EditorFlexDirection,
    pub justify_content: EditorJustifyContent,
    pub align_items: EditorAlignItems,
    pub position_type: EditorPositionType,
    pub padding: EditorRect,
    pub margin: EditorRect,
    pub border: EditorRect,
    pub flex_wrap: bool,
    pub flex_grow: u32,
    pub flex_shrink: u32,
    pub flex_basis: EditorVal,
    pub row_gap: EditorVal,
    pub column_gap: EditorVal,
    pub overflow_x: EditorOverflow,
    pub overflow_y: EditorOverflow,
    pub background_color: [u32; 4],
    pub border_color: [u32; 4],
    pub border_radius: u32,
    pub z_index: i32,
    pub visible: bool,
    pub font_size: u32,
    pub text_color: [u32; 4],
}

/// The style of a freshly made node.
pub open spec fn spec_default_style() -> EditorUiStyle {
    let zero_rect = EditorRect {
        top: EditorVal::Px(F32_ZERO),
        right: EditorVal::Px(F32_ZERO),
        bottom: EditorVal::Px(F32_ZERO),
        left: EditorVal::Px(F32_ZERO),
    };
    EditorUiStyle {
        width: EditorVal::Auto,
        height: EditorVal::Auto,
        flex_direction: EditorFlexDirection::Row,
        justify_content: EditorJustifyContent::FlexStart,
        align_items: EditorAlignItems::Stretch,
        position_type: EditorPositionType::Relative,
        padding: zero_rect,
        margin: zero_rect,
        border: zero_rect,
        flex_wrap: false,
        flex_grow: F32_ZERO,
        flex_shrink: F32_ONE,
        flex_basis: EditorVal::Auto,
        row_gap: EditorVal::Px(F32_ZERO),
        column_gap: EditorVal::Px(F32_ZERO),
        overflow_x: EditorOverflow::Visible,
        overflow_y: EditorOverflow::Visible,
        background_color: [F32_ZERO, F32_ZERO, F32_ZERO, F32_ZERO],
        border_color: [F32_ZERO, F32_ZERO, F32_ZERO, F32_ZERO],
        border_radius: F32_ZERO,
        z_index: 0,
        visible: true,
        font_size: F32_SIXTEEN,
        text_color: [F32_ONE, F32_ONE, F32_ONE, F32_ONE],
    }
}

/// The mathematical value of a UI node.
pub struct EditorUiNodeView {
    pub id: u64,
    pub name: Seq<char>,
    pub node_type: EditorNodeType,
    pub style: EditorUiStyle,
    pub text_content: Seq<char>,
    pub image_path: Seq<char>,
    pub children: Seq<EditorUiNodeView>,
}

pub open spec fn style_of(n: EditorUiNode) -> EditorUiStyle {
    EditorUiStyle {
        width: n.width,
        height: n.height,
        flex_direction: n.flex_direction,
        justify_content: n.justify_content,
        align_items: n.align_items,
        position_type: n.position_type,
        padding: n.padding,
        margin: n.margin,
        border: n.border,
        flex_wrap: n.flex_wrap,
        flex_grow: n.flex_grow,
        flex_shrink: n.flex_shrink,
        flex_basis: n.flex_basis,
        row_gap: n.row_gap,
        column_gap: n.column_gap,
        overflow_x: n.overflow_x,
        overflow_y: n.overflow_y,
        background_color: n.background_color,
        border_color: n.border_color,
        border_radius: n.border_radius,
        z_index: n.z_index,
        visible: n.visible,
        font_size: n.font_size,
        text_color: n.text_color,
    }
}

pub open spec fn ui_node_view(n: EditorUiNode) -> EditorUiNodeView
    decreases n,
{
    EditorUiNodeView {
        id: n.id,
        name: n.name@,
        node_type: n.node_type,
        style: style_of(n),
        text_content: n.text_content@,
        image_path: n.image_path@,
        children: ui_forest_view(n.children@),
    }
}

pub open spec fn ui_forest_view(s: Seq<EditorUiNode>) -> Seq<EditorUiNodeView>
    decreases s,
{
    if s.len() == 0 {
        seq![]
    } else {
        seq![ui_node_view(s[0])] + ui_forest_view(s.drop_first())
    }
}

impl View for EditorUiNode {
    type V = EditorUiNodeView;

    open spec fn view(&self) -> EditorUiNodeView {
        ui_node_view(*self)
    }
}

pub proof fn lemma_ui_forest_view(s: Seq<EditorUiNode>)
    ensures
        ui_forest_view(s).len() == s.len(),
        forall|i: int| 0 <= i < s.len() ==> #[trigger] ui_forest_view(s)[i] == ui_node_view(s[i]),
    decreases s.len(),
{
    if s.len() > 0 {
        lemma_ui_forest_view(s.drop_first());
        assert forall|i: int| 0 <= i < s.len() implies #[trigger] ui_forest_view(s)[i] == ui_node_view(s[i]) by {
            if i > 0 {
                assert(s.drop_first()[i - 1] == s[i]);
            }
        }
    }
}

pub proof fn lemma_ui_forest_view_ext(a: Seq<EditorUiNode>, b: Seq<EditorUiNode>)
    requires
        a.len() == b.len(),
        forall|i: int| 0 <= i < a.len() ==> ui_node_view(#[trigger] a[i]) == ui_node_view(b[i]),
    ensures
        ui_forest_view(a) == ui_forest_view(b),
{
    lemma_ui_forest_view(a);
    lemma_ui_forest_view(b);
    assert(ui_forest_view(a) =~= ui_forest_view(b));
}

pub broadcast proof fn lemma_ui_forest_view_update(s: Seq<EditorUiNode>, i: int, x: EditorUiNode)
    requires
        0 <= i < s.len(),
    ensures
        #[trigger] ui_forest_view(s.update(i, x)) == ui_forest_view(s).update(i, ui_node_view(x)),
{
    lemma_ui_forest_view(s);
    lemma_ui_forest_view(s.update(i, x));
    assert(ui_forest_view(s.update(i, x)) =~= ui_forest_view(s).update(i, ui_node_view(x)));
}

pub broadcast proof fn lemma_ui_forest_view_push(s: Seq<EditorUiNode>, x: EditorUiNode)
    ensures
        #[trigger] ui_forest_view(s.push(x)) == ui_forest_view(s).push(ui_node_view(x)),
{
    lemma_ui_forest_view(s);
    lemma_ui_forest_view(s.push(x));
    assert(ui_forest_view(s.push(x)) =~= ui_forest_view(s).push(ui_node_view(x)));
}

pub broadcast proof fn lemma_ui_forest_view_remove(s: Seq<EditorUiNode>, i: int)
    requires
        0 <= i < s.len(),
    ensures
        #[trigger] ui_forest_view(s.remove(i)) == ui_forest_view(s).remove(i),
{
    lemma_ui_forest_view(s);
    lemma_ui_forest_view(s.remove(i));
    assert(ui_forest_view(s.remove(i)) =~= ui_forest_view(s).remove(i));
}

pub broadcast group group_ui_forest_view {
    lemma_ui_forest_view_update,
    lemma_ui_forest_view_push,
    lemma_ui_forest_view_remove,
}

impl Default for EditorUiNode {
    fn default() -> (r: Self)
        ensures
            r@ == (EditorUiNodeView {
                id: 0,
                name: "Node"@,
                node_type: EditorNodeType::Container,
                style: spec_default_style(),
                text_content: seq![],
                image_path: seq![],
                children: seq![],
            }),
    {
        let r = EditorUiNode {
            id: 0,
            name: String::from_str("Node"),
            node_type: EditorNodeType::Container,
            children: Vec::new(),
            width: EditorVal::Auto,
            height: EditorVal::Auto,
            flex_direction: EditorFlexDirection::Row,
            justify_content: EditorJustifyContent::FlexStart,
            align_items: EditorAlignItems::Stretch,
            position_type: EditorPositionType::Relative,
            padding: EditorRect::default(),
            margin: EditorRect::default(),
            border: EditorRect::default(),
            flex_wrap: false,
            flex_grow: F32_ZERO,
            flex_shrink: F32_ONE,
            flex_basis: EditorVal::Auto,
            row_gap: EditorVal::Px(F32_ZERO),
            column_gap: EditorVal::Px(F32_ZERO),
            overflow_x: EditorOverflow::Visible,
            overflow_y: EditorOverflow::Visible,
            background_color: [F32_ZERO, F32_ZERO, F32_ZERO, F32_ZERO],
            border_color: [F32_ZERO, F32_ZERO, F32_ZERO, F32_ZERO],
            border_radius: F32_ZERO,
            z_index: 0,
            visible: true,
            text_content: String::new(),
            font_size: F32_SIXTEEN,
            text_color: [F32_ONE, F32_ONE, F32_ONE, F32_ONE],
            image_path: String::new(),
        };
        proof {
            assert(ui_forest_view(r.children@) =~= seq![]);
        }
        r
    }
}

/// The name a new UI node of the given type gets.
pub open spec fn spec_node_type_name(t: EditorNodeType) -> Seq<char> {
    t.spec_label()
}

/// A new node of the given type, named after it, with the default style.
pub fn new_node(id: u64, node_type: EditorNodeType) -> (n: EditorUiNode)
    ensures
        n@ == (EditorUiNodeView {
            id,
            name: spec_node_type_name(node_type),
            node_type,
            style: spec_default_style(),
            text_content: seq![],
            image_path: seq![],
            children: seq![],
        }),
{
    let mut n = EditorUiNode::default();
    n.id = id;
    n.name = node_type.label();
    n.node_type = node_type;
    n
}

impl EditorUiNode {
    /// A copy of the node and its whole subtree.
    pub fn deep_clone(&self) -> (r: EditorUiNode)
        ensures
            r@ == self@,
        decreases self,
    {
        EditorUiNode {
            id: self.id,
            name: self.name.clone(),
            node_type: self.node_type,
            children: clone_ui_nodes(&self.children),
            width: self.width,
            height: self.height,
            flex_direction: self.flex_direction,
            justify_content: self.justify_content,
            align_items: self.align_items,
            position_type: self.position_type,
            padding: self.padding,
            margin: self.margin,
            border: self.border,
            flex_wrap: self.flex_wrap,
            flex_grow: self.flex_grow,
            flex_shrink: self.flex_shrink,
            flex_basis: self.flex_basis,
            row_gap: self.row_gap,
            column_gap: self.column_gap,
            overflow_x: self.overflow_x,
            overflow_y: self.overflow_y,
            background_color: self.background_color,
            border_color: self.border_color,
            border_radius: self.border_radius,
            z_index: self.z_index,
            visible: self.visible,
            text_content: self.text_content.clone(),
            font_size: self.font_size,
            text_color: self.text_color,
            image_path: self.image_path.clone(),
        }
    }
}

pub fn clone_ui_nodes(v: &Vec<EditorUiNode>) -> (r: Vec<EditorUiNode>)
    ensures
        ui_forest_view(r@) == ui_forest_view(v@),
    decreases v,
{
    let mut out: Vec<EditorUiNode> = Vec::new();
    let mut i: usize = 0;
    while i < v.len()
        invariant
            i <= v.len(),
            out@.len() == i,
            forall|j: int| 0 <= j < i ==> ui_node_view(#[trigger] out@[j]) == ui_node_view(v@[j]),
        decreases v.len() - i,
    {
        let c = v[i].deep_clone();
        out.push(c);
        i = i + 1;
    }
    proof {
        lemma_ui_forest_view_ext(out@, v@);
    }
    out
}

// ─── Editor resources ──────────────────────────────────────────────────────

#[derive(Debug)]
pub struct EditorSelection {
    pub selected: Option<u64>,
}

impl Default for EditorSelection {
    fn default() -> (r: Self)
        ensures
            r.selected is None,
    {
        EditorSelection { selected: None }
    }
}

/// Hands out fresh UI node ids, counting up from 1.
pub struct EditorIdCounter {
    counter: u64,
}

impl View for EditorIdCounter {
    type V = u64;

    closed spec fn view(&self) -> u64 {
        self.counter
    }
}

impl Default for EditorIdCounter {
    fn default() -> (r: Self)
        ensures
            r@ == 1,
    {
        EditorIdCounter { counter: 1 }
    }
}

impl EditorIdCounter {
    /// The id the next call of `next_id` hands out.
    pub fn current(&self) -> (id: u64)
        ensures
            id == self@,
    {
        self.counter
    }

    pub fn next_id(&mut self) -> (id: u64)
        requires
            old(self)@ < u64::MAX,
        ensures
            id == old(self)@,
            final(self)@ == old(self)@ + 1,
    {
        let id = self.counter;
        self.counter = self.counter + 1;
        id
    }
}

#[derive(Debug)]
pub struct EditorChanged {
    pub dirty: bool,
}

impl Default for EditorChanged {
    fn default() -> (r: Self)
        ensures
            r.dirty,
    {
        EditorChanged { dirty: true }
    }
}

#[derive(Debug)]
pub struct ShowExportWindow {
    pub show: bool,
    pub code: String,
}

impl Default for ShowExportWindow {
    fn default() -> (r: Self)
        ensures
            !r.show,
            r.code@ == Seq::<char>::empty(),
    {
        ShowExportWindow { show: false, code: String::new() }
    }
}

} // verus!
