//! The Rust code generated for a UI layout: which style fields differ from
//! Bevy's defaults and must be written out, the Rust names of the style
//! enums, indentation, string escaping, the code that spawns each node and
//! the whole generated file, which spawns the designed tree. The texts that
//! print `f32` values are made by the caller and handed in, in the shape of
//! the tree.

use vstd::prelude::*;

use crate::text::{append_str, contains_seq, decimal, occurs_at, push_char, strings_view, u64_to_string};
use crate::ui_doc::EditorDocument;
use crate::ui_model::{ui_forest_view, EditorNodeType, EditorUiNodeView};
use crate::ui_model::{
    spec_is_zero, EditorAlignItems, EditorFlexDirection, EditorJustifyContent, EditorOverflow,
    EditorPositionType, EditorRect, EditorUiNode, EditorVal, is_zero,
};

verus! {

/// The bit pattern of `1.0_f32`.
pub const F32_ONE_BITS: u32 = 0x3f80_0000;

// ─── Enum names ────────────────────────────────────────────────────────────

pub fn flex_dir_to_rust(d: &EditorFlexDirection) -> (r: &'static str)
    ensures
        r@ == "FlexDirection::"@ + d.spec_label(),
{
    proof {
        reveal_strlit("FlexDirection::");
        reveal_strlit("Row");
        reveal_strlit("Column");
        reveal_strlit("RowReverse");
        reveal_strlit("ColumnReverse");
        reveal_strlit("FlexDirection::Row");
        reveal_strlit("FlexDirection::Column");
        reveal_strlit("FlexDirection::RowReverse");
        reveal_strlit("FlexDirection::ColumnReverse");
    }
    match d {
        EditorFlexDirection::Row => "FlexDirection::Row",
        EditorFlexDirection::Column => "FlexDirection::Column",
        EditorFlexDirection::RowReverse => "FlexDirection::RowReverse",
        EditorFlexDirection::ColumnReverse => "FlexDirection::ColumnReverse",
    }
}


pub fn justify_to_rust(x: &EditorJustifyContent) -> (r: &'static str)
    ensures
        r@ == "JustifyContent::"@ + x.spec_label(),
{
    proof {
        reveal_strlit("JustifyContent::");
        reveal_strlit("FlexStart");
        reveal_strlit("FlexEnd");
        reveal_strlit("Center");
        reveal_strlit("SpaceBetween");
        reveal_strlit("SpaceAround");
        reveal_strlit("SpaceEvenly");
        reveal_strlit("JustifyContent::FlexStart");
        reveal_strlit("JustifyContent::FlexEnd");
        reveal_strlit("JustifyContent::Center");
        reveal_strlit("JustifyContent::SpaceBetween");
        reveal_strlit("JustifyContent::SpaceAround");
        reveal_strlit("JustifyContent::SpaceEvenly");
    }
    match x {
        EditorJustifyContent::FlexStart => "JustifyContent::FlexStart",
        EditorJustifyContent::FlexEnd => "JustifyContent::FlexEnd",
        EditorJustifyContent::Center => "JustifyContent::Center",
        EditorJustifyContent::SpaceBetween => "JustifyContent::SpaceBetween",
        EditorJustifyContent::SpaceAround => "JustifyContent::SpaceAround",
        EditorJustifyContent::SpaceEvenly => "JustifyContent::SpaceEvenly",
    }
}

pub fn align_to_rust(x: &EditorAlignItems) -> (r: &'static str)
    ensures
        r@ == "AlignItems::"@ + x.spec_label(),
{
    proof {
        reveal_strlit("AlignItems::");
        reveal_strlit("FlexStart");
        reveal_strlit("FlexEnd");
        reveal_strlit("Center");
        reveal_strlit("Stretch");
        reveal_strlit("Baseline");
        reveal_strlit("AlignItems::FlexStart");
        reveal_strlit("AlignItems::FlexEnd");
        reveal_strlit("AlignItems::Center");
        reveal_strlit("AlignItems::Stretch");
        reveal_strlit("AlignItems::Baseline");
    }
    match x {
        EditorAlignItems::FlexStart => "AlignItems::FlexStart",
        EditorAlignItems::FlexEnd => "AlignItems::FlexEnd",
        EditorAlignItems::Center => "AlignItems::Center",
        EditorAlignItems::Stretch => "AlignItems::Stretch",
        EditorAlignItems::Baseline => "AlignItems::Baseline",
    }
}

pub fn position_to_rust(x: &EditorPositionType) -> (r: &'static str)
    ensures
        r@ == "PositionType::"@ + x.spec_label(),
{
    proof {
        reveal_strlit("PositionType::");
        reveal_strlit("Relative");
        reveal_strlit("Absolute");
        reveal_strlit("PositionType::Relative");
        reveal_strlit("PositionType::Absolute");
    }
    match x {
        EditorPositionType::Relative => "PositionType::Relative",
        EditorPositionType::Absolute => "PositionType::Absolute",
    }
}

pub fn overflow_to_rust(x: &EditorOverflow) -> (r: &'static str)
    ensures
        r@ == "OverflowAxis::"@ + x.spec_label(),
{
    proof {
        reveal_strlit("OverflowAxis::");
        reveal_strlit("Visible");
        reveal_strlit("Clip");
        reveal_strlit("Hidden");
        reveal_strlit("OverflowAxis::Visible");
        reveal_strlit("OverflowAxis::Clip");
        reveal_strlit("OverflowAxis::Hidden");
    }
    match x {
        EditorOverflow::Visible => "OverflowAxis::Visible",
        EditorOverflow::Clip => "OverflowAxis::Clip",
        EditorOverflow::Hidden => "OverflowAxis::Hidden",
    }
}

// ─── Defaults ──────────────────────────────────────────────────────────────

/// A length that is `Px(0.0)` (or `Px(-0.0)`).
pub open spec fn spec_is_px_zero(v: EditorVal) -> bool {
    match v {
        EditorVal::Px(b) => spec_is_zero(b),
        _ => false,
    }
}

pub fn is_px_zero(v: &EditorVal) -> (r: bool)
    ensures
        r == spec_is_px_zero(*v),
{
    match v {
        EditorVal::Px(b) => is_zero(*b),
        _ => false,
    }
}

/// A rectangle whose four sides are `Px(0.0)`.
pub open spec fn spec_is_rect_zero(r: EditorRect) -> bool {
    spec_is_px_zero(r.top) && spec_is_px_zero(r.right) && spec_is_px_zero(r.bottom) && spec_is_px_zero(r.left)
}

pub fn is_rect_zero(r: &EditorRect) -> (z: bool)
    ensures
        z == spec_is_rect_zero(*r),
{
    is_px_zero(&r.top) && is_px_zero(&r.right) && is_px_zero(&r.bottom) && is_px_zero(&r.left)
}

/// A colour whose four channels are zero, Bevy's "none".
pub open spec fn spec_is_clear(c: [u32; 4]) -> bool {
    spec_is_zero(c[0]) && spec_is_zero(c[1]) && spec_is_zero(c[2]) && spec_is_zero(c[3])
}

pub fn is_clear(c: &[u32; 4]) -> (r: bool)
    ensures
        r == spec_is_clear(*c),
{
    is_zero(c[0]) && is_zero(c[1]) && is_zero(c[2]) && is_zero(c[3])
}

/// The style fields of a node that the generated `Node { .. }` writes
/// out.
#[derive(Clone, Copy, Debug, PartialEq, Eq, Structural)]
pub enum ComponentField {
    Width,
    Height,
    FlexDirection,
    JustifyContent,
    AlignItems,
    PositionType,
    Padding,
    Margin,
    Border,
    FlexWrap,
    FlexGrow,
    FlexShrink,
    FlexBasis,
    RowGap,
    ColumnGap,
    Overflow,
    BorderRadius,
}

pub open spec fn field_if(b: bool, f: ComponentField) -> Seq<ComponentField> {
    if b { seq![f] } else { seq![] }
}

/// The fields that differ from Bevy's defaults, in the order they are
/// written: a field set to its default is left to `..default()`.
pub open spec fn spec_component_fields(n: EditorUiNode) -> Seq<ComponentField> {
    field_if(!(n.width is Auto), ComponentField::Width)
        + field_if(!(n.height is Auto), ComponentField::Height)
        + field_if(!(n.flex_direction is Row), ComponentField::FlexDirection)
        + field_if(!(n.justify_content is FlexStart), ComponentField::JustifyContent)
        + field_if(!(n.align_items is Stretch), ComponentField::AlignItems)
        + field_if(!(n.position_type is Relative), ComponentField::PositionType)
        + field_if(!spec_is_rect_zero(n.padding), ComponentField::Padding)
        + field_if(!spec_is_rect_zero(n.margin), ComponentField::Margin)
        + field_if(!spec_is_rect_zero(n.border), ComponentField::Border)
        + field_if(n.flex_wrap, ComponentField::FlexWrap)
        + field_if(!spec_is_zero(n.flex_grow), ComponentField::FlexGrow)
        + field_if(n.flex_shrink != F32_ONE_BITS, ComponentField::FlexShrink)
        + field_if(!(n.flex_basis is Auto), ComponentField::FlexBasis)
        + field_if(!spec_is_px_zero(n.row_gap), ComponentField::RowGap)
        + field_if(!spec_is_px_zero(n.column_gap), ComponentField::ColumnGap)
        + field_if(!(n.overflow_x is Visible) || !(n.overflow_y is Visible), ComponentField::Overflow)
        + field_if(!spec_is_zero(n.border_radius), ComponentField::BorderRadius)
}

fn push_field_if(out: &mut Vec<ComponentField>, b: bool, f: ComponentField)
    ensures
        final(out)@ == old(out)@ + field_if(b, f),
{
    if b {
        out.push(f);
    }
    proof {
        assert(final(out)@ =~= old(out)@ + field_if(b, f));
    }
}

pub fn component_fields(n: &EditorUiNode) -> (r: Vec<ComponentField>)
    ensures
        r@ == spec_component_fields(*n),
{
    let mut out: Vec<ComponentField> = Vec::new();
    proof {
        assert(out@ =~= Seq::<ComponentField>::empty());
    }
    push_field_if(&mut out, !matches!(n.width, EditorVal::Auto), ComponentField::Width);
    push_field_if(&mut out, !matches!(n.height, EditorVal::Auto), ComponentField::Height);
    push_field_if(&mut out, !matches!(n.flex_direction, EditorFlexDirection::Row), ComponentField::FlexDirection);
    push_field_if(&mut out, !matches!(n.justify_content, EditorJustifyContent::FlexStart), ComponentField::JustifyContent);
    push_field_if(&mut out, !matches!(n.align_items, EditorAlignItems::Stretch), ComponentField::AlignItems);
    push_field_if(&mut out, !matches!(n.position_type, EditorPositionType::Relative), ComponentField::PositionType);
    push_field_if(&mut out, !is_rect_zero(&n.padding), ComponentField::Padding);
    push_field_if(&mut out, !is_rect_zero(&n.margin), ComponentField::Margin);
    push_field_if(&mut out, !is_rect_zero(&n.border), ComponentField::Border);
    push_field_if(&mut out, n.flex_wrap, ComponentField::FlexWrap);
    push_field_if(&mut out, !is_zero(n.flex_grow), ComponentField::FlexGrow);
    push_field_if(&mut out, n.flex_shrink != F32_ONE_BITS, ComponentField::FlexShrink);
    push_field_if(&mut out, !matches!(n.flex_basis, EditorVal::Auto), ComponentField::FlexBasis);
    push_field_if(&mut out, !is_px_zero(&n.row_gap), ComponentField::RowGap);
    push_field_if(&mut out, !is_px_zero(&n.column_gap), ComponentField::ColumnGap);
    push_field_if(
        &mut out,
        !matches!(n.overflow_x, EditorOverflow::Visible) || !matches!(n.overflow_y, EditorOverflow::Visible),
        ComponentField::Overflow,
    );
    push_field_if(&mut out, !is_zero(n.border_radius), ComponentField::BorderRadius);
    proof {
        assert(out@ =~= spec_component_fields(*n));
    }
    out
}

/// Whether a style field of `n` holds Bevy's default value for it.
pub open spec fn field_at_default(n: EditorUiNode, f: ComponentField) -> bool {
    match f {
        ComponentField::Width => n.width == EditorVal::Auto,
        ComponentField::Height => n.height == EditorVal::Auto,
        ComponentField::FlexDirection => n.flex_direction == EditorFlexDirection::Row,
        ComponentField::JustifyContent => n.justify_content == EditorJustifyContent::FlexStart,
        ComponentField::AlignItems => n.align_items == EditorAlignItems::Stretch,
        ComponentField::PositionType => n.position_type == EditorPositionType::Relative,
        ComponentField::Padding => spec_is_rect_zero(n.padding),
        ComponentField::Margin => spec_is_rect_zero(n.margin),
        ComponentField::Border => spec_is_rect_zero(n.border),
        ComponentField::FlexWrap => !n.flex_wrap,
        ComponentField::FlexGrow => spec_is_zero(n.flex_grow),
        ComponentField::FlexShrink => n.flex_shrink == F32_ONE_BITS,
        ComponentField::FlexBasis => n.flex_basis == EditorVal::Auto,
        ComponentField::RowGap => spec_is_px_zero(n.row_gap),
        ComponentField::ColumnGap => spec_is_px_zero(n.column_gap),
        ComponentField::Overflow => n.overflow_x == EditorOverflow::Visible && n.overflow_y == EditorOverflow::Visible,
        ComponentField::BorderRadius => spec_is_zero(n.border_radius),
    }
}

/// A field's place in `Node { .. }`, in declaration order.
pub open spec fn field_rank(f: ComponentField) -> int {
    match f {
        ComponentField::Width => 0,
        ComponentField::Height => 1,
        ComponentField::FlexDirection => 2,
        ComponentField::JustifyContent => 3,
        ComponentField::AlignItems => 4,
        ComponentField::PositionType => 5,
        ComponentField::Padding => 6,
        ComponentField::Margin => 7,
        ComponentField::Border => 8,
        ComponentField::FlexWrap => 9,
        ComponentField::FlexGrow => 10,
        ComponentField::FlexShrink => 11,
        ComponentField::FlexBasis => 12,
        ComponentField::RowGap => 13,
        ComponentField::ColumnGap => 14,
        ComponentField::Overflow => 15,
        ComponentField::BorderRadius => 16,
    }
}

#[verifier::opaque]
spec fn lists_off_default(s: Seq<ComponentField>, n: EditorUiNode, r: int) -> bool {
    &&& forall|i: int, j: int| 0 <= i < j < s.len() ==> field_rank(#[trigger] s[i]) < field_rank(#[trigger] s[j])
    &&& forall|i: int| 0 <= i < s.len() ==> field_rank(#[trigger] s[i]) < r
    &&& forall|x: ComponentField| s.contains(x) <==> (field_rank(x) < r && !field_at_default(n, x))
}

proof fn lemma_add_field(acc: Seq<ComponentField>, n: EditorUiNode, b: bool, f: ComponentField)
    requires
        lists_off_default(acc, n, field_rank(f)),
        b == !field_at_default(n, f),
    ensures
        lists_off_default(acc + field_if(b, f), n, field_rank(f) + 1),
{
    reveal(lists_off_default);
    let t = acc + field_if(b, f);
    assert forall|x: ComponentField| t.contains(x) <==> (field_rank(x) < field_rank(f) + 1 && !field_at_default(n, x)) by {
        if t.contains(x) {
            let k = choose|k: int| 0 <= k < t.len() && t[k] == x;
            if k < acc.len() {
                assert(acc[k] == x);
            }
        }
        if field_rank(x) < field_rank(f) && !field_at_default(n, x) {
            assert(acc.contains(x));
            let k = choose|k: int| 0 <= k < acc.len() && acc[k] == x;
            assert(t[k] == x);
        }
        if field_rank(x) == field_rank(f) && !field_at_default(n, x) {
            assert(x == f);
            assert(t[acc.len() as int] == x);
        }
    }
}

proof fn lemma_lists_all(s: Seq<ComponentField>, n: EditorUiNode)
    requires
        lists_off_default(s, n, 17),
    ensures
        forall|f: ComponentField| s.contains(f) <==> !field_at_default(n, f),
        forall|i: int, j: int| 0 <= i < j < s.len() ==> field_rank(#[trigger] s[i]) < field_rank(#[trigger] s[j]),
{
    reveal(lists_off_default);
    assert forall|f: ComponentField| s.contains(f) <==> !field_at_default(n, f) by {
        assert(field_rank(f) < 17);
    }
}

spec fn fields_layout(n: EditorUiNode) -> Seq<ComponentField> {
    field_if(!(n.width is Auto), ComponentField::Width)
        + field_if(!(n.height is Auto), ComponentField::Height)
        + field_if(!(n.flex_direction is Row), ComponentField::FlexDirection)
        + field_if(!(n.justify_content is FlexStart), ComponentField::JustifyContent)
        + field_if(!(n.align_items is Stretch), ComponentField::AlignItems)
        + field_if(!(n.position_type is Relative), ComponentField::PositionType)
}

spec fn fields_box(n: EditorUiNode) -> Seq<ComponentField> {
    fields_layout(n)
        + field_if(!spec_is_rect_zero(n.padding), ComponentField::Padding)
        + field_if(!spec_is_rect_zero(n.margin), ComponentField::Margin)
        + field_if(!spec_is_rect_zero(n.border), ComponentField::Border)
        + field_if(n.flex_wrap, ComponentField::FlexWrap)
}

spec fn fields_flex(n: EditorUiNode) -> Seq<ComponentField> {
    fields_box(n)
        + field_if(!spec_is_zero(n.flex_grow), ComponentField::FlexGrow)
        + field_if(n.flex_shrink != F32_ONE_BITS, ComponentField::FlexShrink)
        + field_if(!(n.flex_basis is Auto), ComponentField::FlexBasis)
        + field_if(!spec_is_px_zero(n.row_gap), ComponentField::RowGap)
}

proof fn lemma_fields_layout(n: EditorUiNode)
    ensures
        lists_off_default(fields_layout(n), n, 6),
{
    let s0 = Seq::<ComponentField>::empty();
    assert(lists_off_default(s0, n, 0)) by {
        reveal(lists_off_default);
    }
    let s1 = field_if(!(n.width is Auto), ComponentField::Width);
    lemma_add_field(s0, n, !(n.width is Auto), ComponentField::Width);
    assert(s0 + s1 =~= s1);
    let s2 = s1 + field_if(!(n.height is Auto), ComponentField::Height);
    lemma_add_field(s1, n, !(n.height is Auto), ComponentField::Height);
    let s3 = s2 + field_if(!(n.flex_direction is Row), ComponentField::FlexDirection);
    lemma_add_field(s2, n, !(n.flex_direction is Row), ComponentField::FlexDirection);
    let s4 = s3 + field_if(!(n.justify_content is FlexStart), ComponentField::JustifyContent);
    lemma_add_field(s3, n, !(n.justify_content is FlexStart), ComponentField::JustifyContent);
    let s5 = s4 + field_if(!(n.align_items is Stretch), ComponentField::AlignItems);
    lemma_add_field(s4, n, !(n.align_items is Stretch), ComponentField::AlignItems);
    lemma_add_field(s5, n, !(n.position_type is Relative), ComponentField::PositionType);
}

proof fn lemma_fields_box(n: EditorUiNode)
    ensures
        lists_off_default(fields_box(n), n, 10),
{
    lemma_fields_layout(n);
    let s6 = fields_layout(n);
    let s7 = s6 + field_if(!spec_is_rect_zero(n.padding), ComponentField::Padding);
    lemma_add_field(s6, n, !spec_is_rect_zero(n.padding), ComponentField::Padding);
    let s8 = s7 + field_if(!spec_is_rect_zero(n.margin), ComponentField::Margin);
    lemma_add_field(s7, n, !spec_is_rect_zero(n.margin), ComponentField::Margin);
    let s9 = s8 + field_if(!spec_is_rect_zero(n.border), ComponentField::Border);
    lemma_add_field(s8, n, !spec_is_rect_zero(n.border), ComponentField::Border);
    lemma_add_field(s9, n, n.flex_wrap, ComponentField::FlexWrap);
}

proof fn lemma_fields_flex(n: EditorUiNode)
    ensures
        lists_off_default(fields_flex(n), n, 14),
{
    lemma_fields_box(n);
    let s10 = fields_box(n);
    let s11 = s10 + field_if(!spec_is_zero(n.flex_grow), ComponentField::FlexGrow);
    lemma_add_field(s10, n, !spec_is_zero(n.flex_grow), ComponentField::FlexGrow);
    let s12 = s11 + field_if(n.flex_shrink != F32_ONE_BITS, ComponentField::FlexShrink);
    lemma_add_field(s11, n, n.flex_shrink != F32_ONE_BITS, ComponentField::FlexShrink);
    let s13 = s12 + field_if(!(n.flex_basis is Auto), ComponentField::FlexBasis);
    lemma_add_field(s12, n, !(n.flex_basis is Auto), ComponentField::FlexBasis);
    lemma_add_field(s13, n, !spec_is_px_zero(n.row_gap), ComponentField::RowGap);
}

proof fn lemma_fields_chain(n: EditorUiNode)
    ensures
        lists_off_default(spec_component_fields(n), n, 17),
{
    lemma_fields_flex(n);
    let s14 = fields_flex(n);
    let s15 = s14 + field_if(!spec_is_px_zero(n.column_gap), ComponentField::ColumnGap);
    lemma_add_field(s14, n, !spec_is_px_zero(n.column_gap), ComponentField::ColumnGap);
    let b16 = !(n.overflow_x is Visible) || !(n.overflow_y is Visible);
    let s16 = s15 + field_if(b16, ComponentField::Overflow);
    lemma_add_field(s15, n, b16, ComponentField::Overflow);
    lemma_add_field(s16, n, !spec_is_zero(n.border_radius), ComponentField::BorderRadius);
}

/// `component_fields` lists a style field exactly when the node's value for
/// it differs from Bevy's default, each such field once and in the order of
/// `Node`'s declaration.
pub proof fn law_fields_are_those_off_default(n: EditorUiNode)
    ensures
        forall|f: ComponentField| spec_component_fields(n).contains(f) <==> !field_at_default(n, f),
        forall|i: int, j: int| 0 <= i < j < spec_component_fields(n).len()
            ==> field_rank(#[trigger] spec_component_fields(n)[i]) < field_rank(#[trigger] spec_component_fields(n)[j]),
{
    lemma_fields_chain(n);
    lemma_lists_all(spec_component_fields(n), n);
}

/// Which of the extra components a spawned node gets: a background colour,
/// a border colour, a z-index, and hiding.
pub struct SpawnExtras {
    pub background: bool,
    pub border_color: bool,
    pub z_index: bool,
    pub hidden: bool,
}

pub fn spawn_extras(n: &EditorUiNode) -> (r: SpawnExtras)
    ensures
        r.background == !spec_is_clear(n.background_color),
        r.border_color == !spec_is_clear(n.border_color),
        r.z_index == (n.z_index != 0),
        r.hidden == !n.visible,
{
    SpawnExtras {
        background: !is_clear(&n.background_color),
        border_color: !is_clear(&n.border_color),
        z_index: n.z_index != 0,
        hidden: !n.visible,
    }
}

// ─── Text ──────────────────────────────────────────────────────────────────

/// Four spaces per level.
pub open spec fn spec_indent(level: nat) -> Seq<char> {
    Seq::new(4 * level, |i: int| ' ')
}

pub fn indent(level: usize) -> (r: String)
    ensures
        r@ == spec_indent(level as nat),
{
    let mut s = String::new();
    let mut i: usize = 0;
    while i < level
        invariant
            i <= level,
            s@ == spec_indent(i as nat),
        decreases level - i,
    {
        push_char(&mut s, ' ');
        push_char(&mut s, ' ');
        push_char(&mut s, ' ');
        push_char(&mut s, ' ');
        proof {
            assert(s@ =~= spec_indent((i + 1) as nat));
        }
        i = i + 1;
    }
    s
}

/// Text with every `"` escaped as `\"`, fit for a Rust string literal.
pub open spec fn spec_escape_quotes(s: Seq<char>) -> Seq<char>
    decreases s.len(),
{
    if s.len() == 0 {
        seq![]
    } else {
        spec_escape_quotes(s.drop_last()) + if s.last() == '"' { seq!['\\', '"'] } else { seq![s.last()] }
    }
}

pub fn escape_quotes(text: &str) -> (r: String)
    ensures
        r@ == spec_escape_quotes(text@),
{
    let v = crate::text::chars_of(text);
    let mut s = String::new();
    let mut i: usize = 0;
    while i < v.len()
        invariant
            i <= v@.len(),
            v@ == text@,
            s@ == spec_escape_quotes(v@.subrange(0, i as int)),
        decreases v@.len() - i,
    {
        let c = v[i];
        if c == '"' {
            push_char(&mut s, '\\');
            push_char(&mut s, '"');
        } else {
            push_char(&mut s, c);
        }
        proof {
            assert(v@.subrange(0, i + 1).drop_last() =~= v@.subrange(0, i as int));
            assert(v@.subrange(0, i + 1).last() == c);
            assert(s@ =~= spec_escape_quotes(v@.subrange(0, i + 1)));
        }
        i = i + 1;
    }
    proof {
        assert(v@.subrange(0, i as int) =~= v@);
    }
    s
}

// ─── Layout of the generated code ──────────────────────────────────────────

/// `prefix + x` for each `x`, one after the other.
pub open spec fn join_prefixed(prefix: Seq<char>, xs: Seq<Seq<char>>) -> Seq<char>
    decreases xs.len(),
{
    if xs.len() == 0 { seq![] } else { join_prefixed(prefix, xs.drop_last()) + prefix + xs.last() }
}

/// `x + suffix` for each `x`, one after the other.
pub open spec fn join_suffixed(xs: Seq<Seq<char>>, suffix: Seq<char>) -> Seq<char>
    decreases xs.len(),
{
    if xs.len() == 0 { seq![] } else { join_suffixed(xs.drop_last(), suffix) + xs.last() + suffix }
}

fn append_prefixed(out: &mut String, prefix: &str, xs: &Vec<String>)
    ensures
        final(out)@ == old(out)@ + join_prefixed(prefix@, strings_view(xs@)),
{
    let ghost start = out@;
    let ghost v = strings_view(xs@);
    let mut i: usize = 0;
    proof {
        assert(v.subrange(0, 0) =~= Seq::<Seq<char>>::empty());
        assert(out@ =~= start + join_prefixed(prefix@, v.subrange(0, 0)));
    }
    while i < xs.len()
        invariant
            i <= xs@.len(),
            v == strings_view(xs@),
            out@ == start + join_prefixed(prefix@, v.subrange(0, i as int)),
        decreases xs@.len() - i,
    {
        append_str(out, prefix);
        append_str(out, xs[i].as_str());
        proof {
            assert(v.subrange(0, i + 1).drop_last() =~= v.subrange(0, i as int));
            assert(out@ =~= start + join_prefixed(prefix@, v.subrange(0, i + 1)));
        }
        i = i + 1;
    }
    proof {
        assert(v.subrange(0, i as int) =~= v);
    }
}

fn append_suffixed(out: &mut String, xs: &Vec<String>, suffix: &str)
    ensures
        final(out)@ == old(out)@ + join_suffixed(strings_view(xs@), suffix@),
{
    let ghost start = out@;
    let ghost v = strings_view(xs@);
    let mut i: usize = 0;
    proof {
        assert(v.subrange(0, 0) =~= Seq::<Seq<char>>::empty());
        assert(out@ =~= start + join_suffixed(v.subrange(0, 0), suffix@));
    }
    while i < xs.len()
        invariant
            i <= xs@.len(),
            v == strings_view(xs@),
            out@ == start + join_suffixed(v.subrange(0, i as int), suffix@),
        decreases xs@.len() - i,
    {
        append_str(out, xs[i].as_str());
        append_str(out, suffix);
        proof {
            assert(v.subrange(0, i + 1).drop_last() =~= v.subrange(0, i as int));
            assert(out@ =~= start + join_suffixed(v.subrange(0, i + 1), suffix@));
        }
        i = i + 1;
    }
    proof {
        assert(v.subrange(0, i as int) =~= v);
    }
}

/// The `Node { .. }` expression from the lines of the fields written out;
/// `Node::default()` when there are none.
pub open spec fn spec_node_component_code(lines: Seq<Seq<char>>) -> Seq<char> {
    if lines.len() == 0 {
        "Node::default()"@
    } else {
        "Node {\n"@ + join_suffixed(lines.map_values(|l: Seq<char>| "            "@ + l), "\n"@)
            + "            ..default()\n        }"@
    }
}

pub fn node_component_code(lines: &Vec<String>) -> (r: String)
    ensures
        r@ == spec_node_component_code(strings_view(lines@)),
{
    if lines.len() == 0 {
        return String::from_str("Node::default()");
    }
    let mut indented: Vec<String> = Vec::new();
    let mut i: usize = 0;
    while i < lines.len()
        invariant
            i <= lines@.len(),
            indented@.len() == i,
            forall|j: int| 0 <= j < i ==> (#[trigger] indented@[j])@ == "            "@ + lines@[j]@,
        decreases lines@.len() - i,
    {
        let mut l = String::from_str("            ");
        append_str(&mut l, lines[i].as_str());
        indented.push(l);
        i = i + 1;
    }
    let mut s = String::from_str("Node {\n");
    append_suffixed(&mut s, &indented, "\n");
    append_str(&mut s, "            ..default()\n        }");
    proof {
        assert(strings_view(indented@) =~= strings_view(lines@).map_values(|l: Seq<char>| "            "@ + l));
    }
    s
}

/// An `i32` in decimal, with a minus sign when negative.
pub open spec fn spec_int_text(z: i32) -> Seq<char> {
    if z < 0 { "-"@ + decimal((0 - z) as nat) } else { decimal(z as nat) }
}

pub fn int_text(z: i32) -> (r: String)
    ensures
        r@ == spec_int_text(z),
{
    if z < 0 {
        let mut s = String::from_str("-");
        let m: i64 = 0 - (z as i64);
        let d = u64_to_string(m as u64);
        append_str(&mut s, d.as_str());
        s
    } else {
        u64_to_string(z as u64)
    }
}

/// The texts of a node's code that print `f32` values: its `Node { .. }`
/// expression and its colours and font size.
pub struct NodeCodeParts {
    pub component: String,
    pub background: String,
    pub border: String,
    pub text_color: String,
    pub font_size: String,
}

pub struct PartsView {
    pub component: Seq<char>,
    pub background: Seq<char>,
    pub border: Seq<char>,
    pub text_color: Seq<char>,
    pub font_size: Seq<char>,
}

impl View for NodeCodeParts {
    type V = PartsView;

    open spec fn view(&self) -> PartsView {
        PartsView {
            component: self.component@,
            background: self.background@,
            border: self.border@,
            text_color: self.text_color@,
            font_size: self.font_size@,
        }
    }
}

/// The extra components of a container, image or button, in order.
pub open spec fn spec_extra_components(n: EditorUiNodeView, p: PartsView) -> Seq<Seq<char>> {
    (if !spec_is_clear(n.style.background_color) { seq!["BackgroundColor("@ + p.background + ")"@] } else { seq![] })
        + (if !spec_is_clear(n.style.border_color) { seq!["BorderColor::all("@ + p.border + ")"@] } else { seq![] })
        + (if n.style.z_index != 0 { seq!["ZIndex("@ + spec_int_text(n.style.z_index) + ")"@] } else { seq![] })
        + (if !n.style.visible { seq!["Visibility::Hidden"@] } else { seq![] })
}

/// The code that spawns node `n` at indentation `level` from `spawner`,
/// `children` being the code of its children (two levels deeper). A
/// container or an image is a `Node` with its extra components and its
/// children; a text is a `Text` with its font, colour, z-index and hiding
/// (children of a text are not written); a button is a `Button` node with its
/// extra components, its label as a first text child, then its children.
pub open spec fn spec_node_code(n: EditorUiNodeView, level: nat, spawner: Seq<char>, p: PartsView, children: Seq<Seq<char>>) -> Seq<char> {
    let ind = spec_indent(level);
    match n.node_type {
        EditorNodeType::Text => {
            ind + spawner + ".spawn((\n"@
                + ind + "    Text::new(\""@ + spec_escape_quotes(n.text_content) + "\"),\n"@
                + ind + "    TextFont { font_size: "@ + p.font_size + ", ..default() },\n"@
                + ind + "    TextColor("@ + p.text_color + "),\n"@
                + (if n.style.z_index != 0 { ind + "    ZIndex("@ + spec_int_text(n.style.z_index) + "),\n"@ } else { seq![] })
                + (if !n.style.visible { ind + "    Visibility::Hidden,\n"@ } else { seq![] })
                + ind + "));\n"@
        },
        EditorNodeType::Button => spec_button_head(n, level, spawner, p) + join_suffixed(children, ";\n"@) + spec_close(level),
        _ => if children.len() > 0 {
            spec_container_head(n, level, spawner, p) + join_suffixed(children, ";\n"@) + spec_close(level)
        } else {
            spec_container_spawn(n, level, spawner, p) + ";\n"@
        },
    }
}

/// A button up to its children: the button with its components, then the
/// opening of its children with the label first.
pub open spec fn spec_button_head(n: EditorUiNodeView, level: nat, spawner: Seq<char>, p: PartsView) -> Seq<char> {
    let ind = spec_indent(level);
    let comps = "Button,\n"@ + ind + "    "@ + p.component + join_prefixed(",\n"@ + ind + "    "@, spec_extra_components(n, p));
    ind + spawner + ".spawn((\n"@ + ind + "    "@ + comps + "\n"@ + ind + "))"@
        + "\n"@ + ind + "    .with_children(|btn| {\n"@
        + ind + "        btn.spawn((\n"@
        + ind + "            Text::new(\""@ + spec_escape_quotes(n.text_content) + "\"),\n"@
        + ind + "            TextFont { font_size: "@ + p.font_size + ", ..default() },\n"@
        + ind + "            TextColor("@ + p.text_color + "),\n"@
        + ind + "        ));\n"@
}

/// The spawn of a container or an image with its components.
pub open spec fn spec_container_spawn(n: EditorUiNodeView, level: nat, spawner: Seq<char>, p: PartsView) -> Seq<char> {
    let ind = spec_indent(level);
    let extras = spec_extra_components(n, p);
    let comps = p.component + join_prefixed(", "@, extras);
    if extras.len() > 0 {
        ind + spawner + ".spawn((\n"@ + ind + "    "@ + comps + "\n"@ + ind + "))"@
    } else {
        ind + spawner + ".spawn("@ + comps + ")"@
    }
}

/// A container or an image up to its children.
pub open spec fn spec_container_head(n: EditorUiNodeView, level: nat, spawner: Seq<char>, p: PartsView) -> Seq<char> {
    spec_container_spawn(n, level, spawner, p) + "\n"@ + spec_indent(level) + "    .with_children(|parent| {\n"@
}

/// The end of a node's children.
pub open spec fn spec_close(level: nat) -> Seq<char> {
    spec_indent(level) + "    })"@ + ";\n"@
}

fn extra_components(n: &EditorUiNode, p: &NodeCodeParts) -> (r: Vec<String>)
    ensures
        strings_view(r@) == spec_extra_components(n@, p@),
{
    let x = spawn_extras(n);
    let mut out: Vec<String> = Vec::new();
    if x.background {
        let mut e = String::from_str("BackgroundColor(");
        append_str(&mut e, p.background.as_str());
        append_str(&mut e, ")");
        out.push(e);
    }
    let ghost a = strings_view(out@);
    if x.border_color {
        let mut e = String::from_str("BorderColor::all(");
        append_str(&mut e, p.border.as_str());
        append_str(&mut e, ")");
        out.push(e);
    }
    let ghost b = strings_view(out@);
    if x.z_index {
        let mut e = String::from_str("ZIndex(");
        let t = int_text(n.z_index);
        append_str(&mut e, t.as_str());
        append_str(&mut e, ")");
        out.push(e);
    }
    let ghost c = strings_view(out@);
    if x.hidden {
        out.push(String::from_str("Visibility::Hidden"));
    }
    proof {
        assert(strings_view(out@) =~= spec_extra_components(n@, p@));
    }
    out
}

fn text_code(n: &EditorUiNode, i: &str, spawner: &str, p: &NodeCodeParts) -> (r: String)
    requires
        n.node_type == EditorNodeType::Text,
        i@ == spec_indent_any(i@),
    ensures
        r@ == spec_node_code(n@, spec_level_of(i@), spawner@, p@, seq![]),
{
    let x = spawn_extras(n);
    let text = escape_quotes(n.text_content.as_str());
    let mut s = String::new();
    append_str(&mut s, i);
    append_str(&mut s, spawner);
    append_str(&mut s, ".spawn((\n");
    append_str(&mut s, i);
    append_str(&mut s, "    Text::new(\"");
    append_str(&mut s, text.as_str());
    append_str(&mut s, "\"),\n");
    append_str(&mut s, i);
    append_str(&mut s, "    TextFont { font_size: ");
    append_str(&mut s, p.font_size.as_str());
    append_str(&mut s, ", ..default() },\n");
    append_str(&mut s, i);
    append_str(&mut s, "    TextColor(");
    append_str(&mut s, p.text_color.as_str());
    append_str(&mut s, "),\n");
    let ghost mid = s@;
    if x.z_index {
        append_str(&mut s, i);
        append_str(&mut s, "    ZIndex(");
        let t = int_text(n.z_index);
        append_str(&mut s, t.as_str());
        append_str(&mut s, "),\n");
    }
    let ghost mid2 = s@;
    if x.hidden {
        append_str(&mut s, i);
        append_str(&mut s, "    Visibility::Hidden,\n");
    }
    append_str(&mut s, i);
    append_str(&mut s, "));\n");
    proof {
        assert(s@ =~= spec_node_code(n@, spec_level_of(i@), spawner@, p@, seq![]));
    }
    s
}

/// An indentation: the spaces of some level.
pub open spec fn spec_indent_any(i: Seq<char>) -> Seq<char> {
    spec_indent(spec_level_of(i))
}

pub open spec fn spec_level_of(i: Seq<char>) -> nat {
    i.len() / 4
}

proof fn lemma_indent_level(level: nat)
    ensures
        spec_level_of(spec_indent(level)) == level,
        spec_indent_any(spec_indent(level)) == spec_indent(level),
{
    assert(spec_indent(level).len() == 4 * level);
    assert((4 * level) / 4 == level) by (nonlinear_arith);
}

fn button_code(n: &EditorUiNode, i: &str, spawner: &str, p: &NodeCodeParts, children: &Vec<String>) -> (r: String)
    requires
        n.node_type == EditorNodeType::Button,
        i@ == spec_indent_any(i@),
    ensures
        r@ == spec_node_code(n@, spec_level_of(i@), spawner@, p@, strings_view(children@)),
{
    let extras = extra_components(n, p);
    let text = escape_quotes(n.text_content.as_str());
    let mut sep = String::from_str(",\n");
    append_str(&mut sep, i);
    append_str(&mut sep, "    ");
    let mut s = String::new();
    append_str(&mut s, i);
    append_str(&mut s, spawner);
    append_str(&mut s, ".spawn((\n");
    append_str(&mut s, i);
    append_str(&mut s, "    ");
    append_str(&mut s, "Button,\n");
    append_str(&mut s, i);
    append_str(&mut s, "    ");
    append_str(&mut s, p.component.as_str());
    append_prefixed(&mut s, sep.as_str(), &extras);
    append_str(&mut s, "\n");
    append_str(&mut s, i);
    append_str(&mut s, "))");
    append_str(&mut s, "\n");
    append_str(&mut s, i);
    append_str(&mut s, "    .with_children(|btn| {\n");
    append_str(&mut s, i);
    append_str(&mut s, "        btn.spawn((\n");
    append_str(&mut s, i);
    append_str(&mut s, "            Text::new(\"");
    append_str(&mut s, text.as_str());
    append_str(&mut s, "\"),\n");
    append_str(&mut s, i);
    append_str(&mut s, "            TextFont { font_size: ");
    append_str(&mut s, p.font_size.as_str());
    append_str(&mut s, ", ..default() },\n");
    append_str(&mut s, i);
    append_str(&mut s, "            TextColor(");
    append_str(&mut s, p.text_color.as_str());
    append_str(&mut s, "),\n");
    append_str(&mut s, i);
    append_str(&mut s, "        ));\n");
    append_suffixed(&mut s, children, ";\n");
    append_str(&mut s, i);
    append_str(&mut s, "    })");
    append_str(&mut s, ";\n");
    proof {
        assert(s@ =~= spec_node_code(n@, spec_level_of(i@), spawner@, p@, strings_view(children@)));
    }
    s
}

fn container_code(n: &EditorUiNode, i: &str, spawner: &str, p: &NodeCodeParts, children: &Vec<String>) -> (r: String)
    requires
        n.node_type == EditorNodeType::Container || n.node_type == EditorNodeType::Image,
        i@ == spec_indent_any(i@),
    ensures
        r@ == spec_node_code(n@, spec_level_of(i@), spawner@, p@, strings_view(children@)),
{
    let extras = extra_components(n, p);
    let mut s = String::new();
    append_str(&mut s, i);
    append_str(&mut s, spawner);
    if extras.len() > 0 {
        append_str(&mut s, ".spawn((\n");
        append_str(&mut s, i);
        append_str(&mut s, "    ");
        append_str(&mut s, p.component.as_str());
        append_prefixed(&mut s, ", ", &extras);
        append_str(&mut s, "\n");
        append_str(&mut s, i);
        append_str(&mut s, "))");
    } else {
        append_str(&mut s, ".spawn(");
        append_str(&mut s, p.component.as_str());
        append_prefixed(&mut s, ", ", &extras);
        append_str(&mut s, ")");
    }
    let ghost head = s@;
    if children.len() > 0 {
        append_str(&mut s, "\n");
        append_str(&mut s, i);
        append_str(&mut s, "    .with_children(|parent| {\n");
        append_suffixed(&mut s, children, ";\n");
        append_str(&mut s, i);
        append_str(&mut s, "    })");
    }
    append_str(&mut s, ";\n");
    proof {
        assert(s@ =~= spec_node_code(n@, spec_level_of(i@), spawner@, p@, strings_view(children@)));
    }
    s
}

/// The code of one node, its children's code given.
pub fn node_code(n: &EditorUiNode, level: usize, spawner: &str, p: &NodeCodeParts, children: &Vec<String>) -> (r: String)
    ensures
        r@ == spec_node_code(n@, level as nat, spawner@, p@, strings_view(children@)),
{
    let ind = indent(level);
    proof {
        lemma_indent_level(level as nat);
    }
    match n.node_type {
        EditorNodeType::Text => text_code(n, ind.as_str(), spawner, p),
        EditorNodeType::Button => button_code(n, ind.as_str(), spawner, p, children),
        _ => container_code(n, ind.as_str(), spawner, p, children),
    }
}

// ─── The whole generated file ──────────────────────────────────────────────

/// The printed texts for a node and, in the same shape, for its subtree.
pub struct NodeCodeTree {
    pub parts: NodeCodeParts,
    pub children: Vec<NodeCodeTree>,
}

pub struct CodeTreeView {
    pub parts: PartsView,
    pub children: Seq<CodeTreeView>,
}

pub open spec fn code_tree_view(t: NodeCodeTree) -> CodeTreeView
    decreases t,
{
    CodeTreeView { parts: t.parts@, children: code_forest_view(t.children@) }
}

pub open spec fn code_forest_view(s: Seq<NodeCodeTree>) -> Seq<CodeTreeView>
    decreases s,
{
    if s.len() == 0 {
        seq![]
    } else {
        seq![code_tree_view(s[0])] + code_forest_view(s.drop_first())
    }
}

impl View for NodeCodeTree {
    type V = CodeTreeView;

    open spec fn view(&self) -> CodeTreeView {
        code_tree_view(*self)
    }
}

pub proof fn lemma_code_forest_view(s: Seq<NodeCodeTree>)
    ensures
        code_forest_view(s).len() == s.len(),
        forall|i: int| 0 <= i < s.len() ==> #[trigger] code_forest_view(s)[i] == code_tree_view(s[i]),
    decreases s.len(),
{
    if s.len() > 0 {
        lemma_code_forest_view(s.drop_first());
        assert forall|i: int| 0 <= i < s.len() implies #[trigger] code_forest_view(s)[i] == code_tree_view(s[i]) by {
            if i > 0 {
                assert(s.drop_first()[i - 1] == s[i]);
            }
        }
    }
}

/// The texts have the shape of the tree: as many children, all the way
/// down.
pub open spec fn shapes_match(n: EditorUiNodeView, t: CodeTreeView) -> bool
    decreases n, 1int, 0int,
{
    n.children.len() == t.children.len() && shapes_match_from(n.children, t.children, 0)
}

pub open spec fn shapes_match_from(ns: Seq<EditorUiNodeView>, ts: Seq<CodeTreeView>, i: int) -> bool
    decreases ns, 0int, ns.len() - i,
{
    if i < 0 || i >= ns.len() {
        true
    } else {
        shapes_match(ns[i], ts[i]) && shapes_match_from(ns, ts, i + 1)
    }
}

pub open spec fn forest_shapes_match(ns: Seq<EditorUiNodeView>, ts: Seq<CodeTreeView>) -> bool {
    ns.len() == ts.len() && shapes_match_from(ns, ts, 0)
}

proof fn lemma_shapes_match_at(ns: Seq<EditorUiNodeView>, ts: Seq<CodeTreeView>, i: int, j: int)
    requires
        0 <= i <= j < ns.len(),
        shapes_match_from(ns, ts, i),
    ensures
        shapes_match(ns[j], ts[j]),
    decreases j - i,
{
    if i < j {
        lemma_shapes_match_at(ns, ts, i + 1, j);
    }
}

/// How many levels a tree has.
pub open spec fn ui_height(n: EditorUiNodeView) -> nat
    decreases n, 1int, 0int,
{
    1 + ui_height_from(n.children, 0)
}

pub open spec fn ui_height_from(ns: Seq<EditorUiNodeView>, i: int) -> nat
    decreases ns, 0int, ns.len() - i,
{
    if i < 0 || i >= ns.len() {
        0
    } else {
        let a = ui_height(ns[i]);
        let b = ui_height_from(ns, i + 1);
        if a >= b { a } else { b }
    }
}

proof fn lemma_height_from(ns: Seq<EditorUiNodeView>, i: int, limit: nat)
    requires
        0 <= i,
    ensures
        ui_height_from(ns, i) <= limit <==> forall|j: int| i <= j < ns.len() ==> #[trigger] ui_height(ns[j]) <= limit,
    decreases ns.len() - i,
{
    if i < ns.len() {
        lemma_height_from(ns, i + 1, limit);
        if ui_height_from(ns, i) <= limit {
            assert forall|j: int| i <= j < ns.len() implies #[trigger] ui_height(ns[j]) <= limit by {
                if j > i {
                    assert(ui_height(ns[j]) <= limit);
                }
            }
        } else {
            if ui_height(ns[i]) > limit {
            } else {
                let j = choose|j: int| i + 1 <= j < ns.len() && !(#[trigger] ui_height(ns[j]) <= limit);
                assert(!(ui_height(ns[j]) <= limit));
            }
        }
    }
}

/// Every root of the document has at most `usize::MAX / 2` levels, so the
/// indentation of the deepest node can be counted.
pub open spec fn code_depth_ok(roots: Seq<EditorUiNodeView>) -> bool {
    forall|i: int| 0 <= i < roots.len() ==> #[trigger] ui_height(roots[i]) <= usize::MAX / 2
}

/// Where a node's children are spawned from: the button's `btn`, else
/// `parent`.
pub open spec fn kid_spawner(t: EditorNodeType) -> Seq<char> {
    if t == EditorNodeType::Button { "btn"@ } else { "parent"@ }
}

/// The code of a node with its whole subtree: its children's code is that
/// of their own subtrees, two levels deeper.
pub open spec fn spec_tree_code(n: EditorUiNodeView, t: CodeTreeView, level: nat, spawner: Seq<char>) -> Seq<char>
    decreases n, 1int, 0int,
{
    spec_node_code(n, level, spawner, t.parts, spec_forest_code_from(n.children, t.children, level + 2, kid_spawner(n.node_type), 0))
}

pub open spec fn spec_forest_code_from(ns: Seq<EditorUiNodeView>, ts: Seq<CodeTreeView>, level: nat, spawner: Seq<char>, i: int) -> Seq<Seq<char>>
    decreases ns, 0int, ns.len() - i,
{
    if i < 0 || i >= ns.len() {
        seq![]
    } else {
        seq![spec_tree_code(ns[i], ts[i], level, spawner)] + spec_forest_code_from(ns, ts, level, spawner, i + 1)
    }
}

proof fn lemma_forest_code_from(ns: Seq<EditorUiNodeView>, ts: Seq<CodeTreeView>, level: nat, spawner: Seq<char>, i: int)
    requires
        0 <= i <= ns.len(),
    ensures
        spec_forest_code_from(ns, ts, level, spawner, i).len() == ns.len() - i,
        forall|k: int| 0 <= k < ns.len() - i ==> #[trigger] spec_forest_code_from(ns, ts, level, spawner, i)[k]
            == spec_tree_code(ns[i + k], ts[i + k], level, spawner),
    decreases ns.len() - i,
{
    if i < ns.len() {
        lemma_forest_code_from(ns, ts, level, spawner, i + 1);
        let r = spec_forest_code_from(ns, ts, level, spawner, i + 1);
        assert forall|k: int| 0 <= k < ns.len() - i implies #[trigger] spec_forest_code_from(ns, ts, level, spawner, i)[k]
            == spec_tree_code(ns[i + k], ts[i + k], level, spawner) by {
            if k > 0 {
                assert(spec_forest_code_from(ns, ts, level, spawner, i)[k] == r[k - 1]);
            }
        }
    }
}

/// The generated file: the prelude import, then `spawn_ui`, which spawns
/// every root from `commands` at the first level.
pub open spec fn spec_ui_source(roots: Seq<EditorUiNodeView>, trees: Seq<CodeTreeView>) -> Seq<char> {
    "use bevy::prelude::*;\n\npub fn spawn_ui(mut commands: Commands) {\n"@
        + join_suffixed(spec_forest_code_from(roots, trees, 1, "commands"@, 0), seq![])
        + "}\n"@
}

fn forest_code(ns: &Vec<EditorUiNode>, ts: &Vec<NodeCodeTree>, level: usize, spawner: &str) -> (r: Vec<String>)
    requires
        forest_shapes_match(ui_forest_view(ns@), code_forest_view(ts@)),
        forall|j: int| 0 <= j < ns@.len() ==> level + 2 * ui_height(#[trigger] ns@[j]@) <= usize::MAX + 2,
    ensures
        strings_view(r@) == spec_forest_code_from(ui_forest_view(ns@), code_forest_view(ts@), level as nat, spawner@, 0),
    decreases ns,
{
    let ghost nv = ui_forest_view(ns@);
    let ghost tv = code_forest_view(ts@);
    proof {
        crate::ui_model::lemma_ui_forest_view(ns@);
        lemma_code_forest_view(ts@);
        lemma_forest_code_from(nv, tv, level as nat, spawner@, 0);
    }
    let mut out: Vec<String> = Vec::new();
    let mut i: usize = 0;
    while i < ns.len()
        invariant
            i <= ns@.len(),
            ns@.len() == ts@.len(),
            nv == ui_forest_view(ns@),
            tv == code_forest_view(ts@),
            nv.len() == ns@.len(),
            tv.len() == ts@.len(),
            forall|j: int| 0 <= j < ns@.len() ==> #[trigger] nv[j] == ns@[j]@,
            forall|j: int| 0 <= j < ts@.len() ==> #[trigger] tv[j] == ts@[j]@,
            shapes_match_from(nv, tv, 0),
            forall|j: int| 0 <= j < ns@.len() ==> level + 2 * ui_height(#[trigger] ns@[j]@) <= usize::MAX + 2,
            spec_forest_code_from(nv, tv, level as nat, spawner@, 0).len() == nv.len(),
            forall|k: int| 0 <= k < nv.len() ==> #[trigger] spec_forest_code_from(nv, tv, level as nat, spawner@, 0)[k]
                == spec_tree_code(nv[k], tv[k], level as nat, spawner@),
            strings_view(out@) == spec_forest_code_from(nv, tv, level as nat, spawner@, 0).subrange(0, i as int),
        decreases ns@.len() - i,
    {
        proof {
            lemma_shapes_match_at(nv, tv, 0, i as int);
            assert(nv[i as int] == ns@[i as int]@);
            assert(tv[i as int] == ts@[i as int]@);
        }
        let c = tree_code(&ns[i], &ts[i], level, spawner);
        let ghost before = out@;
        out.push(c);
        proof {
            assert(strings_view(out@) =~= strings_view(before).push(c@));
            assert(spec_forest_code_from(nv, tv, level as nat, spawner@, 0).subrange(0, i + 1)
                =~= spec_forest_code_from(nv, tv, level as nat, spawner@, 0).subrange(0, i as int).push(c@));
        }
        i = i + 1;
    }
    proof {
        assert(spec_forest_code_from(nv, tv, level as nat, spawner@, 0).subrange(0, i as int)
            =~= spec_forest_code_from(nv, tv, level as nat, spawner@, 0));
    }
    out
}

fn tree_code(n: &EditorUiNode, t: &NodeCodeTree, level: usize, spawner: &str) -> (r: String)
    requires
        shapes_match(n@, t@),
        level + 2 * ui_height(n@) <= usize::MAX + 2,
    ensures
        r@ == spec_tree_code(n@, t@, level as nat, spawner@),
    decreases n,
{
    let ghost nv = n@;
    let ghost tv = t@;
    proof {
        crate::ui_model::lemma_ui_forest_view(n.children@);
        lemma_code_forest_view(t.children@);
        lemma_height_from(nv.children, 0, (ui_height(nv) - 1) as nat);
    }
    let kids: Vec<String> = if n.children.len() > 0 {
        proof {
            assert(ui_height_from(nv.children, 0) >= ui_height(nv.children[0]));
        }
        let kl = level + 2;
        let ks = if n.node_type == EditorNodeType::Button { "btn" } else { "parent" };
        proof {
            reveal_strlit("btn");
            reveal_strlit("parent");
            assert(ks@ == kid_spawner(nv.node_type));
            assert forall|j: int| 0 <= j < n.children@.len() implies kl + 2 * ui_height(#[trigger] n.children@[j]@) <= usize::MAX + 2 by {
                assert(nv.children[j] == n.children@[j]@);
            }
        }
        forest_code(&n.children, &t.children, kl, ks)
    } else {
        proof {
            assert(spec_forest_code_from(nv.children, tv.children, (level + 2) as nat, kid_spawner(nv.node_type), 0) =~= seq![]);
        }
        Vec::new()
    };
    node_code(n, level, spawner, &t.parts, &kids)
}

/// Whether every root of `nodes` has at most `limit` levels.
fn forest_fits(ns: &Vec<EditorUiNode>, limit: usize) -> (r: bool)
    ensures
        r == (forall|j: int| 0 <= j < ns@.len() ==> #[trigger] ui_height(ns@[j]@) <= limit),
    decreases ns,
{
    let mut i: usize = 0;
    while i < ns.len()
        invariant
            i <= ns@.len(),
            forall|j: int| 0 <= j < i ==> #[trigger] ui_height(ns@[j]@) <= limit,
        decreases ns@.len() - i,
    {
        if !node_fits(&ns[i], limit) {
            return false;
        }
        i = i + 1;
    }
    true
}

fn node_fits(n: &EditorUiNode, limit: usize) -> (r: bool)
    ensures
        r == (ui_height(n@) <= limit),
    decreases n,
{
    if limit == 0 {
        return false;
    }
    let r = forest_fits(&n.children, limit - 1);
    proof {
        crate::ui_model::lemma_ui_forest_view(n.children@);
        lemma_height_from(n@.children, 0, (limit - 1) as nat);
        assert forall|j: int| 0 <= j < n.children@.len() implies n@.children[j] == #[trigger] n.children@[j]@ by {}
        if r {
            assert forall|j: int| 0 <= j < n@.children.len() implies #[trigger] ui_height(n@.children[j]) <= (limit - 1) as nat by {
                assert(n@.children[j] == n.children@[j]@);
            }
        } else {
            let j = choose|j: int| 0 <= j < n.children@.len() && !(#[trigger] ui_height(n.children@[j]@) <= limit - 1);
            assert(n@.children[j] == n.children@[j]@);
        }
    }
    r
}

/// Whether the document is shallow enough for `ui_source`.
pub fn ui_source_fits(doc: &EditorDocument) -> (r: bool)
    ensures
        r == code_depth_ok(doc@),
{
    let r = forest_fits(&doc.roots, usize::MAX / 2);
    proof {
        crate::ui_model::lemma_ui_forest_view(doc.roots@);
        if r {
            assert forall|i: int| 0 <= i < doc@.len() implies #[trigger] ui_height(doc@[i]) <= usize::MAX / 2 by {
                assert(doc@[i] == doc.roots@[i]@);
            }
        } else {
            let j = choose|j: int| 0 <= j < doc.roots@.len() && !(ui_height(doc.roots@[j]@) <= usize::MAX / 2);
            assert(doc@[j] == doc.roots@[j]@);
        }
    }
    r
}

/// The Rust source of the designed layout, the printed texts given in the
/// shape of the document.
pub fn ui_source(doc: &EditorDocument, texts: &Vec<NodeCodeTree>) -> (r: String)
    requires
        forest_shapes_match(doc@, code_forest_view(texts@)),
        code_depth_ok(doc@),
    ensures
        r@ == spec_ui_source(doc@, code_forest_view(texts@)),
{
    proof {
        crate::ui_model::lemma_ui_forest_view(doc.roots@);
        assert forall|j: int| 0 <= j < doc.roots@.len() implies 1 + 2 * ui_height(#[trigger] doc.roots@[j]@) <= usize::MAX + 2 by {
            assert(doc@[j] == doc.roots@[j]@);
        }
    }
    let kids = forest_code(&doc.roots, texts, 1, "commands");
    let mut s = String::from_str("use bevy::prelude::*;\n\npub fn spawn_ui(mut commands: Commands) {\n");
    append_suffixed(&mut s, &kids, "");
    append_str(&mut s, "}\n");
    proof {
        reveal_strlit("");
        assert(""@ =~= Seq::<char>::empty());
        assert(s@ =~= spec_ui_source(doc@, code_forest_view(texts@)));
    }
    s
}

// ─── What the generated file holds ─────────────────────────────────────────

/// A text holds whatever stands in its middle.
pub proof fn lemma_contains_middle(a: Seq<char>, x: Seq<char>, b: Seq<char>)
    ensures
        contains_seq(a + x + b, x),
{
    assert((a + x + b).subrange(a.len() as int, (a.len() + x.len()) as int) =~= x);
    assert(occurs_at(a + x + b, x, a.len() as int));
}

/// Text inside a text inside a text: what holds `p` holds what `p` holds.
pub proof fn lemma_contains_trans(s: Seq<char>, p: Seq<char>, q: Seq<char>)
    requires
        contains_seq(s, p),
        contains_seq(p, q),
    ensures
        contains_seq(s, q),
{
    let i = choose|i: int| occurs_at(s, p, i);
    let j = choose|j: int| occurs_at(p, q, j);
    assert(s.subrange(i + j, i + j + q.len()) =~= p.subrange(j, j + q.len()));
    assert(occurs_at(s, q, i + j));
}

/// Texts joined, each followed by `suffix`, hold each of them.
pub proof fn lemma_join_contains(xs: Seq<Seq<char>>, suffix: Seq<char>, k: int)
    requires
        0 <= k < xs.len(),
    ensures
        contains_seq(join_suffixed(xs, suffix), xs[k]),
    decreases xs.len(),
{
    let pre = join_suffixed(xs.drop_last(), suffix);
    assert(join_suffixed(xs, suffix) == pre + xs.last() + suffix);
    if k == xs.len() - 1 {
        lemma_contains_middle(pre, xs.last(), suffix);
    } else {
        lemma_join_contains(xs.drop_last(), suffix, k);
        assert(xs.drop_last()[k] == xs[k]);
        lemma_contains_middle(seq![], pre, xs.last() + suffix);
        assert(Seq::<char>::empty() + pre + (xs.last() + suffix) =~= pre + xs.last() + suffix);
        lemma_contains_trans(join_suffixed(xs, suffix), pre, xs[k]);
    }
}

/// The generated file spawns every root: the code of each root, with its
/// whole subtree, is in it.
pub proof fn law_source_spawns_roots(roots: Seq<EditorUiNodeView>, trees: Seq<CodeTreeView>, k: int)
    requires
        0 <= k < roots.len(),
    ensures
        contains_seq(spec_ui_source(roots, trees), spec_tree_code(roots[k], trees[k], 1, "commands"@)),
{
    let codes = spec_forest_code_from(roots, trees, 1, "commands"@, 0);
    lemma_forest_code_from(roots, trees, 1, "commands"@, 0);
    lemma_join_contains(codes, seq![], k);
    let head = "use bevy::prelude::*;\n\npub fn spawn_ui(mut commands: Commands) {\n"@;
    lemma_contains_middle(head, join_suffixed(codes, seq![]), "}\n"@);
    lemma_contains_trans(spec_ui_source(roots, trees), join_suffixed(codes, seq![]), codes[k]);
}

/// The code of a container, an image or a button holds the code of each of
/// its children with their subtrees (a button's after its label); so, by
/// `lemma_contains_trans`, the file holds every node below a root that is
/// not under a text node.
pub proof fn law_node_spawns_children(n: EditorUiNodeView, t: CodeTreeView, level: nat, spawner: Seq<char>, k: int)
    requires
        n.node_type != EditorNodeType::Text,
        0 <= k < n.children.len(),
    ensures
        contains_seq(
            spec_tree_code(n, t, level, spawner),
            spec_tree_code(n.children[k], t.children[k], level + 2, kid_spawner(n.node_type)),
        ),
{
    let ks = kid_spawner(n.node_type);
    let codes = spec_forest_code_from(n.children, t.children, level + 2, ks, 0);
    lemma_forest_code_from(n.children, t.children, level + 2, ks, 0);
    let j = join_suffixed(codes, ";\n"@);
    lemma_join_contains(codes, ";\n"@, k);
    let whole = spec_tree_code(n, t, level, spawner);
    if n.node_type == EditorNodeType::Button {
        lemma_contains_middle(spec_button_head(n, level, spawner, t.parts), j, spec_close(level));
    } else {
        lemma_contains_middle(spec_container_head(n, level, spawner, t.parts), j, spec_close(level));
    }
    lemma_contains_trans(whole, j, codes[k]);
}

} // verus!
