//! The computed style of an element, and the small value types it holds.
use crate::number::CssNumber;
use vstd::prelude::*;

verus! {

/// The `display` of a box (the layout modes of the layout engine).
#[derive(Clone, Copy, Debug, PartialEq, Eq, Structural)]
pub enum CssDisplay {
    Block,
    FlowRoot,
    Flex,
    Grid,
    /// `display: none`.
    Hidden,
}

/// `flex-direction`.
#[derive(Clone, Copy, Debug, PartialEq, Eq, Structural)]
pub enum CssFlexDirection {
    Row,
    Column,
    RowReverse,
    ColumnReverse,
}

/// `flex-wrap`.
#[derive(Clone, Copy, Debug, PartialEq, Eq, Structural)]
pub enum CssFlexWrap {
    NoWrap,
    Wrap,
    WrapReverse,
    Balance,
    BalanceReverse,
}

/// The position keyword of `align-items`.
#[derive(Clone, Copy, Debug, PartialEq, Eq, Structural)]
pub enum CssAlignItemsKeyword {
    Normal,
    Start,
    End,
    FlexStart,
    FlexEnd,
    SelfStart,
    SelfEnd,
    Center,
    Baseline,
    Stretch,
}

/// The position keyword of `justify-content`.
#[derive(Clone, Copy, Debug, PartialEq, Eq, Structural)]
pub enum CssAlignContentKeyword {
    Normal,
    Start,
    End,
    FlexStart,
    FlexEnd,
    Center,
    Stretch,
    SpaceBetween,
    SpaceEvenly,
    SpaceAround,
}

/// The overflow-position modifier of an alignment (`safe`, `unsafe`).
#[derive(Clone, Copy, Debug, PartialEq, Eq, Structural)]
pub enum CssAlignmentSafety {
    Default,
    Unsafe,
    Safe,
}

/// A parsed `align-items` value.
#[derive(Clone, Copy, Debug, PartialEq, Eq, Structural)]
pub struct CssAlignItems {
    pub keyword: CssAlignItemsKeyword,
    pub safety: CssAlignmentSafety,
}

/// A parsed `justify-content` value.
#[derive(Clone, Copy, Debug, PartialEq, Eq, Structural)]
pub struct CssAlignContent {
    pub keyword: CssAlignContentKeyword,
    pub safety: CssAlignmentSafety,
}

/// A length that is either absolute or a fraction of the available space.
#[derive(Clone, Copy, Debug, PartialEq, Eq, Structural)]
pub enum CssLength {
    /// Pixels.
    Px(CssNumber),
    /// A fraction of the available space (`50%` is 0.5).
    Percent(CssNumber),
}

/// One breadth of a `minmax()` grid track.
#[derive(Clone, Copy, Debug, PartialEq, Eq, Structural)]
pub enum CssGridTrackBreadth {
    Length(CssNumber),
    Percent(CssNumber),
    Fraction(CssNumber),
    Auto,
    MinContent,
    MaxContent,
}

/// A track of `grid-template-columns`.
#[derive(Clone, Copy, Debug, PartialEq, Eq, Structural)]
pub enum CssGridTrack {
    Length(CssNumber),
    Percent(CssNumber),
    Fraction(CssNumber),
    Auto,
    MinContent,
    MaxContent,
    MinMax { min: CssGridTrackBreadth, max: CssGridTrackBreadth },
}

/// `box-sizing`.
#[derive(Clone, Copy, Debug, PartialEq, Eq, Structural)]
pub enum CssBoxSizing {
    ContentBox,
    BorderBox,
}

/// `overflow`: whether the box clips its content.
#[derive(Clone, Copy, Debug, PartialEq, Eq, Structural)]
pub enum CssOverflow {
    Visible,
    Clip,
}

/// `position`.
#[derive(Clone, Copy, Debug, PartialEq, Eq, Structural)]
pub enum CssPosition {
    Static,
    Relative,
    Absolute,
    Fixed,
}

/// `float`.
#[derive(Clone, Copy, Debug, PartialEq, Eq, Structural)]
pub enum CssFloat {
    /// `float: none`.
    NoFloat,
    Left,
    Right,
}

/// `text-align`.
#[derive(Clone, Copy, Debug, PartialEq, Eq, Structural)]
pub enum CssTextAlign {
    Start,
    Center,
    End,
}

/// `text-transform`.
#[derive(Clone, Copy, Debug, PartialEq, Eq, Structural)]
pub enum CssTextTransform {
    /// `text-transform: none`.
    NoTransform,
    Uppercase,
    Lowercase,
    Capitalize,
}

/// `white-space`: whether soft wraps are allowed.
#[derive(Clone, Copy, Debug, PartialEq, Eq, Structural)]
pub enum CssWhiteSpace {
    Normal,
    NoWrap,
}

/// An outer `box-shadow`.
#[derive(Debug)]
pub struct CssBoxShadow {
    pub offset_x: CssNumber,
    pub offset_y: CssNumber,
    pub blur_radius: CssNumber,
    pub spread_radius: CssNumber,
    pub color: String,
}

/// The computed style of an element.
#[derive(Debug)]
pub struct CssStyle {
    pub color: String,
    pub explicit_color: bool,
    pub background: Option<String>,
    pub explicit_background: bool,
    pub box_shadow: Option<CssBoxShadow>,
    pub opacity: CssNumber,
    pub font_size: CssNumber,
    pub line_height: CssNumber,
    pub line_height_factor: Option<CssNumber>,
    pub font_family: String,
    pub font_feature_settings: Option<String>,
    pub font_weight: u16,
    pub bold: bool,
    pub italic: bool,
    pub underline: bool,
    pub text_align: CssTextAlign,
    pub text_transform: CssTextTransform,
    pub white_space: CssWhiteSpace,
    pub list_style_none: bool,
    pub letter_spacing: CssNumber,
    pub display: CssDisplay,
    pub inline_block: bool,
    pub inline_atomic: bool,
    pub flex_direction: CssFlexDirection,
    pub flex_wrap: CssFlexWrap,
    pub flex_grow: CssNumber,
    pub flex_shrink: CssNumber,
    pub flex_basis: Option<CssLength>,
    pub align_items: Option<CssAlignItems>,
    pub justify_content: Option<CssAlignContent>,
    pub gap: CssNumber,
    pub grid_template_columns: Vec<CssGridTrack>,
    pub automatic_min_height: bool,
    pub viewport_width: CssNumber,
    pub viewport_height: CssNumber,
    pub percentage_height_basis: Option<CssNumber>,
    pub position: CssPosition,
    pub z_index: Option<i32>,
    pub float: CssFloat,
    pub border: Option<String>,
    pub border_width: CssNumber,
    pub border_top_width: Option<CssNumber>,
    pub border_right_width: Option<CssNumber>,
    pub border_bottom_width: Option<CssNumber>,
    pub border_left_width: Option<CssNumber>,
    pub border_top_color: Option<String>,
    pub border_right_color: Option<String>,
    pub border_bottom_color: Option<String>,
    pub border_left_color: Option<String>,
    pub border_radius: CssLength,
    pub box_sizing: CssBoxSizing,
    pub overflow: CssOverflow,
    pub padding_top: CssNumber,
    pub padding_right: CssNumber,
    pub padding_bottom: CssNumber,
    pub padding_left: CssNumber,
    pub margin_top: CssNumber,
    pub margin_right: CssNumber,
    pub margin_bottom: CssNumber,
    pub margin_left: CssNumber,
    pub margin_top_auto: bool,
    pub margin_right_auto: bool,
    pub margin_bottom_auto: bool,
    pub margin_left_auto: bool,
    pub width: Option<CssLength>,
    pub min_width: Option<CssLength>,
    pub max_width: Option<CssLength>,
    pub height: Option<CssNumber>,
    pub min_height: CssNumber,
    pub max_height: Option<CssNumber>,
    pub inset_top: Option<CssNumber>,
    pub inset_right: Option<CssNumber>,
    pub inset_bottom: Option<CssNumber>,
    pub inset_left: Option<CssNumber>,
    pub appearance_none: bool,
    pub rotation_degrees: CssNumber,
}

/// The value of a shadow, with its color as characters.
pub struct ShadowModel {
    pub offset_x: CssNumber,
    pub offset_y: CssNumber,
    pub blur_radius: CssNumber,
    pub spread_radius: CssNumber,
    pub color: Seq<char>,
}

/// The value of a computed style: its fields, with strings as characters
/// and grid tracks as a sequence.
pub struct StyleModel {
    pub color: Seq<char>,
    pub explicit_color: bool,
    pub background: Option<Seq<char>>,
    pub explicit_background: bool,
    pub box_shadow: Option<ShadowModel>,
    pub opacity: CssNumber,
    pub font_size: CssNumber,
    pub line_height: CssNumber,
    pub line_height_factor: Option<CssNumber>,
    pub font_family: Seq<char>,
    pub font_feature_settings: Option<Seq<char>>,
    pub font_weight: u16,
    pub bold: bool,
    pub italic: bool,
    pub underline: bool,
    pub text_align: CssTextAlign,
    pub text_transform: CssTextTransform,
    pub white_space: CssWhiteSpace,
    pub list_style_none: bool,
    pub letter_spacing: CssNumber,
    pub display: CssDisplay,
    pub inline_block: bool,
    pub inline_atomic: bool,
    pub flex_direction: CssFlexDirection,
    pub flex_wrap: CssFlexWrap,
    pub flex_grow: CssNumber,
    pub flex_shrink: CssNumber,
    pub flex_basis: Option<CssLength>,
    pub align_items: Option<CssAlignItems>,
    pub justify_content: Option<CssAlignContent>,
    pub gap: CssNumber,
    pub grid_template_columns: Seq<CssGridTrack>,
    pub automatic_min_height: bool,
    pub viewport_width: CssNumber,
    pub viewport_height: CssNumber,
    pub percentage_height_basis: Option<CssNumber>,
    pub position: CssPosition,
    pub z_index: Option<i32>,
    pub float: CssFloat,
    pub border: Option<Seq<char>>,
    pub border_width: CssNumber,
    pub border_top_width: Option<CssNumber>,
    pub border_right_width: Option<CssNumber>,
    pub border_bottom_width: Option<CssNumber>,
    pub border_left_width: Option<CssNumber>,
    pub border_top_color: Option<Seq<char>>,
    pub border_right_color: Option<Seq<char>>,
    pub border_bottom_color: Option<Seq<char>>,
    pub border_left_color: Option<Seq<char>>,
    pub border_radius: CssLength,
    pub box_sizing: CssBoxSizing,
    pub overflow: CssOverflow,
    pub padding_top: CssNumber,
    pub padding_right: CssNumber,
    pub padding_bottom: CssNumber,
    pub padding_left: CssNumber,
    pub margin_top: CssNumber,
    pub margin_right: CssNumber,
    pub margin_bottom: CssNumber,
    pub margin_left: CssNumber,
    pub margin_top_auto: bool,
    pub margin_right_auto: bool,
    pub margin_bottom_auto: bool,
    pub margin_left_auto: bool,
    pub width: Option<CssLength>,
    pub min_width: Option<CssLength>,
    pub max_width: Option<CssLength>,
    pub height: Option<CssNumber>,
    pub min_height: CssNumber,
    pub max_height: Option<CssNumber>,
    pub inset_top: Option<CssNumber>,
    pub inset_right: Option<CssNumber>,
    pub inset_bottom: Option<CssNumber>,
    pub inset_left: Option<CssNumber>,
    pub appearance_none: bool,
    pub rotation_degrees: CssNumber,
}

/// The characters of an optional string.
pub open spec fn opt_str(s: Option<String>) -> Option<Seq<char>> {
    match s {
        Some(x) => Some(x@),
        None => None,
    }
}

impl View for CssBoxShadow {
    type V = ShadowModel;

    open spec fn view(&self) -> ShadowModel {
        ShadowModel {
            offset_x: self.offset_x,
            offset_y: self.offset_y,
            blur_radius: self.blur_radius,
            spread_radius: self.spread_radius,
            color: self.color@,
        }
    }
}

/// The value of an optional shadow.
pub open spec fn opt_shadow(s: Option<CssBoxShadow>) -> Option<ShadowModel> {
    match s {
        Some(x) => Some(x@),
        None => None,
    }
}

impl View for CssStyle {
    type V = StyleModel;

    open spec fn view(&self) -> StyleModel {
        StyleModel {
            color: self.color@,
            explicit_color: self.explicit_color,
            background: opt_str(self.background),
            explicit_background: self.explicit_background,
            box_shadow: opt_shadow(self.box_shadow),
            opacity: self.opacity,
            font_size: self.font_size,
            line_height: self.line_height,
            line_height_factor: self.line_height_factor,
            font_family: self.font_family@,
            font_feature_settings: opt_str(self.font_feature_settings),
            font_weight: self.font_weight,
            bold: self.bold,
            italic: self.italic,
            underline: self.underline,
            text_align: self.text_align,
            text_transform: self.text_transform,
            white_space: self.white_space,
            list_style_none: self.list_style_none,
            letter_spacing: self.letter_spacing,
            display: self.display,
            inline_block: self.inline_block,
            inline_atomic: self.inline_atomic,
            flex_direction: self.flex_direction,
            flex_wrap: self.flex_wrap,
            flex_grow: self.flex_grow,
            flex_shrink: self.flex_shrink,
            flex_basis: self.flex_basis,
            align_items: self.align_items,
            justify_content: self.justify_content,
            gap: self.gap,
            grid_template_columns: self.grid_template_columns@,
            automatic_min_height: self.automatic_min_height,
            viewport_width: self.viewport_width,
            viewport_height: self.viewport_height,
            percentage_height_basis: self.percentage_height_basis,
            position: self.position,
            z_index: self.z_index,
            float: self.float,
            border: opt_str(self.border),
            border_width: self.border_width,
            border_top_width: self.border_top_width,
            border_right_width: self.border_right_width,
            border_bottom_width: self.border_bottom_width,
            border_left_width: self.border_left_width,
            border_top_color: opt_str(self.border_top_color),
            border_right_color: opt_str(self.border_right_color),
            border_bottom_color: opt_str(self.border_bottom_color),
            border_left_color: opt_str(self.border_left_color),
            border_radius: self.border_radius,
            box_sizing: self.box_sizing,
            overflow: self.overflow,
            padding_top: self.padding_top,
            padding_right: self.padding_right,
            padding_bottom: self.padding_bottom,
            padding_left: self.padding_left,
            margin_top: self.margin_top,
            margin_right: self.margin_right,
            margin_bottom: self.margin_bottom,
            margin_left: self.margin_left,
            margin_top_auto: self.margin_top_auto,
            margin_right_auto: self.margin_right_auto,
            margin_bottom_auto: self.margin_bottom_auto,
            margin_left_auto: self.margin_left_auto,
            width: self.width,
            min_width: self.min_width,
            max_width: self.max_width,
            height: self.height,
            min_height: self.min_height,
            max_height: self.max_height,
            inset_top: self.inset_top,
            inset_right: self.inset_right,
            inset_bottom: self.inset_bottom,
            inset_left: self.inset_left,
            appearance_none: self.appearance_none,
            rotation_degrees: self.rotation_degrees,
        }
    }
}

/// A copy of an optional string.
pub fn copy_opt_string(s: &Option<String>) -> (r: Option<String>)
    ensures
        r == *s,
{
    match s {
        Some(x) => Some(x.clone()),
        None => None,
    }
}

/// A copy of a list of grid tracks.
pub fn copy_tracks(v: &Vec<CssGridTrack>) -> (r: Vec<CssGridTrack>)
    ensures
        r@ == v@,
{
    let mut r: Vec<CssGridTrack> = Vec::new();
    let mut i: usize = 0;
    while i < v.len()
        invariant
            i <= v@.len(),
            r@ == v@.take(i as int),
        decreases v@.len() - i,
    {
        r.push(v[i]);
        proof {
            assert(r@ =~= v@.take(i + 1));
        }
        i = i + 1;
    }
    proof {
        assert(v@.take(v@.len() as int) =~= v@);
    }
    r
}

impl CssBoxShadow {
    /// A copy of the shadow.
    pub fn duplicate(&self) -> (r: CssBoxShadow)
        ensures
            r == *self,
    {
        CssBoxShadow {
            offset_x: self.offset_x,
            offset_y: self.offset_y,
            blur_radius: self.blur_radius,
            spread_radius: self.spread_radius,
            color: self.color.clone(),
        }
    }
}

impl Clone for CssBoxShadow {
    fn clone(&self) -> (r: Self)
        ensures
            r == *self,
    {
        self.duplicate()
    }
}

/// A copy of an optional shadow.
pub fn copy_opt_shadow(s: &Option<CssBoxShadow>) -> (r: Option<CssBoxShadow>)
    ensures
        r == *s,
{
    match s {
        Some(x) => Some(x.duplicate()),
        None => None,
    }
}

impl CssStyle {
    /// A field-by-field copy of the style.
    pub fn duplicate(&self) -> (r: CssStyle)
        ensures
            r@ == self@,
    {
        let tracks = copy_tracks(&self.grid_template_columns);
        CssStyle {
            color: self.color.clone(),
            explicit_color: self.explicit_color,
            background: copy_opt_string(&self.background),
            explicit_background: self.explicit_background,
            box_shadow: copy_opt_shadow(&self.box_shadow),
            opacity: self.opacity,
            font_size: self.font_size,
            line_height: self.line_height,
            line_height_factor: self.line_height_factor,
            font_family: self.font_family.clone(),
            font_feature_settings: copy_opt_string(&self.font_feature_settings),
            font_weight: self.font_weight,
            bold: self.bold,
            italic: self.italic,
            underline: self.underline,
            text_align: self.text_align,
            text_transform: self.text_transform,
            white_space: self.white_space,
            list_style_none: self.list_style_none,
            letter_spacing: self.letter_spacing,
            display: self.display,
            inline_block: self.inline_block,
            inline_atomic: self.inline_atomic,
            flex_direction: self.flex_direction,
            flex_wrap: self.flex_wrap,
            flex_grow: self.flex_grow,
            flex_shrink: self.flex_shrink,
            flex_basis: self.flex_basis,
            align_items: self.align_items,
            justify_content: self.justify_content,
            gap: self.gap,
            grid_template_columns: tracks,
            automatic_min_height: self.automatic_min_height,
            viewport_width: self.viewport_width,
            viewport_height: self.viewport_height,
            percentage_height_basis: self.percentage_height_basis,
            position: self.position,
            z_index: self.z_index,
            float: self.float,
            border: copy_opt_string(&self.border),
            border_width: self.border_width,
            border_top_width: self.border_top_width,
            border_right_width: self.border_right_width,
            border_bottom_width: self.border_bottom_width,
            border_left_width: self.border_left_width,
            border_top_color: copy_opt_string(&self.border_top_color),
            border_right_color: copy_opt_string(&self.border_right_color),
            border_bottom_color: copy_opt_string(&self.border_bottom_color),
            border_left_color: copy_opt_string(&self.border_left_color),
            border_radius: self.border_radius,
            box_sizing: self.box_sizing,
            overflow: self.overflow,
            padding_top: self.padding_top,
            padding_right: self.padding_right,
            padding_bottom: self.padding_bottom,
            padding_left: self.padding_left,
            margin_top: self.margin_top,
            margin_right: self.margin_right,
            margin_bottom: self.margin_bottom,
            margin_left: self.margin_left,
            margin_top_auto: self.margin_top_auto,
            margin_right_auto: self.margin_right_auto,
            margin_bottom_auto: self.margin_bottom_auto,
            margin_left_auto: self.margin_left_auto,
            width: self.width,
            min_width: self.min_width,
            max_width: self.max_width,
            height: self.height,
            min_height: self.min_height,
            max_height: self.max_height,
            inset_top: self.inset_top,
            inset_right: self.inset_right,
            inset_bottom: self.inset_bottom,
            inset_left: self.inset_left,
            appearance_none: self.appearance_none,
            rotation_degrees: self.rotation_degrees,
        }
    }
}

impl Clone for CssStyle {
    fn clone(&self) -> (r: Self)
        ensures
            r@ == self@,
    {
        self.duplicate()
    }
}

} // verus!
