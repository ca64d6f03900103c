//! The style of an element: browser defaults, inheritance from the parent,
//! the `hidden` attribute and the declarations of the `style` attribute.
use crate::document::{attribute, attribute_spec, attrs_view, opt_slice};
use crate::length::{times, DEFAULT_FONT_SIZE_MICROS, LINE_HEIGHT_FACTOR_MICROS};
use crate::number::{multiply, num, CssNumber, MICROS_PER_UNIT};
use crate::style::apply::apply_model;
use crate::style::declaration::line_height_model;
use crate::style::types::{
    copy_opt_string, CssBoxSizing, CssDisplay, CssFlexDirection, CssFlexWrap, CssFloat, CssGridTrack,
    CssLength, CssOverflow, CssPosition, CssStyle, CssTextAlign, CssTextTransform, CssWhiteSpace,
    StyleModel,
};
use crate::text::{chars_of, eq_ci, str_eq_ignore_ascii_case, trim, trim_bounds};
use crate::tokens::{split_once_spec, split_top_level_once};
use vstd::prelude::*;
use vstd::string::*;

verus! {

/// The viewport width that `browser_default` assumes, in millionths.
pub const DEFAULT_VIEWPORT_WIDTH_MICROS: i64 = 1_024_000_000;

/// The viewport height that `browser_default` assumes, in millionths.
pub const DEFAULT_VIEWPORT_HEIGHT_MICROS: i64 = 768_000_000;

/// The default line height: the default font size times the line-height factor.
pub const DEFAULT_LINE_HEIGHT_MICROS: i64 = 24_000_000;

/// The weight of normal text.
pub const FONT_WEIGHT_NORMAL: u16 = 400;

/// The style with every field at its type's default: empty strings, zero
/// numbers, no options, false flags, and the first keyword of each enum.
pub open spec fn zero_model() -> StyleModel {
    StyleModel {
        color: Seq::empty(),
        explicit_color: false,
        background: None,
        explicit_background: false,
        box_shadow: None,
        opacity: num(0),
        font_size: num(0),
        line_height: num(0),
        line_height_factor: None,
        font_family: Seq::empty(),
        font_feature_settings: None,
        font_weight: 0,
        bold: false,
        italic: false,
        underline: false,
        text_align: CssTextAlign::Start,
        text_transform: CssTextTransform::NoTransform,
        white_space: CssWhiteSpace::Normal,
        list_style_none: false,
        letter_spacing: num(0),
        display: CssDisplay::Flex,
        inline_block: false,
        inline_atomic: false,
        flex_direction: CssFlexDirection::Row,
        flex_wrap: CssFlexWrap::NoWrap,
        flex_grow: num(0),
        flex_shrink: num(0),
        flex_basis: None,
        align_items: None,
        justify_content: None,
        gap: num(0),
        grid_template_columns: Seq::empty(),
        automatic_min_height: false,
        viewport_width: num(0),
        viewport_height: num(0),
        percentage_height_basis: None,
        position: CssPosition::Static,
        z_index: None,
        float: CssFloat::NoFloat,
        border: None,
        border_width: num(0),
        border_top_width: None,
        border_right_width: None,
        border_bottom_width: None,
        border_left_width: None,
        border_top_color: None,
        border_right_color: None,
        border_bottom_color: None,
        border_left_color: None,
        border_radius: CssLength::Px(num(0)),
        box_sizing: CssBoxSizing::ContentBox,
        overflow: CssOverflow::Visible,
        padding_top: num(0),
        padding_right: num(0),
        padding_bottom: num(0),
        padding_left: num(0),
        margin_top: num(0),
        margin_right: num(0),
        margin_bottom: num(0),
        margin_left: num(0),
        margin_top_auto: false,
        margin_right_auto: false,
        margin_bottom_auto: false,
        margin_left_auto: false,
        width: None,
        min_width: None,
        max_width: None,
        height: None,
        min_height: num(0),
        max_height: None,
        inset_top: None,
        inset_right: None,
        inset_bottom: None,
        inset_left: None,
        appearance_none: false,
        rotation_degrees: num(0),
    }
}

/// The browser's default style for a viewport: dark text in the default
/// sans-serif font at the default size and line height, fully opaque,
/// block display, a single fraction column, and an automatic minimum height.
pub open spec fn browser_default_model(viewport_width: CssNumber, viewport_height: CssNumber) -> StyleModel {
    StyleModel {
        color: "#1f2328"@,
        opacity: num(MICROS_PER_UNIT as int),
        font_size: num(DEFAULT_FONT_SIZE_MICROS as int),
        line_height: num(DEFAULT_LINE_HEIGHT_MICROS as int),
        line_height_factor: Some(num(LINE_HEIGHT_FACTOR_MICROS as int)),
        font_family: "Noto Sans, sans-serif"@,
        font_weight: FONT_WEIGHT_NORMAL,
        display: CssDisplay::Block,
        inline_block: false,
        flex_direction: CssFlexDirection::Row,
        flex_wrap: CssFlexWrap::NoWrap,
        flex_shrink: num(MICROS_PER_UNIT as int),
        automatic_min_height: true,
        grid_template_columns: seq![CssGridTrack::Fraction(num(MICROS_PER_UNIT as int))],
        viewport_width,
        viewport_height,
        ..zero_model()
    }
}

/// The style an element starts from: the inherited text properties and
/// viewport of its parent, everything else at the browser default.
pub open spec fn element_defaults_model(m: StyleModel) -> StyleModel {
    StyleModel {
        color: m.color,
        font_size: m.font_size,
        line_height: m.line_height,
        line_height_factor: m.line_height_factor,
        font_family: m.font_family,
        font_feature_settings: m.font_feature_settings,
        font_weight: m.font_weight,
        italic: m.italic,
        underline: m.underline,
        text_align: m.text_align,
        text_transform: m.text_transform,
        white_space: m.white_space,
        list_style_none: m.list_style_none,
        letter_spacing: m.letter_spacing,
        viewport_width: m.viewport_width,
        viewport_height: m.viewport_height,
        percentage_height_basis: m.percentage_height_basis,
        ..browser_default_model(num(DEFAULT_VIEWPORT_WIDTH_MICROS as int), num(DEFAULT_VIEWPORT_HEIGHT_MICROS as int))
    }
}

/// The line height after a font-size change: an inherited factor scales
/// with the font size.
pub open spec fn resolved_line_height(m: StyleModel) -> CssNumber {
    match m.line_height_factor {
        Some(f) => match times(m.font_size.val(), f.val()) {
            Some(x) => num(x),
            None => m.line_height,
        },
        None => m.line_height,
    }
}

/// `resolve_inherited_line_height`.
pub open spec fn resolved_line_height_model(m: StyleModel) -> StyleModel {
    StyleModel { line_height: resolved_line_height(m), ..m }
}

/// One declaration of a `style` attribute.
pub struct CssDeclaration {
    pub name: String,
    pub value: String,
}

/// The pieces of `s` from position `i` on, split at `;`; `start` is where
/// the piece in progress began.
pub open spec fn piece_scan(s: Seq<char>, i: int, start: int) -> Seq<Seq<char>>
    decreases s.len() - i,
{
    if i < 0 || i >= s.len() {
        seq![s.subrange(start, s.len() as int)]
    } else if s[i] == ';' {
        seq![s.subrange(start, i)] + piece_scan(s, i + 1, i + 1)
    } else {
        piece_scan(s, i + 1, start)
    }
}

/// The pieces of a `style` attribute, split at `;`.
pub open spec fn semicolon_pieces(s: Seq<char>) -> Seq<Seq<char>> {
    piece_scan(s, 0, 0)
}

/// The declaration written by one piece: the trimmed text before the first
/// top-level `:` as the name and the trimmed rest as the value; `None`
/// without a colon or with an empty name.
pub open spec fn declaration_of(piece: Seq<char>) -> Option<(Seq<char>, Seq<char>)> {
    match split_once_spec(piece, ':') {
        Some((name, value)) => if trim(name).len() > 0 {
            Some((trim(name), trim(value)))
        } else {
            None
        },
        None => None,
    }
}

/// The declaration of a piece, as a list of zero or one declaration.
pub open spec fn declaration_seq(piece: Seq<char>) -> Seq<(Seq<char>, Seq<char>)> {
    match declaration_of(piece) {
        Some(d) => seq![d],
        None => Seq::empty(),
    }
}

/// The declarations of a list of pieces, in order.
pub open spec fn declarations_of(pieces: Seq<Seq<char>>) -> Seq<(Seq<char>, Seq<char>)>
    decreases pieces.len(),
{
    if pieces.len() == 0 {
        Seq::empty()
    } else {
        declaration_seq(pieces[0]) + declarations_of(pieces.drop_first())
    }
}

/// `parse_declarations`: the declarations of a `style` attribute.
pub open spec fn declarations_spec(source: Seq<char>) -> Seq<(Seq<char>, Seq<char>)> {
    declarations_of(semicolon_pieces(source))
}

/// The view of a list of declarations.
pub open spec fn decls_view(d: Seq<CssDeclaration>) -> Seq<(Seq<char>, Seq<char>)> {
    d.map_values(|x: CssDeclaration| (x.name@, x.value@))
}

/// Every declaration but `line-height`, applied in order.
pub open spec fn apply_declarations(m: StyleModel, decls: Seq<(Seq<char>, Seq<char>)>) -> StyleModel
    decreases decls.len(),
{
    if decls.len() == 0 {
        m
    } else {
        let before = apply_declarations(m, decls.drop_last());
        let d = decls.last();
        if eq_ci(d.0, "line-height"@) {
            before
        } else {
            apply_model(before, d.0, d.1)
        }
    }
}

/// The `line-height` declarations, applied in order.
pub open spec fn apply_line_heights(m: StyleModel, decls: Seq<(Seq<char>, Seq<char>)>) -> StyleModel
    decreases decls.len(),
{
    if decls.len() == 0 {
        m
    } else {
        let before = apply_line_heights(m, decls.drop_last());
        let d = decls.last();
        if eq_ci(d.0, "line-height"@) {
            line_height_model(before, d.1)
        } else {
            before
        }
    }
}

/// The style of an element: its parent's inherited properties; `display:
/// none` where it has a `hidden` attribute; then the declarations of its
/// `style` attribute, where `line-height` comes last so that a unitless line
/// height follows the element's own font size.
#[verifier::opaque]
pub open spec fn element_style_model(attrs: Seq<(Seq<char>, Seq<char>)>, inherited: StyleModel) -> StyleModel {
    let base = element_defaults_model(inherited);
    let hidden = if attribute_spec(attrs, "hidden"@) is Some {
        StyleModel { display: CssDisplay::Hidden, ..base }
    } else {
        base
    };
    match attribute_spec(attrs, "style"@) {
        None => hidden,
        Some(source) => {
            let decls = declarations_spec(source);
            apply_line_heights(resolved_line_height_model(apply_declarations(hidden, decls)), decls)
        },
    }
}

proof fn lemma_fold_step(m: StyleModel, d: Seq<(Seq<char>, Seq<char>)>, i: int)
    requires
        0 <= i < d.len(),
    ensures
        apply_declarations(m, d.take(i + 1)) == (if eq_ci(d[i].0, "line-height"@) {
            apply_declarations(m, d.take(i))
        } else {
            apply_model(apply_declarations(m, d.take(i)), d[i].0, d[i].1)
        }),
        apply_line_heights(m, d.take(i + 1)) == (if eq_ci(d[i].0, "line-height"@) {
            line_height_model(apply_line_heights(m, d.take(i)), d[i].1)
        } else {
            apply_line_heights(m, d.take(i))
        }),
{
    assert(d.take(i + 1).drop_last() =~= d.take(i));
    assert(d.take(i + 1).last() == d[i]);
}

/// The declaration of one piece (see `declaration_of`).
fn declaration_from(piece: &str) -> (r: Option<CssDeclaration>)
    ensures
        match r {
            Some(d) => declaration_of(piece@) == Some((d.name@, d.value@)),
            None => declaration_of(piece@) is None,
        },
{
    let (name, value) = match split_top_level_once(piece, ':') {
        Some(pair) => pair,
        None => return None,
    };
    let nv = chars_of(name);
    let (a, b) = trim_bounds(&nv, 0, nv.len());
    let vv = chars_of(value);
    let (c, d) = trim_bounds(&vv, 0, vv.len());
    proof {
        assert(nv@.subrange(0, nv@.len() as int) =~= name@);
        assert(vv@.subrange(0, vv@.len() as int) =~= value@);
    }
    if a == b {
        return None;
    }
    Some(CssDeclaration {
        name: String::from_str(name.substring_char(a, b)),
        value: String::from_str(value.substring_char(c, d)),
    })
}

/// The declarations of a `style` attribute: pieces separated by `;`, each a
/// name, a `:` and a value, both trimmed; pieces without a colon or with an
/// empty name are skipped.
pub fn parse_declarations(source: &str) -> (r: Vec<CssDeclaration>)
    ensures
        decls_view(r@) == declarations_spec(source@),
{
    let v = chars_of(source);
    let n = v.len();
    let mut out: Vec<CssDeclaration> = Vec::new();
    let mut start: usize = 0;
    let mut i: usize = 0;
    let ghost s = source@;
    while i < n
        invariant
            v@ == s,
            s == source@,
            n == s.len(),
            start <= i <= n,
            decls_view(out@) + declarations_of(piece_scan(s, i as int, start as int)) == declarations_spec(s),
        decreases n - i,
    {
        if v[i] == ';' {
            let piece = source.substring_char(start, i);
            let ghost before = decls_view(out@);
            let ghost rest = piece_scan(s, i + 1, i + 1);
            proof {
                lemma_declarations_cons(piece@, rest);
            }
            match declaration_from(piece) {
                Some(d) => {
                    out.push(d);
                    proof {
                        assert(decls_view(out@) =~= before + seq![(d.name@, d.value@)]);
                    }
                },
                None => {
                    proof {
                        assert(decls_view(out@) =~= before + Seq::<(Seq<char>, Seq<char>)>::empty());
                    }
                },
            }
            proof {
                assert(before + (declaration_seq(piece@) + declarations_of(rest)) =~= (before
                    + declaration_seq(piece@)) + declarations_of(rest));
            }
            start = i + 1;
        }
        i = i + 1;
    }
    let piece = source.substring_char(start, n);
    let ghost before = decls_view(out@);
    proof {
        lemma_declarations_cons(piece@, Seq::empty());
        assert(declarations_of(Seq::<Seq<char>>::empty()) =~= Seq::<(Seq<char>, Seq<char>)>::empty());
        assert(seq![piece@] + Seq::<Seq<char>>::empty() =~= seq![piece@]);
    }
    match declaration_from(piece) {
        Some(d) => {
            out.push(d);
            proof {
                assert(decls_view(out@) =~= before + seq![(d.name@, d.value@)]);
                assert(seq![(d.name@, d.value@)] + Seq::<(Seq<char>, Seq<char>)>::empty() =~= seq![(d.name@, d.value@)]);
            }
        },
        None => {
            proof {
                assert(before + Seq::<(Seq<char>, Seq<char>)>::empty() =~= before);
            }
        },
    }
    out
}

proof fn lemma_declarations_cons(x: Seq<char>, rest: Seq<Seq<char>>)
    ensures
        declarations_of(seq![x] + rest) == declaration_seq(x) + declarations_of(rest),
{
    assert((seq![x] + rest).drop_first() =~= rest);
    assert((seq![x] + rest)[0] == x);
}

impl CssStyle {
    /// The browser's default style for a viewport.
    pub fn browser_default_for_viewport(viewport_width: CssNumber, viewport_height: CssNumber) -> (r: CssStyle)
        ensures
            r@ == browser_default_model(viewport_width, viewport_height),
    {
        let mut style = CssStyle::default();
        let mut columns: Vec<CssGridTrack> = Vec::new();
        columns.push(CssGridTrack::Fraction(CssNumber { micros: MICROS_PER_UNIT }));
        style.color = String::from_str("#1f2328");
        style.opacity = CssNumber { micros: MICROS_PER_UNIT };
        style.font_size = CssNumber { micros: DEFAULT_FONT_SIZE_MICROS };
        style.line_height = CssNumber { micros: DEFAULT_LINE_HEIGHT_MICROS };
        style.line_height_factor = Some(CssNumber { micros: LINE_HEIGHT_FACTOR_MICROS });
        style.font_family = String::from_str("Noto Sans, sans-serif");
        style.font_weight = FONT_WEIGHT_NORMAL;
        style.display = CssDisplay::Block;
        style.inline_block = false;
        style.flex_direction = CssFlexDirection::Row;
        style.flex_wrap = CssFlexWrap::NoWrap;
        style.flex_shrink = CssNumber { micros: MICROS_PER_UNIT };
        style.automatic_min_height = true;
        style.grid_template_columns = columns;
        style.viewport_width = viewport_width;
        style.viewport_height = viewport_height;
        proof {
            assert(style.grid_template_columns@ =~= seq![CssGridTrack::Fraction(num(MICROS_PER_UNIT as int))]);
        }
        style
    }

    /// The browser's default style for the default 1024×768 viewport.
    pub fn browser_default() -> (r: CssStyle)
        ensures
            r@ == browser_default_model(num(DEFAULT_VIEWPORT_WIDTH_MICROS as int), num(DEFAULT_VIEWPORT_HEIGHT_MICROS as int)),
    {
        CssStyle::browser_default_for_viewport(
            CssNumber { micros: DEFAULT_VIEWPORT_WIDTH_MICROS },
            CssNumber { micros: DEFAULT_VIEWPORT_HEIGHT_MICROS },
        )
    }

    /// The style a child element starts from (`element_defaults`).
    pub fn element_defaults(&self) -> (r: CssStyle)
        ensures
            r@ == element_defaults_model(self@),
    {
        let mut style = CssStyle::browser_default();
        style.color = self.color.clone();
        style.font_size = self.font_size;
        style.line_height = self.line_height;
        style.line_height_factor = self.line_height_factor;
        style.font_family = self.font_family.clone();
        style.font_feature_settings = copy_opt_string(&self.font_feature_settings);
        style.font_weight = self.font_weight;
        style.italic = self.italic;
        style.underline = self.underline;
        style.text_align = self.text_align;
        style.text_transform = self.text_transform;
        style.white_space = self.white_space;
        style.list_style_none = self.list_style_none;
        style.letter_spacing = self.letter_spacing;
        style.viewport_width = self.viewport_width;
        style.viewport_height = self.viewport_height;
        style.percentage_height_basis = self.percentage_height_basis;
        style
    }

    /// The style of an anonymous text run inside this element.
    pub fn inherited_text_style(&self) -> (r: CssStyle)
        ensures
            r@ == element_defaults_model(self@),
    {
        self.element_defaults()
    }

    fn resolved_line_height_value(&self) -> (r: CssNumber)
        ensures
            r == resolved_line_height(self@),
    {
        match self.line_height_factor {
            Some(factor) => match multiply(self.font_size, factor) {
                Some(x) => x,
                None => self.line_height,
            },
            None => self.line_height,
        }
    }

    /// Rescales the line height by the inherited factor, if any.
    pub fn resolve_inherited_line_height(&mut self)
        ensures
            final(self)@ == resolved_line_height_model(old(self)@),
    {
        let line_height = self.resolved_line_height_value();
        self.line_height = line_height;
    }

    /// The style of an element without a tag: see `element_style_model`.
    pub fn from_attributes(attributes: &[(String, String)], inherited: &CssStyle) -> (r: CssStyle)
        ensures
            r@ == element_style_model(attrs_view(attributes@), inherited@),
    {
        CssStyle::from_element_attributes(None, attributes, inherited)
    }

    /// The style of an element with the tag `tag`: see `element_style_model`.
    /// No per-tag defaults are applied: the style does not depend on `tag`.
    pub fn from_element(tag: &str, attributes: &[(String, String)], inherited: &CssStyle) -> (r: CssStyle)
        ensures
            r@ == element_style_model(attrs_view(attributes@), inherited@),
    {
        CssStyle::from_element_attributes(Some(tag), attributes, inherited)
    }

    fn mark_hidden(&mut self)
        ensures
            final(self)@ == (StyleModel { display: CssDisplay::Hidden, ..old(self)@ }),
    {
        self.display = CssDisplay::Hidden;
    }

    /// The style of an element: its parent's inherited properties, the
    /// `hidden` attribute and the declarations of the `style` attribute.
    /// The tag is taken but not used: no per-tag metrics or defaults are
    /// applied, so the result is the same for every tag.
    pub fn from_element_attributes(tag: Option<&str>, attributes: &[(String, String)], inherited: &CssStyle) -> (r: CssStyle)
        ensures
            r@ == element_style_model(attrs_view(attributes@), inherited@),
    {
        reveal(element_style_model);
        let mut style = inherited.element_defaults();
        if attribute(attributes, "hidden").is_some() {
            style.mark_hidden();
        }
        let source = match attribute(attributes, "style") {
            Some(s) => s,
            None => return style,
        };
        let declarations = parse_declarations(source);
        let ghost d = decls_view(declarations@);
        let ghost start = style@;
        let mut line_heights: Vec<&str> = Vec::new();
        let mut i: usize = 0;
        while i < declarations.len()
            invariant
                d == decls_view(declarations@),
                i <= declarations@.len(),
                style@ == apply_declarations(start, d.take(i as int)),
                line_heights@.len() <= i,
            decreases declarations@.len() - i,
        {
            proof {
                lemma_fold_step(start, d, i as int);
            }
            let declaration = &declarations[i];
            if str_eq_ignore_ascii_case(declaration.name.as_str(), "line-height") {
                line_heights.push(declaration.value.as_str());
            } else {
                style.apply(declaration.name.as_str(), declaration.value.as_str());
            }
            i = i + 1;
        }
        proof {
            assert(d.take(d.len() as int) =~= d);
        }
        style.resolve_inherited_line_height();
        let ghost resolved = style@;
        let mut j: usize = 0;
        while j < declarations.len()
            invariant
                d == decls_view(declarations@),
                j <= declarations@.len(),
                style@ == apply_line_heights(resolved, d.take(j as int)),
            decreases declarations@.len() - j,
        {
            proof {
                lemma_fold_step(resolved, d, j as int);
            }
            let declaration = &declarations[j];
            if str_eq_ignore_ascii_case(declaration.name.as_str(), "line-height") {
                style.apply_line_height(declaration.value.as_str());
            }
            j = j + 1;
        }
        proof {
            assert(d.take(d.len() as int) =~= d);
        }
        style
    }
}

impl Default for CssStyle {
    fn default() -> (r: CssStyle)
        ensures
            r@ == zero_model(),
    {
        let style = CssStyle {
            color: String::new(),
            explicit_color: false,
            background: None,
            explicit_background: false,
            box_shadow: None,
            opacity: CssNumber { micros: 0 },
            font_size: CssNumber { micros: 0 },
            line_height: CssNumber { micros: 0 },
            line_height_factor: None,
            font_family: String::new(),
            font_feature_settings: None,
            font_weight: 0,
            bold: false,
            italic: false,
            underline: false,
            text_align: CssTextAlign::Start,
            text_transform: CssTextTransform::NoTransform,
            white_space: CssWhiteSpace::Normal,
            list_style_none: false,
            letter_spacing: CssNumber { micros: 0 },
            display: CssDisplay::Flex,
            inline_block: false,
            inline_atomic: false,
            flex_direction: CssFlexDirection::Row,
            flex_wrap: CssFlexWrap::NoWrap,
            flex_grow: CssNumber { micros: 0 },
            flex_shrink: CssNumber { micros: 0 },
            flex_basis: None,
            align_items: None,
            justify_content: None,
            gap: CssNumber { micros: 0 },
            grid_template_columns: Vec::new(),
            automatic_min_height: false,
            viewport_width: CssNumber { micros: 0 },
            viewport_height: CssNumber { micros: 0 },
            percentage_height_basis: None,
            position: CssPosition::Static,
            z_index: None,
            float: CssFloat::NoFloat,
            border: None,
            border_width: CssNumber { micros: 0 },
            border_top_width: None,
            border_right_width: None,
            border_bottom_width: None,
            border_left_width: None,
            border_top_color: None,
            border_right_color: None,
            border_bottom_color: None,
            border_left_color: None,
            border_radius: CssLength::Px(CssNumber { micros: 0 }),
            box_sizing: CssBoxSizing::ContentBox,
            overflow: CssOverflow::Visible,
            padding_top: CssNumber { micros: 0 },
            padding_right: CssNumber { micros: 0 },
            padding_bottom: CssNumber { micros: 0 },
            padding_left: CssNumber { micros: 0 },
            margin_top: CssNumber { micros: 0 },
            margin_right: CssNumber { micros: 0 },
            margin_bottom: CssNumber { micros: 0 },
            margin_left: CssNumber { micros: 0 },
            margin_top_auto: false,
            margin_right_auto: false,
            margin_bottom_auto: false,
            margin_left_auto: false,
            width: None,
            min_width: None,
            max_width: None,
            height: None,
            min_height: CssNumber { micros: 0 },
            max_height: None,
            inset_top: None,
            inset_right: None,
            inset_bottom: None,
            inset_left: None,
            appearance_none: false,
            rotation_degrees: CssNumber { micros: 0 },
        };
        proof {
            assert(style.grid_template_columns@ =~= Seq::<CssGridTrack>::empty());
            assert(style.color@ =~= Seq::<char>::empty());
            assert(style.font_family@ =~= Seq::<char>::empty());
        }
        style
    }
}

} // verus!
