//! The styles of form controls, links and table cells, and the attribute
//! helpers of inputs, images and disclosure widgets.
use crate::document::{
    attribute, attribute_spec, attrs_view, cell_view, copy_nodes, initial_value_spec, input_initial_value,
    node_view, nodes_view, lemma_nodes_view_take, opt_slice, string_map, HtmlDocumentNode, NodeView, TableCell,
};
use crate::style::element::element_style_model;
use crate::style::types::{copy_opt_string, opt_str, CssStyle, StyleModel};
use crate::text::{eq_ci, str_eq_ignore_ascii_case, str_is};
use std::collections::HashMap;
use vstd::prelude::*;
use vstd::string::*;

verus! {

/// A button draws on a light gray background unless one was declared, and
/// with a gray border unless it has one.
pub open spec fn button_model(m: StyleModel) -> StyleModel {
    StyleModel {
        background: if m.explicit_background { m.background } else { Some("#e9ecef"@) },
        border: Some(
            match m.border {
                Some(b) => b,
                None => "#6c757d"@,
            },
        ),
        ..m
    }
}

/// An input draws on a white background unless it has one, with a blue
/// border while focused and a gray one otherwise.
pub open spec fn input_model(m: StyleModel, focused: bool) -> StyleModel {
    StyleModel {
        background: Some(
            match m.background {
                Some(b) => b,
                None => "#ffffff"@,
            },
        ),
        border: Some(if focused { "#0969da"@ } else { "#8c959f"@ }),
        ..m
    }
}

/// A link is blue unless its color was declared, and underlined.
pub open spec fn link_model(m: StyleModel) -> StyleModel {
    StyleModel { color: if m.explicit_color { m.color } else { "#0969da"@ }, underline: true, ..m }
}

/// Whether a style draws any border: a border color or an edge width override.
pub open spec fn has_any_border_spec(m: StyleModel) -> bool {
    m.border is Some || m.border_top_width is Some || m.border_right_width is Some || m.border_bottom_width is Some
        || m.border_left_width is Some
}

/// The fallbacks of a table cell's style: a header cell of the first row
/// is white on blue unless those were declared; a cell without any border
/// gets a thin light gray one.
pub open spec fn cell_fallback_model(m: StyleModel, is_header: bool) -> StyleModel {
    let f = cell_fallback_fields(m, is_header);
    StyleModel { background: f.0, color: f.1, border: f.2, border_width: f.3, ..m }
}

/// The background, color, border and border width of a table cell after
/// its fallbacks.
pub open spec fn cell_fallback_fields(m: StyleModel, is_header: bool) -> (
    Option<Seq<char>>,
    Seq<char>,
    Option<Seq<char>>,
    crate::number::CssNumber,
) {
    let bordered = has_any_border_spec(m);
    (
        if !m.explicit_background && is_header { Some("#0b74c7"@) } else { m.background },
        if !m.explicit_color && is_header { "#ffffff"@ } else { m.color },
        if bordered { m.border } else { Some("#c8cdd2"@) },
        if bordered { m.border_width } else { crate::number::num(1_000_000) },
    )
}

/// The style of a table cell: the cell's own style with the fallbacks of
/// `cell_fallback_model`, where a header is a `th` of the first row.
pub open spec fn table_cell_model(
    cell: (Seq<char>, Seq<(Seq<char>, Seq<char>)>, Seq<NodeView>),
    row_index: int,
    inherited: StyleModel,
) -> StyleModel {
    cell_fallback_model(element_style_model(cell.1, inherited), row_index == 0 && cell.0 == "th"@)
}

/// `value` where there is one, else a copy of `fallback`.
fn string_or(value: &Option<String>, fallback: &str) -> (r: String)
    ensures
        r@ == match opt_str(*value) {
            Some(v) => v,
            None => fallback@,
        },
{
    match value {
        Some(v) => v.clone(),
        None => String::from_str(fallback),
    }
}

/// `value` when `keep`, else `fallback`.
fn keep_or(keep: bool, value: &Option<String>, fallback: &str) -> (r: Option<String>)
    ensures
        opt_str(r) == if keep { opt_str(*value) } else { Some(fallback@) },
{
    if keep {
        copy_opt_string(value)
    } else {
        Some(String::from_str(fallback))
    }
}

/// The style of a button.
pub fn button_style(style: &CssStyle) -> (r: CssStyle)
    ensures
        r@ == button_model(style@),
{
    let mut s = style.duplicate();
    let background = keep_or(s.explicit_background, &s.background, "#e9ecef");
    let border = string_or(&s.border, "#6c757d");
    s.background = background;
    s.border = Some(border);
    s
}

/// The style of a text input.
pub fn input_style(style: &CssStyle, focused: bool) -> (r: CssStyle)
    ensures
        r@ == input_model(style@, focused),
{
    let mut s = style.duplicate();
    let background = string_or(&s.background, "#ffffff");
    let border = String::from_str(if focused { "#0969da" } else { "#8c959f" });
    s.background = Some(background);
    s.border = Some(border);
    s
}

/// The style of a link.
pub fn link_style(style: &CssStyle) -> (r: CssStyle)
    ensures
        r@ == link_model(style@),
{
    let mut s = style.duplicate();
    let color = if s.explicit_color { s.color.clone() } else { String::from_str("#0969da") };
    s.color = color;
    s.underline = true;
    s
}

impl CssStyle {
    /// Whether the style draws any border.
    pub fn has_any_border(&self) -> (r: bool)
        ensures
            r == has_any_border_spec(self@),
    {
        self.border.is_some() || self.border_top_width.is_some() || self.border_right_width.is_some()
            || self.border_bottom_width.is_some() || self.border_left_width.is_some()
    }
}

fn width_or_one(keep: bool, width: crate::number::CssNumber) -> (r: crate::number::CssNumber)
    ensures
        r == if keep { width } else { crate::number::num(1_000_000) },
{
    if keep {
        width
    } else {
        crate::number::CssNumber { micros: 1_000_000 }
    }
}

fn color_or(keep: bool, color: &String, fallback: &str) -> (r: String)
    ensures
        r@ == if keep { color@ } else { fallback@ },
{
    if keep {
        color.clone()
    } else {
        String::from_str(fallback)
    }
}

fn cell_fallback_values(s: &CssStyle, is_header: bool) -> (r: (Option<String>, String, Option<String>, crate::number::CssNumber))
    ensures
        opt_str(r.0) == cell_fallback_fields(s@, is_header).0,
        r.1@ == cell_fallback_fields(s@, is_header).1,
        opt_str(r.2) == cell_fallback_fields(s@, is_header).2,
        r.3 == cell_fallback_fields(s@, is_header).3,
{
    let bordered = s.has_any_border();
    (
        keep_or(s.explicit_background || !is_header, &s.background, "#0b74c7"),
        color_or(s.explicit_color || !is_header, &s.color, "#ffffff"),
        keep_or(bordered, &s.border, "#c8cdd2"),
        width_or_one(bordered, s.border_width),
    )
}

/// Applies the fallbacks of a table cell to its own style.
fn with_cell_fallbacks(s: CssStyle, is_header: bool) -> (r: CssStyle)
    ensures
        r@ == cell_fallback_model(s@, is_header),
{
    let mut s = s;
    let f = cell_fallback_values(&s, is_header);
    s.background = f.0;
    s.color = f.1;
    s.border = f.2;
    s.border_width = f.3;
    s
}

/// The style of a table cell in row `row_index`.
pub fn table_cell_style(cell: &TableCell, row_index: usize, style: &CssStyle) -> (r: CssStyle)
    ensures
        r@ == table_cell_model(cell_view(*cell), row_index as int, style@),
{
    let is_header = row_index == 0 && str_is(cell.tag.as_str(), "th");
    let s = CssStyle::from_element(cell.tag.as_str(), cell.attributes.as_slice(), style);
    with_cell_fallbacks(s, is_header)
}

/// Whether a node is a `summary` element.
pub open spec fn is_summary_spec(n: NodeView) -> bool {
    n matches NodeView::Element { tag, .. } && tag == "summary"@
}

/// The children of a `details` element that are drawn: all of them when
/// it is open, else only its `summary` elements.
pub open spec fn visible_children(ns: Seq<NodeView>, open: bool) -> Seq<NodeView>
    decreases ns.len(),
{
    if ns.len() == 0 {
        Seq::empty()
    } else if open || is_summary_spec(ns.last()) {
        visible_children(ns.drop_last(), open).push(ns.last())
    } else {
        visible_children(ns.drop_last(), open)
    }
}

/// Whether `node` is a `summary` element.
pub fn is_summary(node: &&HtmlDocumentNode) -> (r: bool)
    ensures
        r == is_summary_spec((**node)@),
{
    match *node {
        HtmlDocumentNode::Element { tag, .. } => str_is(tag.as_str(), "summary"),
        HtmlDocumentNode::Text(_) => false,
    }
}

/// The children of a `details` element that are drawn, copied.
pub fn visible_details_children(attributes: &[(String, String)], children: &[HtmlDocumentNode]) -> (r: Vec<HtmlDocumentNode>)
    ensures
        nodes_view(r@) == visible_children(nodes_view(children@), attribute_spec(attrs_view(attributes@), "open"@) is Some),
{
    let open = attribute(attributes, "open").is_some();
    let mut out: Vec<HtmlDocumentNode> = Vec::new();
    let mut i: usize = 0;
    while i < children.len()
        invariant
            i <= children@.len(),
            nodes_view(out@) == visible_children(nodes_view(children@.take(i as int)), open),
        decreases children@.len() - i,
    {
        proof {
            lemma_nodes_view_take(children@, i as int);
            let p = nodes_view(children@.take(i as int));
            assert(p.push(node_view(children@[i as int])).drop_last() =~= p);
        }
        let child = &children[i];
        if is_summary(&child) || open {
            let c = child.duplicate();
            let ghost before = out@;
            out.push(c);
            proof {
                assert(out@.drop_last() =~= before);
            }
        }
        i = i + 1;
    }
    proof {
        assert(children@.take(children@.len() as int) =~= children@);
    }
    out
}

/// Whether the `type` attribute says `checkbox`, in any ASCII case.
pub open spec fn is_checkbox_spec(attrs: Seq<(Seq<char>, Seq<char>)>) -> bool {
    match attribute_spec(attrs, "type"@) {
        Some(t) => eq_ci(t, "checkbox"@),
        None => false,
    }
}

/// Whether an input is a checkbox.
pub fn is_checkbox(attributes: &[(String, String)]) -> (r: bool)
    ensures
        r == is_checkbox_spec(attrs_view(attributes@)),
{
    match attribute(attributes, "type") {
        Some(t) => str_eq_ignore_ascii_case(t, "checkbox"),
        None => false,
    }
}

/// Whether a checkbox is checked: it has a `checked` attribute.
pub fn is_checked(attributes: &[(String, String)]) -> (r: bool)
    ensures
        r == (attribute_spec(attrs_view(attributes@), "checked"@) is Some),
{
    attribute(attributes, "checked").is_some()
}

/// The source of an image: its `src` attribute.
pub fn image_source(attributes: &[(String, String)]) -> (r: Option<&str>)
    ensures
        opt_slice(r) == attribute_spec(attrs_view(attributes@), "src"@),
{
    attribute(attributes, "src")
}

/// The current value of an input: the value already recorded for it, else
/// its initial value, which is then recorded.
pub fn input_value(values: &mut HashMap<u64, String>, node_id: u64, attributes: &[(String, String)]) -> (r: String)
    ensures
        old(values)@.contains_key(node_id) ==> r == old(values)@[node_id] && final(values)@ == old(values)@,
        !old(values)@.contains_key(node_id) ==> r@ == initial_value_spec(attrs_view(attributes@))
            && string_map(final(values)@) == string_map(old(values)@).insert(node_id, r@),
{
    broadcast use vstd::std_specs::hash::group_hash_axioms;
    match values.get(&node_id) {
        Some(v) => v.clone(),
        None => {
            let initial = input_initial_value(attributes);
            let ghost before = values@;
            values.insert(node_id, initial.clone());
            proof {
                assert(string_map(values@) =~= string_map(before).insert(node_id, initial@));
            }
            initial
        },
    }
}

/// The text an input shows, and its style: its value where it has one;
/// else its placeholder in gray italics where it has one; else the empty value.
pub fn input_display_value<'a>(attributes: &'a [(String, String)], value: &'a str, style: &CssStyle) -> (r: (&'a str, CssStyle))
    ensures
        value@.len() > 0 ==> r.0@ == value@ && r.1@ == style@,
        value@.len() == 0 ==> match attribute_spec(attrs_view(attributes@), "placeholder"@) {
            Some(p) => r.0@ == p && r.1@ == (StyleModel { color: "#9ca3af"@, italic: true, ..style@ }),
            None => r.0@ == value@ && r.1@ == style@,
        },
{
    if value.unicode_len() > 0 {
        return (value, style.duplicate());
    }
    match attribute(attributes, "placeholder") {
        Some(placeholder) => {
            let mut s = style.duplicate();
            s.color = String::from_str("#9ca3af");
            s.italic = true;
            (placeholder, s)
        },
        None => (value, style.duplicate()),
    }
}

/// The attributes and children of a list item (`li`) element.
pub fn list_item(node: &HtmlDocumentNode) -> (r: Option<(&[(String, String)], &[HtmlDocumentNode])>)
    ensures
        match r {
            Some((a, c)) => node@ matches NodeView::Element { tag, attributes, children, .. } && tag == "li"@
                && attrs_view(a@) == attributes && nodes_view(c@) == children,
            None => !(node@ matches NodeView::Element { tag, .. } && tag == "li"@),
        },
{
    match node {
        HtmlDocumentNode::Element { tag, attributes, children, .. } => {
            if str_is(tag.as_str(), "li") {
                Some((attributes.as_slice(), children.as_slice()))
            } else {
                None
            }
        },
        HtmlDocumentNode::Text(_) => None,
    }
}

} // verus!
