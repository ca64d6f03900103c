//! The parsed document and the helpers that read it: attribute lookup,
//! table rows, text content, the initial values of inputs, and border colors.
use crate::style::types::opt_str;
use crate::text::{
    chars_of, eq_ci, lower, push_char, range_starts_with, starts_with, str_eq_ignore_ascii_case, str_is,
    str_lower_is, trim_end, trim_end_str, trim_start, trim_start_str,
};
use crate::tokens::{css_value_components, join_strs, join_with, split_char, split_char_spec, split_whitespace, value_components, views, whitespace_tokens};
use crate::unicode::{alphabetic, display_columns, is_alphabetic, str_width};
use std::collections::HashMap;
use vstd::prelude::*;
use vstd::string::*;

verus! {

/// Whether a component of a border value is written as a color function or
/// a hexadecimal color.
pub open spec fn color_like(part: Seq<char>) -> bool {
    starts_with(part, "#"@) || starts_with(part, "rgb"@)
}

/// The border styles that a run of letters may also name.
pub open spec fn border_style_keyword(part: Seq<char>) -> bool {
    let l = lower(part);
    l == "solid"@ || l == "dashed"@ || l == "dotted"@ || l == "double"@ || l == "none"@
}

/// Whether a component is a named color: alphabetic throughout and not a
/// border style keyword.
pub open spec fn named_border_color(part: Seq<char>) -> bool {
    (forall|i: int| 0 <= i < part.len() ==> alphabetic(#[trigger] part[i])) && !border_style_keyword(part)
}

/// The first component written as a color.
pub open spec fn first_color_like(parts: Seq<Seq<char>>) -> Option<Seq<char>>
    decreases parts.len(),
{
    if parts.len() == 0 {
        None
    } else if color_like(parts[0]) {
        Some(parts[0])
    } else {
        first_color_like(parts.drop_first())
    }
}

/// The first component that is a named color.
pub open spec fn first_named_color(parts: Seq<Seq<char>>) -> Option<Seq<char>>
    decreases parts.len(),
{
    if parts.len() == 0 {
        None
    } else if named_border_color(parts[0]) {
        Some(parts[0])
    } else {
        first_named_color(parts.drop_first())
    }
}

/// `border_color`: the first component written as a color, else the first
/// named color.
pub open spec fn border_color_spec(value: Seq<char>) -> Option<Seq<char>> {
    let parts = value_components(value);
    match first_color_like(parts) {
        Some(p) => Some(p),
        None => first_named_color(parts),
    }
}

/// Whether `value` is a named color (alphabetic and not a border style).
pub fn is_named_border_color(value: &&str) -> (r: bool)
    ensures
        r == named_border_color((*value)@),
{
    let v = chars_of(*value);
    let mut i: usize = 0;
    while i < v.len()
        invariant
            v@ == (*value)@,
            i <= v@.len(),
            forall|k: int| 0 <= k < i ==> alphabetic(#[trigger] v@[k]),
        decreases v@.len() - i,
    {
        if !is_alphabetic(v[i]) {
            return false;
        }
        i = i + 1;
    }
    !(str_lower_is(*value, "solid") || str_lower_is(*value, "dashed") || str_lower_is(*value, "dotted")
        || str_lower_is(*value, "double") || str_lower_is(*value, "none"))
}

fn is_color_like(part: &str) -> (r: bool)
    ensures
        r == color_like(part@),
{
    let v = chars_of(part);
    proof {
        assert(v@.subrange(0, v@.len() as int) =~= part@);
    }
    range_starts_with(&v, 0, v.len(), "#") || range_starts_with(&v, 0, v.len(), "rgb")
}

proof fn lemma_skip_first<T>(s: Seq<T>, i: int)
    requires
        0 <= i < s.len(),
    ensures
        s.skip(i).drop_first() == s.skip(i + 1),
        s.skip(i)[0] == s[i],
        s.skip(i).len() > 0,
{
    assert(s.skip(i).drop_first() =~= s.skip(i + 1));
}

/// The color of a border value: the first component written as a color
/// (`#…` or `rgb…`), else the first named color.
pub fn border_color(value: &str) -> (r: Option<String>)
    ensures
        opt_str(r) == border_color_spec(value@),
{
    let parts = css_value_components(value);
    let ghost pv = views(parts@);
    proof {
        assert(pv.skip(0) =~= pv);
    }
    let mut i: usize = 0;
    while i < parts.len()
        invariant
            pv == views(parts@),
            pv == value_components(value@),
            i <= parts@.len(),
            first_color_like(pv) == first_color_like(pv.skip(i as int)),
        decreases parts@.len() - i,
    {
        proof {
            lemma_skip_first(pv, i as int);
        }
        if is_color_like(parts[i]) {
            return Some(String::from_str(parts[i]));
        }
        i = i + 1;
    }
    proof {
        assert(pv.skip(pv.len() as int) =~= Seq::<Seq<char>>::empty());
    }
    let mut j: usize = 0;
    while j < parts.len()
        invariant
            pv == views(parts@),
            pv == value_components(value@),
            first_color_like(pv) is None,
            j <= parts@.len(),
            first_named_color(pv) == first_named_color(pv.skip(j as int)),
        decreases parts@.len() - j,
    {
        proof {
            lemma_skip_first(pv, j as int);
        }
        if is_named_border_color(&parts[j]) {
            return Some(String::from_str(parts[j]));
        }
        j = j + 1;
    }
    proof {
        assert(pv.skip(pv.len() as int) =~= Seq::<Seq<char>>::empty());
    }
    None
}

/// The view of a list of attributes: names and values as characters.
pub open spec fn attrs_view(a: Seq<(String, String)>) -> Seq<(Seq<char>, Seq<char>)> {
    a.map_values(|p: (String, String)| (p.0@, p.1@))
}

/// The value of the first attribute whose name equals `name`, ignoring ASCII case.
pub open spec fn attribute_spec(attrs: Seq<(Seq<char>, Seq<char>)>, name: Seq<char>) -> Option<Seq<char>>
    decreases attrs.len(),
{
    if attrs.len() == 0 {
        None
    } else if eq_ci(attrs[0].0, name) {
        Some(attrs[0].1)
    } else {
        attribute_spec(attrs.drop_first(), name)
    }
}

/// The view of an optional string slice.
pub open spec fn opt_slice(r: Option<&str>) -> Option<Seq<char>> {
    match r {
        Some(s) => Some(s@),
        None => None,
    }
}

/// The value of the first attribute named `name`, ignoring ASCII case.
pub fn attribute<'a>(attributes: &'a [(String, String)], name: &str) -> (r: Option<&'a str>)
    ensures
        opt_slice(r) == attribute_spec(attrs_view(attributes@), name@),
{
    let ghost av = attrs_view(attributes@);
    proof {
        assert(av.skip(0) =~= av);
    }
    let mut i: usize = 0;
    while i < attributes.len()
        invariant
            av == attrs_view(attributes@),
            i <= attributes@.len(),
            attribute_spec(av, name@) == attribute_spec(av.skip(i as int), name@),
        decreases attributes@.len() - i,
    {
        proof {
            lemma_skip_first(av, i as int);
        }
        if str_eq_ignore_ascii_case(attributes[i].0.as_str(), name) {
            return Some(attributes[i].1.as_str());
        }
        i = i + 1;
    }
    proof {
        assert(av.skip(av.len() as int) =~= Seq::<(Seq<char>, Seq<char>)>::empty());
    }
    None
}

/// A node of the parsed document: a run of text, or an element with its
/// identifier, tag, attributes and children.
#[derive(Debug)]
pub enum HtmlDocumentNode {
    Text(String),
    Element { node_id: u64, tag: String, attributes: Vec<(String, String)>, children: Vec<HtmlDocumentNode> },
}

/// The value of a document node, with strings as characters.
pub enum NodeView {
    Text(Seq<char>),
    Element { node_id: u64, tag: Seq<char>, attributes: Seq<(Seq<char>, Seq<char>)>, children: Seq<NodeView> },
}

/// The value of a node.
pub open spec fn node_view(n: HtmlDocumentNode) -> NodeView
    decreases n, 1int,
{
    match n {
        HtmlDocumentNode::Text(t) => NodeView::Text(t@),
        HtmlDocumentNode::Element { node_id, tag, attributes, children } => NodeView::Element {
            node_id,
            tag: tag@,
            attributes: attrs_view(attributes@),
            children: nodes_view(children@),
        },
    }
}

/// The values of a sequence of nodes.
pub open spec fn nodes_view(ns: Seq<HtmlDocumentNode>) -> Seq<NodeView>
    decreases ns, 0int,
{
    if ns.len() == 0 {
        Seq::empty()
    } else {
        nodes_view(ns.drop_last()).push(node_view(ns.last()))
    }
}

impl View for HtmlDocumentNode {
    type V = NodeView;

    open spec fn view(&self) -> NodeView {
        node_view(*self)
    }
}

pub proof fn lemma_nodes_view_index(ns: Seq<HtmlDocumentNode>, i: int)
    requires
        0 <= i < ns.len(),
    ensures
        nodes_view(ns).len() == ns.len(),
        nodes_view(ns)[i] == node_view(ns[i]),
    decreases ns.len(),
{
    lemma_nodes_view_len(ns);
    if i < ns.len() - 1 {
        lemma_nodes_view_index(ns.drop_last(), i);
    }
}

pub proof fn lemma_nodes_view_len(ns: Seq<HtmlDocumentNode>)
    ensures
        nodes_view(ns).len() == ns.len(),
    decreases ns.len(),
{
    if ns.len() > 0 {
        lemma_nodes_view_len(ns.drop_last());
    }
}

pub proof fn lemma_nodes_view_take(ns: Seq<HtmlDocumentNode>, i: int)
    requires
        0 <= i < ns.len(),
    ensures
        nodes_view(ns.take(i + 1)) == nodes_view(ns.take(i)).push(node_view(ns[i])),
{
    assert(ns.take(i + 1).drop_last() =~= ns.take(i));
    assert(ns.take(i + 1).last() == ns[i]);
}

/// A copy of a list of attributes.
pub fn copy_attributes(a: &Vec<(String, String)>) -> (r: Vec<(String, String)>)
    ensures
        attrs_view(r@) == attrs_view(a@),
{
    let mut r: Vec<(String, String)> = Vec::new();
    let mut i: usize = 0;
    while i < a.len()
        invariant
            i <= a@.len(),
            attrs_view(r@) == attrs_view(a@.take(i as int)),
        decreases a@.len() - i,
    {
        let ghost before = r@;
        r.push((a[i].0.clone(), a[i].1.clone()));
        proof {
            assert(r@ =~= before.push(a@[i as int]));
            assert(a@.take(i + 1) =~= a@.take(i as int).push(a@[i as int]));
            assert(attrs_view(r@) =~= attrs_view(before).push((a@[i as int].0@, a@[i as int].1@)));
            assert(attrs_view(a@.take(i + 1)) =~= attrs_view(a@.take(i as int)).push((a@[i as int].0@, a@[i as int].1@)));
        }
        i = i + 1;
    }
    proof {
        assert(a@.take(a@.len() as int) =~= a@);
    }
    r
}

impl HtmlDocumentNode {
    /// A deep copy of the node.
    pub fn duplicate(&self) -> (r: HtmlDocumentNode)
        ensures
            r@ == self@,
        decreases self,
    {
        match self {
            HtmlDocumentNode::Text(t) => HtmlDocumentNode::Text(t.clone()),
            HtmlDocumentNode::Element { node_id, tag, attributes, children } => {
                let mut copies: Vec<HtmlDocumentNode> = Vec::new();
                let mut i: usize = 0;
                while i < children.len()
                    invariant
                        *self is Element,
                        self->children == *children,
                        i <= children@.len(),
                        nodes_view(copies@) == nodes_view(children@.take(i as int)),
                    decreases children@.len() - i,
                {
                    proof {
                        lemma_nodes_view_take(children@, i as int);
                        assert(copies@.push(children@[i as int]).drop_last() =~= copies@);
                    }
                    proof {
                        assert(decreases_to!(*self => self->children));
                        assert(decreases_to!(*children => children@));
                        assert(decreases_to!(children@ => children@[i as int]));
                    }
                    let c = children[i].duplicate();
                    let ghost before = copies@;
                    copies.push(c);
                    proof {
                        assert(copies@.drop_last() =~= before);
                    }
                    i = i + 1;
                }
                proof {
                    assert(children@.take(children@.len() as int) =~= children@);
                }
                HtmlDocumentNode::Element {
                    node_id: *node_id,
                    tag: tag.clone(),
                    attributes: copy_attributes(attributes),
                    children: copies,
                }
            },
        }
    }
}

impl Clone for HtmlDocumentNode {
    fn clone(&self) -> (r: Self)
        ensures
            r@ == self@,
    {
        self.duplicate()
    }
}

/// A copy of a list of nodes.
pub fn copy_nodes(ns: &[HtmlDocumentNode]) -> (r: Vec<HtmlDocumentNode>)
    ensures
        nodes_view(r@) == nodes_view(ns@),
{
    let mut r: Vec<HtmlDocumentNode> = Vec::new();
    let mut i: usize = 0;
    while i < ns.len()
        invariant
            i <= ns@.len(),
            nodes_view(r@) == nodes_view(ns@.take(i as int)),
        decreases ns@.len() - i,
    {
        proof {
            lemma_nodes_view_take(ns@, i as int);
        }
        let c = ns[i].duplicate();
        let ghost before = r@;
        r.push(c);
        proof {
            assert(r@.drop_last() =~= before);
        }
        i = i + 1;
    }
    proof {
        assert(ns@.take(ns@.len() as int) =~= ns@);
    }
    r
}

/// The text a node contributes before whitespace is collapsed: its text,
/// a line break for `<br>`, or the text of its children.
pub open spec fn raw_text(n: NodeView) -> Seq<char>
    decreases n, 1int,
{
    match n {
        NodeView::Text(t) => t,
        NodeView::Element { tag, children, .. } => if tag == "br"@ {
            seq!['\n']
        } else {
            raw_texts(children)
        },
    }
}

/// The text of a sequence of nodes before whitespace is collapsed.
pub open spec fn raw_texts(ns: Seq<NodeView>) -> Seq<char>
    decreases ns, 0int,
{
    if ns.len() == 0 {
        Seq::empty()
    } else {
        raw_texts(ns.drop_last()) + raw_text(ns.last())
    }
}

/// A line with each run of whitespace collapsed to one space and none at
/// either end.
pub open spec fn collapse_line(line: Seq<char>) -> Seq<char> {
    join_with(whitespace_tokens(line), " "@)
}

/// `node_text`: the text of the nodes, line by line with whitespace
/// collapsed, explicit breaks kept.
pub open spec fn node_text_spec(ns: Seq<NodeView>) -> Seq<char> {
    join_with(split_char_spec(raw_texts(ns), '\n').map_values(|l: Seq<char>| collapse_line(l)), seq!['\n'])
}

/// Appends the text of `node` (a line break for `<br>`) to `text`.
pub fn append_node_text(node: &HtmlDocumentNode, text: &mut String)
    ensures
        final(text)@ == old(text)@ + raw_text(node@),
    decreases node,
{
    match node {
        HtmlDocumentNode::Text(value) => {
            text.append(value.as_str());
        },
        HtmlDocumentNode::Element { tag, children, .. } => {
            if str_is(tag.as_str(), "br") {
                push_char(text, '\n');
                proof {
                    assert(old(text)@.push('\n') =~= old(text)@ + seq!['\n']);
                }
                return;
            }
            let ghost start = text@;
            let mut i: usize = 0;
            while i < children.len()
                invariant
                    *node is Element,
                    node->children == *children,
                    i <= children@.len(),
                    text@ == start + raw_texts(nodes_view(children@.take(i as int))),
                decreases children@.len() - i,
            {
                proof {
                    assert(decreases_to!(*node => node->children));
                    assert(decreases_to!(*children => children@));
                    assert(decreases_to!(children@ => children@[i as int]));
                    lemma_nodes_view_take(children@, i as int);
                    let p = nodes_view(children@.take(i as int));
                    assert(p.push(node_view(children@[i as int])).drop_last() =~= p);
                }
                let ghost before = text@;
                append_node_text(&children[i], text);
                proof {
                    let p = nodes_view(children@.take(i as int));
                    assert(text@ =~= start + raw_texts(p.push(node_view(children@[i as int]))));
                }
                i = i + 1;
            }
            proof {
                assert(children@.take(children@.len() as int) =~= children@);
            }
        },
    }
}

/// A line with its whitespace collapsed (see `collapse_line`).
pub fn collapse_whitespace(line: &str) -> (r: String)
    ensures
        r@ == collapse_line(line@),
{
    let tokens = split_whitespace(line);
    join_strs(&tokens, " ")
}

/// The text of the nodes: line breaks from `<br>` and from the text kept,
/// and within each line every run of whitespace collapsed to one space.
pub fn node_text(nodes: &[HtmlDocumentNode]) -> (r: String)
    ensures
        r@ == node_text_spec(nodes_view(nodes@)),
{
    let mut raw = String::new();
    let mut i: usize = 0;
    while i < nodes.len()
        invariant
            i <= nodes@.len(),
            raw@ == raw_texts(nodes_view(nodes@.take(i as int))),
        decreases nodes@.len() - i,
    {
        proof {
            lemma_nodes_view_take(nodes@, i as int);
            let p = nodes_view(nodes@.take(i as int));
            assert(p.push(node_view(nodes@[i as int])).drop_last() =~= p);
        }
        append_node_text(&nodes[i], &mut raw);
        i = i + 1;
    }
    proof {
        assert(nodes@.take(nodes@.len() as int) =~= nodes@);
    }
    let lines = split_char(raw.as_str(), '\n');
    let ghost mapped = views(lines@).map_values(|l: Seq<char>| collapse_line(l));
    let mut out = String::new();
    let mut k: usize = 0;
    while k < lines.len()
        invariant
            mapped == views(lines@).map_values(|l: Seq<char>| collapse_line(l)),
            k <= lines@.len(),
            out@ == join_with(mapped.take(k as int), seq!['\n']),
        decreases lines@.len() - k,
    {
        proof {
            assert(mapped.take(k + 1).drop_last() =~= mapped.take(k as int));
            assert(mapped.take(k + 1).last() == mapped[k as int]);
        }
        let collapsed = collapse_whitespace(lines[k]);
        if k > 0 {
            let ghost before = out@;
            push_char(&mut out, '\n');
            proof {
                assert(out@ =~= before + seq!['\n']);
            }
        } else {
            proof {
                assert(mapped.take(1) =~= seq![mapped[0]]);
                assert(out@ + mapped[0] =~= mapped[0]);
            }
        }
        out.append(collapsed.as_str());
        k = k + 1;
    }
    proof {
        assert(mapped.take(mapped.len() as int) =~= mapped);
    }
    out
}

/// A cell of a table row: its tag, attributes and children, copied.
#[derive(Debug)]
pub struct TableCell {
    pub tag: String,
    pub attributes: Vec<(String, String)>,
    pub children: Vec<HtmlDocumentNode>,
}

/// The value of a cell.
pub open spec fn cell_view(c: TableCell) -> (Seq<char>, Seq<(Seq<char>, Seq<char>)>, Seq<NodeView>) {
    (c.tag@, attrs_view(c.attributes@), nodes_view(c.children@))
}

/// The value of a row.
pub open spec fn row_view(r: Vec<TableCell>) -> Seq<(Seq<char>, Seq<(Seq<char>, Seq<char>)>, Seq<NodeView>)> {
    r@.map_values(|c: TableCell| cell_view(c))
}

/// The values of a list of rows.
pub open spec fn rows_view(rows: Seq<Vec<TableCell>>) -> Seq<Seq<(Seq<char>, Seq<(Seq<char>, Seq<char>)>, Seq<NodeView>)>> {
    rows.map_values(|r: Vec<TableCell>| row_view(r))
}

/// The cell a node stands for: a `th` or `td` element.
pub open spec fn table_cell_spec(n: NodeView) -> Option<(Seq<char>, Seq<(Seq<char>, Seq<char>)>, Seq<NodeView>)> {
    match n {
        NodeView::Element { tag, attributes, children, .. } => if tag == "th"@ || tag == "td"@ {
            Some((tag, attributes, children))
        } else {
            None
        },
        NodeView::Text(_) => None,
    }
}

/// The cells among a row's children, in order.
pub open spec fn cells_of(ns: Seq<NodeView>) -> Seq<(Seq<char>, Seq<(Seq<char>, Seq<char>)>, Seq<NodeView>)>
    decreases ns.len(),
{
    if ns.len() == 0 {
        Seq::empty()
    } else {
        match table_cell_spec(ns.last()) {
            Some(c) => cells_of(ns.drop_last()).push(c),
            None => cells_of(ns.drop_last()),
        }
    }
}

/// The rows in a node: a `tr` with at least one cell is a row; any other
/// element is searched; text holds none.
pub open spec fn rows_in(n: NodeView) -> Seq<Seq<(Seq<char>, Seq<(Seq<char>, Seq<char>)>, Seq<NodeView>)>>
    decreases n, 1int,
{
    match n {
        NodeView::Element { tag, children, .. } => if tag == "tr"@ {
            let cells = cells_of(children);
            if cells.len() > 0 {
                seq![cells]
            } else {
                Seq::empty()
            }
        } else {
            rows_of(children)
        },
        NodeView::Text(_) => Seq::empty(),
    }
}

/// The rows of a sequence of nodes, in document order.
pub open spec fn rows_of(ns: Seq<NodeView>) -> Seq<Seq<(Seq<char>, Seq<(Seq<char>, Seq<char>)>, Seq<NodeView>)>>
    decreases ns, 0int,
{
    if ns.len() == 0 {
        Seq::empty()
    } else {
        rows_of(ns.drop_last()) + rows_in(ns.last())
    }
}

/// The table cell a node stands for, copied.
pub fn table_cell(node: &HtmlDocumentNode) -> (r: Option<TableCell>)
    ensures
        match r {
            Some(c) => table_cell_spec(node@) == Some(cell_view(c)),
            None => table_cell_spec(node@) is None,
        },
{
    match node {
        HtmlDocumentNode::Element { tag, attributes, children, .. } => {
            if str_is(tag.as_str(), "th") || str_is(tag.as_str(), "td") {
                Some(TableCell {
                    tag: tag.clone(),
                    attributes: copy_attributes(attributes),
                    children: copy_nodes(children.as_slice()),
                })
            } else {
                None
            }
        },
        HtmlDocumentNode::Text(_) => None,
    }
}

/// Appends the row made of the cells among `children`, if there are any.
pub fn push_table_row(children: &[HtmlDocumentNode], rows: &mut Vec<Vec<TableCell>>)
    ensures
        rows_view(final(rows)@) == rows_view(old(rows)@) + (if cells_of(nodes_view(children@)).len() > 0 {
            seq![cells_of(nodes_view(children@))]
        } else {
            Seq::empty()
        }),
{
    let mut cells: Vec<TableCell> = Vec::new();
    let mut i: usize = 0;
    while i < children.len()
        invariant
            i <= children@.len(),
            row_view(cells) == cells_of(nodes_view(children@.take(i as int))),
        decreases children@.len() - i,
    {
        proof {
            lemma_nodes_view_take(children@, i as int);
            let p = nodes_view(children@.take(i as int));
            assert(p.push(node_view(children@[i as int])).drop_last() =~= p);
        }
        let ghost before = cells@;
        match table_cell(&children[i]) {
            Some(c) => {
                cells.push(c);
                proof {
                    assert(row_view(cells) =~= before.map_values(|c: TableCell| cell_view(c)).push(cell_view(c)));
                }
            },
            None => {},
        }
        i = i + 1;
    }
    proof {
        assert(children@.take(children@.len() as int) =~= children@);
    }
    if cells.len() > 0 {
        let ghost before = rows@;
        rows.push(cells);
        proof {
            assert(rows_view(rows@) =~= rows_view(before) + seq![row_view(cells)]);
        }
    } else {
        proof {
            assert(rows_view(rows@) + Seq::empty() =~= rows_view(rows@));
        }
    }
}

/// Appends the rows found in `nodes` (see `rows_of`).
pub fn collect_table_rows(nodes: &[HtmlDocumentNode], rows: &mut Vec<Vec<TableCell>>)
    ensures
        rows_view(final(rows)@) == rows_view(old(rows)@) + rows_of(nodes_view(nodes@)),
    decreases nodes@,
{
    let ghost start = rows_view(rows@);
    let mut i: usize = 0;
    while i < nodes.len()
        invariant
            i <= nodes@.len(),
            rows_view(rows@) == start + rows_of(nodes_view(nodes@.take(i as int))),
        decreases nodes@.len() - i,
    {
        proof {
            lemma_nodes_view_take(nodes@, i as int);
            let p = nodes_view(nodes@.take(i as int));
            assert(p.push(node_view(nodes@[i as int])).drop_last() =~= p);
        }
        let ghost before = rows_view(rows@);
        match &nodes[i] {
            HtmlDocumentNode::Element { tag, children, .. } => {
                if str_is(tag.as_str(), "tr") {
                    push_table_row(children.as_slice(), rows);
                } else {
                    proof {
                        assert(decreases_to!(nodes@ => nodes@[i as int]));
                        assert(decreases_to!(nodes@[i as int] => nodes@[i as int]->children));
                        assert(decreases_to!(nodes@[i as int]->children => nodes@[i as int]->children@));
                    }
                    collect_table_rows(children.as_slice(), rows);
                }
            },
            HtmlDocumentNode::Text(_) => {
                proof {
                    assert(before + Seq::empty() =~= before);
                }
            },
        }
        proof {
            let p = nodes_view(nodes@.take(i as int));
            assert(start + rows_of(p.push(node_view(nodes@[i as int]))) =~= (start + rows_of(p)) + rows_in(node_view(nodes@[i as int])));
        }
        i = i + 1;
    }
    proof {
        assert(nodes@.take(nodes@.len() as int) =~= nodes@);
    }
}

/// The rows of the tables in `nodes`: every `tr` with at least one `th` or
/// `td` child, its cells copied, in document order.
pub fn table_rows(nodes: &[HtmlDocumentNode]) -> (r: Vec<Vec<TableCell>>)
    ensures
        rows_view(r@) == rows_of(nodes_view(nodes@)),
{
    let mut rows: Vec<Vec<TableCell>> = Vec::new();
    collect_table_rows(nodes, &mut rows);
    proof {
        assert(rows_view(Seq::<Vec<TableCell>>::empty()) + rows_of(nodes_view(nodes@)) =~= rows_of(nodes_view(nodes@)));
    }
    rows
}

/// Whether a tag is an input control.
pub open spec fn is_input_tag_spec(tag: Seq<char>) -> bool {
    tag == "input"@ || tag == "textarea"@
}

/// The initial value of an input: its `value` attribute, else empty.
pub open spec fn initial_value_spec(attrs: Seq<(Seq<char>, Seq<char>)>) -> Seq<char> {
    match attribute_spec(attrs, "value"@) {
        Some(v) => v,
        None => Seq::empty(),
    }
}

/// A map of input values, with the values as characters.
pub open spec fn string_map(m: Map<u64, String>) -> Map<u64, Seq<char>> {
    Map::new(|k: u64| m.contains_key(k), |k: u64| m[k]@)
}

/// The input values after seeding a node: an input without a value yet
/// gets its initial value, then its children are seeded.
pub open spec fn seeded_node(m: Map<u64, Seq<char>>, n: NodeView) -> Map<u64, Seq<char>>
    decreases n, 1int,
{
    match n {
        NodeView::Element { node_id, tag, attributes, children } => {
            let m1 = if is_input_tag_spec(tag) && !m.contains_key(node_id) {
                m.insert(node_id, initial_value_spec(attributes))
            } else {
                m
            };
            seeded(m1, children)
        },
        NodeView::Text(_) => m,
    }
}

/// The input values after seeding a sequence of nodes in document order.
pub open spec fn seeded(m: Map<u64, Seq<char>>, ns: Seq<NodeView>) -> Map<u64, Seq<char>>
    decreases ns, 0int,
{
    if ns.len() == 0 {
        m
    } else {
        seeded_node(seeded(m, ns.drop_last()), ns.last())
    }
}

/// Whether the node, or a node below it, is an input control with the id `id`.
pub open spec fn has_input_node(n: NodeView, id: u64) -> bool
    decreases n, 1int,
{
    match n {
        NodeView::Element { node_id, tag, attributes, children } => (is_input_tag_spec(tag) && node_id == id)
            || has_input(children, id),
        NodeView::Text(_) => false,
    }
}

/// Whether one of the nodes, or a node below them, is an input control with
/// the id `id`.
pub open spec fn has_input(ns: Seq<NodeView>, id: u64) -> bool
    decreases ns, 0int,
{
    if ns.len() == 0 {
        false
    } else {
        has_input(ns.drop_last(), id) || has_input_node(ns.last(), id)
    }
}

/// Whether `tag` is an input control (`input` or `textarea`).
pub fn is_input_tag(tag: &str) -> (r: bool)
    ensures
        r == is_input_tag_spec(tag@),
{
    str_is(tag, "input") || str_is(tag, "textarea")
}

/// The initial value of an input: its `value` attribute, else empty.
pub fn input_initial_value(attributes: &[(String, String)]) -> (r: String)
    ensures
        r@ == initial_value_spec(attrs_view(attributes@)),
{
    match attribute(attributes, "value") {
        Some(v) => String::from_str(v),
        None => String::new(),
    }
}

/// Gives every input in `node` that has no value yet its initial value.
pub fn seed_node_input_value(node: &HtmlDocumentNode, values: &mut HashMap<u64, String>)
    ensures
        string_map(final(values)@) == seeded_node(string_map(old(values)@), node@),
    decreases node,
{
    broadcast use vstd::std_specs::hash::group_hash_axioms;
    match node {
        HtmlDocumentNode::Element { node_id, tag, attributes, children } => {
            let ghost before = values@;
            if is_input_tag(tag.as_str()) && !values.contains_key(node_id) {
                let initial = input_initial_value(attributes.as_slice());
                values.insert(*node_id, initial);
                proof {
                    assert(string_map(values@) =~= string_map(before).insert(*node_id, initial@));
                }
            }
            proof {
                assert(decreases_to!(*node => node->children));
                assert(decreases_to!(node->children => node->children@));
            }
            seed_input_values(children.as_slice(), values);
        },
        HtmlDocumentNode::Text(_) => {},
    }
}

/// Gives every input in `nodes` that has no value yet its initial value, in
/// document order.
pub fn seed_input_values(nodes: &[HtmlDocumentNode], values: &mut HashMap<u64, String>)
    ensures
        string_map(final(values)@) == seeded(string_map(old(values)@), nodes_view(nodes@)),
    decreases nodes@,
{
    let ghost start = string_map(values@);
    let mut i: usize = 0;
    while i < nodes.len()
        invariant
            i <= nodes@.len(),
            string_map(values@) == seeded(start, nodes_view(nodes@.take(i as int))),
        decreases nodes@.len() - i,
    {
        proof {
            lemma_nodes_view_take(nodes@, i as int);
            let p = nodes_view(nodes@.take(i as int));
            assert(p.push(node_view(nodes@[i as int])).drop_last() =~= p);
            assert(decreases_to!(nodes@ => nodes@[i as int]));
        }
        seed_node_input_value(&nodes[i], values);
        i = i + 1;
    }
    proof {
        assert(nodes@.take(nodes@.len() as int) =~= nodes@);
    }
}

/// The characters of a list of strings.
pub open spec fn strings_view(v: Seq<String>) -> Seq<Seq<char>> {
    v.map_values(|s: String| s@)
}

/// The number of terminal columns that `text` takes.
pub fn text_display_columns(text: &str) -> (r: usize)
    ensures
        r == display_columns(text@),
{
    str_width(text)
}

/// Adds a breakable segment to the line being filled: where the line is
/// not empty and the segment would take it past `capacity` columns, the
/// line (without trailing whitespace) is finished and the segment (without
/// leading whitespace) starts the next one; otherwise the segment is appended.
pub fn append_breakable_segment(segment: &str, capacity: usize, line: &mut String, lines: &mut Vec<String>)
    ensures
        ({
            let breaks = old(line)@.len() > 0 && display_columns(old(line)@) + display_columns(segment@) > capacity;
            &&& breaks ==> strings_view(final(lines)@) == strings_view(old(lines)@).push(trim_end(old(line)@))
                && final(line)@ == trim_start(segment@)
            &&& !breaks ==> final(lines)@ == old(lines)@ && final(line)@ == old(line)@ + segment@
        }),
{
    let line_columns = text_display_columns(line.as_str()) as u128;
    let segment_columns = text_display_columns(segment) as u128;
    if line.as_str().unicode_len() > 0 && line_columns + segment_columns > capacity as u128 {
        let finished = String::from_str(trim_end_str(line.as_str()));
        let ghost before = lines@;
        lines.push(finished);
        proof {
            assert(strings_view(lines@) =~= strings_view(before).push(trim_end(old(line)@)));
        }
        *line = String::from_str(trim_start_str(segment));
        return;
    }
    line.append(segment);
}

/// Finishes a wrapped line: appends it without trailing whitespace.
pub fn push_wrapped_line(line: String, lines: &mut Vec<String>)
    ensures
        strings_view(final(lines)@) == strings_view(old(lines)@).push(trim_end(line@)),
{
    let finished = String::from_str(trim_end_str(line.as_str()));
    let ghost before = lines@;
    lines.push(finished);
    proof {
        assert(strings_view(lines@) =~= strings_view(before).push(trim_end(line@)));
    }
}

} // verus!
