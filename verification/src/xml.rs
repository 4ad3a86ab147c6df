//! XML elements as plain values, read and written by xmltree.
use vstd::prelude::*;

use crate::text::{chars_of, seq_eq};

verus! {

/// A node of an XML element's content.
#[derive(Debug)]
pub enum XmlNode {
    Element(XmlElement),
    Comment(String),
    CData(String),
    Text(String),
    ProcessingInstruction(String, Option<String>),
}

/// An XML element: its name and namespace, its attributes in document order,
/// and its content.
#[derive(Debug)]
pub struct XmlElement {
    pub prefix: Option<String>,
    pub namespace: Option<String>,
    pub namespaces: Option<Vec<(String, String)>>,
    pub name: String,
    pub attributes: Vec<(String, String)>,
    pub children: Vec<XmlNode>,
}

pub enum XmlNodeView {
    Element(XmlElementView),
    Comment(Seq<char>),
    CData(Seq<char>),
    Text(Seq<char>),
    ProcessingInstruction(Seq<char>, Option<Seq<char>>),
}

pub struct XmlElementView {
    pub prefix: Option<Seq<char>>,
    pub namespace: Option<Seq<char>>,
    pub namespaces: Option<Seq<(Seq<char>, Seq<char>)>>,
    pub name: Seq<char>,
    pub attributes: Seq<(Seq<char>, Seq<char>)>,
    pub children: Seq<XmlNodeView>,
}

pub open spec fn opt_chars(o: Option<String>) -> Option<Seq<char>> {
    match o {
        Some(s) => Some(s@),
        None => None,
    }
}

pub open spec fn pair_views(v: Seq<(String, String)>) -> Seq<(Seq<char>, Seq<char>)> {
    v.map_values(|p: (String, String)| (p.0@, p.1@))
}

pub open spec fn opt_pairs(o: Option<Vec<(String, String)>>) -> Option<Seq<(Seq<char>, Seq<char>)>> {
    match o {
        Some(v) => Some(pair_views(v@)),
        None => None,
    }
}

pub open spec fn element_view(e: XmlElement) -> XmlElementView
    decreases e,
{
    XmlElementView {
        prefix: opt_chars(e.prefix),
        namespace: opt_chars(e.namespace),
        namespaces: opt_pairs(e.namespaces),
        name: e.name@,
        attributes: pair_views(e.attributes@),
        children: nodes_view(e.children@),
    }
}

pub open spec fn node_view(n: XmlNode) -> XmlNodeView
    decreases n,
{
    match n {
        XmlNode::Element(e) => XmlNodeView::Element(element_view(e)),
        XmlNode::Comment(s) => XmlNodeView::Comment(s@),
        XmlNode::CData(s) => XmlNodeView::CData(s@),
        XmlNode::Text(s) => XmlNodeView::Text(s@),
        XmlNode::ProcessingInstruction(a, b) => XmlNodeView::ProcessingInstruction(a@, opt_chars(b)),
    }
}

pub open spec fn nodes_view(s: Seq<XmlNode>) -> Seq<XmlNodeView>
    decreases s,
{
    if s.len() == 0 {
        seq![]
    } else {
        nodes_view(s.drop_last()).push(node_view(s.last()))
    }
}

impl View for XmlElement {
    type V = XmlElementView;

    open spec fn view(&self) -> XmlElementView {
        element_view(*self)
    }
}

impl View for XmlNode {
    type V = XmlNodeView;

    open spec fn view(&self) -> XmlNodeView {
        node_view(*self)
    }
}

pub proof fn lemma_nodes_view(s: Seq<XmlNode>)
    ensures
        nodes_view(s).len() == s.len(),
        forall|i: int| 0 <= i < s.len() ==> #[trigger] nodes_view(s)[i] == node_view(s[i]),
    decreases s.len(),
{
    if s.len() > 0 {
        lemma_nodes_view(s.drop_last());
        assert forall|i: int| 0 <= i < s.len() implies #[trigger] nodes_view(s)[i] == node_view(
            s[i],
        ) by {
            if i < s.len() - 1 {
                assert(s.drop_last()[i] == s[i]);
            }
        }
    }
}

pub open spec fn opt_element_view(o: Option<XmlElement>) -> Option<XmlElementView> {
    match o {
        Some(e) => Some(e@),
        None => None,
    }
}

// ---------------------------------------------------------------------------
// Reading and writing with xmltree
// ---------------------------------------------------------------------------

#[verifier::external_type_specification]
#[verifier::external_body]
pub struct ExXmlTreeElement(xmltree::Element);

#[verifier::external_type_specification]
#[verifier::external_body]
pub struct ExXmlTreeNode(xmltree::XMLNode);

/// Moves an `xmltree::Element` into an `XmlElement`, field by field: the
/// namespace map and the attribute map become lists in their own order.
/// Nothing is claimed of it; the callers' names cover the whole read.
#[verifier::external_body]
fn element_from_xmltree(e: xmltree::Element) -> XmlElement {
    XmlElement {
        prefix: e.prefix,
        namespace: e.namespace,
        namespaces: e.namespaces.map(|n| n.0.into_iter().collect()),
        name: e.name,
        attributes: e.attributes.into_iter().collect(),
        children: e.children.into_iter().map(node_from_xmltree).collect(),
    }
}

/// Moves an `xmltree::XMLNode` into an `XmlNode`, variant by variant.
#[verifier::external_body]
fn node_from_xmltree(n: xmltree::XMLNode) -> XmlNode {
    match n {
        xmltree::XMLNode::Element(e) => XmlNode::Element(element_from_xmltree(e)),
        xmltree::XMLNode::Comment(s) => XmlNode::Comment(s),
        xmltree::XMLNode::CData(s) => XmlNode::CData(s),
        xmltree::XMLNode::Text(s) => XmlNode::Text(s),
        xmltree::XMLNode::ProcessingInstruction(a, b) => XmlNode::ProcessingInstruction(a, b),
    }
}

/// Copies an `XmlElement` into an `xmltree::Element`, field by field.
#[verifier::external_body]
fn element_to_xmltree(e: &XmlElement) -> xmltree::Element {
    xmltree::Element {
        prefix: e.prefix.clone(),
        namespace: e.namespace.clone(),
        namespaces: e.namespaces.clone().map(|n| xmltree::Namespace(n.into_iter().collect())),
        name: e.name.clone(),
        attributes: e.attributes.iter().cloned().collect(),
        children: e.children.iter().map(node_to_xmltree).collect(),
    }
}

/// Copies an `XmlNode` into an `xmltree::XMLNode`, variant by variant.
#[verifier::external_body]
fn node_to_xmltree(n: &XmlNode) -> xmltree::XMLNode {
    match n {
        XmlNode::Element(e) => xmltree::XMLNode::Element(element_to_xmltree(e)),
        XmlNode::Comment(s) => xmltree::XMLNode::Comment(s.clone()),
        XmlNode::CData(s) => xmltree::XMLNode::CData(s.clone()),
        XmlNode::Text(s) => xmltree::XMLNode::Text(s.clone()),
        XmlNode::ProcessingInstruction(a, b) => xmltree::XMLNode::ProcessingInstruction(
            a.clone(),
            b.clone(),
        ),
    }
}

/// The element xmltree reads from a text as a whole document, with whitespace
/// kept as text; `None` where it refuses the text.
pub uninterp spec fn keep_whitespace_parse(text: Seq<char>) -> Option<XmlElementView>;

/// A fragment of stanzas is read inside an `<xml>` root.
pub open spec fn fragment_parse(text: Seq<char>) -> Option<XmlElementView> {
    keep_whitespace_parse("<xml>"@ + text + "</xml>"@)
}

/// The element xmltree reads from a text as a whole document (default
/// settings); `None` where it refuses the text.
pub uninterp spec fn document_parse(text: Seq<char>) -> Option<XmlElementView>;

/// The text xmltree writes for an element (no declaration, no indentation);
/// `None` where writing fails.
pub uninterp spec fn element_text_of(e: XmlElementView) -> Option<Seq<char>>;

/// `xmltree::Element::parse_with_config` on the text, with
/// `whitespace_to_characters(true)`. The contract claims only that the result
/// is a function of the text, named `keep_whitespace_parse`.
#[verifier::external_body]
fn parse_keeping_whitespace(text: &str) -> (r: Option<XmlElement>)
    ensures
        opt_element_view(r) == keep_whitespace_parse(text@),
{
    xmltree::Element::parse_with_config(
        std::io::Cursor::new(text.as_bytes()),
        xmltree::ParserConfig::new().whitespace_to_characters(true),
    ).ok().map(element_from_xmltree)
}

/// Reads a fragment of stanzas: the text inside an `<xml>` root.
pub(crate) fn parse_fragment(text: &str) -> (r: Option<XmlElement>)
    ensures
        opt_element_view(r) == fragment_parse(text@),
{
    let wrapped = crate::text::concat3("<xml>", text, "</xml>");
    parse_keeping_whitespace(wrapped.as_str())
}

/// `xmltree::Element::parse` on the text. The contract claims only that the
/// result is a function of the text, named `document_parse`.
#[verifier::external_body]
pub(crate) fn parse_document(text: &str) -> (r: Option<XmlElement>)
    ensures
        opt_element_view(r) == document_parse(text@),
{
    xmltree::Element::parse(std::io::Cursor::new(text.as_bytes())).ok().map(element_from_xmltree)
}

/// `xmltree::Element::write_with_config` without a document declaration or
/// indentation, read back as UTF-8. The contract claims only that the result
/// is a function of the element, named `element_text_of`.
#[verifier::external_body]
pub(crate) fn serialize_element(e: &XmlElement) -> (r: Option<String>)
    ensures
        opt_chars(r) == element_text_of(e@),
{
    let mut out = Vec::new();
    element_to_xmltree(e).write_with_config(
        &mut out,
        xmltree::EmitterConfig::new().write_document_declaration(false).perform_indent(false),
    ).ok()?;
    String::from_utf8(out).ok()
}

// ---------------------------------------------------------------------------
// Reading an element
// ---------------------------------------------------------------------------

/// The value of the first attribute named `name`.
pub open spec fn attribute(attrs: Seq<(Seq<char>, Seq<char>)>, name: Seq<char>) -> Option<Seq<char>>
    decreases attrs.len(),
{
    if attrs.len() == 0 {
        None
    } else if attrs[0].0 == name {
        Some(attrs[0].1)
    } else {
        attribute(attrs.drop_first(), name)
    }
}

/// The value of an attribute of an element.
pub fn get_attribute<'a>(e: &'a XmlElement, name: &str) -> (r: Option<&'a String>)
    ensures
        match r {
            Some(v) => attribute(e@.attributes, name@) == Some(v@),
            None => attribute(e@.attributes, name@) is None,
        },
{
    let n = chars_of(name);
    let mut i: usize = 0;
    let ghost attrs = pair_views(e.attributes@);
    assert(attrs.skip(0) =~= attrs);
    while i < e.attributes.len()
        invariant
            i <= e.attributes@.len(),
            attrs == pair_views(e.attributes@),
            attrs == e@.attributes,
            n@ == name@,
            attribute(attrs, name@) == attribute(attrs.skip(i as int), name@),
        decreases e.attributes@.len() - i,
    {
        let ghost rest = attrs.skip(i as int);
        assert(rest[0] == (e.attributes@[i as int].0@, e.attributes@[i as int].1@));
        let k = chars_of(e.attributes[i].0.as_str());
        if seq_eq(k.as_slice(), n.as_slice()) {
            return Some(&e.attributes[i].1);
        }
        assert(rest.drop_first() =~= attrs.skip(i + 1));
        i += 1;
    }
    None
}

/// Whether an element has an attribute named `name`.
pub fn has_attribute(e: &XmlElement, name: &str) -> (r: bool)
    ensures
        r == attribute(e@.attributes, name@) is Some,
{
    get_attribute(e, name).is_some()
}

/// Whether a node is an element named `name`.
pub open spec fn is_element_named(n: XmlNodeView, name: Seq<char>) -> bool {
    match n {
        XmlNodeView::Element(c) => c.name == name,
        _ => false,
    }
}

/// Index of the first child element named `name`.
pub open spec fn is_first_child(children: Seq<XmlNodeView>, name: Seq<char>, i: int) -> bool {
    &&& 0 <= i < children.len()
    &&& is_element_named(children[i], name)
    &&& forall|k: int|
        0 <= k < i ==> !is_element_named(children[k], name)
}

pub open spec fn has_child(children: Seq<XmlNodeView>, name: Seq<char>) -> bool {
    exists|i: int| 0 <= i < children.len() && is_element_named(children[i], name)
}

/// The first child element named `name`.
pub open spec fn child(e: XmlElementView, name: Seq<char>) -> Option<XmlElementView> {
    if has_child(e.children, name) {
        let i = choose|i: int| is_first_child(e.children, name, i);
        match e.children[i] {
            XmlNodeView::Element(c) => Some(c),
            _ => None,
        }
    } else {
        None
    }
}

pub proof fn lemma_first_child_unique(children: Seq<XmlNodeView>, name: Seq<char>, i: int, j: int)
    requires
        is_first_child(children, name, i),
        is_first_child(children, name, j),
    ensures
        i == j,
{
}

pub proof fn lemma_has_first_child(children: Seq<XmlNodeView>, name: Seq<char>)
    requires
        has_child(children, name),
    ensures
        exists|i: int| is_first_child(children, name, i),
    decreases children.len(),
{
    let j = choose|j: int| 0 <= j < children.len() && is_element_named(children[j], name);
    if !is_first_child(children, name, j) {
        let k = choose|k: int| 0 <= k < j && is_element_named(children[k], name);
        assert(has_child(children.take(j), name)) by {
            assert(children.take(j)[k] == children[k]);
        }
        lemma_has_first_child(children.take(j), name);
        let m = choose|m: int| is_first_child(children.take(j), name, m);
        assert(children.take(j)[m] == children[m]);
        assert forall|q: int| 0 <= q < m implies !is_element_named(children[q], name) by {
            assert(children.take(j)[q] == children[q]);
        }
        assert(is_first_child(children, name, m));
    }
}

/// Finds the first child element named `name`.
pub fn child_index(e: &XmlElement, name: &str) -> (r: Option<usize>)
    ensures
        match r {
            Some(i) => is_first_child(e@.children, name@, i as int) && i < e.children@.len(),
            None => !has_child(e@.children, name@),
        },
{
    let n = chars_of(name);
    let mut i: usize = 0;
    proof {
        lemma_nodes_view(e.children@);
    }
    while i < e.children.len()
        invariant
            i <= e.children@.len() == e@.children.len(),
            e@.children == nodes_view(e.children@),
            forall|k: int| 0 <= k < e.children@.len() ==> #[trigger] e@.children[k] == node_view(e.children@[k]),
            n@ == name@,
            forall|k: int|
                0 <= k < i ==> !is_element_named(e@.children[k], name@),
        decreases e.children@.len() - i,
    {
        match &e.children[i] {
            XmlNode::Element(c) => {
                let cn = chars_of(c.name.as_str());
                if seq_eq(cn.as_slice(), n.as_slice()) {
                    assert(e@.children[i as int] == node_view(e.children@[i as int]));
                    return Some(i);
                }
            },
            _ => {},
        }
        assert(e@.children[i as int] == node_view(e.children@[i as int]));
        i += 1;
    }
    None
}

/// The text and CDATA children of an element, joined, or `None` when it has
/// none (`Element::get_text`).
pub open spec fn text_of(children: Seq<XmlNodeView>) -> Option<Seq<char>>
    decreases children.len(),
{
    if children.len() == 0 {
        None
    } else {
        let prev = text_of(children.drop_last());
        match children.last() {
            XmlNodeView::Text(t) | XmlNodeView::CData(t) => match prev {
                Some(p) => Some(p + t),
                None => Some(t),
            },
            _ => prev,
        }
    }
}

pub fn get_text(e: &XmlElement) -> (r: Option<String>)
    ensures
        opt_chars(r) == text_of(e@.children),
{
    let mut out: Option<String> = None;
    let mut i: usize = 0;
    proof {
        lemma_nodes_view(e.children@);
    }
    while i < e.children.len()
        invariant
            i <= e.children@.len() == e@.children.len(),
            e@.children == nodes_view(e.children@),
            forall|k: int| 0 <= k < e.children@.len() ==> #[trigger] e@.children[k] == node_view(e.children@[k]),
            opt_chars(out) == text_of(e@.children.take(i as int)),
        decreases e.children@.len() - i,
    {
        assert(e@.children.take(i + 1).drop_last() =~= e@.children.take(i as int));
        assert(e@.children.take(i + 1).last() == node_view(e.children@[i as int]));
        match &e.children[i] {
            XmlNode::Text(t) | XmlNode::CData(t) => {
                out = match out {
                    Some(mut p) => {
                        crate::text::push_str(&mut p, t.as_str());
                        Some(p)
                    },
                    None => Some(t.clone()),
                };
            },
            _ => {},
        }
        i += 1;
    }
    assert(e@.children.take(e.children@.len() as int) =~= e@.children);
    out
}

/// The first text child of an element (the text of a simple element).
pub open spec fn first_text(children: Seq<XmlNodeView>) -> Option<Seq<char>>
    decreases children.len(),
{
    if children.len() == 0 {
        None
    } else {
        match children[0] {
            XmlNodeView::Text(t) => Some(t),
            _ => first_text(children.drop_first()),
        }
    }
}

pub fn first_text_child(e: &XmlElement) -> (r: Option<String>)
    ensures
        opt_chars(r) == first_text(e@.children),
{
    let mut i: usize = 0;
    proof {
        lemma_nodes_view(e.children@);
        assert(e@.children.skip(0) =~= e@.children);
    }
    while i < e.children.len()
        invariant
            i <= e.children@.len() == e@.children.len(),
            e@.children == nodes_view(e.children@),
            forall|k: int| 0 <= k < e.children@.len() ==> #[trigger] e@.children[k] == node_view(e.children@[k]),
            first_text(e@.children) == first_text(e@.children.skip(i as int)),
        decreases e.children@.len() - i,
    {
        assert(e@.children.skip(i as int)[0] == node_view(e.children@[i as int]));
        match &e.children[i] {
            XmlNode::Text(t) => return Some(t.clone()),
            _ => {},
        }
        assert(e@.children.skip(i as int).drop_first() =~= e@.children.skip(i + 1));
        i += 1;
    }
    None
}

fn copy_opt(o: &Option<String>) -> (r: Option<String>)
    ensures
        opt_chars(r) == opt_chars(*o),
{
    match o {
        Some(s) => Some(s.clone()),
        None => None,
    }
}

fn copy_pairs(v: &Vec<(String, String)>) -> (r: Vec<(String, String)>)
    ensures
        pair_views(r@) == pair_views(v@),
{
    let mut r: Vec<(String, String)> = Vec::new();
    let mut i: usize = 0;
    while i < v.len()
        invariant
            i <= v@.len(),
            pair_views(r@) == pair_views(v@).take(i as int),
        decreases v@.len() - i,
    {
        let ghost prev = r@;
        r.push((v[i].0.clone(), v[i].1.clone()));
        assert(pair_views(r@) =~= pair_views(prev).push((v@[i as int].0@, v@[i as int].1@)));
        assert(pair_views(v@).take(i + 1) =~= pair_views(v@).take(i as int).push(
            (v@[i as int].0@, v@[i as int].1@),
        ));
        i += 1;
    }
    assert(pair_views(v@).take(v@.len() as int) =~= pair_views(v@));
    r
}

/// A copy of an element.
pub fn copy_element(e: &XmlElement) -> (r: XmlElement)
    ensures
        r@ == e@,
    decreases e,
{
    let namespaces = match &e.namespaces {
        Some(n) => Some(copy_pairs(n)),
        None => None,
    };
    let mut children: Vec<XmlNode> = Vec::new();
    let mut i: usize = 0;
    proof {
        lemma_nodes_view(e.children@);
    }
    while i < e.children.len()
        invariant
            i <= e.children@.len(),
            nodes_view(children@) == nodes_view(e.children@).take(i as int),
            nodes_view(e.children@).len() == e.children@.len(),
            forall|k: int| 0 <= k < e.children@.len() ==> #[trigger] nodes_view(e.children@)[k] == node_view(e.children@[k]),
        decreases e.children@.len() - i,
    {
        let ghost prev = children@;
        let c = copy_node(&e.children[i]);
        children.push(c);
        assert(children@.drop_last() =~= prev);
        assert(nodes_view(e.children@).take(i + 1) =~= nodes_view(e.children@).take(i as int).push(
            node_view(e.children@[i as int]),
        ));
        i += 1;
    }
    assert(nodes_view(e.children@).take(e.children@.len() as int) =~= nodes_view(e.children@));
    XmlElement {
        prefix: copy_opt(&e.prefix),
        namespace: copy_opt(&e.namespace),
        namespaces,
        name: e.name.clone(),
        attributes: copy_pairs(&e.attributes),
        children,
    }
}

/// A copy of a node.
pub fn copy_node(n: &XmlNode) -> (r: XmlNode)
    ensures
        r@ == n@,
    decreases n,
{
    match n {
        XmlNode::Element(e) => XmlNode::Element(copy_element(e)),
        XmlNode::Comment(s) => XmlNode::Comment(s.clone()),
        XmlNode::CData(s) => XmlNode::CData(s.clone()),
        XmlNode::Text(s) => XmlNode::Text(s.clone()),
        XmlNode::ProcessingInstruction(a, b) => XmlNode::ProcessingInstruction(a.clone(), copy_opt(b)),
    }
}

} // verus!
