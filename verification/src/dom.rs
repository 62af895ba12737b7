//! The DOM tree: element, text, and frame nodes, their mathematical models,
//! the well-formedness invariant, and the authoring surface through which
//! content carries explicit markup.

use vstd::prelude::*;
use crate::attrs::{spec_attrs_push, HtmlAttrs};
use crate::css::{spec_inline_style, Properties};
use crate::tag::{spec_content_model, Attr, ContentModel, HtmlError, Tag};

verus! {

/// The mathematical model of a frame node: a fully laid-out rendering with
/// its intrinsic size.
pub struct FrameModel {
    /// The intrinsic width, in whole units.
    pub width: u32,
    /// The intrinsic height, in whole units.
    pub height: u32,
    /// The rendered vector-graphic markup, embedded verbatim.
    pub svg: Seq<char>,
}

/// The mathematical model of an element node.
pub struct ElementModel {
    /// The element's tag.
    pub tag: Tag,
    /// The attribute pairs, in order.
    pub attrs: Seq<(Attr, Seq<char>)>,
    /// The child nodes, in document order.
    pub children: Seq<NodeModel>,
}

/// The mathematical model of a DOM node.
pub enum NodeModel {
    /// An element with tag, attributes, and children.
    Element(ElementModel),
    /// A text leaf; its payload is stored verbatim and escaped only at
    /// serialization.
    Text(Seq<char>),
    /// A frame leaf: a fully laid-out rendering of content that markup
    /// cannot express.
    Frame(FrameModel),
}

/// A frame node: a rendering produced by the external layout engine, with
/// its intrinsic size. Always a leaf.
#[derive(Clone, Debug)]
pub struct HtmlFrame {
    /// The intrinsic width, in whole units.
    pub width: u32,
    /// The intrinsic height, in whole units.
    pub height: u32,
    /// The rendered vector-graphic markup, embedded verbatim.
    pub svg: String,
}

/// A node of the DOM tree.
#[derive(Debug)]
pub enum HtmlNode {
    /// An element with tag, attributes, and children.
    Element(HtmlElement),
    /// A text leaf.
    Text(String),
    /// A frame leaf.
    Frame(HtmlFrame),
}

/// An element of the DOM tree: a tag, its attributes, and its children.
#[derive(Debug)]
pub struct HtmlElement {
    /// The element's tag.
    pub tag: Tag,
    /// The element's attributes.
    pub attrs: HtmlAttrs,
    /// The child nodes, in document order.
    pub children: Vec<HtmlNode>,
}

/// A whole document: its root `html` element.
#[derive(Debug)]
pub struct HtmlDocument {
    /// The root element.
    pub root: HtmlElement,
}

/// The model of a node.
pub open spec fn node_view(n: HtmlNode) -> NodeModel
    decreases n,
{
    match n {
        HtmlNode::Element(e) => NodeModel::Element(
            ElementModel { tag: e.tag, attrs: e.attrs@, children: nodes_view(e.children@) },
        ),
        HtmlNode::Text(s) => NodeModel::Text(s@),
        HtmlNode::Frame(f) => NodeModel::Frame(
            FrameModel { width: f.width, height: f.height, svg: f.svg@ },
        ),
    }
}

/// The models of a node sequence, in order.
pub open spec fn nodes_view(s: Seq<HtmlNode>) -> Seq<NodeModel>
    decreases s,
{
    if s.len() == 0 {
        Seq::empty()
    } else {
        seq![node_view(s[0])] + nodes_view(s.drop_first())
    }
}

/// The model of an element.
pub open spec fn elem_view(e: HtmlElement) -> ElementModel {
    ElementModel { tag: e.tag, attrs: e.attrs@, children: nodes_view(e.children@) }
}

/// `nodes_view` maps `node_view` over the sequence, position by position.
pub proof fn lemma_nodes_view(s: Seq<HtmlNode>)
    ensures
        nodes_view(s).len() == s.len(),
        forall|i: int| 0 <= i < s.len() ==> #[trigger] nodes_view(s)[i] == node_view(s[i]),
    decreases s.len(),
{
    if s.len() > 0 {
        lemma_nodes_view(s.drop_first());
        assert forall|i: int| 0 <= i < s.len() implies #[trigger] nodes_view(s)[i] == node_view(
            s[i],
        ) by {
            if i > 0 {
                assert(nodes_view(s)[i] == nodes_view(s.drop_first())[i - 1]);
                assert(s.drop_first()[i - 1] == s[i]);
            }
        }
    }
}

impl View for HtmlNode {
    type V = NodeModel;

    open spec fn view(&self) -> NodeModel {
        node_view(*self)
    }
}

impl View for HtmlElement {
    type V = ElementModel;

    open spec fn view(&self) -> ElementModel {
        elem_view(*self)
    }
}

impl View for HtmlDocument {
    type V = ElementModel;

    open spec fn view(&self) -> ElementModel {
        elem_view(self.root)
    }
}

/// No two attribute pairs share a name.
pub open spec fn attrs_distinct(s: Seq<(Attr, Seq<char>)>) -> bool {
    forall|i: int, j: int| 0 <= i < j < s.len() ==> (#[trigger] s[i]).0 != (#[trigger] s[j]).0
}

/// The local content-model constraint of an element: a void tag has no
/// children at all, a text-only tag has only text children.
pub open spec fn elem_ok(e: ElementModel) -> bool {
    match spec_content_model(e.tag) {
        ContentModel::Void => e.children.len() == 0,
        ContentModel::TextOnly => forall|i: int|
            0 <= i < e.children.len() ==> (#[trigger] e.children[i]) is Text,
        ContentModel::Normal => true,
    }
}

/// Well-formedness of an element: its own content-model constraint holds,
/// its attribute names are distinct, and all children are well-formed.
pub open spec fn elem_wf(e: ElementModel) -> bool
    decreases e,
{
    &&& elem_ok(e)
    &&& attrs_distinct(e.attrs)
    &&& forall|i: int| 0 <= i < e.children.len() ==> node_wf(#[trigger] e.children[i])
}

/// Well-formedness of a node.
pub open spec fn node_wf(n: NodeModel) -> bool
    decreases n,
{
    match n {
        NodeModel::Element(e) => elem_wf(e),
        NodeModel::Text(_) => true,
        NodeModel::Frame(_) => true,
    }
}

impl HtmlElement {
    /// Builds an element, enforcing its tag's content model: construction
    /// fails with a `ContentModelViolation` rather than representing illegal
    /// markup.
    pub fn new(tag: Tag, attrs: HtmlAttrs, children: Vec<HtmlNode>) -> (r: Result<
        HtmlElement,
        HtmlError,
    >)
        ensures
            match r {
                Ok(e) => e.tag == tag && e.attrs == attrs && e.children == children && elem_ok(
                    e@,
                ),
                Err(err) => err == HtmlError::ContentModelViolation(tag) && !elem_ok(
                    ElementModel { tag, attrs: attrs@, children: nodes_view(children@) },
                ),
            },
    {
        let ghost model = ElementModel { tag, attrs: attrs@, children: nodes_view(children@) };
        proof {
            lemma_nodes_view(children@);
        }
        let cm = tag.content_model();
        match cm {
            ContentModel::Void => {
                if children.len() > 0 {
                    assert(model.children.len() > 0);
                    return Err(HtmlError::ContentModelViolation(tag));
                }
            },
            ContentModel::TextOnly => {
                let n = children.len();
                let mut i: usize = 0;
                while i < n
                    invariant
                        0 <= i <= n,
                        n == children@.len(),
                        spec_content_model(tag) == ContentModel::TextOnly,
                        model == (ElementModel {
                            tag,
                            attrs: attrs@,
                            children: nodes_view(children@),
                        }),
                        model.children.len() == n,
                        forall|j: int|
                            0 <= j < n ==> #[trigger] model.children[j] == node_view(
                                children@[j],
                            ),
                        forall|j: int| 0 <= j < i ==> (#[trigger] model.children[j]) is Text,
                    decreases n - i,
                {
                    match &children[i] {
                        HtmlNode::Text(_) => {
                            assert(model.children[i as int] is Text);
                        },
                        _ => {
                            assert(!(model.children[i as int] is Text));
                            assert(!elem_ok(model));
                            return Err(HtmlError::ContentModelViolation(tag));
                        },
                    }
                    i = i + 1;
                }
            },
            ContentModel::Normal => {},
        }
        let e = HtmlElement { tag, attrs, children };
        assert(e@ == model);
        Ok(e)
    }
}

/// A content node of the internal, already-laid-out tree that the converter
/// consumes. Plain structural content is mapped via its semantic role;
/// explicit elements and frames are the two authoring escape hatches.
#[derive(Debug)]
pub enum Content {
    /// Plain text.
    Text(String),
    /// Strongly emphasized content.
    Strong(Vec<Content>),
    /// Emphasized content.
    Emph(Vec<Content>),
    /// A heading of the given level (clamped to the six heading tags).
    Heading(u32, Vec<Content>),
    /// A paragraph.
    Par(Vec<Content>),
    /// A link to a destination.
    Link(String, Vec<Content>),
    /// An explicit, author-supplied element.
    Elem(Box<HtmlElem>),
    /// Content marked for frame embedding, already rendered by the external
    /// layout engine into a sized vector graphic.
    Frame(HtmlFrame),
    /// A sequence of content nodes.
    Sequence(Vec<Content>),
}

/// An explicit markup element supplied by an author: a validated tag, typed
/// attributes, and an optional content body. The tag's content model is
/// enforced during conversion: supplying a body to a void tag fails rather
/// than serializing illegal markup.
#[derive(Debug)]
pub struct HtmlElem {
    /// The element's tag.
    pub tag: Tag,
    /// The element's attributes.
    pub attrs: HtmlAttrs,
    /// The contents of the element, arbitrary content of the internal tree.
    pub body: Option<Box<Content>>,
}

impl HtmlElem {
    /// An element of the given tag, with no attributes and no body.
    pub fn new(tag: Tag) -> (r: HtmlElem)
        ensures
            r.tag == tag,
            r.attrs@ == Seq::<(Attr, Seq<char>)>::empty(),
            r.attrs.wf(),
            r.body is None,
    {
        HtmlElem { tag, attrs: HtmlAttrs::new(), body: None }
    }

    /// Adds an attribute to the element; a later write to the same name
    /// wins.
    pub fn with_attr(self, attr: Attr, value: String) -> (r: HtmlElem)
        requires
            self.attrs.wf(),
        ensures
            r.tag == self.tag,
            r.body == self.body,
            r.attrs.wf(),
            r.attrs@ == spec_attrs_push(self.attrs@, attr, value@),
    {
        let mut attrs = self.attrs;
        attrs.push(attr, value);
        HtmlElem { tag: self.tag, attrs, body: self.body }
    }

    /// Adds the attribute to the element if a value is present.
    pub fn with_optional_attr(self, attr: Attr, value: Option<String>) -> (r: HtmlElem)
        requires
            self.attrs.wf(),
        ensures
            r.tag == self.tag,
            r.body == self.body,
            r.attrs.wf(),
            r.attrs@ == (match value {
                Some(v) => spec_attrs_push(self.attrs@, attr, v@),
                None => self.attrs@,
            }),
    {
        match value {
            Some(v) => self.with_attr(attr, v),
            None => self,
        }
    }

    /// Adds the accumulated CSS declarations as a single inline `style`
    /// attribute; no declarations leave the element unchanged.
    pub fn with_styles(self, properties: Properties) -> (r: HtmlElem)
        requires
            self.attrs.wf(),
        ensures
            r.tag == self.tag,
            r.body == self.body,
            r.attrs.wf(),
            r.attrs@ == (match spec_inline_style(properties@) {
                Some(v) => spec_attrs_push(self.attrs@, Attr::Style, v),
                None => self.attrs@,
            }),
    {
        match properties.into_inline_styles() {
            Some(value) => self.with_attr(Attr::Style, value),
            None => self,
        }
    }

    /// Supplies the element's content body.
    pub fn with_body(self, body: Option<Content>) -> (r: HtmlElem)
        ensures
            r.tag == self.tag,
            r.attrs == self.attrs,
            match r.body {
                Some(b) => body is Some && *b == body->0,
                None => body is None,
            },
    {
        match body {
            Some(c) => HtmlElem { tag: self.tag, attrs: self.attrs, body: Some(Box::new(c)) },
            None => HtmlElem { tag: self.tag, attrs: self.attrs, body: None },
        }
    }
}

/// An element that embeds its content as a fully laid-out inline vector
/// graphic instead of semantic markup. The layout engine is an external
/// collaborator: the host renders the body and hands the pipeline the sized
/// rendering as a [`HtmlFrame`] (`Content::Frame`).
#[derive(Debug)]
pub struct FrameElem {
    /// The content that shall be laid out.
    pub body: Content,
}

impl FrameElem {
    /// Marks content for frame embedding.
    pub fn new(body: Content) -> (r: FrameElem)
        ensures
            r.body == body,
    {
        FrameElem { body }
    }
}

} // verus!
