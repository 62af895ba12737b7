//! The converter: walks the internal content tree and produces the DOM tree,
//! enforcing content models, preferring semantic markup, and synthesizing the
//! top-level document skeleton when the author did not supply one.
//!
//! A content-model violation drops the violating subtree from the output and
//! is reported as a diagnostic; conversion of sibling subtrees continues.

use vstd::prelude::*;
use vstd::string::*;
use crate::attrs::HtmlAttrs;
use crate::dom::{
    attrs_distinct, elem_ok, elem_wf, node_view, node_wf, nodes_view, lemma_nodes_view,
    Content, ElementModel, FrameModel, HtmlDocument, HtmlElem, HtmlElement, HtmlFrame, HtmlNode,
    NodeModel,
};
use crate::tag::{spec_content_model, Attr, ContentModel, HtmlError, Tag};

verus! {

/// The heading tag for a level; levels outside the six heading tags are
/// clamped.
pub open spec fn spec_heading_tag(level: u32) -> Tag {
    if level <= 1 {
        Tag::H1
    } else if level == 2 {
        Tag::H2
    } else if level == 3 {
        Tag::H3
    } else if level == 4 {
        Tag::H4
    } else if level == 5 {
        Tag::H5
    } else {
        Tag::H6
    }
}

fn heading_tag(level: u32) -> (r: Tag)
    ensures
        r == spec_heading_tag(level),
{
    if level <= 1 {
        Tag::H1
    } else if level == 2 {
        Tag::H2
    } else if level == 3 {
        Tag::H3
    } else if level == 4 {
        Tag::H4
    } else if level == 5 {
        Tag::H5
    } else {
        Tag::H6
    }
}

/// Wraps converted children in one element, passing diagnostics through.
pub open spec fn spec_wrap(
    tag: Tag,
    attrs: Seq<(Attr, Seq<char>)>,
    inner: (Seq<NodeModel>, Seq<HtmlError>),
) -> (Seq<NodeModel>, Seq<HtmlError>) {
    (seq![NodeModel::Element(ElementModel { tag, attrs, children: inner.0 })], inner.1)
}

/// What converting one content node yields: the produced DOM nodes in
/// document order, and the diagnostics collected along the way.
pub open spec fn spec_convert(c: Content) -> (Seq<NodeModel>, Seq<HtmlError>)
    decreases c,
{
    match c {
        Content::Text(s) => (seq![NodeModel::Text(s@)], Seq::<HtmlError>::empty()),
        Content::Strong(cs) => spec_wrap(Tag::Strong, Seq::empty(), spec_convert_seq(cs@)),
        Content::Emph(cs) => spec_wrap(Tag::Em, Seq::empty(), spec_convert_seq(cs@)),
        Content::Heading(level, cs) => spec_wrap(
            spec_heading_tag(level),
            Seq::empty(),
            spec_convert_seq(cs@),
        ),
        Content::Par(cs) => spec_wrap(Tag::P, Seq::empty(), spec_convert_seq(cs@)),
        Content::Link(dest, cs) => spec_wrap(
            Tag::A,
            seq![(Attr::Href, dest@)],
            spec_convert_seq(cs@),
        ),
        Content::Elem(e) => spec_convert_elem(*e),
        Content::Frame(f) => (
            seq![NodeModel::Frame(FrameModel { width: f.width, height: f.height, svg: f.svg@ })],
            Seq::<HtmlError>::empty(),
        ),
        Content::Sequence(cs) => spec_convert_seq(cs@),
    }
}

/// Converting a sequence of content nodes: outputs and diagnostics
/// accumulate in document order.
pub open spec fn spec_convert_seq(cs: Seq<Content>) -> (Seq<NodeModel>, Seq<HtmlError>)
    decreases cs,
{
    if cs.len() == 0 {
        (Seq::<NodeModel>::empty(), Seq::<HtmlError>::empty())
    } else {
        let init = spec_convert_seq(cs.drop_last());
        let last = spec_convert(cs.last());
        (init.0 + last.0, init.1 + last.1)
    }
}

/// Whether some node of the sequence is not a text node.
pub open spec fn has_non_text(ns: Seq<NodeModel>) -> bool {
    exists|i: int| 0 <= i < ns.len() && !((#[trigger] ns[i]) is Text)
}

/// Converting an explicit element: a body supplied to a void tag, or
/// non-text content under a text-only tag, violates the tag's content model;
/// the subtree is dropped and a diagnostic emitted.
pub open spec fn spec_convert_elem(e: HtmlElem) -> (Seq<NodeModel>, Seq<HtmlError>)
    decreases e,
{
    let cm = spec_content_model(e.tag);
    if cm == ContentModel::Void && e.body is Some {
        (Seq::<NodeModel>::empty(), seq![HtmlError::ContentModelViolation(e.tag)])
    } else {
        let inner = if e.body is Some {
            spec_convert(*e.body->0)
        } else {
            (Seq::<NodeModel>::empty(), Seq::<HtmlError>::empty())
        };
        if cm == ContentModel::TextOnly && has_non_text(inner.0) {
            (Seq::<NodeModel>::empty(), inner.1 + seq![HtmlError::ContentModelViolation(e.tag)])
        } else {
            (
                seq![
                    NodeModel::Element(
                        ElementModel { tag: e.tag, attrs: e.attrs@, children: inner.0 },
                    ),
                ],
                inner.1,
            )
        }
    }
}

/// `nodes_view` distributes over concatenation.
pub proof fn lemma_nodes_view_concat(a: Seq<HtmlNode>, b: Seq<HtmlNode>)
    ensures
        nodes_view(a + b) == nodes_view(a) + nodes_view(b),
{
    lemma_nodes_view(a);
    lemma_nodes_view(b);
    lemma_nodes_view(a + b);
    assert(nodes_view(a + b) =~= nodes_view(a) + nodes_view(b));
}

/// Wraps converted children in one element node.
fn wrap_element(tag: Tag, attrs: HtmlAttrs, inner: (Vec<HtmlNode>, Vec<HtmlError>)) -> (r: (
    Vec<HtmlNode>,
    Vec<HtmlError>,
))
    ensures
        nodes_view(r.0@) == seq![
            NodeModel::Element(
                ElementModel { tag, attrs: attrs@, children: nodes_view(inner.0@) },
            ),
        ],
        r.1@ == inner.1@,
{
    let ghost inner_nodes = inner.0@;
    let e = HtmlElement { tag, attrs, children: inner.0 };
    let mut nodes: Vec<HtmlNode> = Vec::new();
    nodes.push(HtmlNode::Element(e));
    proof {
        lemma_nodes_view(nodes@);
        assert(nodes_view(nodes@) =~= seq![
            NodeModel::Element(
                ElementModel { tag, attrs: attrs@, children: nodes_view(inner_nodes) },
            ),
        ]);
    }
    (nodes, inner.1)
}

/// Converts the children of one content node.
fn convert_children(cs: &Vec<Content>) -> (r: (Vec<HtmlNode>, Vec<HtmlError>))
    ensures
        nodes_view(r.0@) == spec_convert_seq(cs@).0,
        r.1@ == spec_convert_seq(cs@).1,
    decreases cs@,
{
    let mut nodes: Vec<HtmlNode> = Vec::new();
    let mut errs: Vec<HtmlError> = Vec::new();
    let n = cs.len();
    let mut i: usize = 0;
    proof {
        lemma_nodes_view(nodes@);
        assert(nodes_view(nodes@) =~= spec_convert_seq(cs@.take(0)).0);
        assert(errs@ =~= spec_convert_seq(cs@.take(0)).1);
    }
    while i < n
        invariant
            0 <= i <= n,
            n == cs@.len(),
            nodes_view(nodes@) == spec_convert_seq(cs@.take(i as int)).0,
            errs@ == spec_convert_seq(cs@.take(i as int)).1,
        decreases n - i,
    {
        proof {
            assert(decreases_to!(cs@ => cs@[i as int]));
        }
        let (mut ns, mut es) = convert_content(&cs[i]);
        let ghost old_nodes = nodes@;
        let ghost new_nodes = ns@;
        nodes.append(&mut ns);
        errs.append(&mut es);
        proof {
            assert(cs@.take(i as int + 1).drop_last() =~= cs@.take(i as int));
            assert(cs@.take(i as int + 1).last() == cs@[i as int]);
            lemma_nodes_view_concat(old_nodes, new_nodes);
            assert(nodes_view(nodes@) =~= spec_convert_seq(cs@.take(i as int + 1)).0);
            assert(errs@ =~= spec_convert_seq(cs@.take(i as int + 1)).1);
        }
        i = i + 1;
    }
    proof {
        assert(cs@.take(n as int) =~= cs@);
    }
    (nodes, errs)
}

/// Converts an explicit author-supplied element, enforcing its content
/// model.
fn convert_elem(e: &HtmlElem) -> (r: (Vec<HtmlNode>, Vec<HtmlError>))
    ensures
        nodes_view(r.0@) == spec_convert_elem(*e).0,
        r.1@ == spec_convert_elem(*e).1,
    decreases *e,
{
    let cm = e.tag.content_model();
    if matches!(cm, ContentModel::Void) && e.body.is_some() {
        let mut errs: Vec<HtmlError> = Vec::new();
        errs.push(HtmlError::ContentModelViolation(e.tag));
        let nodes: Vec<HtmlNode> = Vec::new();
        proof {
            lemma_nodes_view(nodes@);
            assert(nodes_view(nodes@) =~= spec_convert_elem(*e).0);
            assert(errs@ =~= spec_convert_elem(*e).1);
        }
        return (nodes, errs);
    }
    let inner: (Vec<HtmlNode>, Vec<HtmlError>) = match &e.body {
        Some(b) => convert_content(b),
        None => (Vec::new(), Vec::new()),
    };
    let ghost inner_spec = if e.body is Some {
        spec_convert(*e.body->0)
    } else {
        (Seq::<NodeModel>::empty(), Seq::<HtmlError>::empty())
    };
    proof {
        if e.body is None {
            assert(nodes_view(inner.0@) =~= inner_spec.0);
            assert(inner.1@ =~= inner_spec.1);
        }
    }
    if matches!(cm, ContentModel::TextOnly) {
        let n = inner.0.len();
        let mut i: usize = 0;
        proof {
            lemma_nodes_view(inner.0@);
        }
        while i < n
            invariant
                0 <= i <= n,
                n == inner.0@.len(),
                spec_content_model(e.tag) == ContentModel::TextOnly,
                inner_spec == (if e.body is Some {
                    spec_convert(*e.body->0)
                } else {
                    (Seq::<NodeModel>::empty(), Seq::<HtmlError>::empty())
                }),
                inner.1@ == inner_spec.1,
                nodes_view(inner.0@) == inner_spec.0,
                inner_spec.0.len() == n,
                forall|j: int|
                    0 <= j < n ==> #[trigger] inner_spec.0[j] == node_view(inner.0@[j]),
                forall|j: int| 0 <= j < i ==> (#[trigger] inner_spec.0[j]) is Text,
            decreases n - i,
        {
            match &inner.0[i] {
                HtmlNode::Text(_) => {
                    assert(inner_spec.0[i as int] is Text);
                },
                _ => {
                    assert(!(inner_spec.0[i as int] is Text));
                    proof {
                        if e.body is None {
                            assert(inner_spec.0.len() == 0);
                            assert(false);
                        }
                        assert(inner_spec == spec_convert(*e.body->0));
                        assert(has_non_text(inner_spec.0));
                        assert(spec_convert_elem(*e).0 =~= Seq::<NodeModel>::empty());
                    }
                    let mut errs = inner.1;
                    errs.push(HtmlError::ContentModelViolation(e.tag));
                    let nodes: Vec<HtmlNode> = Vec::new();
                    proof {
                        lemma_nodes_view(nodes@);
                        assert(nodes_view(nodes@) =~= spec_convert_elem(*e).0);
                        assert(errs@ =~= inner_spec.1 + seq![
                            HtmlError::ContentModelViolation(e.tag),
                        ]);
                    }
                    return (nodes, errs);
                },
            }
            i = i + 1;
        }
        proof {
            assert(!(exists|j: int|
                0 <= j < inner_spec.0.len() && !((#[trigger] inner_spec.0[j]) is Text)));
        }
    }
    let attrs = e.attrs.duplicate();
    let r = wrap_element(e.tag, attrs, inner);
    proof {
        assert(nodes_view(r.0@) =~= spec_convert_elem(*e).0);
    }
    r
}

/// Converts one content node into DOM nodes, mapping semantic roles to
/// default tags, passing explicit elements through their content-model
/// check, and emitting frames as leaves.
pub fn convert_content(c: &Content) -> (r: (Vec<HtmlNode>, Vec<HtmlError>))
    ensures
        nodes_view(r.0@) == spec_convert(*c).0,
        r.1@ == spec_convert(*c).1,
    decreases *c,
{
    match c {
        Content::Text(s) => {
            let mut nodes: Vec<HtmlNode> = Vec::new();
            nodes.push(HtmlNode::Text(s.clone()));
            proof {
                lemma_nodes_view(nodes@);
                assert(nodes_view(nodes@) =~= spec_convert(*c).0);
                assert(Seq::<HtmlError>::empty() =~= spec_convert(*c).1);
            }
            (nodes, Vec::new())
        },
        Content::Strong(cs) => wrap_element(Tag::Strong, HtmlAttrs::new(), convert_children(cs)),
        Content::Emph(cs) => wrap_element(Tag::Em, HtmlAttrs::new(), convert_children(cs)),
        Content::Heading(level, cs) => wrap_element(
            heading_tag(*level),
            HtmlAttrs::new(),
            convert_children(cs),
        ),
        Content::Par(cs) => wrap_element(Tag::P, HtmlAttrs::new(), convert_children(cs)),
        Content::Link(dest, cs) => {
            let mut attrs = HtmlAttrs::new();
            attrs.push(Attr::Href, dest.clone());
            proof {
                assert(attrs@ =~= seq![(Attr::Href, dest@)]);
            }
            wrap_element(Tag::A, attrs, convert_children(cs))
        },
        Content::Elem(e) => convert_elem(e),
        Content::Frame(f) => {
            let mut nodes: Vec<HtmlNode> = Vec::new();
            nodes.push(
                HtmlNode::Frame(HtmlFrame { width: f.width, height: f.height, svg: f.svg.clone() }),
            );
            proof {
                lemma_nodes_view(nodes@);
                assert(nodes_view(nodes@) =~= spec_convert(*c).0);
                assert(Seq::<HtmlError>::empty() =~= spec_convert(*c).1);
            }
            (nodes, Vec::new())
        },
        Content::Sequence(cs) => convert_children(cs),
    }
}

/// Well-formedness of input content: the attribute names of every explicit
/// element are distinct, recursively.
pub open spec fn content_wf(c: Content) -> bool
    decreases c,
{
    match c {
        Content::Text(_) => true,
        Content::Strong(cs) => contents_wf(cs@),
        Content::Emph(cs) => contents_wf(cs@),
        Content::Heading(_, cs) => contents_wf(cs@),
        Content::Par(cs) => contents_wf(cs@),
        Content::Link(_, cs) => contents_wf(cs@),
        Content::Elem(e) => attrs_distinct(e.attrs@) && (e.body is Some ==> content_wf(
            *e.body->0,
        )),
        Content::Frame(_) => true,
        Content::Sequence(cs) => contents_wf(cs@),
    }
}

/// Well-formedness of a content sequence.
pub open spec fn contents_wf(cs: Seq<Content>) -> bool
    decreases cs,
{
    forall|i: int| 0 <= i < cs.len() ==> content_wf(#[trigger] cs[i])
}

/// Law: the validity invariant. Every node that conversion produces is
/// well-formed: no void tag has children, no text-only tag has a non-text
/// child, and attribute names are distinct — violations are dropped, never
/// emitted.
pub proof fn lemma_convert_wf(c: Content)
    requires
        content_wf(c),
    ensures
        forall|i: int|
            0 <= i < spec_convert(c).0.len() ==> node_wf(#[trigger] spec_convert(c).0[i]),
    decreases c,
{
    match c {
        Content::Text(_) => {},
        Content::Strong(cs) => {
            lemma_convert_seq_wf(cs@);
            lemma_wrap_wf(Tag::Strong, Seq::empty(), spec_convert_seq(cs@));
        },
        Content::Emph(cs) => {
            lemma_convert_seq_wf(cs@);
            lemma_wrap_wf(Tag::Em, Seq::empty(), spec_convert_seq(cs@));
        },
        Content::Heading(level, cs) => {
            lemma_convert_seq_wf(cs@);
            assert(spec_content_model(spec_heading_tag(level)) == ContentModel::Normal);
            lemma_wrap_wf(spec_heading_tag(level), Seq::empty(), spec_convert_seq(cs@));
        },
        Content::Par(cs) => {
            lemma_convert_seq_wf(cs@);
            lemma_wrap_wf(Tag::P, Seq::empty(), spec_convert_seq(cs@));
        },
        Content::Link(dest, cs) => {
            lemma_convert_seq_wf(cs@);
            lemma_wrap_wf(Tag::A, seq![(Attr::Href, dest@)], spec_convert_seq(cs@));
        },
        Content::Elem(e) => {
            let cm = spec_content_model(e.tag);
            if !(cm == ContentModel::Void && e.body is Some) {
                if e.body is Some {
                    lemma_convert_wf(*e.body->0);
                }
                let inner = if e.body is Some {
                    spec_convert(*e.body->0)
                } else {
                    (Seq::<NodeModel>::empty(), Seq::<HtmlError>::empty())
                };
                if !(cm == ContentModel::TextOnly && has_non_text(inner.0)) {
                    let em = ElementModel { tag: e.tag, attrs: e.attrs@, children: inner.0 };
                    assert(elem_ok(em));
                    assert(elem_wf(em));
                    assert(spec_convert(c).0 == seq![NodeModel::Element(em)]);
                }
            }
        },
        Content::Frame(_) => {},
        Content::Sequence(cs) => {
            lemma_convert_seq_wf(cs@);
            assert(spec_convert(c) == spec_convert_seq(cs@));
            assert forall|i: int| 0 <= i < spec_convert(c).0.len() implies node_wf(
                #[trigger] spec_convert(c).0[i],
            ) by {
                assert(node_wf(spec_convert_seq(cs@).0[i]));
            }
        },
    }
}

/// Wrapping well-formed children under a normal-content tag with distinct
/// attribute names yields a well-formed element node.
proof fn lemma_wrap_wf(
    tag: Tag,
    attrs: Seq<(Attr, Seq<char>)>,
    inner: (Seq<NodeModel>, Seq<HtmlError>),
)
    requires
        spec_content_model(tag) == ContentModel::Normal,
        attrs_distinct(attrs),
        forall|i: int| 0 <= i < inner.0.len() ==> node_wf(#[trigger] inner.0[i]),
    ensures
        forall|i: int|
            0 <= i < spec_wrap(tag, attrs, inner).0.len() ==> node_wf(
                #[trigger] spec_wrap(tag, attrs, inner).0[i],
            ),
{
    let em = ElementModel { tag, attrs, children: inner.0 };
    assert(elem_wf(em));
    assert(spec_wrap(tag, attrs, inner).0[0] == NodeModel::Element(em));
}

/// Every node that converting a content sequence produces is well-formed.
pub proof fn lemma_convert_seq_wf(cs: Seq<Content>)
    requires
        contents_wf(cs),
    ensures
        forall|i: int|
            0 <= i < spec_convert_seq(cs).0.len() ==> node_wf(#[trigger] spec_convert_seq(cs).0[i]),
    decreases cs,
{
    if cs.len() > 0 {
        assert(forall|i: int|
            0 <= i < cs.drop_last().len() ==> content_wf(#[trigger] cs.drop_last()[i]));
        lemma_convert_seq_wf(cs.drop_last());
        lemma_convert_wf(cs.last());
        let init = spec_convert_seq(cs.drop_last());
        let last = spec_convert(cs.last());
        assert forall|i: int|
            0 <= i < spec_convert_seq(cs).0.len() implies node_wf(
            #[trigger] spec_convert_seq(cs).0[i],
        ) by {
            if i < init.0.len() {
                assert(spec_convert_seq(cs).0[i] == init.0[i]);
            } else {
                assert(spec_convert_seq(cs).0[i] == last.0[i - init.0.len()]);
            }
        }
    }
}

/// The synthesized `head`: it declares the character set.
pub open spec fn spec_head_model() -> NodeModel {
    NodeModel::Element(
        ElementModel {
            tag: Tag::Head,
            attrs: Seq::empty(),
            children: seq![
                NodeModel::Element(
                    ElementModel {
                        tag: Tag::Meta,
                        attrs: seq![(Attr::Charset, "utf-8"@)],
                        children: Seq::empty(),
                    },
                ),
            ],
        },
    )
}

/// What converting a whole document yields: when conversion produced exactly
/// one explicit `html` element at the root, it becomes the document root and
/// the synthesized shell is suppressed; otherwise the output is wrapped in a
/// synthesized `html` element holding a `head` (with character-set metadata)
/// and a `body`.
pub open spec fn spec_document(c: Content) -> (ElementModel, Seq<HtmlError>) {
    let r = spec_convert(c);
    if r.0.len() == 1 && r.0[0] is Element && r.0[0]->Element_0.tag == Tag::Html {
        (r.0[0]->Element_0, r.1)
    } else {
        (
            ElementModel {
                tag: Tag::Html,
                attrs: Seq::empty(),
                children: seq![
                    spec_head_model(),
                    NodeModel::Element(
                        ElementModel { tag: Tag::Body, attrs: Seq::empty(), children: r.0 },
                    ),
                ],
            },
            r.1,
        )
    }
}

/// Law: the whole produced document is well-formed, whether the author's own
/// `html` element stands at the root or the shell was synthesized.
pub proof fn lemma_document_wf(c: Content)
    requires
        content_wf(c),
    ensures
        elem_wf(spec_document(c).0),
{
    lemma_convert_wf(c);
    let r = spec_convert(c);
    if r.0.len() == 1 && r.0[0] is Element && r.0[0]->Element_0.tag == Tag::Html {
        assert(node_wf(r.0[0]));
    } else {
        let head = spec_head_model();
        let meta = ElementModel {
            tag: Tag::Meta,
            attrs: seq![(Attr::Charset, "utf-8"@)],
            children: Seq::empty(),
        };
        assert(attrs_distinct(meta.attrs));
        assert(elem_wf(meta));
        let hm = head->Element_0;
        assert(hm.children[0] == NodeModel::Element(meta));
        assert(node_wf(hm.children[0]));
        assert(forall|i: int| 0 <= i < hm.children.len() ==> node_wf(#[trigger] hm.children[i]));
        assert(elem_wf(hm));
        assert(node_wf(head));
        let body = ElementModel { tag: Tag::Body, attrs: Seq::empty(), children: r.0 };
        assert(elem_wf(body));
        let root = spec_document(c).0;
        assert(root.children[0] == head);
        assert(root.children[1] == NodeModel::Element(body));
        assert forall|i: int| 0 <= i < root.children.len() implies node_wf(
            #[trigger] root.children[i],
        ) by {
            if i == 0 {
            } else {
                assert(i == 1);
            }
        }
    }
}

/// Converts a content tree into a whole document, synthesizing the
/// `html`/`head`/`body` shell unless the author supplied an explicit `html`
/// element at the root. Diagnostics are returned alongside the document.
pub fn html_document(content: &Content) -> (r: (HtmlDocument, Vec<HtmlError>))
    ensures
        r.0@ == spec_document(*content).0,
        r.1@ == spec_document(*content).1,
{
    let (mut nodes, errs) = convert_content(content);
    proof {
        lemma_nodes_view(nodes@);
    }
    let single_html = nodes.len() == 1 && (match &nodes[0] {
        HtmlNode::Element(e) => matches!(e.tag, Tag::Html),
        _ => false,
    });
    if single_html {
        let node = nodes.pop().unwrap();
        match node {
            HtmlNode::Element(e) => {
                proof {
                    assert(node_view(node) == spec_convert(*content).0[0]);
                }
                (HtmlDocument { root: e }, errs)
            },
            _ => vstd::pervasive::unreached(),
        }
    } else {
        let mut meta_attrs = HtmlAttrs::new();
        meta_attrs.push(Attr::Charset, "utf-8".to_owned());
        proof {
            assert(meta_attrs@ =~= seq![(Attr::Charset, "utf-8"@)]);
        }
        let meta = HtmlElement { tag: Tag::Meta, attrs: meta_attrs, children: Vec::new() };
        let mut head_children: Vec<HtmlNode> = Vec::new();
        head_children.push(HtmlNode::Element(meta));
        let head = HtmlElement { tag: Tag::Head, attrs: HtmlAttrs::new(), children: head_children };
        proof {
            lemma_nodes_view(head.children@);
            lemma_nodes_view(meta.children@);
            assert(nodes_view(meta.children@) =~= Seq::<NodeModel>::empty());
            assert(node_view(HtmlNode::Element(meta)) == NodeModel::Element(
                ElementModel {
                    tag: Tag::Meta,
                    attrs: seq![(Attr::Charset, "utf-8"@)],
                    children: Seq::empty(),
                },
            ));
            assert(nodes_view(head.children@) =~= seq![node_view(HtmlNode::Element(meta))]);
        }
        let ghost converted = nodes@;
        let body = HtmlElement { tag: Tag::Body, attrs: HtmlAttrs::new(), children: nodes };
        let mut root_children: Vec<HtmlNode> = Vec::new();
        root_children.push(HtmlNode::Element(head));
        root_children.push(HtmlNode::Element(body));
        let root = HtmlElement { tag: Tag::Html, attrs: HtmlAttrs::new(), children: root_children };
        proof {
            lemma_nodes_view(root.children@);
            assert(node_view(root_children@[0]) == spec_head_model());
            assert(node_view(root_children@[1]) == NodeModel::Element(
                ElementModel {
                    tag: Tag::Body,
                    attrs: Seq::empty(),
                    children: spec_convert(*content).0,
                },
            ));
            assert(nodes_view(root.children@) =~= spec_document(*content).0.children);
        }
        (HtmlDocument { root }, errs)
    }
}

} // verus!
