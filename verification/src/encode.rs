//! The encoder: serializes a DOM tree to markup text. Text and attribute
//! values are escaped, void elements get no closing tag, whitespace inside
//! text is preserved verbatim, and a document starts with its doctype. The
//! encoder is total over DOM trees and a pure function of the tree.

use vstd::prelude::*;
use vstd::string::*;
use crate::dom::{
    elem_view, lemma_nodes_view, nodes_view, ElementModel, FrameModel, HtmlDocument, HtmlElement,
    HtmlNode, NodeModel,
};
use crate::tag::{attr_name, spec_content_model, Attr, ContentModel, Tag, tag_name};
use crate::text::{
    append_u32, dec_rep, escape_attr, escape_attr_into, escape_text, escape_text_into, push_char,
};

verus! {

/// The serialization of attribute pairs: ` name="value"` for each, with the
/// value escaped.
pub open spec fn enc_attrs(attrs: Seq<(Attr, Seq<char>)>) -> Seq<char>
    decreases attrs.len(),
{
    if attrs.len() == 0 {
        Seq::empty()
    } else {
        enc_attrs(attrs.drop_last()) + seq![' '] + attr_name(attrs.last().0) + seq!['=', '"']
            + escape_attr(attrs.last().1) + seq!['"']
    }
}

/// The serialization of an element's open tag.
pub open spec fn enc_open_tag(e: ElementModel) -> Seq<char> {
    seq!['<'] + tag_name(e.tag) + enc_attrs(e.attrs) + seq!['>']
}

/// The serialization of a closing tag.
pub open spec fn enc_close_tag(t: Tag) -> Seq<char> {
    seq!['<', '/'] + tag_name(t) + seq!['>']
}

/// The serialization of a frame: an inline vector graphic sized to the
/// rendering's intrinsic dimensions; the rendered markup is embedded
/// verbatim.
pub open spec fn enc_frame(f: FrameModel) -> Seq<char> {
    "<svg width=\""@ + dec_rep(f.width as nat) + "\" height=\""@ + dec_rep(f.height as nat)
        + "\">"@ + f.svg + "</svg>"@
}

/// The serialization of one node: escaped text, a frame, or an element. A
/// void element gets neither children nor a closing tag.
pub open spec fn enc_node(n: NodeModel) -> Seq<char>
    decreases n,
{
    match n {
        NodeModel::Text(s) => escape_text(s),
        NodeModel::Frame(f) => enc_frame(f),
        NodeModel::Element(e) => enc_elem(e),
    }
}

/// The serialization of an element.
pub open spec fn enc_elem(e: ElementModel) -> Seq<char>
    decreases e,
{
    enc_open_tag(e) + (if spec_content_model(e.tag) == ContentModel::Void {
        Seq::<char>::empty()
    } else {
        enc_nodes(e.children) + enc_close_tag(e.tag)
    })
}

/// The serialization of a node sequence, in document order.
pub open spec fn enc_nodes(ns: Seq<NodeModel>) -> Seq<char>
    decreases ns,
{
    if ns.len() == 0 {
        Seq::empty()
    } else {
        enc_nodes(ns.drop_last()) + enc_node(ns.last())
    }
}

/// The serialization of a whole document: the doctype, then the root.
pub open spec fn enc_document(root: ElementModel) -> Seq<char> {
    "<!DOCTYPE html>"@ + enc_elem(root)
}

/// Appends ` name="value"` for every attribute pair.
fn encode_attrs(attrs: &crate::attrs::HtmlAttrs, out: &mut String)
    ensures
        final(out)@ == old(out)@ + enc_attrs(attrs@),
{
    let n = attrs.len();
    let mut i: usize = 0;
    proof {
        assert(attrs@.take(0) =~= Seq::<(Attr, Seq<char>)>::empty());
        assert(out@ =~= old(out)@ + enc_attrs(attrs@.take(0)));
    }
    while i < n
        invariant
            0 <= i <= n,
            n == attrs@.len(),
            out@ == old(out)@ + enc_attrs(attrs@.take(i as int)),
        decreases n - i,
    {
        let (a, v) = attrs.entry(i);
        push_char(out, ' ');
        out.append(a.name());
        out.append("=\"");
        escape_attr_into(v.as_str(), out);
        push_char(out, '"');
        proof {
            assert(attrs@.take(i as int + 1).drop_last() =~= attrs@.take(i as int));
            assert(attrs@.take(i as int + 1).last() == attrs@[i as int]);
            assert("=\""@ =~= seq!['=', '"']) by {
                reveal_strlit("=\"");
            }
            assert(out@ =~= old(out)@ + enc_attrs(attrs@.take(i as int + 1)));
        }
        i = i + 1;
    }
    proof {
        assert(attrs@.take(n as int) =~= attrs@);
    }
}

/// Appends the serialization of one node.
fn encode_node(n: &HtmlNode, out: &mut String)
    ensures
        final(out)@ == old(out)@ + enc_node(n@),
    decreases *n,
{
    match n {
        HtmlNode::Text(s) => {
            escape_text_into(s.as_str(), out);
        },
        HtmlNode::Frame(f) => {
            out.append("<svg width=\"");
            append_u32(out, f.width);
            out.append("\" height=\"");
            append_u32(out, f.height);
            out.append("\">");
            out.append(f.svg.as_str());
            out.append("</svg>");
            proof {
                assert(out@ =~= old(out)@ + enc_node(n@));
            }
        },
        HtmlNode::Element(e) => {
            encode_element(e, out);
        },
    }
}

/// Appends the serialization of one element: the open tag with its
/// attributes, then, unless the tag is void, the children and the closing
/// tag.
fn encode_element(e: &HtmlElement, out: &mut String)
    ensures
        final(out)@ == old(out)@ + enc_elem(elem_view(*e)),
    decreases *e,
{
    let ghost m = elem_view(*e);
    push_char(out, '<');
    out.append(e.tag.name());
    encode_attrs(&e.attrs, out);
    push_char(out, '>');
    proof {
        assert(out@ =~= old(out)@ + enc_open_tag(m));
        lemma_nodes_view(e.children@);
    }
    let cm = e.tag.content_model();
    if matches!(cm, ContentModel::Void) {
        proof {
            assert(out@ =~= old(out)@ + enc_elem(m));
        }
        return ;
    }
    let n = e.children.len();
    let mut i: usize = 0;
    proof {
        assert(m.children.take(0) =~= Seq::<NodeModel>::empty());
        assert(out@ =~= old(out)@ + enc_open_tag(m) + enc_nodes(m.children.take(0)));
    }
    while i < n
        invariant
            0 <= i <= n,
            n == e.children@.len(),
            m == elem_view(*e),
            m.children.len() == n,
            forall|j: int| 0 <= j < n ==> #[trigger] m.children[j] == crate::dom::node_view(
                e.children@[j],
            ),
            out@ == old(out)@ + enc_open_tag(m) + enc_nodes(m.children.take(i as int)),
        decreases n - i,
    {
        proof {
            assert(decreases_to!(*e => e.children@[i as int]));
        }
        encode_node(&e.children[i], out);
        proof {
            assert(m.children.take(i as int + 1).drop_last() =~= m.children.take(i as int));
            assert(m.children.take(i as int + 1).last() == m.children[i as int]);
            assert(out@ =~= old(out)@ + enc_open_tag(m) + enc_nodes(m.children.take(i as int + 1)));
        }
        i = i + 1;
    }
    proof {
        assert(m.children.take(n as int) =~= m.children);
    }
    out.append("</");
    out.append(e.tag.name());
    push_char(out, '>');
    proof {
        assert("</"@ =~= seq!['<', '/']) by {
            reveal_strlit("</");
        }
        assert(out@ =~= old(out)@ + enc_elem(m));
    }
}

/// Serializes a whole document: the doctype, then the root element. The
/// encoder is total and a pure function of the tree: the result is pinned to
/// `enc_document`, so encoding the same tree always yields the same bytes.
pub fn html(document: &HtmlDocument) -> (r: String)
    ensures
        r@ == enc_document(document@),
{
    let mut out = String::new();
    out.append("<!DOCTYPE html>");
    encode_element(&document.root, &mut out);
    out
}

/// Serializes nodes as a document fragment, for embedding into a larger
/// document: no doctype and no synthesized shell.
pub fn html_fragment(nodes: &Vec<HtmlNode>) -> (r: String)
    ensures
        r@ == enc_nodes(nodes_view(nodes@)),
{
    let ghost m = nodes_view(nodes@);
    proof {
        lemma_nodes_view(nodes@);
    }
    let mut out = String::new();
    let n = nodes.len();
    let mut i: usize = 0;
    proof {
        assert(m.take(0) =~= Seq::<NodeModel>::empty());
        assert(out@ =~= enc_nodes(m.take(0)));
    }
    while i < n
        invariant
            0 <= i <= n,
            n == nodes@.len(),
            m == nodes_view(nodes@),
            m.len() == n,
            forall|j: int| 0 <= j < n ==> #[trigger] m[j] == crate::dom::node_view(nodes@[j]),
            out@ == enc_nodes(m.take(i as int)),
        decreases n - i,
    {
        encode_node(&nodes[i], &mut out);
        proof {
            assert(m.take(i as int + 1).drop_last() =~= m.take(i as int));
            assert(m.take(i as int + 1).last() == m[i as int]);
            assert(out@ =~= enc_nodes(m.take(i as int + 1)));
        }
        i = i + 1;
    }
    proof {
        assert(m.take(n as int) =~= m);
    }
    out
}

/// Law: encoding is deterministic. Two encodings of the same document are
/// byte-identical.
pub proof fn lemma_encode_idempotent(d: ElementModel, r1: Seq<char>, r2: Seq<char>)
    requires
        r1 == enc_document(d),
        r2 == enc_document(d),
    ensures
        r1 == r2,
{
}

} // verus!
