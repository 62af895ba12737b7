use typst_html::attrs::HtmlAttrs;
use typst_html::convert::html_document;
use typst_html::css::{CssProperty, Properties};
use typst_html::dom::{Content, FrameElem, HtmlElem, HtmlElement, HtmlFrame, HtmlNode};
use typst_html::encode::html;
use typst_html::span::{zspan, Span, Spanned, SpanlessEq};
use typst_html::tag::{Attr, HtmlError, Tag};

fn render(content: Content) -> (String, Vec<HtmlError>) {
    let (doc, errs) = html_document(&content);
    (html(&doc), errs)
}

#[test]
fn empty_document_synthesizes_shell() {
    let (out, errs) = render(Content::Sequence(Vec::new()));
    assert!(errs.is_empty());
    assert_eq!(
        out,
        "<!DOCTYPE html><html><head><meta charset=\"utf-8\"></head><body></body></html>"
    );
}

#[test]
fn meta_with_body_is_a_content_model_violation() {
    let elem = HtmlElem::new(Tag::Meta).with_body(Some(Content::Text("oops".to_owned())));
    let (out, errs) = render(Content::Elem(Box::new(elem)));
    assert_eq!(errs, vec![HtmlError::ContentModelViolation(Tag::Meta)]);
    // The violating subtree is dropped from the output.
    assert_eq!(
        out,
        "<!DOCTYPE html><html><head><meta charset=\"utf-8\"></head><body></body></html>"
    );
}

#[test]
fn meta_without_body_serializes_as_void() {
    let elem = HtmlElem::new(Tag::Meta).with_attr(Attr::Name, "viewport".to_owned());
    let (out, errs) = render(Content::Elem(Box::new(elem)));
    assert!(errs.is_empty());
    assert!(out.contains("<meta name=\"viewport\">"));
    assert!(!out.contains("</meta>"));
}

#[test]
fn style_declarations_last_write_wins() {
    let mut props = Properties::new();
    props.push(CssProperty::Color, "red".to_owned());
    props.push(CssProperty::Color, "blue".to_owned());
    let elem = HtmlElem::new(Tag::Div).with_styles(props);
    let (out, errs) = render(Content::Elem(Box::new(elem)));
    assert!(errs.is_empty());
    assert!(out.contains("<div style=\"color: blue\"></div>"));
    assert!(!out.contains("red"));
}

#[test]
fn inline_style_order_does_not_matter() {
    let mut a = Properties::new();
    a.push(CssProperty::Color, "red".to_owned());
    a.push(CssProperty::TextAlign, "center".to_owned());
    let mut b = Properties::new();
    b.push(CssProperty::TextAlign, "center".to_owned());
    b.push(CssProperty::Color, "red".to_owned());
    let sa = a.into_inline_styles().unwrap();
    let sb = b.into_inline_styles().unwrap();
    assert_eq!(sa, sb);
    assert_eq!(sa, "color: red; text-align: center");
}

#[test]
fn empty_styles_leave_no_attribute() {
    let props = Properties::new();
    assert_eq!(props.into_inline_styles(), None);
    let elem = HtmlElem::new(Tag::Div).with_styles(Properties::new());
    let (out, _) = render(Content::Elem(Box::new(elem)));
    assert!(out.contains("<div></div>"));
}

#[test]
fn frame_serializes_with_intrinsic_size() {
    let frame = HtmlFrame { width: 100, height: 50, svg: "<rect/>".to_owned() };
    let (out, errs) = render(Content::Frame(frame));
    assert!(errs.is_empty());
    assert!(out.contains("<svg width=\"100\" height=\"50\"><rect/></svg>"));
}

#[test]
fn explicit_html_root_suppresses_shell() {
    let body = HtmlElem::new(Tag::Body).with_body(Some(Content::Text("hi".to_owned())));
    let root = HtmlElem::new(Tag::Html).with_body(Some(Content::Elem(Box::new(body))));
    let (out, errs) = render(Content::Elem(Box::new(root)));
    assert!(errs.is_empty());
    assert_eq!(out.matches("<html").count(), 1);
    assert_eq!(out, "<!DOCTYPE html><html><body>hi</body></html>");
}

#[test]
fn text_is_escaped() {
    let (out, _) = render(Content::Text("1 < 2 & 4 > 3".to_owned()));
    assert!(out.contains("1 &lt; 2 &amp; 4 &gt; 3"));
    let body_start = out.find("<body>").unwrap();
    let body_end = out.find("</body>").unwrap();
    let body = &out[body_start + 6..body_end];
    assert!(!body.contains('<'));
    assert!(!body.contains('>'));
}

#[test]
fn attribute_values_are_escaped() {
    let elem = HtmlElem::new(Tag::Div).with_attr(Attr::Title, "say \"hi\" & 'bye'".to_owned());
    let (out, _) = render(Content::Elem(Box::new(elem)));
    assert!(out.contains("title=\"say &quot;hi&quot; &amp; &#39;bye&#39;\""));
}

#[test]
fn encoding_is_idempotent() {
    let content = Content::Sequence(vec![
        Content::Heading(2, vec![Content::Text("Title".to_owned())]),
        Content::Par(vec![
            Content::Text("Some ".to_owned()),
            Content::Strong(vec![Content::Text("bold".to_owned())]),
            Content::Emph(vec![Content::Text(" words".to_owned())]),
        ]),
        Content::Link("https://example.org".to_owned(), vec![Content::Text("link".to_owned())]),
    ]);
    let (doc, errs) = html_document(&content);
    assert!(errs.is_empty());
    let first = html(&doc);
    let second = html(&doc);
    assert_eq!(first, second);
    assert!(first.contains("<h2>Title</h2>"));
    assert!(first.contains("<p>Some <strong>bold</strong><em> words</em></p>"));
    assert!(first.contains("<a href=\"https://example.org\">link</a>"));
}

#[test]
fn element_constructor_enforces_content_model() {
    let child = HtmlNode::Text("x".to_owned());
    assert!(matches!(
        HtmlElement::new(Tag::Br, HtmlAttrs::new(), vec![child]),
        Err(HtmlError::ContentModelViolation(Tag::Br))
    ));
    assert!(HtmlElement::new(Tag::Title, HtmlAttrs::new(), vec![HtmlNode::Text("t".to_owned())])
        .is_ok());
    let elem_child = HtmlNode::Element(
        HtmlElement::new(Tag::Div, HtmlAttrs::new(), Vec::new()).unwrap(),
    );
    assert!(matches!(
        HtmlElement::new(Tag::Title, HtmlAttrs::new(), vec![elem_child]),
        Err(HtmlError::ContentModelViolation(Tag::Title))
    ));
}

#[test]
fn text_only_body_violation_is_diagnosed() {
    let inner = HtmlElem::new(Tag::Div);
    let title = HtmlElem::new(Tag::Title).with_body(Some(Content::Elem(Box::new(inner))));
    let (out, errs) = render(Content::Elem(Box::new(title)));
    assert_eq!(errs, vec![HtmlError::ContentModelViolation(Tag::Title)]);
    assert!(!out.contains("<title>"));
}

#[test]
fn attrs_deduplicate_last_write_wins() {
    let mut attrs = HtmlAttrs::new();
    attrs.push(Attr::Id, "one".to_owned());
    attrs.push(Attr::Class, "c".to_owned());
    attrs.push(Attr::Id, "two".to_owned());
    assert_eq!(attrs.len(), 2);
    assert_eq!(attrs.get(Attr::Id), Some("two".to_owned()));
    assert_eq!(attrs.get(Attr::Class), Some("c".to_owned()));
    assert_eq!(attrs.get(Attr::Href), None);
    // First-insertion order is kept.
    assert_eq!(attrs.entry(0).0, Attr::Id);
    assert_eq!(attrs.entry(1).0, Attr::Class);
}

#[test]
fn optional_attr() {
    let elem = HtmlElem::new(Tag::A)
        .with_optional_attr(Attr::Href, Some("x".to_owned()))
        .with_optional_attr(Attr::Title, None);
    let (out, _) = render(Content::Elem(Box::new(elem)));
    assert!(out.contains("<a href=\"x\"></a>"));
    assert!(!out.contains("title"));
}

#[test]
fn vocabulary_lookup() {
    assert_eq!(Tag::from_name("div"), Ok(Tag::Div));
    assert_eq!(Tag::from_name("html"), Ok(Tag::Html));
    assert_eq!(
        Tag::from_name("blink"),
        Err(HtmlError::UnknownIdentifier("blink".to_owned()))
    );
    assert_eq!(Attr::from_name("charset"), Ok(Attr::Charset));
    assert_eq!(
        Attr::from_name("onclick"),
        Err(HtmlError::UnknownIdentifier("onclick".to_owned()))
    );
    assert_eq!(Tag::Section.name(), "section");
    assert_eq!(Attr::Height.name(), "height");
}

#[test]
fn heading_levels_clamp() {
    let (out, _) = render(Content::Sequence(vec![
        Content::Heading(0, vec![Content::Text("a".to_owned())]),
        Content::Heading(6, vec![Content::Text("b".to_owned())]),
        Content::Heading(99, vec![Content::Text("c".to_owned())]),
    ]));
    assert!(out.contains("<h1>a</h1>"));
    assert!(out.contains("<h6>b</h6>"));
    assert!(out.contains("<h6>c</h6>"));
}

#[test]
fn frame_elem_marks_content() {
    let fe = FrameElem::new(Content::Text("plot".to_owned()));
    match fe.body {
        Content::Text(s) => assert_eq!(s, "plot"),
        _ => panic!("unexpected body"),
    }
}

#[test]
fn fragment_has_no_shell() {
    let content = Content::Par(vec![Content::Text("a < b".to_owned())]);
    let (nodes, errs) = typst_html::convert::convert_content(&content);
    assert!(errs.is_empty());
    let out = typst_html::encode::html_fragment(&nodes);
    assert_eq!(out, "<p>a &lt; b</p>");
}

#[test]
fn spans_and_spanless_eq() {
    let z = zspan(5u32);
    assert_eq!(z.v, 5);
    assert_eq!(z.span, Span::zero());

    let a = vec![
        Spanned { v: "x".to_owned(), span: Span::zero() },
        Spanned { v: "y".to_owned(), span: Span::zero() },
    ];
    let b = vec![
        zspan("x".to_owned()),
        Spanned {
            v: "y".to_owned(),
            span: Span::new(
                typst_html::span::Position::new(1, 2),
                typst_html::span::Position::new(3, 4),
            ),
        },
    ];
    assert!(a.spanless_eq(&b));
    assert!(a != b);
    let c = vec![zspan("x".to_owned()), zspan("z".to_owned())];
    assert!(!a.spanless_eq(&c));
}
