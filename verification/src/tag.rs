//! The closed tag and attribute vocabulary, and the content-model rules
//! consulted when elements are constructed and converted.

use vstd::prelude::*;
use crate::text::str_eq;

verus! {

/// A validated element name. Only names of this closed vocabulary can stand
/// on an element, so invalid markup is unrepresentable by construction.
#[derive(Clone, Copy, PartialEq, Eq, Structural, Hash, Debug)]
pub enum Tag {
    /// `html`
    Html,
    /// `head`
    Head,
    /// `body`
    Body,
    /// `title`
    Title,
    /// `meta`
    Meta,
    /// `link`
    Link,
    /// `style`
    Style,
    /// `script`
    Script,
    /// `div`
    Div,
    /// `span`
    Span,
    /// `p`
    P,
    /// `a`
    A,
    /// `em`
    Em,
    /// `strong`
    Strong,
    /// `code`
    Code,
    /// `pre`
    Pre,
    /// `h1`
    H1,
    /// `h2`
    H2,
    /// `h3`
    H3,
    /// `h4`
    H4,
    /// `h5`
    H5,
    /// `h6`
    H6,
    /// `ul`
    Ul,
    /// `ol`
    Ol,
    /// `li`
    Li,
    /// `br`
    Br,
    /// `hr`
    Hr,
    /// `img`
    Img,
    /// `article`
    Article,
    /// `section`
    Section,
}

/// A validated attribute name; a namespace distinct from the tags.
#[derive(Clone, Copy, PartialEq, Eq, Structural, Hash, Debug)]
pub enum Attr {
    /// `charset`
    Charset,
    /// `content`
    Content,
    /// `href`
    Href,
    /// `src`
    Src,
    /// `alt`
    Alt,
    /// `id`
    Id,
    /// `class`
    Class,
    /// `style`
    Style,
    /// `name`
    Name,
    /// `rel`
    Rel,
    /// `width`
    Width,
    /// `height`
    Height,
    /// `lang`
    Lang,
    /// `title`
    Title,
}

/// The content-model constraint of a tag.
#[derive(Clone, Copy, PartialEq, Eq, Structural, Debug)]
pub enum ContentModel {
    /// Arbitrary child nodes are permitted.
    Normal,
    /// The element never has content and is serialized without a closing
    /// tag; supplying a body is a violation.
    Void,
    /// Only text children are permitted.
    TextOnly,
}

/// What went wrong while building or converting markup.
#[derive(Clone, PartialEq, Eq, Debug)]
pub enum HtmlError {
    /// A requested tag or attribute name is outside the vocabulary.
    UnknownIdentifier(String),
    /// A tag's content-model rule was violated, for instance a body was
    /// supplied to a void tag. Carries the offending tag.
    ContentModelViolation(Tag),
}

/// The name of a tag.
pub open spec fn tag_name(t: Tag) -> Seq<char> {
    match t {
        Tag::Html => "html"@,
        Tag::Head => "head"@,
        Tag::Body => "body"@,
        Tag::Title => "title"@,
        Tag::Meta => "meta"@,
        Tag::Link => "link"@,
        Tag::Style => "style"@,
        Tag::Script => "script"@,
        Tag::Div => "div"@,
        Tag::Span => "span"@,
        Tag::P => "p"@,
        Tag::A => "a"@,
        Tag::Em => "em"@,
        Tag::Strong => "strong"@,
        Tag::Code => "code"@,
        Tag::Pre => "pre"@,
        Tag::H1 => "h1"@,
        Tag::H2 => "h2"@,
        Tag::H3 => "h3"@,
        Tag::H4 => "h4"@,
        Tag::H5 => "h5"@,
        Tag::H6 => "h6"@,
        Tag::Ul => "ul"@,
        Tag::Ol => "ol"@,
        Tag::Li => "li"@,
        Tag::Br => "br"@,
        Tag::Hr => "hr"@,
        Tag::Img => "img"@,
        Tag::Article => "article"@,
        Tag::Section => "section"@,
    }
}

/// The content-model constraint of a tag. A total table: every tag of the
/// vocabulary has its rule by construction.
pub open spec fn spec_content_model(t: Tag) -> ContentModel {
    match t {
        Tag::Meta => ContentModel::Void,
        Tag::Link => ContentModel::Void,
        Tag::Br => ContentModel::Void,
        Tag::Hr => ContentModel::Void,
        Tag::Img => ContentModel::Void,
        Tag::Title => ContentModel::TextOnly,
        Tag::Style => ContentModel::TextOnly,
        Tag::Script => ContentModel::TextOnly,
        _ => ContentModel::Normal,
    }
}

/// The tag of the vocabulary whose name is `s`, if any.
pub open spec fn spec_tag_from_name(s: Seq<char>) -> Option<Tag> {
    if s == tag_name(Tag::Html) {
        Some(Tag::Html)
    } else if s == tag_name(Tag::Head) {
        Some(Tag::Head)
    } else if s == tag_name(Tag::Body) {
        Some(Tag::Body)
    } else if s == tag_name(Tag::Title) {
        Some(Tag::Title)
    } else if s == tag_name(Tag::Meta) {
        Some(Tag::Meta)
    } else if s == tag_name(Tag::Link) {
        Some(Tag::Link)
    } else if s == tag_name(Tag::Style) {
        Some(Tag::Style)
    } else if s == tag_name(Tag::Script) {
        Some(Tag::Script)
    } else if s == tag_name(Tag::Div) {
        Some(Tag::Div)
    } else if s == tag_name(Tag::Span) {
        Some(Tag::Span)
    } else if s == tag_name(Tag::P) {
        Some(Tag::P)
    } else if s == tag_name(Tag::A) {
        Some(Tag::A)
    } else if s == tag_name(Tag::Em) {
        Some(Tag::Em)
    } else if s == tag_name(Tag::Strong) {
        Some(Tag::Strong)
    } else if s == tag_name(Tag::Code) {
        Some(Tag::Code)
    } else if s == tag_name(Tag::Pre) {
        Some(Tag::Pre)
    } else if s == tag_name(Tag::H1) {
        Some(Tag::H1)
    } else if s == tag_name(Tag::H2) {
        Some(Tag::H2)
    } else if s == tag_name(Tag::H3) {
        Some(Tag::H3)
    } else if s == tag_name(Tag::H4) {
        Some(Tag::H4)
    } else if s == tag_name(Tag::H5) {
        Some(Tag::H5)
    } else if s == tag_name(Tag::H6) {
        Some(Tag::H6)
    } else if s == tag_name(Tag::Ul) {
        Some(Tag::Ul)
    } else if s == tag_name(Tag::Ol) {
        Some(Tag::Ol)
    } else if s == tag_name(Tag::Li) {
        Some(Tag::Li)
    } else if s == tag_name(Tag::Br) {
        Some(Tag::Br)
    } else if s == tag_name(Tag::Hr) {
        Some(Tag::Hr)
    } else if s == tag_name(Tag::Img) {
        Some(Tag::Img)
    } else if s == tag_name(Tag::Article) {
        Some(Tag::Article)
    } else if s == tag_name(Tag::Section) {
        Some(Tag::Section)
    } else {
        None
    }
}

impl Tag {
    /// The tag's name as it is serialized.
    pub fn name(&self) -> (r: &'static str)
        ensures
            r@ == tag_name(*self),
    {
        match self {
            Tag::Html => "html",
            Tag::Head => "head",
            Tag::Body => "body",
            Tag::Title => "title",
            Tag::Meta => "meta",
            Tag::Link => "link",
            Tag::Style => "style",
            Tag::Script => "script",
            Tag::Div => "div",
            Tag::Span => "span",
            Tag::P => "p",
            Tag::A => "a",
            Tag::Em => "em",
            Tag::Strong => "strong",
            Tag::Code => "code",
            Tag::Pre => "pre",
            Tag::H1 => "h1",
            Tag::H2 => "h2",
            Tag::H3 => "h3",
            Tag::H4 => "h4",
            Tag::H5 => "h5",
            Tag::H6 => "h6",
            Tag::Ul => "ul",
            Tag::Ol => "ol",
            Tag::Li => "li",
            Tag::Br => "br",
            Tag::Hr => "hr",
            Tag::Img => "img",
            Tag::Article => "article",
            Tag::Section => "section",
        }
    }

    /// Looks the name up in the vocabulary; an unknown name is rejected.
    pub fn from_name(s: &str) -> (r: Result<Tag, HtmlError>)
        ensures
            match r {
                Ok(t) => spec_tag_from_name(s@) == Some(t),
                Err(e) => spec_tag_from_name(s@) is None && e is UnknownIdentifier
                    && e->UnknownIdentifier_0@ == s@,
            },
    {
        if str_eq(s, "html") {
            Ok(Tag::Html)
        } else if str_eq(s, "head") {
            Ok(Tag::Head)
        } else if str_eq(s, "body") {
            Ok(Tag::Body)
        } else if str_eq(s, "title") {
            Ok(Tag::Title)
        } else if str_eq(s, "meta") {
            Ok(Tag::Meta)
        } else if str_eq(s, "link") {
            Ok(Tag::Link)
        } else if str_eq(s, "style") {
            Ok(Tag::Style)
        } else if str_eq(s, "script") {
            Ok(Tag::Script)
        } else if str_eq(s, "div") {
            Ok(Tag::Div)
        } else if str_eq(s, "span") {
            Ok(Tag::Span)
        } else if str_eq(s, "p") {
            Ok(Tag::P)
        } else if str_eq(s, "a") {
            Ok(Tag::A)
        } else if str_eq(s, "em") {
            Ok(Tag::Em)
        } else if str_eq(s, "strong") {
            Ok(Tag::Strong)
        } else if str_eq(s, "code") {
            Ok(Tag::Code)
        } else if str_eq(s, "pre") {
            Ok(Tag::Pre)
        } else if str_eq(s, "h1") {
            Ok(Tag::H1)
        } else if str_eq(s, "h2") {
            Ok(Tag::H2)
        } else if str_eq(s, "h3") {
            Ok(Tag::H3)
        } else if str_eq(s, "h4") {
            Ok(Tag::H4)
        } else if str_eq(s, "h5") {
            Ok(Tag::H5)
        } else if str_eq(s, "h6") {
            Ok(Tag::H6)
        } else if str_eq(s, "ul") {
            Ok(Tag::Ul)
        } else if str_eq(s, "ol") {
            Ok(Tag::Ol)
        } else if str_eq(s, "li") {
            Ok(Tag::Li)
        } else if str_eq(s, "br") {
            Ok(Tag::Br)
        } else if str_eq(s, "hr") {
            Ok(Tag::Hr)
        } else if str_eq(s, "img") {
            Ok(Tag::Img)
        } else if str_eq(s, "article") {
            Ok(Tag::Article)
        } else if str_eq(s, "section") {
            Ok(Tag::Section)
        } else {
            Err(HtmlError::UnknownIdentifier(s.to_owned()))
        }
    }

    /// The content-model constraint of this tag.
    pub fn content_model(&self) -> (r: ContentModel)
        ensures
            r == spec_content_model(*self),
    {
        match self {
            Tag::Meta | Tag::Link | Tag::Br | Tag::Hr | Tag::Img => ContentModel::Void,
            Tag::Title | Tag::Style | Tag::Script => ContentModel::TextOnly,
            _ => ContentModel::Normal,
        }
    }
}

/// The name of an attribute.
pub open spec fn attr_name(a: Attr) -> Seq<char> {
    match a {
        Attr::Charset => "charset"@,
        Attr::Content => "content"@,
        Attr::Href => "href"@,
        Attr::Src => "src"@,
        Attr::Alt => "alt"@,
        Attr::Id => "id"@,
        Attr::Class => "class"@,
        Attr::Style => "style"@,
        Attr::Name => "name"@,
        Attr::Rel => "rel"@,
        Attr::Width => "width"@,
        Attr::Height => "height"@,
        Attr::Lang => "lang"@,
        Attr::Title => "title"@,
    }
}

/// The attribute of the vocabulary whose name is `s`, if any.
pub open spec fn spec_attr_from_name(s: Seq<char>) -> Option<Attr> {
    if s == attr_name(Attr::Charset) {
        Some(Attr::Charset)
    } else if s == attr_name(Attr::Content) {
        Some(Attr::Content)
    } else if s == attr_name(Attr::Href) {
        Some(Attr::Href)
    } else if s == attr_name(Attr::Src) {
        Some(Attr::Src)
    } else if s == attr_name(Attr::Alt) {
        Some(Attr::Alt)
    } else if s == attr_name(Attr::Id) {
        Some(Attr::Id)
    } else if s == attr_name(Attr::Class) {
        Some(Attr::Class)
    } else if s == attr_name(Attr::Style) {
        Some(Attr::Style)
    } else if s == attr_name(Attr::Name) {
        Some(Attr::Name)
    } else if s == attr_name(Attr::Rel) {
        Some(Attr::Rel)
    } else if s == attr_name(Attr::Width) {
        Some(Attr::Width)
    } else if s == attr_name(Attr::Height) {
        Some(Attr::Height)
    } else if s == attr_name(Attr::Lang) {
        Some(Attr::Lang)
    } else if s == attr_name(Attr::Title) {
        Some(Attr::Title)
    } else {
        None
    }
}

impl Attr {
    /// The attribute's name as it is serialized.
    pub fn name(&self) -> (r: &'static str)
        ensures
            r@ == attr_name(*self),
    {
        match self {
            Attr::Charset => "charset",
            Attr::Content => "content",
            Attr::Href => "href",
            Attr::Src => "src",
            Attr::Alt => "alt",
            Attr::Id => "id",
            Attr::Class => "class",
            Attr::Style => "style",
            Attr::Name => "name",
            Attr::Rel => "rel",
            Attr::Width => "width",
            Attr::Height => "height",
            Attr::Lang => "lang",
            Attr::Title => "title",
        }
    }

    /// Looks the name up in the vocabulary; an unknown name is rejected.
    pub fn from_name(s: &str) -> (r: Result<Attr, HtmlError>)
        ensures
            match r {
                Ok(a) => spec_attr_from_name(s@) == Some(a),
                Err(e) => spec_attr_from_name(s@) is None && e is UnknownIdentifier
                    && e->UnknownIdentifier_0@ == s@,
            },
    {
        if str_eq(s, "charset") {
            Ok(Attr::Charset)
        } else if str_eq(s, "content") {
            Ok(Attr::Content)
        } else if str_eq(s, "href") {
            Ok(Attr::Href)
        } else if str_eq(s, "src") {
            Ok(Attr::Src)
        } else if str_eq(s, "alt") {
            Ok(Attr::Alt)
        } else if str_eq(s, "id") {
            Ok(Attr::Id)
        } else if str_eq(s, "class") {
            Ok(Attr::Class)
        } else if str_eq(s, "style") {
            Ok(Attr::Style)
        } else if str_eq(s, "name") {
            Ok(Attr::Name)
        } else if str_eq(s, "rel") {
            Ok(Attr::Rel)
        } else if str_eq(s, "width") {
            Ok(Attr::Width)
        } else if str_eq(s, "height") {
            Ok(Attr::Height)
        } else if str_eq(s, "lang") {
            Ok(Attr::Lang)
        } else if str_eq(s, "title") {
            Ok(Attr::Title)
        } else {
            Err(HtmlError::UnknownIdentifier(s.to_owned()))
        }
    }
}

} // verus!
