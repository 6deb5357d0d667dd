//! The renderable-node abstraction: a closed set of node variants behind the
//! `HtmlElement` capability trait, plus the builder methods that configure
//! them. Every variant escapes its own text and attribute values; the
//! serializer only concatenates what the accessors hand it.
use vstd::prelude::*;

use crate::attrs::kv_views;
use crate::attrs::kvs_unique_keys;
use crate::attrs::kvs_upsert;
use crate::attrs::upsert_attr;
use crate::escape::apos_entity;
use crate::escape::encode_markup;
use crate::escape::encode_text_content;
use crate::escape::escape_apos;
use crate::escape::escape_markup;
use crate::render::render_container;
use crate::render::render_image;
use crate::render::render_spec;
use crate::render::render_text;

verus! {

/// A plain text node: an inline wrapper tag around fully escaped text.
pub struct TextElement {
    pub content: String,
}

/// Raw markup passed through to the output verbatim: no tag, no escaping.
pub struct RawHtml {
    pub content: String,
}

/// A self-closing media node with a required source attribute, an optional
/// alternative text, and arbitrary extra attributes.
pub struct ImageElement {
    pub src: String,
    pub alt: Option<String>,
    pub attributes: Vec<(String, String)>,
}

/// A nestable container node: a caller-supplied tag, an optional id, a class
/// list, arbitrary extra attributes, and an ordered list of owned children.
pub struct ContainerElement {
    pub tag: String,
    pub attributes: Vec<(String, String)>,
    pub children: Vec<Node>,
    pub classes: Vec<String>,
    pub id: Option<String>,
}

/// The closed set of renderable nodes a tree is built from.
pub enum Node {
    Text(TextElement),
    Raw(RawHtml),
    Image(ImageElement),
    Container(ContainerElement),
}

/// The view of a list of owned strings as a list of character sequences.
pub open spec fn str_views(s: Seq<String>) -> Seq<Seq<char>> {
    s.map_values(|x: String| x@)
}

/// The class list joined with single spaces into one attribute value.
pub open spec fn join_classes(cs: Seq<Seq<char>>) -> Seq<char>
    decreases cs.len(),
{
    if cs.len() == 0 {
        Seq::empty()
    } else if cs.len() == 1 {
        cs[0]
    } else {
        join_classes(cs.drop_last()) + " "@ + cs.last()
    }
}

/// The extra attributes of a media node: keys kept as given, values escaped.
pub open spec fn image_extra_attrs(s: Seq<(String, String)>) -> Seq<(Seq<char>, Seq<char>)> {
    s.map_values(|p: (String, String)| (p.0@, escape_markup(p.1@)))
}

/// The extra attributes of a container node: keys and values both escaped.
pub open spec fn container_extra_attrs(s: Seq<(String, String)>) -> Seq<(Seq<char>, Seq<char>)> {
    s.map_values(|p: (String, String)| (escape_markup(p.0@), escape_markup(p.1@)))
}

/// The attribute list of a media node: the source first, then the
/// alternative text when present, then the extra attributes.
pub open spec fn image_attrs(img: ImageElement) -> Seq<(Seq<char>, Seq<char>)> {
    let base = if img.alt is Some {
        seq![("src"@, escape_markup(img.src@)), ("alt"@, escape_markup((img.alt->0)@))]
    } else {
        seq![("src"@, escape_markup(img.src@))]
    };
    base + image_extra_attrs(img.attributes@)
}

/// Whether a container renders any attribute text at all.
pub open spec fn container_has_attrs(c: ContainerElement) -> bool {
    c.id is Some || c.classes@.len() > 0 || c.attributes@.len() > 0
}

/// The attribute list of a container node: the id first, then the joined
/// class list when non-empty, then the extra attributes.
pub open spec fn container_attrs(c: ContainerElement) -> Seq<(Seq<char>, Seq<char>)> {
    (if c.id is Some {
        seq![("id"@, escape_markup((c.id->0)@))]
    } else {
        Seq::empty()
    }) + (if c.classes@.len() > 0 {
        seq![("class"@, escape_markup(join_classes(str_views(c.classes@))))]
    } else {
        Seq::empty()
    }) + container_extra_attrs(c.attributes@)
}

/// The tag a node reports; the empty sequence is the raw-content sentinel.
pub open spec fn node_tag(n: Node) -> Seq<char> {
    match n {
        Node::Text(_) => "span"@,
        Node::Raw(_) => Seq::empty(),
        Node::Image(_) => "img"@,
        Node::Container(c) => c.tag@,
    }
}

/// The attribute pairs a node reports, already escaped; `None` renders no
/// attribute text at all.
pub open spec fn node_attrs(n: Node) -> Option<Seq<(Seq<char>, Seq<char>)>> {
    match n {
        Node::Text(_) => None,
        Node::Raw(_) => None,
        Node::Image(img) => Some(image_attrs(img)),
        Node::Container(c) => if container_has_attrs(c) {
            Some(container_attrs(c))
        } else {
            None
        },
    }
}

/// The text content a node reports, already escaped by the node itself.
pub open spec fn node_text(n: Node) -> Option<Seq<char>> {
    match n {
        Node::Text(t) => Some(escape_apos(escape_markup(t.content@))),
        Node::Raw(r) => Some(r.content@),
        Node::Image(_) => None,
        Node::Container(_) => None,
    }
}

/// The children a node owns, in rendering order.
pub open spec fn node_children(n: Node) -> Seq<Node> {
    match n {
        Node::Container(c) => c.children@,
        _ => Seq::empty(),
    }
}

/// Whether a node is void: self-closing, never given a closing tag.
pub open spec fn node_is_void(n: Node) -> bool {
    match n {
        Node::Raw(_) => true,
        Node::Image(_) => true,
        _ => false,
    }
}

/// The capability every renderable node offers: each implementation reports
/// its tag, attributes, text, children and voidness, with text and attribute
/// values escaped at the point they are produced.
pub trait HtmlElement: Sized {
    /// The node this value stands for.
    spec fn as_node(&self) -> Node;

    /// The tag name; the empty string means raw content with no wrapping tag.
    fn tag<'a>(&'a self) -> (t: &'a str)
        ensures
            t@ == node_tag(self.as_node()),
    ;

    /// The attribute pairs, values already escaped; `None` means no
    /// attribute text is rendered.
    fn attributes(&self) -> (a: Option<Vec<(String, String)>>)
        ensures
            match a {
                Some(v) => node_attrs(self.as_node()) == Some(kv_views(v@)),
                None => node_attrs(self.as_node()) is None,
            },
    ;

    /// The text content, already escaped.
    fn text(&self) -> (t: Option<String>)
        ensures
            match t {
                Some(s) => node_text(self.as_node()) == Some(s@),
                None => node_text(self.as_node()) is None,
            },
    ;

    /// The child nodes, in rendering order.
    fn children<'a>(&'a self) -> (cs: Vec<&'a Node>)
        ensures
            cs@.len() == node_children(self.as_node()).len(),
            forall|i: int| 0 <= i < cs@.len() ==> *cs@[i] == node_children(self.as_node())[i],
    ;

    /// Whether the element is void (self-closing).
    fn is_void_element(&self) -> (v: bool)
        ensures
            v == node_is_void(self.as_node()),
    ;

    /// Whether the element has any content: text or children.
    fn has_content(&self) -> (h: bool)
        ensures
            h == (node_text(self.as_node()) is Some || node_children(self.as_node()).len() > 0),
    ;

    /// Renders the element to its markup string.
    fn render(&self) -> (r: String)
        ensures
            r@ == render_spec(self.as_node()),
    ;

    /// Wraps the element into the closed node type.
    fn into_node(self) -> (n: Node)
        ensures
            n == self.as_node(),
    ;
}

impl TextElement {
    /// Creates a text node from raw, unescaped text.
    pub fn new(content: &str) -> (t: TextElement)
        ensures
            t.content@ == content@,
    {
        TextElement { content: content.to_owned() }
    }
}

impl HtmlElement for TextElement {
    open spec fn as_node(&self) -> Node {
        Node::Text(*self)
    }

    fn tag<'a>(&'a self) -> (t: &'a str) {
        "span"
    }

    fn attributes(&self) -> (a: Option<Vec<(String, String)>>) {
        None
    }

    fn text(&self) -> (t: Option<String>) {
        Some(encode_text_content(self.content.as_str()))
    }

    fn children<'a>(&'a self) -> (cs: Vec<&'a Node>) {
        Vec::new()
    }

    fn is_void_element(&self) -> (v: bool) {
        false
    }

    fn has_content(&self) -> (h: bool) {
        true
    }

    fn render(&self) -> (r: String) {
        render_text(self)
    }

    fn into_node(self) -> (n: Node) {
        Node::Text(self)
    }
}

impl RawHtml {
    /// Creates a raw node whose content reaches the output verbatim.
    pub fn new(content: &str) -> (r: RawHtml)
        ensures
            r.content@ == content@,
    {
        RawHtml { content: content.to_owned() }
    }
}

impl HtmlElement for RawHtml {
    open spec fn as_node(&self) -> Node {
        Node::Raw(*self)
    }

    fn tag<'a>(&'a self) -> (t: &'a str) {
        proof {
            reveal_strlit("");
            assert(""@ =~= Seq::<char>::empty());
        }
        ""
    }

    fn attributes(&self) -> (a: Option<Vec<(String, String)>>) {
        None
    }

    fn text(&self) -> (t: Option<String>) {
        Some(self.content.clone())
    }

    fn children<'a>(&'a self) -> (cs: Vec<&'a Node>) {
        Vec::new()
    }

    fn is_void_element(&self) -> (v: bool) {
        true
    }

    fn has_content(&self) -> (h: bool) {
        true
    }

    fn render(&self) -> (r: String) {
        self.content.clone()
    }

    fn into_node(self) -> (n: Node) {
        Node::Raw(self)
    }
}

impl core::default::Default for ImageElement {
    /// A media node with an empty source and nothing else set.
    fn default() -> (img: ImageElement)
        ensures
            img.src@.len() == 0,
            img.alt is None,
            img.attributes@.len() == 0,
    {
        ImageElement { src: String::new(), alt: None, attributes: Vec::new() }
    }
}

impl ImageElement {
    /// Creates a media node with the given source and nothing else set.
    pub fn new(src: &str) -> (img: ImageElement)
        ensures
            img.src@ == src@,
            img.alt is None,
            img.attributes@.len() == 0,
    {
        ImageElement { src: src.to_owned(), alt: None, attributes: Vec::new() }
    }

    /// Sets the alternative text.
    pub fn with_alt(self, alt: &str) -> (r: ImageElement)
        ensures
            r.src == self.src,
            r.attributes == self.attributes,
            r.alt is Some && (r.alt->0)@ == alt@,
    {
        ImageElement { alt: Some(alt.to_owned()), ..self }
    }

    /// Adds one extra attribute with map semantics: a repeated key replaces
    /// the earlier value.
    pub fn with_attribute(self, key: &str, value: &str) -> (r: ImageElement)
        ensures
            r.src == self.src,
            r.alt == self.alt,
            kv_views(r.attributes@) == kvs_upsert(kv_views(self.attributes@), key@, value@),
            kvs_unique_keys(kv_views(self.attributes@)) ==> kvs_unique_keys(
                kv_views(r.attributes@),
            ),
    {
        let mut r = self;
        upsert_attr(&mut r.attributes, key, value);
        r
    }
}

impl HtmlElement for ImageElement {
    open spec fn as_node(&self) -> Node {
        Node::Image(*self)
    }

    fn tag<'a>(&'a self) -> (t: &'a str) {
        "img"
    }

    fn attributes(&self) -> (a: Option<Vec<(String, String)>>) {
        let mut out: Vec<(String, String)> = Vec::new();
        let src_val = encode_markup(self.src.as_str());
        out.push(("src".to_owned(), src_val));
        match &self.alt {
            Some(alt) => {
                let alt_val = encode_markup(alt.as_str());
                out.push(("alt".to_owned(), alt_val));
            },
            None => {},
        }
        proof {
            let base = if self.alt is Some {
                seq![("src"@, escape_markup(self.src@)), ("alt"@, escape_markup((self.alt->0)@))]
            } else {
                seq![("src"@, escape_markup(self.src@))]
            };
            assert(kv_views(out@) =~= base);
        }
        let ghost base = kv_views(out@);
        let mut i: usize = 0;
        while i < self.attributes.len()
            invariant
                i <= self.attributes@.len(),
                kv_views(out@) =~= base + image_extra_attrs(self.attributes@.subrange(0, i as int)),
            decreases self.attributes@.len() - i,
        {
            let kv = &self.attributes[i];
            let key = kv.0.clone();
            let val = encode_markup(kv.1.as_str());
            let ghost prev = out@;
            out.push((key, val));
            proof {
                let sub = self.attributes@.subrange(0, i as int);
                let sub1 = self.attributes@.subrange(0, i + 1);
                assert(sub1.drop_last() =~= sub);
                assert(out@.last().0@ == self.attributes@[i as int].0@);
                assert(out@.last().1@ == escape_markup(self.attributes@[i as int].1@));
                assert(kv_views(out@) =~= kv_views(prev).push(
                    (out@.last().0@, out@.last().1@),
                ));
                assert(image_extra_attrs(sub1) =~= image_extra_attrs(sub).push(
                    (self.attributes@[i as int].0@, escape_markup(self.attributes@[i as int].1@)),
                ));
                assert(kv_views(out@) =~= base + image_extra_attrs(sub1));
            }
            i += 1;
        }
        proof {
            assert(self.attributes@.subrange(0, self.attributes@.len() as int)
                =~= self.attributes@);
            assert(kv_views(out@) =~= image_attrs(*self));
        }
        Some(out)
    }

    fn text(&self) -> (t: Option<String>) {
        None
    }

    fn children<'a>(&'a self) -> (cs: Vec<&'a Node>) {
        Vec::new()
    }

    fn is_void_element(&self) -> (v: bool) {
        true
    }

    fn has_content(&self) -> (h: bool) {
        false
    }

    fn render(&self) -> (r: String) {
        render_image(self)
    }

    fn into_node(self) -> (n: Node) {
        Node::Image(self)
    }
}

impl ContainerElement {
    /// Creates an empty container with the given tag.
    pub fn new(tag: &str) -> (c: ContainerElement)
        ensures
            c.tag@ == tag@,
            c.attributes@.len() == 0,
            c.children@.len() == 0,
            c.classes@.len() == 0,
            c.id is None,
    {
        ContainerElement {
            tag: tag.to_owned(),
            attributes: Vec::new(),
            children: Vec::new(),
            classes: Vec::new(),
            id: None,
        }
    }

    /// Adds one extra attribute with map semantics: a repeated key replaces
    /// the earlier value.
    pub fn with_attribute(self, key: &str, value: &str) -> (r: ContainerElement)
        ensures
            r.tag == self.tag,
            r.children == self.children,
            r.classes == self.classes,
            r.id == self.id,
            kv_views(r.attributes@) == kvs_upsert(kv_views(self.attributes@), key@, value@),
            kvs_unique_keys(kv_views(self.attributes@)) ==> kvs_unique_keys(
                kv_views(r.attributes@),
            ),
    {
        let mut r = self;
        upsert_attr(&mut r.attributes, key, value);
        r
    }

    /// Appends one child element.
    pub fn with_child<E: HtmlElement>(self, child: E) -> (r: ContainerElement)
        ensures
            r.tag == self.tag,
            r.attributes == self.attributes,
            r.classes == self.classes,
            r.id == self.id,
            r.children@ == self.children@.push(child.as_node()),
    {
        let mut r = self;
        let node = child.into_node();
        r.children.push(node);
        r
    }

    /// Appends several children at once, in order.
    pub fn with_children(self, children: Vec<Node>) -> (r: ContainerElement)
        ensures
            r.tag == self.tag,
            r.attributes == self.attributes,
            r.classes == self.classes,
            r.id == self.id,
            r.children@ == self.children@ + children@,
    {
        let mut r = self;
        let mut rest = children;
        r.children.append(&mut rest);
        r
    }

    /// Appends one class to the class list.
    pub fn with_class(self, class: &str) -> (r: ContainerElement)
        ensures
            r.tag == self.tag,
            r.attributes == self.attributes,
            r.children == self.children,
            r.id == self.id,
            str_views(r.classes@) == str_views(self.classes@).push(class@),
    {
        let mut r = self;
        r.classes.push(class.to_owned());
        proof {
            assert(str_views(r.classes@) =~= str_views(self.classes@).push(class@));
        }
        r
    }

    /// Sets the element id.
    pub fn with_id(self, id: &str) -> (r: ContainerElement)
        ensures
            r.tag == self.tag,
            r.attributes == self.attributes,
            r.children == self.children,
            r.classes == self.classes,
            r.id is Some && (r.id->0)@ == id@,
    {
        ContainerElement { id: Some(id.to_owned()), ..self }
    }

    /// Appends raw text as a text-node child; the child escapes it.
    pub fn with_text(self, text: &str) -> (r: ContainerElement)
        ensures
            r.tag == self.tag,
            r.attributes == self.attributes,
            r.classes == self.classes,
            r.id == self.id,
            r.children@.len() == self.children@.len() + 1,
            r.children@.drop_last() == self.children@,
            r.children@.last() matches Node::Text(t) && t.content@ == text@,
    {
        let child = TextElement::new(text);
        let r = self.with_child(child);
        proof {
            assert(r.children@.drop_last() =~= r.children@.subrange(0, r.children@.len() - 1));
        }
        r
    }

    /// The class list joined with single spaces.
    fn class_string(&self) -> (r: String)
        ensures
            r@ == join_classes(str_views(self.classes@)),
    {
        let mut out = String::new();
        let mut i: usize = 0;
        while i < self.classes.len()
            invariant
                i <= self.classes@.len(),
                out@ == join_classes(str_views(self.classes@.subrange(0, i as int))),
            decreases self.classes@.len() - i,
        {
            if i > 0 {
                out.append(" ");
            }
            out.append(self.classes[i].as_str());
            proof {
                let sub1 = str_views(self.classes@.subrange(0, i + 1));
                assert(sub1.drop_last() =~= str_views(self.classes@.subrange(0, i as int)));
                assert(sub1.last() == self.classes@[i as int]@);
                if i == 0 {
                    assert(out@ =~= join_classes(sub1));
                }
            }
            i += 1;
        }
        proof {
            assert(self.classes@.subrange(0, self.classes@.len() as int) =~= self.classes@);
        }
        out
    }
}

impl HtmlElement for ContainerElement {
    open spec fn as_node(&self) -> Node {
        Node::Container(*self)
    }

    fn tag<'a>(&'a self) -> (t: &'a str) {
        self.tag.as_str()
    }

    fn attributes(&self) -> (a: Option<Vec<(String, String)>>) {
        if self.id.is_none() && self.classes.is_empty() && self.attributes.is_empty() {
            return None;
        }
        let mut out: Vec<(String, String)> = Vec::new();
        match &self.id {
            Some(id) => {
                let id_val = encode_markup(id.as_str());
                out.push(("id".to_owned(), id_val));
            },
            None => {},
        }
        if !self.classes.is_empty() {
            let joined = self.class_string();
            let class_val = encode_markup(joined.as_str());
            out.push(("class".to_owned(), class_val));
        }
        proof {
            let head = (if self.id is Some {
                seq![("id"@, escape_markup((self.id->0)@))]
            } else {
                Seq::empty()
            }) + (if self.classes@.len() > 0 {
                seq![("class"@, escape_markup(join_classes(str_views(self.classes@))))]
            } else {
                Seq::empty()
            });
            assert(kv_views(out@) =~= head);
        }
        let ghost head = kv_views(out@);
        let mut i: usize = 0;
        while i < self.attributes.len()
            invariant
                i <= self.attributes@.len(),
                kv_views(out@) =~= head + container_extra_attrs(
                    self.attributes@.subrange(0, i as int),
                ),
            decreases self.attributes@.len() - i,
        {
            let kv = &self.attributes[i];
            let key_val = encode_markup(kv.0.as_str());
            let val = encode_markup(kv.1.as_str());
            let ghost prev = out@;
            out.push((key_val, val));
            proof {
                let sub = self.attributes@.subrange(0, i as int);
                let sub1 = self.attributes@.subrange(0, i + 1);
                assert(sub1.drop_last() =~= sub);
                assert(out@.last().0@ == escape_markup(self.attributes@[i as int].0@));
                assert(out@.last().1@ == escape_markup(self.attributes@[i as int].1@));
                assert(kv_views(out@) =~= kv_views(prev).push(
                    (out@.last().0@, out@.last().1@),
                ));
                assert(container_extra_attrs(sub1) =~= container_extra_attrs(sub).push(
                    (
                        escape_markup(self.attributes@[i as int].0@),
                        escape_markup(self.attributes@[i as int].1@),
                    ),
                ));
                assert(kv_views(out@) =~= head + container_extra_attrs(sub1));
            }
            i += 1;
        }
        proof {
            assert(self.attributes@.subrange(0, self.attributes@.len() as int)
                =~= self.attributes@);
            assert(kv_views(out@) =~= container_attrs(*self));
        }
        Some(out)
    }

    fn text(&self) -> (t: Option<String>) {
        None
    }

    fn children<'a>(&'a self) -> (cs: Vec<&'a Node>) {
        let mut cs: Vec<&Node> = Vec::new();
        let mut i: usize = 0;
        while i < self.children.len()
            invariant
                i <= self.children@.len(),
                cs@.len() == i,
                forall|j: int| 0 <= j < i ==> *cs@[j] == self.children@[j],
            decreases self.children@.len() - i,
        {
            cs.push(&self.children[i]);
            i += 1;
        }
        cs
    }

    fn is_void_element(&self) -> (v: bool) {
        false
    }

    fn has_content(&self) -> (h: bool) {
        self.children.len() != 0
    }

    fn render(&self) -> (r: String) {
        render_container(self)
    }

    fn into_node(self) -> (n: Node) {
        Node::Container(self)
    }
}

} // verus!
