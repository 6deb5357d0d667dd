//! The tree serializer: a depth-first, pre-order walk producing the markup
//! string, specified by `render_spec`. The serializer only concatenates what
//! the node accessors report; it never escapes anything itself.
use vstd::prelude::*;

use crate::attrs::kv_views;
use crate::elements::container_has_attrs;
use crate::elements::image_attrs;
use crate::elements::node_attrs;
use crate::elements::node_is_void;
use crate::elements::node_tag;
use crate::elements::node_text;
use crate::elements::ContainerElement;
use crate::elements::HtmlElement;
use crate::elements::ImageElement;
use crate::elements::Node;
use crate::elements::RawHtml;
use crate::elements::TextElement;

verus! {

/// One rendered attribute: a leading space, the name, and the quoted value.
pub open spec fn render_attr_pair(kv: (Seq<char>, Seq<char>)) -> Seq<char> {
    " "@ + kv.0 + "=\""@ + kv.1 + "\""@
}

/// The rendered attribute section: each pair in the order reported.
pub open spec fn render_attrs(attrs: Seq<(Seq<char>, Seq<char>)>) -> Seq<char>
    decreases attrs.len(),
{
    if attrs.len() == 0 {
        Seq::empty()
    } else {
        render_attrs(attrs.drop_last()) + render_attr_pair(attrs.last())
    }
}

/// The attribute section of a node that may report no attributes at all.
pub open spec fn render_attrs_opt(a: Option<Seq<(Seq<char>, Seq<char>)>>) -> Seq<char> {
    match a {
        Some(s) => render_attrs(s),
        None => Seq::empty(),
    }
}

/// A node's text content, or nothing.
pub open spec fn node_text_or_empty(n: Node) -> Seq<char> {
    match node_text(n) {
        Some(t) => t,
        None => Seq::empty(),
    }
}

/// What serializing a node produces: raw content passes through verbatim;
/// a void element gets the self-closing mark and never text, children or a
/// closing tag; anything else gets its text, its children in order, and a
/// closing tag.
pub open spec fn render_spec(n: Node) -> Seq<char>
    decreases n,
{
    if node_is_void(n) && node_tag(n).len() == 0 {
        node_text_or_empty(n)
    } else {
        let head = "<"@ + node_tag(n) + render_attrs_opt(node_attrs(n));
        if node_is_void(n) {
            head + " />"@
        } else {
            head + ">"@ + node_text_or_empty(n) + (match n {
                Node::Container(c) => render_nodes(c.children@),
                _ => Seq::empty(),
            }) + "</"@ + node_tag(n) + ">"@
        }
    }
}

/// The concatenation of the renderings of a sequence of nodes, in order.
pub open spec fn render_nodes(ns: Seq<Node>) -> Seq<char>
    decreases ns,
{
    if ns.len() == 0 {
        Seq::empty()
    } else {
        render_nodes(ns.drop_last()) + render_spec(ns.last())
    }
}

/// Appends the rendered attribute section for the given pairs.
fn append_attrs(out: &mut String, attrs: &Vec<(String, String)>)
    ensures
        final (out)@ == old(out)@ + render_attrs(kv_views(attrs@)),
{
    let ghost out0 = out@;
    let mut i: usize = 0;
    while i < attrs.len()
        invariant
            i <= attrs@.len(),
            out@ == out0 + render_attrs(kv_views(attrs@.subrange(0, i as int))),
        decreases attrs@.len() - i,
    {
        let kv = &attrs[i];
        out.append(" ");
        out.append(kv.0.as_str());
        out.append("=\"");
        out.append(kv.1.as_str());
        out.append("\"");
        proof {
            let sub = kv_views(attrs@.subrange(0, i as int));
            let sub1 = kv_views(attrs@.subrange(0, i + 1));
            assert(sub1.drop_last() =~= sub);
            assert(sub1.last() == (attrs@[i as int].0@, attrs@[i as int].1@));
            assert(out@ =~= out0 + render_attrs(sub1));
        }
        i += 1;
    }
    proof {
        assert(attrs@.subrange(0, attrs@.len() as int) =~= attrs@);
    }
}

/// Renders a text node: the wrapping tag around the escaped content.
pub(crate) fn render_text(t: &TextElement) -> (r: String)
    ensures
        r@ == render_spec(Node::Text(*t)),
{
    let mut out = String::new();
    out.append("<");
    out.append("span");
    out.append(">");
    match t.text() {
        Some(txt) => out.append(txt.as_str()),
        None => {},
    }
    out.append("</");
    out.append("span");
    out.append(">");
    proof {
        assert(out@ =~= render_spec(Node::Text(*t)));
    }
    out
}

/// Renders a raw node: the content itself, untouched.
pub(crate) fn render_raw(rh: &RawHtml) -> (r: String)
    ensures
        r@ == render_spec(Node::Raw(*rh)),
{
    rh.content.clone()
}

/// Renders a media node: tag, attributes and the self-closing mark.
pub(crate) fn render_image(img: &ImageElement) -> (r: String)
    ensures
        r@ == render_spec(Node::Image(*img)),
{
    let mut out = String::new();
    out.append("<");
    out.append("img");
    match img.attributes() {
        Some(v) => append_attrs(&mut out, &v),
        None => {},
    }
    out.append(" />");
    proof {
        reveal_strlit("img");
        assert(out@ =~= render_spec(Node::Image(*img)));
    }
    out
}

/// Renders a container node: tag, attributes, the children in order, and
/// the closing tag.
pub(crate) fn render_container(c: &ContainerElement) -> (r: String)
    ensures
        r@ == render_spec(Node::Container(*c)),
    decreases *c,
{
    let mut out = String::new();
    out.append("<");
    out.append(c.tag.as_str());
    match c.attributes() {
        Some(v) => append_attrs(&mut out, &v),
        None => {},
    }
    out.append(">");
    let ghost mid = out@;
    let mut i: usize = 0;
    while i < c.children.len()
        invariant
            i <= c.children@.len(),
            out@ == mid + render_nodes(c.children@.subrange(0, i as int)),
        decreases c.children@.len() - i,
    {
        let piece = render_element(&c.children[i]);
        out.append(piece.as_str());
        proof {
            let sub = c.children@.subrange(0, i as int);
            let sub1 = c.children@.subrange(0, i + 1);
            assert(sub1.drop_last() =~= sub);
            assert(sub1.last() == c.children@[i as int]);
            assert(out@ =~= mid + render_nodes(sub1));
        }
        i += 1;
    }
    out.append("</");
    out.append(c.tag.as_str());
    out.append(">");
    proof {
        assert(c.children@.subrange(0, c.children@.len() as int) =~= c.children@);
        assert(out@ =~= render_spec(Node::Container(*c)));
    }
    out
}

/// Serializes any node, depth first: opening tag and attributes, then text,
/// then each child fully, then the closing tag; raw and void nodes take
/// their special cases.
pub fn render_element(element: &Node) -> (r: String)
    ensures
        r@ == render_spec(*element),
    decreases *element,
{
    match element {
        Node::Text(t) => render_text(t),
        Node::Raw(rh) => render_raw(rh),
        Node::Image(img) => render_image(img),
        Node::Container(c) => render_container(c),
    }
}

/// `needle` occurs contiguously inside `hay`.
pub open spec fn is_substring(needle: Seq<char>, hay: Seq<char>) -> bool {
    exists|k: int|
        0 <= k && k + needle.len() <= hay.len() && #[trigger] hay.subrange(k, k + needle.len())
            == needle
}

/// Rendering a concatenation of node lists renders each list in turn.
pub proof fn lemma_render_nodes_split(a: Seq<Node>, b: Seq<Node>)
    ensures
        render_nodes(a + b) == render_nodes(a) + render_nodes(b),
    decreases b.len(),
{
    if b.len() == 0 {
        assert(a + b =~= a);
        assert(render_nodes(a) + render_nodes(b) =~= render_nodes(a));
    } else {
        lemma_render_nodes_split(a, b.drop_last());
        assert((a + b).drop_last() =~= a + b.drop_last());
        assert(render_nodes(a + b) =~= render_nodes(a) + render_nodes(b));
    }
}

/// Law: substring containment is transitive, so nesting containment chains
/// through any depth of containers.
pub proof fn lemma_substring_transitive(a: Seq<char>, b: Seq<char>, c: Seq<char>)
    requires
        is_substring(a, b),
        is_substring(b, c),
    ensures
        is_substring(a, c),
{
    let k1 = choose|k: int|
        0 <= k && k + a.len() <= b.len() && #[trigger] b.subrange(k, k + a.len()) == a;
    let k2 = choose|k: int|
        0 <= k && k + b.len() <= c.len() && #[trigger] c.subrange(k, k + b.len()) == b;
    assert(c.subrange(k2 + k1, k2 + k1 + a.len()) =~= a);
}

/// Law: the rendering of each child appears contiguously inside the
/// rendering of its parent container, so structural containment survives
/// recursion.
pub proof fn lemma_nested_render_substring(c: ContainerElement, i: int)
    requires
        0 <= i < c.children@.len(),
    ensures
        is_substring(render_spec(c.children@[i]), render_spec(Node::Container(c))),
{
    let cs = c.children@;
    let pre = cs.subrange(0, i);
    let mid = seq![cs[i]];
    let post = cs.subrange(i + 1, cs.len() as int);
    assert(cs =~= (pre + mid) + post);
    lemma_render_nodes_split(pre + mid, post);
    lemma_render_nodes_split(pre, mid);
    assert(mid.drop_last() =~= Seq::<Node>::empty());
    assert(render_nodes(Seq::<Node>::empty()) =~= Seq::<char>::empty());
    assert(render_nodes(mid) =~= render_spec(cs[i]));
    let needle = render_spec(cs[i]);
    let whole = render_spec(Node::Container(c));
    let n = Node::Container(c);
    let head = "<"@ + node_tag(n) + render_attrs_opt(node_attrs(n)) + ">"@;
    let k = head.len() + render_nodes(pre).len() as int;
    assert(render_nodes(cs) == render_nodes(pre) + render_spec(cs[i]) + render_nodes(post));
    assert(whole.subrange(k, k + needle.len()) =~= needle);
    assert(is_substring(needle, whole));
}

/// Law: a media node renders as its opening tag, its attribute section and
/// the self-closing mark alone: no text, no children, and no closing tag
/// are ever emitted for it.
pub proof fn lemma_image_self_closing(img: ImageElement)
    ensures
        render_spec(Node::Image(img)) == "<"@ + "img"@ + render_attrs(image_attrs(img)) + " />"@,
        (" />"@).is_suffix_of(render_spec(Node::Image(img))),
{
    reveal_strlit("img");
    let whole = render_spec(Node::Image(img));
    assert((" />"@).is_suffix_of(whole)) by {
        assert(whole.subrange(whole.len() - " />"@.len(), whole.len() as int) =~= " />"@);
    }
}

/// Law: a raw node renders as exactly its content: no escaping, no
/// wrapping tag.
pub proof fn lemma_raw_identity(rh: RawHtml)
    ensures
        render_spec(Node::Raw(rh)) == rh.content@,
{
}

/// Law: a container with no id, no classes and no extra attributes renders
/// with no attribute text at all between the tag name and `>`.
pub proof fn lemma_container_no_attributes(c: ContainerElement)
    requires
        c.id is None,
        c.classes@.len() == 0,
        c.attributes@.len() == 0,
    ensures
        render_spec(Node::Container(c)) == "<"@ + c.tag@ + ">"@ + render_nodes(c.children@)
            + "</"@ + c.tag@ + ">"@,
{
    assert(!container_has_attrs(c));
    assert(render_spec(Node::Container(c)) =~= "<"@ + c.tag@ + ">"@ + render_nodes(c.children@)
        + "</"@ + c.tag@ + ">"@);
}

/// Law: rendering is a pure function of the tree; building the same tree
/// twice and rendering both yields identical strings.
pub proof fn lemma_render_deterministic(a: Node, b: Node)
    requires
        a == b,
    ensures
        render_spec(a) == render_spec(b),
{
}

} // verus!
