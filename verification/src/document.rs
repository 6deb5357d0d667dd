//! The document assembler: wraps head and body nodes with the doctype,
//! `<html>`, `<head>` and `<body>` boilerplate, rendering each node with the
//! tree serializer and escaping every configured value.
use vstd::prelude::*;

use crate::attrs::kv_views;
use crate::attrs::kvs_unique_keys;
use crate::attrs::kvs_upsert;
use crate::attrs::str_eq;
use crate::attrs::upsert_attr;
use crate::elements::str_views;
use crate::elements::HtmlElement;
use crate::elements::Node;
use crate::escape::encode_markup;
use crate::escape::escape_markup;
use crate::render::render_element;
use crate::render::render_spec;

verus! {

/// The opening of the root element, with the language attribute when set.
pub open spec fn html_open(lang: Option<String>) -> Seq<char> {
    match lang {
        Some(l) => "\n<html lang=\""@ + escape_markup(l@) + "\">"@,
        None => "\n<html>"@,
    }
}

/// One meta line: the charset name is special-cased, every other pair
/// becomes a named meta tag; names and contents are escaped.
pub open spec fn meta_line(name: Seq<char>, content: Seq<char>) -> Seq<char> {
    if name == "charset"@ {
        "<meta charset=\""@ + escape_markup(content) + "\">\n"@
    } else {
        "<meta name=\""@ + escape_markup(name) + "\" content=\""@ + escape_markup(content)
            + "\">\n"@
    }
}

/// All meta lines, in the order the pairs were added.
pub open spec fn meta_lines(ms: Seq<(String, String)>) -> Seq<char>
    decreases ms.len(),
{
    if ms.len() == 0 {
        Seq::empty()
    } else {
        meta_lines(ms.drop_last()) + meta_line(ms.last().0@, ms.last().1@)
    }
}

/// The title line, when a title is set.
pub open spec fn title_line(title: Option<String>) -> Seq<char> {
    match title {
        Some(t) => "<title>"@ + escape_markup(t@) + "</title>\n"@,
        None => Seq::empty(),
    }
}

/// One stylesheet link line, its reference escaped.
pub open spec fn stylesheet_line(href: Seq<char>) -> Seq<char> {
    "<link rel=\"stylesheet\" href=\""@ + escape_markup(href) + "\">\n"@
}

/// All stylesheet lines, in order.
pub open spec fn stylesheet_lines(hs: Seq<String>) -> Seq<char>
    decreases hs.len(),
{
    if hs.len() == 0 {
        Seq::empty()
    } else {
        stylesheet_lines(hs.drop_last()) + stylesheet_line(hs.last()@)
    }
}

/// One script line, its source escaped.
pub open spec fn script_line(src: Seq<char>) -> Seq<char> {
    "<script src=\""@ + escape_markup(src) + "\"></script>\n"@
}

/// All script lines, in order.
pub open spec fn script_lines(ss: Seq<String>) -> Seq<char>
    decreases ss.len(),
{
    if ss.len() == 0 {
        Seq::empty()
    } else {
        script_lines(ss.drop_last()) + script_line(ss.last()@)
    }
}

/// The given nodes rendered in order, one line each.
pub open spec fn element_lines(es: Seq<Node>) -> Seq<char>
    decreases es.len(),
{
    if es.len() == 0 {
        Seq::empty()
    } else {
        element_lines(es.drop_last()) + render_spec(es.last()) + "\n"@
    }
}

/// The attribute text of the body tag: each pair escaped and quoted.
pub open spec fn body_attr_text(s: Seq<(String, String)>) -> Seq<char>
    decreases s.len(),
{
    if s.len() == 0 {
        Seq::empty()
    } else {
        body_attr_text(s.drop_last()) + " "@ + escape_markup(s.last().0@) + "=\""@ + escape_markup(
            s.last().1@,
        ) + "\""@
    }
}

/// A builder for a complete document: title, language, meta pairs,
/// stylesheets, scripts, body attributes, and head and body nodes.
pub struct HtmlDocumentBuilder {
    pub doctype: String,
    pub title: Option<String>,
    pub head_elements: Vec<Node>,
    pub body_elements: Vec<Node>,
    pub lang: Option<String>,
    pub meta_tags: Vec<(String, String)>,
    pub stylesheets: Vec<String>,
    pub scripts: Vec<String>,
    pub body_attributes: Vec<(String, String)>,
}

/// The complete document a builder produces: doctype, the root element with
/// its language, the head section (meta pairs, title, stylesheets, head
/// nodes), and the body section (body nodes, then scripts).
pub open spec fn build_spec(b: HtmlDocumentBuilder) -> Seq<char> {
    b.doctype@ + html_open(b.lang) + "\n"@ + "<head>\n"@ + meta_lines(b.meta_tags@) + title_line(
        b.title,
    ) + stylesheet_lines(b.stylesheets@) + element_lines(b.head_elements@) + "</head>\n"@
        + "<body"@ + body_attr_text(b.body_attributes@) + ">\n"@ + element_lines(b.body_elements@)
        + script_lines(b.scripts@) + "</body>\n</html>"@
}

impl core::default::Default for HtmlDocumentBuilder {
    /// A fresh builder, exactly as `new` returns it.
    fn default() -> (b: HtmlDocumentBuilder)
        ensures
            b.doctype@ == "<!DOCTYPE html>"@,
            b.title is None,
            b.head_elements@.len() == 0,
            b.body_elements@.len() == 0,
            b.lang matches Some(l) && l@ == "en"@,
            kv_views(b.meta_tags@) =~= seq![("charset"@, "UTF-8"@)],
            b.stylesheets@.len() == 0,
            b.scripts@.len() == 0,
            b.body_attributes@.len() == 0,
    {
        HtmlDocumentBuilder::new()
    }
}

impl HtmlDocumentBuilder {
    /// A fresh builder: the standard doctype, language `en`, one charset
    /// meta pair, and nothing else.
    pub fn new() -> (b: HtmlDocumentBuilder)
        ensures
            b.doctype@ == "<!DOCTYPE html>"@,
            b.title is None,
            b.head_elements@.len() == 0,
            b.body_elements@.len() == 0,
            b.lang matches Some(l) && l@ == "en"@,
            kv_views(b.meta_tags@) =~= seq![("charset"@, "UTF-8"@)],
            b.stylesheets@.len() == 0,
            b.scripts@.len() == 0,
            b.body_attributes@.len() == 0,
    {
        let mut meta_tags: Vec<(String, String)> = Vec::new();
        meta_tags.push(("charset".to_owned(), "UTF-8".to_owned()));
        HtmlDocumentBuilder {
            doctype: "<!DOCTYPE html>".to_owned(),
            title: None,
            head_elements: Vec::new(),
            body_elements: Vec::new(),
            lang: Some("en".to_owned()),
            meta_tags,
            stylesheets: Vec::new(),
            scripts: Vec::new(),
            body_attributes: Vec::new(),
        }
    }

    /// Sets the document title.
    pub fn title(self, title: &str) -> (r: HtmlDocumentBuilder)
        ensures
            r == (HtmlDocumentBuilder { title: r.title, ..self }),
            r.title matches Some(t) && t@ == title@,
    {
        HtmlDocumentBuilder { title: Some(title.to_owned()), ..self }
    }

    /// Appends a node to the head section.
    pub fn add_head_element<E: HtmlElement>(self, element: E) -> (r: HtmlDocumentBuilder)
        ensures
            r == (HtmlDocumentBuilder { head_elements: r.head_elements, ..self }),
            r.head_elements@ == self.head_elements@.push(element.as_node()),
    {
        let mut r = self;
        let node = element.into_node();
        r.head_elements.push(node);
        r
    }

    /// Appends a node to the body section.
    pub fn add_body_element<E: HtmlElement>(self, element: E) -> (r: HtmlDocumentBuilder)
        ensures
            r == (HtmlDocumentBuilder { body_elements: r.body_elements, ..self }),
            r.body_elements@ == self.body_elements@.push(element.as_node()),
    {
        let mut r = self;
        let node = element.into_node();
        r.body_elements.push(node);
        r
    }

    /// Sets the root element's language attribute.
    pub fn lang(self, lang: &str) -> (r: HtmlDocumentBuilder)
        ensures
            r == (HtmlDocumentBuilder { lang: r.lang, ..self }),
            r.lang matches Some(l) && l@ == lang@,
    {
        HtmlDocumentBuilder { lang: Some(lang.to_owned()), ..self }
    }

    /// Appends a meta pair; the charset name is special-cased when the
    /// document is built.
    pub fn add_meta(self, name: &str, content: &str) -> (r: HtmlDocumentBuilder)
        ensures
            r == (HtmlDocumentBuilder { meta_tags: r.meta_tags, ..self }),
            kv_views(r.meta_tags@) == kv_views(self.meta_tags@).push((name@, content@)),
    {
        let mut r = self;
        r.meta_tags.push((name.to_owned(), content.to_owned()));
        proof {
            assert(kv_views(r.meta_tags@) =~= kv_views(self.meta_tags@).push((name@, content@)));
        }
        r
    }

    /// Appends a stylesheet link.
    pub fn add_stylesheet(self, href: &str) -> (r: HtmlDocumentBuilder)
        ensures
            r == (HtmlDocumentBuilder { stylesheets: r.stylesheets, ..self }),
            str_views(r.stylesheets@) == str_views(self.stylesheets@).push(href@),
    {
        let mut r = self;
        r.stylesheets.push(href.to_owned());
        proof {
            assert(str_views(r.stylesheets@) =~= str_views(self.stylesheets@).push(href@));
        }
        r
    }

    /// Appends a script source; scripts are placed at the end of the body.
    pub fn add_script(self, src: &str) -> (r: HtmlDocumentBuilder)
        ensures
            r == (HtmlDocumentBuilder { scripts: r.scripts, ..self }),
            str_views(r.scripts@) == str_views(self.scripts@).push(src@),
    {
        let mut r = self;
        r.scripts.push(src.to_owned());
        proof {
            assert(str_views(r.scripts@) =~= str_views(self.scripts@).push(src@));
        }
        r
    }

    /// Adds one body-tag attribute with map semantics: a repeated name
    /// replaces the earlier value.
    pub fn add_body_attribute(self, name: &str, value: &str) -> (r: HtmlDocumentBuilder)
        ensures
            r == (HtmlDocumentBuilder { body_attributes: r.body_attributes, ..self }),
            kv_views(r.body_attributes@) == kvs_upsert(
                kv_views(self.body_attributes@),
                name@,
                value@,
            ),
            kvs_unique_keys(kv_views(self.body_attributes@)) ==> kvs_unique_keys(
                kv_views(r.body_attributes@),
            ),
    {
        let mut r = self;
        upsert_attr(&mut r.body_attributes, name, value);
        r
    }

    /// Assembles the complete document string.
    #[verifier::rlimit(100)]
    pub fn build(self) -> (r: String)
        ensures
            r@ == build_spec(self),
    {
        let mut out = String::new();
        out.append(self.doctype.as_str());
        match &self.lang {
            Some(l) => {
                out.append("\n<html lang=\"");
                let v = encode_markup(l.as_str());
                out.append(v.as_str());
                out.append("\">");
            },
            None => {
                out.append("\n<html>");
            },
        }
        out.append("\n");
        out.append("<head>\n");

        let ghost pre_meta = out@;
        let mut i: usize = 0;
        while i < self.meta_tags.len()
            invariant
                i <= self.meta_tags@.len(),
                out@ == pre_meta + meta_lines(self.meta_tags@.subrange(0, i as int)),
            decreases self.meta_tags@.len() - i,
        {
            let kv = &self.meta_tags[i];
            if str_eq(kv.0.as_str(), "charset") {
                out.append("<meta charset=\"");
                let v = encode_markup(kv.1.as_str());
                out.append(v.as_str());
                out.append("\">\n");
            } else {
                out.append("<meta name=\"");
                let nv = encode_markup(kv.0.as_str());
                out.append(nv.as_str());
                out.append("\" content=\"");
                let cv = encode_markup(kv.1.as_str());
                out.append(cv.as_str());
                out.append("\">\n");
            }
            proof {
                let sub = self.meta_tags@.subrange(0, i as int);
                let sub1 = self.meta_tags@.subrange(0, i + 1);
                assert(sub1.drop_last() =~= sub);
                assert(out@ =~= pre_meta + meta_lines(sub1));
            }
            i += 1;
        }
        proof {
            assert(self.meta_tags@.subrange(0, self.meta_tags@.len() as int)
                =~= self.meta_tags@);
        }

        match &self.title {
            Some(t) => {
                out.append("<title>");
                let v = encode_markup(t.as_str());
                out.append(v.as_str());
                out.append("</title>\n");
            },
            None => {},
        }

        let ghost pre_css = out@;
        let mut i: usize = 0;
        while i < self.stylesheets.len()
            invariant
                i <= self.stylesheets@.len(),
                out@ == pre_css + stylesheet_lines(self.stylesheets@.subrange(0, i as int)),
            decreases self.stylesheets@.len() - i,
        {
            out.append("<link rel=\"stylesheet\" href=\"");
            let v = encode_markup(self.stylesheets[i].as_str());
            out.append(v.as_str());
            out.append("\">\n");
            proof {
                let sub = self.stylesheets@.subrange(0, i as int);
                let sub1 = self.stylesheets@.subrange(0, i + 1);
                assert(sub1.drop_last() =~= sub);
                assert(out@ =~= pre_css + stylesheet_lines(sub1));
            }
            i += 1;
        }
        proof {
            assert(self.stylesheets@.subrange(0, self.stylesheets@.len() as int)
                =~= self.stylesheets@);
        }

        let ghost pre_head = out@;
        let mut i: usize = 0;
        while i < self.head_elements.len()
            invariant
                i <= self.head_elements@.len(),
                out@ == pre_head + element_lines(self.head_elements@.subrange(0, i as int)),
            decreases self.head_elements@.len() - i,
        {
            let piece = render_element(&self.head_elements[i]);
            out.append(piece.as_str());
            out.append("\n");
            proof {
                let sub = self.head_elements@.subrange(0, i as int);
                let sub1 = self.head_elements@.subrange(0, i + 1);
                assert(sub1.drop_last() =~= sub);
                assert(out@ =~= pre_head + element_lines(sub1));
            }
            i += 1;
        }
        proof {
            assert(self.head_elements@.subrange(0, self.head_elements@.len() as int)
                =~= self.head_elements@);
        }
        out.append("</head>\n");

        out.append("<body");
        let ghost pre_battr = out@;
        let mut i: usize = 0;
        while i < self.body_attributes.len()
            invariant
                i <= self.body_attributes@.len(),
                out@ == pre_battr + body_attr_text(self.body_attributes@.subrange(0, i as int)),
            decreases self.body_attributes@.len() - i,
        {
            let kv = &self.body_attributes[i];
            out.append(" ");
            let nv = encode_markup(kv.0.as_str());
            out.append(nv.as_str());
            out.append("=\"");
            let vv = encode_markup(kv.1.as_str());
            out.append(vv.as_str());
            out.append("\"");
            proof {
                let sub = self.body_attributes@.subrange(0, i as int);
                let sub1 = self.body_attributes@.subrange(0, i + 1);
                assert(sub1.drop_last() =~= sub);
                assert(out@ =~= pre_battr + body_attr_text(sub1));
            }
            i += 1;
        }
        proof {
            assert(self.body_attributes@.subrange(0, self.body_attributes@.len() as int)
                =~= self.body_attributes@);
        }
        out.append(">\n");

        let ghost pre_body = out@;
        let mut i: usize = 0;
        while i < self.body_elements.len()
            invariant
                i <= self.body_elements@.len(),
                out@ == pre_body + element_lines(self.body_elements@.subrange(0, i as int)),
            decreases self.body_elements@.len() - i,
        {
            let piece = render_element(&self.body_elements[i]);
            out.append(piece.as_str());
            out.append("\n");
            proof {
                let sub = self.body_elements@.subrange(0, i as int);
                let sub1 = self.body_elements@.subrange(0, i + 1);
                assert(sub1.drop_last() =~= sub);
                assert(out@ =~= pre_body + element_lines(sub1));
            }
            i += 1;
        }
        proof {
            assert(self.body_elements@.subrange(0, self.body_elements@.len() as int)
                =~= self.body_elements@);
        }

        let ghost pre_js = out@;
        let mut i: usize = 0;
        while i < self.scripts.len()
            invariant
                i <= self.scripts@.len(),
                out@ == pre_js + script_lines(self.scripts@.subrange(0, i as int)),
            decreases self.scripts@.len() - i,
        {
            out.append("<script src=\"");
            let v = encode_markup(self.scripts[i].as_str());
            out.append(v.as_str());
            out.append("\"></script>\n");
            proof {
                let sub = self.scripts@.subrange(0, i as int);
                let sub1 = self.scripts@.subrange(0, i + 1);
                assert(sub1.drop_last() =~= sub);
                assert(out@ =~= pre_js + script_lines(sub1));
            }
            i += 1;
        }
        proof {
            assert(self.scripts@.subrange(0, self.scripts@.len() as int) =~= self.scripts@);
        }

        out.append("</body>\n</html>");
        proof {
            assert(out@ =~= build_spec(self));
        }
        out
    }
}

} // verus!
