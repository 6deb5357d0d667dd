use html_builder::ContainerElement;
use html_builder::HtmlElement;
use html_builder::ImageElement;
use html_builder::RawHtml;
use html_builder::TextElement;
use html_builder::render_element;

#[test]
fn test_xss_protection() {
    let malicious = "<script>alert('hack')</script>";
    let doc = TextElement::new(malicious).text().unwrap();
    assert_eq!(doc, "&lt;script&gt;alert(&#x27;hack&#x27;)&lt;/script&gt;");
}

#[test]
fn test_nested_elements() {
    let container = ContainerElement::new("div")
        .with_attribute("class", "container")
        .with_child(TextElement::new("Nested Content"))
        .with_child(ContainerElement::new("p").with_child(TextElement::new("Deep")));

    let rendered = render_element(&container.into_node());
    assert!(rendered.contains("<div class=\"container\">"));
    assert!(rendered.contains("<span>Nested Content</span>"));
    assert!(rendered.contains("<p><span>Deep</span></p>"));
}

#[test]
fn test_raw_html() {
    let html = RawHtml::new("<b>Bold</b> text");
    assert_eq!(html.render(), "<b>Bold</b> text");
}

#[test]
fn test_container_with_classes() {
    let div = ContainerElement::new("div")
        .with_class("primary")
        .with_class("large")
        .with_id("main-content");

    let rendered = div.render();
    assert!(rendered.contains("id=\"main-content\""));
    assert!(rendered.contains("class=\"primary large\""));
}

#[test]
fn test_text_node_exact_rendering() {
    let rendered = TextElement::new("<script>alert('x')</script>").render();
    assert_eq!(
        rendered,
        "<span>&lt;script&gt;alert(&#x27;x&#x27;)&lt;/script&gt;</span>"
    );
}

#[test]
fn test_escaping_leaves_quotes_alone() {
    let text = TextElement::new("say \"hi\" & <wave>").text().unwrap();
    assert_eq!(text, "say \"hi\" &amp; &lt;wave&gt;");
}

#[test]
fn test_escaping_empty_text() {
    assert_eq!(TextElement::new("").text().unwrap(), "");
    assert_eq!(TextElement::new("").render(), "<span></span>");
}

#[test]
fn test_escaping_does_not_touch_earlier_entities() {
    let text = TextElement::new("&amp; & '").text().unwrap();
    assert_eq!(text, "&amp;amp; &amp; &#x27;");
}

#[test]
fn test_raw_identity_with_markup_characters() {
    let raw = "<a href=\"x?a=1&b=2\">link</a> 'quoted' > <";
    assert_eq!(RawHtml::new(raw).render(), raw);
}

#[test]
fn test_image_self_closing() {
    let rendered = ImageElement::new("photo.png")
        .with_alt("A photo")
        .with_attribute("width", "640")
        .render();
    assert!(rendered.starts_with("<img src=\"photo.png\" alt=\"A photo\""));
    assert!(rendered.ends_with(" />"));
    assert!(!rendered.contains("</"));
    assert!(rendered.contains("width=\"640\""));
}

#[test]
fn test_image_without_alt() {
    let rendered = ImageElement::new("a.gif").render();
    assert_eq!(rendered, "<img src=\"a.gif\" />");
}

#[test]
fn test_image_source_escaped() {
    let rendered = ImageElement::new("a.png?w=1&h=2").render();
    assert_eq!(rendered, "<img src=\"a.png?w=1&amp;h=2\" />");
}

#[test]
fn test_image_attribute_replaces_on_repeated_key() {
    let rendered = ImageElement::new("a.png")
        .with_attribute("width", "10")
        .with_attribute("width", "20")
        .render();
    assert!(rendered.contains("width=\"20\""));
    assert!(!rendered.contains("width=\"10\""));
    assert_eq!(rendered.matches("width=").count(), 1);
}

#[test]
fn test_container_without_attributes_renders_bare_tag() {
    let rendered = ContainerElement::new("section")
        .with_child(TextElement::new("x"))
        .render();
    assert_eq!(rendered, "<section><span>x</span></section>");
}

#[test]
fn test_container_attribute_keys_and_values_escaped() {
    let rendered = ContainerElement::new("div")
        .with_attribute("data-<k>", "a&b")
        .render();
    assert!(rendered.contains("data-&lt;k&gt;=\"a&amp;b\""));
}

#[test]
fn test_container_id_before_class() {
    let rendered = ContainerElement::new("div")
        .with_class("primary")
        .with_class("large")
        .with_id("main-content")
        .render();
    let id_pos = rendered.find("id=\"main-content\"").unwrap();
    let class_pos = rendered.find("class=\"primary large\"").unwrap();
    assert!(id_pos < class_pos);
}

#[test]
fn test_nesting_preserves_containment() {
    let make_e = || ContainerElement::new("em").with_text("deep");
    let make_d = || ContainerElement::new("p").with_child(make_e());
    let make_c = || ContainerElement::new("div").with_child(make_d());
    let rendered_e = make_e().render();
    let rendered_d = make_d().render();
    let rendered_c = make_c().render();
    assert!(rendered_d.contains(&rendered_e));
    assert!(rendered_c.contains(&rendered_d));
}

#[test]
fn test_with_children_keeps_order() {
    let children = vec![
        TextElement::new("one").into_node(),
        TextElement::new("two").into_node(),
    ];
    let rendered = ContainerElement::new("ul").with_children(children).render();
    assert_eq!(rendered, "<ul><span>one</span><span>two</span></ul>");
}

#[test]
fn test_with_text_appends_text_child() {
    let rendered = ContainerElement::new("p").with_text("a < b").render();
    assert_eq!(rendered, "<p><span>a &lt; b</span></p>");
}

#[test]
fn test_accessors() {
    let text = TextElement::new("x");
    assert_eq!(text.tag(), "span");
    assert!(!text.is_void_element());
    assert!(text.has_content());
    assert!(text.attributes().is_none());
    assert_eq!(text.children().len(), 0);

    let raw = RawHtml::new("x");
    assert_eq!(raw.tag(), "");
    assert!(raw.is_void_element());

    let img = ImageElement::new("a.png");
    assert_eq!(img.tag(), "img");
    assert!(img.is_void_element());
    assert!(!img.has_content());
    assert!(img.text().is_none());

    let div = ContainerElement::new("div").with_text("x");
    assert_eq!(div.tag(), "div");
    assert!(!div.is_void_element());
    assert!(div.has_content());
    assert!(div.text().is_none());
    assert_eq!(div.children().len(), 1);
    assert!(ContainerElement::new("div").has_content() == false);
}

#[test]
fn test_rendering_same_tree_twice_is_identical() {
    let build = || {
        ContainerElement::new("div")
            .with_id("a")
            .with_class("c1")
            .with_child(TextElement::new("t & t"))
            .with_child(ImageElement::new("i.png").with_alt("i"))
    };
    assert_eq!(build().render(), build().render());
}
