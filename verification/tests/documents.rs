use html_builder::HtmlDocumentBuilder;
use html_builder::ImageElement;
use html_builder::RawHtml;
use html_builder::TextElement;

#[test]
fn test_basic_document() {
    let doc = HtmlDocumentBuilder::new()
        .title("Test Page")
        .add_body_element(TextElement::new("Hello World!"))
        .add_body_element(ImageElement::new("test.jpg").with_alt("Test Image"))
        .build();

    assert!(doc.contains("<title>Test Page</title>"));
    assert!(doc.contains("<span>Hello World!</span>"));
    assert!(doc.contains("<img src=\"test.jpg\" alt=\"Test Image\" />"));
}

#[test]
fn test_document_exact_output() {
    let doc = HtmlDocumentBuilder::new()
        .title("Test Page")
        .add_body_element(TextElement::new("Hello World!"))
        .build();
    assert_eq!(
        doc,
        "<!DOCTYPE html>\n<html lang=\"en\">\n<head>\n<meta charset=\"UTF-8\">\n<title>Test Page</title>\n</head>\n<body>\n<span>Hello World!</span>\n</body>\n</html>"
    );
}

#[test]
fn test_document_defaults() {
    let doc = HtmlDocumentBuilder::new().build();
    assert!(doc.starts_with("<!DOCTYPE html>\n<html lang=\"en\">"));
    assert!(doc.contains("<meta charset=\"UTF-8\">"));
    assert!(doc.ends_with("</body>\n</html>"));
}

#[test]
fn test_document_default_trait_matches_new() {
    let a = HtmlDocumentBuilder::default().build();
    let b = HtmlDocumentBuilder::new().build();
    assert_eq!(a, b);
}

#[test]
fn test_document_lang_and_title_escaped() {
    let doc = HtmlDocumentBuilder::new()
        .lang("fr\"><script>")
        .title("A & B")
        .build();
    assert!(doc.contains("<html lang=\"fr\"><script>\">") == false);
    assert!(doc.contains("<html lang=\"fr\"&gt;&lt;script&gt;\">"));
    assert!(doc.contains("<title>A &amp; B</title>"));
}

#[test]
fn test_document_named_meta() {
    let doc = HtmlDocumentBuilder::new()
        .add_meta("viewport", "width=device-width")
        .build();
    assert!(doc.contains("<meta charset=\"UTF-8\">"));
    assert!(doc.contains("<meta name=\"viewport\" content=\"width=device-width\">"));
}

#[test]
fn test_document_stylesheets_and_scripts() {
    let doc = HtmlDocumentBuilder::new()
        .add_stylesheet("main.css?v=1&x=2")
        .add_script("app.js")
        .add_body_element(TextElement::new("body text"))
        .build();
    assert!(doc.contains("<link rel=\"stylesheet\" href=\"main.css?v=1&amp;x=2\">"));
    assert!(doc.contains("<script src=\"app.js\"></script>"));
    let body_pos = doc.find("<span>body text</span>").unwrap();
    let script_pos = doc.find("<script src=").unwrap();
    assert!(body_pos < script_pos);
    let head_close = doc.find("</head>").unwrap();
    let link_pos = doc.find("<link rel=").unwrap();
    assert!(link_pos < head_close);
}

#[test]
fn test_document_body_attributes() {
    let doc = HtmlDocumentBuilder::new()
        .add_body_attribute("class", "dark")
        .add_body_attribute("class", "light")
        .build();
    assert!(doc.contains("<body class=\"light\">"));
    assert!(!doc.contains("dark"));
}

#[test]
fn test_document_head_elements_and_raw_body() {
    let doc = HtmlDocumentBuilder::new()
        .add_head_element(RawHtml::new("<style>em { color: red; }</style>"))
        .add_body_element(RawHtml::new("<b>kept as is</b>"))
        .build();
    assert!(doc.contains("<style>em { color: red; }</style>"));
    assert!(doc.contains("<b>kept as is</b>"));
}

#[test]
fn test_document_built_twice_is_identical() {
    let make = || {
        HtmlDocumentBuilder::new()
            .title("Same")
            .add_stylesheet("s.css")
            .add_body_element(TextElement::new("one"))
            .add_body_element(ImageElement::new("i.png"))
            .add_script("a.js")
            .build()
    };
    assert_eq!(make(), make());
}
