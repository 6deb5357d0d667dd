//! A small library for building well-formed HTML documents and serializing
//! them to strings. User-supplied text and attribute values are escaped at
//! the node that produces them, and the serializer only concatenates, so the
//! output never carries unescaped markup from untrusted input.
mod attrs;
mod document;
mod elements;
mod escape;
mod render;

pub use render::is_substring;
pub use render::lemma_container_no_attributes;
pub use render::lemma_image_self_closing;
pub use render::lemma_nested_render_substring;
pub use render::lemma_raw_identity;
pub use render::lemma_render_deterministic;
pub use render::lemma_render_nodes_split;
pub use render::lemma_substring_transitive;
pub use render::node_text_or_empty;
pub use render::render_attr_pair;
pub use render::render_attrs;
pub use render::render_attrs_opt;
pub use render::render_element;
pub use render::render_nodes;
pub use render::render_spec;

pub use elements::container_attrs;
pub use elements::container_extra_attrs;
pub use elements::container_has_attrs;
pub use elements::image_attrs;
pub use elements::image_extra_attrs;
pub use elements::join_classes;
pub use elements::node_attrs;
pub use elements::node_children;
pub use elements::node_is_void;
pub use elements::node_tag;
pub use elements::node_text;
pub use elements::str_views;
pub use elements::ContainerElement;
pub use elements::HtmlElement;
pub use elements::ImageElement;
pub use elements::Node;
pub use elements::RawHtml;
pub use elements::TextElement;

pub use document::body_attr_text;
pub use document::build_spec;
pub use document::element_lines;
pub use document::html_open;
pub use document::meta_line;
pub use document::meta_lines;
pub use document::script_line;
pub use document::script_lines;
pub use document::stylesheet_line;
pub use document::stylesheet_lines;
pub use document::title_line;
pub use document::HtmlDocumentBuilder;

pub use attrs::key_index;
pub use attrs::kv_views;
pub use attrs::kvs_has_key;
pub use attrs::kvs_unique_keys;
pub use attrs::kvs_upsert;

pub use escape::apos_entity;
pub use escape::entity_at;
pub use escape::lemma_text_content_escaped;
pub use escape::escape_apos;
pub use escape::escape_char;
pub use escape::escape_markup;
pub use escape::lemma_escape_markup_no_raw_markup;
