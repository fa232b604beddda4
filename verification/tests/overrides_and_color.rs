use smil_animation::color::hex_color;
use smil_animation::document::Document;
use smil_animation::loader::load_document;
use smil_animation::overrides::{animated_attribute, has_animated_attribute, AnimationOverrides};

fn load(svg: &str) -> Document {
    load_document(svg.as_bytes()).unwrap().1
}

fn rect(doc: &Document) -> usize {
    (0..doc.len()).find(|&i| doc.node(i).tag.as_deref() == Some("rect")).unwrap()
}

const RECT: &str = r#"<svg xmlns="http://www.w3.org/2000/svg"><rect width="10" height="10"/></svg>"#;

#[test]
fn reads_back_an_override() {
    let doc = load(RECT);
    let node = rect(&doc);
    let mut overrides = AnimationOverrides::new();
    overrides.insert(node, "width".to_string(), "4".to_string());
    assert_eq!(animated_attribute(&doc, &overrides, node, "width"), Some("4"));
    assert!(has_animated_attribute(&doc, &overrides, node, "width"));
}

#[test]
fn later_override_replaces_earlier() {
    let doc = load(RECT);
    let node = rect(&doc);
    let mut overrides = AnimationOverrides::new();
    overrides.insert(node, "fill".to_string(), "#000000".to_string());
    overrides.insert(node, "fill".to_string(), "#ff8800".to_string());
    assert_eq!(overrides.get(node, "fill"), Some("#ff8800"));
    assert_eq!(animated_attribute(&doc, &overrides, node, "fill"), Some("#ff8800"));
}

#[test]
fn other_attributes_read_the_document() {
    let doc = load(RECT);
    let node = rect(&doc);
    let mut overrides = AnimationOverrides::new();
    assert_eq!(animated_attribute(&doc, &overrides, node, "height"), Some("10"));
    overrides.insert(node, "width".to_string(), "4".to_string());
    assert_eq!(animated_attribute(&doc, &overrides, node, "height"), Some("10"));
    assert_eq!(animated_attribute(&doc, &overrides, node, "opacity"), None);
    assert!(!has_animated_attribute(&doc, &overrides, node, "opacity"));
    assert_eq!(overrides.get(node + 1, "width"), None);
}

#[test]
fn formats_colors_as_lowercase_hex() {
    assert_eq!(hex_color(255, 136, 0), "#ff8800");
    assert_eq!(hex_color(0, 0, 0), "#000000");
    assert_eq!(hex_color(1, 171, 16), "#01ab10");
}

use smil_animation::overrides::{bake_contributions, Evaluated, TransformBase};

fn attribute(name: &str, value: &str) -> Evaluated {
    Evaluated::Attribute { name: name.to_string(), value: value.to_string() }
}

#[test]
fn bakes_attribute_contributions_in_order() {
    let mut overrides = AnimationOverrides::new();
    let contributions = vec![attribute("opacity", "0.5"), Evaluated::Nothing, attribute("opacity", "0.25"), attribute("fill", "#ff0000")];
    assert_eq!(bake_contributions(&mut overrides, 3, &contributions), None);
    assert_eq!(overrides.get(3, "opacity"), Some("0.25"));
    assert_eq!(overrides.get(3, "fill"), Some("#ff0000"));
    assert_eq!(overrides.get(2, "fill"), None);
}

#[test]
fn first_transform_contribution_decides_the_base() {
    let mut overrides = AnimationOverrides::new();
    let additive_only = vec![Evaluated::Transform { additive: true }, attribute("x", "1")];
    assert_eq!(bake_contributions(&mut overrides, 0, &additive_only), Some(TransformBase::Own));
    let replacing_first = vec![attribute("x", "1"), Evaluated::Transform { additive: false }, Evaluated::Transform { additive: true }];
    assert_eq!(bake_contributions(&mut overrides, 0, &replacing_first), Some(TransformBase::Identity));
    let additive_first = vec![Evaluated::Transform { additive: true }, Evaluated::Transform { additive: false }];
    assert_eq!(bake_contributions(&mut overrides, 0, &additive_first), Some(TransformBase::Own));
    assert_eq!(bake_contributions(&mut overrides, 0, &Vec::new()), None);
}
