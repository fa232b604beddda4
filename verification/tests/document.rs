use std::io::Write;
use smil_animation::document::{
    animated_elements, animation_nodes, has_animation, is_animation, resolve_mpath, Attribute,
    Document, XmlNode,
};
use smil_animation::loader::{load_document, LoadError};

fn load(svg: &str) -> Document {
    load_document(svg.as_bytes()).unwrap().1
}

fn find(doc: &Document, tag: &str) -> usize {
    (0..doc.len()).find(|&i| doc.node(i).tag.as_deref() == Some(tag)).unwrap()
}

const SPINNER: &str = r#"<svg xmlns="http://www.w3.org/2000/svg" viewBox="0 0 10 10">
    <g>
        <rect width="4" height="4"/>
        <animateTransform attributeName="transform" type="rotate" from="0" to="360" dur="2s"/>
    </g>
</svg>"#;

#[test]
fn finds_animation_elements() {
    let doc = load(SPINNER);
    assert!(has_animation(&doc));
    let positions = animation_nodes(&doc);
    assert_eq!(positions.len(), 1);
    assert_eq!(doc.node(positions[0]).tag.as_deref(), Some("animateTransform"));
    assert!(is_animation(doc.node(positions[0])));
}

#[test]
fn static_document_has_no_animation() {
    let doc = load(r#"<svg xmlns="http://www.w3.org/2000/svg" viewBox="0 0 10 10"><rect width="4" height="4"/></svg>"#);
    assert!(!has_animation(&doc));
    assert!(animation_nodes(&doc).is_empty());
    assert!(animated_elements(&doc).is_empty());
}

#[test]
fn animations_act_on_their_parent() {
    let doc = load(SPINNER);
    let elements = animated_elements(&doc);
    assert_eq!(elements.len(), 1);
    assert_eq!(elements[0].node, find(&doc, "g"));
    assert_eq!(elements[0].animations, vec![find(&doc, "animateTransform")]);
}

#[test]
fn each_animation_kind_is_recognised() {
    for tag in ["animate", "set", "animateTransform", "animateMotion"] {
        let node = XmlNode { tag: Some(tag.to_string()), namespace: None, attributes: Vec::new(), children: Vec::new() };
        assert!(is_animation(&node));
    }
    for tag in [Some("mpath"), Some("rect"), None] {
        let node = XmlNode { tag: tag.map(|t| t.to_string()), namespace: None, attributes: Vec::new(), children: Vec::new() };
        assert!(!is_animation(&node));
    }
}

#[test]
fn reads_attributes_by_local_name() {
    let node = XmlNode {
        tag: Some("path".to_string()),
        namespace: Some("http://www.w3.org/2000/svg".to_string()),
        attributes: vec![
            Attribute { name: "id".to_string(), value: "track".to_string() },
            Attribute { name: "d".to_string(), value: "M0,0 L10,0".to_string() },
        ],
        children: Vec::new(),
    };
    assert_eq!(node.attribute("d"), Some("M0,0 L10,0"));
    assert_eq!(node.attribute("x"), None);
}

#[test]
fn resolves_mpath_reference() {
    let doc = load(r##"<svg xmlns="http://www.w3.org/2000/svg" xmlns:xlink="http://www.w3.org/1999/xlink">
        <path id="track" d="M0,0 L100,0"/>
        <rect width="10" height="10">
            <animateMotion dur="1s"><mpath xlink:href=" #track "/></animateMotion>
        </rect>
    </svg>"##);
    let motion = find(&doc, "animateMotion");
    assert_eq!(resolve_mpath(&doc, motion), Some("M0,0 L100,0".to_string()));
    assert_eq!(doc.element_by_id("track"), Some(find(&doc, "path")));
}

#[test]
fn unresolved_mpath_is_none() {
    let doc = load(r##"<svg xmlns="http://www.w3.org/2000/svg">
        <rect><animateMotion dur="1s"><mpath href="#missing"/></animateMotion></rect>
    </svg>"##);
    assert_eq!(resolve_mpath(&doc, find(&doc, "animateMotion")), None);
    let bare = load(r#"<svg xmlns="http://www.w3.org/2000/svg"><animateMotion dur="1s"/></svg>"#);
    assert_eq!(resolve_mpath(&bare, find(&bare, "animateMotion")), None);
}

#[test]
fn later_element_wins_a_shared_id() {
    let doc = load(r#"<svg xmlns="http://www.w3.org/2000/svg"><path id="a" d="M1,1"/><circle id="a"/></svg>"#);
    assert_eq!(doc.element_by_id("a"), Some(find(&doc, "circle")));
    assert_eq!(doc.element_by_id("b"), None);
}

#[test]
fn rejects_child_positions_outside_the_document() {
    let nodes = vec![XmlNode { tag: None, namespace: None, attributes: Vec::new(), children: vec![1] }];
    assert!(Document::new(nodes).is_none());
    let nodes = vec![
        XmlNode { tag: None, namespace: None, attributes: Vec::new(), children: vec![1] },
        XmlNode { tag: Some("svg".to_string()), namespace: None, attributes: Vec::new(), children: Vec::new() },
    ];
    assert_eq!(Document::new(nodes).unwrap().len(), 2);
}

#[test]
fn loads_gzip_sources() {
    let mut encoder = flate2::write::GzEncoder::new(Vec::new(), flate2::Compression::default());
    encoder.write_all(SPINNER.as_bytes()).unwrap();
    let compressed = encoder.finish().unwrap();
    let (text, doc) = load_document(&compressed).unwrap();
    assert_eq!(text, SPINNER);
    assert!(has_animation(&doc));
}

#[test]
fn load_errors() {
    assert!(matches!(load_document(&[0x1f, 0x8b, 0, 1]), Err(LoadError::MalformedGZip)));
    assert!(matches!(load_document(&[0xff, 0xfe, 0x3c]), Err(LoadError::NotAnUtf8Str)));
    assert!(matches!(load_document(b"<svg><g></svg>"), Err(LoadError::ParsingFailed(_))));
}

#[test]
fn unknown_elements_are_dropped_with_their_contents() {
    let doc = load(
        r#"<svg xmlns="http://www.w3.org/2000/svg">
            <foo><rect><animate attributeName="x" to="1"/></rect></foo>
            <circle><animate attributeName="r" to="2"/></circle>
        </svg>"#,
    );
    let circle = find(&doc, "circle");
    let elements = animated_elements(&doc);
    assert_eq!(elements.len(), 1);
    assert_eq!(elements[0].node, circle);
    assert_eq!(animation_nodes(&doc), elements[0].animations);
    assert!(has_animation(&doc));
    let kept = doc.retained_nodes();
    assert!(!kept[find(&doc, "foo")]);
    assert!(!kept[find(&doc, "rect")]);
    assert!(kept[circle]);
}

#[test]
fn animations_outside_the_svg_tree_do_not_count() {
    let doc = load(r#"<svg xmlns="http://www.w3.org/2000/svg"><foo><rect><set attributeName="x" to="1"/></rect></foo></svg>"#);
    assert!(!has_animation(&doc));
    assert!(animation_nodes(&doc).is_empty());
    let doc = load(
        r#"<svg xmlns="http://www.w3.org/2000/svg" xmlns:o="urn:other"><o:g><rect><set attributeName="x" to="1"/></rect></o:g></svg>"#,
    );
    assert!(!has_animation(&doc));
}

#[test]
fn ids_inside_unknown_elements_are_not_found() {
    let doc = load(
        r##"<svg xmlns="http://www.w3.org/2000/svg">
            <foo><path id="track" d="M0,0 L1,1"/></foo>
            <rect><animateMotion dur="1s"><mpath href="#track"/></animateMotion></rect>
        </svg>"##,
    );
    assert_eq!(doc.element_by_id("track"), None);
    assert_eq!(resolve_mpath(&doc, find(&doc, "animateMotion")), None);
}
