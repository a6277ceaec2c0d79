use markupsth::syntax::Insertion::{Double, Nothing, Single, Triple};
use markupsth::{Language, SyntaxConfig};

#[test]
fn config_selector_smoke_test() {
    let _ = SyntaxConfig::from(Language::Html);
    let cfg = SyntaxConfig::from(Language::Xml);
    let _ = SyntaxConfig::from(Language::Other(cfg));
}

#[test]
fn insertion_to_string() {
    assert_eq!(Nothing.to_string(), "".to_string());
    assert_eq!(Single('<').to_string(), "<".to_string());
    assert_eq!(Double('/', '>').to_string(), "/>".to_string());
    assert_eq!(Triple(' ', '/', '>').to_string(), " />".to_string());
}

#[test]
fn predefined_syntaxes() {
    let html = SyntaxConfig::from(Language::Html);
    assert_eq!(html.doctype, Some("<!DOCTYPE html>".to_string()));
    assert_eq!(html.self_closing.unwrap().after, Single('>'));
    let xml = SyntaxConfig::from(Language::Xml);
    assert_eq!(
        xml.doctype,
        Some(r#"<?xml version="1.0" encoding="UTF-8" standalone="yes"?>"#.to_string())
    );
    assert_eq!(xml.self_closing.unwrap().after, Triple(' ', '/', '>'));
    assert_eq!(xml.tag_pairs.unwrap().closing_before, Double('<', '/'));
    let own = SyntaxConfig::from(Language::Other(SyntaxConfig {
        doctype: None,
        self_closing: None,
        tag_pairs: None,
        properties: None,
    }));
    assert!(own.doctype.is_none() && own.tag_pairs.is_none());
}
