use hxdown::html::{contains_word, parse_html, Lookup, Selector};

const PAGE: &str = r#"<html><head><title>t</title></head><body>
<div id="outer" class="box wide">
  <p class="note">first <b>bold</b> text</p>
  <a href="/one" class="link">one</a>
</div>
<div class="box">
  <a class="link hidden">two</a>
</div>
</body></html>"#;

#[test]
fn parsed_parents_come_first() {
    let doc = parse_html(PAGE);
    assert!(!doc.nodes.is_empty());
    for (i, n) in doc.nodes.iter().enumerate() {
        if let Some(p) = n.parent {
            assert!(p < i);
        }
    }
}

#[test]
fn select_by_attribute_class_and_name() {
    let doc = parse_html(PAGE);
    let outer = doc.find_first(&Selector::attr("id", "outer")).unwrap();
    assert_eq!(doc.nodes[outer].name.as_deref(), Some("div"));
    assert_eq!(doc.find_all(&Selector::class("box")).len(), 2);
    assert_eq!(doc.find_all(&Selector::class("wide")).len(), 1);
    assert_eq!(doc.find_all(&Selector::class("bo")).len(), 0);
    assert_eq!(doc.find_all(&Selector::name("a")).len(), 2);
}

#[test]
fn select_by_descendant_and_negation() {
    let doc = parse_html(PAGE);
    let inside = doc.find_all(&Selector::descendant(Selector::attr("id", "outer"), Selector::name("a")));
    assert_eq!(inside.len(), 1);
    assert_eq!(doc.text_of(inside[0]), "one");
    let visible = doc.find_all(&Selector::and(Selector::class("link"), Selector::not(Selector::class("hidden"))));
    assert_eq!(visible, inside);
    let all_links = doc.find_all(&Selector::class("link"));
    assert_eq!(all_links.len(), 2);
    assert!(all_links[0] < all_links[1]);
}

#[test]
fn text_covers_descendants() {
    let doc = parse_html(PAGE);
    let p = doc.find_first(&Selector::class("note")).unwrap();
    assert_eq!(doc.text_of(p), "first bold text");
}

#[test]
fn lookups() {
    let doc = parse_html(PAGE);
    match doc.lookup(&Selector::class("link"), "href") {
        Lookup::Found(h) => assert_eq!(h, "/one"),
        _ => panic!("expected a link"),
    }
    assert!(matches!(doc.lookup(&Selector::class("hidden"), "href"), Lookup::NoAttribute));
    assert!(matches!(doc.lookup(&Selector::attr("id", "none"), "href"), Lookup::NoElement));
    let outer = doc.find_first(&Selector::attr("id", "outer")).unwrap();
    assert_eq!(doc.attr_of(outer, "class").as_deref(), Some("box wide"));
    assert_eq!(doc.attr_of(outer, "style"), None);
}

#[test]
fn class_words() {
    assert!(contains_word("box wide", "wide"));
    assert!(contains_word("  box\twide\n", "box"));
    assert!(!contains_word("boxes", "box"));
    assert!(!contains_word("box", ""));
    assert!(!contains_word("", "box"));
    assert!(contains_word("a\u{3000}b", "b"));
}
