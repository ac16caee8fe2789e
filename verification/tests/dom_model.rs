//! Tests for the DOM model helpers.

use paradocs::dom::{find_by_id, first_text, str_eq};
use paradocs::{Attr, Element, HtmlNode};

fn el_attr(
    name: &str,
    classes: &[&str],
    attrs: &[(&str, &str)],
    children: Vec<HtmlNode>,
) -> HtmlNode {
    HtmlNode::Element(Element {
        name: name.to_string(),
        classes: classes.iter().map(|c| c.to_string()).collect(),
        attrs: attrs
            .iter()
            .map(|(k, v)| Attr { name: k.to_string(), value: v.to_string() })
            .collect(),
        children,
    })
}

fn text(s: &str) -> HtmlNode {
    HtmlNode::Text(s.to_string())
}

#[test]
fn str_eq_compares_by_characters() {
    assert!(str_eq("div", "div"));
    assert!(!str_eq("div", "Div"));
    assert!(!str_eq("div", "divs"));
    assert!(str_eq("", ""));
    assert!(str_eq("naïve", "naïve"));
}

#[test]
fn element_class_and_attr_lookup() {
    let node = el_attr("div", &["a", "b"], &[("id", "main"), ("id", "second")], vec![]);
    let e = match &node {
        HtmlNode::Element(e) => e,
        HtmlNode::Text(_) => unreachable!(),
    };
    assert!(e.has_class("a"));
    assert!(e.has_class("b"));
    assert!(!e.has_class("A"));
    assert!(!e.has_class("c"));
    assert_eq!(e.attr("id").map(|s| s.as_str()), Some("main"));
    assert_eq!(e.attr("href"), None);
}

#[test]
fn first_text_is_depth_first() {
    let node = el_attr(
        "div",
        &[],
        &[],
        vec![
            el_attr("span", &[], &[], vec![]),
            el_attr("span", &[], &[], vec![el_attr("b", &[], &[], vec![text("deep")])]),
            text("shallow"),
        ],
    );
    assert_eq!(first_text(&node).map(|s| s.as_str()), Some("deep"));
    assert_eq!(first_text(&el_attr("div", &[], &[], vec![])), None);
}

#[test]
fn find_by_id_takes_first_in_preorder() {
    let root = el_attr(
        "html",
        &[],
        &[],
        vec![
            el_attr("div", &[], &[("id", "other")], vec![]),
            el_attr(
                "div",
                &[],
                &[],
                vec![el_attr("section", &["x"], &[("id", "main")], vec![])],
            ),
            el_attr("div", &["late"], &[("id", "main")], vec![]),
        ],
    );
    let found = find_by_id(&root, "main").expect("an element with the id exists");
    assert!(found.classes.iter().any(|c| c == "x"));
    assert!(find_by_id(&root, "absent").is_none());
}
