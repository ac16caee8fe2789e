//! Tests for the header slots: title, declaration, disclosures, and the
//! section segmenter.

use paradocs::header::{parse_doc_block, parse_fqn, parse_item_decl, parse_item_info, parse_top_doc};
use paradocs::section::{is_section_header, parse_section_header};
use paradocs::{Attr, Element, HtmlNode, Paragraph, TextPart};

fn el(name: &str, classes: &[&str], children: Vec<HtmlNode>) -> HtmlNode {
    HtmlNode::Element(Element {
        name: name.to_string(),
        classes: classes.iter().map(|c| c.to_string()).collect(),
        attrs: Vec::new(),
        children,
    })
}

fn el_attr(
    name: &str,
    classes: &[&str],
    attrs: &[(&str, &str)],
    children: Vec<HtmlNode>,
) -> HtmlNode {
    HtmlNode::Element(Element {
        name: name.to_string(),
        classes: classes.iter().map(|c| c.to_string()).collect(),
        attrs: attrs
            .iter()
            .map(|(k, v)| Attr { name: k.to_string(), value: v.to_string() })
            .collect(),
        children,
    })
}

fn text(s: &str) -> HtmlNode {
    HtmlNode::Text(s.to_string())
}

fn plain(s: &str) -> TextPart {
    TextPart::Text(s.to_string())
}

#[test]
fn fqn_reads_title_and_since() {
    let fqn = el(
        "h1",
        &["fqn"],
        vec![
            el("span", &["in-band"], vec![text("Struct Foo")]),
            el(
                "span",
                &["out-of-band"],
                vec![el("span", &["since"], vec![text("1.0.0")])],
            ),
        ],
    );
    let parsed = parse_fqn(&fqn).expect("both spans are present");
    assert_eq!(parsed.title, vec![plain("Struct Foo")]);
    assert_eq!(parsed.since, Some("1.0.0".to_string()));
}

#[test]
fn fqn_without_since_span_has_no_version() {
    let fqn = el(
        "h1",
        &["fqn"],
        vec![
            el("span", &["in-band"], vec![text("Foo")]),
            el("span", &["out-of-band"], vec![text("source")]),
        ],
    );
    let parsed = parse_fqn(&fqn).unwrap();
    assert_eq!(parsed.since, None);
}

#[test]
fn fqn_missing_either_span_declines() {
    let only_in_band = el(
        "h1",
        &["fqn"],
        vec![el("span", &["in-band"], vec![text("Foo")])],
    );
    assert!(parse_fqn(&only_in_band).is_none());
    let only_out_of_band = el(
        "h1",
        &["fqn"],
        vec![el("span", &["out-of-band"], vec![])],
    );
    assert!(parse_fqn(&only_out_of_band).is_none());
    let wrong_tag = el("h2", &["fqn"], vec![]);
    assert!(parse_fqn(&wrong_tag).is_none());
}

#[test]
fn fqn_span_order_does_not_matter() {
    let fqn = el(
        "h1",
        &["fqn"],
        vec![
            el("span", &["out-of-band"], vec![]),
            el("span", &["in-band"], vec![text("Foo")]),
        ],
    );
    let parsed = parse_fqn(&fqn).unwrap();
    assert_eq!(parsed.title, vec![plain("Foo")]);
    assert_eq!(parsed.since, None);
}

#[test]
fn item_decl_wraps_a_pre() {
    let decl = el(
        "div",
        &["item-decl"],
        vec![el("pre", &[], vec![text("pub struct Foo;")])],
    );
    assert_eq!(
        parse_item_decl(&decl).unwrap().code,
        vec![plain("pub struct Foo;")]
    );
    let type_decl = el(
        "div",
        &["type-decl"],
        vec![el("pre", &[], vec![text("type T = u8;")])],
    );
    assert_eq!(
        parse_item_decl(&type_decl).unwrap().code,
        vec![plain("type T = u8;")]
    );
    assert!(parse_item_decl(&el("div", &["item-decl"], vec![text("no pre")])).is_none());
    assert!(parse_item_decl(&el("div", &[], vec![el("pre", &[], vec![])])).is_none());
}

#[test]
fn item_info_reads_first_disclosure_per_category() {
    let info = el(
        "div",
        &["item-info"],
        vec![
            el("div", &["unstable"], vec![text("experimental")]),
            el("div", &["portability"], vec![text("unix only")]),
            el("div", &["unstable"], vec![text("a second note, ignored")]),
        ],
    );
    let parsed = parse_item_info(&info).unwrap();
    let stability = parsed.stability.unwrap();
    assert_eq!(stability.summary, vec![plain("experimental")]);
    assert_eq!(stability.detail, None);
    let portability = parsed.portability.unwrap();
    assert_eq!(portability.summary, vec![plain("unix only")]);
    assert!(parsed.deprecation.is_none());
}

#[test]
fn item_info_disclosure_widget_has_detail() {
    let info = el(
        "div",
        &["item-info"],
        vec![el(
            "div",
            &["deprecated"],
            vec![el(
                "details",
                &[],
                vec![el("summary", &[], vec![text("deprecated")]), text("use Bar")],
            )],
        )],
    );
    let parsed = parse_item_info(&info).unwrap();
    let deprecation = parsed.deprecation.unwrap();
    assert_eq!(deprecation.summary, vec![plain("deprecated")]);
    assert_eq!(deprecation.detail, Some(vec![plain("use Bar")]));
}

#[test]
fn empty_item_info_is_still_recognized() {
    let parsed = parse_item_info(&el("div", &["item-info"], vec![])).unwrap();
    assert!(parsed.stability.is_none());
    assert!(parsed.portability.is_none());
    assert!(parsed.deprecation.is_none());
}

#[test]
fn doc_block_segments_by_headings() {
    let docblock = el(
        "div",
        &["docblock"],
        vec![
            el("p", &[], vec![text("lead")]),
            el("h2", &[], vec![text("First")]),
            el("p", &[], vec![text("a")]),
            el("h3", &[], vec![text("Deeper")]),
            el("ul", &[], vec![el("li", &[], vec![text("b")])]),
        ],
    );
    let sections = parse_doc_block(&docblock).unwrap().sections;
    assert_eq!(sections.len(), 3);
    assert_eq!(sections[0].depth, 2);
    assert_eq!(sections[0].heading, None);
    assert_eq!(
        sections[0].contents,
        vec![Paragraph::Text(vec![plain("lead")])]
    );
    assert_eq!(sections[1].depth, 2);
    assert_eq!(sections[1].heading, Some(vec![plain("First")]));
    assert_eq!(sections[1].contents, vec![Paragraph::Text(vec![plain("a")])]);
    assert_eq!(sections[2].depth, 3);
    assert_eq!(sections[2].heading, Some(vec![plain("Deeper")]));
    assert_eq!(
        sections[2].contents,
        vec![Paragraph::List(vec![vec![plain("b")]])]
    );
}

#[test]
fn headless_section_only_comes_first() {
    let docblock = el(
        "div",
        &["docblock"],
        vec![
            el("p", &[], vec![text("before any heading")]),
            el("h4", &[], vec![text("H")]),
            el("p", &[], vec![text("after")]),
        ],
    );
    let sections = parse_doc_block(&docblock).unwrap().sections;
    assert!(sections[0].heading.is_none());
    for section in sections.iter().skip(1) {
        assert!(section.heading.is_some());
    }
}

#[test]
fn heading_like_tags_outside_h2_to_h6_are_not_headings() {
    let docblock = el(
        "div",
        &["docblock"],
        vec![
            el("h1", &[], vec![text("not a section heading")]),
            el("h7", &[], vec![text("neither")]),
            el("hr", &[], vec![]),
            el("p", &[], vec![text("content")]),
        ],
    );
    let sections = parse_doc_block(&docblock).unwrap().sections;
    assert_eq!(sections.len(), 1);
    assert_eq!(sections[0].heading, None);
    assert_eq!(
        sections[0].contents,
        vec![Paragraph::Text(vec![plain("content")])]
    );
}

#[test]
fn top_doc_wraps_a_doc_block() {
    let top = el(
        "details",
        &["top-doc"],
        vec![el(
            "div",
            &["docblock"],
            vec![el("p", &[], vec![text("hello")])],
        )],
    );
    let parsed = parse_top_doc(&top).unwrap();
    assert_eq!(parsed.doc_block.sections.len(), 1);
    assert!(parse_top_doc(&el("details", &[], vec![])).is_none());
}

#[test]
fn code_block_inside_doc_block() {
    let docblock = el(
        "div",
        &["docblock"],
        vec![el(
            "div",
            &["example-wrap"],
            vec![el("pre", &[], vec![text("run();")])],
        )],
    );
    let sections = parse_doc_block(&docblock).unwrap().sections;
    assert_eq!(
        sections[0].contents,
        vec![Paragraph::Code(vec![plain("run();")])]
    );
}

#[test]
fn class_membership_is_case_sensitive() {
    let decl = el_attr(
        "div",
        &["Item-Decl"],
        &[],
        vec![el("pre", &[], vec![text("x")])],
    );
    assert!(parse_item_decl(&decl).is_none());
}

#[test]
fn section_header_recognizer_reads_heading_text() {
    let h = el("h2", &["section-header"], vec![text("Modules")]);
    assert!(is_section_header(&h));
    assert_eq!(parse_section_header(&h).unwrap(), vec![plain("Modules")]);
    let small = el("h2", &["small-section-header"], vec![text("x")]);
    assert!(!is_section_header(&small));
    assert!(parse_section_header(&small).is_none());
}

#[test]
fn since_span_without_text_fails_the_out_of_band_probe() {
    // The since span commits the probe: empty, it fails the whole title.
    let fqn = el(
        "h1",
        &["fqn"],
        vec![
            el("span", &["in-band"], vec![text("Foo")]),
            el(
                "span",
                &["out-of-band"],
                vec![el("span", &["since"], vec![])],
            ),
        ],
    );
    assert!(parse_fqn(&fqn).is_none());
}

#[test]
fn since_text_may_sit_in_a_nested_element() {
    let fqn = el(
        "h1",
        &["fqn"],
        vec![
            el("span", &["in-band"], vec![text("Foo")]),
            el(
                "span",
                &["out-of-band"],
                vec![el(
                    "span",
                    &["since"],
                    vec![el("b", &[], vec![text("2.1.0")])],
                )],
            ),
        ],
    );
    assert_eq!(parse_fqn(&fqn).unwrap().since, Some("2.1.0".to_string()));
}
