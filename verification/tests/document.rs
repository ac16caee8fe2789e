//! Whole-document tests: header slot probing, the listing scan, and the
//! end-to-end scenarios.

use paradocs::item::impls::{parse_impl_div, parse_impl_items, parse_implementor_or_empty};
use paradocs::{
    parse_document, Attr, Element, HtmlNode, ItemListing, ListingType, Paragraph, TextPart,
};

fn el(name: &str, classes: &[&str], children: Vec<HtmlNode>) -> HtmlNode {
    HtmlNode::Element(Element {
        name: name.to_string(),
        classes: classes.iter().map(|c| c.to_string()).collect(),
        attrs: Vec::new(),
        children,
    })
}

fn el_attr(
    name: &str,
    classes: &[&str],
    attrs: &[(&str, &str)],
    children: Vec<HtmlNode>,
) -> HtmlNode {
    HtmlNode::Element(Element {
        name: name.to_string(),
        classes: classes.iter().map(|c| c.to_string()).collect(),
        attrs: attrs
            .iter()
            .map(|(k, v)| Attr { name: k.to_string(), value: v.to_string() })
            .collect(),
        children,
    })
}

fn text(s: &str) -> HtmlNode {
    HtmlNode::Text(s.to_string())
}

fn plain(s: &str) -> TextPart {
    TextPart::Text(s.to_string())
}

fn fqn(title: &str) -> HtmlNode {
    el(
        "h1",
        &["fqn"],
        vec![
            el("span", &["in-band"], vec![text(title)]),
            el("span", &["out-of-band"], vec![]),
        ],
    )
}

fn main_el(children: Vec<HtmlNode>) -> HtmlNode {
    el_attr("div", &[], &[("id", "main")], children)
}

fn heading(t: &str) -> HtmlNode {
    el("h2", &["section-header"], vec![text(t)])
}

#[test]
fn minimal_page_parses_to_title_and_description() {
    let root = main_el(vec![
        fqn("Foo"),
        el(
            "details",
            &["top-doc"],
            vec![el(
                "div",
                &["docblock"],
                vec![el("p", &[], vec![text("Hello.")])],
            )],
        ),
    ]);
    let doc = parse_document(&root).expect("a minimal page is supported");
    assert_eq!(doc.title, vec![plain("Foo")]);
    assert_eq!(doc.since, None);
    assert_eq!(doc.declaration, None);
    assert!(doc.info.stability.is_none());
    assert!(doc.info.portability.is_none());
    assert!(doc.info.deprecation.is_none());
    assert_eq!(doc.description.len(), 1);
    assert_eq!(doc.description[0].depth, 2);
    assert_eq!(doc.description[0].heading, None);
    assert_eq!(
        doc.description[0].contents,
        vec![Paragraph::Text(vec![plain("Hello.")])]
    );
    assert_eq!(doc.items, Vec::<ItemListing>::new());
}

#[test]
fn missing_title_span_fails_the_whole_document() {
    let incomplete = el(
        "h1",
        &["fqn"],
        vec![el("span", &["in-band"], vec![text("Foo")])],
    );
    let root = main_el(vec![
        incomplete,
        el(
            "details",
            &["top-doc"],
            vec![el(
                "div",
                &["docblock"],
                vec![el("p", &[], vec![text("well-formed remainder")])],
            )],
        ),
        heading("Fields"),
        el("span", &["structfield"], vec![text("x")]),
    ]);
    assert!(parse_document(&root).is_none());
}

#[test]
fn page_without_main_element_is_unsupported() {
    let root = el("div", &[], vec![fqn("Foo")]);
    assert!(parse_document(&root).is_none());
    let empty_main = main_el(vec![]);
    assert!(parse_document(&empty_main).is_none());
}

#[test]
fn parsing_twice_yields_equal_documents() {
    let root = main_el(vec![
        fqn("Foo"),
        el(
            "div",
            &["item-decl"],
            vec![el("pre", &[], vec![text("pub struct Foo;")])],
        ),
        heading("Fields"),
        el("span", &["structfield"], vec![text("x")]),
        el(
            "div",
            &["docblock"],
            vec![el("p", &[], vec![text("the field")])],
        ),
    ]);
    let first = parse_document(&root).unwrap();
    let second = parse_document(&root).unwrap();
    assert_eq!(first, second);
}

#[test]
fn optional_slots_probe_the_same_node() {
    // With no declaration and no item-info, the description is still found.
    let root = main_el(vec![
        fqn("Foo"),
        el(
            "div",
            &["docblock"],
            vec![el("p", &[], vec![text("bare docblock fallback")])],
        ),
    ]);
    let doc = parse_document(&root).unwrap();
    assert_eq!(doc.declaration, None);
    assert_eq!(doc.description.len(), 1);
}

#[test]
fn all_header_slots_in_order() {
    let root = main_el(vec![
        fqn("Foo"),
        el("pre", &[], vec![text("pub fn foo();")]),
        el(
            "div",
            &["item-info"],
            vec![el("div", &["portability"], vec![text("unix")])],
        ),
        el(
            "details",
            &["top-doc"],
            vec![el(
                "div",
                &["docblock"],
                vec![el("p", &[], vec![text("docs")])],
            )],
        ),
    ]);
    let doc = parse_document(&root).unwrap();
    assert_eq!(doc.declaration, Some(vec![plain("pub fn foo();")]));
    assert_eq!(
        doc.info.portability.unwrap().summary,
        vec![plain("unix")]
    );
    assert_eq!(doc.description.len(), 1);
}

#[test]
fn table_listing_is_emitted() {
    let root = main_el(vec![
        fqn("Foo"),
        heading("Structs"),
        el(
            "div",
            &["item-table"],
            vec![
                el("div", &["item-left"], vec![text("Bar")]),
                el("div", &["item-right"], vec![text("a bar")]),
            ],
        ),
    ]);
    let doc = parse_document(&root).unwrap();
    assert_eq!(doc.items.len(), 1);
    assert_eq!(doc.items[0].heading, vec![plain("Structs")]);
    match &doc.items[0].kind {
        ListingType::Table(rows) => {
            assert_eq!(rows.len(), 1);
            assert_eq!(rows[0].item, vec![plain("Bar")]);
            assert_eq!(rows[0].summary, vec![plain("a bar")]);
        }
        other => panic!("expected a table listing, got {:?}", other),
    }
}

#[test]
fn fields_listing_collects_items_until_next_heading() {
    let root = main_el(vec![
        fqn("Foo"),
        heading("Fields"),
        el("span", &["structfield"], vec![text("x")]),
        el(
            "div",
            &["item-info"],
            vec![el("div", &["unstable"], vec![text("new")])],
        ),
        el(
            "div",
            &["docblock"],
            vec![el("p", &[], vec![text("the x field")])],
        ),
        el("span", &["variant"], vec![text("y")]),
        heading("Methods"),
        el(
            "div",
            &["item-table"],
            vec![
                el("div", &["item-left"], vec![text("m")]),
                el("div", &["item-right"], vec![text("a method")]),
            ],
        ),
    ]);
    let doc = parse_document(&root).unwrap();
    assert_eq!(doc.items.len(), 2);
    match &doc.items[0].kind {
        ListingType::Fields(items) => {
            assert_eq!(items.len(), 2);
            assert_eq!(items[0].name, vec![plain("x")]);
            assert_eq!(
                items[0].info.stability.as_ref().unwrap().summary,
                vec![plain("new")]
            );
            let description = items[0].description.as_ref().unwrap();
            assert_eq!(
                description[0].contents,
                vec![Paragraph::Text(vec![plain("the x field")])]
            );
            assert_eq!(items[1].name, vec![plain("y")]);
            assert!(items[1].description.is_none());
        }
        other => panic!("expected a fields listing, got {:?}", other),
    }
    assert_eq!(doc.items[1].heading, vec![plain("Methods")]);
}

#[test]
fn heading_with_no_body_before_next_heading_emits_empty_fields() {
    let root = main_el(vec![
        fqn("Foo"),
        heading("Fields"),
        heading("Methods"),
        el(
            "div",
            &["item-table"],
            vec![
                el("div", &["item-left"], vec![text("m")]),
                el("div", &["item-right"], vec![text("s")]),
            ],
        ),
    ]);
    let doc = parse_document(&root).unwrap();
    assert_eq!(doc.items.len(), 2);
    assert_eq!(doc.items[0].heading, vec![plain("Fields")]);
    match &doc.items[0].kind {
        ListingType::Fields(items) => assert_eq!(items.len(), 0),
        other => panic!("expected an empty fields listing, got {:?}", other),
    }
}

#[test]
fn trailing_heading_with_no_body_is_dropped() {
    let root = main_el(vec![fqn("Foo"), heading("Fields"), text("stray")]);
    let doc = parse_document(&root).unwrap();
    assert_eq!(doc.items.len(), 0);
}

#[test]
fn listing_count_matches_headings_with_classified_bodies() {
    let root = main_el(vec![
        fqn("Foo"),
        heading("One"),
        text("junk between heading and body"),
        el(
            "div",
            &["item-table"],
            vec![
                el("div", &["item-left"], vec![text("a")]),
                el("div", &["item-right"], vec![text("b")]),
            ],
        ),
        el("p", &[], vec![text("dropped content after the body")]),
        heading("Two"),
        el("span", &["structfield"], vec![text("f")]),
        heading("Three"),
    ]);
    let doc = parse_document(&root).unwrap();
    // "One" and "Two" had classified bodies; "Three" ran off the end.
    assert_eq!(doc.items.len(), 2);
    assert_eq!(doc.items[0].heading, vec![plain("One")]);
    assert_eq!(doc.items[1].heading, vec![plain("Two")]);
}

#[test]
fn impl_listing_groups_members_under_targets() {
    let root = main_el(vec![
        fqn("Foo"),
        heading("Trait Implementations"),
        el(
            "h3",
            &["impl"],
            vec![el("code", &["in-band"], vec![text("impl Debug for Foo")])],
        ),
        el(
            "div",
            &["impl-items"],
            vec![
                el("h4", &[], vec![el("code", &[], vec![text("fn fmt()")])]),
                el(
                    "div",
                    &["docblock"],
                    vec![el("p", &[], vec![text("formats")])],
                ),
            ],
        ),
        el(
            "h3",
            &["impl"],
            vec![el("code", &["in-band"], vec![text("impl Clone for Foo")])],
        ),
    ]);
    let doc = parse_document(&root).unwrap();
    assert_eq!(doc.items.len(), 1);
    match &doc.items[0].kind {
        ListingType::Impls(impls) => {
            assert_eq!(impls.len(), 2);
            assert_eq!(
                impls[0].target,
                vec![
                    TextPart::BeginStyle(paradocs::TextStyle::Monospaced),
                    plain("impl Debug for Foo"),
                    TextPart::EndStyle,
                ]
            );
            assert_eq!(impls[0].items.len(), 1);
            assert_eq!(
                impls[0].items[0].name,
                vec![
                    TextPart::BeginStyle(paradocs::TextStyle::Monospaced),
                    plain("fn fmt()"),
                    TextPart::EndStyle,
                ]
            );
            assert!(impls[0].items[0].description.is_some());
            assert_eq!(impls[1].items.len(), 0);
        }
        other => panic!("expected an impls listing, got {:?}", other),
    }
}

#[test]
fn implementor_toggles_form_an_impls_listing() {
    let toggle = el(
        "details",
        &["implementors-toggle"],
        vec![
            el(
                "summary",
                &[],
                vec![el(
                    "div",
                    &["has-srclink"],
                    vec![el(
                        "h3",
                        &["code-header"],
                        vec![text("impl Trait for A")],
                    )],
                )],
            ),
            el(
                "div",
                &["impl-items"],
                vec![el("h4", &[], vec![el("code", &[], vec![text("fn f()")])])],
            ),
        ],
    );
    let root = main_el(vec![fqn("Trait"), heading("Implementors"), toggle]);
    let doc = parse_document(&root).unwrap();
    assert_eq!(doc.items.len(), 1);
    match &doc.items[0].kind {
        ListingType::Impls(impls) => {
            assert_eq!(impls.len(), 1);
            assert_eq!(impls[0].target, vec![plain("impl Trait for A")]);
            assert_eq!(impls[0].items.len(), 1);
        }
        other => panic!("expected an impls listing, got {:?}", other),
    }
}

#[test]
fn implementor_without_body_has_no_items() {
    let toggle = el(
        "details",
        &["implementors-toggle"],
        vec![el(
            "summary",
            &[],
            vec![el(
                "div",
                &["has-srclink"],
                vec![el("h3", &["code-header"], vec![text("impl T for B")])],
            )],
        )],
    );
    let imp = parse_implementor_or_empty(&toggle).unwrap();
    assert_eq!(imp.target, vec![plain("impl T for B")]);
    assert_eq!(imp.items.len(), 0);
}

#[test]
fn empty_impl_placeholder_is_recognized() {
    let placeholder = el(
        "div",
        &["impl"],
        vec![el("h3", &["in-band"], vec![text("impl U for C")])],
    );
    let imp = parse_implementor_or_empty(&placeholder).unwrap();
    assert_eq!(imp.target, vec![plain("impl U for C")]);
    assert_eq!(imp.items.len(), 0);
}

#[test]
fn impl_div_is_one_atomic_unit() {
    let div = el(
        "div",
        &[],
        vec![
            el(
                "h3",
                &["impl"],
                vec![el("code", &["in-band"], vec![text("impl A")])],
            ),
            el(
                "div",
                &["impl-items"],
                vec![el("h4", &[], vec![el("code", &[], vec![text("fn a()")])])],
            ),
        ],
    );
    let impls = parse_impl_div(&div).unwrap();
    assert_eq!(impls.len(), 1);
    assert_eq!(impls[0].items.len(), 1);
    let with_stray = el(
        "div",
        &[],
        vec![el("p", &[], vec![text("stray")])],
    );
    assert!(parse_impl_div(&with_stray).is_none());
}

#[test]
fn impl_items_attach_info_and_description_to_last_member() {
    let container = el(
        "div",
        &["impl-items"],
        vec![
            el("h4", &[], vec![el("code", &[], vec![text("fn a()")])]),
            el(
                "div",
                &["item-info"],
                vec![el("div", &["deprecated"], vec![text("use b")])],
            ),
            el("h4", &[], vec![el("code", &[], vec![text("fn b()")])]),
            el(
                "div",
                &["docblock"],
                vec![el("p", &[], vec![text("about b")])],
            ),
        ],
    );
    let items = parse_impl_items(&container).unwrap();
    assert_eq!(items.len(), 2);
    assert!(items[0].info.deprecation.is_some());
    assert!(items[0].description.is_none());
    assert!(items[1].info.deprecation.is_none());
    assert!(items[1].description.is_some());
}

#[test]
fn collapsed_toggle_member_carries_description() {
    let toggle = el(
        "details",
        &[],
        vec![
            el(
                "summary",
                &[],
                vec![el(
                    "div",
                    &["has-srclink"],
                    vec![el("h4", &["code-header"], vec![text("fn c()")])],
                )],
            ),
            el(
                "div",
                &["docblock"],
                vec![el("p", &[], vec![text("about c")])],
            ),
        ],
    );
    let container = el("div", &["impl-items"], vec![toggle]);
    let items = parse_impl_items(&container).unwrap();
    assert_eq!(items.len(), 1);
    assert_eq!(items[0].name, vec![plain("fn c()")]);
    assert!(items[0].description.is_some());
}

#[test]
fn malformed_table_body_is_skipped_not_fatal() {
    // The broken table declines every classifier, so its heading is closed
    // by the next heading as an empty fields listing.
    let root = main_el(vec![
        fqn("Foo"),
        heading("Structs"),
        el(
            "div",
            &["item-table"],
            vec![el("div", &["item-left"], vec![text("unpaired")])],
        ),
        heading("Enums"),
        el(
            "div",
            &["item-table"],
            vec![
                el("div", &["item-left"], vec![text("E")]),
                el("div", &["item-right"], vec![text("an enum")]),
            ],
        ),
    ]);
    let doc = parse_document(&root).unwrap();
    assert_eq!(doc.items.len(), 2);
    match &doc.items[0].kind {
        ListingType::Fields(items) => assert_eq!(items.len(), 0),
        other => panic!("expected an empty fields listing, got {:?}", other),
    }
    match &doc.items[1].kind {
        ListingType::Table(rows) => assert_eq!(rows.len(), 1),
        other => panic!("expected a table listing, got {:?}", other),
    }
}

#[test]
fn small_section_header_also_opens_a_listing() {
    let root = main_el(vec![
        fqn("Foo"),
        el("h2", &["small-section-header"], vec![text("Variants")]),
        el("span", &["variant"], vec![text("A")]),
    ]);
    let doc = parse_document(&root).unwrap();
    assert_eq!(doc.items.len(), 1);
    assert_eq!(doc.items[0].heading, vec![plain("Variants")]);
}

#[test]
fn impl_heading_without_in_band_code_declines() {
    let root = main_el(vec![
        fqn("Foo"),
        heading("Impls"),
        el("h3", &["impl"], vec![el("code", &[], vec![text("impl X")])]),
    ]);
    let doc = parse_document(&root).unwrap();
    // The malformed impl heading classifies nowhere, and nothing else
    // follows, so the heading is dropped.
    assert_eq!(doc.items.len(), 0);
}

#[test]
fn collapsed_toggle_without_description_is_not_a_member() {
    let toggle = el(
        "details",
        &[],
        vec![el(
            "summary",
            &[],
            vec![el(
                "div",
                &["has-srclink"],
                vec![el("h4", &["code-header"], vec![text("fn d()")])],
            )],
        )],
    );
    let container = el("div", &["impl-items"], vec![toggle]);
    let items = parse_impl_items(&container).unwrap();
    assert_eq!(items.len(), 0);
}

#[test]
fn full_page_with_since_and_two_listings() {
    let root = main_el(vec![
        el(
            "h1",
            &["fqn"],
            vec![
                el("span", &["in-band"], vec![text("Struct Foo")]),
                el(
                    "span",
                    &["out-of-band"],
                    vec![el("span", &["since"], vec![text("1.2.3")])],
                ),
            ],
        ),
        el(
            "div",
            &["item-decl"],
            vec![el("pre", &[], vec![text("pub struct Foo { }")])],
        ),
        heading("Fields"),
        el("span", &["structfield"], vec![text("a")]),
        heading("Trait Implementations"),
        el(
            "h3",
            &["impl"],
            vec![el("code", &["in-band"], vec![text("impl Eq for Foo")])],
        ),
    ]);
    let doc = parse_document(&root).unwrap();
    assert_eq!(doc.since, Some("1.2.3".to_string()));
    assert_eq!(doc.declaration, Some(vec![plain("pub struct Foo { }")]));
    assert_eq!(doc.items.len(), 2);
    match (&doc.items[0].kind, &doc.items[1].kind) {
        (ListingType::Fields(fields), ListingType::Impls(impls)) => {
            assert_eq!(fields.len(), 1);
            assert_eq!(impls.len(), 1);
        }
        other => panic!("unexpected listing kinds: {:?}", other),
    }
}
