//! Tests for the two item-table encodings and their asymmetric strictness.

use paradocs::section::table::{parse_block_table, parse_item_table};
use paradocs::{Attr, Element, HtmlNode, TextPart};

fn el(name: &str, classes: &[&str], children: Vec<HtmlNode>) -> HtmlNode {
    HtmlNode::Element(Element {
        name: name.to_string(),
        classes: classes.iter().map(|c| c.to_string()).collect(),
        attrs: Vec::new(),
        children,
    })
}

fn el_attr(
    name: &str,
    classes: &[&str],
    attrs: &[(&str, &str)],
    children: Vec<HtmlNode>,
) -> HtmlNode {
    HtmlNode::Element(Element {
        name: name.to_string(),
        classes: classes.iter().map(|c| c.to_string()).collect(),
        attrs: attrs
            .iter()
            .map(|(k, v)| Attr { name: k.to_string(), value: v.to_string() })
            .collect(),
        children,
    })
}

fn text(s: &str) -> HtmlNode {
    HtmlNode::Text(s.to_string())
}

fn plain(s: &str) -> TextPart {
    TextPart::Text(s.to_string())
}

fn left(name: &str) -> HtmlNode {
    el("div", &["item-left"], vec![text(name)])
}

fn right(summary: &str) -> HtmlNode {
    el("div", &["item-right"], vec![text(summary)])
}

#[test]
fn div_table_reads_left_right_pairs() {
    let table = el(
        "div",
        &["item-table"],
        vec![left("a"), right("first"), left("b"), right("second")],
    );
    let rows = parse_item_table(&table).unwrap();
    assert_eq!(rows.len(), 2);
    assert_eq!(rows[0].item, vec![plain("a")]);
    assert_eq!(rows[0].summary, vec![plain("first")]);
    assert_eq!(rows[1].item, vec![plain("b")]);
    assert_eq!(rows[1].summary, vec![plain("second")]);
}

#[test]
fn div_table_reads_complete_rows() {
    let table = el(
        "div",
        &["item-table"],
        vec![el("div", &["item-row"], vec![left("x"), right("about x")])],
    );
    let rows = parse_item_table(&table).unwrap();
    assert_eq!(rows.len(), 1);
    assert_eq!(rows[0].item, vec![plain("x")]);
    assert_eq!(rows[0].summary, vec![plain("about x")]);
}

#[test]
fn unpaired_item_left_fails_the_whole_div_table() {
    let trailing = el("div", &["item-table"], vec![left("a"), right("ok"), left("b")]);
    assert!(parse_item_table(&trailing).is_none());
    let mismatched = el("div", &["item-table"], vec![left("a"), left("b")]);
    assert!(parse_item_table(&mismatched).is_none());
}

#[test]
fn unknown_child_fails_the_whole_div_table() {
    let table = el(
        "div",
        &["item-table"],
        vec![left("a"), right("ok"), el("p", &[], vec![text("stray")])],
    );
    assert!(parse_item_table(&table).is_none());
}

#[test]
fn left_cell_disclosures_are_first_match_wins() {
    let cell = el(
        "div",
        &["item-left"],
        vec![
            text("name"),
            el("div", &["deprecated"], vec![text("old")]),
            el("div", &["deprecated"], vec![text("older, ignored")]),
        ],
    );
    let table = el("div", &["item-table"], vec![cell, right("s")]);
    let rows = parse_item_table(&table).unwrap();
    let deprecation = rows[0].deprecation.as_ref().unwrap();
    assert_eq!(deprecation.summary, vec![plain("old")]);
    assert!(rows[0].stability.is_none());
}

fn block_table(trs: Vec<HtmlNode>) -> HtmlNode {
    el_attr(
        "table",
        &[],
        &[("style", "display: block;")],
        vec![el("tbody", &[], trs)],
    )
}

#[test]
fn block_table_reads_tr_rows() {
    let table = block_table(vec![el(
        "tr",
        &[],
        vec![
            el("td", &[], vec![text("a")]),
            el("td", &[], vec![text("first")]),
        ],
    )]);
    let rows = parse_block_table(&table).unwrap();
    assert_eq!(rows.len(), 1);
    assert_eq!(rows[0].item, vec![plain("a")]);
    assert_eq!(rows[0].summary, vec![plain("first")]);
}

#[test]
fn block_table_missing_right_td_defaults_to_empty_summary() {
    let table = block_table(vec![el("tr", &[], vec![el("td", &[], vec![text("lone")])])]);
    let rows = parse_block_table(&table).unwrap();
    assert_eq!(rows.len(), 1);
    assert_eq!(rows[0].item, vec![plain("lone")]);
    assert_eq!(rows[0].summary, Vec::<TextPart>::new());
}

#[test]
fn block_table_requires_display_block_style() {
    let plain_table = el(
        "table",
        &[],
        vec![el(
            "tbody",
            &[],
            vec![el("tr", &[], vec![el("td", &[], vec![text("x")])])],
        )],
    );
    assert!(parse_block_table(&plain_table).is_none());
}

#[test]
fn block_table_fails_on_a_non_tr_child() {
    let table = block_table(vec![
        el("tr", &[], vec![el("td", &[], vec![text("ok")])]),
        el("div", &[], vec![]),
    ]);
    assert!(parse_block_table(&table).is_none());
}

#[test]
fn block_table_requires_leading_tbody() {
    let table = el_attr(
        "table",
        &[],
        &[("style", "display: block;")],
        vec![el("thead", &[], vec![])],
    );
    assert!(parse_block_table(&table).is_none());
}

#[test]
fn block_table_left_td_disclosures() {
    let table = block_table(vec![el(
        "tr",
        &[],
        vec![el(
            "td",
            &[],
            vec![
                text("name"),
                el("div", &["unstable"], vec![text("nightly")]),
            ],
        )],
    )]);
    let rows = parse_block_table(&table).unwrap();
    let stability = rows[0].stability.as_ref().unwrap();
    assert_eq!(stability.summary, vec![plain("nightly")]);
}
