//! Tests for the text-run extractor and the block-level recognizers.

use paradocs::atom::{parse_code, parse_list, parse_p, parse_pre, parse_text_inside_to, parse_unstable};
use paradocs::{Attr, Element, HtmlNode, TextPart, TextStyle};

fn el(name: &str, classes: &[&str], children: Vec<HtmlNode>) -> HtmlNode {
    HtmlNode::Element(Element {
        name: name.to_string(),
        classes: classes.iter().map(|c| c.to_string()).collect(),
        attrs: Vec::new(),
        children,
    })
}

fn el_attr(
    name: &str,
    classes: &[&str],
    attrs: &[(&str, &str)],
    children: Vec<HtmlNode>,
) -> HtmlNode {
    HtmlNode::Element(Element {
        name: name.to_string(),
        classes: classes.iter().map(|c| c.to_string()).collect(),
        attrs: attrs
            .iter()
            .map(|(k, v)| Attr { name: k.to_string(), value: v.to_string() })
            .collect(),
        children,
    })
}

fn text(s: &str) -> HtmlNode {
    HtmlNode::Text(s.to_string())
}

fn plain(s: &str) -> TextPart {
    TextPart::Text(s.to_string())
}

#[test]
fn styled_text_flattens_with_markers() {
    // <p>See <a href="x">here</a> and <strong>now</strong>.</p>
    let p = el(
        "p",
        &[],
        vec![
            text("See "),
            el_attr("a", &[], &[("href", "x")], vec![text("here")]),
            text(" and "),
            el("strong", &[], vec![text("now")]),
            text("."),
        ],
    );
    let runs = parse_p(&p).expect("a p element is a text block");
    assert_eq!(
        runs,
        vec![
            plain("See "),
            TextPart::BeginStyle(TextStyle::Link(Some("x".to_string()))),
            plain("here"),
            TextPart::EndStyle,
            plain(" and "),
            TextPart::BeginStyle(TextStyle::Bold),
            plain("now"),
            TextPart::EndStyle,
            plain("."),
        ]
    );
}

#[test]
fn markers_balance_on_nested_styles() {
    let p = el(
        "p",
        &[],
        vec![el(
            "em",
            &[],
            vec![text("a"), el("code", &[], vec![text("b")]), text("c")],
        )],
    );
    let runs = parse_p(&p).unwrap();
    let mut depth: i64 = 0;
    for part in &runs {
        match part {
            TextPart::BeginStyle(_) => depth += 1,
            TextPart::EndStyle => {
                depth -= 1;
                assert!(depth >= 0, "a close marker before its open marker");
            }
            TextPart::Text(_) => {}
        }
    }
    assert_eq!(depth, 0, "every style must be closed");
    assert_eq!(
        runs,
        vec![
            TextPart::BeginStyle(TextStyle::Italic),
            plain("a"),
            TextPart::BeginStyle(TextStyle::Monospaced),
            plain("b"),
            TextPart::EndStyle,
            plain("c"),
            TextPart::EndStyle,
        ]
    );
}

#[test]
fn link_without_href_keeps_style_marker() {
    let p = el("p", &[], vec![el("a", &[], vec![text("here")])]);
    assert_eq!(
        parse_p(&p).unwrap(),
        vec![
            TextPart::BeginStyle(TextStyle::Link(None)),
            plain("here"),
            TextPart::EndStyle,
        ]
    );
}

#[test]
fn br_and_fmt_newline_emit_newlines() {
    let p = el(
        "p",
        &[],
        vec![
            text("a"),
            el("br", &[], vec![]),
            el("span", &["fmt-newline"], vec![text("b")]),
        ],
    );
    assert_eq!(
        parse_p(&p).unwrap(),
        vec![plain("a"), plain("\n"), plain("\n"), plain("b")]
    );
}

#[test]
fn unrecognized_tags_are_dropped_silently() {
    let p = el(
        "p",
        &[],
        vec![
            el("script", &[], vec![text("ignored")]),
            text("kept"),
            el("table", &[], vec![text("ignored too")]),
        ],
    );
    assert_eq!(parse_p(&p).unwrap(), vec![plain("kept")]);
}

#[test]
fn underline_and_strikethrough_styles() {
    let p = el(
        "p",
        &[],
        vec![
            el("u", &[], vec![text("u")]),
            el("del", &[], vec![text("d")]),
        ],
    );
    assert_eq!(
        parse_p(&p).unwrap(),
        vec![
            TextPart::BeginStyle(TextStyle::Underline),
            plain("u"),
            TextPart::EndStyle,
            TextPart::BeginStyle(TextStyle::Strikethrough),
            plain("d"),
            TextPart::EndStyle,
        ]
    );
}

#[test]
fn parse_p_declines_other_tags() {
    assert_eq!(parse_p(&el("div", &[], vec![text("x")])), None);
    assert_eq!(parse_p(&text("x")), None);
}

#[test]
fn list_collects_li_children_and_skips_others() {
    let ul = el(
        "ul",
        &[],
        vec![
            el("li", &[], vec![text("one")]),
            text("\n"),
            el("div", &[], vec![text("not an item")]),
            el("li", &[], vec![text("two")]),
        ],
    );
    assert_eq!(
        parse_list(&ul).unwrap(),
        vec![vec![plain("one")], vec![plain("two")]]
    );
}

#[test]
fn ordered_list_is_recognized_too() {
    let ol = el("ol", &[], vec![el("li", &[], vec![text("x")])]);
    assert_eq!(parse_list(&ol).unwrap(), vec![vec![plain("x")]]);
    assert_eq!(parse_list(&el("dl", &[], vec![])), None);
}

#[test]
fn code_block_takes_first_pre_child() {
    let code = el(
        "div",
        &["example-wrap"],
        vec![
            text("\n"),
            el("pre", &["rust"], vec![text("fn main() {}")]),
            el("pre", &[], vec![text("second")]),
        ],
    );
    assert_eq!(parse_code(&code).unwrap(), vec![plain("fn main() {}")]);
}

#[test]
fn code_block_declines_without_pre_or_class() {
    assert_eq!(parse_code(&el("div", &["example-wrap"], vec![text("x")])), None);
    assert_eq!(parse_code(&el("div", &[], vec![el("pre", &[], vec![])])), None);
}

#[test]
fn pre_extracts_inside_text() {
    let pre = el("pre", &[], vec![el("span", &[], vec![text("let x;")])]);
    assert_eq!(parse_pre(&pre).unwrap().code, vec![plain("let x;")]);
    assert!(parse_pre(&el("div", &[], vec![])).is_none());
}

#[test]
fn details_pair_gives_summary_and_detail() {
    let details = el(
        "details",
        &[],
        vec![
            el("summary", &[], vec![text("short")]),
            text("long "),
            el("em", &[], vec![text("tail")]),
        ],
    );
    let d = parse_unstable(&el("div", &["unstable"], vec![details])).unwrap();
    assert_eq!(d.summary, vec![plain("short")]);
    assert_eq!(
        d.detail,
        Some(vec![
            plain("long "),
            TextPart::BeginStyle(TextStyle::Italic),
            plain("tail"),
            TextPart::EndStyle,
        ])
    );
}

#[test]
fn parse_text_inside_to_appends_to_the_buffer() {
    let p = el("p", &[], vec![text("tail")]);
    let mut buffer = vec![plain("head")];
    parse_text_inside_to(&p, &mut buffer);
    assert_eq!(buffer, vec![plain("head"), plain("tail")]);
}
