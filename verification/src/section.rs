//! Section headings of the item-listing area, and the two physical
//! encodings of the item-summary table.

pub mod table;

use vstd::prelude::*;

use crate::atom::{parse_text_inside, spec_text_inside, TextPart, TextPartV};
use crate::dom::{has_class, str_eq, HtmlNode, NodeV};

verus! {

/// Whether the node is an `h2.section-header` heading.
pub open spec fn spec_is_section_header(n: NodeV) -> bool {
    match n {
        NodeV::Element(e) => e.name == "h2"@ && has_class(e, "section-header"@),
        NodeV::Text(_) => false,
    }
}

/// The heading text of an `h2.section-header` node, or a declination.
pub open spec fn spec_parse_section_header(n: NodeV) -> Option<Seq<TextPartV>> {
    match n {
        NodeV::Element(e) => if spec_is_section_header(n) {
            Some(spec_text_inside(e.children))
        } else {
            None
        },
        NodeV::Text(_) => None,
    }
}

/// Whether the node is an `h2.section-header` heading.
pub fn is_section_header(node: &HtmlNode) -> (r: bool)
    ensures
        r == spec_is_section_header(node.deep_view()),
{
    match node {
        HtmlNode::Element(e) => str_eq(e.name.as_str(), "h2") && e.has_class("section-header"),
        HtmlNode::Text(_) => false,
    }
}

/// Recognizes an `h2.section-header` heading and reads its text.
pub fn parse_section_header(node: &HtmlNode) -> (r: Option<Vec<TextPart>>)
    ensures
        r.deep_view() == spec_parse_section_header(node.deep_view()),
{
    if is_section_header(node) {
        Some(parse_text_inside(node))
    } else {
        None
    }
}

} // verus!
