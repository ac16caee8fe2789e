//! The field/variant recognizer that opens a field-list body.

use vstd::prelude::*;

use crate::atom::{parse_text_inside, spec_text_inside, TextPart, TextPartV};
use crate::dom::{has_class, str_eq, HtmlNode, NodeV};

verus! {

/// The name text of a `span.structfield`/`span.variant` node, or a
/// declination.
pub open spec fn spec_parse_struct_field_or_variant(n: NodeV) -> Option<Seq<TextPartV>> {
    match n {
        NodeV::Element(e) => if e.name == "span"@ && (has_class(e, "structfield"@) || has_class(
            e,
            "variant"@,
        )) {
            Some(spec_text_inside(e.children))
        } else {
            None
        },
        NodeV::Text(_) => None,
    }
}

/// Recognizes a struct-field or enum-variant marker span.
pub fn parse_struct_field_or_variant(node: &HtmlNode) -> (r: Option<Vec<TextPart>>)
    ensures
        r.deep_view() == spec_parse_struct_field_or_variant(node.deep_view()),
{
    match node {
        HtmlNode::Element(e) => {
            if str_eq(e.name.as_str(), "span") && (e.has_class("structfield") || e.has_class(
                "variant",
            )) {
                Some(parse_text_inside(node))
            } else {
                None
            }
        },
        HtmlNode::Text(_) => None,
    }
}

} // verus!
