//! Documented members: item-listing headings and the member/impl data
//! model shared by the field-list and impl-block extractors.

pub mod fields;
pub mod impls;

use vstd::prelude::*;

use crate::atom::{parse_text_inside, spec_text_inside, TextPart, TextPartV};
use crate::dom::{has_class, str_eq, HtmlNode, NodeV};
use crate::header::{ItemInfo, ItemInfoV, Section, SectionV};

verus! {

/// One named member row: name, disclosures, and summary text.
#[derive(Debug, PartialEq, Eq)]
pub struct ItemRow {
    pub name: Vec<TextPart>,
    pub info: ItemInfo,
    pub summary: Vec<TextPart>,
}

/// One documented member: its name, its disclosures, and its description.
#[derive(Debug, PartialEq, Eq)]
pub struct Item {
    pub name: Vec<TextPart>,
    pub info: ItemInfo,
    pub description: Option<Vec<Section>>,
}

/// Documented members grouped under one implementation target signature.
#[derive(Debug, PartialEq, Eq)]
pub struct Impl {
    pub target: Vec<TextPart>,
    pub items: Vec<Item>,
}

/// Spec-level member row.
pub struct ItemRowV {
    pub name: Seq<TextPartV>,
    pub info: ItemInfoV,
    pub summary: Seq<TextPartV>,
}

/// Spec-level documented member.
pub struct ItemV {
    pub name: Seq<TextPartV>,
    pub info: ItemInfoV,
    pub description: Option<Seq<SectionV>>,
}

/// Spec-level impl block.
pub struct ImplV {
    pub target: Seq<TextPartV>,
    pub items: Seq<ItemV>,
}

impl DeepView for ItemRow {
    type V = ItemRowV;

    open spec fn deep_view(&self) -> ItemRowV {
        ItemRowV {
            name: self.name.deep_view(),
            info: self.info.deep_view(),
            summary: self.summary.deep_view(),
        }
    }
}

impl DeepView for Item {
    type V = ItemV;

    open spec fn deep_view(&self) -> ItemV {
        ItemV {
            name: self.name.deep_view(),
            info: self.info.deep_view(),
            description: self.description.deep_view(),
        }
    }
}

impl DeepView for Impl {
    type V = ImplV;

    open spec fn deep_view(&self) -> ImplV {
        ImplV { target: self.target.deep_view(), items: self.items.deep_view() }
    }
}

/// Whether the node is a listing heading: an `h2` of class
/// `section-header` or `small-section-header`.
pub open spec fn spec_is_item_header(n: NodeV) -> bool {
    match n {
        NodeV::Element(e) => e.name == "h2"@ && (has_class(e, "section-header"@) || has_class(
            e,
            "small-section-header"@,
        )),
        NodeV::Text(_) => false,
    }
}

/// The heading text of a listing heading, or a declination.
pub open spec fn spec_parse_item_header(n: NodeV) -> Option<Seq<TextPartV>> {
    match n {
        NodeV::Element(e) => if spec_is_item_header(n) {
            Some(spec_text_inside(e.children))
        } else {
            None
        },
        NodeV::Text(_) => None,
    }
}

/// Whether the node is a listing heading.
pub fn is_item_header(node: &HtmlNode) -> (r: bool)
    ensures
        r == spec_is_item_header(node.deep_view()),
{
    match node {
        HtmlNode::Element(e) => str_eq(e.name.as_str(), "h2") && (e.has_class("section-header")
            || e.has_class("small-section-header")),
        HtmlNode::Text(_) => false,
    }
}

/// Recognizes a listing heading and reads its text.
pub fn parse_item_header(node: &HtmlNode) -> (r: Option<Vec<TextPart>>)
    ensures
        r.deep_view() == spec_parse_item_header(node.deep_view()),
{
    if is_item_header(node) {
        Some(parse_text_inside(node))
    } else {
        None
    }
}

} // verus!
