//! The item-summary table, in its two physical encodings: a `div.item-table`
//! of row divs or left/right pairs, and a block-display `<table>` of `tr`
//! rows.
//!
//! The div encoding is the strict one: an `item-left` cell without a
//! following `item-right` cell fails the whole table. The table encoding is
//! laxer: a missing right `td` defaults to an empty summary.

use vstd::prelude::*;

use crate::atom::{
    parse_text_inside, parse_text_outside, scan_disclosures, spec_first_disclosure,
    spec_text_inside, spec_text_outside, Details, DetailsV, TextPart, TextPartV,
};
use crate::dom::{
    attr_of, has_class, lemma_view_nodes, str_eq, view_node, view_nodes, Element, ElementV,
    HtmlNode, NodeV,
};

verus! {

/// One row of an item-summary table: the item's name, its optional
/// disclosures, and its summary text.
#[derive(Debug, PartialEq, Eq)]
pub struct ItemRow {
    pub item: Vec<TextPart>,
    pub stability: Option<Details>,
    pub portability: Option<Details>,
    pub deprecation: Option<Details>,
    pub summary: Vec<TextPart>,
}

/// Spec-level table row.
pub struct ItemRowV {
    pub item: Seq<TextPartV>,
    pub stability: Option<DetailsV>,
    pub portability: Option<DetailsV>,
    pub deprecation: Option<DetailsV>,
    pub summary: Seq<TextPartV>,
}

impl DeepView for ItemRow {
    type V = ItemRowV;

    open spec fn deep_view(&self) -> ItemRowV {
        ItemRowV {
            item: self.item.deep_view(),
            stability: self.stability.deep_view(),
            portability: self.portability.deep_view(),
            deprecation: self.deprecation.deep_view(),
            summary: self.summary.deep_view(),
        }
    }
}

/// Spec-level left cell: name text and the disclosures that follow it.
pub struct ItemLeftV {
    pub text: Seq<TextPartV>,
    pub stability: Option<DetailsV>,
    pub portability: Option<DetailsV>,
    pub deprecation: Option<DetailsV>,
}

/// The left cell of a row: a `div.item-left` whose first child is the name
/// and whose later children may carry disclosures.
pub open spec fn spec_parse_item_left(n: NodeV) -> Option<ItemLeftV> {
    match n {
        NodeV::Element(e) => if e.name == "div"@ && has_class(e, "item-left"@) && e.children.len()
            > 0 {
            Some(
                ItemLeftV {
                    text: spec_text_outside(e.children[0]),
                    stability: spec_first_disclosure(e.children.drop_first(), "unstable"@),
                    portability: spec_first_disclosure(e.children.drop_first(), "portability"@),
                    deprecation: spec_first_disclosure(e.children.drop_first(), "deprecated"@),
                },
            )
        } else {
            None
        },
        NodeV::Text(_) => None,
    }
}

/// The right cell of a row: a `div.item-right` holding the summary.
pub open spec fn spec_parse_item_right(n: NodeV) -> Option<Seq<TextPartV>> {
    match n {
        NodeV::Element(e) => if e.name == "div"@ && has_class(e, "item-right"@) {
            Some(spec_text_inside(e.children))
        } else {
            None
        },
        NodeV::Text(_) => None,
    }
}

/// A row assembled from its two cells.
pub open spec fn spec_row_of(left: ItemLeftV, summary: Seq<TextPartV>) -> ItemRowV {
    ItemRowV {
        item: left.text,
        stability: left.stability,
        portability: left.portability,
        deprecation: left.deprecation,
        summary,
    }
}

/// A complete `div.item-row` node: a left cell then a right cell.
pub open spec fn spec_parse_item_row(n: NodeV) -> Option<ItemRowV> {
    match n {
        NodeV::Element(e) => if e.name == "div"@ && has_class(e, "item-row"@) && e.children.len()
            >= 2 {
            match spec_parse_item_left(e.children[0]) {
                Some(left) => match spec_parse_item_right(e.children[1]) {
                    Some(right) => Some(spec_row_of(left, right)),
                    None => None,
                },
                None => None,
            }
        } else {
            None
        },
        NodeV::Text(_) => None,
    }
}

/// The rows of a `div.item-table`'s children: each child is a complete row
/// node, or a left cell that the very next child must complete with a right
/// cell; anything else, including a trailing unpaired left cell, fails the
/// whole table.
pub open spec fn spec_table_rows(s: Seq<NodeV>) -> Option<Seq<ItemRowV>>
    decreases s.len(),
{
    if s.len() == 0 {
        Some(Seq::empty())
    } else {
        match spec_parse_item_row(s[0]) {
            Some(row) => match spec_table_rows(s.drop_first()) {
                Some(rest) => Some(seq![row] + rest),
                None => None,
            },
            None => match spec_parse_item_left(s[0]) {
                Some(left) => if s.len() < 2 {
                    None
                } else {
                    match spec_parse_item_right(s[1]) {
                        Some(right) => match spec_table_rows(s.skip(2)) {
                            Some(rest) => Some(seq![spec_row_of(left, right)] + rest),
                            None => None,
                        },
                        None => None,
                    }
                },
                None => None,
            },
        }
    }
}

/// The rows of a `div.item-table` element, or a declination.
pub open spec fn spec_parse_item_table(n: NodeV) -> Option<Seq<ItemRowV>> {
    match n {
        NodeV::Element(e) => if e.name == "div"@ && has_class(e, "item-table"@) {
            spec_table_rows(e.children)
        } else {
            None
        },
        NodeV::Text(_) => None,
    }
}

/// A summary `td` cell of the block-table encoding.
pub open spec fn spec_parse_right_td(n: NodeV) -> Option<Seq<TextPartV>> {
    match n {
        NodeV::Element(e) => if e.name == "td"@ {
            Some(spec_text_inside(e.children))
        } else {
            None
        },
        NodeV::Text(_) => None,
    }
}

/// One `tr` row of the block-table encoding: a mandatory left `td` with at
/// least the name child, then an optional right `td`; a missing or
/// unrecognized right cell defaults to an empty summary.
pub open spec fn spec_block_tr(n: NodeV) -> Option<ItemRowV> {
    match n {
        NodeV::Element(tr) => if tr.name == "tr"@ && tr.children.len() > 0 {
            match tr.children[0] {
                NodeV::Element(td) => if td.name == "td"@ && td.children.len() > 0 {
                    Some(
                        ItemRowV {
                            item: spec_text_outside(td.children[0]),
                            stability: spec_first_disclosure(td.children.drop_first(), "unstable"@),
                            portability: spec_first_disclosure(
                                td.children.drop_first(),
                                "portability"@,
                            ),
                            deprecation: spec_first_disclosure(
                                td.children.drop_first(),
                                "deprecated"@,
                            ),
                            summary: if tr.children.len() >= 2 {
                                match spec_parse_right_td(tr.children[1]) {
                                    Some(t) => t,
                                    None => Seq::empty(),
                                }
                            } else {
                                Seq::empty()
                            },
                        },
                    )
                } else {
                    None
                },
                NodeV::Text(_) => None,
            }
        } else {
            None
        },
        NodeV::Text(_) => None,
    }
}

/// The rows of a `tbody`'s children: every child must be a recognized `tr`
/// row, or the whole table fails.
pub open spec fn spec_block_rows(s: Seq<NodeV>) -> Option<Seq<ItemRowV>>
    decreases s,
{
    if s.len() == 0 {
        Some(Seq::empty())
    } else {
        match spec_block_tr(s[0]) {
            Some(row) => match spec_block_rows(s.drop_first()) {
                Some(rest) => Some(seq![row] + rest),
                None => None,
            },
            None => None,
        }
    }
}

/// The rows of a block-display `<table>` element: its first child must be a
/// `tbody` whose children are all recognized rows.
pub open spec fn spec_parse_block_table(n: NodeV) -> Option<Seq<ItemRowV>> {
    match n {
        NodeV::Element(e) => if e.name == "table"@ && attr_of(e, "style"@) == Some(
            "display: block;"@,
        ) && e.children.len() > 0 {
            match e.children[0] {
                NodeV::Element(tbody) => if tbody.name == "tbody"@ {
                    spec_block_rows(tbody.children)
                } else {
                    None
                },
                NodeV::Text(_) => None,
            }
        } else {
            None
        },
        NodeV::Text(_) => None,
    }
}

/// In the div encoding an unpaired left cell is fatal: when the last child
/// matches `item-left` but is neither a complete row nor a right cell, the
/// whole table fails, wherever parsing had got to.
pub proof fn lemma_unpaired_left_fails_table(s: Seq<NodeV>)
    requires
        s.len() > 0,
        spec_parse_item_row(s.last()) is None,
        spec_parse_item_left(s.last()) is Some,
        spec_parse_item_right(s.last()) is None,
    ensures
        spec_table_rows(s) is None,
    decreases s.len(),
{
    if s.len() == 1 {
        assert(s[0] == s.last());
    } else {
        match spec_parse_item_row(s[0]) {
            Some(_) => {
                assert(s.drop_first().last() == s.last());
                lemma_unpaired_left_fails_table(s.drop_first());
            },
            None => {
                match spec_parse_item_left(s[0]) {
                    Some(_) => {
                        if s.len() == 2 {
                            assert(s[1] == s.last());
                        } else {
                            match spec_parse_item_right(s[1]) {
                                Some(_) => {
                                    assert(s.skip(2).last() == s.last());
                                    assert(s.skip(2).len() > 0);
                                    lemma_unpaired_left_fails_table(s.skip(2));
                                },
                                None => {},
                            }
                        }
                    },
                    None => {},
                }
            },
        }
    }
}

/// In the block-table encoding a missing right cell is not fatal: a
/// recognized single-cell row gets an empty summary.
pub proof fn lemma_missing_right_td_defaults_empty(n: NodeV, tr: ElementV)
    requires
        n == NodeV::Element(tr),
        tr.children.len() == 1,
        spec_block_tr(n) is Some,
    ensures
        spec_block_tr(n)->0.summary == Seq::<TextPartV>::empty(),
{
}

/// The exec mirror of [`ItemLeftV`].
struct ItemLeft {
    text: Vec<TextPart>,
    stability: Option<Details>,
    portability: Option<Details>,
    deprecation: Option<Details>,
}

/// The spec-level value an [`ItemLeft`] stands for.
spec fn item_left_view(l: ItemLeft) -> ItemLeftV {
    ItemLeftV {
        text: l.text.deep_view(),
        stability: l.stability.deep_view(),
        portability: l.portability.deep_view(),
        deprecation: l.deprecation.deep_view(),
    }
}

/// Recognizes a `div.item-left` cell.
fn parse_item_left(node: &HtmlNode) -> (r: Option<ItemLeft>)
    ensures
        match r {
            Some(l) => spec_parse_item_left(node.deep_view()) == Some(item_left_view(l)),
            None => spec_parse_item_left(node.deep_view()) is None,
        },
{
    let e = match node {
        HtmlNode::Element(e) => e,
        HtmlNode::Text(_) => {
            return None;
        },
    };
    if !(str_eq(e.name.as_str(), "div") && e.has_class("item-left")) {
        return None;
    }
    if e.children.len() == 0 {
        return None;
    }
    proof {
        lemma_view_nodes(e.children@);
        assert(view_nodes(e.children@).drop_first() =~= view_nodes(e.children@).skip(1));
    }
    let text = parse_text_outside(&e.children[0]);
    let (stability, portability, deprecation) = scan_disclosures(&e.children, 1);
    Some(ItemLeft { text, stability, portability, deprecation })
}

/// Recognizes a `div.item-right` cell.
fn parse_item_right(node: &HtmlNode) -> (r: Option<Vec<TextPart>>)
    ensures
        r.deep_view() == spec_parse_item_right(node.deep_view()),
{
    match node {
        HtmlNode::Element(e) => {
            if str_eq(e.name.as_str(), "div") && e.has_class("item-right") {
                Some(parse_text_inside(node))
            } else {
                None
            }
        },
        HtmlNode::Text(_) => None,
    }
}

/// Recognizes a complete `div.item-row` node.
fn parse_item_row(node: &HtmlNode) -> (r: Option<ItemRow>)
    ensures
        r.deep_view() == spec_parse_item_row(node.deep_view()),
{
    let e = match node {
        HtmlNode::Element(e) => e,
        HtmlNode::Text(_) => {
            return None;
        },
    };
    if !(str_eq(e.name.as_str(), "div") && e.has_class("item-row")) {
        return None;
    }
    proof {
        lemma_view_nodes(e.children@);
    }
    if e.children.len() < 2 {
        return None;
    }
    let left = match parse_item_left(&e.children[0]) {
        Some(left) => left,
        None => {
            return None;
        },
    };
    let right = match parse_item_right(&e.children[1]) {
        Some(right) => right,
        None => {
            return None;
        },
    };
    Some(
        ItemRow {
            item: left.text,
            stability: left.stability,
            portability: left.portability,
            deprecation: left.deprecation,
            summary: right,
        },
    )
}

/// Recognizes a `div.item-table` and reads its rows; an unpaired left cell
/// fails the whole table.
pub fn parse_item_table(node: &HtmlNode) -> (r: Option<Vec<ItemRow>>)
    ensures
        r.deep_view() == spec_parse_item_table(node.deep_view()),
{
    let e = match node {
        HtmlNode::Element(e) => e,
        HtmlNode::Text(_) => {
            return None;
        },
    };
    if !(str_eq(e.name.as_str(), "div") && e.has_class("item-table")) {
        return None;
    }
    let ghost cs = view_nodes(e.children@);
    proof {
        lemma_view_nodes(e.children@);
        assert(cs.skip(0) =~= cs);
    }
    let mut rows: Vec<ItemRow> = Vec::new();
    let n: usize = e.children.len();
    let mut i: usize = 0;
    while i < n
        invariant
            n == e.children.len(),
            0 <= i <= n,
            cs == view_nodes(e.children@),
            cs.len() == n,
            forall|j: int| 0 <= j < n ==> cs[j] == view_node(e.children@[j]),
            spec_parse_item_table(node.deep_view()) == spec_table_rows(cs),
            spec_table_rows(cs.skip(i as int)) is None ==> spec_table_rows(cs) is None,
            spec_table_rows(cs.skip(i as int)) matches Some(rest) ==> spec_table_rows(cs) == Some(
                rows.deep_view() + rest,
            ),
        decreases n - i,
    {
        let ghost pre_dv = rows.deep_view();
        proof {
            assert(cs.skip(i as int)[0] == cs[i as int]);
            assert(cs.skip(i as int).drop_first() =~= cs.skip(i + 1));
        }
        if let Some(row) = parse_item_row(&e.children[i]) {
            let ghost rowv = row.deep_view();
            rows.push(row);
            proof {
                assert(rows.deep_view() =~= pre_dv.push(rowv));
                match spec_table_rows(cs.skip(i + 1)) {
                    Some(rest) => {
                        assert(pre_dv + (seq![rowv] + rest) =~= pre_dv.push(rowv) + rest);
                    },
                    None => {},
                }
            }
            i += 1;
        } else if let Some(left) = parse_item_left(&e.children[i]) {
            if i + 1 >= n {
                return None;
            }
            proof {
                assert(cs.skip(i as int)[1] == cs[i + 1]);
                assert(cs.skip(i as int).skip(2) =~= cs.skip(i + 2));
            }
            match parse_item_right(&e.children[i + 1]) {
                Some(right) => {
                    let ghost leftv = item_left_view(left);
                    let ghost rightv = right.deep_view();
                    let row = ItemRow {
                        item: left.text,
                        stability: left.stability,
                        portability: left.portability,
                        deprecation: left.deprecation,
                        summary: right,
                    };
                    let ghost rowv = row.deep_view();
                    rows.push(row);
                    proof {
                        assert(rowv == spec_row_of(leftv, rightv));
                        assert(rows.deep_view() =~= pre_dv.push(rowv));
                        match spec_table_rows(cs.skip(i + 2)) {
                            Some(rest) => {
                                assert(pre_dv + (seq![rowv] + rest) =~= pre_dv.push(rowv) + rest);
                            },
                            None => {},
                        }
                    }
                    i += 2;
                },
                None => {
                    return None;
                },
            }
        } else {
            return None;
        }
    }
    proof {
        assert(cs.skip(n as int) =~= Seq::<NodeV>::empty());
        assert(rows.deep_view() + Seq::<ItemRowV>::empty() =~= rows.deep_view());
    }
    Some(rows)
}

/// Recognizes a summary `td` cell.
fn parse_right_td(node: &HtmlNode) -> (r: Option<Vec<TextPart>>)
    ensures
        r.deep_view() == spec_parse_right_td(node.deep_view()),
{
    match node {
        HtmlNode::Element(e) => {
            if str_eq(e.name.as_str(), "td") {
                Some(parse_text_inside(node))
            } else {
                None
            }
        },
        HtmlNode::Text(_) => None,
    }
}

/// Recognizes one `tr` row of the block-table encoding.
fn parse_block_tr(node: &HtmlNode) -> (r: Option<ItemRow>)
    ensures
        r.deep_view() == spec_block_tr(node.deep_view()),
{
    let tr = match node {
        HtmlNode::Element(tr) => tr,
        HtmlNode::Text(_) => {
            return None;
        },
    };
    if !str_eq(tr.name.as_str(), "tr") {
        return None;
    }
    if tr.children.len() == 0 {
        return None;
    }
    proof {
        lemma_view_nodes(tr.children@);
    }
    let td = match &tr.children[0] {
        HtmlNode::Element(td) => td,
        HtmlNode::Text(_) => {
            return None;
        },
    };
    if !str_eq(td.name.as_str(), "td") {
        return None;
    }
    if td.children.len() == 0 {
        return None;
    }
    proof {
        lemma_view_nodes(td.children@);
        assert(view_nodes(td.children@).drop_first() =~= view_nodes(td.children@).skip(1));
    }
    let item = parse_text_outside(&td.children[0]);
    let (stability, portability, deprecation) = scan_disclosures(&td.children, 1);
    let summary: Vec<TextPart> = if tr.children.len() >= 2 {
        match parse_right_td(&tr.children[1]) {
            Some(t) => t,
            None => {
                let empty: Vec<TextPart> = Vec::new();
                proof {
                    assert(empty.deep_view() =~= Seq::<TextPartV>::empty());
                }
                empty
            },
        }
    } else {
        let empty: Vec<TextPart> = Vec::new();
        proof {
            assert(empty.deep_view() =~= Seq::<TextPartV>::empty());
        }
        empty
    };
    Some(ItemRow { item, stability, portability, deprecation, summary })
}

/// Recognizes a block-display `<table>` and reads its rows; any
/// unrecognized row fails the whole table, but a missing right cell only
/// defaults that row's summary to empty.
pub fn parse_block_table(node: &HtmlNode) -> (r: Option<Vec<ItemRow>>)
    ensures
        r.deep_view() == spec_parse_block_table(node.deep_view()),
{
    let e = match node {
        HtmlNode::Element(e) => e,
        HtmlNode::Text(_) => {
            return None;
        },
    };
    if !str_eq(e.name.as_str(), "table") {
        return None;
    }
    let style_matches = match e.attr("style") {
        Some(v) => str_eq(v.as_str(), "display: block;"),
        None => false,
    };
    if !style_matches {
        return None;
    }
    if e.children.len() == 0 {
        return None;
    }
    proof {
        lemma_view_nodes(e.children@);
    }
    let tbody = match &e.children[0] {
        HtmlNode::Element(tbody) => tbody,
        HtmlNode::Text(_) => {
            return None;
        },
    };
    if !str_eq(tbody.name.as_str(), "tbody") {
        return None;
    }
    let ghost ds = view_nodes(tbody.children@);
    proof {
        lemma_view_nodes(tbody.children@);
        assert(ds.skip(0) =~= ds);
    }
    let mut rows: Vec<ItemRow> = Vec::new();
    let n: usize = tbody.children.len();
    let mut i: usize = 0;
    while i < n
        invariant
            n == tbody.children.len(),
            0 <= i <= n,
            ds == view_nodes(tbody.children@),
            ds.len() == n,
            forall|j: int| 0 <= j < n ==> ds[j] == view_node(tbody.children@[j]),
            spec_parse_block_table(node.deep_view()) == spec_block_rows(ds),
            spec_block_rows(ds.skip(i as int)) is None ==> spec_block_rows(ds) is None,
            spec_block_rows(ds.skip(i as int)) matches Some(rest) ==> spec_block_rows(ds) == Some(
                rows.deep_view() + rest,
            ),
        decreases n - i,
    {
        let ghost pre_dv = rows.deep_view();
        proof {
            assert(ds.skip(i as int)[0] == ds[i as int]);
            assert(ds.skip(i as int).drop_first() =~= ds.skip(i + 1));
        }
        match parse_block_tr(&tbody.children[i]) {
            Some(row) => {
                let ghost rowv = row.deep_view();
                rows.push(row);
                proof {
                    assert(rows.deep_view() =~= pre_dv.push(rowv));
                    match spec_block_rows(ds.skip(i + 1)) {
                        Some(rest) => {
                            assert(pre_dv + (seq![rowv] + rest) =~= pre_dv.push(rowv) + rest);
                        },
                        None => {},
                    }
                }
                i += 1;
            },
            None => {
                return None;
            },
        }
    }
    proof {
        assert(ds.skip(n as int) =~= Seq::<NodeV>::empty());
        assert(rows.deep_view() + Seq::<ItemRowV>::empty() =~= rows.deep_view());
    }
    Some(rows)
}

} // verus!
