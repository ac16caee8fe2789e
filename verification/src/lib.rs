//! Structured extraction of API-documentation pages.
//!
//! The library consumes an already-parsed DOM, modelled by [`dom::HtmlNode`],
//! and recognizes the fixed tag/class vocabulary of rendered documentation
//! pages, producing a queryable [`Document`]: title, version annotation,
//! declaration, disclosure notes, hierarchical description, and item
//! listings.
//!
//! Every recognizer is specified by a spec-level function over the DOM
//! model's view, and each executable function is proved to return exactly
//! that function of its input.

pub mod atom;
pub mod dom;
pub mod header;
pub mod item;
pub mod section;

pub use atom::{Details, Paragraph, Pre, TextPart, TextStyle};
pub use dom::{Attr, Element, HtmlNode};
pub use header::{Fqn, ItemInfo, Section};
pub use item::{Impl, Item, ItemRow};

use vstd::prelude::*;

use crate::atom::{spec_parse_pre, TextPartV};
use crate::dom::{find_by_id, lemma_view_nodes, spec_find_by_id, view_node, view_nodes, NodeV};
use crate::header::{
    parse_doc_block, parse_fqn, parse_item_decl, parse_item_info, parse_top_doc,
    spec_item_info_empty, spec_parse_doc_block, spec_parse_fqn, spec_parse_item_decl,
    spec_parse_item_info, spec_parse_top_doc, DocBlock, ItemInfoV, SectionV,
};
use crate::item::fields::{parse_struct_field_or_variant, spec_parse_struct_field_or_variant};
use crate::item::impls::{
    parse_impl_div, parse_impl_heading, parse_impl_items, parse_implementor_or_empty,
    spec_parse_impl_div, spec_parse_impl_heading, spec_parse_impl_items,
    spec_parse_implementor_or_empty,
};
use crate::item::{parse_item_header, spec_is_item_header, spec_parse_item_header, ImplV, ItemV};
use crate::section::table::{
    parse_block_table, parse_item_table, spec_parse_block_table, spec_parse_item_table,
};

verus! {

/// One named group of documented members under a listing heading.
#[derive(Debug, PartialEq, Eq)]
pub struct ItemListing {
    pub heading: Vec<TextPart>,
    pub kind: ListingType,
}

/// The physical kind of a listing: a summary table, a field/variant list,
/// or a group of impl blocks.
#[derive(Debug, PartialEq, Eq)]
pub enum ListingType {
    Table(Vec<section::table::ItemRow>),
    Fields(Vec<Item>),
    Impls(Vec<Impl>),
}

/// The assembled page: title, version annotation, declaration, disclosure
/// notes, description sections and item listings.
#[derive(Debug, PartialEq, Eq)]
pub struct Document {
    pub title: Vec<TextPart>,
    pub since: Option<String>,
    pub declaration: Option<Vec<TextPart>>,
    pub info: ItemInfo,
    pub description: Vec<Section>,
    pub items: Vec<ItemListing>,
}

/// Spec-level listing.
pub struct ItemListingV {
    pub heading: Seq<TextPartV>,
    pub kind: ListingTypeV,
}

/// Spec-level listing kind.
pub enum ListingTypeV {
    Table(Seq<section::table::ItemRowV>),
    Fields(Seq<ItemV>),
    Impls(Seq<ImplV>),
}

/// Spec-level document.
pub struct DocumentV {
    pub title: Seq<TextPartV>,
    pub since: Option<Seq<char>>,
    pub declaration: Option<Seq<TextPartV>>,
    pub info: ItemInfoV,
    pub description: Seq<SectionV>,
    pub items: Seq<ItemListingV>,
}

impl DeepView for ItemListing {
    type V = ItemListingV;

    open spec fn deep_view(&self) -> ItemListingV {
        ItemListingV { heading: self.heading.deep_view(), kind: self.kind.deep_view() }
    }
}

impl DeepView for ListingType {
    type V = ListingTypeV;

    open spec fn deep_view(&self) -> ListingTypeV {
        match self {
            ListingType::Table(rows) => ListingTypeV::Table(rows.deep_view()),
            ListingType::Fields(items) => ListingTypeV::Fields(items.deep_view()),
            ListingType::Impls(impls) => ListingTypeV::Impls(impls.deep_view()),
        }
    }
}

impl DeepView for Document {
    type V = DocumentV;

    open spec fn deep_view(&self) -> DocumentV {
        DocumentV {
            title: self.title.deep_view(),
            since: self.since.deep_view(),
            declaration: self.declaration.deep_view(),
            info: self.info.deep_view(),
            description: self.description.deep_view(),
            items: self.items.deep_view(),
        }
    }
}

/// The scanner's state: between listings, holding a heading that still
/// wants a body, or inside one of the three body kinds.
pub enum ScanStateV {
    Idle,
    Heading(Seq<TextPartV>),
    Fields(Seq<TextPartV>, Seq<ItemV>),
    Impls(Seq<TextPartV>, Seq<ImplV>),
    Implementors(Seq<TextPartV>, Seq<ImplV>),
}

/// A table body: the div encoding tried first, then the block-table one.
pub open spec fn spec_table_body(n: NodeV) -> Option<Seq<section::table::ItemRowV>> {
    match spec_parse_item_table(n) {
        Some(rows) => Some(rows),
        None => spec_parse_block_table(n),
    }
}

/// Closes the pending listing when the next listing heading arrives. A
/// heading whose body never materialized still yields a listing: an empty
/// field list.
pub open spec fn scan_close(acc: Seq<ItemListingV>, st: ScanStateV) -> Seq<ItemListingV> {
    match st {
        ScanStateV::Idle => acc,
        ScanStateV::Heading(h) => acc.push(
            ItemListingV { heading: h, kind: ListingTypeV::Fields(Seq::empty()) },
        ),
        ScanStateV::Fields(h, items) => acc.push(
            ItemListingV { heading: h, kind: ListingTypeV::Fields(items) },
        ),
        ScanStateV::Impls(h, impls) => acc.push(
            ItemListingV { heading: h, kind: ListingTypeV::Impls(impls) },
        ),
        ScanStateV::Implementors(h, impls) => acc.push(
            ItemListingV { heading: h, kind: ListingTypeV::Impls(impls) },
        ),
    }
}

/// Closes the pending listing at the end of input. A heading with no body
/// and no following heading is dropped.
pub open spec fn scan_finish(acc: Seq<ItemListingV>, st: ScanStateV) -> Seq<ItemListingV> {
    match st {
        ScanStateV::Heading(_) => acc,
        _ => scan_close(acc, st),
    }
}

/// One step of the field-list body: a field/variant marker starts a new
/// item; item-info and docblock nodes attach to the most recent item;
/// anything else is skipped.
pub open spec fn fields_step(items: Seq<ItemV>, n: NodeV) -> Seq<ItemV> {
    if spec_parse_struct_field_or_variant(n) is Some {
        items.push(
            ItemV {
                name: spec_parse_struct_field_or_variant(n)->0,
                info: spec_item_info_empty(),
                description: None,
            },
        )
    } else if spec_parse_item_info(n) is Some {
        if items.len() > 0 {
            items.update(
                items.len() - 1,
                ItemV {
                    name: items.last().name,
                    info: spec_parse_item_info(n)->0,
                    description: items.last().description,
                },
            )
        } else {
            items
        }
    } else if spec_parse_doc_block(n) is Some {
        if items.len() > 0 {
            items.update(
                items.len() - 1,
                ItemV {
                    name: items.last().name,
                    info: items.last().info,
                    description: Some(spec_parse_doc_block(n)->0.sections),
                },
            )
        } else {
            items
        }
    } else {
        items
    }
}

/// One step of the impl-block body: a member container fills the most
/// recent impl; another impl heading opens a new impl; anything else is
/// skipped.
pub open spec fn impls_step(impls: Seq<ImplV>, n: NodeV) -> Seq<ImplV> {
    if spec_parse_impl_items(n) is Some {
        if impls.len() > 0 {
            impls.update(
                impls.len() - 1,
                ImplV { target: impls.last().target, items: spec_parse_impl_items(n)->0 },
            )
        } else {
            impls
        }
    } else if spec_parse_impl_heading(n) is Some {
        impls.push(ImplV { target: spec_parse_impl_heading(n)->0.title, items: Seq::empty() })
    } else {
        impls
    }
}

/// One step of the implementor-toggle body: each further toggle or empty
/// impl joins the listing; anything else is skipped.
pub open spec fn implementors_step(impls: Seq<ImplV>, n: NodeV) -> Seq<ImplV> {
    match spec_parse_implementor_or_empty(n) {
        Some(imp) => impls.push(imp),
        None => impls,
    }
}

/// One step of the top-level scan over the remaining siblings.
///
/// A listing heading always closes the pending listing and opens a new one.
/// With a heading pending, the body classifiers are tried in their fixed
/// priority order: table, field list, impl heading, implementor toggle,
/// self-contained impl div; an unrecognized node is discarded.
pub open spec fn scan_step(acc: Seq<ItemListingV>, st: ScanStateV, n: NodeV) -> (
    Seq<ItemListingV>,
    ScanStateV,
) {
    if spec_is_item_header(n) {
        (scan_close(acc, st), ScanStateV::Heading(spec_parse_item_header(n)->0))
    } else {
        match st {
            ScanStateV::Idle => (acc, ScanStateV::Idle),
            ScanStateV::Heading(h) => if spec_table_body(n) is Some {
                (
                    acc.push(
                        ItemListingV { heading: h, kind: ListingTypeV::Table(spec_table_body(n)->0) },
                    ),
                    ScanStateV::Idle,
                )
            } else if spec_parse_struct_field_or_variant(n) is Some {
                (
                    acc,
                    ScanStateV::Fields(
                        h,
                        seq![
                            ItemV {
                                name: spec_parse_struct_field_or_variant(n)->0,
                                info: spec_item_info_empty(),
                                description: None,
                            },
                        ],
                    ),
                )
            } else if spec_parse_impl_heading(n) is Some {
                (
                    acc,
                    ScanStateV::Impls(
                        h,
                        seq![
                            ImplV {
                                target: spec_parse_impl_heading(n)->0.title,
                                items: Seq::empty(),
                            },
                        ],
                    ),
                )
            } else if spec_parse_implementor_or_empty(n) is Some {
                (acc, ScanStateV::Implementors(h, seq![spec_parse_implementor_or_empty(n)->0]))
            } else if spec_parse_impl_div(n) is Some {
                (
                    acc.push(
                        ItemListingV {
                            heading: h,
                            kind: ListingTypeV::Impls(spec_parse_impl_div(n)->0),
                        },
                    ),
                    ScanStateV::Idle,
                )
            } else {
                (acc, ScanStateV::Heading(h))
            },
            ScanStateV::Fields(h, items) => (acc, ScanStateV::Fields(h, fields_step(items, n))),
            ScanStateV::Impls(h, impls) => (acc, ScanStateV::Impls(h, impls_step(impls, n))),
            ScanStateV::Implementors(h, impls) => (
                acc,
                ScanStateV::Implementors(h, implementors_step(impls, n)),
            ),
        }
    }
}

/// The scan folded over a sibling list, left to right, from the idle state.
pub open spec fn scan_fold(s: Seq<NodeV>) -> (Seq<ItemListingV>, ScanStateV)
    decreases s.len(),
{
    if s.len() == 0 {
        (Seq::empty(), ScanStateV::Idle)
    } else {
        scan_step(scan_fold(s.drop_last()).0, scan_fold(s.drop_last()).1, s.last())
    }
}

/// The listings of a sibling list: the scan's emissions, the final pending
/// listing included.
pub open spec fn spec_scan(s: Seq<NodeV>) -> Seq<ItemListingV> {
    scan_finish(scan_fold(s).0, scan_fold(s).1)
}

/// The declaration a header slot node carries: an item-decl wrapper, or a
/// bare `pre` as the fallback.
pub open spec fn spec_decl_of(n: NodeV) -> Option<Seq<TextPartV>> {
    match spec_parse_item_decl(n) {
        Some(d) => Some(d.code),
        None => match spec_parse_pre(n) {
            Some(p) => Some(p.code),
            None => None,
        },
    }
}

/// The description a header slot node carries: a top-doc widget, or the
/// node itself as a bare docblock.
pub open spec fn spec_top_doc_of(n: NodeV) -> Option<Seq<SectionV>> {
    match spec_parse_top_doc(n) {
        Some(td) => Some(td.doc_block.sections),
        None => match spec_parse_doc_block(n) {
            Some(db) => Some(db.sections),
            None => None,
        },
    }
}

/// The whole-page extraction. The primary content is the element with id
/// `main`; its first child must be the title slot, the three optional slots
/// follow in order, each consuming its node only on success, and the
/// remaining siblings feed the listing scan. Without a main element, a
/// first child, or a complete title slot, no document is produced.
pub open spec fn spec_parse_document(root: NodeV) -> Option<DocumentV> {
    match spec_find_by_id(root, "main"@) {
        None => None,
        Some(main) => {
            let cs = main.children;
            if cs.len() == 0 {
                None
            } else {
                match spec_parse_fqn(cs[0]) {
                    None => None,
                    Some(fqn) => {
                        let decl = if cs.len() > 1 {
                            spec_decl_of(cs[1])
                        } else {
                            None
                        };
                        let c1: int = if decl is Some {
                            2
                        } else {
                            1
                        };
                        let info = if cs.len() > c1 {
                            spec_parse_item_info(cs[c1])
                        } else {
                            None
                        };
                        let c2: int = if info is Some {
                            c1 + 1
                        } else {
                            c1
                        };
                        let desc = if cs.len() > c2 {
                            spec_top_doc_of(cs[c2])
                        } else {
                            None
                        };
                        let c3: int = if desc is Some {
                            c2 + 1
                        } else {
                            c2
                        };
                        Some(
                            DocumentV {
                                title: fqn.title,
                                since: fqn.since,
                                declaration: decl,
                                info: match info {
                                    Some(ii) => ii,
                                    None => spec_item_info_empty(),
                                },
                                description: match desc {
                                    Some(d) => d,
                                    None => Seq::empty(),
                                },
                                items: spec_scan(cs.skip(c3)),
                            },
                        )
                    },
                }
            }
        },
    }
}

/// Whether a node would classify during the scan: a listing heading, or a
/// body shape that one of the five classifiers accepts.
pub open spec fn classifiable(n: NodeV) -> bool {
    spec_is_item_header(n) || spec_table_body(n) is Some || spec_parse_struct_field_or_variant(n)
        is Some || spec_parse_impl_heading(n) is Some || spec_parse_implementor_or_empty(n) is Some
        || spec_parse_impl_div(n) is Some
}

/// Whether any of the nodes would classify.
pub open spec fn any_classifiable(s: Seq<NodeV>) -> bool
    decreases s,
{
    s.len() > 0 && (classifiable(s[0]) || any_classifiable(s.drop_first()))
}

/// Whether some listing heading has nothing classifiable after it.
pub open spec fn has_dangling_heading(s: Seq<NodeV>) -> bool
    decreases s,
{
    if s.len() == 0 {
        false
    } else {
        (spec_is_item_header(s[0]) && !any_classifiable(s.drop_first())) || has_dangling_heading(
            s.drop_first(),
        )
    }
}

/// The number of listing headings followed by at least one classifiable
/// sibling.
pub open spec fn count_headings_with_body(s: Seq<NodeV>) -> int
    decreases s,
{
    if s.len() == 0 {
        0
    } else {
        (if spec_is_item_header(s[0]) && any_classifiable(s.drop_first()) {
            1int
        } else {
            0int
        }) + count_headings_with_body(s.drop_first())
    }
}

proof fn lemma_any_classifiable_snoc(s: Seq<NodeV>, x: NodeV)
    ensures
        any_classifiable(s.push(x)) == (any_classifiable(s) || classifiable(x)),
    decreases s.len(),
{
    if s.len() == 0 {
        assert(s.push(x)[0] == x);
        assert(s.push(x).drop_first() =~= Seq::<NodeV>::empty());
        assert(!any_classifiable(Seq::<NodeV>::empty()));
    } else {
        assert(s.push(x)[0] == s[0]);
        assert(s.push(x).drop_first() =~= s.drop_first().push(x));
        lemma_any_classifiable_snoc(s.drop_first(), x);
    }
}

proof fn lemma_dangling_implies_classifiable(s: Seq<NodeV>)
    ensures
        has_dangling_heading(s) ==> any_classifiable(s),
    decreases s.len(),
{
    if s.len() > 0 {
        lemma_dangling_implies_classifiable(s.drop_first());
    }
}

proof fn lemma_dangling_snoc(s: Seq<NodeV>, x: NodeV)
    ensures
        has_dangling_heading(s.push(x)) == if spec_is_item_header(x) {
            true
        } else if classifiable(x) {
            false
        } else {
            has_dangling_heading(s)
        },
    decreases s.len(),
{
    if s.len() == 0 {
        assert(s.push(x)[0] == x);
        assert(s.push(x).drop_first() =~= Seq::<NodeV>::empty());
        assert(!any_classifiable(Seq::<NodeV>::empty()));
        assert(!has_dangling_heading(Seq::<NodeV>::empty()));
    } else {
        assert(s.push(x)[0] == s[0]);
        assert(s.push(x).drop_first() =~= s.drop_first().push(x));
        lemma_any_classifiable_snoc(s.drop_first(), x);
        lemma_dangling_snoc(s.drop_first(), x);
    }
}

proof fn lemma_count_snoc(s: Seq<NodeV>, x: NodeV)
    ensures
        count_headings_with_body(s.push(x)) == count_headings_with_body(s) + (if classifiable(x)
            && has_dangling_heading(s) {
            1int
        } else {
            0int
        }),
    decreases s.len(),
{
    if s.len() == 0 {
        assert(s.push(x)[0] == x);
        assert(s.push(x).drop_first() =~= Seq::<NodeV>::empty());
        assert(!any_classifiable(Seq::<NodeV>::empty()));
        assert(!has_dangling_heading(Seq::<NodeV>::empty()));
        assert(count_headings_with_body(Seq::<NodeV>::empty()) == 0);
    } else {
        assert(s.push(x)[0] == s[0]);
        assert(s.push(x).drop_first() =~= s.drop_first().push(x));
        lemma_any_classifiable_snoc(s.drop_first(), x);
        lemma_count_snoc(s.drop_first(), x);
        lemma_dangling_implies_classifiable(s.drop_first());
    }
}

/// The listings a scan state still owes when input runs out.
pub open spec fn pending_listings(st: ScanStateV) -> int {
    match st {
        ScanStateV::Idle => 0,
        ScanStateV::Heading(_) => 0,
        ScanStateV::Fields(_, _) => 1,
        ScanStateV::Impls(_, _) => 1,
        ScanStateV::Implementors(_, _) => 1,
    }
}

proof fn lemma_scan_fold_count(s: Seq<NodeV>)
    ensures
        scan_fold(s).0.len() + pending_listings(scan_fold(s).1) == count_headings_with_body(s),
        (scan_fold(s).1 is Heading) == has_dangling_heading(s),
    decreases s.len(),
{
    if s.len() > 0 {
        let s0 = s.drop_last();
        let x = s.last();
        lemma_scan_fold_count(s0);
        assert(s0.push(x) =~= s);
        lemma_any_classifiable_snoc(s0, x);
        lemma_dangling_snoc(s0, x);
        lemma_count_snoc(s0, x);
        lemma_dangling_implies_classifiable(s0);
    }
}

/// The number of emitted listings is the number of matched listing
/// headings whose later siblings held at least one classifiable body shape
/// or further heading: exactly those headings produce a listing, one each.
pub proof fn lemma_listing_count(s: Seq<NodeV>)
    ensures
        spec_scan(s).len() == count_headings_with_body(s),
{
    lemma_scan_fold_count(s);
}

/// A heading-less section occurs only as the first element of a parsed
/// document's description, never later.
pub proof fn lemma_document_headless_sections(root: NodeV, doc: DocumentV)
    requires
        spec_parse_document(root) == Some(doc),
    ensures
        forall|i: int|
            1 <= i < doc.description.len() ==> (#[trigger] doc.description[i]).heading is Some,
{
    match spec_find_by_id(root, "main"@) {
        None => {},
        Some(main) => {
            let cs = main.children;
            if cs.len() > 0 && spec_parse_fqn(cs[0]) is Some {
                let decl = if cs.len() > 1 {
                    spec_decl_of(cs[1])
                } else {
                    None
                };
                let c1: int = if decl is Some {
                    2
                } else {
                    1
                };
                let info = if cs.len() > c1 {
                    spec_parse_item_info(cs[c1])
                } else {
                    None
                };
                let c2: int = if info is Some {
                    c1 + 1
                } else {
                    c1
                };
                if cs.len() > c2 {
                    match cs[c2] {
                        NodeV::Element(e) => {
                            header::lemma_first_doc_block_headless(e.children);
                            header::lemma_parse_doc_block_headless(cs[c2]);
                        },
                        NodeV::Text(_) => {},
                    }
                }
            }
        },
    }
}

/// Parsing is deterministic: the document is a function of the input tree
/// alone, so two parses of the same DOM yield structurally equal output.
pub proof fn lemma_parse_document_deterministic(
    root: NodeV,
    d1: Option<DocumentV>,
    d2: Option<DocumentV>,
)
    requires
        d1 == spec_parse_document(root),
        d2 == spec_parse_document(root),
    ensures
        d1 == d2,
{
}

/// A title slot missing either of its two spans fails the whole document,
/// however well-formed the rest of the page is.
pub proof fn lemma_missing_title_span_fails(root: NodeV, main: dom::ElementV, fqn: dom::ElementV)
    requires
        spec_find_by_id(root, "main"@) == Some(main),
        main.children.len() > 0,
        main.children[0] == NodeV::Element(fqn),
        header::spec_first_in_band(fqn.children) is None || header::spec_first_out_of_band(
            fqn.children,
        ) is None,
    ensures
        spec_parse_document(root) is None,
{
}

/// The exec mirror of [`ScanStateV`].
enum ScanMode {
    Idle,
    Heading(Vec<TextPart>),
    Fields(Vec<TextPart>, Vec<Item>),
    Impls(Vec<TextPart>, Vec<Impl>),
    Implementors(Vec<TextPart>, Vec<Impl>),
}

/// The spec-level state a [`ScanMode`] stands for.
spec fn mode_view(m: ScanMode) -> ScanStateV {
    match m {
        ScanMode::Idle => ScanStateV::Idle,
        ScanMode::Heading(h) => ScanStateV::Heading(h.deep_view()),
        ScanMode::Fields(h, items) => ScanStateV::Fields(h.deep_view(), items.deep_view()),
        ScanMode::Impls(h, impls) => ScanStateV::Impls(h.deep_view(), impls.deep_view()),
        ScanMode::Implementors(h, impls) => ScanStateV::Implementors(
            h.deep_view(),
            impls.deep_view(),
        ),
    }
}

/// Emits the pending listing at a heading boundary.
fn scan_close_exec(listings: &mut Vec<ItemListing>, st: ScanMode)
    ensures
        final(listings).deep_view() == scan_close(old(listings).deep_view(), mode_view(st)),
{
    let ghost pre_dv = listings.deep_view();
    match st {
        ScanMode::Idle => {},
        ScanMode::Heading(h) => {
            let empty: Vec<Item> = Vec::new();
            proof {
                assert(empty.deep_view() =~= Seq::<ItemV>::empty());
            }
            let listing = ItemListing { heading: h, kind: ListingType::Fields(empty) };
            let ghost lv = listing.deep_view();
            listings.push(listing);
            proof {
                assert(listings.deep_view() =~= pre_dv.push(lv));
            }
        },
        ScanMode::Fields(h, items) => {
            let listing = ItemListing { heading: h, kind: ListingType::Fields(items) };
            let ghost lv = listing.deep_view();
            listings.push(listing);
            proof {
                assert(listings.deep_view() =~= pre_dv.push(lv));
            }
        },
        ScanMode::Impls(h, impls) => {
            let listing = ItemListing { heading: h, kind: ListingType::Impls(impls) };
            let ghost lv = listing.deep_view();
            listings.push(listing);
            proof {
                assert(listings.deep_view() =~= pre_dv.push(lv));
            }
        },
        ScanMode::Implementors(h, impls) => {
            let listing = ItemListing { heading: h, kind: ListingType::Impls(impls) };
            let ghost lv = listing.deep_view();
            listings.push(listing);
            proof {
                assert(listings.deep_view() =~= pre_dv.push(lv));
            }
        },
    }
}

/// Emits the pending listing at the end of input.
fn scan_finish_exec(listings: &mut Vec<ItemListing>, st: ScanMode)
    ensures
        final(listings).deep_view() == scan_finish(old(listings).deep_view(), mode_view(st)),
{
    match st {
        ScanMode::Heading(_) => {},
        _ => scan_close_exec(listings, st),
    }
}

/// Runs one step of the scan, emitting any finished listing and returning
/// the next state.
fn scan_step_exec(listings: &mut Vec<ItemListing>, st: ScanMode, node: &HtmlNode) -> (r: ScanMode)
    ensures
        final(listings).deep_view() == scan_step(
            old(listings).deep_view(),
            mode_view(st),
            node.deep_view(),
        ).0,
        mode_view(r) == scan_step(old(listings).deep_view(), mode_view(st), node.deep_view()).1,
{
    let ghost pre_dv = listings.deep_view();
    if let Some(h) = parse_item_header(node) {
        scan_close_exec(listings, st);
        return ScanMode::Heading(h);
    }
    match st {
        ScanMode::Idle => ScanMode::Idle,
        ScanMode::Heading(h) => {
            let table: Option<Vec<section::table::ItemRow>> = match parse_item_table(node) {
                Some(rows) => Some(rows),
                None => parse_block_table(node),
            };
            if let Some(rows) = table {
                let listing = ItemListing { heading: h, kind: ListingType::Table(rows) };
                let ghost lv = listing.deep_view();
                listings.push(listing);
                proof {
                    assert(listings.deep_view() =~= pre_dv.push(lv));
                }
                ScanMode::Idle
            } else if let Some(name) = parse_struct_field_or_variant(node) {
                let item = Item { name, info: ItemInfo::default(), description: None };
                let ghost itemv = item.deep_view();
                let mut items: Vec<Item> = Vec::new();
                items.push(item);
                proof {
                    assert(items.deep_view() =~= seq![itemv]);
                }
                ScanMode::Fields(h, items)
            } else if let Some(heading) = parse_impl_heading(node) {
                let no_items: Vec<Item> = Vec::new();
                proof {
                    assert(no_items.deep_view() =~= Seq::<ItemV>::empty());
                }
                let imp = Impl { target: heading.title, items: no_items };
                let ghost impv = imp.deep_view();
                let mut impls: Vec<Impl> = Vec::new();
                impls.push(imp);
                proof {
                    assert(impls.deep_view() =~= seq![impv]);
                }
                ScanMode::Impls(h, impls)
            } else if let Some(imp) = parse_implementor_or_empty(node) {
                let ghost impv = imp.deep_view();
                let mut impls: Vec<Impl> = Vec::new();
                impls.push(imp);
                proof {
                    assert(impls.deep_view() =~= seq![impv]);
                }
                ScanMode::Implementors(h, impls)
            } else if let Some(impls) = parse_impl_div(node) {
                let listing = ItemListing { heading: h, kind: ListingType::Impls(impls) };
                let ghost lv = listing.deep_view();
                listings.push(listing);
                proof {
                    assert(listings.deep_view() =~= pre_dv.push(lv));
                }
                ScanMode::Idle
            } else {
                ScanMode::Heading(h)
            }
        },
        ScanMode::Fields(h, items) => {
            let mut items = items;
            let ghost items_dv = items.deep_view();
            if let Some(name) = parse_struct_field_or_variant(node) {
                let item = Item { name, info: ItemInfo::default(), description: None };
                let ghost itemv = item.deep_view();
                items.push(item);
                proof {
                    assert(items.deep_view() =~= items_dv.push(itemv));
                }
            } else if let Some(info) = parse_item_info(node) {
                if items.len() > 0 {
                    let mut last = match items.pop() {
                        Some(last) => last,
                        None => {
                            proof {
                                assert(false);
                            }
                            Item { name: Vec::new(), info: ItemInfo::default(), description: None }
                        },
                    };
                    last.info = info;
                    let ghost newv = last.deep_view();
                    items.push(last);
                    proof {
                        assert(items.deep_view() =~= items_dv.update(items_dv.len() - 1, newv));
                    }
                }
            } else if let Some(db) = parse_doc_block(node) {
                if items.len() > 0 {
                    let mut last = match items.pop() {
                        Some(last) => last,
                        None => {
                            proof {
                                assert(false);
                            }
                            Item { name: Vec::new(), info: ItemInfo::default(), description: None }
                        },
                    };
                    last.description = Some(db.sections);
                    let ghost newv = last.deep_view();
                    items.push(last);
                    proof {
                        assert(items.deep_view() =~= items_dv.update(items_dv.len() - 1, newv));
                    }
                }
            }
            ScanMode::Fields(h, items)
        },
        ScanMode::Impls(h, impls) => {
            let mut impls = impls;
            let ghost impls_dv = impls.deep_view();
            if let Some(items) = parse_impl_items(node) {
                if impls.len() > 0 {
                    let mut last = match impls.pop() {
                        Some(last) => last,
                        None => {
                            proof {
                                assert(false);
                            }
                            Impl { target: Vec::new(), items: Vec::new() }
                        },
                    };
                    last.items = items;
                    let ghost newv = last.deep_view();
                    impls.push(last);
                    proof {
                        assert(impls.deep_view() =~= impls_dv.update(impls_dv.len() - 1, newv));
                    }
                }
            } else if let Some(heading) = parse_impl_heading(node) {
                let no_items: Vec<Item> = Vec::new();
                proof {
                    assert(no_items.deep_view() =~= Seq::<ItemV>::empty());
                }
                let imp = Impl { target: heading.title, items: no_items };
                let ghost impv = imp.deep_view();
                impls.push(imp);
                proof {
                    assert(impls.deep_view() =~= impls_dv.push(impv));
                }
            }
            ScanMode::Impls(h, impls)
        },
        ScanMode::Implementors(h, impls) => {
            let mut impls = impls;
            let ghost impls_dv = impls.deep_view();
            if let Some(imp) = parse_implementor_or_empty(node) {
                let ghost impv = imp.deep_view();
                impls.push(imp);
                proof {
                    assert(impls.deep_view() =~= impls_dv.push(impv));
                }
            }
            ScanMode::Implementors(h, impls)
        },
    }
}

/// Extracts the whole page from the DOM root: the content under the element
/// with id `main` is read into a [`Document`], or nothing is returned when
/// the page's mandatory header is missing or incomplete.
pub fn parse_document(root: &HtmlNode) -> (r: Option<Document>)
    ensures
        r.deep_view() == spec_parse_document(root.deep_view()),
{
    let main = match find_by_id(root, "main") {
        Some(main) => main,
        None => {
            return None;
        },
    };
    let ghost cs = view_nodes(main.children@);
    proof {
        lemma_view_nodes(main.children@);
    }
    let len: usize = main.children.len();
    if len == 0 {
        return None;
    }
    let fqn = match parse_fqn(&main.children[0]) {
        Some(fqn) => fqn,
        None => {
            return None;
        },
    };
    let mut c: usize = 1;
    let declaration: Option<Vec<TextPart>> = if c < len {
        match parse_item_decl(&main.children[c]) {
            Some(d) => Some(d.code),
            None => match crate::atom::parse_pre(&main.children[c]) {
                Some(p) => Some(p.code),
                None => None,
            },
        }
    } else {
        None
    };
    if declaration.is_some() {
        c += 1;
    }
    let info: Option<ItemInfo> = if c < len {
        parse_item_info(&main.children[c])
    } else {
        None
    };
    if info.is_some() {
        c += 1;
    }
    let desc: Option<DocBlock> = if c < len {
        match parse_top_doc(&main.children[c]) {
            Some(td) => Some(td.doc_block),
            None => parse_doc_block(&main.children[c]),
        }
    } else {
        None
    };
    if desc.is_some() {
        c += 1;
    }
    let ghost start = c as int;
    let ghost rest = cs.skip(start);
    proof {
        assert(rest.take(0) =~= Seq::<NodeV>::empty());
    }
    let mut listings: Vec<ItemListing> = Vec::new();
    let mut state = ScanMode::Idle;
    let mut i: usize = c;
    while i < len
        invariant
            len == main.children.len(),
            cs == view_nodes(main.children@),
            cs.len() == len,
            forall|j: int| 0 <= j < len ==> cs[j] == view_node(main.children@[j]),
            0 <= start <= i <= len,
            rest == cs.skip(start),
            (listings.deep_view(), mode_view(state)) == scan_fold(rest.take(i - start)),
        decreases len - i,
    {
        proof {
            assert(rest.take(i - start + 1).drop_last() =~= rest.take(i - start));
            assert(rest.take(i - start + 1).last() == rest[i - start]);
            assert(rest[i - start] == cs[i as int]);
        }
        state = scan_step_exec(&mut listings, state, &main.children[i]);
        i += 1;
    }
    proof {
        assert(rest.take(len - start) =~= rest);
    }
    scan_finish_exec(&mut listings, state);
    let description: Vec<Section> = match desc {
        Some(db) => db.sections,
        None => {
            let empty: Vec<Section> = Vec::new();
            proof {
                assert(empty.deep_view() =~= Seq::<SectionV>::empty());
            }
            empty
        },
    };
    Some(
        Document {
            title: fqn.title,
            since: fqn.since,
            declaration,
            info: match info {
                Some(ii) => ii,
                None => ItemInfo::default(),
            },
            description,
            items: listings,
        },
    )
}

} // verus!
