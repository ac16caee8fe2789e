//! The page's fixed leading slots: title and version, declaration,
//! stability/portability/deprecation notes, and the top-level description
//! with its heading-keyed sections.

use vstd::prelude::*;

use crate::atom::{
    spec_first_disclosure, spec_parse_code, spec_parse_disclosure, spec_parse_list, spec_parse_p,
    spec_parse_pre, spec_text_inside, Details, DetailsV, Paragraph, ParagraphV, TextPart,
    TextPartV,
};
use crate::atom::{parse_code, parse_list, parse_p, parse_pre, parse_text_inside};
use crate::atom::spec_first_pre;
use crate::dom::{
    first_text, has_class, lemma_view_nodes, spec_first_text_in, str_eq, view_node, view_nodes,
    Element, HtmlNode, NodeV,
};

verus! {

/// The page title slot: rich title text and an optional version string.
#[derive(Debug, PartialEq, Eq)]
pub struct Fqn {
    pub title: Vec<TextPart>,
    pub since: Option<String>,
}

/// The declaration slot: the code text of the declared item.
#[derive(Debug, PartialEq, Eq)]
pub struct ItemDecl {
    pub code: Vec<TextPart>,
}

/// The disclosure slot: one optional note per category.
#[derive(Debug, PartialEq, Eq)]
pub struct ItemInfo {
    pub stability: Option<Details>,
    pub portability: Option<Details>,
    pub deprecation: Option<Details>,
}

/// The top-description slot wrapped in a collapsible widget.
#[derive(Debug, PartialEq, Eq)]
pub struct TopDoc {
    pub doc_block: DocBlock,
}

/// A description container: its heading-keyed sections, in page order.
#[derive(Debug, PartialEq, Eq)]
pub struct DocBlock {
    pub sections: Vec<Section>,
}

/// One description section: a heading depth of 2 to 6, the heading's text
/// (absent only for the implicit leading section), and the blocks under it.
#[derive(Debug, PartialEq, Eq)]
pub struct Section {
    pub depth: u8,
    pub heading: Option<Vec<TextPart>>,
    pub contents: Vec<Paragraph>,
}

/// Spec-level title slot.
pub struct FqnV {
    pub title: Seq<TextPartV>,
    pub since: Option<Seq<char>>,
}

/// Spec-level declaration slot.
pub struct ItemDeclV {
    pub code: Seq<TextPartV>,
}

/// Spec-level disclosure slot.
pub struct ItemInfoV {
    pub stability: Option<DetailsV>,
    pub portability: Option<DetailsV>,
    pub deprecation: Option<DetailsV>,
}

/// Spec-level top-description slot.
pub struct TopDocV {
    pub doc_block: DocBlockV,
}

/// Spec-level description container.
pub struct DocBlockV {
    pub sections: Seq<SectionV>,
}

/// Spec-level description section.
pub struct SectionV {
    pub depth: int,
    pub heading: Option<Seq<TextPartV>>,
    pub contents: Seq<ParagraphV>,
}

impl DeepView for Fqn {
    type V = FqnV;

    open spec fn deep_view(&self) -> FqnV {
        FqnV { title: self.title.deep_view(), since: self.since.deep_view() }
    }
}

impl DeepView for ItemDecl {
    type V = ItemDeclV;

    open spec fn deep_view(&self) -> ItemDeclV {
        ItemDeclV { code: self.code.deep_view() }
    }
}

impl DeepView for ItemInfo {
    type V = ItemInfoV;

    open spec fn deep_view(&self) -> ItemInfoV {
        ItemInfoV {
            stability: self.stability.deep_view(),
            portability: self.portability.deep_view(),
            deprecation: self.deprecation.deep_view(),
        }
    }
}

impl DeepView for TopDoc {
    type V = TopDocV;

    open spec fn deep_view(&self) -> TopDocV {
        TopDocV { doc_block: self.doc_block.deep_view() }
    }
}

impl DeepView for DocBlock {
    type V = DocBlockV;

    open spec fn deep_view(&self) -> DocBlockV {
        DocBlockV { sections: self.sections.deep_view() }
    }
}

impl DeepView for Section {
    type V = SectionV;

    open spec fn deep_view(&self) -> SectionV {
        SectionV {
            depth: self.depth as int,
            heading: self.heading.deep_view(),
            contents: self.contents.deep_view(),
        }
    }
}

/// The disclosure slot with every category absent.
pub open spec fn spec_item_info_empty() -> ItemInfoV {
    ItemInfoV { stability: None, portability: None, deprecation: None }
}

impl Default for ItemInfo {
    /// An empty disclosure slot.
    fn default() -> (r: ItemInfo)
        ensures
            r.deep_view() == spec_item_info_empty(),
    {
        ItemInfo { stability: None, portability: None, deprecation: None }
    }
}

/// The rich title text of a `span.in-band` child.
pub open spec fn spec_parse_in_band(n: NodeV) -> Option<Seq<TextPartV>> {
    match n {
        NodeV::Element(e) => if e.name == "span"@ && has_class(e, "in-band"@) {
            Some(spec_text_inside(e.children))
        } else {
            None
        },
        NodeV::Text(_) => None,
    }
}

/// The version string carried by the first `span.since` among the nodes:
/// absent when no such span exists, and a failure when the span holds no
/// text at all.
pub open spec fn spec_out_of_band_since(s: Seq<NodeV>) -> Option<Option<Seq<char>>>
    decreases s,
{
    if s.len() == 0 {
        Some(None)
    } else {
        match s[0] {
            NodeV::Element(sp) => if sp.name == "span"@ && has_class(sp, "since"@) {
                match spec_first_text_in(sp.children) {
                    Some(t) => Some(Some(t)),
                    None => None,
                }
            } else {
                spec_out_of_band_since(s.drop_first())
            },
            NodeV::Text(_) => spec_out_of_band_since(s.drop_first()),
        }
    }
}

/// The optional version string of a `span.out-of-band` child.
pub open spec fn spec_parse_out_of_band(n: NodeV) -> Option<Option<Seq<char>>> {
    match n {
        NodeV::Element(e) => if e.name == "span"@ && has_class(e, "out-of-band"@) {
            spec_out_of_band_since(e.children)
        } else {
            None
        },
        NodeV::Text(_) => None,
    }
}

/// The title text of the first in-band span among the nodes, if any.
pub open spec fn spec_first_in_band(s: Seq<NodeV>) -> Option<Seq<TextPartV>>
    decreases s,
{
    if s.len() == 0 {
        None
    } else {
        match spec_parse_in_band(s[0]) {
            Some(t) => Some(t),
            None => spec_first_in_band(s.drop_first()),
        }
    }
}

/// The result of the first out-of-band span among the nodes, if any.
pub open spec fn spec_first_out_of_band(s: Seq<NodeV>) -> Option<Option<Seq<char>>>
    decreases s,
{
    if s.len() == 0 {
        None
    } else {
        match spec_parse_out_of_band(s[0]) {
            Some(t) => Some(t),
            None => spec_first_out_of_band(s.drop_first()),
        }
    }
}

/// The first docblock container among the nodes, if any.
pub open spec fn spec_first_doc_block(s: Seq<NodeV>) -> Option<DocBlockV>
    decreases s,
{
    if s.len() == 0 {
        None
    } else {
        match spec_parse_doc_block(s[0]) {
            Some(db) => Some(db),
            None => spec_first_doc_block(s.drop_first()),
        }
    }
}

/// The title slot of an `h1.fqn` element: both an in-band and an
/// out-of-band span must be present among its children, in any order.
pub open spec fn spec_parse_fqn(n: NodeV) -> Option<FqnV> {
    match n {
        NodeV::Element(e) => if e.name == "h1"@ && has_class(e, "fqn"@) {
            let ib = spec_first_in_band(e.children);
            let ob = spec_first_out_of_band(e.children);
            if ib is Some && ob is Some {
                Some(FqnV { title: ib->0, since: ob->0 })
            } else {
                None
            }
        } else {
            None
        },
        NodeV::Text(_) => None,
    }
}

/// The declaration of a `div.item-decl`/`div.type-decl` wrapper: the inside
/// of its first `pre` child.
pub open spec fn spec_parse_item_decl(n: NodeV) -> Option<ItemDeclV> {
    match n {
        NodeV::Element(e) => if e.name == "div"@ && (has_class(e, "item-decl"@) || has_class(
            e,
            "type-decl"@,
        )) {
            match spec_first_pre(e.children) {
                Some(code) => Some(ItemDeclV { code }),
                None => None,
            }
        } else {
            None
        },
        NodeV::Text(_) => None,
    }
}

/// The disclosure slot of a `div.item-info` element: the first note of each
/// category among its children.
pub open spec fn spec_parse_item_info(n: NodeV) -> Option<ItemInfoV> {
    match n {
        NodeV::Element(e) => if e.name == "div"@ && has_class(e, "item-info"@) {
            Some(
                ItemInfoV {
                    stability: spec_first_disclosure(e.children, "unstable"@),
                    portability: spec_first_disclosure(e.children, "portability"@),
                    deprecation: spec_first_disclosure(e.children, "deprecated"@),
                },
            )
        } else {
            None
        },
        NodeV::Text(_) => None,
    }
}

/// The heading depth a tag name stands for: `h2` through `h6`, where any
/// name whose first two characters fit counts, as the historical encodings
/// did.
pub open spec fn heading_depth(name: Seq<char>) -> Option<int> {
    if name.len() >= 2 && name[0] == 'h' && '2' <= name[1] && name[1] <= '6' {
        Some(name[1] as int - '0' as int)
    } else {
        None
    }
}

/// The block-level construct a node encodes, if any: a paragraph, a list,
/// or a fenced code block, tried in that order.
pub open spec fn spec_block_content(n: NodeV) -> Option<ParagraphV> {
    match spec_parse_p(n) {
        Some(t) => Some(ParagraphV::Text(t)),
        None => match spec_parse_list(n) {
            Some(l) => Some(ParagraphV::List(l)),
            None => match spec_parse_code(n) {
                Some(c) => Some(ParagraphV::Code(c)),
                None => None,
            },
        },
    }
}

/// One step of the section fold: a heading opens a new section; a block
/// appends to the most recent section, opening an implicit headless one at
/// depth 2 when none is open yet; anything else is skipped.
pub open spec fn doc_step(acc: Seq<SectionV>, n: NodeV) -> Seq<SectionV> {
    match n {
        NodeV::Element(e) => if heading_depth(e.name) is Some {
            acc.push(
                SectionV {
                    depth: heading_depth(e.name)->0,
                    heading: Some(spec_text_inside(e.children)),
                    contents: Seq::empty(),
                },
            )
        } else {
            match spec_block_content(n) {
                Some(c) => if acc.len() > 0 {
                    acc.update(
                        acc.len() - 1,
                        SectionV {
                            depth: acc.last().depth,
                            heading: acc.last().heading,
                            contents: acc.last().contents.push(c),
                        },
                    )
                } else {
                    seq![SectionV { depth: 2, heading: None, contents: seq![c] }]
                },
                None => acc,
            }
        },
        NodeV::Text(_) => acc,
    }
}

/// The sections a child list folds into, left to right.
pub open spec fn doc_sections(s: Seq<NodeV>) -> Seq<SectionV>
    decreases s.len(),
{
    if s.len() == 0 {
        Seq::empty()
    } else {
        doc_step(doc_sections(s.drop_last()), s.last())
    }
}

/// The sections of a `div.docblock` container.
pub open spec fn spec_parse_doc_block(n: NodeV) -> Option<DocBlockV> {
    match n {
        NodeV::Element(e) => if e.name == "div"@ && has_class(e, "docblock"@) {
            Some(DocBlockV { sections: doc_sections(e.children) })
        } else {
            None
        },
        NodeV::Text(_) => None,
    }
}

/// The top description of a `details.top-doc` widget: its first docblock
/// child.
pub open spec fn spec_parse_top_doc(n: NodeV) -> Option<TopDocV> {
    match n {
        NodeV::Element(e) => if e.name == "details"@ && has_class(e, "top-doc"@) {
            match spec_first_doc_block(e.children) {
                Some(db) => Some(TopDocV { doc_block: db }),
                None => None,
            }
        } else {
            None
        },
        NodeV::Text(_) => None,
    }
}

/// Recognizes a `span.in-band` child as the rich title text.
fn parse_in_band(node: &HtmlNode) -> (r: Option<Vec<TextPart>>)
    ensures
        r.deep_view() == spec_parse_in_band(node.deep_view()),
{
    match node {
        HtmlNode::Element(e) => {
            if str_eq(e.name.as_str(), "span") && e.has_class("in-band") {
                Some(parse_text_inside(node))
            } else {
                None
            }
        },
        HtmlNode::Text(_) => None,
    }
}

/// Recognizes a `span.out-of-band` child and reads its optional version.
fn parse_out_of_band(node: &HtmlNode) -> (r: Option<Option<String>>)
    ensures
        r.deep_view() == spec_parse_out_of_band(node.deep_view()),
{
    let e = match node {
        HtmlNode::Element(e) => e,
        HtmlNode::Text(_) => {
            return None;
        },
    };
    if !(str_eq(e.name.as_str(), "span") && e.has_class("out-of-band")) {
        return None;
    }
    let ghost cs = view_nodes(e.children@);
    proof {
        lemma_view_nodes(e.children@);
        assert(cs.skip(0) =~= cs);
    }
    let n: usize = e.children.len();
    let mut i: usize = 0;
    while i < n
        invariant
            n == e.children.len(),
            0 <= i <= n,
            cs == view_nodes(e.children@),
            cs.len() == n,
            forall|j: int| 0 <= j < n ==> cs[j] == view_node(e.children@[j]),
            node.deep_view() == NodeV::Element(e.deep_view()),
            e.deep_view().children == cs,
            e.deep_view().name == "span"@,
            has_class(e.deep_view(), "out-of-band"@),
            spec_out_of_band_since(cs) == spec_out_of_band_since(cs.skip(i as int)),
        decreases n - i,
    {
        proof {
            assert(cs.skip(i as int)[0] == cs[i as int]);
            assert(cs.skip(i as int).drop_first() =~= cs.skip(i + 1));
        }
        let child = &e.children[i];
        match child {
            HtmlNode::Element(sp) => {
                proof {
                    assert(cs[i as int] == NodeV::Element(sp.deep_view()));
                }
                if str_eq(sp.name.as_str(), "span") && sp.has_class("since") {
                    match first_text(child) {
                        Some(t) => {
                            return Some(Some(t.clone()));
                        },
                        None => {
                            return None;
                        },
                    }
                }
            },
            HtmlNode::Text(_) => {},
        }
        i += 1;
    }
    proof {
        assert(cs.skip(n as int) =~= Seq::<NodeV>::empty());
    }
    Some(None)
}

/// Recognizes the mandatory `h1.fqn` title slot. Declines unless both an
/// in-band and an out-of-band span are present among the children.
pub fn parse_fqn(node: &HtmlNode) -> (r: Option<Fqn>)
    ensures
        r.deep_view() == spec_parse_fqn(node.deep_view()),
{
    let e = match node {
        HtmlNode::Element(e) => e,
        HtmlNode::Text(_) => {
            return None;
        },
    };
    if !(str_eq(e.name.as_str(), "h1") && e.has_class("fqn")) {
        return None;
    }
    let ghost cs = view_nodes(e.children@);
    proof {
        lemma_view_nodes(e.children@);
        assert(cs.skip(0) =~= cs);
    }
    let mut in_band: Option<Vec<TextPart>> = None;
    let mut out_of_band: Option<Option<String>> = None;
    let n: usize = e.children.len();
    let mut i: usize = 0;
    while i < n
        invariant
            n == e.children.len(),
            0 <= i <= n,
            cs == view_nodes(e.children@),
            cs.len() == n,
            forall|j: int| 0 <= j < n ==> cs[j] == view_node(e.children@[j]),
            in_band is None ==> spec_first_in_band(cs) == spec_first_in_band(cs.skip(i as int)),
            in_band matches Some(t) ==> spec_first_in_band(cs) == Some(t.deep_view()),
            out_of_band is None ==> spec_first_out_of_band(cs) == spec_first_out_of_band(
                cs.skip(i as int),
            ),
            out_of_band matches Some(t) ==> spec_first_out_of_band(cs) == Some(t.deep_view()),
        decreases n - i,
    {
        proof {
            assert(cs.skip(i as int)[0] == cs[i as int]);
            assert(cs.skip(i as int).drop_first() =~= cs.skip(i + 1));
        }
        let child = &e.children[i];
        if in_band.is_none() {
            if let Some(t) = parse_in_band(child) {
                in_band = Some(t);
            }
        }
        if out_of_band.is_none() {
            if let Some(s) = parse_out_of_band(child) {
                out_of_band = Some(s);
            }
        }
        i += 1;
    }
    proof {
        assert(cs.skip(n as int) =~= Seq::<NodeV>::empty());
    }
    match (in_band, out_of_band) {
        (Some(title), Some(since)) => Some(Fqn { title, since }),
        _ => None,
    }
}

/// Recognizes the declaration slot: a `div.item-decl`/`div.type-decl`
/// wrapper around a `pre`.
pub fn parse_item_decl(node: &HtmlNode) -> (r: Option<ItemDecl>)
    ensures
        r.deep_view() == spec_parse_item_decl(node.deep_view()),
{
    let e = match node {
        HtmlNode::Element(e) => e,
        HtmlNode::Text(_) => {
            return None;
        },
    };
    if !(str_eq(e.name.as_str(), "div") && (e.has_class("item-decl") || e.has_class("type-decl"))) {
        return None;
    }
    let ghost cs = view_nodes(e.children@);
    proof {
        lemma_view_nodes(e.children@);
        assert(cs.skip(0) =~= cs);
    }
    let n: usize = e.children.len();
    let mut i: usize = 0;
    while i < n
        invariant
            n == e.children.len(),
            0 <= i <= n,
            cs == view_nodes(e.children@),
            cs.len() == n,
            forall|j: int| 0 <= j < n ==> cs[j] == view_node(e.children@[j]),
            node.deep_view() == NodeV::Element(e.deep_view()),
            e.deep_view().children == cs,
            e.deep_view().name == "div"@,
            has_class(e.deep_view(), "item-decl"@) || has_class(e.deep_view(), "type-decl"@),
            spec_first_pre(cs) == spec_first_pre(cs.skip(i as int)),
        decreases n - i,
    {
        proof {
            assert(cs.skip(i as int)[0] == cs[i as int]);
            assert(cs.skip(i as int).drop_first() =~= cs.skip(i + 1));
        }
        if let Some(pre) = parse_pre(&e.children[i]) {
            return Some(ItemDecl { code: pre.code });
        }
        i += 1;
    }
    proof {
        assert(cs.skip(n as int) =~= Seq::<NodeV>::empty());
    }
    None
}

/// Recognizes the `div.item-info` disclosure slot, reading the first note
/// of each category.
pub fn parse_item_info(node: &HtmlNode) -> (r: Option<ItemInfo>)
    ensures
        r.deep_view() == spec_parse_item_info(node.deep_view()),
{
    let e = match node {
        HtmlNode::Element(e) => e,
        HtmlNode::Text(_) => {
            return None;
        },
    };
    if !(str_eq(e.name.as_str(), "div") && e.has_class("item-info")) {
        return None;
    }
    proof {
        lemma_view_nodes(e.children@);
        assert(view_nodes(e.children@).skip(0) =~= view_nodes(e.children@));
    }
    let (stability, portability, deprecation) = crate::atom::scan_disclosures(&e.children, 0);
    Some(ItemInfo { stability, portability, deprecation })
}

/// The heading depth a tag name stands for, if any.
fn heading_depth_of(name: &str) -> (r: Option<u8>)
    ensures
        match r {
            Some(d) => heading_depth(name@) == Some(d as int),
            None => heading_depth(name@) is None,
        },
{
    let len: usize = name.unicode_len();
    if len < 2 {
        return None;
    }
    let c0 = name.get_char(0);
    let c1 = name.get_char(1);
    if c0 == 'h' && '2' <= c1 && c1 <= '6' {
        Some(((c1 as u32) - ('0' as u32)) as u8)
    } else {
        None
    }
}

/// Recognizes a block-level child: paragraph, list, or code, in that order.
fn parse_block_content(node: &HtmlNode) -> (r: Option<Paragraph>)
    ensures
        r.deep_view() == spec_block_content(node.deep_view()),
{
    if let Some(t) = parse_p(node) {
        Some(Paragraph::Text(t))
    } else if let Some(l) = parse_list(node) {
        Some(Paragraph::List(l))
    } else if let Some(c) = parse_code(node) {
        Some(Paragraph::Code(c))
    } else {
        None
    }
}

/// Recognizes a `div.docblock` container and segments its children into
/// heading-keyed sections.
pub fn parse_doc_block(node: &HtmlNode) -> (r: Option<DocBlock>)
    ensures
        r.deep_view() == spec_parse_doc_block(node.deep_view()),
{
    let e = match node {
        HtmlNode::Element(e) => e,
        HtmlNode::Text(_) => {
            return None;
        },
    };
    if !(str_eq(e.name.as_str(), "div") && e.has_class("docblock")) {
        return None;
    }
    let ghost cs = view_nodes(e.children@);
    proof {
        lemma_view_nodes(e.children@);
        assert(cs.take(0) =~= Seq::<NodeV>::empty());
    }
    let mut sections: Vec<Section> = Vec::new();
    let n: usize = e.children.len();
    let mut i: usize = 0;
    while i < n
        invariant
            n == e.children.len(),
            0 <= i <= n,
            cs == view_nodes(e.children@),
            cs.len() == n,
            forall|j: int| 0 <= j < n ==> cs[j] == view_node(e.children@[j]),
            sections.deep_view() == doc_sections(cs.take(i as int)),
        decreases n - i,
    {
        let ghost pre_dv = sections.deep_view();
        proof {
            assert(cs.take(i + 1).drop_last() =~= cs.take(i as int));
            assert(cs.take(i + 1).last() == cs[i as int]);
        }
        let child = &e.children[i];
        match child {
            HtmlNode::Element(ce) => {
                proof {
                    assert(cs[i as int] == NodeV::Element(ce.deep_view()));
                }
                if let Some(d) = heading_depth_of(ce.name.as_str()) {
                    let heading = parse_text_inside(child);
                    let ghost hv = heading.deep_view();
                    let sec = Section { depth: d, heading: Some(heading), contents: Vec::new() };
                    proof {
                        assert(sec.contents.deep_view() =~= Seq::<ParagraphV>::empty());
                    }
                    let ghost secv = sec.deep_view();
                    sections.push(sec);
                    proof {
                        assert(sections.deep_view() =~= pre_dv.push(secv));
                    }
                } else {
                    if let Some(c) = parse_block_content(child) {
                        let ghost cv = c.deep_view();
                        if sections.len() > 0 {
                            let mut last = match sections.pop() {
                                Some(last) => last,
                                None => {
                                    proof {
                                        assert(false);
                                    }
                                    Section { depth: 2, heading: None, contents: Vec::new() }
                                },
                            };
                            let ghost lastv = last.deep_view();
                            last.contents.push(c);
                            proof {
                                assert(last.contents.deep_view() =~= lastv.contents.push(cv));
                            }
                            let ghost newv = last.deep_view();
                            sections.push(last);
                            proof {
                                assert(pre_dv.last() == lastv);
                                assert(sections.deep_view() =~= pre_dv.update(
                                    pre_dv.len() - 1,
                                    newv,
                                ));
                            }
                        } else {
                            let mut contents: Vec<Paragraph> = Vec::new();
                            contents.push(c);
                            proof {
                                assert(contents.deep_view() =~= seq![cv]);
                            }
                            let sec = Section { depth: 2, heading: None, contents };
                            let ghost secv = sec.deep_view();
                            sections.push(sec);
                            proof {
                                assert(sections.deep_view() =~= seq![secv]);
                            }
                        }
                    }
                }
            },
            HtmlNode::Text(_) => {},
        }
        i += 1;
    }
    proof {
        assert(cs.take(n as int) =~= cs);
    }
    Some(DocBlock { sections })
}

/// Recognizes the `details.top-doc` wrapper around the top description.
pub fn parse_top_doc(node: &HtmlNode) -> (r: Option<TopDoc>)
    ensures
        r.deep_view() == spec_parse_top_doc(node.deep_view()),
{
    let e = match node {
        HtmlNode::Element(e) => e,
        HtmlNode::Text(_) => {
            return None;
        },
    };
    if !(str_eq(e.name.as_str(), "details") && e.has_class("top-doc")) {
        return None;
    }
    let ghost cs = view_nodes(e.children@);
    proof {
        lemma_view_nodes(e.children@);
        assert(cs.skip(0) =~= cs);
    }
    let n: usize = e.children.len();
    let mut i: usize = 0;
    while i < n
        invariant
            n == e.children.len(),
            0 <= i <= n,
            cs == view_nodes(e.children@),
            cs.len() == n,
            forall|j: int| 0 <= j < n ==> cs[j] == view_node(e.children@[j]),
            node.deep_view() == NodeV::Element(e.deep_view()),
            e.deep_view().children == cs,
            e.deep_view().name == "details"@,
            has_class(e.deep_view(), "top-doc"@),
            spec_first_doc_block(cs) == spec_first_doc_block(cs.skip(i as int)),
        decreases n - i,
    {
        proof {
            assert(cs.skip(i as int)[0] == cs[i as int]);
            assert(cs.skip(i as int).drop_first() =~= cs.skip(i + 1));
        }
        if let Some(doc_block) = parse_doc_block(&e.children[i]) {
            return Some(TopDoc { doc_block });
        }
        i += 1;
    }
    proof {
        assert(cs.skip(n as int) =~= Seq::<NodeV>::empty());
    }
    None
}

/// A headless section can only stand first: every later section of a fold
/// result carries a heading.
pub proof fn lemma_doc_sections_headless(s: Seq<NodeV>)
    ensures
        forall|i: int|
            1 <= i < doc_sections(s).len() ==> (#[trigger] doc_sections(s)[i]).heading is Some,
    decreases s.len(),
{
    if s.len() > 0 {
        lemma_doc_sections_headless(s.drop_last());
    }
}

/// The headless-first shape carries through the docblock recognizer.
pub proof fn lemma_parse_doc_block_headless(n: NodeV)
    ensures
        spec_parse_doc_block(n) matches Some(db) ==> forall|i: int|
            1 <= i < db.sections.len() ==> (#[trigger] db.sections[i]).heading is Some,
{
    match n {
        NodeV::Element(e) => {
            lemma_doc_sections_headless(e.children);
        },
        NodeV::Text(_) => {},
    }
}

/// The headless-first shape carries through the docblock scan.
pub proof fn lemma_first_doc_block_headless(s: Seq<NodeV>)
    ensures
        spec_first_doc_block(s) matches Some(db) ==> forall|i: int|
            1 <= i < db.sections.len() ==> (#[trigger] db.sections[i]).heading is Some,
    decreases s.len(),
{
    if s.len() > 0 {
        lemma_parse_doc_block_headless(s[0]);
        lemma_first_doc_block_headless(s.drop_first());
    }
}

} // verus!
