//! The impl-block extractor: implementation headings, their member items,
//! collapsed implementor toggles, and the self-contained impl div.

use vstd::prelude::*;

use crate::atom::{
    parse_text_inside, parse_text_outside, spec_text_inside, spec_text_outside, TextPart,
    TextPartV,
};
use crate::dom::{
    has_class, lemma_view_nodes, str_eq, view_node, view_nodes, Element, HtmlNode, NodeV,
};
use crate::header::{
    parse_doc_block, parse_item_info, spec_item_info_empty, spec_parse_doc_block,
    spec_parse_item_info, ItemInfo,
};
use crate::item::{Impl, ImplV, Item, ItemV};

verus! {

/// An implementation heading: the impl's target signature text.
#[derive(Debug, PartialEq, Eq)]
pub struct ImplHeading {
    pub title: Vec<TextPart>,
}

/// Spec-level implementation heading.
pub struct ImplHeadingV {
    pub title: Seq<TextPartV>,
}

impl DeepView for ImplHeading {
    type V = ImplHeadingV;

    open spec fn deep_view(&self) -> ImplHeadingV {
        ImplHeadingV { title: self.title.deep_view() }
    }
}

/// The outside text of a `code.in-band` node, or a declination.
pub open spec fn spec_code_in_band(n: NodeV) -> Option<Seq<TextPartV>> {
    match n {
        NodeV::Element(e) => if e.name == "code"@ && has_class(e, "in-band"@) {
            Some(spec_text_outside(n))
        } else {
            None
        },
        NodeV::Text(_) => None,
    }
}

/// The outside text of the first `code.in-band` among the nodes, if any.
pub open spec fn spec_first_code_in_band(s: Seq<NodeV>) -> Option<Seq<TextPartV>>
    decreases s,
{
    if s.len() == 0 {
        None
    } else {
        match spec_code_in_band(s[0]) {
            Some(t) => Some(t),
            None => spec_first_code_in_band(s.drop_first()),
        }
    }
}

/// The impl signature of an `h3.impl` heading: the outside text of its
/// first `code.in-band` child.
pub open spec fn spec_parse_impl_heading(n: NodeV) -> Option<ImplHeadingV> {
    match n {
        NodeV::Element(e) => if e.name == "h3"@ && has_class(e, "impl"@) {
            match spec_first_code_in_band(e.children) {
                Some(t) => Some(ImplHeadingV { title: t }),
                None => None,
            }
        } else {
            None
        },
        NodeV::Text(_) => None,
    }
}

/// The inside text of an `h3.in-band` node, or a declination.
pub open spec fn spec_h3_in_band(n: NodeV) -> Option<Seq<TextPartV>> {
    match n {
        NodeV::Element(e) => if e.name == "h3"@ && has_class(e, "in-band"@) {
            Some(spec_text_inside(e.children))
        } else {
            None
        },
        NodeV::Text(_) => None,
    }
}

/// The inside text of the first `h3.in-band` among the nodes, if any.
pub open spec fn spec_first_h3_in_band(s: Seq<NodeV>) -> Option<Seq<TextPartV>>
    decreases s,
{
    if s.len() == 0 {
        None
    } else {
        match spec_h3_in_band(s[0]) {
            Some(t) => Some(t),
            None => spec_first_h3_in_band(s.drop_first()),
        }
    }
}

/// An "empty impl" placeholder: a `div.impl` naming its target in an
/// `h3.in-band` child, with no member items.
pub open spec fn spec_parse_empty_impl(n: NodeV) -> Option<ImplV> {
    match n {
        NodeV::Element(e) => if e.name == "div"@ && has_class(e, "impl"@) {
            match spec_first_h3_in_band(e.children) {
                Some(t) => Some(ImplV { target: t, items: Seq::empty() }),
                None => None,
            }
        } else {
            None
        },
        NodeV::Text(_) => None,
    }
}

/// The inside text of a child of class `code-header`, or a declination.
pub open spec fn spec_code_header(n: NodeV) -> Option<Seq<TextPartV>> {
    match n {
        NodeV::Element(e) => if has_class(e, "code-header"@) {
            Some(spec_text_inside(e.children))
        } else {
            None
        },
        NodeV::Text(_) => None,
    }
}

/// The inside text of the first `code-header`-classed node, if any.
pub open spec fn spec_first_code_header(s: Seq<NodeV>) -> Option<Seq<TextPartV>>
    decreases s,
{
    if s.len() == 0 {
        None
    } else {
        match spec_code_header(s[0]) {
            Some(t) => Some(t),
            None => spec_first_code_header(s.drop_first()),
        }
    }
}

/// The member name held by a `div.has-srclink` wrapper: the inside text of
/// its first `code-header`-classed child.
pub open spec fn spec_parse_srclink(n: NodeV) -> Option<Seq<TextPartV>> {
    match n {
        NodeV::Element(e) => if e.name == "div"@ && has_class(e, "has-srclink"@) {
            spec_first_code_header(e.children)
        } else {
            None
        },
        NodeV::Text(_) => None,
    }
}

/// The outside text of a `code` node, or a declination.
pub open spec fn spec_code_node(n: NodeV) -> Option<Seq<TextPartV>> {
    match n {
        NodeV::Element(e) => if e.name == "code"@ {
            Some(spec_text_outside(n))
        } else {
            None
        },
        NodeV::Text(_) => None,
    }
}

/// The outside text of the first `code` node, if any.
pub open spec fn spec_first_code(s: Seq<NodeV>) -> Option<Seq<TextPartV>>
    decreases s,
{
    if s.len() == 0 {
        None
    } else {
        match spec_code_node(s[0]) {
            Some(t) => Some(t),
            None => spec_first_code(s.drop_first()),
        }
    }
}

/// The member name declared by an `h4` heading: the outside text of its
/// first `code` child.
pub open spec fn spec_parse_item_heading(n: NodeV) -> Option<Seq<TextPartV>> {
    match n {
        NodeV::Element(e) => if e.name == "h4"@ {
            spec_first_code(e.children)
        } else {
            None
        },
        NodeV::Text(_) => None,
    }
}

/// A collapsed member toggle: a `details` whose summary leads with a
/// srclink wrapper and whose next child is the member's description.
pub open spec fn spec_parse_toggle_item(n: NodeV) -> Option<ItemV> {
    match n {
        NodeV::Element(e) => if e.name == "details"@ && e.children.len() > 0 {
            match e.children[0] {
                NodeV::Element(se) => if se.name == "summary"@ && se.children.len() > 0 {
                    match spec_parse_srclink(se.children[0]) {
                        Some(name) => if e.children.len() >= 2 {
                            match spec_parse_doc_block(e.children[1]) {
                                Some(db) => Some(
                                    ItemV {
                                        name,
                                        info: spec_item_info_empty(),
                                        description: Some(db.sections),
                                    },
                                ),
                                None => None,
                            }
                        } else {
                            None
                        },
                        None => None,
                    }
                } else {
                    None
                },
                NodeV::Text(_) => None,
            }
        } else {
            None
        },
        NodeV::Text(_) => None,
    }
}

/// One step of the member fold inside a `div.impl-items`: an `h4`+`code`
/// heading or a srclink wrapper or a collapsed toggle starts a new member;
/// an item-info or docblock node attaches to the most recently started
/// member; anything else is skipped.
pub open spec fn spec_impl_items_step(acc: Seq<ItemV>, n: NodeV) -> Seq<ItemV> {
    if spec_parse_item_heading(n) is Some {
        acc.push(
            ItemV {
                name: spec_parse_item_heading(n)->0,
                info: spec_item_info_empty(),
                description: None,
            },
        )
    } else if spec_parse_item_info(n) is Some {
        if acc.len() > 0 {
            acc.update(
                acc.len() - 1,
                ItemV {
                    name: acc.last().name,
                    info: spec_parse_item_info(n)->0,
                    description: acc.last().description,
                },
            )
        } else {
            acc
        }
    } else if spec_parse_doc_block(n) is Some {
        if acc.len() > 0 {
            acc.update(
                acc.len() - 1,
                ItemV {
                    name: acc.last().name,
                    info: acc.last().info,
                    description: Some(spec_parse_doc_block(n)->0.sections),
                },
            )
        } else {
            acc
        }
    } else if spec_parse_srclink(n) is Some {
        acc.push(
            ItemV {
                name: spec_parse_srclink(n)->0,
                info: spec_item_info_empty(),
                description: None,
            },
        )
    } else if spec_parse_toggle_item(n) is Some {
        acc.push(spec_parse_toggle_item(n)->0)
    } else {
        acc
    }
}

/// The members a child list folds into, left to right.
pub open spec fn spec_impl_items(s: Seq<NodeV>) -> Seq<ItemV>
    decreases s.len(),
{
    if s.len() == 0 {
        Seq::empty()
    } else {
        spec_impl_items_step(spec_impl_items(s.drop_last()), s.last())
    }
}

/// The members of a `div.impl-items` container.
pub open spec fn spec_parse_impl_items(n: NodeV) -> Option<Seq<ItemV>> {
    match n {
        NodeV::Element(e) => if e.name == "div"@ && has_class(e, "impl-items"@) {
            Some(spec_impl_items(e.children))
        } else {
            None
        },
        NodeV::Text(_) => None,
    }
}

/// A collapsed implementor toggle: a `details.implementors-toggle` whose
/// summary leads with a srclink naming the implementing type, optionally
/// followed by the impl's member container.
pub open spec fn spec_parse_implementor(n: NodeV) -> Option<ImplV> {
    match n {
        NodeV::Element(e) => if e.name == "details"@ && has_class(e, "implementors-toggle"@)
            && e.children.len() > 0 {
            match e.children[0] {
                NodeV::Element(se) => if se.name == "summary"@ && se.children.len() > 0 {
                    match spec_parse_srclink(se.children[0]) {
                        Some(target) => Some(
                            ImplV {
                                target,
                                items: if e.children.len() >= 2 {
                                    match spec_parse_impl_items(e.children[1]) {
                                        Some(items) => items,
                                        None => Seq::empty(),
                                    }
                                } else {
                                    Seq::empty()
                                },
                            },
                        ),
                        None => None,
                    }
                } else {
                    None
                },
                NodeV::Text(_) => None,
            }
        } else {
            None
        },
        NodeV::Text(_) => None,
    }
}

/// An implementor toggle, or, failing that, an empty-impl placeholder.
pub open spec fn spec_parse_implementor_or_empty(n: NodeV) -> Option<ImplV> {
    match spec_parse_implementor(n) {
        Some(imp) => Some(imp),
        None => spec_parse_empty_impl(n),
    }
}

/// One step of the fold inside a self-contained impl div: each child must
/// be an empty impl, an impl heading opening a new impl, or a member
/// container attaching to the most recent impl; any other child fails the
/// whole div.
pub open spec fn spec_impl_div_step(acc: Option<Seq<ImplV>>, n: NodeV) -> Option<Seq<ImplV>> {
    match acc {
        None => None,
        Some(impls) => if spec_parse_empty_impl(n) is Some {
            Some(impls.push(spec_parse_empty_impl(n)->0))
        } else if spec_parse_impl_heading(n) is Some {
            Some(
                impls.push(
                    ImplV { target: spec_parse_impl_heading(n)->0.title, items: Seq::empty() },
                ),
            )
        } else if spec_parse_impl_items(n) is Some {
            if impls.len() > 0 {
                Some(
                    impls.update(
                        impls.len() - 1,
                        ImplV {
                            target: impls.last().target,
                            items: spec_parse_impl_items(n)->0,
                        },
                    ),
                )
            } else {
                Some(impls)
            }
        } else {
            None
        },
    }
}

/// The impls a child list folds into, left to right; a failure anywhere
/// fails the whole fold.
pub open spec fn spec_impl_div_fold(s: Seq<NodeV>) -> Option<Seq<ImplV>>
    decreases s.len(),
{
    if s.len() == 0 {
        Some(Seq::empty())
    } else {
        spec_impl_div_step(spec_impl_div_fold(s.drop_last()), s.last())
    }
}

/// The impls of a bare `div` whose children are all impl headings, member
/// containers and empty impls.
pub open spec fn spec_parse_impl_div(n: NodeV) -> Option<Seq<ImplV>> {
    match n {
        NodeV::Element(e) => if e.name == "div"@ {
            spec_impl_div_fold(e.children)
        } else {
            None
        },
        NodeV::Text(_) => None,
    }
}

/// Recognizes an `h3.impl` implementation heading.
pub fn parse_impl_heading(node: &HtmlNode) -> (r: Option<ImplHeading>)
    ensures
        r.deep_view() == spec_parse_impl_heading(node.deep_view()),
{
    let e = match node {
        HtmlNode::Element(e) => e,
        HtmlNode::Text(_) => {
            return None;
        },
    };
    if !(str_eq(e.name.as_str(), "h3") && e.has_class("impl")) {
        return None;
    }
    let ghost cs = view_nodes(e.children@);
    proof {
        lemma_view_nodes(e.children@);
        assert(cs.skip(0) =~= cs);
    }
    let n: usize = e.children.len();
    let mut i: usize = 0;
    while i < n
        invariant
            n == e.children.len(),
            0 <= i <= n,
            cs == view_nodes(e.children@),
            cs.len() == n,
            forall|j: int| 0 <= j < n ==> cs[j] == view_node(e.children@[j]),
            spec_parse_impl_heading(node.deep_view()) == (match spec_first_code_in_band(cs) {
                Some(t) => Some(ImplHeadingV { title: t }),
                None => None,
            }),
            spec_first_code_in_band(cs) == spec_first_code_in_band(cs.skip(i as int)),
        decreases n - i,
    {
        proof {
            assert(cs.skip(i as int)[0] == cs[i as int]);
            assert(cs.skip(i as int).drop_first() =~= cs.skip(i + 1));
        }
        let child = &e.children[i];
        match child {
            HtmlNode::Element(ce) => {
                proof {
                    assert(cs[i as int] == NodeV::Element(ce.deep_view()));
                }
                if str_eq(ce.name.as_str(), "code") && ce.has_class("in-band") {
                    return Some(ImplHeading { title: parse_text_outside(child) });
                }
            },
            HtmlNode::Text(_) => {},
        }
        i += 1;
    }
    proof {
        assert(cs.skip(n as int) =~= Seq::<NodeV>::empty());
    }
    None
}

/// Recognizes a `div.impl` empty-impl placeholder.
pub fn parse_empty_impl(node: &HtmlNode) -> (r: Option<Impl>)
    ensures
        r.deep_view() == spec_parse_empty_impl(node.deep_view()),
{
    let e = match node {
        HtmlNode::Element(e) => e,
        HtmlNode::Text(_) => {
            return None;
        },
    };
    if !(str_eq(e.name.as_str(), "div") && e.has_class("impl")) {
        return None;
    }
    let ghost cs = view_nodes(e.children@);
    proof {
        lemma_view_nodes(e.children@);
        assert(cs.skip(0) =~= cs);
    }
    let n: usize = e.children.len();
    let mut i: usize = 0;
    while i < n
        invariant
            n == e.children.len(),
            0 <= i <= n,
            cs == view_nodes(e.children@),
            cs.len() == n,
            forall|j: int| 0 <= j < n ==> cs[j] == view_node(e.children@[j]),
            spec_parse_empty_impl(node.deep_view()) == (match spec_first_h3_in_band(cs) {
                Some(t) => Some(ImplV { target: t, items: Seq::empty() }),
                None => None,
            }),
            spec_first_h3_in_band(cs) == spec_first_h3_in_band(cs.skip(i as int)),
        decreases n - i,
    {
        proof {
            assert(cs.skip(i as int)[0] == cs[i as int]);
            assert(cs.skip(i as int).drop_first() =~= cs.skip(i + 1));
        }
        let child = &e.children[i];
        match child {
            HtmlNode::Element(ce) => {
                proof {
                    assert(cs[i as int] == NodeV::Element(ce.deep_view()));
                }
                if str_eq(ce.name.as_str(), "h3") && ce.has_class("in-band") {
                    let target = parse_text_inside(child);
                    let items: Vec<Item> = Vec::new();
                    proof {
                        assert(items.deep_view() =~= Seq::<ItemV>::empty());
                    }
                    return Some(Impl { target, items });
                }
            },
            HtmlNode::Text(_) => {},
        }
        i += 1;
    }
    proof {
        assert(cs.skip(n as int) =~= Seq::<NodeV>::empty());
    }
    None
}

/// Recognizes a `div.has-srclink` member-name wrapper.
fn parse_srclink(node: &HtmlNode) -> (r: Option<Vec<TextPart>>)
    ensures
        r.deep_view() == spec_parse_srclink(node.deep_view()),
{
    let e = match node {
        HtmlNode::Element(e) => e,
        HtmlNode::Text(_) => {
            return None;
        },
    };
    if !(str_eq(e.name.as_str(), "div") && e.has_class("has-srclink")) {
        return None;
    }
    let ghost cs = view_nodes(e.children@);
    proof {
        lemma_view_nodes(e.children@);
        assert(cs.skip(0) =~= cs);
    }
    let n: usize = e.children.len();
    let mut i: usize = 0;
    while i < n
        invariant
            n == e.children.len(),
            0 <= i <= n,
            cs == view_nodes(e.children@),
            cs.len() == n,
            forall|j: int| 0 <= j < n ==> cs[j] == view_node(e.children@[j]),
            spec_parse_srclink(node.deep_view()) == spec_first_code_header(cs),
            spec_first_code_header(cs) == spec_first_code_header(cs.skip(i as int)),
        decreases n - i,
    {
        proof {
            assert(cs.skip(i as int)[0] == cs[i as int]);
            assert(cs.skip(i as int).drop_first() =~= cs.skip(i + 1));
        }
        let child = &e.children[i];
        match child {
            HtmlNode::Element(ce) => {
                proof {
                    assert(cs[i as int] == NodeV::Element(ce.deep_view()));
                }
                if ce.has_class("code-header") {
                    return Some(parse_text_inside(child));
                }
            },
            HtmlNode::Text(_) => {},
        }
        i += 1;
    }
    proof {
        assert(cs.skip(n as int) =~= Seq::<NodeV>::empty());
    }
    None
}

/// Recognizes an `h4` member heading with a `code` child.
fn parse_item_heading(node: &HtmlNode) -> (r: Option<Vec<TextPart>>)
    ensures
        r.deep_view() == spec_parse_item_heading(node.deep_view()),
{
    let e = match node {
        HtmlNode::Element(e) => e,
        HtmlNode::Text(_) => {
            return None;
        },
    };
    if !str_eq(e.name.as_str(), "h4") {
        return None;
    }
    let ghost cs = view_nodes(e.children@);
    proof {
        lemma_view_nodes(e.children@);
        assert(cs.skip(0) =~= cs);
    }
    let n: usize = e.children.len();
    let mut i: usize = 0;
    while i < n
        invariant
            n == e.children.len(),
            0 <= i <= n,
            cs == view_nodes(e.children@),
            cs.len() == n,
            forall|j: int| 0 <= j < n ==> cs[j] == view_node(e.children@[j]),
            spec_parse_item_heading(node.deep_view()) == spec_first_code(cs),
            spec_first_code(cs) == spec_first_code(cs.skip(i as int)),
        decreases n - i,
    {
        proof {
            assert(cs.skip(i as int)[0] == cs[i as int]);
            assert(cs.skip(i as int).drop_first() =~= cs.skip(i + 1));
        }
        let child = &e.children[i];
        match child {
            HtmlNode::Element(ce) => {
                proof {
                    assert(cs[i as int] == NodeV::Element(ce.deep_view()));
                }
                if str_eq(ce.name.as_str(), "code") {
                    return Some(parse_text_outside(child));
                }
            },
            HtmlNode::Text(_) => {},
        }
        i += 1;
    }
    proof {
        assert(cs.skip(n as int) =~= Seq::<NodeV>::empty());
    }
    None
}

/// Recognizes a collapsed `details` member toggle.
fn parse_toggle_item(node: &HtmlNode) -> (r: Option<Item>)
    ensures
        r.deep_view() == spec_parse_toggle_item(node.deep_view()),
{
    let e = match node {
        HtmlNode::Element(e) => e,
        HtmlNode::Text(_) => {
            return None;
        },
    };
    if !str_eq(e.name.as_str(), "details") {
        return None;
    }
    proof {
        lemma_view_nodes(e.children@);
    }
    if e.children.len() == 0 {
        return None;
    }
    let se = match &e.children[0] {
        HtmlNode::Element(se) => se,
        HtmlNode::Text(_) => {
            return None;
        },
    };
    if !str_eq(se.name.as_str(), "summary") {
        return None;
    }
    proof {
        lemma_view_nodes(se.children@);
    }
    if se.children.len() == 0 {
        return None;
    }
    let name = match parse_srclink(&se.children[0]) {
        Some(name) => name,
        None => {
            return None;
        },
    };
    if e.children.len() < 2 {
        return None;
    }
    let db = match parse_doc_block(&e.children[1]) {
        Some(db) => db,
        None => {
            return None;
        },
    };
    Some(Item { name, info: ItemInfo::default(), description: Some(db.sections) })
}

/// Recognizes a `div.impl-items` member container and folds its children
/// into the member list.
pub fn parse_impl_items(node: &HtmlNode) -> (r: Option<Vec<Item>>)
    ensures
        r.deep_view() == spec_parse_impl_items(node.deep_view()),
{
    let e = match node {
        HtmlNode::Element(e) => e,
        HtmlNode::Text(_) => {
            return None;
        },
    };
    if !(str_eq(e.name.as_str(), "div") && e.has_class("impl-items")) {
        return None;
    }
    let ghost cs = view_nodes(e.children@);
    proof {
        lemma_view_nodes(e.children@);
        assert(cs.take(0) =~= Seq::<NodeV>::empty());
    }
    let mut items: Vec<Item> = Vec::new();
    let n: usize = e.children.len();
    let mut i: usize = 0;
    while i < n
        invariant
            n == e.children.len(),
            0 <= i <= n,
            cs == view_nodes(e.children@),
            cs.len() == n,
            forall|j: int| 0 <= j < n ==> cs[j] == view_node(e.children@[j]),
            items.deep_view() == spec_impl_items(cs.take(i as int)),
        decreases n - i,
    {
        let ghost pre_dv = items.deep_view();
        proof {
            assert(cs.take(i + 1).drop_last() =~= cs.take(i as int));
            assert(cs.take(i + 1).last() == cs[i as int]);
        }
        let child = &e.children[i];
        if let Some(name) = parse_item_heading(child) {
            let item = Item { name, info: ItemInfo::default(), description: None };
            let ghost itemv = item.deep_view();
            items.push(item);
            proof {
                assert(items.deep_view() =~= pre_dv.push(itemv));
            }
        } else if let Some(info) = parse_item_info(child) {
            if items.len() > 0 {
                let mut last = match items.pop() {
                    Some(last) => last,
                    None => {
                        proof {
                            assert(false);
                        }
                        Item { name: Vec::new(), info: ItemInfo::default(), description: None }
                    },
                };
                last.info = info;
                let ghost newv = last.deep_view();
                items.push(last);
                proof {
                    assert(items.deep_view() =~= pre_dv.update(pre_dv.len() - 1, newv));
                }
            }
        } else if let Some(db) = parse_doc_block(child) {
            if items.len() > 0 {
                let mut last = match items.pop() {
                    Some(last) => last,
                    None => {
                        proof {
                            assert(false);
                        }
                        Item { name: Vec::new(), info: ItemInfo::default(), description: None }
                    },
                };
                last.description = Some(db.sections);
                let ghost newv = last.deep_view();
                items.push(last);
                proof {
                    assert(items.deep_view() =~= pre_dv.update(pre_dv.len() - 1, newv));
                }
            }
        } else if let Some(name) = parse_srclink(child) {
            let item = Item { name, info: ItemInfo::default(), description: None };
            let ghost itemv = item.deep_view();
            items.push(item);
            proof {
                assert(items.deep_view() =~= pre_dv.push(itemv));
            }
        } else if let Some(item) = parse_toggle_item(child) {
            let ghost itemv = item.deep_view();
            items.push(item);
            proof {
                assert(items.deep_view() =~= pre_dv.push(itemv));
            }
        }
        i += 1;
    }
    proof {
        assert(cs.take(n as int) =~= cs);
    }
    Some(items)
}

/// Recognizes a collapsed `details.implementors-toggle` implementor.
pub fn parse_implementor(node: &HtmlNode) -> (r: Option<Impl>)
    ensures
        r.deep_view() == spec_parse_implementor(node.deep_view()),
{
    let e = match node {
        HtmlNode::Element(e) => e,
        HtmlNode::Text(_) => {
            return None;
        },
    };
    if !(str_eq(e.name.as_str(), "details") && e.has_class("implementors-toggle")) {
        return None;
    }
    proof {
        lemma_view_nodes(e.children@);
    }
    if e.children.len() == 0 {
        return None;
    }
    let se = match &e.children[0] {
        HtmlNode::Element(se) => se,
        HtmlNode::Text(_) => {
            return None;
        },
    };
    if !str_eq(se.name.as_str(), "summary") {
        return None;
    }
    proof {
        lemma_view_nodes(se.children@);
    }
    if se.children.len() == 0 {
        return None;
    }
    let target = match parse_srclink(&se.children[0]) {
        Some(target) => target,
        None => {
            return None;
        },
    };
    let items: Vec<Item> = if e.children.len() >= 2 {
        match parse_impl_items(&e.children[1]) {
            Some(items) => items,
            None => {
                let empty: Vec<Item> = Vec::new();
                proof {
                    assert(empty.deep_view() =~= Seq::<ItemV>::empty());
                }
                empty
            },
        }
    } else {
        let empty: Vec<Item> = Vec::new();
        proof {
            assert(empty.deep_view() =~= Seq::<ItemV>::empty());
        }
        empty
    };
    Some(Impl { target, items })
}

/// Recognizes an implementor toggle or an empty-impl placeholder.
pub fn parse_implementor_or_empty(node: &HtmlNode) -> (r: Option<Impl>)
    ensures
        r.deep_view() == spec_parse_implementor_or_empty(node.deep_view()),
{
    if let Some(imp) = parse_implementor(node) {
        Some(imp)
    } else {
        parse_empty_impl(node)
    }
}

/// Recognizes a bare `div` of strictly alternating impl headings and
/// member containers as one atomic impl group.
pub fn parse_impl_div(node: &HtmlNode) -> (r: Option<Vec<Impl>>)
    ensures
        r.deep_view() == spec_parse_impl_div(node.deep_view()),
{
    let e = match node {
        HtmlNode::Element(e) => e,
        HtmlNode::Text(_) => {
            return None;
        },
    };
    if !str_eq(e.name.as_str(), "div") {
        return None;
    }
    let ghost cs = view_nodes(e.children@);
    proof {
        lemma_view_nodes(e.children@);
        assert(cs.take(0) =~= Seq::<NodeV>::empty());
    }
    let mut impls: Vec<Impl> = Vec::new();
    let n: usize = e.children.len();
    let mut i: usize = 0;
    while i < n
        invariant
            n == e.children.len(),
            0 <= i <= n,
            cs == view_nodes(e.children@),
            cs.len() == n,
            forall|j: int| 0 <= j < n ==> cs[j] == view_node(e.children@[j]),
            spec_parse_impl_div(node.deep_view()) == spec_impl_div_fold(cs),
            spec_impl_div_fold(cs.take(i as int)) == Some(impls.deep_view()),
        decreases n - i,
    {
        let ghost pre_dv = impls.deep_view();
        proof {
            assert(cs.take(i + 1).drop_last() =~= cs.take(i as int));
            assert(cs.take(i + 1).last() == cs[i as int]);
        }
        let child = &e.children[i];
        if let Some(imp) = parse_empty_impl(child) {
            let ghost impv = imp.deep_view();
            impls.push(imp);
            proof {
                assert(impls.deep_view() =~= pre_dv.push(impv));
            }
        } else if let Some(heading) = parse_impl_heading(child) {
            let items: Vec<Item> = Vec::new();
            proof {
                assert(items.deep_view() =~= Seq::<ItemV>::empty());
            }
            let imp = Impl { target: heading.title, items };
            let ghost impv = imp.deep_view();
            impls.push(imp);
            proof {
                assert(impls.deep_view() =~= pre_dv.push(impv));
            }
        } else if let Some(items) = parse_impl_items(child) {
            if impls.len() > 0 {
                let mut last = match impls.pop() {
                    Some(last) => last,
                    None => {
                        proof {
                            assert(false);
                        }
                        Impl { target: Vec::new(), items: Vec::new() }
                    },
                };
                last.items = items;
                let ghost newv = last.deep_view();
                impls.push(last);
                proof {
                    assert(impls.deep_view() =~= pre_dv.update(pre_dv.len() - 1, newv));
                }
            }
        } else {
            proof {
                lemma_impl_div_fold_none(cs, i + 1);
            }
            return None;
        }
        i += 1;
    }
    proof {
        assert(cs.take(n as int) =~= cs);
    }
    Some(impls)
}

/// A failed prefix fails the whole impl-div fold.
proof fn lemma_impl_div_fold_none(s: Seq<NodeV>, i: int)
    requires
        0 <= i <= s.len(),
        spec_impl_div_fold(s.take(i)) is None,
    ensures
        spec_impl_div_fold(s) is None,
    decreases s.len() - i,
{
    if i == s.len() {
        assert(s.take(i) =~= s);
    } else {
        assert(s.take(i + 1).drop_last() =~= s.take(i));
        lemma_impl_div_fold_none(s, i + 1);
    }
}

} // verus!
