//! Text runs, paragraphs and disclosure widgets: the leaf-level recognizers.
//!
//! [`parse_text_outside`] and [`parse_text_inside`] flatten an inline DOM
//! subtree into an ordered stream of [`TextPart`] tokens; the other
//! recognizers build paragraphs and collapsible disclosure notes on top of
//! that stream.

use vstd::prelude::*;

use crate::dom::{
    attr_of, has_class, lemma_view_nodes, view_node, view_nodes, Element, HtmlNode, NodeV,
};

verus! {

/// A style marker: a link or one of the fixed emphasis styles.
#[derive(Debug, PartialEq, Eq)]
pub enum TextStyle {
    Link(Option<String>),
    Bold,
    Italic,
    Underline,
    Strikethrough,
    Monospaced,
}

/// One token of a flattened rich-text stream.
#[derive(Debug, PartialEq, Eq)]
pub enum TextPart {
    Text(String),
    BeginStyle(TextStyle),
    EndStyle,
}

/// A block-level construct: plain paragraph, list, or fenced code.
#[derive(Debug, PartialEq, Eq)]
pub enum Paragraph {
    Text(Vec<TextPart>),
    List(Vec<Vec<TextPart>>),
    Code(Vec<TextPart>),
}

/// A preformatted block's extracted code text.
#[derive(Debug, PartialEq, Eq)]
pub struct Pre {
    pub code: Vec<TextPart>,
}

/// A collapsible disclosure note: a summary line and, where the source
/// encodes an expandable widget, its detail text.
#[derive(Debug, PartialEq, Eq)]
pub struct Details {
    pub summary: Vec<TextPart>,
    pub detail: Option<Vec<TextPart>>,
}

/// Spec-level style marker.
pub enum TextStyleV {
    Link(Option<Seq<char>>),
    Bold,
    Italic,
    Underline,
    Strikethrough,
    Monospaced,
}

/// Spec-level text-stream token.
pub enum TextPartV {
    Text(Seq<char>),
    BeginStyle(TextStyleV),
    EndStyle,
}

impl DeepView for TextStyle {
    type V = TextStyleV;

    open spec fn deep_view(&self) -> TextStyleV {
        match self {
            TextStyle::Link(href) => TextStyleV::Link(href.deep_view()),
            TextStyle::Bold => TextStyleV::Bold,
            TextStyle::Italic => TextStyleV::Italic,
            TextStyle::Underline => TextStyleV::Underline,
            TextStyle::Strikethrough => TextStyleV::Strikethrough,
            TextStyle::Monospaced => TextStyleV::Monospaced,
        }
    }
}

impl DeepView for TextPart {
    type V = TextPartV;

    open spec fn deep_view(&self) -> TextPartV {
        match self {
            TextPart::Text(s) => TextPartV::Text(s@),
            TextPart::BeginStyle(st) => TextPartV::BeginStyle(st.deep_view()),
            TextPart::EndStyle => TextPartV::EndStyle,
        }
    }
}

/// Spec-level block construct.
pub enum ParagraphV {
    Text(Seq<TextPartV>),
    List(Seq<Seq<TextPartV>>),
    Code(Seq<TextPartV>),
}

/// Spec-level preformatted block.
pub struct PreV {
    pub code: Seq<TextPartV>,
}

/// Spec-level disclosure note.
pub struct DetailsV {
    pub summary: Seq<TextPartV>,
    pub detail: Option<Seq<TextPartV>>,
}

impl DeepView for Paragraph {
    type V = ParagraphV;

    open spec fn deep_view(&self) -> ParagraphV {
        match self {
            Paragraph::Text(parts) => ParagraphV::Text(parts.deep_view()),
            Paragraph::List(items) => ParagraphV::List(items.deep_view()),
            Paragraph::Code(parts) => ParagraphV::Code(parts.deep_view()),
        }
    }
}

impl DeepView for Pre {
    type V = PreV;

    open spec fn deep_view(&self) -> PreV {
        PreV { code: self.code.deep_view() }
    }
}

impl DeepView for Details {
    type V = DetailsV;

    open spec fn deep_view(&self) -> DetailsV {
        DetailsV { summary: self.summary.deep_view(), detail: self.detail.deep_view() }
    }
}

/// The emphasis style a tag name stands for, if any.
pub open spec fn style_of(name: Seq<char>) -> Option<TextStyleV> {
    if name == "strong"@ {
        Some(TextStyleV::Bold)
    } else if name == "em"@ {
        Some(TextStyleV::Italic)
    } else if name == "u"@ {
        Some(TextStyleV::Underline)
    } else if name == "del"@ {
        Some(TextStyleV::Strikethrough)
    } else if name == "code"@ {
        Some(TextStyleV::Monospaced)
    } else {
        None
    }
}

/// The text runs of a node, classifying the node itself first.
///
/// Text nodes are emitted verbatim; `a` and the emphasis tags wrap their
/// children's runs in begin/end markers; `br` and `span.fmt-newline` emit a
/// newline; plain `span` and `p` recurse transparently; every other node is
/// dropped.
pub open spec fn spec_text_outside(n: NodeV) -> Seq<TextPartV>
    decreases n,
{
    match n {
        NodeV::Text(s) => seq![TextPartV::Text(s)],
        NodeV::Element(e) => if e.name == "a"@ {
            seq![TextPartV::BeginStyle(TextStyleV::Link(attr_of(e, "href"@)))]
                + spec_text_inside(e.children) + seq![TextPartV::EndStyle]
        } else if style_of(e.name) is Some {
            seq![TextPartV::BeginStyle(style_of(e.name)->0)] + spec_text_inside(e.children)
                + seq![TextPartV::EndStyle]
        } else if e.name == "br"@ {
            seq![TextPartV::Text("\n"@)]
        } else if e.name == "span"@ {
            (if has_class(e, "fmt-newline"@) {
                seq![TextPartV::Text("\n"@)]
            } else {
                Seq::empty()
            }) + spec_text_inside(e.children)
        } else if e.name == "p"@ {
            spec_text_inside(e.children)
        } else {
            Seq::empty()
        },
    }
}

/// The concatenated text runs of a sequence of sibling nodes.
pub open spec fn spec_text_inside(s: Seq<NodeV>) -> Seq<TextPartV>
    decreases s,
{
    if s.len() == 0 {
        Seq::empty()
    } else {
        spec_text_outside(s[0]) + spec_text_inside(s.drop_first())
    }
}

/// The text runs of a node's children only.
pub open spec fn spec_text_inside_node(n: NodeV) -> Seq<TextPartV> {
    match n {
        NodeV::Text(_) => Seq::empty(),
        NodeV::Element(e) => spec_text_inside(e.children),
    }
}

/// Run extraction distributes over concatenation of sibling lists.
pub proof fn lemma_text_inside_concat(a: Seq<NodeV>, b: Seq<NodeV>)
    ensures
        spec_text_inside(a + b) == spec_text_inside(a) + spec_text_inside(b),
    decreases a.len(),
{
    if a.len() == 0 {
        assert(a + b =~= b);
        assert(spec_text_inside(a) + spec_text_inside(b) =~= spec_text_inside(b));
    } else {
        lemma_text_inside_concat(a.drop_first(), b);
        assert((a + b).drop_first() =~= a.drop_first() + b);
        assert(spec_text_outside(a[0]) + (spec_text_inside(a.drop_first()) + spec_text_inside(b))
            =~= (spec_text_outside(a[0]) + spec_text_inside(a.drop_first())) + spec_text_inside(
            b,
        ));
    }
}

/// Extending the processed prefix by one node appends that node's runs.
pub proof fn lemma_text_inside_take_step(s: Seq<NodeV>, i: int)
    requires
        0 <= i < s.len(),
    ensures
        spec_text_inside(s.take(i + 1)) == spec_text_inside(s.take(i)) + spec_text_outside(s[i]),
{
    assert(s.take(i + 1) =~= s.take(i) + seq![s[i]]);
    lemma_text_inside_concat(s.take(i), seq![s[i]]);
    assert(seq![s[i]].drop_first() =~= Seq::<NodeV>::empty());
    assert(spec_text_inside(seq![s[i]].drop_first()) =~= Seq::<TextPartV>::empty());
    assert(spec_text_inside(seq![s[i]]) =~= spec_text_outside(s[i]));
    assert(spec_text_inside(s.take(i)) + spec_text_outside(s[i]) =~= spec_text_inside(s.take(i))
        + spec_text_inside(seq![s[i]]));
}

/// The nesting contribution of one token: opens count +1, closes -1.
pub open spec fn part_depth(p: TextPartV) -> int {
    match p {
        TextPartV::Text(_) => 0,
        TextPartV::BeginStyle(_) => 1,
        TextPartV::EndStyle => -1,
    }
}

/// The net nesting depth of a token stream.
pub open spec fn net_depth(s: Seq<TextPartV>) -> int
    decreases s,
{
    if s.len() == 0 {
        0
    } else {
        part_depth(s[0]) + net_depth(s.drop_first())
    }
}

/// Whether begin/end style markers in the stream are well-nested: no prefix
/// closes more styles than it has opened, and the whole stream closes every
/// style it opens.
pub open spec fn balanced(s: Seq<TextPartV>) -> bool {
    net_depth(s) == 0 && forall|i: int| 0 <= i <= s.len() ==> net_depth(#[trigger] s.take(i)) >= 0
}

/// The net depth of a one-token stream is that token's contribution.
pub proof fn lemma_net_depth_single(p: TextPartV)
    ensures
        net_depth(seq![p]) == part_depth(p),
{
    assert(seq![p].drop_first() =~= Seq::<TextPartV>::empty());
    assert(net_depth(Seq::<TextPartV>::empty()) == 0);
    assert(net_depth(seq![p].drop_first()) == 0);
}

/// Net depth distributes over concatenation.
pub proof fn lemma_net_depth_concat(a: Seq<TextPartV>, b: Seq<TextPartV>)
    ensures
        net_depth(a + b) == net_depth(a) + net_depth(b),
    decreases a.len(),
{
    if a.len() == 0 {
        assert(a + b =~= b);
    } else {
        lemma_net_depth_concat(a.drop_first(), b);
        assert((a + b).drop_first() =~= a.drop_first() + b);
        assert((a + b)[0] == a[0]);
    }
}

/// A concatenation of balanced streams is balanced.
pub proof fn lemma_balanced_concat(a: Seq<TextPartV>, b: Seq<TextPartV>)
    requires
        balanced(a),
        balanced(b),
    ensures
        balanced(a + b),
{
    lemma_net_depth_concat(a, b);
    assert forall|i: int| 0 <= i <= (a + b).len() implies net_depth(#[trigger] (a + b).take(i))
        >= 0 by {
        if i <= a.len() {
            assert((a + b).take(i) =~= a.take(i));
        } else {
            assert((a + b).take(i) =~= a + b.take(i - a.len()));
            lemma_net_depth_concat(a, b.take(i - a.len()));
        }
    }
}

/// Wrapping a balanced stream in one begin/end marker pair keeps it balanced.
pub proof fn lemma_balanced_wrap(st: TextStyleV, m: Seq<TextPartV>)
    requires
        balanced(m),
    ensures
        balanced(seq![TextPartV::BeginStyle(st)] + m + seq![TextPartV::EndStyle]),
{
    let w = seq![TextPartV::BeginStyle(st)] + m + seq![TextPartV::EndStyle];
    lemma_net_depth_concat(seq![TextPartV::BeginStyle(st)] + m, seq![TextPartV::EndStyle]);
    lemma_net_depth_concat(seq![TextPartV::BeginStyle(st)], m);
    lemma_net_depth_single(TextPartV::BeginStyle(st));
    lemma_net_depth_single(TextPartV::EndStyle);
    assert(net_depth(w) == 0);
    assert forall|i: int| 0 <= i <= w.len() implies net_depth(#[trigger] w.take(i)) >= 0 by {
        if i == 0 {
            assert(w.take(0) =~= Seq::<TextPartV>::empty());
            assert(net_depth(Seq::<TextPartV>::empty()) == 0);
        } else if i <= m.len() + 1 {
            assert(w.take(i) =~= seq![TextPartV::BeginStyle(st)] + m.take(i - 1));
            lemma_net_depth_concat(seq![TextPartV::BeginStyle(st)], m.take(i - 1));
            lemma_net_depth_single(TextPartV::BeginStyle(st));
        } else {
            assert(w.take(i) =~= w);
        }
    }
}

/// A stream with no markers at all is balanced.
pub proof fn lemma_balanced_flat(s: Seq<TextPartV>)
    requires
        forall|i: int| 0 <= i < s.len() ==> part_depth(#[trigger] s[i]) == 0,
    ensures
        balanced(s),
    decreases s.len(),
{
    if s.len() == 0 {
        assert(net_depth(s) == 0);
    } else {
        assert(forall|i: int| 0 <= i < s.drop_first().len() ==> part_depth(
            #[trigger] s.drop_first()[i],
        ) == 0);
        lemma_balanced_flat(s.drop_first());
        assert(s =~= seq![s[0]] + s.drop_first());
        lemma_net_depth_concat(seq![s[0]], s.drop_first());
        assert(seq![s[0]].drop_first() =~= Seq::<TextPartV>::empty());
        assert forall|i: int| 0 <= i <= s.len() implies net_depth(#[trigger] s.take(i)) >= 0 by {
            if i == 0 {
                assert(s.take(0) =~= Seq::<TextPartV>::empty());
            } else {
                assert(s.take(i) =~= seq![s[0]] + s.drop_first().take(i - 1));
                lemma_net_depth_concat(seq![s[0]], s.drop_first().take(i - 1));
            }
        }
    }
}

/// The text runs extracted from any node are well-nested: begin and end
/// markers balance, closing in the reverse order of the tags that opened
/// them.
pub proof fn lemma_text_outside_balanced(n: NodeV)
    ensures
        balanced(spec_text_outside(n)),
    decreases n,
{
    match n {
        NodeV::Text(s) => {
            lemma_balanced_flat(seq![TextPartV::Text(s)]);
        },
        NodeV::Element(e) => {
            lemma_text_inside_balanced(e.children);
            let m = spec_text_inside(e.children);
            if e.name == "a"@ {
                lemma_balanced_wrap(TextStyleV::Link(attr_of(e, "href"@)), m);
            } else if style_of(e.name) is Some {
                lemma_balanced_wrap(style_of(e.name)->0, m);
            } else if e.name == "br"@ {
                lemma_balanced_flat(seq![TextPartV::Text("\n"@)]);
            } else if e.name == "span"@ {
                if has_class(e, "fmt-newline"@) {
                    lemma_balanced_flat(seq![TextPartV::Text("\n"@)]);
                    lemma_balanced_concat(seq![TextPartV::Text("\n"@)], m);
                } else {
                    lemma_balanced_flat(Seq::<TextPartV>::empty());
                    lemma_balanced_concat(Seq::<TextPartV>::empty(), m);
                }
            } else if e.name == "p"@ {
            } else {
                lemma_balanced_flat(Seq::<TextPartV>::empty());
            }
        },
    }
}

/// The concatenated runs of any sibling list are well-nested.
pub proof fn lemma_text_inside_balanced(s: Seq<NodeV>)
    ensures
        balanced(spec_text_inside(s)),
    decreases s,
{
    if s.len() == 0 {
        lemma_balanced_flat(Seq::<TextPartV>::empty());
    } else {
        lemma_text_outside_balanced(s[0]);
        lemma_text_inside_balanced(s.drop_first());
        lemma_balanced_concat(spec_text_outside(s[0]), spec_text_inside(s.drop_first()));
    }
}

fn push_part(buffer: &mut Vec<TextPart>, p: TextPart)
    ensures
        final(buffer).deep_view() == old(buffer).deep_view().push(p.deep_view()),
{
    let ghost pre = buffer.deep_view();
    let ghost pv = p.deep_view();
    buffer.push(p);
    proof {
        assert(buffer.deep_view() =~= pre.push(pv));
    }
}

/// The emphasis style a tag name stands for, if any.
fn tag_style(name: &str) -> (r: Option<TextStyle>)
    ensures
        r.deep_view() == style_of(name@),
{
    if crate::dom::str_eq(name, "strong") {
        Some(TextStyle::Bold)
    } else if crate::dom::str_eq(name, "em") {
        Some(TextStyle::Italic)
    } else if crate::dom::str_eq(name, "u") {
        Some(TextStyle::Underline)
    } else if crate::dom::str_eq(name, "del") {
        Some(TextStyle::Strikethrough)
    } else if crate::dom::str_eq(name, "code") {
        Some(TextStyle::Monospaced)
    } else {
        None
    }
}

/// The flattened text runs of the node, the node itself included.
pub fn parse_text_outside(node: &HtmlNode) -> (r: Vec<TextPart>)
    ensures
        r.deep_view() == spec_text_outside(node.deep_view()),
{
    let mut buffer: Vec<TextPart> = Vec::new();
    parse_text_outside_to(node, &mut buffer);
    proof {
        assert(buffer.deep_view() =~= spec_text_outside(node.deep_view()));
    }
    buffer
}

/// The flattened text runs of the node's children.
pub fn parse_text_inside(node: &HtmlNode) -> (r: Vec<TextPart>)
    ensures
        r.deep_view() == spec_text_inside_node(node.deep_view()),
{
    let mut buffer: Vec<TextPart> = Vec::new();
    parse_text_inside_to(node, &mut buffer);
    proof {
        assert(buffer.deep_view() =~= spec_text_inside_node(node.deep_view()));
    }
    buffer
}

/// Appends the text runs of the node's children to `buffer`.
pub fn parse_text_inside_to(node: &HtmlNode, buffer: &mut Vec<TextPart>)
    ensures
        final(buffer).deep_view() == old(buffer).deep_view() + spec_text_inside_node(node.deep_view()),
    decreases *node,
{
    match node {
        HtmlNode::Text(_) => {
            proof {
                assert(buffer.deep_view() =~= buffer.deep_view() + Seq::<TextPartV>::empty());
            }
        },
        HtmlNode::Element(e) => {
            proof {
                assert(decreases_to!(*node => node->Element_0));
                assert(decreases_to!(*e => e.children));
            }
            parse_children_to(&e.children, buffer);
        },
    }
}

fn parse_children_to(children: &Vec<HtmlNode>, buffer: &mut Vec<TextPart>)
    ensures
        final(buffer).deep_view() == old(buffer).deep_view() + spec_text_inside(view_nodes(children@)),
    decreases *children,
{
    let ghost cs = view_nodes(children@);
    proof {
        lemma_view_nodes(children@);
        assert(buffer.deep_view() =~= buffer.deep_view() + spec_text_inside(cs.take(0)));
    }
    let n: usize = children.len();
    let mut i: usize = 0;
    while i < n
        invariant
            n == children.len(),
            0 <= i <= n,
            cs == view_nodes(children@),
            cs.len() == n,
            forall|j: int| 0 <= j < n ==> cs[j] == view_node(children@[j]),
            buffer.deep_view() == old(buffer).deep_view() + spec_text_inside(cs.take(i as int)),
        decreases n - i,
    {
        proof {
            assert(decreases_to!(children@ => children@[i as int]));
        }
        parse_text_outside_to(&children[i], buffer);
        proof {
            lemma_text_inside_take_step(cs, i as int);
        }
        i += 1;
    }
    proof {
        assert(cs.take(n as int) =~= cs);
    }
}

fn parse_text_outside_to(node: &HtmlNode, buffer: &mut Vec<TextPart>)
    ensures
        final(buffer).deep_view() == old(buffer).deep_view() + spec_text_outside(node.deep_view()),
    decreases *node,
{
    let ghost pre = buffer.deep_view();
    let ghost nv = node.deep_view();
    match node {
        HtmlNode::Text(s) => {
            push_part(buffer, TextPart::Text(s.clone()));
            proof {
                assert(buffer.deep_view() =~= pre + spec_text_outside(nv));
            }
        },
        HtmlNode::Element(e) => {
            proof {
                assert(decreases_to!(*node => node->Element_0));
                assert(decreases_to!(*e => e.children));
            }
            let ghost ev = nv->Element_0;
            if crate::dom::str_eq(e.name.as_str(), "a") {
                let href: Option<String> = match e.attr("href") {
                    Some(v) => Some(v.clone()),
                    None => None,
                };
                push_part(buffer, TextPart::BeginStyle(TextStyle::Link(href)));
                parse_children_to(&e.children, buffer);
                push_part(buffer, TextPart::EndStyle);
                proof {
                    assert(buffer.deep_view() =~= pre + spec_text_outside(nv));
                }
            } else {
                let st = tag_style(e.name.as_str());
                match st {
                    Some(style) => {
                        push_part(buffer, TextPart::BeginStyle(style));
                        parse_children_to(&e.children, buffer);
                        push_part(buffer, TextPart::EndStyle);
                        proof {
                            assert(buffer.deep_view() =~= pre + spec_text_outside(nv));
                        }
                    },
                    None => {
                        if crate::dom::str_eq(e.name.as_str(), "br") {
                            push_part(buffer, TextPart::Text("\n".to_owned()));
                            proof {
                                assert(buffer.deep_view() =~= pre + spec_text_outside(nv));
                            }
                        } else if crate::dom::str_eq(e.name.as_str(), "span") {
                            if e.has_class("fmt-newline") {
                                push_part(buffer, TextPart::Text("\n".to_owned()));
                            }
                            parse_children_to(&e.children, buffer);
                            proof {
                                assert(buffer.deep_view() =~= pre + spec_text_outside(nv));
                            }
                        } else if crate::dom::str_eq(e.name.as_str(), "p") {
                            parse_children_to(&e.children, buffer);
                        } else {
                            proof {
                                assert(buffer.deep_view() =~= pre + spec_text_outside(nv));
                            }
                        }
                    },
                }
            }
        },
    }
}

/// The text block of a `p` element, or a declination.
pub open spec fn spec_parse_p(n: NodeV) -> Option<Seq<TextPartV>> {
    match n {
        NodeV::Element(e) => if e.name == "p"@ {
            Some(spec_text_inside(e.children))
        } else {
            None
        },
        NodeV::Text(_) => None,
    }
}

/// The per-item text runs of a list's `li` children; other children are
/// skipped.
pub open spec fn spec_list_items(s: Seq<NodeV>) -> Seq<Seq<TextPartV>>
    decreases s,
{
    if s.len() == 0 {
        Seq::empty()
    } else {
        (match s[0] {
            NodeV::Element(li) => if li.name == "li"@ {
                seq![spec_text_inside(li.children)]
            } else {
                Seq::empty()
            },
            NodeV::Text(_) => Seq::empty(),
        }) + spec_list_items(s.drop_first())
    }
}

/// The items of a `ul`/`ol` element, or a declination.
pub open spec fn spec_parse_list(n: NodeV) -> Option<Seq<Seq<TextPartV>>> {
    match n {
        NodeV::Element(e) => if e.name == "ul"@ || e.name == "ol"@ {
            Some(spec_list_items(e.children))
        } else {
            None
        },
        NodeV::Text(_) => None,
    }
}

/// The code text of a `pre` element, or a declination.
pub open spec fn spec_parse_pre(n: NodeV) -> Option<PreV> {
    match n {
        NodeV::Element(e) => if e.name == "pre"@ {
            Some(PreV { code: spec_text_inside(e.children) })
        } else {
            None
        },
        NodeV::Text(_) => None,
    }
}

/// The code of the first `pre` among the nodes, if any.
pub open spec fn spec_first_pre(s: Seq<NodeV>) -> Option<Seq<TextPartV>>
    decreases s,
{
    if s.len() == 0 {
        None
    } else {
        match spec_parse_pre(s[0]) {
            Some(p) => Some(p.code),
            None => spec_first_pre(s.drop_first()),
        }
    }
}

/// The code block of a `div.example-wrap` element: the inside of its first
/// `pre` child. Declines without one.
pub open spec fn spec_parse_code(n: NodeV) -> Option<Seq<TextPartV>> {
    match n {
        NodeV::Element(e) => if e.name == "div"@ && has_class(e, "example-wrap"@) {
            spec_first_pre(e.children)
        } else {
            None
        },
        NodeV::Text(_) => None,
    }
}

/// The summary/detail pair of a `details` element whose first child is a
/// `summary`: the summary's inside text, and the concatenated runs of every
/// later child as the detail.
pub open spec fn spec_parse_details(n: NodeV) -> Option<DetailsV> {
    match n {
        NodeV::Element(e) => if e.name == "details"@ && e.children.len() > 0 {
            match e.children[0] {
                NodeV::Element(se) => if se.name == "summary"@ {
                    Some(
                        DetailsV {
                            summary: spec_text_inside(se.children),
                            detail: Some(spec_text_inside(e.children.drop_first())),
                        },
                    )
                } else {
                    None
                },
                NodeV::Text(_) => None,
            }
        } else {
            None
        },
        NodeV::Text(_) => None,
    }
}

/// The disclosure carried by an element of the given class: its first child
/// as a summary/detail widget, or, failing that, its flat inside text as a
/// summary with no detail.
pub open spec fn spec_parse_disclosure(n: NodeV, class: Seq<char>) -> Option<DetailsV> {
    match n {
        NodeV::Element(e) => if has_class(e, class) {
            if e.children.len() > 0 && spec_parse_details(e.children[0]) is Some {
                spec_parse_details(e.children[0])
            } else {
                Some(DetailsV { summary: spec_text_inside(e.children), detail: None })
            }
        } else {
            None
        },
        NodeV::Text(_) => None,
    }
}

/// Recognizes a `p` element as a text block.
pub fn parse_p(node: &HtmlNode) -> (r: Option<Vec<TextPart>>)
    ensures
        r.deep_view() == spec_parse_p(node.deep_view()),
{
    match node {
        HtmlNode::Element(e) => {
            if crate::dom::str_eq(e.name.as_str(), "p") {
                Some(parse_text_inside(node))
            } else {
                None
            }
        },
        HtmlNode::Text(_) => None,
    }
}

/// Recognizes a `ul`/`ol` element as a list block, skipping non-`li`
/// children.
pub fn parse_list(node: &HtmlNode) -> (r: Option<Vec<Vec<TextPart>>>)
    ensures
        r.deep_view() == spec_parse_list(node.deep_view()),
{
    let e = match node {
        HtmlNode::Element(e) => e,
        HtmlNode::Text(_) => {
            return None;
        },
    };
    if !(crate::dom::str_eq(e.name.as_str(), "ul") || crate::dom::str_eq(e.name.as_str(), "ol")) {
        return None;
    }
    let ghost cs = view_nodes(e.children@);
    proof {
        lemma_view_nodes(e.children@);
    }
    let mut list: Vec<Vec<TextPart>> = Vec::new();
    let n: usize = e.children.len();
    let mut i: usize = 0;
    proof {
        assert(cs.take(0) =~= Seq::<NodeV>::empty());
    }
    while i < n
        invariant
            n == e.children.len(),
            0 <= i <= n,
            cs == view_nodes(e.children@),
            cs.len() == n,
            forall|j: int| 0 <= j < n ==> cs[j] == view_node(e.children@[j]),
            list.deep_view() == spec_list_items(cs.take(i as int)),
        decreases n - i,
    {
        let ghost pre_list = list.deep_view();
        let child = &e.children[i];
        match child {
            HtmlNode::Element(li) => {
                if crate::dom::str_eq(li.name.as_str(), "li") {
                    let item = parse_text_inside(child);
                    let ghost itemv = item.deep_view();
                    list.push(item);
                    proof {
                        assert(list.deep_view() =~= pre_list.push(itemv));
                    }
                }
            },
            HtmlNode::Text(_) => {},
        }
        proof {
            lemma_list_items_take_step(cs, i as int);
        }
        i += 1;
    }
    proof {
        assert(cs.take(n as int) =~= cs);
    }
    Some(list)
}

/// Extending the processed prefix by one node appends that node's list item,
/// if it is one.
proof fn lemma_list_items_take_step(s: Seq<NodeV>, i: int)
    requires
        0 <= i < s.len(),
    ensures
        spec_list_items(s.take(i + 1)) == spec_list_items(s.take(i)) + (match s[i] {
            NodeV::Element(li) => if li.name == "li"@ {
                seq![spec_text_inside(li.children)]
            } else {
                Seq::<Seq<TextPartV>>::empty()
            },
            NodeV::Text(_) => Seq::<Seq<TextPartV>>::empty(),
        }),
{
    lemma_list_items_concat(s.take(i), seq![s[i]]);
    assert(s.take(i + 1) =~= s.take(i) + seq![s[i]]);
    assert(seq![s[i]].drop_first() =~= Seq::<NodeV>::empty());
    assert(spec_list_items(seq![s[i]].drop_first()) =~= Seq::<Seq<TextPartV>>::empty());
    assert(spec_list_items(seq![s[i]]) + Seq::<Seq<TextPartV>>::empty() =~= spec_list_items(
        seq![s[i]],
    ));
}

/// List-item extraction distributes over concatenation.
proof fn lemma_list_items_concat(a: Seq<NodeV>, b: Seq<NodeV>)
    ensures
        spec_list_items(a + b) == spec_list_items(a) + spec_list_items(b),
    decreases a.len(),
{
    if a.len() == 0 {
        assert(a + b =~= b);
        assert(spec_list_items(a) + spec_list_items(b) =~= spec_list_items(b));
    } else {
        lemma_list_items_concat(a.drop_first(), b);
        assert((a + b).drop_first() =~= a.drop_first() + b);
        assert((a + b)[0] == a[0]);
        let h = match a[0] {
            NodeV::Element(li) => if li.name == "li"@ {
                seq![spec_text_inside(li.children)]
            } else {
                Seq::<Seq<TextPartV>>::empty()
            },
            NodeV::Text(_) => Seq::<Seq<TextPartV>>::empty(),
        };
        assert(h + (spec_list_items(a.drop_first()) + spec_list_items(b)) =~= (h
            + spec_list_items(a.drop_first())) + spec_list_items(b));
    }
}

/// Recognizes a `pre` element as a preformatted block.
pub fn parse_pre(node: &HtmlNode) -> (r: Option<Pre>)
    ensures
        r.deep_view() == spec_parse_pre(node.deep_view()),
{
    match node {
        HtmlNode::Element(e) => {
            if crate::dom::str_eq(e.name.as_str(), "pre") {
                Some(Pre { code: parse_text_inside(node) })
            } else {
                None
            }
        },
        HtmlNode::Text(_) => None,
    }
}

/// Recognizes a `div.example-wrap` element as a fenced code block.
pub fn parse_code(node: &HtmlNode) -> (r: Option<Vec<TextPart>>)
    ensures
        r.deep_view() == spec_parse_code(node.deep_view()),
{
    let e = match node {
        HtmlNode::Element(e) => e,
        HtmlNode::Text(_) => {
            return None;
        },
    };
    if !(crate::dom::str_eq(e.name.as_str(), "div") && e.has_class("example-wrap")) {
        return None;
    }
    let ghost cs = view_nodes(e.children@);
    proof {
        lemma_view_nodes(e.children@);
        assert(cs.skip(0) =~= cs);
    }
    let n: usize = e.children.len();
    let mut i: usize = 0;
    while i < n
        invariant
            n == e.children.len(),
            0 <= i <= n,
            cs == view_nodes(e.children@),
            cs.len() == n,
            forall|j: int| 0 <= j < n ==> cs[j] == view_node(e.children@[j]),
            node.deep_view() == NodeV::Element(e.deep_view()),
            e.deep_view().children == cs,
            e.deep_view().name == "div"@,
            has_class(e.deep_view(), "example-wrap"@),
            spec_first_pre(cs) == spec_first_pre(cs.skip(i as int)),
        decreases n - i,
    {
        proof {
            assert(cs.skip(i as int)[0] == cs[i as int]);
            assert(cs.skip(i as int).drop_first() =~= cs.skip(i + 1));
        }
        if let Some(code) = parse_pre(&e.children[i]) {
            proof {
                assert(spec_first_pre(cs.skip(i as int)) is Some);
            }
            return Some(code.code);
        }
        i += 1;
    }
    proof {
        assert(cs.skip(n as int) =~= Seq::<NodeV>::empty());
    }
    None
}

/// Recognizes a `details` element with a leading `summary` child.
fn parse_details(node: &HtmlNode) -> (r: Option<Details>)
    ensures
        r.deep_view() == spec_parse_details(node.deep_view()),
{
    let e = match node {
        HtmlNode::Element(e) => e,
        HtmlNode::Text(_) => {
            return None;
        },
    };
    if !str_eq_name(e, "details") {
        return None;
    }
    if e.children.len() == 0 {
        return None;
    }
    let ghost cs = view_nodes(e.children@);
    proof {
        lemma_view_nodes(e.children@);
    }
    let first = &e.children[0];
    let se = match first {
        HtmlNode::Element(se) => se,
        HtmlNode::Text(_) => {
            return None;
        },
    };
    if !str_eq_name(se, "summary") {
        return None;
    }
    let summary = parse_text_inside(first);
    let mut detail: Vec<TextPart> = Vec::new();
    let n: usize = e.children.len();
    let mut i: usize = 1;
    proof {
        assert(cs.drop_first().take(0) =~= Seq::<NodeV>::empty());
    }
    while i < n
        invariant
            n == e.children.len(),
            1 <= i <= n,
            cs == view_nodes(e.children@),
            cs.len() == n,
            forall|j: int| 0 <= j < n ==> cs[j] == view_node(e.children@[j]),
            detail.deep_view() == spec_text_inside(cs.drop_first().take(i - 1)),
        decreases n - i,
    {
        parse_text_outside_to(&e.children[i], &mut detail);
        proof {
            lemma_text_inside_take_step(cs.drop_first(), i - 1);
            assert(cs.drop_first()[i - 1] == cs[i as int]);
        }
        i += 1;
    }
    proof {
        assert(cs.drop_first().take(n - 1) =~= cs.drop_first());
    }
    Some(Details { summary, detail: Some(detail) })
}

/// Name comparison against a tag literal.
fn str_eq_name(e: &Element, name: &str) -> (r: bool)
    ensures
        r == (e.name@ == name@),
{
    crate::dom::str_eq(e.name.as_str(), name)
}

/// Recognizes an element of the given class as a disclosure widget.
fn parse_disclosure(node: &HtmlNode, class: &str) -> (r: Option<Details>)
    ensures
        r.deep_view() == spec_parse_disclosure(node.deep_view(), class@),
{
    let e = match node {
        HtmlNode::Element(e) => e,
        HtmlNode::Text(_) => {
            return None;
        },
    };
    if !e.has_class(class) {
        return None;
    }
    proof {
        lemma_view_nodes(e.children@);
    }
    if e.children.len() > 0 {
        if let Some(d) = parse_details(&e.children[0]) {
            return Some(d);
        }
    }
    Some(Details { summary: parse_text_inside(node), detail: None })
}

/// Recognizes a stability disclosure: an element of class `unstable`.
pub fn parse_unstable(node: &HtmlNode) -> (r: Option<Details>)
    ensures
        r.deep_view() == spec_parse_disclosure(node.deep_view(), "unstable"@),
{
    parse_disclosure(node, "unstable")
}

/// Recognizes a portability disclosure: an element of class `portability`.
pub fn parse_portability(node: &HtmlNode) -> (r: Option<Details>)
    ensures
        r.deep_view() == spec_parse_disclosure(node.deep_view(), "portability"@),
{
    parse_disclosure(node, "portability")
}

/// Recognizes a deprecation disclosure: an element of class `deprecated`.
pub fn parse_deprecated(node: &HtmlNode) -> (r: Option<Details>)
    ensures
        r.deep_view() == spec_parse_disclosure(node.deep_view(), "deprecated"@),
{
    parse_disclosure(node, "deprecated")
}

/// The first disclosure of the given class among the nodes, if any.
pub open spec fn spec_first_disclosure(s: Seq<NodeV>, class: Seq<char>) -> Option<DetailsV>
    decreases s,
{
    if s.len() == 0 {
        None
    } else {
        match spec_parse_disclosure(s[0], class) {
            Some(d) => Some(d),
            None => spec_first_disclosure(s.drop_first(), class),
        }
    }
}

/// Scans the children from `start` on for the first disclosure of each
/// category, first match per category winning.
pub(crate) fn scan_disclosures(children: &Vec<HtmlNode>, start: usize) -> (r: (
    Option<Details>,
    Option<Details>,
    Option<Details>,
))
    requires
        start <= children@.len(),
    ensures
        r.0.deep_view() == spec_first_disclosure(
            view_nodes(children@).skip(start as int),
            "unstable"@,
        ),
        r.1.deep_view() == spec_first_disclosure(
            view_nodes(children@).skip(start as int),
            "portability"@,
        ),
        r.2.deep_view() == spec_first_disclosure(
            view_nodes(children@).skip(start as int),
            "deprecated"@,
        ),
{
    let ghost cs = view_nodes(children@);
    let ghost ds = cs.skip(start as int);
    proof {
        lemma_view_nodes(children@);
        assert(ds.skip(0) =~= ds);
    }
    let mut stability: Option<Details> = None;
    let mut portability: Option<Details> = None;
    let mut deprecation: Option<Details> = None;
    let n: usize = children.len();
    let mut i: usize = start;
    while i < n
        invariant
            n == children.len(),
            start <= i <= n,
            cs == view_nodes(children@),
            cs.len() == n,
            forall|j: int| 0 <= j < n ==> cs[j] == view_node(children@[j]),
            ds == cs.skip(start as int),
            stability is None ==> spec_first_disclosure(ds, "unstable"@) == spec_first_disclosure(
                cs.skip(i as int),
                "unstable"@,
            ),
            stability matches Some(d) ==> spec_first_disclosure(ds, "unstable"@) == Some(
                d.deep_view(),
            ),
            portability is None ==> spec_first_disclosure(ds, "portability"@)
                == spec_first_disclosure(cs.skip(i as int), "portability"@),
            portability matches Some(d) ==> spec_first_disclosure(ds, "portability"@) == Some(
                d.deep_view(),
            ),
            deprecation is None ==> spec_first_disclosure(ds, "deprecated"@)
                == spec_first_disclosure(cs.skip(i as int), "deprecated"@),
            deprecation matches Some(d) ==> spec_first_disclosure(ds, "deprecated"@) == Some(
                d.deep_view(),
            ),
        decreases n - i,
    {
        proof {
            assert(cs.skip(i as int)[0] == cs[i as int]);
            assert(cs.skip(i as int).drop_first() =~= cs.skip(i + 1));
        }
        let child = &children[i];
        if stability.is_none() {
            if let Some(d) = parse_unstable(child) {
                stability = Some(d);
            }
        }
        if portability.is_none() {
            if let Some(d) = parse_portability(child) {
                portability = Some(d);
            }
        }
        if deprecation.is_none() {
            if let Some(d) = parse_deprecated(child) {
                deprecation = Some(d);
            }
        }
        i += 1;
    }
    proof {
        assert(cs.skip(n as int) =~= Seq::<NodeV>::empty());
    }
    (stability, portability, deprecation)
}

} // verus!
