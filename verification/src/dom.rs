//! The document-object model the recognizers work on.
//!
//! A page is handed to the library as a tree of [`HtmlNode`] values: plain
//! text nodes and elements with a tag name, class list, attribute list and
//! ordered children. The spec-level mirror of the tree is [`NodeV`].

use vstd::prelude::*;

verus! {

/// One attribute of an element: a name and a value.
pub struct Attr {
    pub name: String,
    pub value: String,
}

/// An element: tag name, classes, attributes and ordered children.
pub struct Element {
    pub name: String,
    pub classes: Vec<String>,
    pub attrs: Vec<Attr>,
    pub children: Vec<HtmlNode>,
}

/// A DOM node: a text run or an element.
pub enum HtmlNode {
    Text(String),
    Element(Element),
}

/// Spec-level attribute.
pub struct AttrV {
    pub name: Seq<char>,
    pub value: Seq<char>,
}

/// Spec-level element.
pub struct ElementV {
    pub name: Seq<char>,
    pub classes: Seq<Seq<char>>,
    pub attrs: Seq<AttrV>,
    pub children: Seq<NodeV>,
}

/// Spec-level DOM node.
pub enum NodeV {
    Text(Seq<char>),
    Element(ElementV),
}

impl DeepView for Attr {
    type V = AttrV;

    open spec fn deep_view(&self) -> AttrV {
        AttrV { name: self.name@, value: self.value@ }
    }
}

pub open spec fn view_node(n: HtmlNode) -> NodeV
    decreases n,
{
    match n {
        HtmlNode::Text(s) => NodeV::Text(s@),
        HtmlNode::Element(e) => NodeV::Element(
            ElementV {
                name: e.name@,
                classes: Seq::new(e.classes@.len(), |i: int| e.classes@[i]@),
                attrs: Seq::new(e.attrs@.len(), |i: int| e.attrs@[i].deep_view()),
                children: view_nodes(e.children@),
            },
        ),
    }
}

pub open spec fn view_nodes(s: Seq<HtmlNode>) -> Seq<NodeV>
    decreases s,
{
    if s.len() == 0 {
        Seq::empty()
    } else {
        seq![view_node(s[0])] + view_nodes(s.drop_first())
    }
}

impl DeepView for HtmlNode {
    type V = NodeV;

    open spec fn deep_view(&self) -> NodeV {
        view_node(*self)
    }
}

impl DeepView for Element {
    type V = ElementV;

    open spec fn deep_view(&self) -> ElementV {
        view_node(HtmlNode::Element(*self))->Element_0
    }
}

/// `view_nodes` maps `view_node` over the sequence, element by element.
pub broadcast proof fn lemma_view_nodes(s: Seq<HtmlNode>)
    ensures
        (#[trigger] view_nodes(s)).len() == s.len(),
        forall|i: int| 0 <= i < s.len() ==> view_nodes(s)[i] == view_node(s[i]),
    decreases s.len(),
{
    if s.len() > 0 {
        lemma_view_nodes(s.drop_first());
    }
}

/// Whether the spec element carries the given class, case-sensitively.
pub open spec fn has_class(e: ElementV, c: Seq<char>) -> bool {
    exists|i: int| 0 <= i < e.classes.len() && e.classes[i] == c
}

/// The value of the first attribute with the given name, if any.
pub open spec fn attr_in(attrs: Seq<AttrV>, name: Seq<char>) -> Option<Seq<char>>
    decreases attrs.len(),
{
    if attrs.len() == 0 {
        None
    } else if attrs[0].name == name {
        Some(attrs[0].value)
    } else {
        attr_in(attrs.drop_first(), name)
    }
}

/// The value of the element's first attribute with the given name, if any.
pub open spec fn attr_of(e: ElementV, name: Seq<char>) -> Option<Seq<char>> {
    attr_in(e.attrs, name)
}

/// String slice equality, decided character by character.
pub fn str_eq(a: &str, b: &str) -> (r: bool)
    ensures
        r == (a@ == b@),
{
    let a_len: usize = a.unicode_len();
    let b_len: usize = b.unicode_len();
    if a_len != b_len {
        assert(a@ != b@) by {
            assert(a@.len() != b@.len());
        }
        return false;
    }
    let mut i: usize = 0;
    while i < a_len
        invariant
            a_len == a@.len(),
            b_len == b@.len(),
            a_len == b_len,
            0 <= i <= a_len,
            forall|j: int| 0 <= j < i ==> a@[j] == b@[j],
        decreases a_len - i,
    {
        if a.get_char(i) != b.get_char(i) {
            return false;
        }
        i += 1;
    }
    proof {
        assert(a@ =~= b@);
    }
    true
}

/// The first text node of the subtree, in depth-first order, if any.
pub open spec fn spec_first_text(n: NodeV) -> Option<Seq<char>>
    decreases n,
{
    match n {
        NodeV::Text(s) => Some(s),
        NodeV::Element(e) => spec_first_text_in(e.children),
    }
}

/// The first text node under any of the nodes, in depth-first order.
pub open spec fn spec_first_text_in(s: Seq<NodeV>) -> Option<Seq<char>>
    decreases s,
{
    if s.len() == 0 {
        None
    } else {
        match spec_first_text(s[0]) {
            Some(t) => Some(t),
            None => spec_first_text_in(s.drop_first()),
        }
    }
}

/// The first element of the subtree, in depth-first preorder, whose `id`
/// attribute equals `id`, if any.
pub open spec fn spec_find_by_id(n: NodeV, id: Seq<char>) -> Option<ElementV>
    decreases n,
{
    match n {
        NodeV::Text(_) => None,
        NodeV::Element(e) => if attr_of(e, "id"@) == Some(id) {
            Some(e)
        } else {
            spec_find_by_id_in(e.children, id)
        },
    }
}

/// The first element with the given id under any of the nodes, in order.
pub open spec fn spec_find_by_id_in(s: Seq<NodeV>, id: Seq<char>) -> Option<ElementV>
    decreases s,
{
    if s.len() == 0 {
        None
    } else {
        match spec_find_by_id(s[0], id) {
            Some(e) => Some(e),
            None => spec_find_by_id_in(s.drop_first(), id),
        }
    }
}

/// The first text node of the subtree, in depth-first order.
pub fn first_text(node: &HtmlNode) -> (r: Option<&String>)
    ensures
        r.deep_view() == spec_first_text(node.deep_view()),
    decreases *node,
{
    match node {
        HtmlNode::Text(s) => Some(s),
        HtmlNode::Element(e) => {
            proof {
                assert(view_nodes(e.children@).skip(0) =~= view_nodes(e.children@));
            }
            let n: usize = e.children.len();
            let mut i: usize = 0;
            while i < n
                invariant
                    n == e.children.len(),
                    0 <= i <= n,
                    node is Element && node->Element_0 == *e,
                    spec_first_text_in(view_nodes(e.children@)) == spec_first_text_in(
                        view_nodes(e.children@).skip(i as int),
                    ),
                decreases n - i,
            {
                proof {
                    lemma_view_nodes(e.children@);
                    assert(decreases_to!(*node => node->Element_0));
                    assert(decreases_to!(*e => e.children));
                    assert(decreases_to!(e.children@ => e.children@[i as int]));
                }
                let r = first_text(&e.children[i]);
                if r.is_some() {
                    proof {
                        let cs = view_nodes(e.children@);
                        assert(cs.skip(i as int)[0] == cs[i as int]);
                    }
                    return r;
                }
                proof {
                    let cs = view_nodes(e.children@);
                    assert(cs.skip(i as int).drop_first() =~= cs.skip(i + 1));
                    assert(cs.skip(i as int)[0] == cs[i as int]);
                }
                i += 1;
            }
            proof {
                lemma_view_nodes(e.children@);
                assert(view_nodes(e.children@).skip(n as int) =~= Seq::<NodeV>::empty());
            }
            None
        },
    }
}

/// The first element of the subtree, in depth-first preorder, whose `id`
/// attribute equals `id`.
pub fn find_by_id<'a>(node: &'a HtmlNode, id: &str) -> (r: Option<&'a Element>)
    ensures
        match r {
            Some(e) => spec_find_by_id(node.deep_view(), id@) == Some(e.deep_view()),
            None => spec_find_by_id(node.deep_view(), id@) is None,
        },
    decreases *node,
{
    let e = match node {
        HtmlNode::Text(_) => {
            return None;
        },
        HtmlNode::Element(e) => e,
    };
    let id_matches = match e.attr("id") {
        Some(v) => str_eq(v.as_str(), id),
        None => false,
    };
    if id_matches {
        return Some(e);
    }
    proof {
        assert(view_nodes(e.children@).skip(0) =~= view_nodes(e.children@));
    }
    let n: usize = e.children.len();
    let mut i: usize = 0;
    while i < n
        invariant
            n == e.children.len(),
            0 <= i <= n,
            node is Element && node->Element_0 == *e,
            node.deep_view() == NodeV::Element(e.deep_view()),
            attr_of(e.deep_view(), "id"@) != Some(id@),
            e.deep_view().children == view_nodes(e.children@),
            spec_find_by_id_in(view_nodes(e.children@), id@) == spec_find_by_id_in(
                view_nodes(e.children@).skip(i as int),
                id@,
            ),
        decreases n - i,
    {
        proof {
            lemma_view_nodes(e.children@);
            assert(decreases_to!(*node => node->Element_0));
            assert(decreases_to!(*e => e.children));
            assert(decreases_to!(e.children@ => e.children@[i as int]));
            let cs = view_nodes(e.children@);
            assert(cs.skip(i as int)[0] == cs[i as int]);
            assert(cs.skip(i as int).drop_first() =~= cs.skip(i + 1));
        }
        let r = find_by_id(&e.children[i], id);
        if r.is_some() {
            return r;
        }
        i += 1;
    }
    proof {
        lemma_view_nodes(e.children@);
        assert(view_nodes(e.children@).skip(n as int) =~= Seq::<NodeV>::empty());
    }
    None
}

impl Element {
    /// Whether the element carries the given class, case-sensitively.
    pub fn has_class(&self, c: &str) -> (r: bool)
        ensures
            r == has_class(self.deep_view(), c@),
    {
        let mut i: usize = 0;
        let n: usize = self.classes.len();
        while i < n
            invariant
                n == self.classes.len(),
                0 <= i <= n,
                forall|j: int| 0 <= j < i ==> self.classes@[j]@ != c@,
            decreases n - i,
        {
            if str_eq(self.classes[i].as_str(), c) {
                assert(self.deep_view().classes[i as int] == c@);
                return true;
            }
            i += 1;
        }
        false
    }

    /// The value of the first attribute with the given name, if any.
    pub fn attr(&self, name: &str) -> (r: Option<&String>)
        ensures
            r.deep_view() == attr_of(self.deep_view(), name@),
    {
        proof {
            assert(self.deep_view().attrs.skip(0) =~= self.deep_view().attrs);
        }
        let n: usize = self.attrs.len();
        let mut i: usize = 0;
        while i < n
            invariant
                n == self.attrs.len(),
                0 <= i <= n,
                attr_in(self.deep_view().attrs, name@) == attr_in(
                    self.deep_view().attrs.skip(i as int),
                    name@,
                ),
            decreases n - i,
        {
            let ghost attrs = self.deep_view().attrs;
            proof {
                assert(attrs.skip(i as int)[0] == attrs[i as int]);
                assert(attrs.skip(i as int).drop_first() =~= attrs.skip(i + 1));
            }
            if str_eq(self.attrs[i].name.as_str(), name) {
                return Some(&self.attrs[i].value);
            }
            i += 1;
        }
        proof {
            assert(self.deep_view().attrs.skip(n as int) =~= Seq::<AttrV>::empty());
        }
        None
    }
}

} // verus!
