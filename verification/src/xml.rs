//! A plain element-tree model of an XML document.
//!
//! The decoder works on this tree, never on the raw text: the text is turned
//! into a tree once, by an outside XML parser behind a trusted wrapper, and
//! everything after that point is verified.
//!
//! The model keeps, for each element: its local name (namespace prefixes are
//! stripped), its attributes in document order, its element children in
//! document order, and the concatenation of its text and CDATA children.
//! Comments and processing instructions are not part of the model.

use vstd::prelude::*;

verus! {

/// One XML element: local name, attributes in document order, element
/// children in document order, and the concatenated text content.
pub struct XmlElem {
    pub name: String,
    pub attrs: Vec<(String, String)>,
    pub children: Vec<XmlElem>,
    pub text: String,
}

/// Mathematical model of an [`XmlElem`].
pub struct XmlElemView {
    pub name: Seq<char>,
    pub attrs: Seq<(Seq<char>, Seq<char>)>,
    pub children: Seq<XmlElemView>,
    pub text: Seq<char>,
}

/// Model of one element, defined recursively over its children.
pub open spec fn elem_view(e: XmlElem) -> XmlElemView
    decreases e,
    via elem_view_decreases
{
    XmlElemView {
        name: e.name@,
        attrs: Seq::new(e.attrs@.len(), |i: int| (e.attrs@[i].0@, e.attrs@[i].1@)),
        children: elems_view(e.children@),
        text: e.text@,
    }
}

/// Models of a sequence of elements, in order.
pub open spec fn elems_view(s: Seq<XmlElem>) -> Seq<XmlElemView>
    decreases s,
    via elems_view_decreases
{
    if s.len() == 0 {
        Seq::empty()
    } else {
        elems_view(s.drop_last()).push(elem_view(s.last()))
    }
}

#[via_fn]
proof fn elem_view_decreases(e: XmlElem) {
    broadcast use vstd::std_specs::vec::axiom_vec_decreases_to_view;

    assert(decreases_to!(e => e.children));
    assert(decreases_to!(e.children => e.children@));
}

#[via_fn]
proof fn elems_view_decreases(s: Seq<XmlElem>) {
    if s.len() > 0 {
        assert(decreases_to!(s => s[s.len() - 1])) by {
            vstd::seq::axiom_seq_index_decreases(s, s.len() - 1);
        }
        assert(decreases_to!(s => s.subrange(0, s.len() - 1))) by {
            vstd::seq::axiom_seq_subrange_decreases(s, 0, s.len() - 1);
        }
    }
}

impl View for XmlElem {
    type V = XmlElemView;

    open spec fn view(&self) -> XmlElemView {
        elem_view(*self)
    }
}

/// `elems_view` is the element-wise view.
pub proof fn lemma_elems_view(s: Seq<XmlElem>)
    ensures
        elems_view(s).len() == s.len(),
        forall|i: int| 0 <= i < s.len() ==> elems_view(s)[i] == elem_view(s[i]),
    decreases s.len(),
{
    if s.len() > 0 {
        lemma_elems_view(s.drop_last());
    }
}

/// The element tree that the outside XML parser yields for a document's
/// text, as this crate models it: `None` when the text is not well-formed
/// XML or holds no root element. The tree is a function of the text alone.
pub uninterp spec fn xml_doc_of(text: Seq<char>) -> Option<XmlElemView>;

#[verifier::external_type_specification]
#[verifier::external_body]
pub struct ExElement(xmltree::Element);

/// Relies on the shape of xmltree's element tree: keeps the local name, the
/// attributes in document order (xmltree's `attribute-order` feature, named
/// in Cargo.toml, makes the attribute map keep insertion order), the element
/// children in order, and the concatenated text and CDATA content; drops
/// comments and processing instructions.
#[verifier::external_body]
fn conv_elem(e: xmltree::Element) -> XmlElem {
    let text: String = match e.get_text() {
        Some(t) => t.into_owned(),
        None => String::new(),
    };
    let attrs: Vec<(String, String)> = e.attributes.into_iter().collect();
    let mut children: Vec<XmlElem> = Vec::new();
    for node in e.children {
        if let xmltree::XMLNode::Element(c) = node {
            children.push(conv_elem(c));
        }
    }
    XmlElem { name: e.name, attrs, children, text }
}

/// Relies on xmltree::Element::parse_all: it parses the document and yields
/// its nodes, among them the root element, or an error when the text is not
/// well-formed XML. The result depends on the text alone.
#[verifier::external_body]
pub fn parse_xml(text: &str) -> (r: Option<XmlElem>)
    ensures
        r matches Some(e) ==> xml_doc_of(text@) == Some(e@),
        r is None ==> xml_doc_of(text@) is None,
{
    match xmltree::Element::parse_all(text.as_bytes()) {
        Ok(nodes) => {
            for node in nodes {
                if let xmltree::XMLNode::Element(e) = node {
                    return Some(conv_elem(e));
                }
            }
            None
        },
        Err(_) => None,
    }
}

/// Value of the first attribute named `name`, in document order.
pub open spec fn spec_attr(attrs: Seq<(Seq<char>, Seq<char>)>, name: Seq<char>) -> Option<Seq<char>>
    decreases attrs.len(),
{
    if attrs.len() == 0 {
        None
    } else if attrs[0].0 == name {
        Some(attrs[0].1)
    } else {
        spec_attr(attrs.drop_first(), name)
    }
}

/// The element children named `name`, in document order.
pub open spec fn spec_children_named(children: Seq<XmlElemView>, name: Seq<char>) -> Seq<XmlElemView>
    decreases children.len(),
{
    if children.len() == 0 {
        Seq::empty()
    } else if children[0].name == name {
        seq![children[0]] + spec_children_named(children.drop_first(), name)
    } else {
        spec_children_named(children.drop_first(), name)
    }
}

proof fn lemma_attr_skip(attrs: Seq<(Seq<char>, Seq<char>)>, name: Seq<char>, i: int)
    requires
        0 <= i <= attrs.len(),
        forall|j: int| 0 <= j < i ==> attrs[j].0 != name,
    ensures
        spec_attr(attrs, name) == spec_attr(attrs.skip(i), name),
    decreases i,
{
    if i > 0 {
        lemma_attr_skip(attrs, name, i - 1);
        assert(attrs.skip(i - 1)[0] == attrs[i - 1]);
        assert(attrs.skip(i - 1).drop_first() =~= attrs.skip(i));
    } else {
        assert(attrs.skip(0) =~= attrs);
    }
}

impl XmlElem {
    /// Value of the first attribute of `self` named `name`, if any.
    pub fn attr(&self, name: &String) -> (r: Option<&String>)
        ensures
            match r {
                Some(v) => spec_attr(self@.attrs, name@) == Some(v@),
                None => spec_attr(self@.attrs, name@) is None,
            },
    {
        let n = self.attrs.len();
        for i in 0..n
            invariant
                n == self.attrs.len(),
                forall|j: int| 0 <= j < i ==> self@.attrs[j].0 != name@,
        {
            if self.attrs[i].0 == *name {
                proof {
                    lemma_attr_skip(self@.attrs, name@, i as int);
                    assert(self@.attrs.skip(i as int)[0] == self@.attrs[i as int]);
                }
                return Some(&self.attrs[i].1);
            }
        }
        proof {
            lemma_attr_skip(self@.attrs, name@, self@.attrs.len() as int);
            assert(self@.attrs.skip(self@.attrs.len() as int) =~= Seq::<(Seq<char>,
            Seq<char>)>::empty());
        }
        None
    }

    /// All element children of `self` named `name`, in document order.
    pub fn named_children<'a>(&'a self, name: &String) -> (r: Vec<&'a XmlElem>)
        ensures
            r@.len() == spec_children_named(self@.children, name@).len(),
            forall|i: int|
                0 <= i < r@.len() ==> r@[i]@ == spec_children_named(self@.children, name@)[i],
    {
        let ghost target = spec_children_named(self@.children, name@);
        let mut r: Vec<&'a XmlElem> = Vec::new();
        let n = self.children.len();
        proof {
            lemma_elems_view(self.children@);
            assert(self@.children.skip(0) =~= self@.children);
            assert(views_of(r@) + spec_children_named(self@.children, name@)
                =~= spec_children_named(self@.children, name@));
        }
        for j in 0..n
            invariant
                n == self.children.len(),
                self@.children.len() == n,
                forall|i: int| 0 <= i < n ==> self@.children[i] == elem_view(self.children@[i]),
                target == spec_children_named(self@.children, name@),
                target =~= views_of(r@) + spec_children_named(self@.children.skip(j as int), name@),
        {
            let ghost rest = self@.children.skip(j as int);
            proof {
                assert(rest[0] == self@.children[j as int]);
                assert(rest.drop_first() =~= self@.children.skip(j as int + 1));
            }
            if self.children[j].name == *name {
                let ghost old_r = r@;
                r.push(&self.children[j]);
                proof {
                    assert(views_of(r@) =~= views_of(old_r).push(self@.children[j as int]));
                    assert(seq![rest[0]] + spec_children_named(rest.drop_first(), name@)
                        =~= Seq::<XmlElemView>::empty().push(rest[0]) + spec_children_named(
                        rest.drop_first(),
                        name@,
                    ));
                    assert(target =~= views_of(r@) + spec_children_named(
                        self@.children.skip(j as int + 1),
                        name@,
                    ));
                }
            }
        }
        proof {
            assert(self@.children.skip(n as int) =~= Seq::<XmlElemView>::empty());
            assert(target =~= views_of(r@));
            assert forall|i: int| 0 <= i < r@.len() implies r@[i]@ == target[i] by {
                assert(views_of(r@)[i] == r@[i]@);
            }
        }
        r
    }
}

/// The views of a sequence of borrowed elements, element-wise.
pub open spec fn views_of(s: Seq<&XmlElem>) -> Seq<XmlElemView> {
    Seq::new(s.len(), |i: int| s[i]@)
}

} // verus!
