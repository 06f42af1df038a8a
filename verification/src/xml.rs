//! Documents as trees of elements.
//!
//! The bytes of a document are parsed by the `xmltree` crate. What comes out
//! is read, node by node, into a tree of this library's own, and the rest of
//! the library works on that tree.

use vstd::prelude::*;

verus! {

/// An element of a document as a value of mathematics: its name, its text,
/// and the elements directly inside it, in the order of the document.
pub ghost struct Xml {
    /// The element's name, without a namespace.
    pub name: Seq<char>,
    /// The text directly inside the element, if there is any.
    pub text: Option<Seq<char>>,
    /// The elements directly inside the element.
    pub children: Seq<Xml>,
}

/// An element as the parser hands it out: like `Xml`, but with a place for
/// every node inside it, also for those that are no elements (comments,
/// processing instructions, pieces of text), which are `None`.
pub ghost struct Parsed {
    /// The element's name, without a namespace.
    pub name: Seq<char>,
    /// The text directly inside the element, if there is any.
    pub text: Option<Seq<char>>,
    /// The nodes directly inside the element.
    pub nodes: Seq<Option<Parsed>>,
}

/// The elements among `nodes`, each without the nodes inside it that are no elements.
pub open spec fn elements_among(nodes: Seq<Option<Parsed>>) -> Seq<Xml>
    decreases nodes, 0nat,
{
    if nodes.len() == 0 {
        Seq::empty()
    } else {
        let before = elements_among(nodes.drop_last());
        match nodes.last() {
            Some(parsed) => before.push(elements_only(parsed)),
            None => before,
        }
    }
}

/// `parsed` without the nodes that are no elements.
pub open spec fn elements_only(parsed: Parsed) -> Xml
    decreases parsed, 1nat,
{
    Xml { name: parsed.name, text: parsed.text, children: elements_among(parsed.nodes) }
}

/// `xmltree::Element`: an element as the parser builds it. Nothing inside it
/// is looked at but through the functions below.
#[verifier::external_type_specification]
#[verifier::external_body]
pub struct ExElement(xmltree::Element);

/// What an element of the parser holds.
pub uninterp spec fn element_parsed(element: xmltree::Element) -> Parsed;

/// The root element that the parser finds in `bytes`, or `None` where it
/// rejects them.
pub uninterp spec fn document_parsed(bytes: Seq<u8>) -> Option<Parsed>;

/// `xmltree::Element::parse`: the root element of the document in `bytes`,
/// or `None` where the parser reports an error. The parser reads nothing but
/// `bytes`, so the outcome is a function of them. It descends once for every
/// element that is open at a time.
#[verifier::external_body]
fn parse_root(bytes: &[u8]) -> (root: Option<xmltree::Element>)
    ensures
        match root {
            Some(element) => document_parsed(bytes@) == Some(element_parsed(element)),
            None => document_parsed(bytes@) is None,
        },
{
    match xmltree::Element::parse(bytes) {
        Ok(element) => Some(element),
        Err(_) => None,
    }
}

/// The field `name` of an `xmltree::Element`: the element's name.
#[verifier::external_body]
fn element_name(element: &xmltree::Element) -> (name: String)
    ensures
        name@ == element_parsed(*element).name,
{
    element.name.clone()
}

/// `xmltree::Element::get_text`: the text and character data directly inside
/// the element, joined, or `None` where there is none.
#[verifier::external_body]
fn element_text(element: &xmltree::Element) -> (text: Option<String>)
    ensures
        match text {
            Some(t) => element_parsed(*element).text == Some(t@),
            None => element_parsed(*element).text is None,
        },
{
    match element.get_text() {
        Some(text) => Some(text.into_owned()),
        None => None,
    }
}

/// The length of the field `children` of an `xmltree::Element`: the number of
/// nodes directly inside the element.
#[verifier::external_body]
fn node_count(element: &xmltree::Element) -> (count: usize)
    ensures
        count == element_parsed(*element).nodes.len(),
{
    element.children.len()
}

/// `xmltree::XMLNode::as_element` on one of the `children` of an
/// `xmltree::Element`: the node at `index` if it is an element, else `None`.
#[verifier::external_body]
fn node_element(element: &xmltree::Element, index: usize) -> (child: Option<&xmltree::Element>)
    requires
        index < element_parsed(*element).nodes.len(),
    ensures
        match child {
            Some(inner) => element_parsed(*element).nodes[index as int] == Some(
                element_parsed(*inner),
            ),
            None => element_parsed(*element).nodes[index as int] is None,
        },
{
    element.children[index].as_element()
}

/// An element of a document, with the elements inside it.
#[derive(Debug)]
pub struct XmlElement {
    /// The element's name, without a namespace.
    pub name: String,
    /// The text directly inside the element, if there is any.
    pub text: Option<String>,
    /// The elements directly inside the element, in the order of the document.
    pub children: Vec<XmlElement>,
}

/// The views of `elements`, in their order.
pub open spec fn views_of(elements: Seq<XmlElement>) -> Seq<Xml>
    decreases elements, 0nat,
{
    if elements.len() == 0 {
        Seq::empty()
    } else {
        views_of(elements.drop_last()).push(elements.last().view())
    }
}

impl View for XmlElement {
    type V = Xml;

    open spec fn view(&self) -> Xml
        decreases self, 1nat,
    {
        Xml {
            name: self.name@,
            text: match self.text {
                Some(t) => Some(t@),
                None => None,
            },
            children: views_of(self.children@),
        }
    }
}

/// `views_of` keeps the length and views each element in its place.
pub proof fn lemma_views_of(elements: Seq<XmlElement>)
    ensures
        views_of(elements).len() == elements.len(),
        forall|i: int| 0 <= i < elements.len() ==> #[trigger] views_of(elements)[i] == elements[i]@,
    decreases elements.len(),
{
    if elements.len() > 0 {
        let front = elements.drop_last();
        lemma_views_of(front);
        assert(views_of(elements) == views_of(front).push(elements.last()@));
        assert forall|i: int| 0 <= i < elements.len() implies #[trigger] views_of(elements)[i]
            == elements[i]@ by {
            if i < elements.len() - 1 {
                assert(views_of(front)[i] == front[i]@);
                assert(front[i] == elements[i]);
            }
        }
    }
}

impl XmlElement {
    /// An element with the given name, text and inner elements.
    pub fn new(name: String, text: Option<String>, children: Vec<XmlElement>) -> (element: Self)
        ensures
            element.name == name,
            element.text == text,
            element.children == children,
    {
        XmlElement { name, text, children }
    }
}

/// Reads an element of the parser, and the elements inside it, into a tree.
fn read_element(element: &xmltree::Element) -> (read: XmlElement)
    ensures
        read@ == elements_only(element_parsed(*element)),
    decreases element_parsed(*element),
{
    let name = element_name(element);
    let text = element_text(element);
    let count: usize = node_count(element);
    let mut children: Vec<XmlElement> = Vec::new();
    let mut index: usize = 0;
    while index < count
        invariant
            count == element_parsed(*element).nodes.len(),
            index <= count,
            views_of(children@) == elements_among(element_parsed(*element).nodes.take(index as int)),
        decreases count - index,
    {
        let ghost parsed = element_parsed(*element);
        assert(parsed.nodes.take(index + 1).drop_last() == parsed.nodes.take(index as int));
        match node_element(element, index) {
            Some(child) => {
                proof {
                    assert(parsed.nodes[index as int] == Some(element_parsed(*child)));
                    assert(decreases_to!(parsed => parsed.nodes));
                    assert(decreases_to!(parsed.nodes => parsed.nodes[index as int]));
                    assert(decreases_to!(parsed.nodes[index as int] => parsed.nodes[index as int]->0));
                }
                let inner = read_element(child);
                assert(children@.push(inner).drop_last() == children@);
                children.push(inner);
            },
            None => {},
        }
        index = index + 1;
    }
    assert(element_parsed(*element).nodes.take(count as int) == element_parsed(*element).nodes);
    XmlElement { name, text, children }
}

/// The document that `bytes` hold, as the parser reads it: its root element
/// with the elements inside it, or `None` where the parser rejects the bytes.
pub open spec fn document(bytes: Seq<u8>) -> Option<Xml> {
    match document_parsed(bytes) {
        Some(parsed) => Some(elements_only(parsed)),
        None => None,
    }
}

/// Parses a document into the tree of its elements. `None` where the bytes
/// are no well-formed document.
pub fn parse_document(bytes: &[u8]) -> (root: Option<XmlElement>)
    ensures
        match root {
            Some(element) => document(bytes@) == Some(element@),
            None => document(bytes@) is None,
        },
{
    match parse_root(bytes) {
        Some(element) => Some(read_element(&element)),
        None => None,
    }
}

} // verus!
