//! The description of a service: a document that lists the service's
//! actions, each with its arguments.

use vstd::prelude::*;
use crate::errors::ParseError;
use crate::parsing::device::{child_text, find_child, find_child_text, first_named};
use crate::schema::{
    lemma_with_entry, names_distinct, texts_of, with_entry, ControlSchema, Entry,
};
use crate::text::text_eq;
use crate::xml::{document, lemma_views_of, parse_document, views_of, Xml, XmlElement};

verus! {

/// The names that the `argument` elements among `elements` declare, in
/// their order. An argument without a name declares none.
pub open spec fn argument_names(elements: Seq<Xml>) -> Seq<Seq<char>>
    decreases elements.len(),
{
    if elements.len() == 0 {
        Seq::empty()
    } else {
        let before = argument_names(elements.drop_last());
        let last = elements.last();
        if last.name == "argument"@ {
            match child_text(last, "name"@) {
                Some(name) => before.push(name),
                None => before,
            }
        } else {
            before
        }
    }
}

/// The names of the arguments of an action, in the order of the document:
/// those that its `argumentList` declares. An action without such a list has
/// no arguments.
pub open spec fn action_arguments(action: Xml) -> Seq<Seq<char>> {
    match first_named(action.children, "argumentList"@) {
        Some(list) => argument_names(list.children),
        None => Seq::empty(),
    }
}

/// The schema that the `action` elements among `elements` make up: each
/// action that has a name, under that name, with its arguments. Where two
/// actions have the same name, the later one's arguments stand in the place
/// of the earlier one.
pub open spec fn schema_of(elements: Seq<Xml>) -> Seq<Entry>
    decreases elements.len(),
{
    if elements.len() == 0 {
        Seq::empty()
    } else {
        let before = schema_of(elements.drop_last());
        let last = elements.last();
        if last.name == "action"@ {
            match child_text(last, "name"@) {
                Some(name) => with_entry(before, name, action_arguments(last)),
                None => before,
            }
        } else {
            before
        }
    }
}

/// The elements among which the actions of a description stand: those
/// inside its `actionList`. A description without such a list has none.
pub open spec fn document_actions(root: Xml) -> Seq<Xml> {
    match first_named(root.children, "actionList"@) {
        Some(list) => list.children,
        None => Seq::empty(),
    }
}

/// The schema that a description declares: that of the actions in its
/// `actionList`.
pub open spec fn document_schema(root: Xml) -> Seq<Entry> {
    schema_of(document_actions(root))
}

/// The schema that the bytes of a description declare.
pub open spec fn parsed_schema(bytes: Seq<u8>) -> Result<Seq<Entry>, ParseError> {
    match document(bytes) {
        Some(root) => Ok(document_schema(root)),
        None => Err(ParseError::MalformedXml),
    }
}

/// No two entries of the schema of `elements` have the same name.
pub proof fn lemma_schema_names_distinct(elements: Seq<Xml>)
    ensures
        names_distinct(schema_of(elements)),
    decreases elements.len(),
{
    if elements.len() > 0 {
        let before = schema_of(elements.drop_last());
        let last = elements.last();
        lemma_schema_names_distinct(elements.drop_last());
        if last.name == "action"@ {
            if let Some(name) = child_text(last, "name"@) {
                lemma_with_entry(before, name, action_arguments(last));
            }
        }
    }
}

fn collect_arguments(elements: &Vec<XmlElement>) -> (names: Vec<String>)
    ensures
        texts_of(names@) == argument_names(views_of(elements@)),
{
    let ghost all = views_of(elements@);
    proof {
        lemma_views_of(elements@);
    }
    let mut names: Vec<String> = Vec::new();
    let mut index: usize = 0;
    assert(all.take(0) =~= Seq::<Xml>::empty());
    assert(texts_of(names@) =~= Seq::<Seq<char>>::empty());
    while index < elements.len()
        invariant
            index <= elements@.len(),
            all == views_of(elements@),
            all.len() == elements@.len(),
            forall|i: int| 0 <= i < all.len() ==> #[trigger] all[i] == elements@[i]@,
            texts_of(names@) == argument_names(all.take(index as int)),
        decreases elements@.len() - index,
    {
        let element = &elements[index];
        assert(all.take(index + 1).drop_last() == all.take(index as int));
        if text_eq(element.name.as_str(), "argument") {
            match find_child_text(element, "name") {
                Some(name) => {
                    let ghost before = names@;
                    names.push(name.clone());
                    assert(texts_of(names@) =~= texts_of(before).push(name@));
                },
                None => {},
            }
        }
        index = index + 1;
    }
    assert(all.take(index as int) == all);
    names
}

fn collect_action_arguments(action: &XmlElement) -> (names: Vec<String>)
    ensures
        texts_of(names@) == action_arguments(action@),
{
    match find_child(action, "argumentList") {
        Some(list) => collect_arguments(&list.children),
        None => {
            let names: Vec<String> = Vec::new();
            assert(texts_of(names@) =~= Seq::<Seq<char>>::empty());
            names
        },
    }
}

fn collect_actions(elements: &Vec<XmlElement>) -> (schema: ControlSchema)
    ensures
        schema@ == schema_of(views_of(elements@)),
{
    let ghost all = views_of(elements@);
    proof {
        lemma_views_of(elements@);
    }
    let mut schema = ControlSchema::new();
    let mut index: usize = 0;
    assert(all.take(0) =~= Seq::<Xml>::empty());
    while index < elements.len()
        invariant
            index <= elements@.len(),
            all == views_of(elements@),
            all.len() == elements@.len(),
            forall|i: int| 0 <= i < all.len() ==> #[trigger] all[i] == elements@[i]@,
            schema@ == schema_of(all.take(index as int)),
        decreases elements@.len() - index,
    {
        let element = &elements[index];
        assert(all.take(index + 1).drop_last() == all.take(index as int));
        if text_eq(element.name.as_str(), "action") {
            match find_child_text(element, "name") {
                Some(name) => {
                    let arguments = collect_action_arguments(element);
                    schema.insert(name.clone(), arguments);
                },
                None => {},
            }
        }
        index = index + 1;
    }
    assert(all.take(index as int) == all);
    schema
}

/// Collects the schema that a description declares: each action of its
/// `actionList` that has a name, with the names of its arguments in the order
/// of the document. An action without arguments is held with none.
pub fn collect_schema(root: &XmlElement) -> (schema: ControlSchema)
    ensures
        schema@ == document_schema(root@),
{
    match find_child(root, "actionList") {
        Some(list) => collect_actions(&list.children),
        None => ControlSchema::new(),
    }
}

/// Whether `outcome` is what the bytes of a description are read as: the
/// schema that they declare, or the reason for which they cannot be read.
pub open spec fn is_schema_of(bytes: Seq<u8>, outcome: Result<ControlSchema, ParseError>) -> bool {
    match outcome {
        Ok(found) => parsed_schema(bytes) == Ok::<Seq<Entry>, ParseError>(found@),
        Err(error) => parsed_schema(bytes) == Err::<Seq<Entry>, ParseError>(error),
    }
}

/// Reads the description of a service into the schema that it declares.
/// `MalformedXml` where the bytes are no document; a document that declares
/// no action gives a schema without actions.
pub fn parse_schemas(bytes: &[u8]) -> (schema: Result<ControlSchema, ParseError>)
    ensures
        is_schema_of(bytes@, schema),
{
    match parse_document(bytes) {
        Some(root) => Ok(collect_schema(&root)),
        None => Err(ParseError::MalformedXml),
    }
}

} // verus!
