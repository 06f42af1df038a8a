//! What is proved of the reading of a service's description: the schema
//! holds the actions of the document, each with its own arguments.

use vstd::prelude::*;
use crate::parsing::device::{child_text, first_named};
use crate::errors::ParseError;
use crate::parsing::scpd::{
    is_schema_of,
    action_arguments, document_actions, document_schema, lemma_schema_names_distinct, schema_of,
};
use crate::schema::{
    arguments_of, has_name, lemma_with_entry, mapping_of, names_distinct, ControlSchema,
};
use crate::xml::Xml;

verus! {

/// Whether `element` is an action that has the name `name`.
pub open spec fn is_action(element: Xml, name: Seq<char>) -> bool {
    element.name == "action"@ && child_text(element, "name"@) == Some(name)
}

/// The names of the actions among `elements`.
pub open spec fn action_names(elements: Seq<Xml>) -> Set<Seq<char>> {
    Set::new(
        |name: Seq<char>| exists|i: int| 0 <= i < elements.len() && is_action(#[trigger] elements[i], name),
    )
}

/// The schema holds a name exactly if one of the actions has it.
pub proof fn lemma_schema_holds_names(elements: Seq<Xml>, name: Seq<char>)
    ensures
        has_name(schema_of(elements), name) <==> exists|i: int|
            0 <= i < elements.len() && is_action(#[trigger] elements[i], name),
    decreases elements.len(),
{
    if elements.len() > 0 {
        let front = elements.drop_last();
        let last = elements.last();
        let before = schema_of(front);
        lemma_schema_holds_names(front, name);
        lemma_schema_names_distinct(front);
        assert forall|i: int| 0 <= i < front.len() implies #[trigger] front[i] == elements[i] by {}
        if last.name == "action"@ && child_text(last, "name"@) is Some {
            lemma_with_entry(before, child_text(last, "name"@)->0, action_arguments(last));
        }
        if has_name(schema_of(elements), name) {
            if has_name(before, name) {
                let i = choose|i: int| 0 <= i < front.len() && is_action(#[trigger] front[i], name);
                assert(is_action(elements[i], name));
            } else {
                assert(is_action(elements[elements.len() - 1], name));
            }
        }
        if exists|i: int| 0 <= i < elements.len() && is_action(#[trigger] elements[i], name) {
            let i = choose|i: int| 0 <= i < elements.len() && is_action(#[trigger] elements[i], name);
            if i < front.len() {
                assert(is_action(front[i], name));
            }
        }
    }
}

/// The schema holds, under the name of an action, the arguments of the
/// last action of that name, in the order of the document.
pub proof fn lemma_schema_holds_arguments(elements: Seq<Xml>, at: int, name: Seq<char>)
    requires
        0 <= at < elements.len(),
        is_action(elements[at], name),
        forall|i: int| at < i < elements.len() ==> !is_action(#[trigger] elements[i], name),
    ensures
        arguments_of(schema_of(elements), name) == Some(action_arguments(elements[at])),
    decreases elements.len(),
{
    let front = elements.drop_last();
    let last = elements.last();
    let before = schema_of(front);
    lemma_schema_names_distinct(front);
    if last.name == "action"@ && child_text(last, "name"@) is Some {
        lemma_with_entry(before, child_text(last, "name"@)->0, action_arguments(last));
    }
    if at < elements.len() - 1 {
        assert(front[at] == elements[at]);
        assert forall|i: int| at < i < front.len() implies !is_action(#[trigger] front[i], name) by {
            assert(front[i] == elements[i]);
        }
        lemma_schema_holds_arguments(front, at, name);
        assert(!is_action(elements[elements.len() - 1], name));
    }
}

/// The names that the schema of a description maps are the names of its
/// actions, no more and no less; and each name is mapped to the arguments of
/// the last action of that name.
pub proof fn lemma_schema_is_the_actions(elements: Seq<Xml>)
    ensures
        names_distinct(schema_of(elements)),
        mapping_of(schema_of(elements)).dom() == action_names(elements),
        forall|at: int, name: Seq<char>|
            0 <= at < elements.len() && #[trigger] is_action(elements[at], name) && (forall|i: int|
                at < i < elements.len() ==> !is_action(#[trigger] elements[i], name))
                ==> mapping_of(schema_of(elements))[name] == action_arguments(elements[at]),
{
    lemma_schema_names_distinct(elements);
    let schema = schema_of(elements);
    assert forall|name: Seq<char>|
        mapping_of(schema).dom().contains(name) == action_names(elements).contains(name) by {
        lemma_schema_holds_names(elements, name);
    }
    assert(mapping_of(schema).dom() =~= action_names(elements));
    assert forall|at: int, name: Seq<char>|
        0 <= at < elements.len() && #[trigger] is_action(elements[at], name) && (forall|i: int|
            at < i < elements.len() ==> !is_action(#[trigger] elements[i], name))
        implies mapping_of(schema)[name] == action_arguments(elements[at]) by {
        lemma_schema_holds_arguments(elements, at, name);
        lemma_schema_holds_names(elements, name);
    }
}

/// The schema of a description maps the names of the description's
/// actions, no more and no less, each to the arguments of the last action of
/// that name.
pub proof fn lemma_document_schema(root: Xml)
    ensures
        names_distinct(document_schema(root)),
        mapping_of(document_schema(root)).dom() == action_names(document_actions(root)),
        forall|at: int, name: Seq<char>|
            0 <= at < document_actions(root).len() && #[trigger] is_action(
                document_actions(root)[at],
                name,
            ) && (forall|i: int|
                at < i < document_actions(root).len() ==> !is_action(
                    #[trigger] document_actions(root)[i],
                    name,
                )) ==> mapping_of(document_schema(root))[name] == action_arguments(
                document_actions(root)[at],
            ),
{
    lemma_schema_is_the_actions(document_actions(root));
}

/// Reading the same bytes again gives the same again: two outcomes of
/// `parse_schemas` for the same bytes are the same schema, or the same error.
pub proof fn lemma_parse_schemas_repeats(
    bytes: Seq<u8>,
    first: Result<ControlSchema, ParseError>,
    second: Result<ControlSchema, ParseError>,
)
    requires
        is_schema_of(bytes, first),
        is_schema_of(bytes, second),
    ensures
        match (first, second) {
            (Ok(a), Ok(b)) => a@ == b@,
            (Err(a), Err(b)) => a == b,
            _ => false,
        },
{
}

/// An action that declares no argument is held with none: its name is
/// mapped to the empty list.
pub proof fn lemma_action_without_arguments(action: Xml)
    requires
        first_named(action.children, "argumentList"@) matches Some(list) ==> list.children.len()
            == 0,
    ensures
        action_arguments(action) == Seq::<Seq<char>>::empty(),
{
}

} // verus!
