//! What a service offers: its actions, each with the names of its arguments.

use vstd::prelude::*;
use crate::text::text_eq;

verus! {

/// An action as a value of mathematics: its name and the names of its arguments.
pub type Entry = (Seq<char>, Seq<Seq<char>>);

/// The texts of `texts`, in their order.
pub open spec fn texts_of(texts: Seq<String>) -> Seq<Seq<char>> {
    Seq::new(texts.len(), |i: int| texts[i]@)
}

/// The entries that `entries` stand for, in their order.
pub open spec fn entries_of(entries: Seq<(String, Vec<String>)>) -> Seq<Entry> {
    Seq::new(entries.len(), |i: int| (entries[i].0@, texts_of(entries[i].1@)))
}

/// Whether one of `entries` has the name `name`.
pub open spec fn has_name(entries: Seq<Entry>, name: Seq<char>) -> bool {
    exists|i: int| 0 <= i < entries.len() && (#[trigger] entries[i]).0 == name
}

/// The place of an entry with the name `name` among `entries`, which hold one.
pub open spec fn place_of(entries: Seq<Entry>, name: Seq<char>) -> int {
    choose|i: int| 0 <= i < entries.len() && (#[trigger] entries[i]).0 == name
}

/// No two of `entries` have the same name.
pub open spec fn names_distinct(entries: Seq<Entry>) -> bool {
    forall|i: int, j: int|
        0 <= i < j < entries.len() ==> (#[trigger] entries[i]).0 != (#[trigger] entries[j]).0
}

/// The arguments that `entries` hold under the name `name`.
pub open spec fn arguments_of(entries: Seq<Entry>, name: Seq<char>) -> Option<Seq<Seq<char>>> {
    if has_name(entries, name) {
        Some(entries[place_of(entries, name)].1)
    } else {
        None
    }
}

/// `entries` with `arguments` under the name `name`: in the place of the
/// entry of that name, where there is one, and else at the end.
pub open spec fn with_entry(entries: Seq<Entry>, name: Seq<char>, arguments: Seq<Seq<char>>) -> Seq<
    Entry,
> {
    if has_name(entries, name) {
        entries.update(place_of(entries, name), (name, arguments))
    } else {
        entries.push((name, arguments))
    }
}

/// `entries` as a mapping from the names to the arguments.
pub open spec fn mapping_of(entries: Seq<Entry>) -> Map<Seq<char>, Seq<Seq<char>>> {
    Map::new(
        |name: Seq<char>| has_name(entries, name),
        |name: Seq<char>| entries[place_of(entries, name)].1,
    )
}

/// Among entries with distinct names, the place of a name is the only one
/// that holds it.
pub proof fn lemma_place_of(entries: Seq<Entry>, at: int)
    requires
        names_distinct(entries),
        0 <= at < entries.len(),
    ensures
        has_name(entries, entries[at].0),
        place_of(entries, entries[at].0) == at,
{
    let name = entries[at].0;
    let place = place_of(entries, name);
    if place < at {
        assert(entries[place].0 != entries[at].0);
    } else if at < place {
        assert(entries[at].0 != entries[place].0);
    }
}

/// Putting an entry among entries with distinct names leaves the names
/// distinct; it is then found under its name, and what was found under the
/// other names is found there still.
pub proof fn lemma_with_entry(entries: Seq<Entry>, name: Seq<char>, arguments: Seq<Seq<char>>)
    requires
        names_distinct(entries),
    ensures
        names_distinct(with_entry(entries, name, arguments)),
        arguments_of(with_entry(entries, name, arguments), name) == Some(arguments),
        forall|other: Seq<char>|
            other != name ==> arguments_of(with_entry(entries, name, arguments), other)
                == arguments_of(entries, other),
        forall|other: Seq<char>|
            has_name(with_entry(entries, name, arguments), other) <==> other == name || has_name(
                entries,
                other,
            ),
{
    let after = with_entry(entries, name, arguments);
    let at: int = if has_name(entries, name) {
        place_of(entries, name)
    } else {
        entries.len() as int
    };
    assert(after.len() > at && after[at] == (name, arguments));
    assert forall|i: int| 0 <= i < after.len() && i != at implies #[trigger] after[i] == entries[i]
        && after[i].0 != name by {
        if has_name(entries, name) {
            if i < at {
                assert(entries[i].0 != entries[at].0);
            } else {
                assert(entries[at].0 != entries[i].0);
            }
        }
    }
    assert forall|i: int, j: int| 0 <= i < j < after.len() implies (#[trigger] after[i]).0 != (
    #[trigger] after[j]).0 by {
        if i != at && j != at {
            assert(entries[i].0 != entries[j].0);
        }
    }
    lemma_place_of(after, at);
    assert forall|other: Seq<char>| other != name implies arguments_of(after, other)
        == arguments_of(entries, other) && (has_name(after, other) <==> has_name(entries, other)) by {
        if has_name(entries, other) {
            let place = place_of(entries, other);
            assert(after[place] == entries[place]);
            lemma_place_of(after, place);
        }
        if has_name(after, other) {
            let place = place_of(after, other);
            assert(after[place] == entries[place]);
            lemma_place_of(entries, place);
        }
    }
}

/// The actions of a service, in the order in which they were put in, each
/// with the names of its arguments. No two actions have the same name.
#[derive(Debug)]
pub struct ControlSchema {
    entries: Vec<(String, Vec<String>)>,
}

impl View for ControlSchema {
    type V = Seq<Entry>;

    closed spec fn view(&self) -> Seq<Entry> {
        entries_of(self.entries@)
    }
}

impl ControlSchema {
    #[verifier::type_invariant]
    spec fn distinct(&self) -> bool {
        names_distinct(entries_of(self.entries@))
    }

    /// A schema without actions.
    pub fn new() -> (schema: Self)
        ensures
            schema@ == Seq::<Entry>::empty(),
    {
        let schema = ControlSchema { entries: Vec::new() };
        assert(schema@ =~= Seq::<Entry>::empty());
        schema
    }

    /// The number of actions.
    pub fn len(&self) -> (count: usize)
        ensures
            count == self@.len(),
            names_distinct(self@),
    {
        proof {
            use_type_invariant(self);
        }
        self.entries.len()
    }

    /// The place of the action `name`, if the schema holds it.
    pub fn position(&self, name: &str) -> (place: Option<usize>)
        ensures
            names_distinct(self@),
            match place {
                Some(at) => has_name(self@, name@) && at == place_of(self@, name@),
                None => !has_name(self@, name@),
            },
    {
        proof {
            use_type_invariant(self);
        }
        let mut index: usize = 0;
        while index < self.entries.len()
            invariant
                index <= self.entries@.len(),
                self@ == entries_of(self.entries@),
                names_distinct(self@),
                forall|i: int| 0 <= i < index ==> (#[trigger] self@[i]).0 != name@,
            decreases self.entries@.len() - index,
        {
            if text_eq(self.entries[index].0.as_str(), name) {
                proof {
                    lemma_place_of(self@, index as int);
                }
                return Some(index);
            }
            index = index + 1;
        }
        None
    }

    /// Whether the schema holds the action `name`.
    pub fn contains(&self, name: &str) -> (held: bool)
        ensures
            held == has_name(self@, name@),
    {
        self.position(name).is_some()
    }

    /// The names of the arguments of the action `name`, if the schema holds it.
    pub fn get(&self, name: &str) -> (arguments: Option<&Vec<String>>)
        ensures
            match arguments {
                Some(found) => arguments_of(self@, name@) == Some(texts_of(found@)),
                None => arguments_of(self@, name@) is None,
            },
    {
        match self.position(name) {
            Some(at) => Some(&self.entries[at].1),
            None => None,
        }
    }

    /// The name of the action at `index`, counted in the order in which the
    /// actions were put in, and the names of its arguments.
    pub fn entry(&self, index: usize) -> (found: Option<(&String, &Vec<String>)>)
        ensures
            match found {
                Some((name, arguments)) => index < self@.len() && self@[index as int] == (
                    name@,
                    texts_of(arguments@),
                ),
                None => index >= self@.len(),
            },
    {
        if index < self.entries.len() {
            let entry = &self.entries[index];
            Some((&entry.0, &entry.1))
        } else {
            None
        }
    }

    /// Puts the action `name` with the arguments `arguments` into the schema.
    /// Where the schema holds an action of that name, the arguments take the
    /// place of that action's.
    pub fn insert(&mut self, name: String, arguments: Vec<String>)
        ensures
            final(self)@ == with_entry(old(self)@, name@, texts_of(arguments@)),
            names_distinct(final(self)@),
    {
        proof {
            use_type_invariant(&*self);
            lemma_with_entry(self@, name@, texts_of(arguments@));
        }
        let ghost before = self@;
        let ghost after = with_entry(before, name@, texts_of(arguments@));
        let place = self.position(name.as_str());
        let mut entries: Vec<(String, Vec<String>)> = Vec::new();
        assert(entries_of(entries@) =~= Seq::<Entry>::empty());
        core::mem::swap(&mut entries, &mut self.entries);
        match place {
            Some(at) => {
                entries.set(at, (name, arguments));
            },
            None => {
                entries.push((name, arguments));
            },
        }
        assert(entries_of(entries@) =~= after);
        self.entries = entries;
    }
}

} // verus!
