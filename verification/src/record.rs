//! The record: the form in which a node is handed to other systems.
//!
//! A record is a list of named values, as a self-describing format holds
//! them. It keeps the entries in the order in which they were written and
//! says nothing about which names are there, how often, or what they hold:
//! that is for the reader of the record to judge.

use vstd::prelude::*;

use crate::text::str_eq;

verus! {

/// One element of a list in a record.
#[derive(Debug, Clone, PartialEq, Eq)]
pub enum Element {
    /// A piece of text.
    Text(String),
    /// Anything that is not text.
    Other,
}

/// An [`Element`] as a mathematical value.
pub enum ElementView {
    Text(Seq<char>),
    Other,
}

impl View for Element {
    type V = ElementView;

    open spec fn view(&self) -> ElementView {
        match self {
            Element::Text(text) => ElementView::Text(text@),
            Element::Other => ElementView::Other,
        }
    }
}

/// What an entry of a record holds.
#[derive(Debug, Clone, PartialEq, Eq)]
pub enum Value {
    /// A piece of text.
    Text(String),
    /// A whole number, of either sign.
    Integer(i128),
    /// An ordered list.
    List(Vec<Element>),
    /// Anything else a format can hold: nothing, a truth value, a fraction,
    /// a record inside the record.
    Other,
}

/// A [`Value`] as a mathematical value.
pub enum ValueView {
    Text(Seq<char>),
    Integer(int),
    List(Seq<ElementView>),
    Other,
}

/// The elements of a list as mathematical values, in the order of the list.
pub open spec fn elements(list: Seq<Element>) -> Seq<ElementView> {
    list.map_values(|element: Element| element@)
}

impl View for Value {
    type V = ValueView;

    open spec fn view(&self) -> ValueView {
        match self {
            Value::Text(text) => ValueView::Text(text@),
            Value::Integer(number) => ValueView::Integer(*number as int),
            Value::List(list) => ValueView::List(elements(list@)),
            Value::Other => ValueView::Other,
        }
    }
}

/// A named value.
#[derive(Debug, Clone, PartialEq, Eq)]
pub struct Entry {
    pub name: String,
    pub value: Value,
}

/// An [`Entry`] as a mathematical value.
pub struct EntryView {
    pub name: Seq<char>,
    pub value: ValueView,
}

impl View for Entry {
    type V = EntryView;

    open spec fn view(&self) -> EntryView {
        EntryView { name: self.name@, value: self.value@ }
    }
}

/// A list of named values, in the order in which they were written.
#[derive(Debug, Clone, PartialEq, Eq)]
pub struct Record {
    pub entries: Vec<Entry>,
}

impl View for Record {
    type V = Seq<EntryView>;

    open spec fn view(&self) -> Seq<EntryView> {
        self.entries@.map_values(|entry: Entry| entry@)
    }
}

/// What a search for a name in a record comes to.
#[derive(Debug, Clone, Copy, PartialEq, Eq)]
pub enum Found<T> {
    /// No entry has the name.
    Absent,
    /// Exactly one entry has the name, and holds this.
    Once(T),
    /// More than one entry has the name.
    Repeated,
}

/// Whether the entry at `position` of `record` is called `name`.
pub open spec fn named(record: Seq<EntryView>, name: Seq<char>, position: int) -> bool {
    0 <= position < record.len() && record[position].name == name
}

/// What `record` holds under `name`.
pub open spec fn find(record: Seq<EntryView>, name: Seq<char>) -> Found<ValueView> {
    if forall|i: int| !named(record, name, i) {
        Found::Absent
    } else {
        let first = choose|i: int| named(record, name, i);
        if forall|i: int| named(record, name, i) ==> i == first {
            Found::Once(record[first].value)
        } else {
            Found::Repeated
        }
    }
}

/// Two records hold the same under `name` when the entries of that name
/// correspond one to one and hold the same values: `to` leads from the
/// positions in `a` to those in `b`, and `from` leads back.
proof fn lemma_find_corresponds(
    a: Seq<EntryView>,
    b: Seq<EntryView>,
    name: Seq<char>,
    to: spec_fn(int) -> int,
    from: spec_fn(int) -> int,
)
    requires
        forall|i: int|
            named(a, name, i) ==> {
                &&& named(b, name, #[trigger] to(i))
                &&& b[to(i)].value == a[i].value
                &&& from(to(i)) == i
            },
        forall|j: int| named(b, name, j) ==> named(a, name, #[trigger] from(j)) && to(from(j)) == j,
    ensures
        find(a, name) == find(b, name),
{
    if forall|i: int| !named(a, name, i) {
        assert forall|j: int| !named(b, name, j) by {
            if named(b, name, j) {
                assert(named(a, name, from(j)));
            }
        }
    } else {
        let first_a = choose|i: int| named(a, name, i);
        assert(named(b, name, to(first_a)));
        let first_b = choose|j: int| named(b, name, j);
        if forall|i: int| named(a, name, i) ==> i == first_a {
            assert forall|j: int| named(b, name, j) implies j == first_b by {
                assert(from(j) == first_a);
                assert(from(first_b) == first_a);
            }
        } else {
            let second_a = choose|i: int| named(a, name, i) && i != first_a;
            assert(to(second_a) != to(first_a));
        }
    }
}

/// An entry under another name does not change what a record holds under
/// `name`, wherever the entry is put.
pub proof fn lemma_find_skips_other_names(
    record: Seq<EntryView>,
    position: int,
    entry: EntryView,
    name: Seq<char>,
)
    requires
        0 <= position <= record.len(),
        entry.name != name,
    ensures
        find(record.insert(position, entry), name) == find(record, name),
{
    let longer = record.insert(position, entry);
    let to = |i: int| if i < position { i } else { i + 1 };
    let from = |j: int| if j < position { j } else { j - 1 };
    lemma_find_corresponds(record, longer, name, to, from);
}

/// What a record holds under a name does not depend on the order of its
/// entries: two of them can change places.
pub proof fn lemma_find_ignores_order(record: Seq<EntryView>, i: int, j: int, name: Seq<char>)
    requires
        0 <= i < record.len(),
        0 <= j < record.len(),
    ensures
        find(record.update(i, record[j]).update(j, record[i]), name) == find(record, name),
{
    let swapped = record.update(i, record[j]).update(j, record[i]);
    let swap = |k: int| if k == i { j } else if k == j { i } else { k };
    lemma_find_corresponds(record, swapped, name, swap, swap);
}

impl Record {
    /// A record without entries.
    pub fn new() -> (record: Record)
        ensures
            record@ == Seq::<EntryView>::empty(),
    {
        Record { entries: Vec::new() }
    }

    /// Writes one more entry at the end. A name that is already there is
    /// written again, not replaced.
    pub fn push(&mut self, name: &str, value: Value)
        ensures
            final(self)@ == old(self)@.push(EntryView { name: name@, value: value@ }),
    {
        self.entries.push(Entry { name: name.to_owned(), value });
    }

    /// The number of entries.
    pub fn len(&self) -> (len: usize)
        ensures
            len == self@.len(),
    {
        self.entries.len()
    }

    /// Looks `name` up. The search ends at the second entry of that name.
    pub fn find(&self, name: &str) -> (found: Found<&Value>)
        ensures
            match found {
                Found::Absent => find(self@, name@) == Found::<ValueView>::Absent,
                Found::Once(value) => find(self@, name@) == Found::Once(value@),
                Found::Repeated => find(self@, name@) == Found::<ValueView>::Repeated,
            },
    {
        let mut at: Option<usize> = None;
        let mut i: usize = 0;
        while i < self.entries.len()
            invariant
                i <= self.entries.len(),
                self@.len() == self.entries.len(),
                match at {
                    None => forall|k: int| 0 <= k < i ==> !named(self@, name@, k),
                    Some(first) => first < i && named(self@, name@, first as int) && forall|k: int|
                        0 <= k < i && named(self@, name@, k) ==> k == first,
                },
            decreases self.entries.len() - i,
        {
            if str_eq(self.entries[i].name.as_str(), name) {
                assert(named(self@, name@, i as int));
                match at {
                    None => {
                        at = Some(i);
                    },
                    Some(first) => {
                        return Found::Repeated;
                    },
                }
            } else {
            }
            i += 1;
        }
        match at {
            None => Found::Absent,
            Some(first) => {
                Found::Once(&self.entries[first].value)
            },
        }
    }
}

} // verus!
