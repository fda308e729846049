//! Writing a node as a record and reading it back.
//!
//! A node is written as seven entries, one for each part and in the order of
//! [`Field`]: the kind under one of its three names, the time as a number,
//! the parents as a list of text, everything else as text. A record is read
//! part by part in the same order, and the first part that cannot be read
//! decides the error. Entries under any other name are passed over.

use vstd::prelude::*;

use crate::error::{Fault, Field, MalformedRecord};
use crate::node::{Node, NodeType, NodeView};
use crate::record::{
    elements, find, lemma_find_ignores_order, lemma_find_skips_other_names, named, Element, ElementView,
    EntryView, Found, Record, Value, ValueView,
};
use crate::text::texts;

verus! {

/// The text that `record` holds for `field`.
pub open spec fn text_of(record: Seq<EntryView>, field: Field) -> Result<
    Seq<char>,
    MalformedRecord,
> {
    match find(record, field.spec_name()) {
        Found::Absent => Err(MalformedRecord { field, fault: Fault::Missing }),
        Found::Repeated => Err(MalformedRecord { field, fault: Fault::Repeated }),
        Found::Once(ValueView::Text(text)) => Ok(text),
        Found::Once(_) => Err(MalformedRecord { field, fault: Fault::NotText }),
    }
}

/// The kind of node that `record` names.
pub open spec fn node_type_of(record: Seq<EntryView>) -> Result<NodeType, MalformedRecord> {
    match text_of(record, Field::NodeType) {
        Err(error) => Err(error),
        Ok(name) => match NodeType::spec_from_name(name) {
            Some(kind) => Ok(kind),
            None => Err(MalformedRecord { field: Field::NodeType, fault: Fault::UnknownNodeType }),
        },
    }
}

/// The time that `record` gives.
pub open spec fn timestamp_of(record: Seq<EntryView>) -> Result<u64, MalformedRecord> {
    let field = Field::Timestamp;
    match find(record, field.spec_name()) {
        Found::Absent => Err(MalformedRecord { field, fault: Fault::Missing }),
        Found::Repeated => Err(MalformedRecord { field, fault: Fault::Repeated }),
        Found::Once(ValueView::Integer(number)) => if 0 <= number <= u64::MAX {
            Ok(number as u64)
        } else {
            Err(MalformedRecord { field, fault: Fault::OutOfRange })
        },
        Found::Once(_) => Err(MalformedRecord { field, fault: Fault::NotInteger }),
    }
}

/// Whether every element of a list is text.
pub open spec fn all_text(list: Seq<ElementView>) -> bool {
    forall|i: int| 0 <= i < list.len() ==> list[i] is Text
}

/// The texts of a list whose elements are all text.
pub open spec fn texts_in(list: Seq<ElementView>) -> Seq<Seq<char>> {
    list.map_values(|element: ElementView| element->Text_0)
}

/// A list that holds the given texts and nothing else.
pub open spec fn list_of(items: Seq<Seq<char>>) -> Seq<ElementView> {
    items.map_values(|text: Seq<char>| ElementView::Text(text))
}

/// The chain of parents that `record` gives.
pub open spec fn parents_of(record: Seq<EntryView>) -> Result<Seq<Seq<char>>, MalformedRecord> {
    let field = Field::Parents;
    match find(record, field.spec_name()) {
        Found::Absent => Err(MalformedRecord { field, fault: Fault::Missing }),
        Found::Repeated => Err(MalformedRecord { field, fault: Fault::Repeated }),
        Found::Once(ValueView::List(list)) => if all_text(list) {
            Ok(texts_in(list))
        } else {
            Err(MalformedRecord { field, fault: Fault::ElementNotText })
        },
        Found::Once(_) => Err(MalformedRecord { field, fault: Fault::NotList }),
    }
}

/// The node that `record` describes, or the reason why it describes none.
pub open spec fn decoded(record: Seq<EntryView>) -> Result<NodeView, MalformedRecord> {
    match text_of(record, Field::DataSourceId) {
        Err(error) => Err(error),
        Ok(data_source_id) => match text_of(record, Field::NodeId) {
            Err(error) => Err(error),
            Ok(node_id) => match node_type_of(record) {
                Err(error) => Err(error),
                Ok(node_type) => match timestamp_of(record) {
                    Err(error) => Err(error),
                    Ok(timestamp) => match text_of(record, Field::Title) {
                        Err(error) => Err(error),
                        Ok(title) => match text_of(record, Field::MimeType) {
                            Err(error) => Err(error),
                            Ok(mime_type) => match parents_of(record) {
                                Err(error) => Err(error),
                                Ok(parents) => Ok(
                                    NodeView {
                                        data_source_id,
                                        node_id,
                                        node_type,
                                        timestamp,
                                        title,
                                        mime_type,
                                        parents,
                                    },
                                ),
                            },
                        },
                    },
                },
            },
        },
    }
}

/// The record that describes `node`.
pub open spec fn encoded(node: NodeView) -> Seq<EntryView> {
    seq![
        EntryView {
            name: Field::DataSourceId.spec_name(),
            value: ValueView::Text(node.data_source_id),
        },
        EntryView { name: Field::NodeId.spec_name(), value: ValueView::Text(node.node_id) },
        EntryView {
            name: Field::NodeType.spec_name(),
            value: ValueView::Text(node.node_type.spec_name()),
        },
        EntryView {
            name: Field::Timestamp.spec_name(),
            value: ValueView::Integer(node.timestamp as int),
        },
        EntryView { name: Field::Title.spec_name(), value: ValueView::Text(node.title) },
        EntryView { name: Field::MimeType.spec_name(), value: ValueView::Text(node.mime_type) },
        EntryView {
            name: Field::Parents.spec_name(),
            value: ValueView::List(list_of(node.parents)),
        },
    ]
}

/// Reads a part that is text.
fn read_text(record: &Record, field: Field) -> (result: Result<&str, MalformedRecord>)
    ensures
        match result {
            Ok(text) => text_of(record@, field) == Ok::<Seq<char>, MalformedRecord>(text@),
            Err(error) => text_of(record@, field) == Err::<Seq<char>, MalformedRecord>(error),
        },
{
    match record.find(field.name()) {
        Found::Absent => Err(MalformedRecord { field, fault: Fault::Missing }),
        Found::Repeated => Err(MalformedRecord { field, fault: Fault::Repeated }),
        Found::Once(Value::Text(text)) => Ok(text.as_str()),
        Found::Once(_) => Err(MalformedRecord { field, fault: Fault::NotText }),
    }
}

/// Reads the kind of node.
fn read_node_type(record: &Record) -> (result: Result<NodeType, MalformedRecord>)
    ensures
        result == node_type_of(record@),
{
    match read_text(record, Field::NodeType) {
        Err(error) => Err(error),
        Ok(name) => match NodeType::from_name(name) {
            Some(kind) => Ok(kind),
            None => Err(MalformedRecord { field: Field::NodeType, fault: Fault::UnknownNodeType }),
        },
    }
}

/// Reads the time.
fn read_timestamp(record: &Record) -> (result: Result<u64, MalformedRecord>)
    ensures
        result == timestamp_of(record@),
{
    let field = Field::Timestamp;
    match record.find(field.name()) {
        Found::Absent => Err(MalformedRecord { field, fault: Fault::Missing }),
        Found::Repeated => Err(MalformedRecord { field, fault: Fault::Repeated }),
        Found::Once(Value::Integer(number)) => {
            if 0 <= *number && *number <= u64::MAX as i128 {
                Ok(*number as u64)
            } else {
                Err(MalformedRecord { field, fault: Fault::OutOfRange })
            }
        },
        Found::Once(_) => Err(MalformedRecord { field, fault: Fault::NotInteger }),
    }
}

/// Copies the texts out of a list, or stops at the first element that is
/// not text.
fn read_texts(list: &Vec<Element>) -> (result: Option<Vec<String>>)
    ensures
        match result {
            Some(items) => all_text(elements(list@)) && texts(items@) == texts_in(elements(list@)),
            None => !all_text(elements(list@)),
        },
{
    let mut items: Vec<String> = Vec::new();
    let mut i: usize = 0;
    while i < list.len()
        invariant
            i <= list.len(),
            items.len() == i,
            forall|k: int| 0 <= k < i ==> list@[k]@ == ElementView::Text(items@[k]@),
        decreases list.len() - i,
    {
        match &list[i] {
            Element::Text(text) => {
                items.push(text.clone());
            },
            Element::Other => {
                assert(!(elements(list@)[i as int] is Text));
                return None;
            },
        }
        i += 1;
    }
    Some(items)
}

/// Reads the chain of parents.
fn read_parents(record: &Record) -> (result: Result<Vec<String>, MalformedRecord>)
    ensures
        match result {
            Ok(parents) => parents_of(record@) == Ok::<Seq<Seq<char>>, MalformedRecord>(
                texts(parents@),
            ),
            Err(error) => parents_of(record@) == Err::<Seq<Seq<char>>, MalformedRecord>(error),
        },
{
    let field = Field::Parents;
    match record.find(field.name()) {
        Found::Absent => Err(MalformedRecord { field, fault: Fault::Missing }),
        Found::Repeated => Err(MalformedRecord { field, fault: Fault::Repeated }),
        Found::Once(Value::List(list)) => match read_texts(list) {
            Some(parents) => Ok(parents),
            None => Err(MalformedRecord { field, fault: Fault::ElementNotText }),
        },
        Found::Once(_) => Err(MalformedRecord { field, fault: Fault::NotList }),
    }
}

/// Reads a node from a record.
///
/// The seven parts are looked up by name, in the order of [`Field`]. A part
/// must stand in the record exactly once and hold what the node holds in
/// that place: text, a whole number from 0 to 2^64 - 1 for the time, one of
/// the three names for the kind, a list of text for the parents. The first
/// part that fails this is reported, and no node is built. Entries under
/// other names are passed over, and the order of the entries does not matter.
pub fn decode(record: &Record) -> (result: Result<Node, MalformedRecord>)
    ensures
        match result {
            Ok(node) => decoded(record@) == Ok::<NodeView, MalformedRecord>(node@),
            Err(error) => decoded(record@) == Err::<NodeView, MalformedRecord>(error),
        },
{
    let data_source_id = match read_text(record, Field::DataSourceId) {
        Ok(text) => text,
        Err(error) => { return Err(error); },
    };
    let node_id = match read_text(record, Field::NodeId) {
        Ok(text) => text,
        Err(error) => { return Err(error); },
    };
    let node_type: NodeType = match read_node_type(record) {
        Ok(kind) => kind,
        Err(error) => { return Err(error); },
    };
    let timestamp: u64 = match read_timestamp(record) {
        Ok(number) => number,
        Err(error) => { return Err(error); },
    };
    let title = match read_text(record, Field::Title) {
        Ok(text) => text,
        Err(error) => { return Err(error); },
    };
    let mime_type = match read_text(record, Field::MimeType) {
        Ok(text) => text,
        Err(error) => { return Err(error); },
    };
    let parents = match read_parents(record) {
        Ok(list) => list,
        Err(error) => { return Err(error); },
    };
    Ok(Node::new(data_source_id, node_id, node_type, timestamp, title, mime_type, parents))
}

/// A list that holds a copy of each of the given texts.
fn write_texts(items: &Vec<String>) -> (list: Vec<Element>)
    ensures
        elements(list@) == list_of(texts(items@)),
{
    let mut list: Vec<Element> = Vec::new();
    let mut i: usize = 0;
    while i < items.len()
        invariant
            i <= items.len(),
            list.len() == i,
            forall|k: int| 0 <= k < i ==> list@[k]@ == ElementView::Text(items@[k]@),
        decreases items.len() - i,
    {
        list.push(Element::Text(items[i].clone()));
        i += 1;
    }
    list
}

/// Writes a node as a record. Every node can be written; the record holds
/// the seven parts and nothing else, and reading it gives the node back.
pub fn encode(node: &Node) -> (record: Record)
    ensures
        record@ == encoded(node@),
        decoded(record@) == Ok::<NodeView, MalformedRecord>(node@),
{
    proof {
        lemma_decode_encode(node@);
    }
    let mut record = Record::new();
    record.push(Field::DataSourceId.name(), Value::Text(node.data_source_id().to_owned()));
    record.push(Field::NodeId.name(), Value::Text(node.node_id().to_owned()));
    record.push(Field::NodeType.name(), Value::Text(node.node_type().name().to_owned()));
    record.push(Field::Timestamp.name(), Value::Integer(node.timestamp() as i128));
    record.push(Field::Title.name(), Value::Text(node.title().to_owned()));
    record.push(Field::MimeType.name(), Value::Text(node.mime_type().to_owned()));
    record.push(Field::Parents.name(), Value::List(write_texts(node.parents())));
    assert(record@ =~= encoded(node@));
    record
}

/// In a written node each part stands exactly once, at its place.
proof fn lemma_encoded_holds_each_part_once(node: NodeView, field: Field, position: int)
    requires
        0 <= position < 7,
        encoded(node)[position].name == field.spec_name(),
    ensures
        find(encoded(node), field.spec_name()) == Found::Once(encoded(node)[position].value),
{
    let record = encoded(node);
    let name = field.spec_name();
    assert(named(record, name, position));
    assert forall|i: int| named(record, name, i) implies i == position by {
        Field::lemma_names_differ(field, Field::DataSourceId);
        Field::lemma_names_differ(field, Field::NodeId);
        Field::lemma_names_differ(field, Field::NodeType);
        Field::lemma_names_differ(field, Field::Timestamp);
        Field::lemma_names_differ(field, Field::Title);
        Field::lemma_names_differ(field, Field::MimeType);
        Field::lemma_names_differ(field, Field::Parents);
    }
}

/// Reading a written node gives the node back: whatever the seven parts
/// hold, the record of a node describes that node and no other.
pub proof fn lemma_decode_encode(node: NodeView)
    ensures
        decoded(encoded(node)) == Ok::<NodeView, MalformedRecord>(node),
{
    lemma_encoded_holds_each_part_once(node, Field::DataSourceId, 0);
    lemma_encoded_holds_each_part_once(node, Field::NodeId, 1);
    lemma_encoded_holds_each_part_once(node, Field::NodeType, 2);
    lemma_encoded_holds_each_part_once(node, Field::Timestamp, 3);
    lemma_encoded_holds_each_part_once(node, Field::Title, 4);
    lemma_encoded_holds_each_part_once(node, Field::MimeType, 5);
    lemma_encoded_holds_each_part_once(node, Field::Parents, 6);
    NodeType::lemma_name_round_trip(node.node_type);
    assert(texts_in(list_of(node.parents)) =~= node.parents);
}

/// A record is read by what it holds under the seven names, and by nothing
/// else: two records that agree there describe the same node, or are refused
/// for the same reason.
pub proof fn lemma_read_by_name(a: Seq<EntryView>, b: Seq<EntryView>)
    requires
        forall|field: Field| find(a, #[trigger] field.spec_name()) == find(b, field.spec_name()),
    ensures
        decoded(a) == decoded(b),
{
}

/// A record is read as `node` exactly when, under each of the seven names,
/// it holds once what the record of `node` holds there. So nothing is made
/// up for a part that is missing or unreadable.
pub proof fn lemma_decoded_exactly(record: Seq<EntryView>, node: NodeView)
    ensures
        decoded(record) == Ok::<NodeView, MalformedRecord>(node) <==> forall|field: Field|
            find(record, #[trigger] field.spec_name()) == find(encoded(node), field.spec_name()),
{
    lemma_decode_encode(node);
    if decoded(record) == Ok::<NodeView, MalformedRecord>(node) {
        assert forall|field: Field|
            find(record, #[trigger] field.spec_name()) == find(
                encoded(node),
                field.spec_name(),
            ) by {
            match field {
                Field::DataSourceId => lemma_encoded_holds_each_part_once(node, field, 0),
                Field::NodeId => lemma_encoded_holds_each_part_once(node, field, 1),
                Field::NodeType => {
                    lemma_encoded_holds_each_part_once(node, field, 2);
                    NodeType::lemma_name_round_trip(node.node_type);
                },
                Field::Timestamp => lemma_encoded_holds_each_part_once(node, field, 3),
                Field::Title => lemma_encoded_holds_each_part_once(node, field, 4),
                Field::MimeType => lemma_encoded_holds_each_part_once(node, field, 5),
                Field::Parents => {
                    lemma_encoded_holds_each_part_once(node, field, 6);
                    let list = find(record, field.spec_name())->Once_0->List_0;
                    assert(list =~= list_of(node.parents));
                },
            }
        }
    }
    if forall|field: Field|
        find(record, #[trigger] field.spec_name()) == find(encoded(node), field.spec_name()) {
        lemma_read_by_name(record, encoded(node));
    }
}

/// Two nodes with the same record are the same node.
pub proof fn lemma_encode_injective(a: NodeView, b: NodeView)
    requires
        encoded(a) == encoded(b),
    ensures
        a == b,
{
    lemma_decode_encode(a);
    lemma_decode_encode(b);
}

/// A node at the root of its data source is written with an empty list of
/// parents, is read back as it was, and its record differs from that of any
/// node below a folder.
pub proof fn lemma_root_round_trip(root: NodeView, other: NodeView)
    requires
        root.is_root(),
        !other.is_root(),
    ensures
        encoded(root)[6].value == ValueView::List(Seq::<ElementView>::empty()),
        decoded(encoded(root)) == Ok::<NodeView, MalformedRecord>(root),
        encoded(root) != encoded(other),
{
    lemma_decode_encode(root);
    lemma_decode_encode(other);
    assert(list_of(root.parents) =~= Seq::<ElementView>::empty());
}

/// A kind of node outside the three names is refused, never replaced: a
/// record with an entry that names such a kind describes no node. Where that
/// entry is the only one for the kind and the two identifiers before it can
/// be read, the kind is what the error reports.
pub proof fn lemma_unknown_node_type_is_refused(
    record: Seq<EntryView>,
    position: int,
    name: Seq<char>,
)
    requires
        0 <= position < record.len(),
        record[position] == (EntryView {
            name: Field::NodeType.spec_name(),
            value: ValueView::Text(name),
        }),
        name != "Document"@,
        name != "Table"@,
        name != "Folder"@,
    ensures
        node_type_of(record) is Err,
        decoded(record) is Err,
        find(record, Field::NodeType.spec_name()) is Once ==> node_type_of(record) == Err::<
            NodeType,
            MalformedRecord,
        >(MalformedRecord { field: Field::NodeType, fault: Fault::UnknownNodeType }),
        find(record, Field::NodeType.spec_name()) is Once && text_of(record, Field::DataSourceId)
            is Ok && text_of(record, Field::NodeId) is Ok ==> decoded(record) == Err::<
            NodeView,
            MalformedRecord,
        >(MalformedRecord { field: Field::NodeType, fault: Fault::UnknownNodeType }),
{
    assert(named(record, Field::NodeType.spec_name(), position));
}

/// A record describes a node when all seven parts can be read, and only
/// then: one part that is missing, repeated or unreadable is enough for the
/// record to be refused, and no node is built from the rest.
pub proof fn lemma_all_or_nothing(record: Seq<EntryView>)
    ensures
        decoded(record) is Ok <==> {
            &&& text_of(record, Field::DataSourceId) is Ok
            &&& text_of(record, Field::NodeId) is Ok
            &&& node_type_of(record) is Ok
            &&& timestamp_of(record) is Ok
            &&& text_of(record, Field::Title) is Ok
            &&& text_of(record, Field::MimeType) is Ok
            &&& parents_of(record) is Ok
        },
{
}

/// Entries under a name that no part of a node has are passed over: with
/// such an entry put in anywhere, a record is read as it was without it.
pub proof fn lemma_other_names_are_passed_over(
    record: Seq<EntryView>,
    position: int,
    entry: EntryView,
)
    requires
        0 <= position <= record.len(),
        forall|field: Field| entry.name != #[trigger] field.spec_name(),
    ensures
        decoded(record.insert(position, entry)) == decoded(record),
{
    assert forall|field: Field|
        find(record.insert(position, entry), #[trigger] field.spec_name()) == find(
            record,
            field.spec_name(),
        ) by {
        lemma_find_skips_other_names(record, position, entry, field.spec_name());
    }
    lemma_read_by_name(record.insert(position, entry), record);
}

/// The order of the entries does not matter: with two entries in each
/// other's place, a record is read as it was.
pub proof fn lemma_order_is_immaterial(record: Seq<EntryView>, i: int, j: int)
    requires
        0 <= i < record.len(),
        0 <= j < record.len(),
    ensures
        decoded(record.update(i, record[j]).update(j, record[i])) == decoded(record),
{
    let swapped = record.update(i, record[j]).update(j, record[i]);
    assert forall|field: Field|
        find(swapped, #[trigger] field.spec_name()) == find(record, field.spec_name()) by {
        lemma_find_ignores_order(record, i, j, field.spec_name());
    }
    lemma_read_by_name(swapped, record);
}

} // verus!
