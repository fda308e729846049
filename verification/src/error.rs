//! Why a record was refused.

use vstd::prelude::*;
use vstd::string::StringExecFns;

verus! {

/// The seven parts of a node, in the order in which a record lists them.
#[derive(Debug, Clone, Copy, PartialEq, Eq, Structural)]
pub enum Field {
    DataSourceId,
    NodeId,
    NodeType,
    Timestamp,
    Title,
    MimeType,
    Parents,
}

impl Field {
    /// The name of a part in a record.
    pub open spec fn spec_name(self) -> Seq<char> {
        match self {
            Field::DataSourceId => "data_source_id"@,
            Field::NodeId => "node_id"@,
            Field::NodeType => "node_type"@,
            Field::Timestamp => "timestamp"@,
            Field::Title => "title"@,
            Field::MimeType => "mime_type"@,
            Field::Parents => "parents"@,
        }
    }

    /// The name of this part in a record.
    pub fn name(self) -> (name: &'static str)
        ensures
            name@ == self.spec_name(),
    {
        match self {
            Field::DataSourceId => "data_source_id",
            Field::NodeId => "node_id",
            Field::NodeType => "node_type",
            Field::Timestamp => "timestamp",
            Field::Title => "title",
            Field::MimeType => "mime_type",
            Field::Parents => "parents",
        }
    }

    /// No two parts share a name.
    pub proof fn lemma_names_differ(a: Field, b: Field)
        ensures
            a.spec_name() == b.spec_name() <==> a == b,
    {
        reveal_strlit("data_source_id");
        reveal_strlit("node_id");
        reveal_strlit("node_type");
        reveal_strlit("timestamp");
        reveal_strlit("title");
        reveal_strlit("mime_type");
        reveal_strlit("parents");
        assert("data_source_id"@.len() == 14);
        assert("title"@.len() == 5);
        assert("node_id"@.len() == 7 && "node_id"@[0] == 'n');
        assert("parents"@.len() == 7 && "parents"@[0] == 'p');
        assert("node_type"@.len() == 9 && "node_type"@[0] == 'n');
        assert("timestamp"@.len() == 9 && "timestamp"@[0] == 't');
        assert("mime_type"@.len() == 9 && "mime_type"@[0] == 'm');
    }
}

/// What is wrong with one part of a record.
#[derive(Debug, Clone, Copy, PartialEq, Eq, Structural)]
pub enum Fault {
    /// No entry has the part's name.
    Missing,
    /// More than one entry has the part's name.
    Repeated,
    /// The part is text in a node, and the entry holds something else.
    NotText,
    /// The part is a number in a node, and the entry holds something else.
    NotInteger,
    /// The number is below zero or takes more than 64 bits.
    OutOfRange,
    /// The text is not the name of a kind of node.
    UnknownNodeType,
    /// The part is a list in a node, and the entry holds something else.
    NotList,
    /// The list holds an element that is not text.
    ElementNotText,
}

impl Fault {
    /// What a fault is called in a message: what was found wrong, and with
    /// it what the part has to be.
    pub open spec fn spec_describe(self) -> Seq<char> {
        match self {
            Fault::Missing => "is missing"@,
            Fault::Repeated => "stands more than once"@,
            Fault::NotText => "is not text"@,
            Fault::NotInteger => "is not a whole number"@,
            Fault::OutOfRange => "is not a whole number from 0 to 18446744073709551615"@,
            Fault::UnknownNodeType => "is not one of Document, Table, Folder"@,
            Fault::NotList => "is not a list"@,
            Fault::ElementNotText => "holds an element that is not text"@,
        }
    }

    /// What this fault is called in a message.
    pub fn describe(self) -> (words: &'static str)
        ensures
            words@ == self.spec_describe(),
    {
        match self {
            Fault::Missing => "is missing",
            Fault::Repeated => "stands more than once",
            Fault::NotText => "is not text",
            Fault::NotInteger => "is not a whole number",
            Fault::OutOfRange => "is not a whole number from 0 to 18446744073709551615",
            Fault::UnknownNodeType => "is not one of Document, Table, Folder",
            Fault::NotList => "is not a list",
            Fault::ElementNotText => "holds an element that is not text",
        }
    }
}

/// The one error of this crate: a record that does not describe a node.
/// It names the first part, in the order of [`Field`], that could not be
/// read, and says what is wrong with it.
#[derive(Debug, Clone, Copy, PartialEq, Eq, Structural)]
pub struct MalformedRecord {
    pub field: Field,
    pub fault: Fault,
}

impl MalformedRecord {
    /// The error in words: the name of the part, then what is wrong with it.
    pub open spec fn spec_message(self) -> Seq<char> {
        "malformed record: `"@ + self.field.spec_name() + "` "@ + self.fault.spec_describe()
    }

    /// The error in words, for a log or for the sender of the record.
    pub fn message(&self) -> (message: String)
        ensures
            message@ == self.spec_message(),
    {
        let mut message = "malformed record: `".to_owned();
        message.append(self.field.name());
        message.append("` ");
        message.append(self.fault.describe());
        message
    }
}

} // verus!
