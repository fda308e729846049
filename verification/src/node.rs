//! The node itself: what it holds, how it is built, read, copied and compared.

use vstd::prelude::*;
use vstd::std_specs::cmp::PartialEqSpecImpl;

use crate::text::{copy_texts, str_eq, texts, texts_contain, texts_eq};

verus! {

/// What kind of item a node is.
///
/// The list is closed: a document and a table are leaves that carry
/// content, a folder only contains other items.
#[derive(Debug, Clone, Copy, PartialEq, Eq, Structural)]
pub enum NodeType {
    /// A leaf with a textual or binary body.
    Document,
    /// A leaf with a tabular body.
    Table,
    /// A container; it adds to the hierarchy and holds no content.
    Folder,
}

impl NodeType {
    /// The name under which a kind is written in a record.
    pub open spec fn spec_name(self) -> Seq<char> {
        match self {
            NodeType::Document => "Document"@,
            NodeType::Table => "Table"@,
            NodeType::Folder => "Folder"@,
        }
    }

    /// The kind that a name stands for, if it is the name of one.
    pub open spec fn spec_from_name(name: Seq<char>) -> Option<NodeType> {
        if name == "Document"@ {
            Some(NodeType::Document)
        } else if name == "Table"@ {
            Some(NodeType::Table)
        } else if name == "Folder"@ {
            Some(NodeType::Folder)
        } else {
            None
        }
    }

    /// The name under which this kind is written in a record.
    pub fn name(self) -> (name: &'static str)
        ensures
            name@ == self.spec_name(),
    {
        match self {
            NodeType::Document => "Document",
            NodeType::Table => "Table",
            NodeType::Folder => "Folder",
        }
    }

    /// Reads a kind from its name. Any text but the three names gives `None`;
    /// no kind stands in for an unknown one.
    pub fn from_name(name: &str) -> (kind: Option<NodeType>)
        ensures
            kind == NodeType::spec_from_name(name@),
    {
        if str_eq(name, "Document") {
            Some(NodeType::Document)
        } else if str_eq(name, "Table") {
            Some(NodeType::Table)
        } else if str_eq(name, "Folder") {
            Some(NodeType::Folder)
        } else {
            None
        }
    }

    /// Each kind is read back from its own name, and only from it: the three
    /// names are three different texts.
    pub proof fn lemma_name_round_trip(kind: NodeType)
        ensures
            NodeType::spec_from_name(kind.spec_name()) == Some(kind),
            forall|name: Seq<char>|
                NodeType::spec_from_name(name) == Some(kind) ==> name == kind.spec_name(),
    {
        reveal_strlit("Document");
        reveal_strlit("Table");
        reveal_strlit("Folder");
        assert("Document"@.len() == 8);
        assert("Table"@.len() == 5);
        assert("Folder"@.len() == 6);
    }
}

/// A node as a mathematical value: the seven things it holds.
pub struct NodeView {
    /// The data source that owns the item.
    pub data_source_id: Seq<char>,
    /// The item's identifier within its data source.
    pub node_id: Seq<char>,
    /// What kind of item it is.
    pub node_type: NodeType,
    /// When the item was last changed, in the unit of its source.
    pub timestamp: u64,
    /// The name shown to people.
    pub title: Seq<char>,
    /// A hint at the kind of content.
    pub mime_type: Seq<char>,
    /// The identifiers of the containing folders, nearest first.
    pub parents: Seq<Seq<char>>,
}

impl NodeView {
    /// The pair that names one logical item across all data sources. Two
    /// snapshots with the same key are the same item, seen at two moments.
    pub open spec fn key(self) -> (Seq<char>, Seq<char>) {
        (self.data_source_id, self.node_id)
    }

    /// What a caller owes when it builds a node: both identifiers hold at
    /// least one character, and the node is not among its own ancestors.
    /// Building and reading a node never test this.
    pub open spec fn well_formed(self) -> bool {
        &&& self.data_source_id.len() > 0
        &&& self.node_id.len() > 0
        &&& !self.parents.contains(self.node_id)
    }

    /// A node without a parent sits at the root of its data source.
    pub open spec fn is_root(self) -> bool {
        self.parents.len() == 0
    }

    /// Two nodes are equal exactly when each of the seven parts is, the
    /// parents with their order: nodes built from the same parts are equal,
    /// and a change to any one part makes them unequal.
    pub proof fn lemma_equal_by_parts(a: NodeView, b: NodeView)
        ensures
            a == b <==> {
                &&& a.data_source_id == b.data_source_id
                &&& a.node_id == b.node_id
                &&& a.node_type == b.node_type
                &&& a.timestamp == b.timestamp
                &&& a.title == b.title
                &&& a.mime_type == b.mime_type
                &&& a.parents.len() == b.parents.len()
                &&& forall|i: int| 0 <= i < a.parents.len() ==> a.parents[i] == b.parents[i]
            },
    {
        if a.parents.len() == b.parents.len() && forall|i: int|
            0 <= i < a.parents.len() ==> a.parents[i] == b.parents[i] {
            assert(a.parents =~= b.parents);
        }
    }

    /// Equality is not identity: a snapshot of the same item taken at
    /// another time has the same key and is a different node.
    pub proof fn lemma_same_item_at_another_time(a: NodeView, timestamp: u64)
        requires
            timestamp != a.timestamp,
        ensures
            (NodeView { timestamp, ..a }).key() == a.key(),
            (NodeView { timestamp, ..a }) != a,
    {
    }

    /// A node at the root is never equal to a node below a folder.
    pub proof fn lemma_root_differs(root: NodeView, other: NodeView)
        requires
            root.is_root(),
            !other.is_root(),
        ensures
            root != other,
    {
    }
}

/// One item of a data source, as it was when the source was last read.
///
/// A node owns all it holds and cannot be changed once built. `parents` runs
/// from the folder that holds the item up to the root of the data source:
/// the first entry is the nearest folder, the last lies directly below the
/// root, and an empty list marks an item at the root.
#[derive(Debug)]
pub struct Node {
    data_source_id: String,
    node_id: String,
    node_type: NodeType,
    timestamp: u64,
    title: String,
    mime_type: String,
    parents: Vec<String>,
}

impl View for Node {
    type V = NodeView;

    closed spec fn view(&self) -> NodeView {
        NodeView {
            data_source_id: self.data_source_id@,
            node_id: self.node_id@,
            node_type: self.node_type,
            timestamp: self.timestamp,
            title: self.title@,
            mime_type: self.mime_type@,
            parents: texts(self.parents@),
        }
    }
}

impl Node {
    /// Builds a node from its seven parts. Nothing is tested and nothing can
    /// fail; the node holds its own copy of each text.
    pub fn new(
        data_source_id: &str,
        node_id: &str,
        node_type: NodeType,
        timestamp: u64,
        title: &str,
        mime_type: &str,
        parents: Vec<String>,
    ) -> (node: Node)
        ensures
            node@ == (NodeView {
                data_source_id: data_source_id@,
                node_id: node_id@,
                node_type,
                timestamp,
                title: title@,
                mime_type: mime_type@,
                parents: texts(parents@),
            }),
    {
        Node {
            data_source_id: data_source_id.to_owned(),
            node_id: node_id.to_owned(),
            node_type,
            timestamp,
            title: title.to_owned(),
            mime_type: mime_type.to_owned(),
            parents,
        }
    }

    /// The data source that owns the item.
    pub fn data_source_id(&self) -> (id: &str)
        ensures
            id@ == self@.data_source_id,
    {
        self.data_source_id.as_str()
    }

    /// When the item was last changed.
    pub fn timestamp(&self) -> (timestamp: u64)
        ensures
            timestamp == self@.timestamp,
    {
        self.timestamp
    }

    /// The item's identifier within its data source.
    pub fn node_id(&self) -> (id: &str)
        ensures
            id@ == self@.node_id,
    {
        self.node_id.as_str()
    }

    /// What kind of item it is.
    pub fn node_type(&self) -> (kind: NodeType)
        ensures
            kind == self@.node_type,
    {
        self.node_type
    }

    /// The name shown to people.
    pub fn title(&self) -> (title: &str)
        ensures
            title@ == self@.title,
    {
        self.title.as_str()
    }

    /// A hint at the kind of content.
    pub fn mime_type(&self) -> (mime_type: &str)
        ensures
            mime_type@ == self@.mime_type,
    {
        self.mime_type.as_str()
    }

    /// The identifiers of the containing folders, nearest first.
    pub fn parents(&self) -> (parents: &Vec<String>)
        ensures
            texts(parents@) == self@.parents,
    {
        &self.parents
    }

    /// Whether the node keeps what its builder owes: identifiers that are not
    /// empty, and a chain of parents that does not lead through the node
    /// itself.
    pub fn is_well_formed(&self) -> (kept: bool)
        ensures
            kept == self@.well_formed(),
    {
        !self.data_source_id.as_str().is_empty()
            && !self.node_id.as_str().is_empty()
            && !texts_contain(&self.parents, self.node_id.as_str())
    }

    /// Whether the node sits at the root of its data source.
    pub fn is_root(&self) -> (root: bool)
        ensures
            root == self@.is_root(),
    {
        self.parents.len() == 0
    }

    /// Whether two nodes are snapshots of one item: they agree in data source
    /// and identifier, whatever else they hold.
    pub fn same_item(&self, other: &Node) -> (same: bool)
        ensures
            same == (self@.key() == other@.key()),
    {
        str_eq(self.data_source_id.as_str(), other.data_source_id.as_str())
            && str_eq(self.node_id.as_str(), other.node_id.as_str())
    }
}

impl Clone for Node {
    /// A second node that owns its own copy of every part.
    fn clone(&self) -> (copy: Node)
        ensures
            copy@ == self@,
    {
        Node {
            data_source_id: self.data_source_id.clone(),
            node_id: self.node_id.clone(),
            node_type: self.node_type,
            timestamp: self.timestamp,
            title: self.title.clone(),
            mime_type: self.mime_type.clone(),
            parents: copy_texts(&self.parents),
        }
    }
}

impl PartialEq for Node {
    /// Two nodes are equal when all seven parts are: it is the values that
    /// are compared, not the identity of the item.
    fn eq(&self, other: &Node) -> (same: bool) {
        self.timestamp == other.timestamp
            && self.node_type == other.node_type
            && str_eq(self.data_source_id.as_str(), other.data_source_id.as_str())
            && str_eq(self.node_id.as_str(), other.node_id.as_str())
            && str_eq(self.title.as_str(), other.title.as_str())
            && str_eq(self.mime_type.as_str(), other.mime_type.as_str())
            && texts_eq(&self.parents, &other.parents)
    }
}

impl PartialEqSpecImpl for Node {
    open spec fn obeys_eq_spec() -> bool {
        true
    }

    open spec fn eq_spec(&self, other: &Node) -> bool {
        self@ == other@
    }
}

impl Eq for Node {}

} // verus!
