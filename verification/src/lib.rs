//! One item of an external data source, as a content index tracks it.
//!
//! A [`Node`] is an immutable snapshot of a document, a table or a folder:
//! who owns it, what it is called, when it last changed and which folders
//! lead from it up to the root of its source. The crate also fixes the
//! record in which a node travels to and from other systems, and proves that
//! reading a written node gives the same node back.

pub mod codec;
pub mod error;
pub mod node;
pub mod record;
pub mod text;

pub use crate::codec::{decode, encode};
pub use crate::error::{Fault, Field, MalformedRecord};
pub use crate::node::{Node, NodeType};
pub use crate::record::{Element, Entry, Found, Record, Value};
