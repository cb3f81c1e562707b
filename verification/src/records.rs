//! The operations on records, and the keys of the store.

use vstd::prelude::*;

use crate::json::{json_clone, json_model, JsonView};
use crate::types::{Nsid, RecordKey};

pub mod keys;

verus! {

/// An operation on a record.
#[derive(Debug)]
pub enum RecordOp {
    Create { collection: Nsid, rkey: RecordKey, value: serde_json::Value },
    Update { collection: Nsid, rkey: RecordKey, value: serde_json::Value },
    Delete { collection: Nsid, rkey: RecordKey },
}

/// What an operation on a record holds.
pub enum RecordOpView {
    Create { collection: Seq<char>, rkey: Seq<char>, value: JsonView },
    Update { collection: Seq<char>, rkey: Seq<char>, value: JsonView },
    Delete { collection: Seq<char>, rkey: Seq<char> },
}

impl View for RecordOp {
    type V = RecordOpView;

    open spec fn view(&self) -> RecordOpView {
        match self {
            RecordOp::Create { collection, rkey, value } => RecordOpView::Create {
                collection: collection@,
                rkey: rkey@,
                value: json_model(*value),
            },
            RecordOp::Update { collection, rkey, value } => RecordOpView::Update {
                collection: collection@,
                rkey: rkey@,
                value: json_model(*value),
            },
            RecordOp::Delete { collection, rkey } => RecordOpView::Delete {
                collection: collection@,
                rkey: rkey@,
            },
        }
    }
}

impl Clone for RecordOp {
    fn clone(&self) -> (c: RecordOp)
        ensures
            c@ == self@,
    {
        match self {
            RecordOp::Create { collection, rkey, value } => RecordOp::Create {
                collection: collection.clone(),
                rkey: rkey.clone(),
                value: json_clone(value),
            },
            RecordOp::Update { collection, rkey, value } => RecordOp::Update {
                collection: collection.clone(),
                rkey: rkey.clone(),
                value: json_clone(value),
            },
            RecordOp::Delete { collection, rkey } => RecordOp::Delete {
                collection: collection.clone(),
                rkey: rkey.clone(),
            },
        }
    }
}

} // verus!
