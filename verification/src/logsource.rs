//! Descriptors of the log sources of a node.

use vstd::prelude::*;

verus! {

/// A source of logs on a node. The model carries it through unread.
#[derive(Debug, Clone)]
pub struct LogSource {
    pub source: String,
}

} // verus!
