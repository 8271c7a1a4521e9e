//! Declarative documents: the tree of scalars, sequences and mappings that
//! a deployment is described in.

use vstd::prelude::*;
use crate::utils::same_text;

verus! {

/// A node of a declarative document.
#[derive(Debug)]
pub enum Document {
    /// No value.
    Null,
    /// A truth value.
    Boolean(bool),
    /// A whole number.
    Integer(i64),
    /// A piece of text.
    Text(String),
    /// An ordered list of nodes.
    Sequence(Vec<Document>),
    /// An ordered list of key and value pairs.
    Mapping(Vec<Entry>),
    /// Anything else: it reads as neither text, number, list nor mapping.
    Other,
}

/// One pair of a mapping.
#[derive(Debug)]
pub struct Entry {
    pub key: Document,
    pub value: Document,
}

/// The value of the first pair of `entries`, from position `from` on, whose
/// key is the text `key`.
pub open spec fn lookup_from(entries: Seq<Entry>, key: Seq<char>, from: int) -> Option<Document>
    decreases entries.len() - from,
{
    if from < 0 || from >= entries.len() {
        None
    } else if entries[from].key.spec_text() == Some(key) {
        Some(entries[from].value)
    } else {
        lookup_from(entries, key, from + 1)
    }
}

/// The value that a mapping holds under the text `key`: that of the first
/// pair with this key.
pub open spec fn lookup(entries: Seq<Entry>, key: Seq<char>) -> Option<Document> {
    lookup_from(entries, key, 0)
}

/// The text of an optional node, empty where there is no node or no text.
pub open spec fn text_or_empty(node: Option<Document>) -> Seq<char> {
    match node {
        Some(d) => d.spec_text_or_empty(),
        None => Seq::empty(),
    }
}

impl Document {
    /// The text of a node, if it is text.
    pub open spec fn spec_text(self) -> Option<Seq<char>> {
        match self {
            Document::Text(s) => Some(s@),
            _ => None,
        }
    }

    /// The text of a node, empty where it is not text.
    pub open spec fn spec_text_or_empty(self) -> Seq<char> {
        match self {
            Document::Text(s) => s@,
            _ => Seq::empty(),
        }
    }

    /// The number of a node, 0 where it is not a whole number.
    pub open spec fn spec_integer_or_zero(self) -> i64 {
        match self {
            Document::Integer(n) => n,
            _ => 0,
        }
    }

    /// What a node holds under the text `key`: nothing unless it is a
    /// mapping with such a pair.
    pub open spec fn spec_field(self, key: Seq<char>) -> Option<Document> {
        match self {
            Document::Mapping(entries) => lookup(entries@, key),
            _ => None,
        }
    }

    /// The text of a node, empty where it is not text.
    pub fn text_or_empty(&self) -> (r: String)
        ensures
            r@ == self.spec_text_or_empty(),
    {
        match self {
            Document::Text(s) => s.clone(),
            _ => String::new(),
        }
    }

    /// The number of a node, 0 where it is not a whole number.
    pub fn integer_or_zero(&self) -> (r: i64)
        ensures
            r == self.spec_integer_or_zero(),
    {
        match self {
            Document::Integer(n) => *n,
            _ => 0,
        }
    }

    /// Whether the node is the text `key`.
    pub fn is_text(&self, key: &str) -> (r: bool)
        ensures
            r == (self.spec_text() == Some(key@)),
    {
        match self {
            Document::Text(s) => same_text(s.as_str(), key),
            _ => false,
        }
    }

    /// What a node holds under the text `key`.
    pub fn field(&self, key: &str) -> (r: Option<&Document>)
        ensures
            match r {
                Some(d) => self.spec_field(key@) == Some(*d),
                None => self.spec_field(key@) is None,
            },
    {
        match self {
            Document::Mapping(entries) => find(entries, key),
            _ => None,
        }
    }
}

/// The value that a mapping holds under the text `key`.
pub fn find<'a>(entries: &'a Vec<Entry>, key: &str) -> (r: Option<&'a Document>)
    ensures
        match r {
            Some(d) => lookup(entries@, key@) == Some(*d),
            None => lookup(entries@, key@) is None,
        },
{
    let mut i: usize = 0;
    while i < entries.len()
        invariant
            i <= entries@.len(),
            lookup(entries@, key@) == lookup_from(entries@, key@, i as int),
        decreases entries@.len() - i,
    {
        if entries[i].key.is_text(key) {
            return Some(&entries[i].value);
        }
        i += 1;
    }
    None
}

/// The text held under `key`, empty where the mapping has no such pair or
/// the value is not text.
pub fn find_text(entries: &Vec<Entry>, key: &str) -> (r: String)
    ensures
        r@ == text_or_empty(lookup(entries@, key@)),
{
    match find(entries, key) {
        Some(d) => d.text_or_empty(),
        None => String::new(),
    }
}

} // verus!
