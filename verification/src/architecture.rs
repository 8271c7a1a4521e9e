//! The CPU architectures a node or an image can have, and their names.

use vstd::prelude::*;
use crate::utils::same_text;

verus! {

/// A supported CPU architecture.
#[derive(Clone, Copy, Debug, PartialEq, Eq, Structural)]
pub enum Architecture {
    ARM64,
    X86_64,
}

/// The failure of [`Architecture::parse`]: the text names no architecture.
#[derive(Debug)]
pub struct ParseError {
    /// The text that was not recognised.
    pub input: String,
}

impl Architecture {
    /// The canonical name of an architecture.
    pub open spec fn spec_name(self) -> Seq<char> {
        match self {
            Architecture::ARM64 => "ARM64"@,
            Architecture::X86_64 => "X86_64"@,
        }
    }

    /// The architecture that a text names: an exact, case-sensitive match
    /// of a canonical name, or nothing.
    pub open spec fn spec_parse(text: Seq<char>) -> Option<Architecture> {
        if text == "ARM64"@ {
            Some(Architecture::ARM64)
        } else if text == "X86_64"@ {
            Some(Architecture::X86_64)
        } else {
            None
        }
    }

    /// The canonical name.
    pub fn get_name(&self) -> (r: &'static str)
        ensures
            r@ == self.spec_name(),
    {
        match self {
            Architecture::ARM64 => "ARM64",
            Architecture::X86_64 => "X86_64",
        }
    }

    /// Reads a canonical name. Any other text is an error that carries the
    /// text back.
    pub fn parse(name: &str) -> (r: Result<Architecture, ParseError>)
        ensures
            match r {
                Ok(a) => Architecture::spec_parse(name@) == Some(a),
                Err(e) => Architecture::spec_parse(name@) is None && e.input@ == name@,
            },
    {
        if same_text(name, "ARM64") {
            Ok(Architecture::ARM64)
        } else if same_text(name, "X86_64") {
            Ok(Architecture::X86_64)
        } else {
            Err(ParseError { input: name.to_owned() })
        }
    }

    /// Reads a canonical name, with ARM64 for any other text.
    pub fn parse_or_default(name: &str) -> (r: Architecture)
        ensures
            r == Architecture::spec_parse_or_default(name@),
    {
        match Architecture::parse(name) {
            Ok(a) => a,
            Err(_) => Architecture::ARM64,
        }
    }

    /// The architecture that a text names, ARM64 where it names none.
    pub open spec fn spec_parse_or_default(text: Seq<char>) -> Architecture {
        match Architecture::spec_parse(text) {
            Some(a) => a,
            None => Architecture::ARM64,
        }
    }
}

/// The canonical names differ from one another.
pub proof fn lemma_names_differ()
    ensures
        "ARM64"@ != "X86_64"@,
{
    reveal_strlit("ARM64");
    reveal_strlit("X86_64");
    assert("ARM64"@.len() == 5);
    assert("X86_64"@.len() == 6);
}

/// Parsing the name of an architecture gives that architecture back.
pub proof fn lemma_parse_inverts_name(a: Architecture)
    ensures
        Architecture::spec_parse(a.spec_name()) == Some(a),
{
    lemma_names_differ();
}

/// Naming what a text parsed to and parsing that name again gives the first
/// result: every text that names an architecture is its canonical name.
pub proof fn lemma_parse_round_trip(text: Seq<char>)
    requires
        Architecture::spec_parse(text) is Some,
    ensures
        Architecture::spec_parse(Architecture::spec_parse(text).unwrap().spec_name())
            == Architecture::spec_parse(text),
        Architecture::spec_parse(text).unwrap().spec_name() == text,
{
    lemma_names_differ();
}

} // verus!
