//! Text assembled in a `string_builder::Builder`: what the builder holds,
//! and the operations on it.

use vstd::prelude::*;
use vstd::utf8::*;
use string_builder::Builder;

verus! {

/// Declares `string_builder::Builder`, a growable run of bytes, as a type
/// whose inside is not looked into.
#[verifier::external_type_specification]
#[verifier::external_body]
pub struct ExBuilder(Builder);

/// The bytes that a builder holds, in the order in which they were
/// appended.
pub uninterp spec fn builder_bytes(builder: Builder) -> Seq<u8>;

/// Calls `Builder::default`, which makes a builder that holds nothing.
#[verifier::external_body]
pub(crate) fn new_builder() -> (r: Builder)
    ensures
        builder_bytes(r) == Seq::<u8>::empty(),
{
    Builder::default()
}

/// Calls `Builder::append` with a text, which adds the text's bytes, its
/// UTF-8 encoding, at the end.
#[verifier::external_body]
pub(crate) fn append_text(builder: &mut Builder, text: &str)
    ensures
        builder_bytes(*final(builder)) == builder_bytes(*old(builder)) + encode_utf8(text@),
{
    builder.append(text)
}

/// Calls `Builder::append` with a character, which adds the character's
/// UTF-8 encoding at the end.
#[verifier::external_body]
pub(crate) fn append_char(builder: &mut Builder, character: char)
    ensures
        builder_bytes(*final(builder)) == builder_bytes(*old(builder)) + encode_utf8(
            seq![character],
        ),
{
    builder.append(character)
}

/// Calls `Builder::string`, which reads the bytes as UTF-8: the text that
/// they encode, or nothing where they encode none.
#[verifier::external_body]
pub(crate) fn builder_string(builder: Builder) -> (r: Option<String>)
    ensures
        r is Some <==> valid_utf8(builder_bytes(builder)),
        r matches Some(text) ==> text@ == decode_utf8(builder_bytes(builder)),
{
    builder.string().ok()
}

/// The encoding of two texts, one after the other, is the encoding of the
/// first followed by that of the second.
pub proof fn lemma_encode_concat(a: Seq<char>, b: Seq<char>)
    ensures
        encode_utf8(a + b) == encode_utf8(a) + encode_utf8(b),
    decreases a.len(),
{
    if a.len() == 0 {
        assert(a + b =~= b);
        assert(encode_utf8(a) + encode_utf8(b) =~= encode_utf8(b));
    } else {
        lemma_encode_concat(a.drop_first(), b);
        assert((a + b).drop_first() =~= a.drop_first() + b);
        assert((a + b)[0] == a[0]);
        assert(encode_utf8(a + b) =~= encode_utf8(a) + encode_utf8(b));
    }
}

/// Whether a builder holds the text `text`, that is, its UTF-8 encoding.
pub open spec fn holds(builder: Builder, text: Seq<char>) -> bool {
    builder_bytes(builder) == encode_utf8(text)
}

/// The text that is built when `added` is appended to what a builder
/// holds: what it held, followed by `added`, where it held text.
pub open spec fn extended(before: Builder, after: Builder, added: Seq<char>) -> bool {
    builder_bytes(after) == builder_bytes(before) + encode_utf8(added)
}

/// A builder that holds `text` and is extended by `added` holds both, one
/// after the other.
pub proof fn lemma_extended_holds(before: Builder, after: Builder, text: Seq<char>, added: Seq<char>)
    requires
        holds(before, text),
        extended(before, after, added),
    ensures
        holds(after, text + added),
{
    lemma_encode_concat(text, added);
}

/// Extending a builder twice extends it by both texts, one after the other.
pub proof fn lemma_extended_twice(
    before: Builder,
    between: Builder,
    after: Builder,
    first: Seq<char>,
    second: Seq<char>,
)
    requires
        extended(before, between, first),
        extended(between, after, second),
    ensures
        extended(before, after, first + second),
{
    lemma_encode_concat(first, second);
    assert(builder_bytes(after) =~= builder_bytes(before) + (encode_utf8(first) + encode_utf8(
        second,
    )));
}

} // verus!
