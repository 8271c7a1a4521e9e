//! Shared helpers: generated names, the text of table cells, lists and
//! lines of text.

use vstd::prelude::*;
use vstd::string::*;
use vstd::utf8::*;
use string_builder::Builder;
use crate::builder::{
    append_char,
    append_text,
    builder_bytes,
    builder_string,
    extended,
    holds,
    lemma_extended_holds,
    lemma_extended_twice,
    new_builder,
};
use crate::timestamp::Timestamp;

verus! {

/// The text that stands in a table for a value that is absent: one em dash.
pub open spec fn placeholder() -> Seq<char> {
    "\u{2014}"@
}

/// The placeholder is not the empty text.
pub proof fn lemma_placeholder_not_empty()
    ensures
        placeholder().len() == 1,
{
    reveal_strlit("\u{2014}");
}

/// Whether two pieces of text hold the same characters.
pub fn same_text(a: &str, b: &str) -> (r: bool)
    ensures
        r == (a@ == b@),
{
    let left = a.to_owned();
    let right = b.to_owned();
    left == right
}

/// Two words with a hyphen between them.
pub open spec fn hyphenated(first: Seq<char>, second: Seq<char>) -> Seq<char> {
    first + seq!['-'] + second
}

/// Whether a text has the form of a generated name: two words, neither of
/// them empty, with a hyphen between them.
pub open spec fn is_generated_name(name: Seq<char>) -> bool {
    exists|first: Seq<char>, second: Seq<char>|
        first.len() > 0 && second.len() > 0 && name == #[trigger] hyphenated(first, second)
}

/// Asks the `names` crate's default `Generator` for its next name. Which
/// name comes back is drawn at random. The default generator names plainly:
/// it writes an adjective and a noun of its two word lists, neither of
/// which holds an empty word, with a hyphen between them. The contract
/// claims that form of every name, and nothing else.
#[verifier::external_body]
fn generate_name() -> (r: Option<String>)
    ensures
        r matches Some(name) ==> is_generated_name(name@),
{
    let mut generator = names::Generator::default();
    generator.next()
}

/// The generated name, or `random-name` where the generator gave none.
pub fn name_or_fallback(generated: Option<String>) -> (r: String)
    ensures
        r@ == match generated {
            Some(name) => name@,
            None => "random-name"@,
        },
{
    match generated {
        Some(name) => name,
        None => "random-name".to_owned(),
    }
}

/// The fallback name has the form of a generated name.
pub proof fn lemma_fallback_is_generated_name()
    ensures
        is_generated_name("random-name"@),
{
    reveal_strlit("random-name");
    reveal_strlit("random");
    reveal_strlit("name");
    assert("random-name"@ =~= hyphenated("random"@, "name"@));
}

/// A freshly generated random name: two words with a hyphen between them.
/// Which words is left open.
pub fn get_random_name() -> (r: String)
    ensures
        is_generated_name(r@),
{
    proof {
        lemma_fallback_is_generated_name();
    }
    name_or_fallback(generate_name())
}

/// The text of an optional cell.
pub open spec fn option_cell(content: Option<String>) -> Seq<char> {
    match content {
        Some(text) => text@,
        None => placeholder(),
    }
}

/// The text of a cell that holds an optional instant: the instant as the
/// calendar prints it, the placeholder where there is no instant or the
/// calendar does not cover it.
pub open spec fn date_cell(content: Option<Timestamp>) -> Seq<char> {
    match content {
        Some(instant) => match instant.spec_text() {
            Some(text) => text,
            None => placeholder(),
        },
        None => placeholder(),
    }
}

/// The cell for an optional text: the text, or the placeholder where it is
/// absent.
pub fn get_cell_content_of_option(content: &Option<String>) -> (r: String)
    ensures
        r@ == option_cell(*content),
        content is None ==> r@.len() > 0,
{
    proof {
        lemma_placeholder_not_empty();
    }
    match content {
        Some(text) => text.clone(),
        None => "\u{2014}".to_owned(),
    }
}

/// The cell for an optional instant: `YYYY-MM-DD HH:MM:SS`, or the
/// placeholder where it is absent.
pub fn get_cell_content_of_date(content: &Option<Timestamp>) -> (r: String)
    ensures
        r@ == date_cell(*content),
        content is None ==> r@.len() > 0,
{
    proof {
        lemma_placeholder_not_empty();
    }
    match content {
        Some(instant) => match instant.format() {
            Some(text) => text,
            None => "\u{2014}".to_owned(),
        },
        None => "\u{2014}".to_owned(),
    }
}

/// How many blanks bring content of `content_size` up to
/// `preferred_size`: none where it is already as long or longer.
pub fn align_content(preferred_size: usize, content_size: usize) -> (r: usize)
    ensures
        r == if preferred_size < content_size {
            0
        } else {
            preferred_size - content_size
        },
{
    if preferred_size < content_size {
        return 0;
    }
    preferred_size - content_size
}

/// The texts of a list of cells, in their order.
pub open spec fn texts_of(cells: Seq<String>) -> Seq<Seq<char>> {
    Seq::new(cells.len(), |i: int| cells[i]@)
}

/// The word for a truth value in a table: `yes` or `no`.
pub open spec fn yes_or_no(flag: bool) -> Seq<char> {
    if flag {
        "yes"@
    } else {
        "no"@
    }
}

/// The cell for a truth value: `yes` or `no`.
pub fn get_cell_content_of_flag(flag: bool) -> (r: String)
    ensures
        r@ == yes_or_no(flag),
{
    if flag {
        "yes".to_owned()
    } else {
        "no".to_owned()
    }
}

/// The text that `replace` of `str` gives: `text` with every match of
/// `needle`, found from the left and without overlap, replaced by
/// `replacement`.
pub uninterp spec fn replaced(text: Seq<char>, needle: Seq<char>, replacement: Seq<char>) -> Seq<char>;

/// Calls `replace` of `str`. The contract only names the text: it is a
/// function of the three arguments.
#[verifier::external_body]
fn replace_all(text: &str, needle: &str, replacement: &str) -> (r: String)
    ensures
        r@ == replaced(text@, needle@, replacement@),
{
    text.replace(needle, replacement)
}

/// Whether `needle` occurs in `text` as a run of adjacent characters.
pub open spec fn contains_text(text: Seq<char>, needle: Seq<char>) -> bool {
    exists|i: int|
        0 <= i <= text.len() - needle.len() && #[trigger] text.subrange(i, i + needle.len())
            == needle
}

/// Calls `contains` of `str`, which std documents to tell whether the
/// pattern matches a part of the text.
#[verifier::external_body]
fn has_substring(text: &str, needle: &str) -> (r: bool)
    ensures
        r == contains_text(text@, needle@),
{
    text.contains(needle)
}

/// A value between double quotes, with a backslash before each double
/// quote of its own: one that already had two backslashes before it ends
/// up with one.
pub open spec fn quoted(value: Seq<char>) -> Seq<char> {
    seq!['"'] + replaced(replaced(value, "\""@, "\\\""@), "\\\\\""@, "\\\""@) + seq!['"']
}

/// The value between double quotes, its own double quotes escaped.
pub fn quote(value: &str) -> (r: String)
    ensures
        r@ == quoted(value@),
{
    let escaped = replace_all(value, "\"", "\\\"");
    let result = replace_all(escaped.as_str(), "\\\\\"", "\\\"");
    let mut text = "\"".to_owned();
    text.append(result.as_str());
    text.append("\"");
    proof {
        reveal_strlit("\"");
        assert("\""@ =~= seq!['"']);
        assert(text@ =~= quoted(value@));
    }
    text
}

/// A line without the three colour codes that a console writes: reset,
/// green, and bold green.
pub open spec fn without_colors(line: Seq<char>) -> Seq<char> {
    replaced(
        replaced(replaced(line, "\u{1b}[0m"@, ""@), "\u{1b}[0;32m"@, ""@),
        "\u{1b}[1;32m"@,
        ""@,
    )
}

/// The line without its colour codes.
pub fn remove_colors(line: &str) -> (r: String)
    ensures
        r@ == without_colors(line@),
{
    let first = replace_all(line, "\u{1b}[0m", "");
    let second = replace_all(first.as_str(), "\u{1b}[0;32m", "");
    replace_all(second.as_str(), "\u{1b}[1;32m", "")
}

/// The lines that contain `needle`, in their order.
pub fn filter_lines_by_substring(lines: &[String], needle: &str) -> (r: Vec<String>)
    ensures
        texts_of(r@) == texts_of(lines@).filter(|line: Seq<char>| contains_text(line, needle@)),
{
    let ghost keep = |line: Seq<char>| contains_text(line, needle@);
    let mut kept: Vec<String> = Vec::new();
    let mut i: usize = 0;
    while i < lines.len()
        invariant
            i <= lines@.len(),
            keep == |line: Seq<char>| contains_text(line, needle@),
            texts_of(kept@) == texts_of(lines@).take(i as int).filter(keep),
        decreases lines@.len() - i,
    {
        let ghost before = texts_of(kept@);
        proof {
            reveal(Seq::filter);
            assert(texts_of(lines@).take(i + 1).drop_last() =~= texts_of(lines@).take(i as int));
            assert(texts_of(lines@).take(i + 1).last() == lines@[i as int]@);
        }
        if has_substring(lines[i].as_str(), needle) {
            kept.push(lines[i].clone());
            proof {
                assert(texts_of(kept@) =~= before.push(lines@[i as int]@));
            }
        }
        i += 1;
    }
    proof {
        assert(texts_of(lines@).take(i as int) =~= texts_of(lines@));
    }
    kept
}

/// Paints a text green with the `colored` crate. Whether it adds colour
/// codes depends on the terminal and the environment, so nothing is
/// claimed of the text that comes back.
#[verifier::external_body]
fn paint_green(text: &str) -> (r: String) {
    colored::Colorize::green(text).to_string()
}

/// Paints a text red with the `colored` crate. Whether it adds colour
/// codes depends on the terminal and the environment, so nothing is
/// claimed of the text that comes back.
#[verifier::external_body]
fn paint_red(text: &str) -> (r: String) {
    colored::Colorize::red(text).to_string()
}

/// A painted word between square brackets: with two blanks on either side
/// for a success, with none for a failure.
pub open spec fn status_frame(result: bool, painted: Seq<char>) -> Seq<char> {
    if result {
        "[  "@ + painted + "  ]"@
    } else {
        "["@ + painted + "]"@
    }
}

/// The painted word in its frame.
pub fn frame_status(result: bool, painted: &str) -> (r: String)
    ensures
        r@ == status_frame(result, painted@),
{
    if result {
        let mut text = "[  ".to_owned();
        text.append(painted);
        text.append("  ]");
        text
    } else {
        let mut text = "[".to_owned();
        text.append(painted);
        text.append("]");
        text
    }
}

/// The mark of a success or a failure: the word `OK` in green or the word
/// `FAILED` in red, in its frame. What painting does to the word is left
/// open.
pub fn get_ok_or_error(result: bool) -> (r: String)
    ensures
        exists|painted: Seq<char>| r@ == #[trigger] status_frame(result, painted),
{
    let painted = if result {
        paint_green("OK")
    } else {
        paint_red("FAILED")
    };
    let text = frame_status(result, painted.as_str());
    proof {
        assert(text@ == status_frame(result, painted@));
    }
    text
}

/// Whether a file's checksum, where one could be computed, is `checksum`.
pub fn sha256sum_matches(sum: &Option<String>, checksum: &str) -> (r: bool)
    ensures
        r == match *sum {
            Some(text) => text@ == checksum@,
            None => false,
        },
{
    match sum {
        Some(text) => same_text(text.as_str(), checksum),
        None => false,
    }
}

/// A run of `count` blanks.
pub open spec fn blanks(count: nat) -> Seq<char> {
    Seq::new(count, |i: int| ' ')
}

/// The texts of `items` one after the other, with `separator` between each
/// two.
pub open spec fn joined(items: Seq<Seq<char>>, separator: Seq<char>) -> Seq<char>
    decreases items.len(),
{
    if items.len() == 0 {
        Seq::empty()
    } else if items.len() == 1 {
        items[0]
    } else {
        joined(items.drop_last(), separator) + separator + items.last()
    }
}

/// The items of a list as the list shows them: each as it is, or each
/// quoted.
pub open spec fn shown_items(items: Seq<Seq<char>>, quotes: bool) -> Seq<Seq<char>> {
    Seq::new(
        items.len(),
        |i: int|
            if quotes {
                quoted(items[i])
            } else {
                items[i]
            },
    )
}

/// A list as text: its items between square brackets, with a comma and a
/// blank between each two.
pub open spec fn listed(items: Seq<Seq<char>>, quotes: bool) -> Seq<char> {
    seq!['['] + joined(shown_items(items, quotes), seq![',', ' ']) + seq![']']
}

/// Appends `indentation` blanks to what the builder holds.
pub fn add_whitespaces(builder: &mut Builder, indentation: usize)
    ensures
        extended(*old(builder), *final(builder), blanks(indentation as nat)),
{
    let mut j: usize = 0;
    proof {
        assert(blanks(0) =~= Seq::<char>::empty());
        assert(builder_bytes(*builder) + encode_utf8(blanks(0)) =~= builder_bytes(*builder));
    }
    while j < indentation
        invariant
            j <= indentation,
            extended(*old(builder), *builder, blanks(j as nat)),
        decreases indentation - j,
    {
        let ghost before = *builder;
        append_char(builder, ' ');
        proof {
            lemma_extended_twice(*old(builder), before, *builder, blanks(j as nat), seq![' ']);
            assert(blanks(j as nat) + seq![' '] =~= blanks((j + 1) as nat));
        }
        j += 1;
    }
}

/// Appends `indentation` blanks and then `string` to what the builder
/// holds.
pub fn ident_and_append(builder: &mut Builder, string: &str, indentation: usize)
    ensures
        extended(*old(builder), *final(builder), blanks(indentation as nat) + string@),
{
    add_whitespaces(builder, indentation);
    let ghost between = *builder;
    append_text(builder, string);
    proof {
        lemma_extended_twice(*old(builder), between, *builder, blanks(indentation as nat), string@);
    }
}

/// The length of a text in bytes, as `len` of `str` gives it: the length of
/// its UTF-8 encoding.
pub open spec fn byte_length(text: Seq<char>) -> usize {
    encode_utf8(text).len() as usize
}

/// One line `key = value`: indented by `indentation` blanks, with the
/// equals sign where a key of `preferred_size` bytes would end, or right
/// after the key where that is longer.
pub open spec fn key_value_line(
    indentation: nat,
    preferred_size: nat,
    key: Seq<char>,
    value: Seq<char>,
) -> Seq<char> {
    blanks(indentation) + key + blanks(
        if preferred_size < byte_length(key) {
            0
        } else {
            (preferred_size - byte_length(key)) as nat
        },
    ) + seq![' ', '=', ' '] + value + seq!['\n']
}

/// Appends one line `key = value` to what the builder holds, indented and
/// with its equals sign aligned.
pub fn add_indented_aligned_key_value(
    builder: &mut Builder,
    indentation: usize,
    preferred_size: usize,
    key: &str,
    value: &str,
)
    ensures
        extended(
            *old(builder),
            *final(builder),
            key_value_line(indentation as nat, preferred_size as nat, key@, value@),
        ),
{
    ident_and_append(builder, key, indentation);
    let ghost first = *builder;
    let padding = align_content(preferred_size, key.len());
    add_whitespaces(builder, padding);
    let ghost second = *builder;
    append_text(builder, " = ");
    let ghost third = *builder;
    append_text(builder, value);
    let ghost fourth = *builder;
    append_text(builder, "\n");
    proof {
        reveal_strlit(" = ");
        reveal_strlit("\n");
        assert(" = "@ =~= seq![' ', '=', ' ']);
        assert("\n"@ =~= seq!['\n']);
        let a = blanks(indentation as nat) + key@;
        let b = blanks(padding as nat);
        lemma_extended_twice(*old(builder), first, second, a, b);
        lemma_extended_twice(*old(builder), second, third, a + b, " = "@);
        lemma_extended_twice(*old(builder), third, fourth, a + b + " = "@, value@);
        lemma_extended_twice(*old(builder), fourth, *builder, a + b + " = "@ + value@, "\n"@);
        assert(key.spec_bytes() == encode_utf8(key@));
        assert(a + b + " = "@ + value@ + "\n"@ =~= key_value_line(
            indentation as nat,
            preferred_size as nat,
            key@,
            value@,
        ));
    }
}

/// What a list shows of its first `upto` items: the items with a comma
/// and a blank between each two, and after the last of them where more
/// items follow.
pub open spec fn listed_items(items: Seq<Seq<char>>, upto: int) -> Seq<char> {
    joined(items.take(upto), seq![',', ' ']) + if 0 < upto < items.len() {
        seq![',', ' ']
    } else {
        Seq::empty()
    }
}

/// The text of a list of texts: the items between square brackets, with a
/// comma and a blank between each two; each item quoted where `quotes` is
/// set.
pub fn vec_to_string(vec: &[String], quotes: bool) -> (r: String)
    ensures
        r@ == listed(texts_of(vec@), quotes),
{
    let ghost items = shown_items(texts_of(vec@), quotes);
    let ghost separator = seq![',', ' '];
    let mut builder = new_builder();
    proof {
        assert(encode_utf8(Seq::<char>::empty()) =~= Seq::<u8>::empty());
    }
    let ghost empty = builder;
    append_text(&mut builder, "[");
    proof {
        reveal_strlit("[");
        reveal_strlit(", ");
        reveal_strlit("]");
        assert("["@ =~= seq!['[']);
        assert(", "@ =~= separator);
        assert("]"@ =~= seq![']']);
        lemma_extended_holds(empty, builder, Seq::empty(), "["@);
        assert(items.take(0) =~= Seq::<Seq<char>>::empty());
        assert(Seq::<char>::empty() + "["@ =~= seq!['['] + listed_items(items, 0));
    }
    let mut i: usize = 0;
    while i < vec.len()
        invariant
            i <= vec@.len(),
            items == shown_items(texts_of(vec@), quotes),
            separator == seq![',', ' '],
            ", "@ == separator,
            holds(builder, seq!['['] + listed_items(items, i as int)),
        decreases vec@.len() - i,
    {
        let ghost before = builder;
        let ghost text = seq!['['] + listed_items(items, i as int);
        if quotes {
            let item = quote(vec[i].as_str());
            append_text(&mut builder, item.as_str());
        } else {
            append_text(&mut builder, vec[i].as_str());
        }
        proof {
            lemma_extended_holds(before, builder, text, items[i as int]);
        }
        let ghost between = builder;
        if i < vec.len() - 1 {
            append_text(&mut builder, ", ");
            proof {
                lemma_extended_holds(between, builder, text + items[i as int], separator);
            }
        }
        proof {
            assert(items.take(i + 1).drop_last() =~= items.take(i as int));
            assert(items.take(i + 1).last() == items[i as int]);
            if i == 0 {
                assert(joined(items.take(1), separator) == items[0]);
                assert(joined(items.take(0), separator) =~= Seq::<char>::empty());
            }
            if i < vec@.len() - 1 {
                assert(text + items[i as int] + separator =~= seq!['['] + listed_items(
                    items,
                    i + 1,
                ));
            } else {
                assert(text + items[i as int] =~= seq!['['] + listed_items(items, i + 1));
            }
        }
        i += 1;
    }
    let ghost before = builder;
    let ghost text = seq!['['] + listed_items(items, i as int);
    append_text(&mut builder, "]");
    proof {
        lemma_extended_holds(before, builder, text, "]"@);
        assert(items.take(i as int) =~= items);
        assert(text + "]"@ =~= listed(texts_of(vec@), quotes));
        encode_utf8_valid_utf8(listed(texts_of(vec@), quotes));
        encode_utf8_decode_utf8(listed(texts_of(vec@), quotes));
    }
    match builder_string(builder) {
        Some(string) => string,
        None => String::new(),
    }
}

/// The lines as the content of a file: one after the other, with a line
/// feed between each two.
pub open spec fn file_content(lines: Seq<Seq<char>>) -> Seq<char> {
    joined(lines, seq!['\n'])
}

/// The content of a file that holds the given lines.
pub fn join_lines(lines: &[String]) -> (r: String)
    ensures
        r@ == file_content(texts_of(lines@)),
{
    let ghost items = texts_of(lines@);
    let mut content = String::new();
    let mut i: usize = 0;
    proof {
        reveal_strlit("\n");
        assert("\n"@ =~= seq!['\n']);
        assert(items.take(0) =~= Seq::<Seq<char>>::empty());
    }
    while i < lines.len()
        invariant
            i <= lines@.len(),
            items == texts_of(lines@),
            "\n"@ == seq!['\n'],
            content@ == file_content(items.take(i as int)),
        decreases lines@.len() - i,
    {
        proof {
            assert(items.take(i + 1).drop_last() =~= items.take(i as int));
            assert(items.take(i + 1).last() == items[i as int]);
        }
        if i > 0 {
            content.append("\n");
        }
        content.append(lines[i].as_str());
        proof {
            if i == 0 {
                assert(content@ =~= items[0]);
            }
        }
        i += 1;
    }
    proof {
        assert(items.take(i as int) =~= items);
    }
    content
}

/// The lines one after the other, with nothing between them.
pub fn concat_lines(lines: &[String]) -> (r: String)
    ensures
        r@ == joined(texts_of(lines@), Seq::empty()),
{
    let ghost items = texts_of(lines@);
    let mut builder = new_builder();
    let mut i: usize = 0;
    proof {
        assert(encode_utf8(Seq::<char>::empty()) =~= Seq::<u8>::empty());
        assert(items.take(0) =~= Seq::<Seq<char>>::empty());
    }
    while i < lines.len()
        invariant
            i <= lines@.len(),
            items == texts_of(lines@),
            holds(builder, joined(items.take(i as int), Seq::empty())),
        decreases lines@.len() - i,
    {
        let ghost before = builder;
        let ghost text = joined(items.take(i as int), Seq::empty());
        append_text(&mut builder, lines[i].as_str());
        proof {
            lemma_extended_holds(before, builder, text, items[i as int]);
            assert(items.take(i + 1).drop_last() =~= items.take(i as int));
            assert(items.take(i + 1).last() == items[i as int]);
            if i == 0 {
                assert(text + items[0] =~= items[0]);
            } else {
                assert(text + items[i as int] =~= text + Seq::<char>::empty() + items[i as int]);
            }
        }
        i += 1;
    }
    proof {
        assert(items.take(i as int) =~= items);
        encode_utf8_valid_utf8(joined(items, Seq::empty()));
        encode_utf8_decode_utf8(joined(items, Seq::empty()));
    }
    match builder_string(builder) {
        Some(string) => string,
        None => String::new(),
    }
}

/// The lines and one more line after them.
pub fn append_line(lines: Vec<String>, line: String) -> (r: Vec<String>)
    ensures
        r@ == lines@.push(line),
{
    let mut all = lines;
    all.push(line);
    all
}

/// The lines that are not `line`, in their order.
pub fn remove_line(lines: &[String], line: &str) -> (r: Vec<String>)
    ensures
        texts_of(r@) == texts_of(lines@).filter(|text: Seq<char>| text != line@),
{
    let ghost keep = |text: Seq<char>| text != line@;
    let mut kept: Vec<String> = Vec::new();
    let mut i: usize = 0;
    while i < lines.len()
        invariant
            i <= lines@.len(),
            keep == |text: Seq<char>| text != line@,
            texts_of(kept@) == texts_of(lines@).take(i as int).filter(keep),
        decreases lines@.len() - i,
    {
        let ghost before = texts_of(kept@);
        proof {
            reveal(Seq::filter);
            assert(texts_of(lines@).take(i + 1).drop_last() =~= texts_of(lines@).take(i as int));
            assert(texts_of(lines@).take(i + 1).last() == lines@[i as int]@);
        }
        if !same_text(lines[i].as_str(), line) {
            kept.push(lines[i].clone());
            proof {
                assert(texts_of(kept@) =~= before.push(lines@[i as int]@));
            }
        }
        i += 1;
    }
    proof {
        assert(texts_of(lines@).take(i as int) =~= texts_of(lines@));
    }
    kept
}

/// The lines that do not contain `substring`, in their order.
pub fn remove_lines_with_substring(lines: &[String], substring: &str) -> (r: Vec<String>)
    ensures
        texts_of(r@) == texts_of(lines@).filter(
            |text: Seq<char>| !contains_text(text, substring@),
        ),
{
    let ghost keep = |text: Seq<char>| !contains_text(text, substring@);
    let mut kept: Vec<String> = Vec::new();
    let mut i: usize = 0;
    while i < lines.len()
        invariant
            i <= lines@.len(),
            keep == |text: Seq<char>| !contains_text(text, substring@),
            texts_of(kept@) == texts_of(lines@).take(i as int).filter(keep),
        decreases lines@.len() - i,
    {
        let ghost before = texts_of(kept@);
        proof {
            reveal(Seq::filter);
            assert(texts_of(lines@).take(i + 1).drop_last() =~= texts_of(lines@).take(i as int));
            assert(texts_of(lines@).take(i + 1).last() == lines@[i as int]@);
        }
        if !has_substring(lines[i].as_str(), substring) {
            kept.push(lines[i].clone());
            proof {
                assert(texts_of(kept@) =~= before.push(lines@[i as int]@));
            }
        }
        i += 1;
    }
    proof {
        assert(texts_of(lines@).take(i as int) =~= texts_of(lines@));
    }
    kept
}

/// The lines, each with every match of `needle` replaced by `replacement`.
pub fn replace_in_lines(lines: &[String], needle: &str, replacement: &str) -> (r: Vec<String>)
    ensures
        r@.len() == lines@.len(),
        forall|i: int|
            0 <= i < lines@.len() ==> (#[trigger] r@[i])@ == replaced(
                lines@[i]@,
                needle@,
                replacement@,
            ),
{
    let mut changed: Vec<String> = Vec::new();
    let mut i: usize = 0;
    while i < lines.len()
        invariant
            i <= lines@.len(),
            changed@.len() == i,
            forall|j: int|
                0 <= j < i ==> (#[trigger] changed@[j])@ == replaced(
                    lines@[j]@,
                    needle@,
                    replacement@,
                ),
        decreases lines@.len() - i,
    {
        changed.push(replace_all(lines[i].as_str(), needle, replacement));
        i += 1;
    }
    changed
}

/// Whether `field` is the first field of `text`: what stands before its
/// first blank, or all of it where it has none.
pub open spec fn is_first_field(field: Seq<char>, text: Seq<char>) -> bool {
    &&& field.len() <= text.len()
    &&& field == text.take(field.len() as int)
    &&& forall|i: int| 0 <= i < field.len() ==> field[i] != ' '
    &&& field.len() < text.len() ==> text[field.len() as int] == ' '
}

/// The checksum in what the `sha256sum` tool printed: the first field of
/// its output.
pub fn checksum_of_output(output: &str) -> (r: String)
    ensures
        is_first_field(r@, output@),
{
    let length = output.unicode_len();
    let mut i: usize = 0;
    while i < length && output.get_char(i) != ' '
        invariant
            i <= length,
            length == output@.len(),
            forall|j: int| 0 <= j < i ==> output@[j] != ' ',
        decreases length - i,
    {
        i += 1;
    }
    let field = output.substring_char(0, i);
    proof {
        assert(field@ =~= output@.take(i as int));
    }
    field.to_owned()
}

} // verus!
