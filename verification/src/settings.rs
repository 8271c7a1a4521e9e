//! Configuration mappings: string-keyed settings of loosely typed values,
//! and what such a value reads as.

use vstd::prelude::*;
use crate::utils::same_text;
use crate::decimal::decimal;

verus! {

/// A loosely typed configuration value.
#[derive(Debug)]
pub enum ConfigValue {
    /// No value.
    Nil,
    /// A truth value.
    Boolean(bool),
    /// A whole number.
    Integer(i64),
    /// A piece of text.
    Text(String),
    /// A table or a list: it reads as neither text nor truth value.
    Composite,
}

/// One setting of a configuration mapping.
#[derive(Debug)]
pub struct Setting {
    pub key: String,
    pub value: ConfigValue,
}

/// The truth value that the `config` crate reads a text as: it tells by
/// the text in lower case, and reads many texts as none.
pub uninterp spec fn text_as_flag(text: Seq<char>) -> Option<bool>;

/// Whether an optional text holds the characters `expected`, absent
/// together with them.
pub open spec fn holds_text(text: Option<String>, expected: Option<Seq<char>>) -> bool {
    match (text, expected) {
        (Some(t), Some(e)) => t@ == e,
        (None, None) => true,
        _ => false,
    }
}

impl ConfigValue {
    /// What a value reads as where text is wanted: text as it is, a truth
    /// value as `true` or `false`, a number in decimal notation; anything
    /// else as nothing.
    pub open spec fn spec_text(self) -> Option<Seq<char>> {
        match self {
            ConfigValue::Text(s) => Some(s@),
            ConfigValue::Boolean(b) => Some(
                if b {
                    "true"@
                } else {
                    "false"@
                },
            ),
            ConfigValue::Integer(i) => Some(decimal(i as int)),
            ConfigValue::Nil => None,
            ConfigValue::Composite => None,
        }
    }

    /// What a value reads as where a truth value is wanted: a truth value
    /// as it is, a number as whether it is not 0, a text as the `config`
    /// crate reads it; anything else as nothing.
    pub open spec fn spec_flag(self) -> Option<bool> {
        match self {
            ConfigValue::Boolean(b) => Some(b),
            ConfigValue::Integer(i) => Some(i != 0),
            ConfigValue::Text(s) => text_as_flag(s@),
            ConfigValue::Nil => None,
            ConfigValue::Composite => None,
        }
    }
}

/// Builds the `config` crate's `Value` of the same kind and calls its
/// `into_string`, with nothing for its error. The contract states what
/// `into_string` does for each kind of value.
#[verifier::external_body]
pub(crate) fn coerce_text(value: &ConfigValue) -> (r: Option<String>)
    ensures
        holds_text(r, value.spec_text()),
{
    let outside = match value {
        ConfigValue::Nil => config::Value::new(None, config::ValueKind::Nil),
        ConfigValue::Boolean(b) => config::Value::from(*b),
        ConfigValue::Integer(i) => config::Value::from(*i),
        ConfigValue::Text(s) => config::Value::from(s.clone()),
        ConfigValue::Composite => config::Value::new(None, config::ValueKind::Array(Vec::new())),
    };
    outside.into_string().ok()
}

/// Builds the `config` crate's `Value` of the same kind and calls its
/// `into_bool`, with nothing for its error. The contract states what
/// `into_bool` does for each kind of value, and names what it does for
/// a text.
#[verifier::external_body]
pub(crate) fn coerce_flag(value: &ConfigValue) -> (r: Option<bool>)
    ensures
        r == value.spec_flag(),
        value matches ConfigValue::Text(s) ==> r == text_as_flag(s@),
{
    let outside = match value {
        ConfigValue::Nil => config::Value::new(None, config::ValueKind::Nil),
        ConfigValue::Boolean(b) => config::Value::from(*b),
        ConfigValue::Integer(i) => config::Value::from(*i),
        ConfigValue::Text(s) => config::Value::from(s.clone()),
        ConfigValue::Composite => config::Value::new(None, config::ValueKind::Array(Vec::new())),
    };
    outside.into_bool().ok()
}

/// The value of the first setting of `entries`, from position `from` on,
/// whose key is `key`.
pub open spec fn setting_from(entries: Seq<Setting>, key: Seq<char>, from: int) -> Option<ConfigValue>
    decreases entries.len() - from,
{
    if from < 0 || from >= entries.len() {
        None
    } else if entries[from].key@ == key {
        Some(entries[from].value)
    } else {
        setting_from(entries, key, from + 1)
    }
}

/// The value that a configuration holds under `key`.
pub open spec fn setting(entries: Seq<Setting>, key: Seq<char>) -> Option<ConfigValue> {
    setting_from(entries, key, 0)
}

/// The text that a configuration gives for `key`: the setting's value as
/// text, and `default` where it has no such setting or the value does not
/// read as text.
pub open spec fn configured_text(entries: Seq<Setting>, key: Seq<char>, default: Seq<char>) -> Seq<char> {
    match setting(entries, key) {
        None => default,
        Some(value) => match value.spec_text() {
            Some(text) => text,
            None => default,
        },
    }
}

/// The truth value that a configuration gives for `key`: the setting's
/// value as a truth value, and false where there is no such setting or its
/// value does not read as one.
pub open spec fn configured_flag(entries: Seq<Setting>, key: Seq<char>) -> bool {
    match setting(entries, key) {
        None => false,
        Some(value) => match value.spec_flag() {
            Some(flag) => flag,
            None => false,
        },
    }
}

/// The value that a configuration holds under `key`.
pub fn find_setting<'a>(entries: &'a Vec<Setting>, key: &str) -> (r: Option<&'a ConfigValue>)
    ensures
        match r {
            Some(value) => setting(entries@, key@) == Some(*value),
            None => setting(entries@, key@) is None,
        },
{
    let mut i: usize = 0;
    while i < entries.len()
        invariant
            i <= entries@.len(),
            setting(entries@, key@) == setting_from(entries@, key@, i as int),
        decreases entries@.len() - i,
    {
        if same_text(entries[i].key.as_str(), key) {
            return Some(&entries[i].value);
        }
        i += 1;
    }
    None
}

/// The text that a configuration gives for `key`, `default` where it gives
/// none.
pub fn text_setting(entries: &Vec<Setting>, key: &str, default: &str) -> (r: String)
    ensures
        r@ == configured_text(entries@, key@, default@),
{
    match find_setting(entries, key) {
        None => default.to_owned(),
        Some(value) => match coerce_text(value) {
            Some(text) => text,
            None => default.to_owned(),
        },
    }
}

/// The truth value that a configuration gives for `key`, false where it
/// has no such setting.
pub fn flag_setting(entries: &Vec<Setting>, key: &str) -> (r: bool)
    ensures
        r == configured_flag(entries@, key@),
{
    match find_setting(entries, key) {
        None => false,
        Some(value) => match coerce_flag(value) {
            Some(flag) => flag,
            None => false,
        },
    }
}

/// A configuration without settings gives every default.
pub proof fn lemma_empty_configuration(entries: Seq<Setting>, key: Seq<char>, default: Seq<char>)
    requires
        entries.len() == 0,
    ensures
        configured_text(entries, key, default) == default,
        !configured_flag(entries, key),
{
}

} // verus!
