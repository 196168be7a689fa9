//! The hash tables of the assembler (names of labels, addresses of labels,
//! opcodes of mnemonics) and the test for a word. The tables are those of
//! `ahash`, which `egui` hands on; the test is a regular expression of
//! `regex`, which `lazy_regex` hands on. What this library takes for granted
//! about them is stated here and proved nowhere.

#![allow(deprecated)]

use egui::ahash::{HashMapExt, HashSetExt, RandomState};
use std::collections::{HashMap, HashSet};
use vstd::prelude::*;

verus! {

/// The hasher of `ahash`, which the tables below are built with.
#[verifier::external_type_specification]
#[verifier::external_body]
pub struct ExRandomState(egui::ahash::RandomState);

/// A table of numbers by name.
pub type Table = HashMap<String, usize, RandomState>;

/// A set of names.
pub type Names = HashSet<String, RandomState>;

/// What a table of numbers by name holds.
pub uninterp spec fn entries(table: HashMap<String, usize, RandomState>) -> Map<Seq<char>, usize>;

/// What a set of names holds.
pub uninterp spec fn members(set: HashSet<String, RandomState>) -> Set<Seq<char>>;

/// `ahash::HashMapExt::new`: a table that holds nothing.
#[verifier::external_body]
pub(crate) fn new_table() -> (table: HashMap<String, usize, RandomState>)
    ensures
        forall|name: Seq<char>| !entries(table).contains_key(name),
{
    HashMapExt::new()
}

/// `HashMap::insert`: afterwards the table holds `value` under `name`, in
/// place of what it held under that name, and what it held under other names.
#[verifier::external_body]
pub(crate) fn table_insert(
    table: &mut HashMap<String, usize, RandomState>,
    name: String,
    value: usize,
)
    ensures
        entries(*final(table)) == entries(*old(table)).insert(name@, value),
{
    table.insert(name, value);
}

/// `HashMap::get`: the number that the table holds under `name`, if any.
#[verifier::external_body]
pub(crate) fn table_get(table: &HashMap<String, usize, RandomState>, name: &str) -> (value: Option<
    usize,
>)
    ensures
        value == if entries(*table).contains_key(name@) {
            Some(entries(*table)[name@])
        } else {
            None
        },
{
    table.get(name).copied()
}

/// `ahash::HashSetExt::new`: a set that holds nothing.
#[verifier::external_body]
pub(crate) fn new_set() -> (set: HashSet<String, RandomState>)
    ensures
        forall|name: Seq<char>| !members(set).contains(name),
{
    HashSetExt::new()
}

/// `HashSet::contains`: whether the set holds `name`.
#[verifier::external_body]
pub(crate) fn set_contains(set: &HashSet<String, RandomState>, name: &str) -> (held: bool)
    ensures
        held == members(*set).contains(name@),
{
    set.contains(name)
}

/// `HashSet::insert`: afterwards the set holds `name` and what it held.
#[verifier::external_body]
pub(crate) fn set_insert(set: &mut HashSet<String, RandomState>, name: String)
    ensures
        members(*final(set)) == members(*old(set)).insert(name@),
{
    set.insert(name);
}

/// Whether the regular expression `^\w+$` matches a text: whether the text
/// is a word, that is one or more word characters and nothing else.
pub uninterp spec fn is_word(text: Seq<char>) -> bool;

/// `Regex::is_match` of the expression `^\w+$` on `text`.
#[verifier::external_body]
pub(crate) fn matches_word(text: &str) -> (matched: bool)
    ensures
        matched == is_word(text@),
{
    match lazy_regex::Regex::new(r"^\w+$") {
        Ok(word) => word.is_match(text),
        Err(_) => false,
    }
}

} // verus!
