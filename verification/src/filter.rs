use vstd::prelude::*;

use crate::pattern::{captures_found, compile_pattern, regex_captures, regex_compiles};
use crate::text::str_equal;

verus! {

/// Decides which child items, by their identifier, are loaded.
#[derive(Clone)]
pub enum ShieldtankComponentFilter {
    /// Every item is loaded.
    All,
    /// No item is loaded.
    Nothing,
    /// Items whose identifier the regular expression finds a match in.
    ByPattern(String),
    /// Items whose identifier is one of the list.
    ByList(&'static [&'static str]),
}

/// Whether `label` is one of the strings of `list`.
pub open spec fn list_has(list: Seq<&str>, label: Seq<char>) -> bool {
    exists|i: int| 0 <= i < list.len() && #[trigger] list[i]@ == label
}

/// Whether `label` is one of the strings of `list`.
pub fn list_contains(list: &[&str], label: &str) -> (r: bool)
    ensures
        r == list_has(list@, label@),
{
    let mut i: usize = 0;
    while i < list.len()
        invariant
            i <= list@.len(),
            forall|j: int| 0 <= j < i ==> list@[j]@ != label@,
        decreases list@.len() - i,
    {
        if str_equal(list[i], label) {
            assert(list@[i as int]@ == label@);
            return true;
        }
        i = i + 1;
    }
    false
}

impl Default for ShieldtankComponentFilter {
    /// The filter that loads every item.
    fn default() -> (r: Self)
        ensures
            r is All,
    {
        ShieldtankComponentFilter::All
    }
}

impl ShieldtankComponentFilter {
    /// Whether the filter loads an item with this identifier. A pattern that
    /// does not compile loads nothing.
    pub open spec fn loads(&self, label: Seq<char>) -> bool {
        match self {
            ShieldtankComponentFilter::All => true,
            ShieldtankComponentFilter::Nothing => false,
            ShieldtankComponentFilter::ByPattern(p) => regex_compiles(p@) && regex_captures(p@, label),
            ShieldtankComponentFilter::ByList(list) => list_has(list@, label),
        }
    }

    /// Whether an item with identifier `label` should be loaded.
    pub fn should_load(&self, label: &str) -> (r: bool)
        ensures
            r == self.loads(label@),
    {
        match self {
            ShieldtankComponentFilter::All => true,
            ShieldtankComponentFilter::Nothing => false,
            ShieldtankComponentFilter::ByPattern(pattern) => {
                match compile_pattern(pattern.as_str()) {
                    Ok(compiled) => captures_found(&compiled, label),
                    Err(_) => false,
                }
            },
            ShieldtankComponentFilter::ByList(list) => list_contains(list, label),
        }
    }
}

/// Marks a level whose children pass a filter.
#[derive(Clone, Copy, Debug, Default)]
pub struct ShieldtankLevelFilter;

/// Marks a world whose children pass a filter.
#[derive(Clone, Copy, Debug, Default)]
pub struct ShieldtankWorldFilter;

/// Marks a project whose children pass a filter.
#[derive(Clone, Copy, Debug, Default)]
pub struct ShieldtankProjectFilter;

/// `All` loads every item, `Nothing` loads none, and a list loads exactly
/// the items it names.
pub proof fn law_filter_extremes(label: Seq<char>, list: &'static [&'static str])
    ensures
        ShieldtankComponentFilter::All.loads(label),
        !ShieldtankComponentFilter::Nothing.loads(label),
        ShieldtankComponentFilter::ByList(list).loads(label) <==> exists|i: int|
            0 <= i < list@.len() && (#[trigger] list@[i])@ == label,
{
}

} // verus!
