//! Localization: per-category text tables, one instance per supported
//! language, consulted by positive name-id.

use vstd::prelude::*;

use crate::item::ItemLanguageRegistry;

verus! {

/// A localization table: localized text addressed by positive name-id.
/// The entry of name-id `n` (1-based) is the text of the raw text
/// table's row at sequential position `n - 1`.
#[derive(PartialEq, Eq, Debug)]
pub struct TextTable {
    texts: Vec<String>,
}

impl TextTable {
    /// The text under `name_id`, as a spec-level view.
    pub closed spec fn spec_get(self, name_id: usize) -> Option<Seq<char>> {
        if 1 <= name_id <= self.texts@.len() {
            Some(self.texts@[name_id - 1]@)
        } else {
            None
        }
    }

    /// How many name-ids the table holds: ids `1..=len` are present.
    pub closed spec fn spec_len(self) -> nat {
        self.texts@.len()
    }

    /// A table over the given texts, the first holding name-id 1.
    pub fn new(texts: Vec<String>) -> (r: TextTable)
        ensures
            r.spec_len() == texts@.len(),
            forall|n: usize| 1 <= n <= texts@.len()
                ==> #[trigger] r.spec_get(n) == Some(texts@[n - 1]@),
    {
        TextTable { texts }
    }

    /// Looks the text of `name_id` up; `None` comes exactly for ids
    /// outside the table, an ordinary outcome.
    pub fn get(&self, name_id: usize) -> (r: Option<&String>)
        ensures
            match r {
                Some(s) => self.spec_get(name_id) == Some(s@),
                None => self.spec_get(name_id) is None,
            },
            r is Some <==> 1 <= name_id <= self.spec_len(),
    {
        if 1 <= name_id && name_id <= self.texts.len() {
            Some(&self.texts[name_id - 1])
        } else {
            None
        }
    }
}

/// The loaded text tables of one language, consulted when a record
/// resolves its display text. Selection of the current language is the
/// caller's job; this type holds one language's tables.
pub struct LanguageData {
    pub items: ItemLanguageRegistry,
}

/// The capability of resolving a record's human-readable text under a
/// language selection: a single-method interface implemented per record
/// type, for callers that dispatch over heterogeneous records.
pub trait Nameable: Sized {
    /// The text this record resolves to under `language`, if any.
    spec fn resolved_text(self, language: LanguageData) -> Option<Seq<char>>;

    /// Whether `language` holds the tables this record may consult.
    spec fn language_ready(self, language: LanguageData) -> bool;

    /// Resolves the record's localized display text; `None` is an
    /// ordinary outcome for a record with no name, never a failure.
    fn get_name<'l>(&self, language: &'l LanguageData) -> (r: Option<&'l str>)
        requires
            self.language_ready(*language),
        ensures
            match r {
                Some(s) => self.resolved_text(*language) == Some(s@),
                None => self.resolved_text(*language) is None,
            },
    ;
}

} // verus!
