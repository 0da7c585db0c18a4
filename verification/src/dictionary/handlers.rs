//! The collaborator-facing operations and the two cooperating caches.
//!
//! The query cache maps a normalized term-and-language query to the rows
//! that satisfied it, with one reserved slot for the unfiltered full
//! snapshot; the snapshot cache of all rows lives on the application
//! state.  Any successful mutation clears the query cache and repopulates
//! only the reserved slot from a fresh snapshot; other queries are
//! repopulated lazily on their next access.  The distinct-value tables
//! are rebuilt after every successful mutation, so no read between
//! mutations can observe a stale cache or index.

use vstd::prelude::*;
use vstd::string::StringExecFns;

use crate::dictionary::database::AppState;
use crate::dictionary::database::StoreError;
use crate::dictionary::database::TermsList;
use crate::dictionary::database::TermsListV;
use crate::dictionary::database::add_term;
use crate::dictionary::database::add_term_to_term_set;
use crate::dictionary::database::clone_rows;
use crate::dictionary::database::delete_term;
use crate::dictionary::database::extract_and_insert_unique_values;
use crate::dictionary::database::find_row_by_id;
use crate::dictionary::database::get_all_terms;
use crate::dictionary::database::get_term_by_id;
use crate::dictionary::database::max_term_id;
use crate::dictionary::database::max_term_set_id;
use crate::dictionary::database::rows_after_update;
use crate::dictionary::database::rows_without_term_id;
use crate::dictionary::database::search_filter;
use crate::dictionary::database::search_terms;
use crate::dictionary::database::unique_values_ok;
use crate::dictionary::database::update_term;
use crate::import::parse::Dictionary;
use crate::import::parse::ParseError;
use crate::import::parse::TermLanguageSet;
use crate::import::parse::TermLanguageSetV;
use crate::import::parse::spec_dictionary_of;
use crate::import::process::GroupError;
use crate::import::process::import_dictionary_data;
use crate::import::process::import_fold;
use crate::text::str_eq;

verus! {

/// One cached query: the term and language it was asked with, and the
/// rows that satisfied it.
#[derive(Debug)]
pub struct SearchEntry {
    pub term: String,
    pub language: String,
    pub results: Vec<TermsList>,
}

/// The query cache: lazily filled query entries plus the reserved slot
/// holding the unfiltered full snapshot.
#[derive(Debug)]
pub struct SearchCache {
    pub all_terms: Option<Vec<TermsList>>,
    pub entries: Vec<SearchEntry>,
}

impl SearchCache {
    /// Every cached entry agrees with the given row table: the reserved
    /// slot holds all rows, and each query entry holds exactly the rows
    /// its query selects.
    pub open spec fn coherent_with(&self, rows: Seq<TermsListV>) -> bool {
        &&& match self.all_terms {
            None => true,
            Some(v) => v.deep_view() == rows,
        }
        &&& forall|i: int|
            0 <= i < self.entries@.len() ==> (#[trigger] self.entries@[i].results.deep_view())
                == search_filter(rows, self.entries@[i].term@, self.entries@[i].language@)
    }

    /// An empty cache.
    pub fn new() -> (r: SearchCache)
        ensures
            r.all_terms is None,
            r.entries@.len() == 0,
    {
        SearchCache { all_terms: None, entries: Vec::new() }
    }
}

/// Empties the whole query cache, the reserved slot included.
pub fn clear_cache(cache: &mut SearchCache)
    ensures
        final(cache).all_terms is None,
        final(cache).entries@.len() == 0,
{
    cache.all_terms = None;
    cache.entries = Vec::new();
}

/// Both caches and the derived tables agree with the row table, as they
/// must immediately after any successful mutation: the snapshot cache and
/// the reserved query-cache slot hold all rows, the rest of the query
/// cache is empty, and the distinct-value tables are rebuilt.
pub open spec fn caches_refreshed(app: AppState, cache: SearchCache) -> bool {
    &&& app.terms_cache matches Some(v) && v.deep_view() == app.rows_v()
    &&& cache.all_terms matches Some(v) && v.deep_view() == app.rows_v()
    &&& cache.entries@.len() == 0
    &&& unique_values_ok(app.unique_values, app.rows_v())
}

/// Clears the query cache and refills both caches and the derived tables
/// from the row table.
fn refresh_caches(app: &mut AppState, cache: &mut SearchCache) -> (r: Result<(), StoreError>)
    ensures
        r is Ok,
        final(app).rows == old(app).rows,
        final(app).db_info == old(app).db_info,
        caches_refreshed(*final(app), *final(cache)),
        old(app).wf() ==> final(app).wf(),
{
    clear_cache(cache);
    let all_terms = match get_all_terms(app) {
        Ok(v) => v,
        Err(e) => {
            return Err(e);
        },
    };
    app.terms_cache = Some(clone_rows(&all_terms));
    cache.all_terms = Some(all_terms);
    match extract_and_insert_unique_values(app) {
        Ok(_) => Ok(()),
        Err(e) => Err(e),
    }
}

/// A record with both timestamps stamped to the given time.
pub open spec fn stamped_both(t: TermLanguageSetV, now: i64) -> TermLanguageSetV {
    TermLanguageSetV { creation_timestamp: Some(now), update_timestamp: Some(now), ..t }
}

/// Inserts a new term as a new group, stamping both timestamps to the
/// given time, and refreshes the caches on success.
pub fn handle_insert_term(
    app: &mut AppState,
    cache: &mut SearchCache,
    term_language_set: TermLanguageSet,
    now: i64,
) -> (r: Result<(), StoreError>)
    ensures
        match r {
            Ok(_) => {
                &&& final(app).rows_v() == old(app).rows_v().push(
                    TermsListV {
                        term_id: max_term_id(old(app).rows_v()) + 1,
                        term_set_id: max_term_set_id(old(app).rows_v()) + 1,
                        term_language_set: stamped_both(term_language_set@, now),
                    },
                )
                &&& caches_refreshed(*final(app), *final(cache))
            },
            Err(e) => {
                &&& e == StoreError::IdOverflow
                &&& (max_term_id(old(app).rows_v()) == i32::MAX || max_term_set_id(
                    old(app).rows_v(),
                ) == i32::MAX)
                &&& *final(app) == *old(app)
                &&& *final(cache) == *old(cache)
            },
        },
        final(app).db_info == old(app).db_info,
        old(app).wf() ==> final(app).wf(),
{
    let mut term_set = term_language_set;
    term_set.creation_timestamp = Some(now);
    term_set.update_timestamp = Some(now);
    match add_term(app, &term_set) {
        Ok(_) => {},
        Err(e) => {
            return Err(e);
        },
    }
    refresh_caches(app, cache)
}

/// Inserts a term into an existing group, stamping both timestamps to
/// the given time, and refreshes the caches on success.
pub fn handle_add_term_set(
    app: &mut AppState,
    cache: &mut SearchCache,
    existing_term_set_id: i32,
    term_language_set: TermLanguageSet,
    now: i64,
) -> (r: Result<(), StoreError>)
    ensures
        match r {
            Ok(_) => {
                &&& final(app).rows_v() == old(app).rows_v().push(
                    TermsListV {
                        term_id: max_term_id(old(app).rows_v()) + 1,
                        term_set_id: existing_term_set_id as int,
                        term_language_set: stamped_both(term_language_set@, now),
                    },
                )
                &&& caches_refreshed(*final(app), *final(cache))
            },
            Err(e) => {
                &&& e == StoreError::IdOverflow
                &&& max_term_id(old(app).rows_v()) == i32::MAX
                &&& *final(app) == *old(app)
                &&& *final(cache) == *old(cache)
            },
        },
        final(app).db_info == old(app).db_info,
        old(app).wf() ==> final(app).wf(),
{
    let mut term_set = term_language_set;
    term_set.creation_timestamp = Some(now);
    term_set.update_timestamp = Some(now);
    match add_term_to_term_set(app, existing_term_set_id, &term_set) {
        Ok(_) => {},
        Err(e) => {
            return Err(e);
        },
    }
    refresh_caches(app, cache)
}

/// A record with the update timestamp stamped to the given time.
pub open spec fn stamped_update(t: TermLanguageSetV, now: i64) -> TermLanguageSetV {
    TermLanguageSetV { update_timestamp: Some(now), ..t }
}

/// Applies a partial update to a row, stamping the update timestamp to
/// the given time, and refreshes the caches.
pub fn handle_update_term(
    app: &mut AppState,
    cache: &mut SearchCache,
    term_id: i32,
    term_language_set: TermLanguageSet,
    now: i64,
) -> (r: Result<(), StoreError>)
    ensures
        r is Ok,
        final(app).rows_v() == rows_after_update(
            old(app).rows_v(),
            term_id as int,
            stamped_update(term_language_set@, now),
        ),
        caches_refreshed(*final(app), *final(cache)),
        final(app).db_info == old(app).db_info,
        old(app).wf() ==> final(app).wf(),
{
    let mut term_set = term_language_set;
    term_set.update_timestamp = Some(now);
    match update_term(app, term_id, &term_set) {
        Ok(_) => {},
        Err(e) => {
            return Err(e);
        },
    }
    refresh_caches(app, cache)
}

/// Deletes a row and refreshes the caches; a missing row is reported as
/// not found, distinctly, and then nothing changes.
pub fn handle_delete_term(app: &mut AppState, cache: &mut SearchCache, term_id: i32) -> (r: Result<
    (),
    StoreError,
>)
    ensures
        match r {
            Ok(_) => {
                &&& exists|i: int|
                    0 <= i < old(app).rows_v().len() && #[trigger] old(app).rows_v()[i].term_id
                        == term_id as int
                &&& final(app).rows_v() == rows_without_term_id(old(app).rows_v(), term_id as int)
                &&& caches_refreshed(*final(app), *final(cache))
            },
            Err(e) => {
                &&& e == StoreError::NotFound
                &&& forall|i: int|
                    0 <= i < old(app).rows_v().len() ==> #[trigger] old(app).rows_v()[i].term_id
                        != term_id as int
                &&& *final(app) == *old(app)
                &&& *final(cache) == *old(cache)
            },
        },
        final(app).db_info == old(app).db_info,
        old(app).wf() ==> final(app).wf(),
{
    match delete_term(app, term_id) {
        Ok(_) => {},
        Err(e) => {
            return Err(e);
        },
    }
    refresh_caches(app, cache)
}

/// Why an import was rejected.
#[derive(Clone, Copy, Debug, PartialEq, Eq, Structural)]
pub enum ImportError {
    /// The document was rejected by the parser; nothing was written.
    Parse(ParseError),
    /// A concept could not be written; concepts before it stay written.
    Group(GroupError),
}

/// Imports a whole document text: parses it, writes each concept in
/// order — the first failure stops the import, keeping the concepts
/// already written — and refreshes the caches whenever anything may have
/// been written.  A parse failure writes nothing and changes nothing.
pub fn handle_import_dictionary_data(
    app: &mut AppState,
    cache: &mut SearchCache,
    xml: &str,
) -> (r: Result<(), ImportError>)
    ensures
        match spec_dictionary_of(xml@) {
            Err(pe) => {
                &&& r == Err::<(), ImportError>(ImportError::Parse(pe))
                &&& *final(app) == *old(app)
                &&& *final(cache) == *old(cache)
            },
            Ok(entries) => {
                let outcome = import_fold(old(app).rows_v(), entries);
                &&& final(app).rows_v() == outcome.0
                &&& match outcome.1 {
                    None => r is Ok,
                    Some(ge) => r == Err::<(), ImportError>(ImportError::Group(ge)),
                }
                &&& caches_refreshed(*final(app), *final(cache))
            },
        },
        final(app).db_info == old(app).db_info,
        old(app).wf() ==> final(app).wf(),
{
    let mut dictionary = Dictionary::new();
    match dictionary.import_from_xml(xml) {
        Ok(_) => {},
        Err(e) => {
            return Err(ImportError::Parse(e));
        },
    }
    let import_result = import_dictionary_data(app, &dictionary);
    match refresh_caches(app, cache) {
        Ok(_) => {},
        Err(e) => {
            return Err(ImportError::Group(GroupError::Store(e)));
        },
    }
    match import_result {
        Ok(_) => Ok(()),
        Err(e) => Err(ImportError::Group(e)),
    }
}

/// All rows, served from the snapshot cache when it is filled and
/// filling it otherwise.
pub fn handle_terms(app: &mut AppState) -> (r: Vec<TermsList>)
    requires
        old(app).terms_cache_ok(),
    ensures
        r.deep_view() == final(app).rows_v(),
        final(app).rows == old(app).rows,
        final(app).db_info == old(app).db_info,
        final(app).unique_values == old(app).unique_values,
        final(app).terms_cache matches Some(v) && v.deep_view() == final(app).rows_v(),
        final(app).terms_cache_ok(),
{
    match &app.terms_cache {
        Some(cached) => clone_rows(cached),
        None => {
            let all_terms = match get_all_terms(app) {
                Ok(v) => v,
                Err(_) => {
                    proof {
                        assert(false);
                    }
                    Vec::new()
                },
            };
            app.terms_cache = Some(clone_rows(&all_terms));
            all_terms
        },
    }
}

/// The details of one row, if it exists.
pub fn handle_get_term_details(app: &AppState, term_id: i32) -> (r: Option<TermsList>)
    ensures
        r.deep_view() == find_row_by_id(app.rows_v(), term_id as int),
{
    match get_term_by_id(app, term_id) {
        Ok(opt) => opt,
        Err(_) => {
            proof {
                assert(false);
            }
            None
        },
    }
}

/// The rows of one group, in table order.
pub fn handle_search_terms_by_term_set_id(app: &AppState, term_set_id: i32) -> (r: Vec<TermsList>)
    ensures
        r.deep_view() == crate::dictionary::database::group_filter(
            app.rows_v(),
            term_set_id as int,
        ),
{
    match crate::dictionary::database::search_terms_by_term_set_id(app, term_set_id) {
        Ok(v) => v,
        Err(_) => {
            proof {
                assert(false);
            }
            Vec::new()
        },
    }
}

/// Answers a search through the query cache: a cached query is served
/// as it was cached; an empty or partial query is satisfied by filtering
/// the reserved full snapshot in memory; any other miss queries the
/// store.  The answer is cached under its query either way.
pub fn handle_search_terms(
    app: &AppState,
    cache: &mut SearchCache,
    term: &str,
    language: &str,
) -> (r: Vec<TermsList>)
    requires
        app.terms_cache_ok(),
        old(cache).coherent_with(app.rows_v()),
    ensures
        r.deep_view() == search_filter(app.rows_v(), term@, language@),
        final(cache).coherent_with(app.rows_v()),
{
    let n = cache.entries.len();
    let mut i: usize = 0;
    while i < n
        invariant
            n == cache.entries@.len(),
            i <= n,
            cache.coherent_with(app.rows_v()),
            app.terms_cache_ok(),
        decreases n - i,
    {
        if str_eq(cache.entries[i].term.as_str(), term) && str_eq(
            cache.entries[i].language.as_str(),
            language,
        ) {
            return clone_rows(&cache.entries[i].results);
        }
        i = i + 1;
    }
    let results = if term.is_empty() || language.is_empty() {
        match &cache.all_terms {
            Some(all_terms) => crate::dictionary::database::filter_rows_exec(
                all_terms,
                term,
                language,
            ),
            None => {
                match search_terms(app, term, language) {
                    Ok(v) => v,
                    Err(_) => {
                        proof {
                            assert(false);
                        }
                        Vec::new()
                    },
                }
            },
        }
    } else {
        match search_terms(app, term, language) {
            Ok(v) => v,
            Err(_) => {
                proof {
                    assert(false);
                }
                Vec::new()
            },
        }
    };
    let entry = SearchEntry {
        term: term.to_owned(),
        language: language.to_owned(),
        results: clone_rows(&results),
    };
    cache.entries.push(entry);
    proof {
        assert forall|j: int| 0 <= j < cache.entries@.len() implies (
        #[trigger] cache.entries@[j].results.deep_view()) == search_filter(
            app.rows_v(),
            cache.entries@[j].term@,
            cache.entries@[j].language@,
        ) by {
            if j < cache.entries@.len() - 1 {
                assert(cache.entries@[j] == old(cache).entries@[j]);
            }
        }
    }
    results
}

} // verus!
