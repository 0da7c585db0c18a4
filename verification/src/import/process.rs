//! The concept grouping engine: writing one parsed concept to the store
//! so that all its written variants share one group identifier.
//!
//! The primary variant is the first in input order whose term is present.
//! It is inserted as a new group; the group identifier is captured from
//! that insert itself rather than re-derived by a content lookup, which
//! would be unsound when the primary's term and language pair is not
//! unique across existing rows.

use vstd::prelude::*;

use crate::dictionary::database::AppState;
use crate::dictionary::database::StoreError;
use crate::dictionary::database::TermsListV;
use crate::dictionary::database::add_term;
use crate::dictionary::database::add_term_to_term_set;
use crate::dictionary::database::create_terms_table;
use crate::dictionary::database::extract_and_insert_unique_values;
use crate::dictionary::database::get_max_term_set_id;
use crate::dictionary::database::max_term_id;
use crate::dictionary::database::max_term_set_id;
use crate::dictionary::database::wf_rows;
use crate::import::parse::DictionaryEntry;
use crate::import::parse::DictionaryEntryV;
use crate::import::parse::Dictionary;
use crate::import::parse::TermLanguageSet;
use crate::import::parse::TermLanguageSetV;
use crate::import::parse::clone_term_language_set;
use crate::text::opt_str_eq;

verus! {

/// Why a concept could not be written.
#[derive(Clone, Copy, Debug, PartialEq, Eq, Structural)]
pub enum GroupError {
    /// No variant of a multi-variant concept carries a term.
    NoTerm,
    /// The store refused a write.
    Store(StoreError),
}

/// A fresh copy of the record a variant is inserted as.
pub fn create_term_to_insert(term: &TermLanguageSet) -> (r: TermLanguageSet)
    ensures
        r == *term,
{
    clone_term_language_set(term)
}

/// The row an insert-as-new-group appends.
pub open spec fn new_group_row(rows: Seq<TermsListV>, t: TermLanguageSetV) -> TermsListV {
    TermsListV {
        term_id: max_term_id(rows) + 1,
        term_set_id: max_term_set_id(rows) + 1,
        term_language_set: t,
    }
}

/// The row an insert-into-group appends.
pub open spec fn group_member_row(rows: Seq<TermsListV>, gid: int, t: TermLanguageSetV) -> TermsListV {
    TermsListV { term_id: max_term_id(rows) + 1, term_set_id: gid, term_language_set: t }
}

/// Whether a fresh row and group identifier are both representable.
pub open spec fn can_insert_new(rows: Seq<TermsListV>) -> bool {
    max_term_id(rows) < i32::MAX && max_term_set_id(rows) < i32::MAX
}

/// What writing a single-variant concept does to the table.
pub open spec fn spec_single(rows: Seq<TermsListV>, t: TermLanguageSetV) -> (
    Seq<TermsListV>,
    Option<GroupError>,
) {
    if can_insert_new(rows) {
        (rows.push(new_group_row(rows, t)), None)
    } else {
        (rows, Some(GroupError::Store(StoreError::IdOverflow)))
    }
}

/// What writing a two-variant concept does to the table: the primary is
/// the first of the two whose term is present and starts a new group; the
/// secondary is then inserted into that group, term or no term.  With no
/// term on either variant nothing is written.
pub open spec fn spec_two(
    rows: Seq<TermsListV>,
    t1: TermLanguageSetV,
    t2: TermLanguageSetV,
) -> (Seq<TermsListV>, Option<GroupError>) {
    if t1.term is None && t2.term is None {
        (rows, Some(GroupError::NoTerm))
    } else {
        let p = if t1.term is Some {
            t1
        } else {
            t2
        };
        let s = if t1.term is Some {
            t2
        } else {
            t1
        };
        if can_insert_new(rows) {
            let gid = max_term_set_id(rows) + 1;
            let rows1 = rows.push(new_group_row(rows, p));
            if max_term_id(rows1) < i32::MAX {
                (rows1.push(group_member_row(rows1, gid, s)), None)
            } else {
                (rows1, Some(GroupError::Store(StoreError::IdOverflow)))
            }
        } else {
            (rows, Some(GroupError::Store(StoreError::IdOverflow)))
        }
    }
}

/// The position of the first variant whose term is present.
pub open spec fn first_with_term(ts: Seq<TermLanguageSetV>) -> Option<int>
    decreases ts.len(),
{
    if ts.len() == 0 {
        None
    } else if ts[0].term is Some {
        Some(0int)
    } else {
        match first_with_term(ts.drop_first()) {
            Some(i) => Some(i + 1),
            None => None,
        }
    }
}

/// A variant is skipped by the secondary pass: it has no term, or it
/// matches the primary by term and language identity.
pub open spec fn skipped_by_secondary_pass(t: TermLanguageSetV, p: TermLanguageSetV) -> bool {
    t.term is None || (t.term == p.term && t.language == p.language)
}

/// What the secondary pass of a three-or-more-variant concept does to the
/// table: every variant is inserted into the group except those the pass
/// skips; the first refused write stops the pass.
pub open spec fn add_secondaries(
    rows: Seq<TermsListV>,
    gid: int,
    ts: Seq<TermLanguageSetV>,
    p: TermLanguageSetV,
) -> (Seq<TermsListV>, Option<StoreError>)
    decreases ts.len(),
{
    if ts.len() == 0 {
        (rows, None)
    } else {
        let prev = add_secondaries(rows, gid, ts.drop_last(), p);
        if prev.1 is Some {
            prev
        } else {
            let t = ts.last();
            if skipped_by_secondary_pass(t, p) {
                prev
            } else if max_term_id(prev.0) < i32::MAX {
                (prev.0.push(group_member_row(prev.0, gid, t)), None)
            } else {
                (prev.0, Some(StoreError::IdOverflow))
            }
        }
    }
}

/// What writing a concept of three or more variants does to the table:
/// the primary is the first variant in input order whose term is present
/// and starts a new group; every other variant with a term follows into
/// that group, except those matching the primary by term and language.
/// With no term on any variant nothing is written.
pub open spec fn spec_three(rows: Seq<TermsListV>, ts: Seq<TermLanguageSetV>) -> (
    Seq<TermsListV>,
    Option<GroupError>,
) {
    match first_with_term(ts) {
        None => (rows, Some(GroupError::NoTerm)),
        Some(pi) => {
            let p = ts[pi];
            if can_insert_new(rows) {
                let gid = max_term_set_id(rows) + 1;
                let rows1 = rows.push(new_group_row(rows, p));
                let after = add_secondaries(rows1, gid, ts, p);
                (
                    after.0,
                    match after.1 {
                        None => None,
                        Some(e) => Some(GroupError::Store(e)),
                    },
                )
            } else {
                (rows, Some(GroupError::Store(StoreError::IdOverflow)))
            }
        },
    }
}

/// What writing one concept does to the table, by its variant count; a
/// concept with no variants writes nothing.
pub open spec fn process_entry_spec(rows: Seq<TermsListV>, ls: Seq<TermLanguageSetV>) -> (
    Seq<TermsListV>,
    Option<GroupError>,
) {
    if ls.len() == 1 {
        spec_single(rows, ls[0])
    } else if ls.len() == 2 {
        spec_two(rows, ls[0], ls[1])
    } else if ls.len() > 2 {
        spec_three(rows, ls)
    } else {
        (rows, None)
    }
}

/// Writes a single-variant concept as a new group.
pub fn process_single_term(app: &mut AppState, term: &TermLanguageSet) -> (r: Result<
    (),
    GroupError,
>)
    ensures
        ({
            let outcome = spec_single(old(app).rows_v(), term@);
            &&& final(app).rows_v() == outcome.0
            &&& match outcome.1 {
                None => r is Ok,
                Some(e) => r == Err::<(), GroupError>(e),
            }
        }),
        final(app).db_info == old(app).db_info,
        final(app).terms_cache == old(app).terms_cache,
        final(app).unique_values == old(app).unique_values,
        old(app).wf() ==> final(app).wf(),
{
    let term_to_insert = create_term_to_insert(term);
    match add_term(app, &term_to_insert) {
        Ok(_) => Ok(()),
        Err(e) => Err(GroupError::Store(e)),
    }
}

/// Writes a two-variant concept: the primary starts a new group whose
/// identifier is captured from the insert, and the secondary follows into
/// it.  Fails with a grouping error, writing nothing, when neither
/// variant has a term.
pub fn process_two_terms(
    app: &mut AppState,
    first_term: &TermLanguageSet,
    second_term: &TermLanguageSet,
) -> (r: Result<(), GroupError>)
    ensures
        ({
            let outcome = spec_two(old(app).rows_v(), first_term@, second_term@);
            &&& final(app).rows_v() == outcome.0
            &&& match outcome.1 {
                None => r is Ok,
                Some(e) => r == Err::<(), GroupError>(e),
            }
        }),
        final(app).db_info == old(app).db_info,
        final(app).terms_cache == old(app).terms_cache,
        final(app).unique_values == old(app).unique_values,
        old(app).wf() ==> final(app).wf(),
{
    let first_to_insert = create_term_to_insert(first_term);
    let second_to_insert = create_term_to_insert(second_term);
    let (primary_term, secondary_term) = if first_to_insert.term.is_some() {
        (first_to_insert, second_to_insert)
    } else if second_to_insert.term.is_some() {
        (second_to_insert, first_to_insert)
    } else {
        return Err(GroupError::NoTerm);
    };
    let max_tsid = match get_max_term_set_id(app) {
        Ok(v) => v,
        Err(e) => {
            return Err(GroupError::Store(e));
        },
    };
    match add_term(app, &primary_term) {
        Ok(_) => {},
        Err(e) => {
            return Err(GroupError::Store(e));
        },
    }
    let term_set_id = max_tsid + 1;
    match add_term_to_term_set(app, term_set_id, &secondary_term) {
        Ok(_) => Ok(()),
        Err(e) => Err(GroupError::Store(e)),
    }
}

/// Writes a concept of three or more variants: the primary — the first
/// in input order with a term — starts a new group whose identifier is
/// captured from the insert; every other variant with a term follows into
/// it, skipping those matching the primary by term and language.  Fails
/// with a grouping error, writing nothing, when no variant has a term.
pub fn process_three_or_more_terms(app: &mut AppState, terms: &Vec<TermLanguageSet>) -> (r: Result<
    (),
    GroupError,
>)
    ensures
        ({
            let outcome = spec_three(old(app).rows_v(), terms.deep_view());
            &&& final(app).rows_v() == outcome.0
            &&& match outcome.1 {
                None => r is Ok,
                Some(e) => r == Err::<(), GroupError>(e),
            }
        }),
        final(app).db_info == old(app).db_info,
        final(app).terms_cache == old(app).terms_cache,
        final(app).unique_values == old(app).unique_values,
        old(app).wf() ==> final(app).wf(),
{
    let ghost ts = terms.deep_view();
    let n = terms.len();
    let mut pi: usize = 0;
    let mut found = false;
    let mut i: usize = 0;
    proof {
        assert(ts.skip(0) =~= ts);
    }
    while i < n && !found
        invariant
            ts == terms.deep_view(),
            n == ts.len(),
            n == terms@.len(),
            i <= n,
            !found ==> first_with_term(ts) == match first_with_term(ts.skip(i as int)) {
                Some(k) => Some(k + i),
                None => None::<int>,
            },
            !found ==> forall|j: int| 0 <= j < i ==> ts[j].term is None,
            found ==> pi < n && first_with_term(ts) == Some(pi as int),
        decreases n - i + (if found { 0int } else { 1int }),
    {
        proof {
            assert(ts.skip(i as int).drop_first() =~= ts.skip(i + 1));
            assert(ts.skip(i as int)[0] == ts[i as int]);
        }
        if terms[i].term.is_some() {
            pi = i;
            found = true;
        } else {
            i = i + 1;
        }
    }
    if !found {
        proof {
            assert(ts.skip(n as int) =~= Seq::<TermLanguageSetV>::empty());
        }
        return Err(GroupError::NoTerm);
    }
    let primary = create_term_to_insert(&terms[pi]);
    let max_tsid = match get_max_term_set_id(app) {
        Ok(v) => v,
        Err(e) => {
            return Err(GroupError::Store(e));
        },
    };
    match add_term(app, &primary) {
        Ok(_) => {},
        Err(e) => {
            return Err(GroupError::Store(e));
        },
    }
    let term_set_id = max_tsid + 1;
    let ghost rows1 = app.rows_v();
    let ghost pv = primary@;

    let mut k: usize = 0;
    proof {
        assert(ts.take(0) =~= Seq::<TermLanguageSetV>::empty());
    }
    while k < n
        invariant
            ts == terms.deep_view(),
            n == ts.len(),
            n == terms@.len(),
            k <= n,
            pv == primary@,
            pi < n,
            pv == ts[pi as int],
            first_with_term(ts) == Some(pi as int),
            can_insert_new(old(app).rows_v()),
            term_set_id as int == max_term_set_id(old(app).rows_v()) + 1,
            rows1 == old(app).rows_v().push(new_group_row(old(app).rows_v(), pv)),
            add_secondaries(rows1, term_set_id as int, ts.take(k as int), pv) == (
                app.rows_v(),
                None::<StoreError>,
            ),
            old(app).wf() ==> app.wf(),
            app.db_info == old(app).db_info,
            app.terms_cache == old(app).terms_cache,
            app.unique_values == old(app).unique_values,
        decreases n - k,
    {
        proof {
            lemma_add_secondaries_step(rows1, term_set_id as int, ts, pv, k as int);
        }
        let t = &terms[k];
        let skip_it = if t.term.is_none() {
            true
        } else if opt_str_eq(&t.term, &primary.term) && opt_str_eq(&t.language, &primary.language) {
            true
        } else {
            false
        };
        if !skip_it {
            match add_term_to_term_set(app, term_set_id, t) {
                Ok(_) => {},
                Err(e) => {
                    proof {
                        lemma_add_secondaries_err(rows1, term_set_id as int, ts, pv, k + 1);
                    }
                    return Err(GroupError::Store(e));
                },
            }
        }
        k = k + 1;
    }
    proof {
        assert(ts.take(n as int) =~= ts);
    }
    Ok(())
}

proof fn lemma_add_secondaries_step(
    rows: Seq<TermsListV>,
    gid: int,
    ts: Seq<TermLanguageSetV>,
    p: TermLanguageSetV,
    k: int,
)
    requires
        0 <= k < ts.len(),
    ensures
        add_secondaries(rows, gid, ts.take(k + 1), p) == ({
            let prev = add_secondaries(rows, gid, ts.take(k), p);
            if prev.1 is Some {
                prev
            } else if skipped_by_secondary_pass(ts[k], p) {
                prev
            } else if max_term_id(prev.0) < i32::MAX {
                (prev.0.push(group_member_row(prev.0, gid, ts[k])), None::<StoreError>)
            } else {
                (prev.0, Some(StoreError::IdOverflow))
            }
        }),
{
    assert(ts.take(k + 1).drop_last() =~= ts.take(k));
    assert(ts.take(k + 1).last() == ts[k]);
}

proof fn lemma_add_secondaries_err(
    rows: Seq<TermsListV>,
    gid: int,
    ts: Seq<TermLanguageSetV>,
    p: TermLanguageSetV,
    k: int,
)
    requires
        0 <= k <= ts.len(),
        add_secondaries(rows, gid, ts.take(k), p).1 is Some,
    ensures
        add_secondaries(rows, gid, ts, p) == add_secondaries(rows, gid, ts.take(k), p),
    decreases ts.len() - k,
{
    if k == ts.len() {
        assert(ts.take(k) =~= ts);
    } else {
        lemma_add_secondaries_step(rows, gid, ts, p, k);
        lemma_add_secondaries_err(rows, gid, ts, p, k + 1);
    }
}


/// Writes one concept to the store by its variant count; a concept with
/// no variants writes nothing and succeeds.
pub fn process_term_set(app: &mut AppState, dt: &DictionaryEntry) -> (r: Result<(), GroupError>)
    ensures
        ({
            let outcome = process_entry_spec(old(app).rows_v(), dt@.language_sets);
            &&& final(app).rows_v() == outcome.0
            &&& match outcome.1 {
                None => r is Ok,
                Some(e) => r == Err::<(), GroupError>(e),
            }
        }),
        final(app).db_info == old(app).db_info,
        final(app).terms_cache == old(app).terms_cache,
        final(app).unique_values == old(app).unique_values,
        old(app).wf() ==> final(app).wf(),
{
    let count = dt.language_sets.len();
    if count == 2 {
        process_two_terms(app, &dt.language_sets[0], &dt.language_sets[1])
    } else if count == 1 {
        process_single_term(app, &dt.language_sets[0])
    } else if count > 2 {
        process_three_or_more_terms(app, &dt.language_sets)
    } else {
        Ok(())
    }
}

/// What importing a list of concepts does to the table: each concept is
/// written in order, and the first failure stops the import, keeping the
/// concepts already written.
pub open spec fn import_fold(rows: Seq<TermsListV>, entries: Seq<DictionaryEntryV>) -> (
    Seq<TermsListV>,
    Option<GroupError>,
)
    decreases entries.len(),
{
    if entries.len() == 0 {
        (rows, None)
    } else {
        let prev = import_fold(rows, entries.drop_last());
        if prev.1 is Some {
            prev
        } else {
            process_entry_spec(prev.0, entries.last().language_sets)
        }
    }
}

proof fn lemma_import_fold_step(rows: Seq<TermsListV>, entries: Seq<DictionaryEntryV>, i: int)
    requires
        0 <= i < entries.len(),
    ensures
        import_fold(rows, entries.take(i + 1)) == ({
            let prev = import_fold(rows, entries.take(i));
            if prev.1 is Some {
                prev
            } else {
                process_entry_spec(prev.0, entries[i].language_sets)
            }
        }),
{
    assert(entries.take(i + 1).drop_last() =~= entries.take(i));
    assert(entries.take(i + 1).last() == entries[i]);
}

proof fn lemma_import_fold_err(rows: Seq<TermsListV>, entries: Seq<DictionaryEntryV>, i: int)
    requires
        0 <= i <= entries.len(),
        import_fold(rows, entries.take(i)).1 is Some,
    ensures
        import_fold(rows, entries) == import_fold(rows, entries.take(i)),
    decreases entries.len() - i,
{
    if i == entries.len() {
        assert(entries.take(i) =~= entries);
    } else {
        lemma_import_fold_step(rows, entries, i);
        lemma_import_fold_err(rows, entries, i + 1);
    }
}

/// Imports a parsed dictionary: writes each concept in order, stopping at
/// the first failure and keeping the concepts already written, then
/// rebuilds the distinct-value tables on success.
pub fn import_dictionary_data(app: &mut AppState, dictionary: &Dictionary) -> (r: Result<
    (),
    GroupError,
>)
    ensures
        ({
            let outcome = import_fold(old(app).rows_v(), dictionary@);
            &&& final(app).rows_v() == outcome.0
            &&& match outcome.1 {
                None => r is Ok,
                Some(e) => r == Err::<(), GroupError>(e),
            }
        }),
        final(app).db_info == old(app).db_info,
        final(app).terms_cache == old(app).terms_cache,
        r is Ok ==> crate::dictionary::database::unique_values_ok(
            final(app).unique_values,
            final(app).rows_v(),
        ),
        !(r is Ok) ==> final(app).unique_values == old(app).unique_values,
        old(app).wf() ==> final(app).wf(),
{
    match create_terms_table(app) {
        Ok(_) => {},
        Err(e) => {
            return Err(GroupError::Store(e));
        },
    }
    let ghost rows0 = app.rows_v();
    let ghost entries = dictionary@;
    let n = dictionary.entries.len();
    let mut i: usize = 0;
    proof {
        assert(entries.take(0) =~= Seq::<DictionaryEntryV>::empty());
    }
    while i < n
        invariant
            entries == dictionary@,
            n == entries.len(),
            n == dictionary.entries@.len(),
            i <= n,
            rows0 == old(app).rows_v(),
            import_fold(rows0, entries.take(i as int)) == (app.rows_v(), None::<GroupError>),
            wf_rows(rows0) ==> app.wf(),
            app.db_info == old(app).db_info,
            app.terms_cache == old(app).terms_cache,
            app.unique_values == old(app).unique_values,
        decreases n - i,
    {
        proof {
            lemma_import_fold_step(rows0, entries, i as int);
            assert(entries[i as int] == dictionary.entries@[i as int]@);
        }
        match process_term_set(app, &dictionary.entries[i]) {
            Ok(_) => {},
            Err(e) => {
                proof {
                    lemma_import_fold_err(rows0, entries, i + 1);
                }
                return Err(e);
            },
        }
        i = i + 1;
    }
    proof {
        assert(entries.take(n as int) =~= entries);
    }
    match extract_and_insert_unique_values(app) {
        Ok(_) => Ok(()),
        Err(e) => Err(GroupError::Store(e)),
    }
}

} // verus!
