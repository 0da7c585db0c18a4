//! The laws the library promises across its operations, each stated and
//! proved over the same specifications its functions' contracts use.

use vstd::prelude::*;

use crate::dictionary::database::StoreError;
use crate::dictionary::database::TermsListV;
use crate::dictionary::database::coalesce_upd;
use crate::dictionary::database::rows_after_update;
use crate::dictionary::database::rows_without_term_id;
use crate::dictionary::database::row_matches;
use crate::dictionary::database::search_filter;
use crate::dictionary::database::find_group_by_term_lang;
use crate::dictionary::database::max_term_id;
use crate::dictionary::database::max_term_set_id;
use crate::dictionary::database::AppState;
use crate::dictionary::handlers::SearchCache;
use crate::dictionary::handlers::caches_refreshed;
use crate::import::parse::DictionaryEntryV;
use crate::import::parse::TermLanguageSetV;
use crate::import::parse::empty_term_language_set;
use crate::import::process::GroupError;
use crate::import::process::can_insert_new;
use crate::import::process::new_group_row;
use crate::import::process::group_member_row;
use crate::import::process::add_secondaries;
use crate::import::process::first_with_term;
use crate::import::process::skipped_by_secondary_pass;
use crate::import::process::import_fold;
use crate::import::process::process_entry_spec;
use crate::import::process::spec_single;
use crate::import::process::spec_three;
use crate::import::process::spec_two;
use crate::text::contains_at;
use crate::text::contains_seq;

verus! {

/// A text contains itself.
proof fn lemma_contains_self(s: Seq<char>)
    ensures
        contains_seq(s, s),
{
    assert(s.subrange(0, s.len() as int) =~= s);
    assert(contains_at(s, s, 0));
}

/// A search over rows none of which satisfies it selects nothing.
proof fn lemma_search_filter_none(rows: Seq<TermsListV>, t: Seq<char>, l: Seq<char>)
    requires
        forall|i: int| 0 <= i < rows.len() ==> !row_matches(#[trigger] rows[i], t, l),
    ensures
        search_filter(rows, t, l) == Seq::<TermsListV>::empty(),
    decreases rows.len(),
{
    if rows.len() > 0 {
        assert(forall|i: int|
            0 <= i < rows.drop_last().len() ==> rows.drop_last()[i] == rows[i]);
        lemma_search_filter_none(rows.drop_last(), t, l);
        assert(search_filter(rows, t, l) =~= Seq::<TermsListV>::empty());
    }
}

/// Inserting a single-variant concept and then searching by its exact
/// term and language returns exactly the one stored row, carrying the
/// source record and the fresh identifiers, provided no existing row
/// already satisfied that search.
pub proof fn lemma_single_insert_then_search(rows: Seq<TermsListV>, t: TermLanguageSetV)
    requires
        can_insert_new(rows),
        t.term is Some,
        t.language is Some,
        forall|i: int| 0 <= i < rows.len() ==> !row_matches(#[trigger] rows[i], t.term->0, t.language->0),
    ensures
        spec_single(rows, t).1 is None,
        search_filter(spec_single(rows, t).0, t.term->0, t.language->0) == seq![
            TermsListV {
                term_id: max_term_id(rows) + 1,
                term_set_id: max_term_set_id(rows) + 1,
                term_language_set: t,
            },
        ],
{
    let row = new_group_row(rows, t);
    let after = spec_single(rows, t).0;
    assert(after == rows.push(row));
    assert(after.drop_last() =~= rows);
    assert(after.last() == row);
    lemma_contains_self(t.term->0);
    assert(row_matches(row, t.term->0, t.language->0));
    lemma_search_filter_none(rows, t.term->0, t.language->0);
    assert(search_filter(after, t.term->0, t.language->0) =~= seq![row]);
}

/// A lookup by term and language runs past rows that do not carry
/// exactly that pair.
proof fn lemma_find_group_skips(
    rows: Seq<TermsListV>,
    rest: Seq<TermsListV>,
    t: Seq<char>,
    l: Seq<char>,
)
    requires
        forall|i: int|
            0 <= i < rows.len() ==> !((#[trigger] rows[i].term_language_set.term) == Some(t)
                && rows[i].term_language_set.language == Some(l)),
    ensures
        find_group_by_term_lang(rows + rest, t, l) == find_group_by_term_lang(rest, t, l),
    decreases rows.len(),
{
    if rows.len() == 0 {
        assert(rows + rest =~= rest);
    } else {
        assert((rows + rest)[0] == rows[0]);
        assert((rows + rest).drop_first() =~= rows.drop_first() + rest);
        assert(forall|i: int|
            0 <= i < rows.drop_first().len() ==> rows.drop_first()[i] == rows[i + 1]);
        lemma_find_group_skips(rows.drop_first(), rest, t, l);
    }
}

/// Writing a two-variant concept with at least one term present stores
/// both variants under one shared group identifier, and that identifier
/// is exactly what a lookup by the primary's term and language returns
/// afterwards, provided no earlier row carries that pair and both fresh
/// row identifiers are representable.
pub proof fn lemma_two_variant_grouping(
    rows: Seq<TermsListV>,
    t1: TermLanguageSetV,
    t2: TermLanguageSetV,
)
    requires
        can_insert_new(rows),
        max_term_id(rows) + 1 < i32::MAX,
        t1.term is Some || t2.term is Some,
        ({
            let p = if t1.term is Some { t1 } else { t2 };
            &&& p.language is Some
            &&& forall|i: int|
                0 <= i < rows.len() ==> !((#[trigger] rows[i].term_language_set.term) == p.term
                    && rows[i].term_language_set.language == p.language)
        }),
    ensures
        spec_two(rows, t1, t2).1 is None,
        ({
            let p = if t1.term is Some { t1 } else { t2 };
            let s = if t1.term is Some { t2 } else { t1 };
            let gid = max_term_set_id(rows) + 1;
            let after = spec_two(rows, t1, t2).0;
            &&& after.len() == rows.len() + 2
            &&& after[rows.len() as int].term_language_set == p
            &&& after[rows.len() as int + 1].term_language_set == s
            &&& after[rows.len() as int].term_set_id == gid
            &&& after[rows.len() as int + 1].term_set_id == gid
            &&& find_group_by_term_lang(after, p.term->0, p.language->0) == Some(gid)
        }),
{
    let p = if t1.term is Some { t1 } else { t2 };
    let s = if t1.term is Some { t2 } else { t1 };
    let gid = max_term_set_id(rows) + 1;
    let row1 = new_group_row(rows, p);
    let rows1 = rows.push(row1);
    crate::dictionary::database::lemma_max_term_id_push(rows, row1);
    let row2 = group_member_row(rows1, gid, s);
    let after = spec_two(rows, t1, t2).0;
    assert(after == rows1.push(row2));
    assert(after =~= rows + seq![row1, row2]);
    assert(row1.term_language_set.term == p.term && row1.term_language_set.language == p.language);
    lemma_find_group_skips(rows, seq![row1, row2], p.term->0, p.language->0);
    assert(find_group_by_term_lang(seq![row1, row2], p.term->0, p.language->0) == Some(
        row1.term_set_id,
    ));
}

/// A two-variant concept where neither variant has a term fails with a
/// grouping error and writes zero rows.
pub proof fn lemma_no_term_grouping_error(
    rows: Seq<TermsListV>,
    t1: TermLanguageSetV,
    t2: TermLanguageSetV,
)
    requires
        t1.term is None,
        t2.term is None,
    ensures
        spec_two(rows, t1, t2) == (rows, Some(GroupError::NoTerm)),
{
}

/// A three-variant concept with exactly one missing-term variant yields
/// exactly two stored rows sharing one fresh group identifier, each
/// carrying a term: the missing-term variant is never written.  The two
/// present variants must not match each other by term and language, and
/// the two fresh row identifiers must be representable.
pub proof fn lemma_three_with_one_missing(
    rows: Seq<TermsListV>,
    ts: Seq<TermLanguageSetV>,
    m: int,
)
    requires
        can_insert_new(rows),
        max_term_id(rows) + 2 <= i32::MAX,
        ts.len() == 3,
        0 <= m < 3,
        ts[m].term is None,
        forall|i: int| 0 <= i < 3 && i != m ==> (#[trigger] ts[i]).term is Some,
        ({
            let a = if m == 0 { 1int } else { 0int };
            let b = if m == 2 { 1int } else { 2int };
            !(ts[b].term == ts[a].term && ts[b].language == ts[a].language)
        }),
    ensures
        spec_three(rows, ts).1 is None,
        spec_three(rows, ts).0.len() == rows.len() + 2,
        spec_three(rows, ts).0[rows.len() as int].term_set_id == max_term_set_id(rows) + 1,
        spec_three(rows, ts).0[rows.len() as int + 1].term_set_id == max_term_set_id(rows) + 1,
        spec_three(rows, ts).0[rows.len() as int].term_language_set.term is Some,
        spec_three(rows, ts).0[rows.len() as int + 1].term_language_set.term is Some,
{
    let a = if m == 0 { 1int } else { 0int };
    let b = if m == 2 { 1int } else { 2int };
    let p = ts[a];
    assert(ts.drop_first() =~= ts.subrange(1, 3));
    assert(ts.drop_first().drop_first() =~= ts.subrange(2, 3));
    assert(first_with_term(ts) == Some(a)) by {
        if m == 0 {
            assert(ts[0].term is None);
            assert(ts.drop_first()[0] == ts[1]);
            assert(ts[1].term is Some);
            assert(first_with_term(ts.drop_first()) == Some(0int));
        } else {
            assert(ts[0].term is Some);
        }
    }
    let gid = max_term_set_id(rows) + 1;
    let row1 = new_group_row(rows, p);
    let rows1 = rows.push(row1);
    crate::dictionary::database::lemma_max_term_id_push(rows, row1);
    assert(max_term_id(rows1) == max_term_id(rows) + 1);
    assert(ts.drop_last() =~= ts.take(2));
    assert(ts.take(2).drop_last() =~= ts.take(1));
    assert(ts.take(1).drop_last() =~= ts.take(0));
    assert(ts.take(0) =~= Seq::<TermLanguageSetV>::empty());
    assert(ts.take(1)[0] == ts[0] && ts.take(1).last() == ts[0]);
    assert(ts.take(2).last() == ts[1]);
    assert(ts.last() == ts[2]);
    assert(add_secondaries(rows1, gid, ts.take(0), p) == (rows1, None::<
        crate::dictionary::database::StoreError,
    >));
    assert(skipped_by_secondary_pass(ts[m], p));
    assert(skipped_by_secondary_pass(ts[a], p));
    assert(!skipped_by_secondary_pass(ts[b], p));
    let row2 = group_member_row(rows1, gid, ts[b]);
    if m == 0 {
        // skip, skip, insert
        assert(add_secondaries(rows1, gid, ts.take(1), p) == (rows1, None::<
            crate::dictionary::database::StoreError,
        >));
        assert(add_secondaries(rows1, gid, ts.take(2), p) == (rows1, None::<
            crate::dictionary::database::StoreError,
        >));
        assert(add_secondaries(rows1, gid, ts, p) == (rows1.push(row2), None::<
            crate::dictionary::database::StoreError,
        >));
    } else if m == 1 {
        // skip, skip, insert
        assert(add_secondaries(rows1, gid, ts.take(1), p) == (rows1, None::<
            crate::dictionary::database::StoreError,
        >));
        assert(add_secondaries(rows1, gid, ts.take(2), p) == (rows1, None::<
            crate::dictionary::database::StoreError,
        >));
        assert(add_secondaries(rows1, gid, ts, p) == (rows1.push(row2), None::<
            crate::dictionary::database::StoreError,
        >));
    } else {
        // skip, insert, skip
        assert(add_secondaries(rows1, gid, ts.take(1), p) == (rows1, None::<
            crate::dictionary::database::StoreError,
        >));
        assert(add_secondaries(rows1, gid, ts.take(2), p) == (rows1.push(row2), None::<
            crate::dictionary::database::StoreError,
        >));
        assert(add_secondaries(rows1, gid, ts, p) == (rows1.push(row2), None::<
            crate::dictionary::database::StoreError,
        >));
    }
    let after = spec_three(rows, ts).0;
    assert(after == rows1.push(row2));
    assert(after[rows.len() as int] == row1);
    assert(after[rows.len() as int + 1] == row2);
}

/// The secondary pass of a multi-variant concept never writes a variant
/// without a term, whatever the variant count: every row it appends
/// carries one.
pub proof fn lemma_secondary_pass_writes_terms_only(
    rows: Seq<TermsListV>,
    gid: int,
    ts: Seq<TermLanguageSetV>,
    p: TermLanguageSetV,
)
    ensures
        ({
            let after = add_secondaries(rows, gid, ts, p).0;
            &&& after.len() >= rows.len()
            &&& forall|i: int| 0 <= i < rows.len() ==> #[trigger] after[i] == rows[i]
            &&& forall|i: int|
                rows.len() <= i < after.len() ==> (#[trigger] after[i]).term_language_set.term
                    is Some
        }),
    decreases ts.len(),
{
    if ts.len() > 0 {
        lemma_secondary_pass_writes_terms_only(rows, gid, ts.drop_last(), p);
    }
}

/// A partial update that supplies only the definition leaves every other
/// field of every row at its prior value, and changes no identifier.
pub proof fn lemma_partial_update_definition_only(rows: Seq<TermsListV>, id: int, d: Seq<char>)
    ensures
        ({
            let u = TermLanguageSetV { definition: Some(d), ..empty_term_language_set() };
            let after = rows_after_update(rows, id, u);
            &&& after.len() == rows.len()
            &&& forall|i: int|
                0 <= i < rows.len() && rows[i].term_id != id ==> #[trigger] after[i] == rows[i]
            &&& forall|i: int|
                0 <= i < rows.len() && rows[i].term_id == id ==> #[trigger] after[i]
                    == (TermsListV {
                    term_language_set: TermLanguageSetV {
                        definition: Some(d),
                        ..rows[i].term_language_set
                    },
                    ..rows[i]
                })
        }),
{
}

/// Re-applying the same partial update twice yields the same stored
/// state as applying it once.
pub proof fn lemma_partial_update_idempotent(rows: Seq<TermsListV>, id: int, u: TermLanguageSetV)
    ensures
        rows_after_update(rows_after_update(rows, id, u), id, u) == rows_after_update(rows, id, u),
{
    let once = rows_after_update(rows, id, u);
    let twice = rows_after_update(once, id, u);
    assert forall|i: int| 0 <= i < rows.len() implies twice[i] == once[i] by {
        assert(coalesce_upd(coalesce_upd(rows[i].term_language_set, u), u) == coalesce_upd(
            rows[i].term_language_set,
            u,
        ));
    }
    assert(twice =~= once);
}

/// Removing a missing row identifier removes nothing: the distinct
/// not-found report of a delete is the only possible outcome there.
pub proof fn lemma_delete_missing_changes_nothing(rows: Seq<TermsListV>, id: int)
    requires
        forall|i: int| 0 <= i < rows.len() ==> (#[trigger] rows[i].term_id) != id,
    ensures
        rows_without_term_id(rows, id) == rows,
    decreases rows.len(),
{
    if rows.len() > 0 {
        assert(forall|i: int|
            0 <= i < rows.drop_last().len() ==> rows.drop_last()[i] == rows[i]);
        lemma_delete_missing_changes_nothing(rows.drop_last(), id);
        assert(rows_without_term_id(rows, id) =~= rows);
    }
}

/// Importing into an empty store a fixture of three concepts of one, two
/// and three variants — every variant carrying a term, and no later
/// variant of the three-variant concept matching its first by term and
/// language — yields exactly six stored rows across exactly three
/// distinct group identifiers.
pub proof fn lemma_round_trip_import(entries: Seq<DictionaryEntryV>)
    requires
        entries.len() == 3,
        entries[0].language_sets.len() == 1,
        entries[1].language_sets.len() == 2,
        entries[2].language_sets.len() == 3,
        forall|i: int, j: int|
            0 <= i < 3 && 0 <= j < entries[i].language_sets.len() ==> (#[trigger] entries[i].language_sets[j]).term is Some,
        forall|j: int|
            1 <= j < 3 ==> !((#[trigger] entries[2].language_sets[j]).term
                == entries[2].language_sets[0].term && entries[2].language_sets[j].language
                == entries[2].language_sets[0].language),
    ensures
        ({
            let outcome = import_fold(Seq::<TermsListV>::empty(), entries);
            &&& outcome.1 is None
            &&& outcome.0.len() == 6
            &&& outcome.0[0].term_set_id == 1
            &&& outcome.0[1].term_set_id == 2
            &&& outcome.0[2].term_set_id == 2
            &&& outcome.0[3].term_set_id == 3
            &&& outcome.0[4].term_set_id == 3
            &&& outcome.0[5].term_set_id == 3
        }),
{
    let empty = Seq::<TermsListV>::empty();
    assert(entries.drop_last() =~= entries.take(2));
    assert(entries.take(2).drop_last() =~= entries.take(1));
    assert(entries.take(1).drop_last() =~= entries.take(0));
    assert(entries.take(0) =~= Seq::<DictionaryEntryV>::empty());
    assert(entries.take(1).last() == entries[0]);
    assert(entries.take(2).last() == entries[1]);
    assert(entries.last() == entries[2]);

    // The single-variant concept starts group 1.
    let t0 = entries[0].language_sets[0];
    let row1 = new_group_row(empty, t0);
    let rows1 = empty.push(row1);
    assert(rows1[0] == row1);
    assert(row1.term_id == 1 && row1.term_set_id == 1);
    assert(process_entry_spec(empty, entries[0].language_sets) == (rows1, None::<GroupError>));
    assert(import_fold(empty, entries.take(0)) == (empty, None::<GroupError>));
    assert(import_fold(empty, entries.take(1)) == (rows1, None::<GroupError>));

    // The two-variant concept fills group 2.
    let a = entries[1].language_sets[0];
    let b = entries[1].language_sets[1];
    crate::dictionary::database::lemma_max_term_id_push(empty, row1);
    crate::dictionary::database::lemma_max_term_set_id_push(empty, row1);
    let row2 = new_group_row(rows1, a);
    let rows2 = rows1.push(row2);
    crate::dictionary::database::lemma_max_term_id_push(rows1, row2);
    crate::dictionary::database::lemma_max_term_set_id_push(rows1, row2);
    let row3 = group_member_row(rows2, 2, b);
    let rows3 = rows2.push(row3);
    crate::dictionary::database::lemma_max_term_id_push(rows2, row3);
    crate::dictionary::database::lemma_max_term_set_id_push(rows2, row3);
    assert(row2.term_id == 2 && row2.term_set_id == 2);
    assert(row3.term_id == 3 && row3.term_set_id == 2);
    assert(spec_two(rows1, a, b) == (rows3, None::<GroupError>));
    assert(import_fold(empty, entries.take(2)) == (rows3, None::<GroupError>));

    // The three-variant concept fills group 3.
    let ts = entries[2].language_sets;
    assert(first_with_term(ts) == Some(0int));
    let p = ts[0];
    let row4 = new_group_row(rows3, p);
    let rows4 = rows3.push(row4);
    crate::dictionary::database::lemma_max_term_id_push(rows3, row4);
    crate::dictionary::database::lemma_max_term_set_id_push(rows3, row4);
    assert(row4.term_id == 4 && row4.term_set_id == 3);
    assert(ts.drop_last() =~= ts.take(2));
    assert(ts.take(2).drop_last() =~= ts.take(1));
    assert(ts.take(1).drop_last() =~= ts.take(0));
    assert(ts.take(0) =~= Seq::<TermLanguageSetV>::empty());
    assert(ts.take(1).last() == ts[0]);
    assert(ts.take(2).last() == ts[1]);
    assert(ts.last() == ts[2]);
    assert(skipped_by_secondary_pass(ts[0], p));
    assert(!skipped_by_secondary_pass(ts[1], p));
    assert(!skipped_by_secondary_pass(ts[2], p));
    let row5 = group_member_row(rows4, 3, ts[1]);
    let rows5 = rows4.push(row5);
    crate::dictionary::database::lemma_max_term_id_push(rows4, row5);
    crate::dictionary::database::lemma_max_term_set_id_push(rows4, row5);
    let row6 = group_member_row(rows5, 3, ts[2]);
    let rows6 = rows5.push(row6);
    assert(row5.term_id == 5 && row5.term_set_id == 3);
    assert(row6.term_id == 6 && row6.term_set_id == 3);
    assert(add_secondaries(rows4, 3, ts.take(0), p) == (rows4, None::<StoreError>));
    assert(add_secondaries(rows4, 3, ts.take(1), p) == (rows4, None::<StoreError>));
    assert(add_secondaries(rows4, 3, ts.take(2), p) == (rows5, None::<StoreError>));
    assert(add_secondaries(rows4, 3, ts, p) == (rows6, None::<StoreError>));
    assert(spec_three(rows3, ts) == (rows6, None::<GroupError>));
    assert(import_fold(empty, entries) == (rows6, None::<GroupError>));
    assert(rows6[0] == row1 && rows6[1] == row2 && rows6[2] == row3 && rows6[3] == row4 && rows6[4]
        == row5 && rows6[5] == row6);
}

/// Immediately after any successful mutation the refreshed caches are
/// coherent: the snapshot and the reserved query-cache slot hold exactly
/// the new rows, so no read served from them can observe the
/// pre-mutation state.
pub proof fn lemma_refreshed_caches_are_coherent(app: AppState, cache: SearchCache)
    requires
        caches_refreshed(app, cache),
    ensures
        app.terms_cache_ok(),
        cache.coherent_with(app.rows_v()),
        app.terms_cache matches Some(v) && v.deep_view() == app.rows_v(),
        cache.all_terms matches Some(v) && v.deep_view() == app.rows_v(),
{
}

} // verus!
