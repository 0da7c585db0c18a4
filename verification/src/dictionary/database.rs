//! The storage gateway: one table of term rows plus eight derived
//! distinct-value tables, held in memory and owned by the application
//! state.  Every operation states exactly how it reads or rewrites the
//! rows.
//!
//! A stored row carries a unique row identifier (`term_id`) and a group
//! identifier (`term_set_id`) shared by every row of the same concept.
//! A fresh group identifier is one greater than the current maximum, and
//! a fresh row identifier one greater than the current maximum row
//! identifier, as the persistent store assigns them.

use vstd::prelude::*;
use vstd::string::StringExecFns;

use crate::import::parse::TermLanguageSet;
use crate::import::parse::TermLanguageSetV;
use crate::import::parse::clone_term_language_set;
use crate::text::contains_seq;
use crate::text::dec_string;
use crate::text::i64_to_string;
use crate::text::str_contains;
use crate::text::str_eq;
use crate::text::opt_str_eq;
use crate::text::clone_opt_string;

verus! {

/// Where the persistent store lives: a directory, a database name and the
/// name of the row table.
#[derive(Clone, Debug)]
pub struct DbInfo {
    pub dir: String,
    pub name: String,
    pub table_name: String,
}

impl DbInfo {
    /// The store's file path: `dir/name.sqlite`.
    pub fn path(&self) -> (r: String)
        ensures
            r@ == self.dir@ + "/"@ + self.name@ + ".sqlite"@,
    {
        let mut p = self.dir.clone();
        p.append("/");
        p.append(self.name.as_str());
        p.append(".sqlite");
        p
    }
}

/// One stored term row: the row identifier, the shared group identifier,
/// and the language record itself.
#[derive(Clone, Debug, PartialEq)]
pub struct TermsList {
    pub term_id: i32,
    pub term_set_id: i32,
    pub term_language_set: TermLanguageSet,
}

/// The mathematical value of a stored term row.
pub struct TermsListV {
    pub term_id: int,
    pub term_set_id: int,
    pub term_language_set: TermLanguageSetV,
}

impl View for TermsList {
    type V = TermsListV;

    open spec fn view(&self) -> TermsListV {
        TermsListV {
            term_id: self.term_id as int,
            term_set_id: self.term_set_id as int,
            term_language_set: self.term_language_set@,
        }
    }
}

impl DeepView for TermsList {
    type V = TermsListV;

    open spec fn deep_view(&self) -> TermsListV {
        self.view()
    }
}

/// A copy of a stored row with the same contents.
pub fn clone_terms_list(t: &TermsList) -> (r: TermsList)
    ensures
        r == *t,
{
    TermsList {
        term_id: t.term_id,
        term_set_id: t.term_set_id,
        term_language_set: clone_term_language_set(&t.term_language_set),
    }
}

/// An optional text, or the given fallback where it is absent.
pub open spec fn opt_or(o: Option<Seq<char>>, d: Seq<char>) -> Seq<char> {
    match o {
        Some(s) => s,
        None => d,
    }
}

impl TermsList {
    pub fn term_or_default(&self) -> (r: &str)
        ensures
            r@ == opt_or(self@.term_language_set.term, "No Term"@),
    {
        match &self.term_language_set.term {
            Some(s) => s.as_str(),
            None => "No Term",
        }
    }

    pub fn language_or_default(&self) -> (r: &str)
        ensures
            r@ == opt_or(self@.term_language_set.language, "No Language"@),
    {
        match &self.term_language_set.language {
            Some(s) => s.as_str(),
            None => "No Language",
        }
    }

    pub fn term_type_or_default(&self) -> (r: &str)
        ensures
            r@ == opt_or(self@.term_language_set.term_type, "No Term Type"@),
    {
        match &self.term_language_set.term_type {
            Some(s) => s.as_str(),
            None => "No Term Type",
        }
    }

    pub fn created_by_or_default(&self) -> (r: &str)
        ensures
            r@ == opt_or(self@.term_language_set.creator_id, "No Creator"@),
    {
        match &self.term_language_set.creator_id {
            Some(s) => s.as_str(),
            None => "No Creator",
        }
    }

    pub fn created_date_or_default(&self) -> (r: String)
        ensures
            r@ == match self@.term_language_set.creation_timestamp {
                Some(ts) => dec_string(ts as int),
                None => "No Date"@,
            },
    {
        match self.term_language_set.creation_timestamp {
            Some(ts) => i64_to_string(ts),
            None => String::from_str("No Date"),
        }
    }

    pub fn updated_by_or_default(&self) -> (r: &str)
        ensures
            r@ == opt_or(self@.term_language_set.updater_id, "No Updater"@),
    {
        match &self.term_language_set.updater_id {
            Some(s) => s.as_str(),
            None => "No Updater",
        }
    }

    pub fn updated_date_or_default(&self) -> (r: String)
        ensures
            r@ == match self@.term_language_set.update_timestamp {
                Some(ts) => dec_string(ts as int),
                None => "No Date"@,
            },
    {
        match self.term_language_set.update_timestamp {
            Some(ts) => i64_to_string(ts),
            None => String::from_str("No Date"),
        }
    }

    pub fn subject_or_default(&self) -> (r: &str)
        ensures
            r@ == opt_or(self@.term_language_set.subject, "No Subject"@),
    {
        match &self.term_language_set.subject {
            Some(s) => s.as_str(),
            None => "No Subject",
        }
    }

    pub fn source_or_default(&self) -> (r: &str)
        ensures
            r@ == opt_or(self@.term_language_set.source, "No Source"@),
    {
        match &self.term_language_set.source {
            Some(s) => s.as_str(),
            None => "No Source",
        }
    }

    pub fn user_or_default(&self) -> (r: &str)
        ensures
            r@ == opt_or(self@.term_language_set.user, "No User"@),
    {
        match &self.term_language_set.user {
            Some(s) => s.as_str(),
            None => "No User",
        }
    }

    pub fn attributes_or_default(&self) -> (r: &str)
        ensures
            r@ == opt_or(self@.term_language_set.attributes, "No Attributes"@),
    {
        match &self.term_language_set.attributes {
            Some(s) => s.as_str(),
            None => "No Attributes",
        }
    }

    pub fn remark_or_default(&self) -> (r: &str)
        ensures
            r@ == opt_or(self@.term_language_set.remark, "No Remark"@),
    {
        match &self.term_language_set.remark {
            Some(s) => s.as_str(),
            None => "No Remark",
        }
    }

    pub fn url_or_default(&self) -> (r: &str)
        ensures
            r@ == opt_or(self@.term_language_set.url, "No URL"@),
    {
        match &self.term_language_set.url {
            Some(s) => s.as_str(),
            None => "No URL",
        }
    }

    pub fn context_or_default(&self) -> (r: &str)
        ensures
            r@ == opt_or(self@.term_language_set.context, "No Context"@),
    {
        match &self.term_language_set.context {
            Some(s) => s.as_str(),
            None => "No Context",
        }
    }

    pub fn definition_or_default(&self) -> (r: &str)
        ensures
            r@ == opt_or(self@.term_language_set.definition, "No Definition"@),
    {
        match &self.term_language_set.definition {
            Some(s) => s.as_str(),
            None => "No Definition",
        }
    }
}

/// Why a store operation failed.
#[derive(Clone, Copy, Debug, PartialEq, Eq, Structural)]
pub enum StoreError {
    /// A delete affected no row.
    NotFound,
    /// A fresh identifier would pass the largest representable one.
    IdOverflow,
}

/// The eight derived distinct-value tables, one per filterable column,
/// each holding the column's distinct values in order of first occurrence.
#[derive(Debug)]
pub struct UniqueValues {
    pub languages: Vec<Option<String>>,
    pub term_types: Vec<Option<String>>,
    pub creator_ids: Vec<Option<String>>,
    pub updater_ids: Vec<Option<String>>,
    pub subjects: Vec<Option<String>>,
    pub sources: Vec<Option<String>>,
    pub users: Vec<Option<String>>,
    pub attributes: Vec<Option<String>>,
}

impl UniqueValues {
    /// All eight tables empty.
    pub fn new() -> (r: UniqueValues)
        ensures
            r.languages@.len() == 0,
            r.term_types@.len() == 0,
            r.creator_ids@.len() == 0,
            r.updater_ids@.len() == 0,
            r.subjects@.len() == 0,
            r.sources@.len() == 0,
            r.users@.len() == 0,
            r.attributes@.len() == 0,
    {
        UniqueValues {
            languages: Vec::new(),
            term_types: Vec::new(),
            creator_ids: Vec::new(),
            updater_ids: Vec::new(),
            subjects: Vec::new(),
            sources: Vec::new(),
            users: Vec::new(),
            attributes: Vec::new(),
        }
    }
}

/// The application state: where the store lives, the row table, the
/// snapshot cache of all rows, and the derived distinct-value tables.
#[derive(Debug)]
pub struct AppState {
    pub db_info: DbInfo,
    pub rows: Vec<TermsList>,
    pub terms_cache: Option<Vec<TermsList>>,
    pub unique_values: UniqueValues,
}

/// Row identifiers are unique and at least one, as the store assigns them.
pub open spec fn wf_rows(rows: Seq<TermsListV>) -> bool {
    &&& forall|i: int, j: int|
        0 <= i < j < rows.len() ==> rows[i].term_id != rows[j].term_id
    &&& forall|i: int| 0 <= i < rows.len() ==> 1 <= #[trigger] rows[i].term_id
}

impl AppState {
    /// The mathematical contents of the row table.
    pub open spec fn rows_v(&self) -> Seq<TermsListV> {
        self.rows.deep_view()
    }

    /// The state is well formed.
    pub open spec fn wf(&self) -> bool {
        wf_rows(self.rows_v())
    }

    /// The snapshot cache is empty or agrees with the row table.
    pub open spec fn terms_cache_ok(&self) -> bool {
        match self.terms_cache {
            None => true,
            Some(v) => v.deep_view() == self.rows_v(),
        }
    }
}

/// The largest row identifier, zero for an empty table.
pub open spec fn max_term_id(rows: Seq<TermsListV>) -> int
    decreases rows.len(),
{
    if rows.len() == 0 {
        0
    } else if rows.len() == 1 {
        rows[0].term_id
    } else {
        let m = max_term_id(rows.drop_last());
        if rows.last().term_id > m {
            rows.last().term_id
        } else {
            m
        }
    }
}

/// The largest group identifier, zero for an empty table.
pub open spec fn max_term_set_id(rows: Seq<TermsListV>) -> int
    decreases rows.len(),
{
    if rows.len() == 0 {
        0
    } else if rows.len() == 1 {
        rows[0].term_set_id
    } else {
        let m = max_term_set_id(rows.drop_last());
        if rows.last().term_set_id > m {
            rows.last().term_set_id
        } else {
            m
        }
    }
}

proof fn lemma_max_term_id_ge(rows: Seq<TermsListV>, i: int)
    requires
        0 <= i < rows.len(),
    ensures
        rows[i].term_id <= max_term_id(rows),
    decreases rows.len(),
{
    if rows.len() > 1 && i < rows.len() - 1 {
        lemma_max_term_id_ge(rows.drop_last(), i);
    }
}

/// The largest row identifier after appending one row.
pub proof fn lemma_max_term_id_push(rows: Seq<TermsListV>, row: TermsListV)
    ensures
        max_term_id(rows.push(row)) == if rows.len() == 0 {
            row.term_id
        } else if row.term_id > max_term_id(rows) {
            row.term_id
        } else {
            max_term_id(rows)
        },
{
    if rows.len() == 0 {
        assert(rows.push(row)[0] == row);
    } else {
        assert(rows.push(row).drop_last() =~= rows);
        assert(rows.push(row).last() == row);
    }
}

/// The largest group identifier after appending one row.
pub proof fn lemma_max_term_set_id_push(rows: Seq<TermsListV>, row: TermsListV)
    ensures
        max_term_set_id(rows.push(row)) == if rows.len() == 0 {
            row.term_set_id
        } else if row.term_set_id > max_term_set_id(rows) {
            row.term_set_id
        } else {
            max_term_set_id(rows)
        },
{
    if rows.len() == 0 {
        assert(rows.push(row)[0] == row);
    } else {
        assert(rows.push(row).drop_last() =~= rows);
        assert(rows.push(row).last() == row);
    }
}

/// The current time in seconds since the epoch.  Relies on
/// `chrono::Utc::now` and its `timestamp`; nothing is assumed of the value.
#[verifier::external_body]
pub fn current_epoch() -> i64 {
    chrono::Utc::now().timestamp()
}

/// The largest row identifier in the table.
pub fn get_max_term_id(app: &AppState) -> (r: Result<i32, StoreError>)
    ensures
        r == Ok::<i32, StoreError>((max_term_id(app.rows_v()) as i32)),
        i32::MIN <= max_term_id(app.rows_v()) <= i32::MAX,
{
    let n = app.rows.len();
    let mut m: i32 = 0;
    let mut i: usize = 0;
    proof {
        assert(app.rows_v().take(0) =~= Seq::<TermsListV>::empty());
    }
    while i < n
        invariant
            n == app.rows_v().len(),
            i <= n,
            i == 0 ==> m == 0,
            i > 0 ==> m as int == max_term_id(app.rows_v().take(i as int)),
        decreases n - i,
    {
        proof {
            assert(app.rows_v().take(i + 1).drop_last() =~= app.rows_v().take(i as int));
            assert(app.rows_v().take(i + 1).last() == app.rows_v()[i as int]);
        }
        let id = app.rows[i].term_id;
        if i == 0 || id > m {
            m = id;
        }
        i = i + 1;
    }
    proof {
        assert(app.rows_v().take(n as int) =~= app.rows_v());
    }
    Ok(m)
}

/// The largest group identifier in the table.
pub fn get_max_term_set_id(app: &AppState) -> (r: Result<i32, StoreError>)
    ensures
        r == Ok::<i32, StoreError>((max_term_set_id(app.rows_v()) as i32)),
        i32::MIN <= max_term_set_id(app.rows_v()) <= i32::MAX,
{
    let n = app.rows.len();
    let mut m: i32 = 0;
    let mut i: usize = 0;
    proof {
        assert(app.rows_v().take(0) =~= Seq::<TermsListV>::empty());
    }
    while i < n
        invariant
            n == app.rows_v().len(),
            i <= n,
            i == 0 ==> m == 0,
            i > 0 ==> m as int == max_term_set_id(app.rows_v().take(i as int)),
        decreases n - i,
    {
        proof {
            assert(app.rows_v().take(i + 1).drop_last() =~= app.rows_v().take(i as int));
            assert(app.rows_v().take(i + 1).last() == app.rows_v()[i as int]);
        }
        let id = app.rows[i].term_set_id;
        if i == 0 || id > m {
            m = id;
        }
        i = i + 1;
    }
    proof {
        assert(app.rows_v().take(n as int) =~= app.rows_v());
    }
    Ok(m)
}

/// The largest row identifier, with the error mapped to a message.
pub fn get_max_id_terms(app: &AppState) -> (r: Result<i32, String>)
    ensures
        r matches Ok(v) && v as int == max_term_id(app.rows_v()),
{
    match get_max_term_id(app) {
        Ok(v) => Ok(v),
        Err(_) => Err(String::from_str("Failed to get the highest ID")),
    }
}

/// The largest group identifier, with the error mapped to a message.
pub fn get_max_id_termsets(app: &AppState) -> (r: Result<i32, String>)
    ensures
        r matches Ok(v) && v as int == max_term_set_id(app.rows_v()),
{
    match get_max_term_set_id(app) {
        Ok(v) => Ok(v),
        Err(_) => Err(String::from_str("Failed to get the highest ID")),
    }
}

/// An optional text, or the empty text where it is absent — how the store
/// treats an absent column in a filter.
pub open spec fn opt_or_empty(o: Option<Seq<char>>) -> Seq<char> {
    match o {
        Some(s) => s,
        None => Seq::<char>::empty(),
    }
}

/// A row satisfies a search: its term contains the searched term as a
/// substring, and its language equals the searched language unless that
/// is empty, which matches every language.
pub open spec fn row_matches(r: TermsListV, t: Seq<char>, l: Seq<char>) -> bool {
    &&& contains_seq(opt_or_empty(r.term_language_set.term), t)
    &&& (l.len() == 0 || opt_or_empty(r.term_language_set.language) == l)
}

/// The rows satisfying a search, in table order.
pub open spec fn search_filter(rows: Seq<TermsListV>, t: Seq<char>, l: Seq<char>) -> Seq<
    TermsListV,
>
    decreases rows.len(),
{
    if rows.len() == 0 {
        Seq::<TermsListV>::empty()
    } else {
        search_filter(rows.drop_last(), t, l) + if row_matches(rows.last(), t, l) {
            seq![rows.last()]
        } else {
            Seq::<TermsListV>::empty()
        }
    }
}

proof fn lemma_search_filter_step(rows: Seq<TermsListV>, t: Seq<char>, l: Seq<char>, i: int)
    requires
        0 <= i < rows.len(),
    ensures
        search_filter(rows.take(i + 1), t, l) == search_filter(rows.take(i), t, l) + (if row_matches(
            rows[i],
            t,
            l,
        ) {
            seq![rows[i]]
        } else {
            Seq::<TermsListV>::empty()
        }),
{
    assert(rows.take(i + 1).drop_last() =~= rows.take(i));
    assert(rows.take(i + 1).last() == rows[i]);
}

/// The rows of one group, in table order.
pub open spec fn group_filter(rows: Seq<TermsListV>, gid: int) -> Seq<TermsListV>
    decreases rows.len(),
{
    if rows.len() == 0 {
        Seq::<TermsListV>::empty()
    } else {
        group_filter(rows.drop_last(), gid) + if rows.last().term_set_id == gid {
            seq![rows.last()]
        } else {
            Seq::<TermsListV>::empty()
        }
    }
}

proof fn lemma_group_filter_step(rows: Seq<TermsListV>, gid: int, i: int)
    requires
        0 <= i < rows.len(),
    ensures
        group_filter(rows.take(i + 1), gid) == group_filter(rows.take(i), gid) + (if rows[i].term_set_id
            == gid {
            seq![rows[i]]
        } else {
            Seq::<TermsListV>::empty()
        }),
{
    assert(rows.take(i + 1).drop_last() =~= rows.take(i));
    assert(rows.take(i + 1).last() == rows[i]);
}

/// The table with every row of the given row identifier removed.
pub open spec fn rows_without_term_id(rows: Seq<TermsListV>, id: int) -> Seq<TermsListV>
    decreases rows.len(),
{
    if rows.len() == 0 {
        Seq::<TermsListV>::empty()
    } else {
        rows_without_term_id(rows.drop_last(), id) + if rows.last().term_id == id {
            Seq::<TermsListV>::empty()
        } else {
            seq![rows.last()]
        }
    }
}

proof fn lemma_rows_without_term_id_step(rows: Seq<TermsListV>, id: int, i: int)
    requires
        0 <= i < rows.len(),
    ensures
        rows_without_term_id(rows.take(i + 1), id) == rows_without_term_id(rows.take(i), id) + (
        if rows[i].term_id == id {
            Seq::<TermsListV>::empty()
        } else {
            seq![rows[i]]
        }),
{
    assert(rows.take(i + 1).drop_last() =~= rows.take(i));
    assert(rows.take(i + 1).last() == rows[i]);
}

/// The table with every row of the given group removed.
pub open spec fn rows_without_term_set_id(rows: Seq<TermsListV>, gid: int) -> Seq<TermsListV>
    decreases rows.len(),
{
    if rows.len() == 0 {
        Seq::<TermsListV>::empty()
    } else {
        rows_without_term_set_id(rows.drop_last(), gid) + if rows.last().term_set_id == gid {
            Seq::<TermsListV>::empty()
        } else {
            seq![rows.last()]
        }
    }
}

proof fn lemma_rows_without_term_set_id_step(rows: Seq<TermsListV>, gid: int, i: int)
    requires
        0 <= i < rows.len(),
    ensures
        rows_without_term_set_id(rows.take(i + 1), gid) == rows_without_term_set_id(
            rows.take(i),
            gid,
        ) + (if rows[i].term_set_id == gid {
            Seq::<TermsListV>::empty()
        } else {
            seq![rows[i]]
        }),
{
    assert(rows.take(i + 1).drop_last() =~= rows.take(i));
    assert(rows.take(i + 1).last() == rows[i]);
}

/// The first row with the given row identifier.
pub open spec fn find_row_by_id(rows: Seq<TermsListV>, id: int) -> Option<TermsListV>
    decreases rows.len(),
{
    if rows.len() == 0 {
        None
    } else if rows[0].term_id == id {
        Some(rows[0])
    } else {
        find_row_by_id(rows.drop_first(), id)
    }
}

/// The group identifier of the first row whose term and language both
/// equal the given ones; a row with either column absent never matches.
pub open spec fn find_group_by_term_lang(rows: Seq<TermsListV>, t: Seq<char>, l: Seq<char>) -> Option<
    int,
>
    decreases rows.len(),
{
    if rows.len() == 0 {
        None
    } else if rows[0].term_language_set.term == Some(t) && rows[0].term_language_set.language
        == Some(l) {
        Some(rows[0].term_set_id)
    } else {
        find_group_by_term_lang(rows.drop_first(), t, l)
    }
}

/// How many rows carry the given row identifier.
pub open spec fn count_term_id(rows: Seq<TermsListV>, id: int) -> int
    decreases rows.len(),
{
    if rows.len() == 0 {
        0
    } else {
        count_term_id(rows.drop_last(), id) + if rows.last().term_id == id {
            1int
        } else {
            0int
        }
    }
}

/// A row satisfies a search, decided exactly as `row_matches` states it.
pub fn row_matches_exec(row: &TermsList, term: &str, language: &str) -> (r: bool)
    ensures
        r == row_matches(row@, term@, language@),
{
    proof {
        reveal_strlit("");
        assert(""@ =~= Seq::<char>::empty());
    }
    let term_str: &str = match &row.term_language_set.term {
        Some(s) => s.as_str(),
        None => "",
    };
    if !str_contains(term_str, term) {
        return false;
    }
    if !language.is_empty() {
        let lang_str: &str = match &row.term_language_set.language {
            Some(s) => s.as_str(),
            None => "",
        };
        if !str_eq(lang_str, language) {
            return false;
        }
    }
    true
}

/// A copy of every row of a table, in order.
pub fn clone_rows(rows: &Vec<TermsList>) -> (r: Vec<TermsList>)
    ensures
        r.deep_view() == rows.deep_view(),
        r@.len() == rows@.len(),
{
    let n = rows.len();
    let mut out: Vec<TermsList> = Vec::new();
    let mut i: usize = 0;
    while i < n
        invariant
            n == rows@.len(),
            i <= n,
            out@.len() == i,
            forall|j: int| 0 <= j < i ==> out.deep_view()[j] == rows.deep_view()[j],
        decreases n - i,
    {
        out.push(clone_terms_list(&rows[i]));
        i = i + 1;
    }
    proof {
        assert(out.deep_view() =~= rows.deep_view());
    }
    out
}

/// The rows of a table satisfying a search, in order.
pub(crate) fn filter_rows_exec(rows: &Vec<TermsList>, term: &str, language: &str) -> (r: Vec<TermsList>)
    ensures
        r.deep_view() == search_filter(rows.deep_view(), term@, language@),
{
    let n = rows.len();
    let mut out: Vec<TermsList> = Vec::new();
    let mut i: usize = 0;
    proof {
        assert(rows.deep_view().take(0) =~= Seq::<TermsListV>::empty());
    }
    while i < n
        invariant
            n == rows@.len(),
            i <= n,
            out.deep_view() == search_filter(rows.deep_view().take(i as int), term@, language@),
        decreases n - i,
    {
        proof {
            lemma_search_filter_step(rows.deep_view(), term@, language@, i as int);
        }
        if row_matches_exec(&rows[i], term, language) {
            let ghost before = out.deep_view();
            out.push(clone_terms_list(&rows[i]));
            proof {
                assert(out.deep_view() =~= before + seq![rows.deep_view()[i as int]]);
            }
        }
        i = i + 1;
    }
    proof {
        assert(rows.deep_view().take(n as int) =~= rows.deep_view());
    }
    out
}

/// Creates the row table.  The in-memory table exists with the state, so
/// nothing changes; the operation is idempotent as the store's is.
pub fn create_terms_table(app: &mut AppState) -> (r: Result<(), StoreError>)
    ensures
        *final(app) == *old(app),
        r is Ok,
{
    Ok(())
}

/// Creates the eight distinct-value tables.  They exist with the state,
/// so nothing changes; the operation is idempotent as the store's is.
pub fn create_unique_values_tables(app: &mut AppState) -> (r: Result<(), StoreError>)
    ensures
        *final(app) == *old(app),
        r is Ok,
{
    Ok(())
}

/// Inserts a row as a new group: the fresh group identifier is one
/// greater than the current maximum, the fresh row identifier one greater
/// than the current maximum row identifier.  Fails only when an
/// identifier would pass the largest representable one.
pub fn add_term(app: &mut AppState, term_set: &TermLanguageSet) -> (r: Result<(), StoreError>)
    ensures
        match r {
            Ok(_) => {
                &&& max_term_id(old(app).rows_v()) < i32::MAX
                &&& max_term_set_id(old(app).rows_v()) < i32::MAX
                &&& final(app).rows_v() == old(app).rows_v().push(
                    TermsListV {
                        term_id: max_term_id(old(app).rows_v()) + 1,
                        term_set_id: max_term_set_id(old(app).rows_v()) + 1,
                        term_language_set: term_set@,
                    },
                )
            },
            Err(e) => {
                &&& e == StoreError::IdOverflow
                &&& (max_term_id(old(app).rows_v()) == i32::MAX || max_term_set_id(
                    old(app).rows_v(),
                ) == i32::MAX)
                &&& *final(app) == *old(app)
            },
        },
        final(app).db_info == old(app).db_info,
        final(app).terms_cache == old(app).terms_cache,
        final(app).unique_values == old(app).unique_values,
        old(app).wf() ==> final(app).wf(),
{
    let max_tid = match get_max_term_id(app) {
        Ok(v) => v,
        Err(e) => {
            return Err(e);
        },
    };
    let max_tsid = match get_max_term_set_id(app) {
        Ok(v) => v,
        Err(e) => {
            return Err(e);
        },
    };
    if max_tid == i32::MAX || max_tsid == i32::MAX {
        return Err(StoreError::IdOverflow);
    }
    let row = TermsList {
        term_id: max_tid + 1,
        term_set_id: max_tsid + 1,
        term_language_set: clone_term_language_set(term_set),
    };
    let ghost before = app.rows_v();
    let ghost rv = row@;
    app.rows.push(row);
    proof {
        assert(app.rows_v() =~= before.push(rv));
        if wf_rows(before) {
            assert forall|i: int| 0 <= i < before.len() implies before[i].term_id < rv.term_id by {
                lemma_max_term_id_ge(before, i);
            }
        }
    }
    Ok(())
}

/// Inserts a row into an existing group: the group identifier is the
/// caller's, the fresh row identifier one greater than the current
/// maximum.  Fails only when that identifier would pass the largest
/// representable one.
pub fn add_term_to_term_set(
    app: &mut AppState,
    existing_term_set_id: i32,
    term_set: &TermLanguageSet,
) -> (r: Result<(), StoreError>)
    ensures
        match r {
            Ok(_) => {
                &&& max_term_id(old(app).rows_v()) < i32::MAX
                &&& final(app).rows_v() == old(app).rows_v().push(
                    TermsListV {
                        term_id: max_term_id(old(app).rows_v()) + 1,
                        term_set_id: existing_term_set_id as int,
                        term_language_set: term_set@,
                    },
                )
            },
            Err(e) => {
                &&& e == StoreError::IdOverflow
                &&& max_term_id(old(app).rows_v()) == i32::MAX
                &&& *final(app) == *old(app)
            },
        },
        final(app).db_info == old(app).db_info,
        final(app).terms_cache == old(app).terms_cache,
        final(app).unique_values == old(app).unique_values,
        old(app).wf() ==> final(app).wf(),
{
    let max_tid = match get_max_term_id(app) {
        Ok(v) => v,
        Err(e) => {
            return Err(e);
        },
    };
    if max_tid == i32::MAX {
        return Err(StoreError::IdOverflow);
    }
    let row = TermsList {
        term_id: max_tid + 1,
        term_set_id: existing_term_set_id,
        term_language_set: clone_term_language_set(term_set),
    };
    let ghost before = app.rows_v();
    let ghost rv = row@;
    app.rows.push(row);
    proof {
        assert(app.rows_v() =~= before.push(rv));
        if wf_rows(before) {
            assert forall|i: int| 0 <= i < before.len() implies before[i].term_id < rv.term_id by {
                lemma_max_term_id_ge(before, i);
            }
        }
    }
    Ok(())
}

/// How many rows an identifier's group would be counted at: the number of
/// rows carrying that row identifier, at most one in a well-formed table.
pub fn check_termset_count(app: &AppState, term_id: i32) -> (r: Result<i32, StoreError>)
    requires
        app.wf(),
    ensures
        r matches Ok(c) && c as int == count_term_id(app.rows_v(), term_id as int),
{
    let n = app.rows.len();
    let mut count: i32 = 0;
    let mut i: usize = 0;
    proof {
        assert(app.rows_v().take(0) =~= Seq::<TermsListV>::empty());
    }
    while i < n
        invariant
            app.wf(),
            n == app.rows_v().len(),
            i <= n,
            count as int == count_term_id(app.rows_v().take(i as int), term_id as int),
            count <= 1,
            count == 1 ==> exists|j: int|
                0 <= j < i && #[trigger] app.rows_v()[j].term_id == term_id as int,
        decreases n - i,
    {
        proof {
            assert(app.rows_v().take(i + 1).drop_last() =~= app.rows_v().take(i as int));
            assert(app.rows_v().take(i + 1).last() == app.rows_v()[i as int]);
        }
        if app.rows[i].term_id == term_id {
            proof {
                if count == 1 {
                    let j = choose|j: int|
                        0 <= j < i && #[trigger] app.rows_v()[j].term_id == term_id as int;
                    assert(app.rows_v()[j].term_id == app.rows_v()[i as int].term_id);
                }
            }
            count = count + 1;
        }
        i = i + 1;
    }
    proof {
        assert(app.rows_v().take(n as int) =~= app.rows_v());
    }
    Ok(count)
}

/// Deletes the row with the given row identifier; reports that no row was
/// found distinctly from any other failure, and then changes nothing.
pub fn delete_term(app: &mut AppState, term_id: i32) -> (r: Result<(), StoreError>)
    ensures
        match r {
            Ok(_) => {
                &&& exists|i: int|
                    0 <= i < old(app).rows_v().len() && #[trigger] old(app).rows_v()[i].term_id
                        == term_id as int
                &&& final(app).rows_v() == rows_without_term_id(old(app).rows_v(), term_id as int)
            },
            Err(e) => {
                &&& e == StoreError::NotFound
                &&& forall|i: int|
                    0 <= i < old(app).rows_v().len() ==> #[trigger] old(app).rows_v()[i].term_id
                        != term_id as int
                &&& *final(app) == *old(app)
            },
        },
        final(app).db_info == old(app).db_info,
        final(app).terms_cache == old(app).terms_cache,
        final(app).unique_values == old(app).unique_values,
        old(app).wf() ==> final(app).wf(),
{
    let n = app.rows.len();
    let mut out: Vec<TermsList> = Vec::new();
    let mut found = false;
    let mut i: usize = 0;
    proof {
        assert(app.rows_v().take(0) =~= Seq::<TermsListV>::empty());
    }
    while i < n
        invariant
            n == app.rows_v().len(),
            i <= n,
            out.deep_view() == rows_without_term_id(app.rows_v().take(i as int), term_id as int),
            found == exists|j: int|
                0 <= j < i && #[trigger] app.rows_v()[j].term_id == term_id as int,
        decreases n - i,
    {
        proof {
            lemma_rows_without_term_id_step(app.rows_v(), term_id as int, i as int);
        }
        if app.rows[i].term_id == term_id {
            found = true;
        } else {
            let ghost before = out.deep_view();
            out.push(clone_terms_list(&app.rows[i]));
            proof {
                assert(out.deep_view() =~= before + seq![app.rows_v()[i as int]]);
            }
        }
        i = i + 1;
    }
    proof {
        assert(app.rows_v().take(n as int) =~= app.rows_v());
    }
    if !found {
        return Err(StoreError::NotFound);
    }
    let ghost old_rows = app.rows_v();
    app.rows = out;
    proof {
        if wf_rows(old_rows) {
            lemma_rows_without_wf(old_rows, term_id as int);
        }
    }
    Ok(())
}

/// Deletes every row of the given group; affecting no row is no failure.
pub fn delete_termset(app: &mut AppState, termset_to_delete: i32) -> (r: Result<(), StoreError>)
    ensures
        r is Ok,
        final(app).rows_v() == rows_without_term_set_id(
            old(app).rows_v(),
            termset_to_delete as int,
        ),
        final(app).db_info == old(app).db_info,
        final(app).terms_cache == old(app).terms_cache,
        final(app).unique_values == old(app).unique_values,
{
    let n = app.rows.len();
    let mut out: Vec<TermsList> = Vec::new();
    let mut i: usize = 0;
    proof {
        assert(app.rows_v().take(0) =~= Seq::<TermsListV>::empty());
    }
    while i < n
        invariant
            n == app.rows_v().len(),
            i <= n,
            out.deep_view() == rows_without_term_set_id(
                app.rows_v().take(i as int),
                termset_to_delete as int,
            ),
        decreases n - i,
    {
        proof {
            lemma_rows_without_term_set_id_step(app.rows_v(), termset_to_delete as int, i as int);
        }
        if app.rows[i].term_set_id != termset_to_delete {
            let ghost before = out.deep_view();
            out.push(clone_terms_list(&app.rows[i]));
            proof {
                assert(out.deep_view() =~= before + seq![app.rows_v()[i as int]]);
            }
        }
        i = i + 1;
    }
    proof {
        assert(app.rows_v().take(n as int) =~= app.rows_v());
    }
    app.rows = out;
    Ok(())
}

/// All rows of the table, in order.
pub fn get_all_terms(app: &AppState) -> (r: Result<Vec<TermsList>, StoreError>)
    ensures
        r matches Ok(v) && v.deep_view() == app.rows_v(),
{
    Ok(clone_rows(&app.rows))
}

/// The row with the given row identifier, if any.
pub fn get_term_by_id(app: &AppState, term_id: i32) -> (r: Result<Option<TermsList>, StoreError>)
    ensures
        r matches Ok(opt) && opt.deep_view() == find_row_by_id(app.rows_v(), term_id as int),
{
    let n = app.rows.len();
    let mut i: usize = 0;
    proof {
        assert(app.rows_v().skip(0) =~= app.rows_v());
    }
    while i < n
        invariant
            n == app.rows_v().len(),
            i <= n,
            find_row_by_id(app.rows_v(), term_id as int) == find_row_by_id(
                app.rows_v().skip(i as int),
                term_id as int,
            ),
        decreases n - i,
    {
        proof {
            assert(app.rows_v().skip(i as int).drop_first() =~= app.rows_v().skip(i + 1));
            assert(app.rows_v().skip(i as int)[0] == app.rows_v()[i as int]);
        }
        if app.rows[i].term_id == term_id {
            return Ok(Some(clone_terms_list(&app.rows[i])));
        }
        i = i + 1;
    }
    Ok(None)
}

/// The group identifier found by a row's exact term and language, if any.
pub fn get_term_set_id(app: &AppState, term: &str, language: &str) -> (r: Result<
    Option<i32>,
    StoreError,
>)
    ensures
        r matches Ok(opt) && (match find_group_by_term_lang(app.rows_v(), term@, language@) {
            Some(g) => opt matches Some(v) && v as int == g,
            None => opt is None,
        }),
{
    let n = app.rows.len();
    let mut i: usize = 0;
    proof {
        assert(app.rows_v().skip(0) =~= app.rows_v());
    }
    while i < n
        invariant
            n == app.rows_v().len(),
            i <= n,
            find_group_by_term_lang(app.rows_v(), term@, language@) == find_group_by_term_lang(
                app.rows_v().skip(i as int),
                term@,
                language@,
            ),
        decreases n - i,
    {
        proof {
            assert(app.rows_v().skip(i as int).drop_first() =~= app.rows_v().skip(i + 1));
            assert(app.rows_v().skip(i as int)[0] == app.rows_v()[i as int]);
        }
        let row = &app.rows[i];
        let term_matches = match &row.term_language_set.term {
            Some(s) => str_eq(s.as_str(), term),
            None => false,
        };
        if term_matches {
            let lang_matches = match &row.term_language_set.language {
                Some(s) => str_eq(s.as_str(), language),
                None => false,
            };
            if lang_matches {
                return Ok(Some(row.term_set_id));
            }
        }
        i = i + 1;
    }
    Ok(None)
}

/// The group identifier of the row with the given row identifier, if any.
pub fn get_term_set_id_by_term_id(app: &AppState, term_id: i32) -> (r: Result<
    Option<i32>,
    StoreError,
>)
    ensures
        r matches Ok(opt) && (match find_row_by_id(app.rows_v(), term_id as int) {
            Some(row) => opt matches Some(v) && v as int == row.term_set_id,
            None => opt is None,
        }),
{
    match get_term_by_id(app, term_id) {
        Ok(Some(row)) => Ok(Some(row.term_set_id)),
        Ok(None) => Ok(None),
        Err(e) => Err(e),
    }
}

/// The rows satisfying a search: the term as a substring, the language
/// exactly unless empty.  Served from the snapshot cache when it is
/// filled, from the table otherwise; the snapshot must agree with the
/// table, so both give the same rows.
pub fn search_terms(app: &AppState, term: &str, language: &str) -> (r: Result<
    Vec<TermsList>,
    StoreError,
>)
    requires
        app.terms_cache_ok(),
    ensures
        r matches Ok(v) && v.deep_view() == search_filter(app.rows_v(), term@, language@),
{
    match &app.terms_cache {
        Some(cached) => Ok(filter_rows_exec(cached, term, language)),
        None => Ok(filter_rows_exec(&app.rows, term, language)),
    }
}

/// The rows of one group, in table order.
pub fn search_terms_by_term_set_id(app: &AppState, term_set_id: i32) -> (r: Result<
    Vec<TermsList>,
    StoreError,
>)
    ensures
        r matches Ok(v) && v.deep_view() == group_filter(app.rows_v(), term_set_id as int),
{
    let n = app.rows.len();
    let mut out: Vec<TermsList> = Vec::new();
    let mut i: usize = 0;
    proof {
        assert(app.rows_v().take(0) =~= Seq::<TermsListV>::empty());
    }
    while i < n
        invariant
            n == app.rows_v().len(),
            i <= n,
            out.deep_view() == group_filter(app.rows_v().take(i as int), term_set_id as int),
        decreases n - i,
    {
        proof {
            lemma_group_filter_step(app.rows_v(), term_set_id as int, i as int);
        }
        if app.rows[i].term_set_id == term_set_id {
            let ghost before = out.deep_view();
            out.push(clone_terms_list(&app.rows[i]));
            proof {
                assert(out.deep_view() =~= before + seq![app.rows_v()[i as int]]);
            }
        }
        i = i + 1;
    }
    proof {
        assert(app.rows_v().take(n as int) =~= app.rows_v());
    }
    Ok(out)
}

/// A record overwritten field by field: a field present in the update
/// replaces the stored one, an absent field leaves it unchanged.
pub open spec fn coalesce_upd(r: TermLanguageSetV, u: TermLanguageSetV) -> TermLanguageSetV {
    TermLanguageSetV {
        language: if u.language is Some {
            u.language
        } else {
            r.language
        },
        term: if u.term is Some {
            u.term
        } else {
            r.term
        },
        term_type: if u.term_type is Some {
            u.term_type
        } else {
            r.term_type
        },
        creator_id: if u.creator_id is Some {
            u.creator_id
        } else {
            r.creator_id
        },
        creation_timestamp: if u.creation_timestamp is Some {
            u.creation_timestamp
        } else {
            r.creation_timestamp
        },
        updater_id: if u.updater_id is Some {
            u.updater_id
        } else {
            r.updater_id
        },
        update_timestamp: if u.update_timestamp is Some {
            u.update_timestamp
        } else {
            r.update_timestamp
        },
        subject: if u.subject is Some {
            u.subject
        } else {
            r.subject
        },
        source: if u.source is Some {
            u.source
        } else {
            r.source
        },
        user: if u.user is Some {
            u.user
        } else {
            r.user
        },
        attributes: if u.attributes is Some {
            u.attributes
        } else {
            r.attributes
        },
        remark: if u.remark is Some {
            u.remark
        } else {
            r.remark
        },
        url: if u.url is Some {
            u.url
        } else {
            r.url
        },
        context: if u.context is Some {
            u.context
        } else {
            r.context
        },
        definition: if u.definition is Some {
            u.definition
        } else {
            r.definition
        },
    }
}

/// The table after a partial update of the rows with the given row
/// identifier: their record coalesced with the update, every other row
/// unchanged.
pub open spec fn rows_after_update(rows: Seq<TermsListV>, id: int, u: TermLanguageSetV) -> Seq<
    TermsListV,
> {
    Seq::new(
        rows.len(),
        |i: int|
            if rows[i].term_id == id {
                TermsListV {
                    term_id: rows[i].term_id,
                    term_set_id: rows[i].term_set_id,
                    term_language_set: coalesce_upd(rows[i].term_language_set, u),
                }
            } else {
                rows[i]
            },
    )
}

/// One record coalesced with an update, exactly as `coalesce_upd` states.
fn coalesce_exec(row: &TermLanguageSet, upd: &TermLanguageSet) -> (r: TermLanguageSet)
    ensures
        r@ == coalesce_upd(row@, upd@),
{
    TermLanguageSet {
        language: match &upd.language {
            Some(s) => Some(s.clone()),
            None => clone_opt_string(&row.language),
        },
        term: match &upd.term {
            Some(s) => Some(s.clone()),
            None => clone_opt_string(&row.term),
        },
        term_type: match &upd.term_type {
            Some(s) => Some(s.clone()),
            None => clone_opt_string(&row.term_type),
        },
        creator_id: match &upd.creator_id {
            Some(s) => Some(s.clone()),
            None => clone_opt_string(&row.creator_id),
        },
        creation_timestamp: match upd.creation_timestamp {
            Some(t) => Some(t),
            None => row.creation_timestamp,
        },
        updater_id: match &upd.updater_id {
            Some(s) => Some(s.clone()),
            None => clone_opt_string(&row.updater_id),
        },
        update_timestamp: match upd.update_timestamp {
            Some(t) => Some(t),
            None => row.update_timestamp,
        },
        subject: match &upd.subject {
            Some(s) => Some(s.clone()),
            None => clone_opt_string(&row.subject),
        },
        source: match &upd.source {
            Some(s) => Some(s.clone()),
            None => clone_opt_string(&row.source),
        },
        user: match &upd.user {
            Some(s) => Some(s.clone()),
            None => clone_opt_string(&row.user),
        },
        attributes: match &upd.attributes {
            Some(s) => Some(s.clone()),
            None => clone_opt_string(&row.attributes),
        },
        remark: match &upd.remark {
            Some(s) => Some(s.clone()),
            None => clone_opt_string(&row.remark),
        },
        url: match &upd.url {
            Some(s) => Some(s.clone()),
            None => clone_opt_string(&row.url),
        },
        context: match &upd.context {
            Some(s) => Some(s.clone()),
            None => clone_opt_string(&row.context),
        },
        definition: match &upd.definition {
            Some(s) => Some(s.clone()),
            None => clone_opt_string(&row.definition),
        },
    }
}

/// Applies a partial update to the rows with the given row identifier:
/// fields present in the update overwrite the stored values, absent ones
/// keep them.  Affecting no row is no failure.
pub fn update_term(
    app: &mut AppState,
    term_id_to_update: i32,
    termset_update: &TermLanguageSet,
) -> (r: Result<(), StoreError>)
    ensures
        r is Ok,
        final(app).rows_v() == rows_after_update(
            old(app).rows_v(),
            term_id_to_update as int,
            termset_update@,
        ),
        final(app).db_info == old(app).db_info,
        final(app).terms_cache == old(app).terms_cache,
        final(app).unique_values == old(app).unique_values,
        old(app).wf() ==> final(app).wf(),
{
    let n = app.rows.len();
    let mut out: Vec<TermsList> = Vec::new();
    let ghost target = rows_after_update(app.rows_v(), term_id_to_update as int, termset_update@);
    let mut i: usize = 0;
    while i < n
        invariant
            n == app.rows_v().len(),
            i <= n,
            target == rows_after_update(app.rows_v(), term_id_to_update as int, termset_update@),
            out@.len() == i,
            forall|j: int| 0 <= j < i ==> out.deep_view()[j] == target[j],
        decreases n - i,
    {
        let row = &app.rows[i];
        if row.term_id == term_id_to_update {
            out.push(
                TermsList {
                    term_id: row.term_id,
                    term_set_id: row.term_set_id,
                    term_language_set: coalesce_exec(&row.term_language_set, termset_update),
                },
            );
        } else {
            out.push(clone_terms_list(row));
        }
        i = i + 1;
    }
    app.rows = out;
    proof {
        assert(app.rows_v() =~= target);
        assert forall|j: int| 0 <= j < target.len() implies target[j].term_id
            == old(app).rows_v()[j].term_id by {}
    }
    Ok(())
}

/// One of the eight filterable columns.
#[derive(Clone, Copy, Debug, PartialEq, Eq, Structural)]
pub enum UniqueColumn {
    Language,
    TermType,
    CreatorId,
    UpdaterId,
    Subject,
    Source,
    User,
    Attributes,
}

/// The value a record holds in one filterable column.
pub open spec fn spec_column(t: TermLanguageSetV, c: UniqueColumn) -> Option<Seq<char>> {
    match c {
        UniqueColumn::Language => t.language,
        UniqueColumn::TermType => t.term_type,
        UniqueColumn::CreatorId => t.creator_id,
        UniqueColumn::UpdaterId => t.updater_id,
        UniqueColumn::Subject => t.subject,
        UniqueColumn::Source => t.source,
        UniqueColumn::User => t.user,
        UniqueColumn::Attributes => t.attributes,
    }
}

/// One column of the whole table, in row order.
pub open spec fn column_seq(rows: Seq<TermsListV>, c: UniqueColumn) -> Seq<Option<Seq<char>>> {
    Seq::new(rows.len(), |i: int| spec_column(rows[i].term_language_set, c))
}

/// The distinct values of a column, in order of first occurrence; an
/// absent value counts as one distinct value.
pub open spec fn distinct_vals(s: Seq<Option<Seq<char>>>) -> Seq<Option<Seq<char>>>
    decreases s.len(),
{
    if s.len() == 0 {
        Seq::<Option<Seq<char>>>::empty()
    } else {
        let d = distinct_vals(s.drop_last());
        if d.contains(s.last()) {
            d
        } else {
            d.push(s.last())
        }
    }
}

/// The value a row holds in one filterable column.
fn column_value(row: &TermsList, c: UniqueColumn) -> (r: Option<String>)
    ensures
        r.deep_view() == spec_column(row@.term_language_set, c),
{
    match c {
        UniqueColumn::Language => clone_opt_string(&row.term_language_set.language),
        UniqueColumn::TermType => clone_opt_string(&row.term_language_set.term_type),
        UniqueColumn::CreatorId => clone_opt_string(&row.term_language_set.creator_id),
        UniqueColumn::UpdaterId => clone_opt_string(&row.term_language_set.updater_id),
        UniqueColumn::Subject => clone_opt_string(&row.term_language_set.subject),
        UniqueColumn::Source => clone_opt_string(&row.term_language_set.source),
        UniqueColumn::User => clone_opt_string(&row.term_language_set.user),
        UniqueColumn::Attributes => clone_opt_string(&row.term_language_set.attributes),
    }
}

/// Whether a value already stands among the collected ones.
fn contains_opt(v: &Vec<Option<String>>, x: &Option<String>) -> (r: bool)
    ensures
        r == v.deep_view().contains(x.deep_view()),
{
    let n = v.len();
    let mut i: usize = 0;
    while i < n
        invariant
            n == v@.len(),
            i <= n,
            forall|j: int| 0 <= j < i ==> v.deep_view()[j] != x.deep_view(),
        decreases n - i,
    {
        if opt_str_eq(&v[i], x) {
            assert(v.deep_view()[i as int] == x.deep_view());
            return true;
        }
        i = i + 1;
    }
    assert(!v.deep_view().contains(x.deep_view()));
    false
}

/// The distinct values of one column of the table, in order of first
/// occurrence.
pub fn distinct_column(rows: &Vec<TermsList>, c: UniqueColumn) -> (r: Vec<Option<String>>)
    ensures
        r.deep_view() == distinct_vals(column_seq(rows.deep_view(), c)),
{
    let ghost cseq = column_seq(rows.deep_view(), c);
    let n = rows.len();
    let mut out: Vec<Option<String>> = Vec::new();
    let mut i: usize = 0;
    proof {
        assert(cseq.take(0) =~= Seq::<Option<Seq<char>>>::empty());
        assert(out.deep_view() =~= Seq::<Option<Seq<char>>>::empty());
    }
    while i < n
        invariant
            n == rows@.len(),
            i <= n,
            cseq == column_seq(rows.deep_view(), c),
            out.deep_view() == distinct_vals(cseq.take(i as int)),
        decreases n - i,
    {
        proof {
            assert(cseq.take(i + 1).drop_last() =~= cseq.take(i as int));
            assert(cseq.take(i + 1).last() == cseq[i as int]);
        }
        let val = column_value(&rows[i], c);
        if !contains_opt(&out, &val) {
            let ghost before = out.deep_view();
            let ghost vv = val.deep_view();
            out.push(val);
            proof {
                assert(out.deep_view() =~= before.push(vv));
            }
        }
        i = i + 1;
    }
    proof {
        assert(cseq.take(n as int) =~= cseq);
    }
    out
}

/// The eight distinct-value tables each agree with the row table: the
/// distinct values of their column, in order of first occurrence.
pub open spec fn unique_values_ok(uv: UniqueValues, rows: Seq<TermsListV>) -> bool {
    &&& uv.languages.deep_view() == distinct_vals(column_seq(rows, UniqueColumn::Language))
    &&& uv.term_types.deep_view() == distinct_vals(column_seq(rows, UniqueColumn::TermType))
    &&& uv.creator_ids.deep_view() == distinct_vals(column_seq(rows, UniqueColumn::CreatorId))
    &&& uv.updater_ids.deep_view() == distinct_vals(column_seq(rows, UniqueColumn::UpdaterId))
    &&& uv.subjects.deep_view() == distinct_vals(column_seq(rows, UniqueColumn::Subject))
    &&& uv.sources.deep_view() == distinct_vals(column_seq(rows, UniqueColumn::Source))
    &&& uv.users.deep_view() == distinct_vals(column_seq(rows, UniqueColumn::User))
    &&& uv.attributes.deep_view() == distinct_vals(column_seq(rows, UniqueColumn::Attributes))
}

/// Rebuilds the eight distinct-value tables from the row table, as one
/// indivisible replacement; each ends up holding its column's distinct
/// values in order of first occurrence.
pub fn extract_and_insert_unique_values(app: &mut AppState) -> (r: Result<(), StoreError>)
    ensures
        r is Ok,
        final(app).rows == old(app).rows,
        final(app).db_info == old(app).db_info,
        final(app).terms_cache == old(app).terms_cache,
        unique_values_ok(final(app).unique_values, old(app).rows_v()),
{
    let languages = distinct_column(&app.rows, UniqueColumn::Language);
    let term_types = distinct_column(&app.rows, UniqueColumn::TermType);
    let creator_ids = distinct_column(&app.rows, UniqueColumn::CreatorId);
    let updater_ids = distinct_column(&app.rows, UniqueColumn::UpdaterId);
    let subjects = distinct_column(&app.rows, UniqueColumn::Subject);
    let sources = distinct_column(&app.rows, UniqueColumn::Source);
    let users = distinct_column(&app.rows, UniqueColumn::User);
    let attributes = distinct_column(&app.rows, UniqueColumn::Attributes);
    app.unique_values = UniqueValues {
        languages,
        term_types,
        creator_ids,
        updater_ids,
        subjects,
        sources,
        users,
        attributes,
    };
    Ok(())
}

/// Empties the snapshot cache; the next load refills it from the table.
pub fn clear_terms_cache(app: &mut AppState)
    ensures
        final(app).terms_cache is None,
        final(app).rows == old(app).rows,
        final(app).db_info == old(app).db_info,
        final(app).unique_values == old(app).unique_values,
{
    app.terms_cache = None;
}

proof fn lemma_rows_without_sub(rows: Seq<TermsListV>, id: int)
    ensures
        forall|k: int|
            0 <= k < rows_without_term_id(rows, id).len() ==> exists|j: int|
                0 <= j < rows.len() && #[trigger] rows_without_term_id(rows, id)[k] == rows[j],
    decreases rows.len(),
{
    if rows.len() > 0 {
        lemma_rows_without_sub(rows.drop_last(), id);
        assert forall|k: int| 0 <= k < rows_without_term_id(rows, id).len() implies exists|j: int|
            0 <= j < rows.len() && #[trigger] rows_without_term_id(rows, id)[k] == rows[j] by {
            let p = rows_without_term_id(rows.drop_last(), id);
            if k < p.len() {
                let j = choose|j: int|
                    0 <= j < rows.drop_last().len() && #[trigger] p[k] == rows.drop_last()[j];
                assert(rows_without_term_id(rows, id)[k] == rows[j]);
            } else {
                assert(rows_without_term_id(rows, id)[k] == rows[rows.len() - 1]);
            }
        }
    }
}

proof fn lemma_rows_without_wf(rows: Seq<TermsListV>, id: int)
    requires
        wf_rows(rows),
    ensures
        wf_rows(rows_without_term_id(rows, id)),
    decreases rows.len(),
{
    if rows.len() > 0 {
        lemma_rows_without_wf(rows.drop_last(), id);
        let p = rows_without_term_id(rows.drop_last(), id);
        let w = rows_without_term_id(rows, id);
        if rows.last().term_id != id {
            lemma_rows_without_sub(rows.drop_last(), id);
            assert forall|i: int, j: int| 0 <= i < j < w.len() implies w[i].term_id != w[j].term_id
                by {
                if j < p.len() {
                } else {
                    let k = choose|k: int|
                        0 <= k < rows.drop_last().len() && #[trigger] p[i] == rows.drop_last()[k];
                    assert(w[j] == rows.last());
                    assert(rows[k].term_id != rows[rows.len() - 1].term_id);
                }
            }
            assert forall|i: int| 0 <= i < w.len() implies 1 <= #[trigger] w[i].term_id by {
                if i < p.len() {
                } else {
                    assert(w[i] == rows.last());
                }
            }
        }
    }
}


/// Creates the tables and fills both caches from the table: the snapshot
/// cache and the query cache's reserved full-snapshot slot, the rest of
/// the query cache left empty.
pub fn init_db(
    app: &mut AppState,
    search_cache: &mut crate::dictionary::handlers::SearchCache,
) -> (r: Result<(), StoreError>)
    ensures
        r is Ok,
        final(app).rows == old(app).rows,
        final(app).db_info == old(app).db_info,
        final(app).unique_values == old(app).unique_values,
        final(app).terms_cache matches Some(v) && v.deep_view() == final(app).rows_v(),
        final(app).terms_cache_ok(),
        final(search_cache).all_terms matches Some(v) && v.deep_view() == final(app).rows_v(),
        final(search_cache).entries@.len() == 0,
        final(search_cache).coherent_with(final(app).rows_v()),
{
    match create_terms_table(app) {
        Ok(_) => {},
        Err(e) => {
            return Err(e);
        },
    }
    match create_unique_values_tables(app) {
        Ok(_) => {},
        Err(e) => {
            return Err(e);
        },
    }
    let all_terms = match get_all_terms(app) {
        Ok(v) => v,
        Err(e) => {
            return Err(e);
        },
    };
    app.terms_cache = Some(clone_rows(&all_terms));
    search_cache.all_terms = Some(all_terms);
    search_cache.entries = Vec::new();
    Ok(())
}

} // verus!
