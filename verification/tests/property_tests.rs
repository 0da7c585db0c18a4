use term_squire::dictionary::database::add_term;
use term_squire::dictionary::database::check_termset_count;
use term_squire::dictionary::database::clear_terms_cache;
use term_squire::dictionary::database::delete_termset;
use term_squire::dictionary::database::current_epoch;
use term_squire::dictionary::database::delete_term;
use term_squire::dictionary::database::extract_and_insert_unique_values;
use term_squire::dictionary::database::get_all_terms;
use term_squire::dictionary::database::get_max_id_terms;
use term_squire::dictionary::database::get_max_id_termsets;
use term_squire::dictionary::database::get_term_set_id;
use term_squire::dictionary::database::init_db;
use term_squire::dictionary::database::search_terms;
use term_squire::dictionary::database::update_term;
use term_squire::dictionary::database::AppState;
use term_squire::dictionary::database::DbInfo;
use term_squire::dictionary::database::StoreError;
use term_squire::dictionary::database::TermsList;
use term_squire::dictionary::database::UniqueValues;
use term_squire::dictionary::handlers::clear_cache;
use term_squire::dictionary::handlers::handle_delete_term;
use term_squire::dictionary::handlers::handle_get_term_details;
use term_squire::dictionary::handlers::handle_import_dictionary_data;
use term_squire::dictionary::handlers::handle_insert_term;
use term_squire::dictionary::handlers::handle_search_terms;
use term_squire::dictionary::handlers::handle_search_terms_by_term_set_id;
use term_squire::dictionary::handlers::handle_terms;
use term_squire::dictionary::handlers::handle_update_term;
use term_squire::dictionary::handlers::SearchCache;
use term_squire::import::parse::Dictionary;
use term_squire::import::parse::DictionaryEntry;
use term_squire::import::parse::TermLanguageSet;
use term_squire::import::process::create_term_to_insert;
use term_squire::import::process::process_three_or_more_terms;
use term_squire::import::process::process_two_terms;
use term_squire::import::process::GroupError;

fn fresh_app(name: &str) -> AppState {
    AppState {
        db_info: DbInfo {
            dir: "/data/term-squire-data".to_string(),
            name: name.to_string(),
            table_name: "terms".to_string(),
        },
        rows: Vec::new(),
        terms_cache: None,
        unique_values: UniqueValues::new(),
    }
}

fn record(term: Option<&str>, language: Option<&str>) -> TermLanguageSet {
    TermLanguageSet {
        term: term.map(|s| s.to_string()),
        language: language.map(|s| s.to_string()),
        ..TermLanguageSet::default()
    }
}

fn fixture_document() -> String {
    "<mtf><text><body><termEntry id=\"1\"><langSet lang=\"en\"><ntig><termGrp><term>alpha</term></termGrp></ntig></langSet></termEntry><termEntry id=\"2\"><langSet lang=\"en\"><ntig><termGrp><term>beta</term></termGrp></ntig></langSet><langSet lang=\"nl\"><ntig><termGrp><term>beta-nl</term></termGrp></ntig></langSet></termEntry><termEntry id=\"3\"><langSet lang=\"en\"><ntig><termGrp><term>gamma</term></termGrp></ntig></langSet><langSet lang=\"nl\"><ntig><termGrp><term>gamma-nl</term></termGrp></ntig></langSet><langSet lang=\"fr\"><ntig><termGrp><term>gamma-fr</term></termGrp></ntig></langSet></termEntry></body></text></mtf>"
    .to_string()
}

#[test]
fn test_single_insert_then_search_exact_row() {
    let mut app = fresh_app("single_insert_then_search");
    let rec = record(Some("einzig"), Some("de"));
    add_term(&mut app, &rec).unwrap();
    let found = search_terms(&app, "einzig", "de").unwrap();
    assert_eq!(found.len(), 1);
    assert_eq!(found[0].term_id, 1);
    assert_eq!(found[0].term_set_id, 1);
    assert_eq!(found[0].term_language_set, rec);
}

#[test]
fn test_two_variant_share_group_of_primary_lookup() {
    let mut app = fresh_app("two_variant_share_group");
    let first = record(Some("huis"), Some("nl"));
    let second = record(Some("house"), Some("en"));
    process_two_terms(&mut app, &first, &second).unwrap();

    let rows = get_all_terms(&app).unwrap();
    assert_eq!(rows.len(), 2);
    let gid = get_term_set_id(&app, "huis", "nl").unwrap().unwrap();
    assert_eq!(rows[0].term_set_id, gid);
    assert_eq!(rows[1].term_set_id, gid);
}

#[test]
fn test_two_variant_secondary_first_term_missing() {
    let mut app = fresh_app("two_variant_secondary_primary");
    let first = record(None, Some("nl"));
    let second = record(Some("house"), Some("en"));
    process_two_terms(&mut app, &first, &second).unwrap();

    let rows = get_all_terms(&app).unwrap();
    assert_eq!(rows.len(), 2);
    assert_eq!(rows[0].term_language_set.term.as_deref(), Some("house"));
    assert_eq!(rows[1].term_language_set.term, None);
    assert_eq!(rows[0].term_set_id, rows[1].term_set_id);
}

#[test]
fn test_two_variant_without_terms_is_grouping_error() {
    let mut app = fresh_app("two_variant_without_terms");
    let first = record(None, Some("nl"));
    let second = record(None, Some("en"));
    let result = process_two_terms(&mut app, &first, &second);
    assert_eq!(result, Err(GroupError::NoTerm));
    assert!(get_all_terms(&app).unwrap().is_empty());
}

#[test]
fn test_three_variant_with_missing_term_writes_two_rows() {
    let mut app = fresh_app("three_variant_missing_term");
    let terms = vec![
        record(None, None),
        record(Some("huis"), Some("nl")),
        record(Some("house"), Some("en")),
    ];
    process_three_or_more_terms(&mut app, &terms).unwrap();

    let rows = get_all_terms(&app).unwrap();
    assert_eq!(rows.len(), 2);
    assert_eq!(rows[0].term_set_id, rows[1].term_set_id);
    assert_eq!(rows[0].term_language_set.term.as_deref(), Some("huis"));
    assert_eq!(rows[1].term_language_set.term.as_deref(), Some("house"));
}

#[test]
fn test_three_variant_without_terms_is_grouping_error() {
    let mut app = fresh_app("three_variant_without_terms");
    let terms = vec![record(None, None), record(None, Some("nl")), record(None, Some("en"))];
    let result = process_three_or_more_terms(&mut app, &terms);
    assert_eq!(result, Err(GroupError::NoTerm));
    assert!(get_all_terms(&app).unwrap().is_empty());
}

#[test]
fn test_partial_update_keeps_other_fields_and_is_idempotent() {
    let mut app = fresh_app("partial_update");
    let full = TermLanguageSet {
        term: Some("anchor".to_string()),
        language: Some("en".to_string()),
        term_type: Some("noun".to_string()),
        creator_id: Some("alice".to_string()),
        creation_timestamp: Some(1000),
        updater_id: Some("bob".to_string()),
        update_timestamp: Some(2000),
        subject: Some("ships".to_string()),
        source: Some("survey".to_string()),
        user: Some("u1".to_string()),
        attributes: Some("attrs".to_string()),
        remark: Some("rem".to_string()),
        url: Some("http://example.test".to_string()),
        context: Some("ctx".to_string()),
        definition: Some("old def".to_string()),
    };
    add_term(&mut app, &full).unwrap();

    let patch = TermLanguageSet {
        definition: Some("new def".to_string()),
        ..TermLanguageSet::default()
    };
    update_term(&mut app, 1, &patch).unwrap();

    let once = get_all_terms(&app).unwrap();
    assert_eq!(once.len(), 1);
    let updated = &once[0].term_language_set;
    assert_eq!(updated.definition.as_deref(), Some("new def"));
    let expected = TermLanguageSet {
        definition: Some("new def".to_string()),
        ..full
    };
    assert_eq!(*updated, expected);

    update_term(&mut app, 1, &patch).unwrap();
    let twice = get_all_terms(&app).unwrap();
    assert_eq!(once, twice);
}

#[test]
fn test_delete_missing_row_reports_not_found() {
    let mut app = fresh_app("delete_missing_row");
    add_term(&mut app, &record(Some("kept"), Some("en"))).unwrap();
    let result = delete_term(&mut app, 42);
    assert_eq!(result, Err(StoreError::NotFound));
    assert_eq!(get_all_terms(&app).unwrap().len(), 1);
}

#[test]
fn test_import_fixture_round_trip() {
    let mut app = fresh_app("import_round_trip");
    let mut cache = SearchCache::new();
    let result = handle_import_dictionary_data(&mut app, &mut cache, &fixture_document());
    assert!(result.is_ok());

    let rows = get_all_terms(&app).unwrap();
    assert_eq!(rows.len(), 6);
    let mut group_ids: Vec<i32> = rows.iter().map(|r| r.term_set_id).collect();
    group_ids.sort();
    group_ids.dedup();
    assert_eq!(group_ids.len(), 3);
}

#[test]
fn test_cache_coherence_after_mutations() {
    let mut app = fresh_app("cache_coherence");
    let mut cache = SearchCache::new();
    init_db(&mut app, &mut cache).unwrap();

    handle_insert_term(&mut app, &mut cache, record(Some("fresh"), Some("en")), 123).unwrap();
    let after_insert = handle_terms(&mut app);
    assert_eq!(after_insert.len(), 1);
    assert_eq!(after_insert[0].term_language_set.term.as_deref(), Some("fresh"));
    assert_eq!(after_insert[0].term_language_set.creation_timestamp, Some(123));

    handle_update_term(
        &mut app,
        &mut cache,
        1,
        TermLanguageSet { remark: Some("seen".to_string()), ..TermLanguageSet::default() },
        456,
    )
    .unwrap();
    let after_update = handle_terms(&mut app);
    assert_eq!(after_update[0].term_language_set.remark.as_deref(), Some("seen"));
    assert_eq!(after_update[0].term_language_set.update_timestamp, Some(456));

    handle_delete_term(&mut app, &mut cache, 1).unwrap();
    let after_delete = handle_terms(&mut app);
    assert!(after_delete.is_empty());
}

#[test]
fn test_handle_search_terms_uses_and_fills_cache() {
    let mut app = fresh_app("search_cache");
    let mut cache = SearchCache::new();
    add_term(&mut app, &record(Some("alpha"), Some("en"))).unwrap();
    add_term(&mut app, &record(Some("beta"), Some("nl"))).unwrap();
    init_db(&mut app, &mut cache).unwrap();

    let hit = handle_search_terms(&app, &mut cache, "alp", "en");
    assert_eq!(hit.len(), 1);
    assert_eq!(hit[0].term_language_set.term.as_deref(), Some("alpha"));
    assert_eq!(cache.entries.len(), 1);

    let again = handle_search_terms(&app, &mut cache, "alp", "en");
    assert_eq!(again, hit);
    assert_eq!(cache.entries.len(), 1);

    let partial = handle_search_terms(&app, &mut cache, "", "nl");
    assert_eq!(partial.len(), 1);
    assert_eq!(partial[0].term_language_set.term.as_deref(), Some("beta"));

    let everything = handle_search_terms(&app, &mut cache, "", "");
    assert_eq!(everything.len(), 2);

    clear_cache(&mut cache);
    assert!(cache.entries.is_empty());
    assert!(cache.all_terms.is_none());
}

#[test]
fn test_handle_get_term_details_and_group_search() {
    let mut app = fresh_app("details_and_group");
    process_two_terms(
        &mut app,
        &record(Some("huis"), Some("nl")),
        &record(Some("house"), Some("en")),
    )
    .unwrap();

    let detail = handle_get_term_details(&app, 1).unwrap();
    assert_eq!(detail.term_language_set.term.as_deref(), Some("huis"));
    assert!(handle_get_term_details(&app, 99).is_none());

    let group = handle_search_terms_by_term_set_id(&app, 1);
    assert_eq!(group.len(), 2);
}

#[test]
fn test_unique_values_are_distinct_in_first_occurrence_order() {
    let mut app = fresh_app("unique_values");
    add_term(&mut app, &record(Some("a"), Some("en"))).unwrap();
    add_term(&mut app, &record(Some("b"), Some("nl"))).unwrap();
    add_term(&mut app, &record(Some("c"), Some("en"))).unwrap();
    add_term(&mut app, &record(Some("d"), None)).unwrap();
    extract_and_insert_unique_values(&mut app).unwrap();

    assert_eq!(
        app.unique_values.languages,
        vec![Some("en".to_string()), Some("nl".to_string()), None]
    );
    assert_eq!(app.unique_values.term_types, vec![None]);
}

#[test]
fn test_identifier_helpers() {
    let mut app = fresh_app("identifier_helpers");
    assert_eq!(get_max_id_terms(&app), Ok(0));
    assert_eq!(get_max_id_termsets(&app), Ok(0));
    add_term(&mut app, &record(Some("a"), Some("en"))).unwrap();
    add_term(&mut app, &record(Some("b"), Some("nl"))).unwrap();
    assert_eq!(get_max_id_terms(&app), Ok(2));
    assert_eq!(get_max_id_termsets(&app), Ok(2));
    assert_eq!(check_termset_count(&app, 1), Ok(1));
    assert_eq!(check_termset_count(&app, 7), Ok(0));
}

#[test]
fn test_row_defaults_and_path() {
    let row = TermsList {
        term_id: 5,
        term_set_id: 9,
        term_language_set: TermLanguageSet {
            creation_timestamp: Some(-7),
            update_timestamp: Some(1704110400),
            ..TermLanguageSet::default()
        },
    };
    assert_eq!(row.term_or_default(), "No Term");
    assert_eq!(row.language_or_default(), "No Language");
    assert_eq!(row.term_type_or_default(), "No Term Type");
    assert_eq!(row.created_by_or_default(), "No Creator");
    assert_eq!(row.updated_by_or_default(), "No Updater");
    assert_eq!(row.subject_or_default(), "No Subject");
    assert_eq!(row.source_or_default(), "No Source");
    assert_eq!(row.user_or_default(), "No User");
    assert_eq!(row.attributes_or_default(), "No Attributes");
    assert_eq!(row.remark_or_default(), "No Remark");
    assert_eq!(row.url_or_default(), "No URL");
    assert_eq!(row.context_or_default(), "No Context");
    assert_eq!(row.definition_or_default(), "No Definition");
    assert_eq!(row.created_date_or_default(), "-7".to_string());
    assert_eq!(row.updated_date_or_default(), "1704110400".to_string());

    let info = DbInfo {
        dir: "/data".to_string(),
        name: "dict".to_string(),
        table_name: "terms".to_string(),
    };
    assert_eq!(info.path(), "/data/dict.sqlite".to_string());
}

#[test]
fn test_current_epoch_is_positive() {
    assert!(current_epoch() > 0);
}

#[test]
fn test_insert_fails_when_identifiers_are_exhausted() {
    let mut app = fresh_app("identifier_overflow");
    app.rows.push(TermsList {
        term_id: i32::MAX,
        term_set_id: 1,
        term_language_set: record(Some("full"), Some("en")),
    });
    let result = add_term(&mut app, &record(Some("more"), Some("en")));
    assert_eq!(result, Err(StoreError::IdOverflow));
    assert_eq!(get_all_terms(&app).unwrap().len(), 1);
}

#[test]
fn test_delete_termset_removes_whole_group() {
    let mut app = fresh_app("delete_termset_group");
    process_two_terms(
        &mut app,
        &record(Some("huis"), Some("nl")),
        &record(Some("house"), Some("en")),
    )
    .unwrap();
    add_term(&mut app, &record(Some("other"), Some("en"))).unwrap();

    delete_termset(&mut app, 1).unwrap();
    let rows = get_all_terms(&app).unwrap();
    assert_eq!(rows.len(), 1);
    assert_eq!(rows[0].term_language_set.term.as_deref(), Some("other"));
}

#[test]
fn test_clear_terms_cache_empties_snapshot() {
    let mut app = fresh_app("clear_terms_cache");
    let mut cache = SearchCache::new();
    init_db(&mut app, &mut cache).unwrap();
    assert!(app.terms_cache.is_some());
    clear_terms_cache(&mut app);
    assert!(app.terms_cache.is_none());
}

#[test]
fn test_create_term_to_insert_copies_record() {
    let source = record(Some("kopie"), Some("de"));
    let copy = create_term_to_insert(&source);
    assert_eq!(copy, source);
}

#[test]
fn test_dictionary_add_entry_appends() {
    let mut dictionary = Dictionary::new();
    assert!(dictionary.entries.is_empty());
    dictionary.add_entry(DictionaryEntry { id: 9, language_sets: vec![record(Some("x"), None)] });
    assert_eq!(dictionary.entries.len(), 1);
    assert_eq!(dictionary.entries[0].id, 9);
}
