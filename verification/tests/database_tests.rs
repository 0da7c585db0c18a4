use term_squire::dictionary::database::add_term;
use term_squire::dictionary::database::add_term_to_term_set;
use term_squire::dictionary::database::create_terms_table;
use term_squire::dictionary::database::current_epoch;
use term_squire::dictionary::database::delete_term;
use term_squire::dictionary::database::get_all_terms;
use term_squire::dictionary::database::get_term_set_id;
use term_squire::dictionary::database::get_term_set_id_by_term_id;
use term_squire::dictionary::database::search_terms;
use term_squire::dictionary::database::update_term;
use term_squire::dictionary::database::AppState;
use term_squire::dictionary::database::DbInfo;
use term_squire::dictionary::database::UniqueValues;
use term_squire::import::parse::TermLanguageSet;
use term_squire::import::process::process_single_term;
use term_squire::import::process::process_three_or_more_terms;
use term_squire::import::process::process_two_terms;

fn term_set_1() -> TermLanguageSet {
    TermLanguageSet {
        term: Some("term_1".to_string()),
        language: Some("en".to_string()),
        term_type: Some("noun".to_string()),
        creator_id: Some("user_1".to_string()),
        creation_timestamp: Some(current_epoch()),
        updater_id: None,
        update_timestamp: None,
        subject: None,
        source: None,
        user: None,
        attributes: None,
        remark: None,
        url: None,
        context: None,
        definition: None,
    }
}

fn term_set_2() -> TermLanguageSet {
    TermLanguageSet {
        term: Some("term_2".to_string()),
        language: Some("nl".to_string()),
        term_type: Some("noun".to_string()),
        creator_id: Some("user_2".to_string()),
        creation_timestamp: Some(current_epoch()),
        updater_id: None,
        update_timestamp: None,
        subject: None,
        source: None,
        user: None,
        attributes: None,
        remark: None,
        url: None,
        context: None,
        definition: None,
    }
}

fn term_set_3() -> TermLanguageSet {
    TermLanguageSet {
        term: Some("term_3".to_string()),
        language: Some("fr".to_string()),
        term_type: None,
        creator_id: Some("user_3".to_string()),
        creation_timestamp: Some(current_epoch()),
        updater_id: None,
        update_timestamp: None,
        subject: None,
        source: None,
        user: None,
        attributes: None,
        remark: None,
        url: None,
        context: Some("context for term_3".to_string()),
        definition: Some("Definition of term_3".to_string()),
    }
}

fn term_set_4() -> TermLanguageSet {
    TermLanguageSet {
        term: None,
        language: Some("de".to_string()),
        term_type: Some("verb".to_string()),
        creator_id: None,
        creation_timestamp: Some(current_epoch()),
        updater_id: None,
        update_timestamp: None,
        subject: None,
        source: None,
        user: None,
        attributes: None,
        remark: Some("No term provided".to_string()),
        url: None,
        context: None,
        definition: None,
    }
}

fn create_test_app_state(test_name: &str) -> AppState {
    let mut app_state = AppState {
        db_info: DbInfo {
            dir: "/data/term-squire-data".to_string(),
            name: test_name.to_string(),
            table_name: "terms".to_string(),
        },
        rows: Vec::new(),
        terms_cache: None,
        unique_values: UniqueValues::new(),
    };
    create_terms_table(&mut app_state).expect("Failed to create terms table");
    app_state
}

fn assert_term_exists(app_state: &AppState, term: &str, language: &str) {
    let terms = search_terms(app_state, term, language).expect("Search failed");
    assert_eq!(terms.len(), 1);
    assert_eq!(terms[0].term_language_set.term.as_deref(), Some(term));
}

#[test]
fn test_create_tables() {
    let mut app_state = create_test_app_state("test_create_tables");
    assert!(create_terms_table(&mut app_state).is_ok());
    assert!(get_all_terms(&app_state).unwrap().is_empty());
}

#[test]
fn test_insert_and_retrieve_termset() {
    let mut app_state = create_test_app_state("test_insert_and_retrieve_termset");

    let insert_result = add_term(&mut app_state, &term_set_1());
    assert!(insert_result.is_ok());
    assert_term_exists(&app_state, "term_1", "en");
}

#[test]
fn test_db_get_term_set_id_by_term_and_language() {
    let mut app_state = create_test_app_state("test_db_get_term_id_by_term");
    add_term(&mut app_state, &term_set_1()).unwrap();
    assert_term_exists(&app_state, "term_1", "en");

    let term_set_id = get_term_set_id(&app_state, "term_1", "en").unwrap();
    assert_eq!(term_set_id.unwrap(), 1);
}

#[test]
fn test_db_get_term_set_id_by_term_id() {
    let mut app_state = create_test_app_state("test_db_get_term_set_id_by_term_id");
    add_term(&mut app_state, &term_set_1()).unwrap();
    assert_term_exists(&app_state, "term_1", "en");

    let term_set_id = get_term_set_id_by_term_id(&app_state, 1).unwrap();
    assert_eq!(term_set_id.unwrap(), 1);
}

#[test]
fn test_db_add_termset_to_term() {
    let mut app_state = create_test_app_state("test_db_add_termset_to_term");
    add_term(&mut app_state, &term_set_1()).unwrap();
    assert_term_exists(&app_state, "term_1", "en");

    let term_set_id = get_term_set_id(&app_state, "term_1", "en").unwrap().unwrap();
    let add_result = add_term_to_term_set(&mut app_state, term_set_id, &term_set_2());
    assert!(add_result.is_ok());
}

#[test]
fn test_db_update_termset() {
    let mut app_state = create_test_app_state("test_db_update_termset");
    add_term(&mut app_state, &term_set_1()).unwrap();
    assert_term_exists(&app_state, "term_1", "en");

    let term_set_id = get_term_set_id(&app_state, "term_1", "en").unwrap().unwrap();
    let update_result = update_term(&mut app_state, term_set_id, &term_set_2());
    assert!(update_result.is_ok());
    assert_term_exists(&app_state, "term_2", "nl");
}

#[test]
fn test_db_get_data_all() {
    let mut app_state = create_test_app_state("test_db_get_data_all");
    add_term(&mut app_state, &term_set_1()).unwrap();
    add_term(&mut app_state, &term_set_2()).unwrap();

    let all_terms = get_all_terms(&app_state).unwrap();
    assert_eq!(all_terms.len(), 2);
}

#[test]
fn test_db_get_data_select_term_fuzzy() {
    let mut app_state = create_test_app_state("test_db_get_data_select_term_fuzzy");
    add_term(&mut app_state, &term_set_1()).unwrap();
    add_term(&mut app_state, &term_set_2()).unwrap();

    let terms = search_terms(&app_state, "erm", "nl").unwrap();
    assert_eq!(terms.len(), 1);
    assert_eq!(terms[0].term_language_set.term, Some("term_2".to_string()));
}

#[test]
fn test_db_delete_termset() {
    let mut app_state = create_test_app_state("test_db_delete_termset");
    add_term(&mut app_state, &term_set_1()).unwrap();
    assert_term_exists(&app_state, "term_1", "en");

    let term_set_id = get_term_set_id(&app_state, "term_1", "en").unwrap().unwrap();
    delete_term(&mut app_state, term_set_id).unwrap();

    let terms = search_terms(&app_state, "term_1", "en").unwrap();
    assert_eq!(terms.len(), 0);
}

#[test]
fn test_process_single_term_complete() {
    let mut app_state = create_test_app_state("test_process_single_term_complete");
    let result = process_single_term(&mut app_state, &term_set_1());
    assert!(result.is_ok());
    assert_term_exists(&app_state, "term_1", "en");
}

#[test]
fn test_process_single_term_partial() {
    let mut app_state = create_test_app_state("test_process_single_term_partial");
    let result = process_single_term(&mut app_state, &term_set_3());
    assert!(result.is_ok());
    assert_term_exists(&app_state, "term_3", "fr");
}

#[test]
fn test_process_two_terms() {
    let mut app_state = create_test_app_state("test_process_two_terms");
    let result = process_two_terms(&mut app_state, &term_set_1(), &term_set_2());
    assert!(result.is_ok());

    assert_term_exists(&app_state, "term_1", "en");
    assert_term_exists(&app_state, "term_2", "nl");
}

#[test]
fn test_process_two_terms_partial() {
    let mut app_state = create_test_app_state("test_process_two_terms_partial");
    let result = process_two_terms(&mut app_state, &term_set_3(), &term_set_2());
    assert!(result.is_ok());

    assert_term_exists(&app_state, "term_3", "fr");
    assert_term_exists(&app_state, "term_2", "nl");
}

#[test]
fn test_process_three_or_more_terms() {
    let mut app_state = create_test_app_state("test_process_three_or_more_terms");
    let terms = vec![term_set_1(), term_set_2(), term_set_3()];
    let result = process_three_or_more_terms(&mut app_state, &terms);
    assert!(result.is_ok());

    assert_term_exists(&app_state, "term_1", "en");
    assert_term_exists(&app_state, "term_2", "nl");
    assert_term_exists(&app_state, "term_3", "fr");
}

#[test]
fn test_process_three_or_more_terms_with_missing_term() {
    let mut app_state = create_test_app_state("test_process_three_or_more_terms_with_missing_term");
    let terms = vec![term_set_4(), term_set_2(), term_set_3()];
    let result = process_three_or_more_terms(&mut app_state, &terms);
    assert!(result.is_ok());

    assert_term_exists(&app_state, "term_2", "nl");
    assert_term_exists(&app_state, "term_3", "fr");
}
