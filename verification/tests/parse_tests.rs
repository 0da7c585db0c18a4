use term_squire::import::parse::Dictionary;
use term_squire::import::parse::ParseError;
use term_squire::import::parse::timestamp_for_human_readable;
use term_squire::logging::parse_log_level;
use term_squire::logging::LogLevel;

fn full_record_document() -> String {
    "<mtf><text><body><termEntry id=\"7\"><langSet lang=\"en\"><ntig><termGrp><term>house</term><termNote type=\"termType\">noun</termNote><termNote type=\"TS_CreateId\">alice</termNote><termNote type=\"TS_UpdateId\">bob</termNote><termNote type=\"TS_Subject\">building</termNote><termNote type=\"TS_Source\">survey</termNote><termNote type=\"TS_User1\">u1</termNote><termNote type=\"TS_Attributes\">attrs</termNote><termNote type=\"TS_Remark\">rem</termNote><termNote type=\"TS_Hyperlink\">http://example.test</termNote><termNote type=\"unknownKind\">ignored</termNote><date type=\"origination\">20240101T120000Z</date><date type=\"modification\">20240102T000000Z</date><descrip type=\"context\">ctx</descrip><descrip type=\"definition\">def</descrip></termGrp></ntig></langSet></termEntry></body></text></mtf>"
    .to_string()
}

#[test]
fn test_parse_full_record() {
    let mut dictionary = Dictionary::new();
    let result = dictionary.import_from_xml(&full_record_document());
    assert!(result.is_ok());
    assert_eq!(dictionary.entries.len(), 1);
    let entry = &dictionary.entries[0];
    assert_eq!(entry.id, 7);
    assert_eq!(entry.language_sets.len(), 1);
    let ls = &entry.language_sets[0];
    assert_eq!(ls.language.as_deref(), Some("en"));
    assert_eq!(ls.term.as_deref(), Some("house"));
    assert_eq!(ls.term_type.as_deref(), Some("noun"));
    assert_eq!(ls.creator_id.as_deref(), Some("alice"));
    assert_eq!(ls.updater_id.as_deref(), Some("bob"));
    assert_eq!(ls.subject.as_deref(), Some("building"));
    assert_eq!(ls.source.as_deref(), Some("survey"));
    assert_eq!(ls.user.as_deref(), Some("u1"));
    assert_eq!(ls.attributes.as_deref(), Some("attrs"));
    assert_eq!(ls.remark.as_deref(), Some("rem"));
    assert_eq!(ls.url.as_deref(), Some("http://example.test"));
    assert_eq!(ls.context.as_deref(), Some("ctx"));
    assert_eq!(ls.definition.as_deref(), Some("def"));
    assert_eq!(ls.creation_timestamp, Some(1704110400));
    assert_eq!(ls.update_timestamp, Some(1704153600));
}

#[test]
fn test_parse_term_absent_is_allowed() {
    let doc = "<mtf><text><body><termEntry id=\"1\"><langSet lang=\"de\"><ntig><termGrp><termNote type=\"TS_Remark\">no term here</termNote></termGrp></ntig></langSet></termEntry></body></text></mtf>";
    let mut dictionary = Dictionary::new();
    assert!(dictionary.import_from_xml(doc).is_ok());
    let ls = &dictionary.entries[0].language_sets[0];
    assert_eq!(ls.term, None);
    assert_eq!(ls.remark.as_deref(), Some("no term here"));
}

#[test]
fn test_parse_bad_entry_id_fails() {
    let doc = "<mtf><text><body><termEntry id=\"abc\"><langSet lang=\"en\"><ntig><termGrp><term>x</term></termGrp></ntig></langSet></termEntry></body></text></mtf>";
    let mut dictionary = Dictionary::new();
    assert_eq!(dictionary.import_from_xml(doc), Err(ParseError::EntryId));
    assert!(dictionary.entries.is_empty());
}

#[test]
fn test_parse_missing_entry_id_fails() {
    let doc = "<mtf><text><body><termEntry><langSet lang=\"en\"><ntig><termGrp><term>x</term></termGrp></ntig></langSet></termEntry></body></text></mtf>";
    let mut dictionary = Dictionary::new();
    assert_eq!(dictionary.import_from_xml(doc), Err(ParseError::EntryId));
}

#[test]
fn test_parse_missing_term_group_fails() {
    let doc = "<mtf><text><body><termEntry id=\"1\"><langSet lang=\"en\"></langSet></termEntry></body></text></mtf>";
    let mut dictionary = Dictionary::new();
    assert_eq!(dictionary.import_from_xml(doc), Err(ParseError::Structure));
}

#[test]
fn test_parse_missing_lang_fails() {
    let doc = "<mtf><text><body><termEntry id=\"1\"><langSet><ntig><termGrp><term>x</term></termGrp></ntig></langSet></termEntry></body></text></mtf>";
    let mut dictionary = Dictionary::new();
    assert_eq!(dictionary.import_from_xml(doc), Err(ParseError::Language));
}

#[test]
fn test_parse_missing_body_fails() {
    let doc = "<mtf><text></text></mtf>";
    let mut dictionary = Dictionary::new();
    assert_eq!(dictionary.import_from_xml(doc), Err(ParseError::Structure));
}

#[test]
fn test_parse_malformed_document_fails() {
    let doc = "<mtf><text><body>";
    let mut dictionary = Dictionary::new();
    assert_eq!(dictionary.import_from_xml(doc), Err(ParseError::Xml));
}

#[test]
fn test_parse_bad_date_is_silently_absent() {
    let doc = "<mtf><text><body><termEntry id=\"1\"><langSet lang=\"en\"><ntig><termGrp><term>x</term><date type=\"origination\">not-a-date</date></termGrp></ntig></langSet></termEntry></body></text></mtf>";
    let mut dictionary = Dictionary::new();
    assert!(dictionary.import_from_xml(doc).is_ok());
    assert_eq!(dictionary.entries[0].language_sets[0].creation_timestamp, None);
}

#[test]
fn test_parse_non_entry_children_are_skipped() {
    let doc = "<mtf><text><body><somethingElse>noise</somethingElse><termEntry id=\"4\"><langSet lang=\"en\"><ntig><termGrp><term>x</term></termGrp></ntig></langSet></termEntry></body></text></mtf>";
    let mut dictionary = Dictionary::new();
    assert!(dictionary.import_from_xml(doc).is_ok());
    assert_eq!(dictionary.entries.len(), 1);
    assert_eq!(dictionary.entries[0].id, 4);
}

#[test]
fn test_timestamp_for_human_readable_valid() {
    assert_eq!(
        timestamp_for_human_readable("20240101T120000Z"),
        "2024-01-01 12:00:00".to_string()
    );
}

#[test]
fn test_timestamp_for_human_readable_invalid() {
    assert_eq!(timestamp_for_human_readable("nonsense"), "error".to_string());
}

#[test]
fn test_parse_log_level_known_and_unknown() {
    assert_eq!(parse_log_level("ERROR"), Ok(LogLevel::Error));
    assert_eq!(parse_log_level("warn"), Ok(LogLevel::Warn));
    assert_eq!(parse_log_level("Info"), Ok(LogLevel::Info));
    assert_eq!(parse_log_level("debug"), Ok(LogLevel::Debug));
    assert_eq!(parse_log_level("TRACE"), Ok(LogLevel::Trace));
    assert_eq!(parse_log_level("bogus"), Ok(LogLevel::Info));
}

#[test]
fn test_parse_note_without_type_fails() {
    let doc = "<mtf><text><body><termEntry id=\"1\"><langSet lang=\"en\"><ntig><termGrp><term>x</term><termNote>untyped</termNote></termGrp></ntig></langSet></termEntry></body></text></mtf>";
    let mut dictionary = Dictionary::new();
    assert_eq!(dictionary.import_from_xml(doc), Err(ParseError::NoteType));
    assert!(dictionary.entries.is_empty());
}

#[test]
fn test_parse_later_note_of_same_kind_wins() {
    let doc = "<mtf><text><body><termEntry id=\"1\"><langSet lang=\"en\"><ntig><termGrp><term>x</term><termNote type=\"TS_Remark\">first</termNote><termNote type=\"TS_Remark\">second</termNote></termGrp></ntig></langSet></termEntry></body></text></mtf>";
    let mut dictionary = Dictionary::new();
    assert!(dictionary.import_from_xml(doc).is_ok());
    assert_eq!(
        dictionary.entries[0].language_sets[0].remark.as_deref(),
        Some("second")
    );
}
