use std::cell::Cell;

use snips_nlu_ontology_parsers_ffi_macros::filter::{kind_from_entry, resolve_filter};
use snips_nlu_ontology_parsers_ffi_macros::text::{decode_text, decode_uppercase};
use snips_nlu_ontology_parsers_ffi_macros::{
    create_builtin_entity_parser, destroy_builtin_entity_parser, extract_entity, extract_entity_c,
    extract_entity_json, extraction_request, CBuiltinEntityParser, EntityKind, ExtractionRequest,
    Language, Ontology, ParserError, ParserRegistry,
};

/// A stand-in for the parser of one language: it knows one date and one
/// number, in English only.
#[derive(Debug, PartialEq)]
struct Parser {
    language: usize,
}

type Registry = ParserRegistry<Parser>;

/// What the stand-in parser finds: kind, value, start and end of the span.
type Entity = (String, String, usize, usize);

#[derive(Debug, PartialEq)]
struct Record {
    kind: String,
    value: String,
    start: usize,
    end: usize,
}

const KINDS: [&str; 4] = ["snips/number", "snips/ordinal", "snips/datetime", "snips/duration"];

fn strings(items: &[&str]) -> Vec<String> {
    items.iter().map(|item| item.to_string()).collect()
}

fn new_registry() -> Registry {
    ParserRegistry::new(Ontology::new(strings(&["en", "fr"]), strings(&KINDS)))
}

fn get_parser(language: Language) -> Parser {
    Parser { language: language.index() }
}

fn create(registry: &mut Registry, code: &[u8]) -> CBuiltinEntityParser {
    let mut handle = CBuiltinEntityParser::null();
    assert_eq!(create_builtin_entity_parser(registry, &mut handle, code, get_parser), Ok(()));
    handle
}

fn filter(entries: &[&[u8]]) -> Vec<Vec<u8>> {
    entries.iter().map(|entry| entry.to_vec()).collect()
}

fn wanted(request: &ExtractionRequest, kind: usize) -> bool {
    match &request.filter {
        Some(kinds) => kinds.contains(&EntityKind::at(kind)),
        None => true,
    }
}

fn stand_in_parser(parser: &Parser, request: ExtractionRequest) -> Vec<Entity> {
    let mut found = Vec::new();
    if parser.language != 0 {
        return found;
    }
    if let Some(start) = request.sentence.find("tomorrow at 5pm") {
        if wanted(&request, 2) {
            found.push((KINDS[2].to_string(), "tomorrow at 5pm".to_string(), start, start + 15));
        }
    }
    if let Some(start) = request.sentence.find("twelve") {
        if wanted(&request, 0) {
            found.push((KINDS[0].to_string(), "12".to_string(), start, start + 6));
        }
    }
    found.sort_by_key(|entity| entity.2);
    found
}

fn to_record(entity: Entity) -> Record {
    Record { kind: entity.0, value: entity.1, start: entity.2, end: entity.3 }
}

fn to_json(entities: Vec<Entity>) -> Result<String, serde_json::Error> {
    serde_json::to_string(&entities)
}

#[test]
fn decode_text_accepts_utf8_only() {
    assert_eq!(decode_text(b"tomorrow at 5pm"), Some("tomorrow at 5pm"));
    assert_eq!(decode_text("café à 17h".as_bytes()), Some("café à 17h"));
    assert_eq!(decode_text(&[0xe2, 0x82, 0xac]), Some("\u{20ac}"));
    assert_eq!(decode_text(b""), Some(""));
    assert_eq!(decode_text(&[0xff]), None);
    assert_eq!(decode_text(&[0x61, 0xc3]), None);
    assert_eq!(decode_text(&[0xc0, 0xaf]), None);
    assert_eq!(decode_text(&[0xed, 0xa0, 0x80]), None);
}

#[test]
fn decode_uppercase_decodes_then_raises_the_case() {
    assert_eq!(decode_uppercase(b"en"), Some("EN".to_string()));
    assert_eq!(decode_uppercase(b"Pt_Br"), Some("PT_BR".to_string()));
    assert_eq!(decode_uppercase("été".as_bytes()), Some("ÉTÉ".to_string()));
    assert_eq!(decode_uppercase(b""), Some(String::new()));
    assert_eq!(decode_uppercase(&[0x65, 0x6e, 0x80]), None);
}

#[test]
fn request_holds_sentence_and_filter() {
    let mut registry = new_registry();
    let english = create(&mut registry, b"en");
    let french = create(&mut registry, b"FR");
    let entries = filter(&[b"snips/datetime", b"snips/number"]);

    let request = extraction_request(&registry, french, "demain à 17h".as_bytes(), None).unwrap();
    assert_eq!(request.sentence, "demain à 17h");
    assert_eq!(request.filter, None);

    let request = extraction_request(&registry, english, b"at twelve", Some(&entries)).unwrap();
    assert_eq!(request.sentence, "at twelve");
    assert_eq!(request.filter, Some(vec![EntityKind::at(2), EntityKind::at(0)]));
}

#[test]
fn empty_filter_is_not_the_same_as_no_filter() {
    let mut registry = new_registry();
    let handle = create(&mut registry, b"en");
    let none = extraction_request(&registry, handle, b"twelve", None).unwrap();
    let empty = extraction_request(&registry, handle, b"twelve", Some(&Vec::new())).unwrap();
    assert_eq!(none.filter, None);
    assert_eq!(empty.filter, Some(Vec::new()));
    let found = extract_entity(&registry, handle, b"twelve", Some(&Vec::new()), stand_in_parser);
    assert_eq!(found, Ok(Vec::new()));
}

#[test]
fn filter_keeps_order_and_duplicates() {
    let ontology = Ontology::new(strings(&["en"]), strings(&KINDS));
    let entries = filter(&[b"snips/duration", b"snips/number", b"snips/duration"]);
    assert_eq!(
        resolve_filter(&ontology, &entries),
        Ok(vec![EntityKind::at(3), EntityKind::at(0), EntityKind::at(3)])
    );
    assert_eq!(resolve_filter(&ontology, &Vec::new()), Ok(Vec::new()));
}

#[test]
fn kind_identifiers_are_matched_exactly() {
    let ontology = Ontology::new(strings(&["en"]), strings(&KINDS));
    assert_eq!(kind_from_entry(&ontology, b"snips/ordinal"), Ok(EntityKind::at(1)));
    assert_eq!(ontology.kind_from_identifier("snips/ordinal"), Some(EntityKind::at(1)));
    assert_eq!(ontology.kind_identifier(EntityKind::at(1)), Some("snips/ordinal"));
    assert_eq!(ontology.kind_identifier(EntityKind::at(4)), None);
    assert_eq!(EntityKind::at(3).index(), 3);
    for wrong in ["SNIPS/ORDINAL", "snips/ordinal ", "ordinal", ""] {
        assert_eq!(ontology.kind_from_identifier(wrong), None);
        assert_eq!(
            kind_from_entry(&ontology, wrong.as_bytes()),
            Err(ParserError::InvalidFilterEntry(wrong.to_string()))
        );
    }
    assert_eq!(kind_from_entry(&ontology, &[0x80]), Err(ParserError::InvalidText));
}

#[test]
fn first_listing_of_a_kind_wins() {
    let ontology = Ontology::new(strings(&[]), strings(&["a", "b", "a"]));
    assert_eq!(ontology.kind_from_identifier("a"), Some(EntityKind::at(0)));
    assert_eq!(ontology.kind_from_identifier("b"), Some(EntityKind::at(1)));
}

#[test]
fn unknown_filter_entry_is_refused_with_its_text() {
    let mut registry = new_registry();
    let handle = create(&mut registry, b"en");
    let entries = filter(&[b"not_a_kind"]);
    let outcome = extract_entity(&registry, handle, b"twelve", Some(&entries), stand_in_parser);
    assert_eq!(outcome, Err(ParserError::InvalidFilterEntry("not_a_kind".to_string())));
    let message = outcome.unwrap_err().message();
    assert!(message.contains("not_a_kind"));
    assert_eq!(message, "`not_a_kind` isn't a known builtin entity kind");
}

#[test]
fn first_refused_filter_entry_decides() {
    let mut registry = new_registry();
    let handle = create(&mut registry, b"en");
    let unknown_first = filter(&[b"snips/number", b"nope", &[0xff], b"other"]);
    let broken_first = filter(&[b"snips/number", &[0xff], b"nope"]);
    assert_eq!(
        extraction_request(&registry, handle, b"twelve", Some(&unknown_first)).err(),
        Some(ParserError::InvalidFilterEntry("nope".to_string()))
    );
    assert_eq!(
        extraction_request(&registry, handle, b"twelve", Some(&broken_first)).err(),
        Some(ParserError::InvalidText)
    );
}

#[test]
fn sentence_that_is_not_text_is_refused() {
    let mut registry = new_registry();
    let handle = create(&mut registry, b"en");
    let outcome = extract_entity(&registry, handle, &[0x74, 0xff, 0x6f], None, stand_in_parser);
    assert_eq!(outcome, Err(ParserError::InvalidText));
}

#[test]
fn checks_come_in_order_handle_sentence_filter() {
    let mut registry = new_registry();
    let handle = create(&mut registry, b"en");
    let stale = CBuiltinEntityParser::from_raw(9);
    let unknown = filter(&[b"nope"]);
    assert_eq!(
        extraction_request(&registry, stale, &[0xff], Some(&unknown)).err(),
        Some(ParserError::InvalidHandle)
    );
    assert_eq!(
        extraction_request(&registry, handle, &[0xff], Some(&unknown)).err(),
        Some(ParserError::InvalidText)
    );
    assert_eq!(
        extraction_request(&registry, handle, b"fine", Some(&unknown)).err(),
        Some(ParserError::InvalidFilterEntry("nope".to_string()))
    );
    assert!(extraction_request(&registry, handle, b"fine", None).is_ok());
}

#[test]
fn null_and_unissued_handles_are_refused() {
    let mut registry = new_registry();
    create(&mut registry, b"en");
    for raw in [0usize, 2, usize::MAX] {
        let handle = CBuiltinEntityParser::from_raw(raw);
        let outcome = extract_entity(&registry, handle, b"twelve", None, stand_in_parser);
        assert_eq!(outcome, Err(ParserError::InvalidHandle));
    }
}

#[test]
fn parser_is_not_asked_when_the_call_is_refused() {
    let mut registry = new_registry();
    let handle = create(&mut registry, b"en");
    let asked = Cell::new(0u32);
    let parser = |parser: &Parser, request: ExtractionRequest| {
        asked.set(asked.get() + 1);
        stand_in_parser(parser, request)
    };
    let unknown = filter(&[b"snips/number", b"nope"]);
    assert!(extract_entity(&registry, handle, b"twelve", Some(&unknown), &parser).is_err());
    assert!(extract_entity(&registry, handle, &[0xff], None, &parser).is_err());
    assert!(extract_entity(&registry, CBuiltinEntityParser::null(), b"x", None, &parser).is_err());
    assert_eq!(asked.get(), 0);
    assert!(extract_entity(&registry, handle, b"twelve", None, &parser).is_ok());
    assert_eq!(asked.get(), 1);
}

#[test]
fn parser_of_the_handle_is_asked_what_the_request_says() {
    let mut registry = new_registry();
    create(&mut registry, b"en");
    let french = create(&mut registry, b"fr");
    let entries = filter(&[b"snips/ordinal"]);
    let parser = |parser: &Parser, request: ExtractionRequest| {
        vec![(parser.language, request.sentence.to_string(), request.filter)]
    };
    let found = extract_entity(&registry, french, "douzième".as_bytes(), Some(&entries), parser);
    assert_eq!(
        found,
        Ok(vec![(1usize, "douzième".to_string(), Some(vec![EntityKind::at(1)]))])
    );
}

#[test]
fn extract_tomorrow_at_5pm() {
    let mut registry = new_registry();
    let handle = create(&mut registry, b"en");
    let sentence = b"see you tomorrow at 5pm";

    let entities = extract_entity(&registry, handle, sentence, None, stand_in_parser).unwrap();
    assert_eq!(
        entities,
        vec![("snips/datetime".to_string(), "tomorrow at 5pm".to_string(), 8, 23)]
    );
    assert_eq!(&sentence[entities[0].2..entities[0].3], b"tomorrow at 5pm");

    let mut records: Vec<Record> = Vec::new();
    let outcome =
        extract_entity_c(&registry, handle, sentence, None, &mut records, stand_in_parser, to_record);
    assert_eq!(outcome, Ok(()));
    assert_eq!(records.len(), 1);
    assert_eq!(records[0].kind, "snips/datetime");
    assert_eq!((records[0].start, records[0].end), (8, 23));

    let mut json = String::new();
    let outcome =
        extract_entity_json(&registry, handle, sentence, None, &mut json, stand_in_parser, to_json);
    assert_eq!(outcome, Ok(()));
    assert_eq!(json, r#"[["snips/datetime","tomorrow at 5pm",8,23]]"#);
    let decoded: Vec<Entity> = serde_json::from_str(&json).unwrap();
    let decoded: Vec<Record> = decoded.into_iter().map(to_record).collect();
    assert_eq!(decoded, records);

    assert_eq!(destroy_builtin_entity_parser(&mut registry, handle), Ok(()));
    let outcome =
        extract_entity_c(&registry, handle, sentence, None, &mut records, stand_in_parser, to_record);
    assert_eq!(outcome, Err(ParserError::InvalidHandle));
    let outcome =
        extract_entity_json(&registry, handle, sentence, None, &mut json, stand_in_parser, to_json);
    assert_eq!(outcome, Err(ParserError::InvalidHandle));
    let outcome = extract_entity(&registry, handle, sentence, None, stand_in_parser);
    assert_eq!(outcome, Err(ParserError::InvalidHandle));
}

#[test]
fn both_encodings_hold_the_same_entities_under_every_filter() {
    let mut registry = new_registry();
    let handle = create(&mut registry, b"en");
    let sentence = b"twelve guests tomorrow at 5pm";
    let filters: Vec<Option<Vec<Vec<u8>>>> = vec![
        None,
        Some(filter(&[])),
        Some(filter(&[b"snips/number"])),
        Some(filter(&[b"snips/datetime"])),
        Some(filter(&[b"snips/datetime", b"snips/number"])),
        Some(filter(&[b"snips/ordinal", b"snips/duration"])),
    ];
    let expected = [2usize, 0, 1, 1, 2, 0];
    for (entries, count) in filters.iter().zip(expected) {
        let mut records: Vec<Record> = Vec::new();
        let mut json = String::new();
        let structured = extract_entity_c(
            &registry,
            handle,
            sentence,
            entries.as_ref(),
            &mut records,
            stand_in_parser,
            to_record,
        );
        let serialized = extract_entity_json(
            &registry,
            handle,
            sentence,
            entries.as_ref(),
            &mut json,
            stand_in_parser,
            to_json,
        );
        assert_eq!(structured, Ok(()));
        assert_eq!(serialized, Ok(()));
        assert_eq!(records.len(), count);
        let decoded: Vec<Entity> = serde_json::from_str(&json).unwrap();
        let decoded: Vec<Record> = decoded.into_iter().map(to_record).collect();
        assert_eq!(decoded, records);
    }
}

#[test]
fn records_come_in_the_order_of_the_parser() {
    let mut registry = new_registry();
    let handle = create(&mut registry, b"en");
    let mut records: Vec<Record> = vec![to_record(("old".to_string(), "old".to_string(), 0, 0))];
    let outcome = extract_entity_c(
        &registry,
        handle,
        b"twelve guests tomorrow at 5pm",
        None,
        &mut records,
        stand_in_parser,
        to_record,
    );
    assert_eq!(outcome, Ok(()));
    assert_eq!(
        records,
        vec![
            Record { kind: "snips/number".to_string(), value: "12".to_string(), start: 0, end: 6 },
            Record {
                kind: "snips/datetime".to_string(),
                value: "tomorrow at 5pm".to_string(),
                start: 14,
                end: 29,
            },
        ]
    );
}

#[test]
fn refused_call_writes_no_result() {
    let mut registry = new_registry();
    let handle = create(&mut registry, b"en");
    let unknown = filter(&[b"not_a_kind"]);
    let mut records = vec![to_record(("kept".to_string(), "kept".to_string(), 1, 2))];
    let mut json = "kept".to_string();

    let outcome = extract_entity_c(
        &registry,
        handle,
        b"twelve",
        Some(&unknown),
        &mut records,
        stand_in_parser,
        to_record,
    );
    assert_eq!(outcome, Err(ParserError::InvalidFilterEntry("not_a_kind".to_string())));
    assert_eq!(records, vec![to_record(("kept".to_string(), "kept".to_string(), 1, 2))]);

    let outcome = extract_entity_json(
        &registry,
        handle,
        &[0xff],
        None,
        &mut json,
        stand_in_parser,
        to_json,
    );
    assert_eq!(outcome, Err(ParserError::InvalidText));
    assert_eq!(json, "kept");
}

#[test]
fn serialization_failure_writes_no_result() {
    let mut registry = new_registry();
    let handle = create(&mut registry, b"en");
    let mut json = "kept".to_string();
    let parser = |_parser: &Parser, _request: ExtractionRequest| {
        let mut entity = std::collections::BTreeMap::new();
        entity.insert((1u8, 2u8), "a key that is no string".to_string());
        vec![entity]
    };
    let serialize = |entities: Vec<std::collections::BTreeMap<(u8, u8), String>>| {
        serde_json::to_string(&entities)
    };
    let outcome =
        extract_entity_json(&registry, handle, b"twelve", None, &mut json, parser, serialize);
    assert_eq!(outcome, Err(ParserError::SerializationFailure));
    assert_eq!(json, "kept");
}

#[test]
fn every_error_has_its_message() {
    assert_eq!(ParserError::InvalidLanguage.message(), "unknown language");
    assert_eq!(ParserError::InvalidHandle.message(), "invalid parser handle");
    assert_eq!(ParserError::InvalidText.message(), "input is not valid UTF-8");
    assert_eq!(
        ParserError::InvalidFilterEntry("snips/nope".to_string()).message(),
        "`snips/nope` isn't a known builtin entity kind"
    );
    assert_eq!(
        ParserError::InvalidFilterEntry(String::new()).message(),
        "`` isn't a known builtin entity kind"
    );
    assert_eq!(ParserError::SerializationFailure.message(), "entities could not be serialized");
}
