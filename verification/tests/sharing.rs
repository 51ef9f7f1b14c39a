use std::sync::Arc;

use snips_nlu_ontology_parsers_ffi_macros::{
    create_builtin_entity_parser, extract_entity, extraction_request, CBuiltinEntityParser,
    ExtractionRequest, Language, Ontology, ParserError, ParserRegistry,
};

type Registry = ParserRegistry<Arc<String>>;

fn get_parser(language: Language) -> Arc<String> {
    Arc::new(format!("parser {}", language.index()))
}

fn echo(parser: &Arc<String>, request: ExtractionRequest) -> Vec<(String, String)> {
    vec![(parser.to_string(), request.sentence.to_string())]
}

fn shareable<T: Send + Sync>() {}

#[test]
fn registry_and_handles_can_be_shared_between_threads() {
    shareable::<Registry>();
    shareable::<CBuiltinEntityParser>();
    shareable::<ExtractionRequest>();
    shareable::<ParserError>();
}

#[test]
fn interleaved_extractions_agree_with_extractions_alone() {
    let languages = vec!["en".to_string(), "fr".to_string()];
    let mut registry: Registry = ParserRegistry::new(Ontology::new(languages, Vec::new()));
    let mut english = CBuiltinEntityParser::null();
    let mut french = CBuiltinEntityParser::null();
    let created = create_builtin_entity_parser(&mut registry, &mut english, b"en", get_parser);
    assert_eq!(created, Ok(()));
    let created = create_builtin_entity_parser(&mut registry, &mut french, b"fr", get_parser);
    assert_eq!(created, Ok(()));
    let sentences: Vec<String> = (0..8).map(|n| format!("phrase {}", n)).collect();
    let alone: Vec<_> = sentences
        .iter()
        .map(|sentence| extract_entity(&registry, french, sentence.as_bytes(), None, echo))
        .collect();
    let first_reader = &registry;
    let second_reader = &registry;
    for (sentence, expected) in sentences.iter().zip(&alone).rev() {
        let other = extraction_request(second_reader, english, b"in between", None);
        assert_eq!(other.map(|request| request.sentence.to_string()), Ok("in between".to_string()));
        let found = extract_entity(first_reader, french, sentence.as_bytes(), None, echo);
        assert_eq!(&found, expected);
    }
    assert_eq!(alone[3], Ok(vec![("parser 1".to_string(), "phrase 3".to_string())]));
}
