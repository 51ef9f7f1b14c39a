//! Extraction: what is checked before the parser is asked, what the parser
//! is asked, and how its answer reaches the caller in either encoding.

use vstd::prelude::*;
use vstd::string::*;
use crate::error::{ParserError, ParserErrorView};
use crate::filter::{
    entries_view, kind_of_entry, kinds_of_filter, kinds_view, lemma_filter_errors,
    lemma_filter_resolves_entry_by_entry, lemma_first_refused_entry_decides, resolve_filter,
};
use crate::ontology::{lemma_known_kinds, EntityKind, Ontology, OntologyView};
use crate::registry::{
    lemma_created_handle_is_live, lemma_destroyed_handle_stays_invalid, CBuiltinEntityParser,
    Operation, ParserRegistry, RegistryView,
};
use crate::text::{decode_text, decoded};

verus! {

/// The error that `serde_json` reports when it cannot serialize a value.
#[verifier::external_type_specification]
#[verifier::external_body]
pub struct ExJsonError(serde_json::Error);

/// What the parser is asked: to find entities in `sentence`, and to keep to
/// the kinds of `filter` if there is one.
pub struct ExtractionRequest<'a> {
    pub sentence: &'a str,
    pub filter: Option<Vec<EntityKind>>,
}

/// An `ExtractionRequest` as specifications see it.
pub struct RequestView {
    pub sentence: Seq<char>,
    pub filter: Option<Seq<int>>,
}

impl<'a> View for ExtractionRequest<'a> {
    type V = RequestView;

    open spec fn view(&self) -> RequestView {
        RequestView {
            sentence: self.sentence@,
            filter: match self.filter {
                Some(kinds) => Some(kinds_view(&kinds)),
                None => None,
            },
        }
    }
}

/// The filter that a caller passed, if any, as sequences of bytes.
pub open spec fn filter_view(filter: Option<&Vec<Vec<u8>>>) -> Option<Seq<Seq<u8>>> {
    match filter {
        Some(entries) => Some(entries_view(entries)),
        None => None,
    }
}

/// What the parser is to be asked about a sentence and a filter. The
/// sentence is checked first, then the filter entries in order; the first
/// check that fails decides the error.
pub open spec fn request_of(
    ontology: OntologyView,
    sentence: Seq<u8>,
    filter: Option<Seq<Seq<u8>>>,
) -> Result<RequestView, ParserErrorView> {
    match decoded(sentence) {
        None => Err(ParserErrorView::InvalidText),
        Some(text) => match filter {
            None => Ok(RequestView { sentence: text, filter: None }),
            Some(entries) => match kinds_of_filter(ontology, entries) {
                Ok(kinds) => Ok(RequestView { sentence: text, filter: Some(kinds) }),
                Err(error) => Err(error),
            },
        },
    }
}

/// What an extraction call comes to before the parser is asked. The handle
/// is checked before anything else.
pub open spec fn request_for<P>(
    registry: RegistryView<P>,
    handle: int,
    sentence: Seq<u8>,
    filter: Option<Seq<Seq<u8>>>,
) -> Result<RequestView, ParserErrorView> {
    if registry.is_live(handle) {
        request_of(registry.ontology, sentence, filter)
    } else {
        Err(ParserErrorView::InvalidHandle)
    }
}

/// `entities` is an answer that `parser` may give to `request`, asked
/// through `extract_entities`.
pub open spec fn parsed<P, E, X: FnOnce(&P, ExtractionRequest) -> Vec<E>>(
    extract_entities: X,
    parser: P,
    request: RequestView,
    entities: Vec<E>,
) -> bool {
    exists|asked: ExtractionRequest|
        asked@ == request && call_ensures(extract_entities, (&parser, asked), entities)
}

/// `records` holds, in the same order, what `convert` may make of each of
/// `entities`.
pub open spec fn converted<E, C, F: Fn(E) -> C>(
    convert: F,
    entities: Seq<E>,
    records: Seq<C>,
) -> bool {
    &&& records.len() == entities.len()
    &&& forall|i: int|
        0 <= i < entities.len() ==> call_ensures(convert, (entities[i],), #[trigger] records[i])
}

/// `records` is what the structured encoding may hold for `request`: an
/// answer of the parser, converted entity by entity.
pub open spec fn structured<P, E, C, X: FnOnce(&P, ExtractionRequest) -> Vec<E>, F: Fn(E) -> C>(
    extract_entities: X,
    convert: F,
    parser: P,
    request: RequestView,
    records: Seq<C>,
) -> bool {
    exists|entities: Vec<E>|
        parsed(extract_entities, parser, request, entities) && converted(
            convert,
            entities@,
            records,
        )
}

/// `outcome` is what the serialized encoding may come to for `request`: what
/// `serialize` makes of an answer of the parser.
pub open spec fn serialized<
    P,
    E,
    X: FnOnce(&P, ExtractionRequest) -> Vec<E>,
    S: FnOnce(Vec<E>) -> Result<String, serde_json::Error>,
>(
    extract_entities: X,
    serialize: S,
    parser: P,
    request: RequestView,
    outcome: Result<String, serde_json::Error>,
) -> bool {
    exists|entities: Vec<E>|
        parsed(extract_entities, parser, request, entities) && call_ensures(
            serialize,
            (entities,),
            outcome,
        )
}

/// The parser gives one answer only to a request.
pub open spec fn answers_in_one_way<P, E, X: FnOnce(&P, ExtractionRequest) -> Vec<E>>(
    extract_entities: X,
    parser: P,
) -> bool {
    forall|first: ExtractionRequest, second: ExtractionRequest, one: Vec<E>, other: Vec<E>|
        first@ == second@ && #[trigger] call_ensures(extract_entities, (&parser, first), one)
            && #[trigger] call_ensures(extract_entities, (&parser, second), other) ==> one@
            == other@
}

/// The two encoders agree on every sequence of entities: the text that one
/// makes of it is read back by `decode` as the records that the other makes
/// of it.
pub open spec fn encoders_agree<
    E,
    C,
    F: Fn(E) -> C,
    S: FnOnce(Vec<E>) -> Result<String, serde_json::Error>,
>(convert: F, serialize: S, decode: spec_fn(Seq<char>) -> Seq<C>) -> bool {
    forall|entities: Vec<E>, json: String, records: Seq<C>|
        #[trigger] call_ensures(serialize, (entities,), Ok::<String, serde_json::Error>(json))
            && #[trigger] converted(convert, entities@, records) ==> decode(json@) == records
}

/// The bridge lets the two encodings of one call never part: for the same
/// handle, sentence and filter, the text of the serialized encoding reads
/// back as the records of the structured one, entity for entity, as long as
/// the parser gives one answer only and the encoders agree with each other.
pub proof fn lemma_encodings_agree<
    P,
    E,
    C,
    X: FnOnce(&P, ExtractionRequest) -> Vec<E>,
    F: Fn(E) -> C,
    S: FnOnce(Vec<E>) -> Result<String, serde_json::Error>,
>(
    extract_entities: X,
    convert: F,
    serialize: S,
    parser: P,
    request: RequestView,
    records: Seq<C>,
    json: String,
    decode: spec_fn(Seq<char>) -> Seq<C>,
)
    requires
        structured(extract_entities, convert, parser, request, records),
        serialized(
            extract_entities,
            serialize,
            parser,
            request,
            Ok::<String, serde_json::Error>(json),
        ),
        answers_in_one_way(extract_entities, parser),
        encoders_agree(convert, serialize, decode),
    ensures
        decode(json@) == records,
{
    let converted_from = choose|entities: Vec<E>|
        parsed(extract_entities, parser, request, entities) && converted(
            convert,
            entities@,
            records,
        );
    let serialized_from = choose|entities: Vec<E>|
        parsed(extract_entities, parser, request, entities) && call_ensures(
            serialize,
            (entities,),
            Ok::<String, serde_json::Error>(json),
        );
    assert(converted_from@ == serialized_from@);
    assert(converted(convert, serialized_from@, records));
}

/// A handle can be used as soon as it is created: an extraction with it is
/// never refused for the handle, and a sentence that is text, without a
/// filter, is put to the parser as it stands.
pub proof fn lemma_created_handle_is_usable<P>(
    state: RegistryView<P>,
    code: Seq<u8>,
    parser: P,
    sentence: Seq<u8>,
    filter: Option<Seq<Seq<u8>>>,
)
    requires
        state.ontology.language_of_code(code) is Some,
    ensures
        request_for(
            state.after(Operation::Create(code, parser)),
            state.next_handle(),
            sentence,
            filter,
        ) != Err::<RequestView, ParserErrorView>(ParserErrorView::InvalidHandle),
        decoded(sentence) is Some ==> request_for(
            state.after(Operation::Create(code, parser)),
            state.next_handle(),
            sentence,
            None,
        ) == Ok::<RequestView, ParserErrorView>(
            RequestView { sentence: decoded(sentence)->0, filter: None },
        ),
{
    lemma_created_handle_is_live(state, code, parser);
    lemma_extraction_errors(
        state.after(Operation::Create(code, parser)),
        state.next_handle(),
        sentence,
        filter,
    );
}

/// An extraction is refused for three reasons only: the handle, the text of
/// the sentence or of a filter entry, or a filter entry that names no kind.
pub proof fn lemma_extraction_errors<P>(
    state: RegistryView<P>,
    handle: int,
    sentence: Seq<u8>,
    filter: Option<Seq<Seq<u8>>>,
)
    ensures
        request_for(state, handle, sentence, filter) matches Err(error) ==> {
            ||| error == ParserErrorView::InvalidHandle && !state.is_live(handle)
            ||| error == ParserErrorView::InvalidText && state.is_live(handle)
            ||| error is InvalidFilterEntry && state.is_live(handle) && decoded(sentence) is Some
        },
{
    if let Some(entries) = filter {
        lemma_filter_errors(state.ontology, entries);
    }
}

/// A live handle, a sentence that is text and a filter of listed kinds are
/// never refused: the parser is asked for exactly the kinds of the filter,
/// in the order of its entries.
pub proof fn lemma_known_filter_is_accepted<P>(
    state: RegistryView<P>,
    handle: int,
    sentence: Seq<u8>,
    entries: Seq<Seq<u8>>,
)
    requires
        state.is_live(handle),
        decoded(sentence) is Some,
        forall|i: int|
            0 <= i < entries.len() ==> decoded(#[trigger] entries[i]) is Some
                && state.ontology.kinds.contains(decoded(entries[i])->0),
    ensures
        request_for(state, handle, sentence, Some(entries)) matches Ok(request) && {
            &&& request.sentence == decoded(sentence)->0
            &&& request.filter matches Some(kinds) && kinds.len() == entries.len()
                && forall|i: int|
                0 <= i < entries.len() ==> 0 <= #[trigger] kinds[i] < state.ontology.kinds.len()
                    && state.ontology.kinds[kinds[i]] == decoded(entries[i])->0
        },
{
    assert forall|i: int| 0 <= i < entries.len() implies (#[trigger] kind_of_entry(
        state.ontology,
        entries[i],
    )) is Ok by {
        lemma_known_kinds(state.ontology, decoded(entries[i])->0);
    }
    lemma_filter_resolves_entry_by_entry(state.ontology, entries);
    let kinds = kinds_of_filter(state.ontology, entries)->Ok_0;
    assert forall|i: int| 0 <= i < entries.len() implies 0 <= #[trigger] kinds[i]
        < state.ontology.kinds.len() && state.ontology.kinds[kinds[i]] == decoded(
        entries[i],
    )->0 by {
        lemma_known_kinds(state.ontology, decoded(entries[i])->0);
    }
}

/// A destroyed handle is refused by every later extraction: whatever is
/// created or destroyed in between, and whatever the sentence and the filter.
pub proof fn lemma_destroyed_handle_is_refused<P>(
    state: RegistryView<P>,
    handle: int,
    later: Seq<Operation<P>>,
    sentence: Seq<u8>,
    filter: Option<Seq<Seq<u8>>>,
)
    requires
        state.is_live(handle),
    ensures
        request_for(
            state.after(Operation::Destroy(handle)).after_all(later),
            handle,
            sentence,
            filter,
        ) == Err::<RequestView, ParserErrorView>(ParserErrorView::InvalidHandle),
{
    lemma_destroyed_handle_stays_invalid(state, handle, later);
}

/// A filter entry that is text but that the catalogue does not list makes the
/// extraction fail with that text attached, provided the handle is live, the
/// sentence is text and the entries before it resolve.
pub proof fn lemma_unknown_filter_entry_is_refused<P>(
    state: RegistryView<P>,
    handle: int,
    sentence: Seq<u8>,
    entries: Seq<Seq<u8>>,
    index: int,
)
    requires
        state.is_live(handle),
        decoded(sentence) is Some,
        0 <= index < entries.len(),
        forall|i: int|
            0 <= i < index ==> (#[trigger] kind_of_entry(state.ontology, entries[i])) is Ok,
        decoded(entries[index]) is Some,
        !state.ontology.kinds.contains(decoded(entries[index])->0),
    ensures
        request_for(state, handle, sentence, Some(entries)) == Err::<
            RequestView,
            ParserErrorView,
        >(ParserErrorView::InvalidFilterEntry(decoded(entries[index])->0)),
{
    lemma_known_kinds(state.ontology, decoded(entries[index])->0);
    lemma_first_refused_entry_decides(state.ontology, entries, index);
}

/// Checks a sentence and a filter and says what the parser is to be asked.
fn checked_request<'a>(
    ontology: &Ontology,
    sentence: &'a [u8],
    filter_entity_kinds: Option<&Vec<Vec<u8>>>,
) -> (res: Result<ExtractionRequest<'a>, ParserError>)
    ensures
        match request_of(ontology@, sentence@, filter_view(filter_entity_kinds)) {
            Ok(request) => res matches Ok(r) && r@ == request,
            Err(error) => res matches Err(e) && e@ == error,
        },
{
    let text = match decode_text(sentence) {
        Some(text) => text,
        None => {
            return Err(ParserError::InvalidText);
        },
    };
    let filter = match filter_entity_kinds {
        Some(entries) => match resolve_filter(ontology, entries) {
            Ok(kinds) => Some(kinds),
            Err(error) => {
                return Err(error);
            },
        },
        None => None,
    };
    Ok(ExtractionRequest { sentence: text, filter })
}

/// Checks an extraction call and says what the parser is to be asked.
pub fn extraction_request<'a, P>(
    registry: &ParserRegistry<P>,
    ptr: CBuiltinEntityParser,
    sentence: &'a [u8],
    filter_entity_kinds: Option<&Vec<Vec<u8>>>,
) -> (res: Result<ExtractionRequest<'a>, ParserError>)
    ensures
        match request_for(registry@, ptr@, sentence@, filter_view(filter_entity_kinds)) {
            Ok(request) => res matches Ok(r) && r@ == request,
            Err(error) => res matches Err(e) && e@ == error,
        },
{
    if registry.is_live(ptr) {
        checked_request(registry.ontology(), sentence, filter_entity_kinds)
    } else {
        Err(ParserError::InvalidHandle)
    }
}

/// Extracts the entities of a sentence: checks the call, then puts the
/// request to the parser of the handle through `extract_entities`. The
/// parser is not asked when the call is refused.
pub fn extract_entity<P, E, X: FnOnce(&P, ExtractionRequest) -> Vec<E>>(
    registry: &ParserRegistry<P>,
    ptr: CBuiltinEntityParser,
    sentence: &[u8],
    filter_entity_kinds: Option<&Vec<Vec<u8>>>,
    extract_entities: X,
) -> (res: Result<Vec<E>, ParserError>)
    requires
        forall|parser: &P, asked: ExtractionRequest|
            request_for(registry@, ptr@, sentence@, filter_view(filter_entity_kinds)) == Ok::<
                RequestView,
                ParserErrorView,
            >(asked@) && *parser == registry@.parser_of(ptr@) ==> call_requires(
                extract_entities,
                (parser, asked),
            ),
    ensures
        match request_for(registry@, ptr@, sentence@, filter_view(filter_entity_kinds)) {
            Ok(request) => res matches Ok(entities) && parsed(
                extract_entities,
                registry@.parser_of(ptr@),
                request,
                entities,
            ),
            Err(error) => res matches Err(e) && e@ == error,
        },
{
    let parser = match registry.parser_of(ptr) {
        Some(parser) => parser,
        None => {
            return Err(ParserError::InvalidHandle);
        },
    };
    match checked_request(registry.ontology(), sentence, filter_entity_kinds) {
        Ok(request) => Ok(extract_entities(parser, request)),
        Err(error) => Err(error),
    }
}

/// Extracts the entities of a sentence as an array of records, one for each
/// entity and in the parser's order, and writes the array to `results`.
/// Nothing is written when the call is refused.
pub fn extract_entity_c<P, E, C, X: FnOnce(&P, ExtractionRequest) -> Vec<E>, F: Fn(E) -> C>(
    registry: &ParserRegistry<P>,
    ptr: CBuiltinEntityParser,
    sentence: &[u8],
    filter_entity_kinds: Option<&Vec<Vec<u8>>>,
    results: &mut Vec<C>,
    extract_entities: X,
    convert: F,
) -> (res: Result<(), ParserError>)
    requires
        forall|parser: &P, asked: ExtractionRequest|
            request_for(registry@, ptr@, sentence@, filter_view(filter_entity_kinds)) == Ok::<
                RequestView,
                ParserErrorView,
            >(asked@) && *parser == registry@.parser_of(ptr@) ==> call_requires(
                extract_entities,
                (parser, asked),
            ),
        forall|entity: E| call_requires(convert, (entity,)),
    ensures
        match request_for(registry@, ptr@, sentence@, filter_view(filter_entity_kinds)) {
            Ok(request) => {
                &&& res is Ok
                &&& structured(
                    extract_entities,
                    convert,
                    registry@.parser_of(ptr@),
                    request,
                    final(results)@,
                )
            },
            Err(error) => {
                &&& res matches Err(e)
                &&& e@ == error
                &&& *final(results) == *old(results)
            },
        },
{
    let entities = match extract_entity(
        registry,
        ptr,
        sentence,
        filter_entity_kinds,
        extract_entities,
    ) {
        Ok(entities) => entities,
        Err(error) => {
            return Err(error);
        },
    };
    let ghost answer = entities;
    let mut records: Vec<C> = Vec::new();
    for entity in it: entities.into_iter()
        invariant
            forall|entity: E| call_requires(convert, (entity,)),
            it.seq() == answer@,
            records.len() == it.index(),
            forall|i: int|
                0 <= i < records.len() ==> call_ensures(
                    convert,
                    (answer@[i],),
                    #[trigger] records[i],
                ),
    {
        records.push(convert(entity));
    }
    *results = records;
    Ok(())
}

/// Extracts the entities of a sentence as one JSON text and writes the text
/// to `results`. Nothing is written when the call is refused or the entities
/// cannot be serialized.
pub fn extract_entity_json<
    P,
    E,
    X: FnOnce(&P, ExtractionRequest) -> Vec<E>,
    S: FnOnce(Vec<E>) -> Result<String, serde_json::Error>,
>(
    registry: &ParserRegistry<P>,
    ptr: CBuiltinEntityParser,
    sentence: &[u8],
    filter_entity_kinds: Option<&Vec<Vec<u8>>>,
    results: &mut String,
    extract_entities: X,
    serialize: S,
) -> (res: Result<(), ParserError>)
    requires
        forall|parser: &P, asked: ExtractionRequest|
            request_for(registry@, ptr@, sentence@, filter_view(filter_entity_kinds)) == Ok::<
                RequestView,
                ParserErrorView,
            >(asked@) && *parser == registry@.parser_of(ptr@) ==> call_requires(
                extract_entities,
                (parser, asked),
            ),
        forall|entities: Vec<E>| call_requires(serialize, (entities,)),
    ensures
        match request_for(registry@, ptr@, sentence@, filter_view(filter_entity_kinds)) {
            Ok(request) => exists|outcome: Result<String, serde_json::Error>|
                {
                    &&& serialized(
                        extract_entities,
                        serialize,
                        registry@.parser_of(ptr@),
                        request,
                        outcome,
                    )
                    &&& match outcome {
                        Ok(json) => res is Ok && *final(results) == json,
                        Err(_) => {
                            &&& res matches Err(e)
                            &&& e@ == ParserErrorView::SerializationFailure
                            &&& *final(results) == *old(results)
                        },
                    }
                },
            Err(error) => {
                &&& res matches Err(e)
                &&& e@ == error
                &&& *final(results) == *old(results)
            },
        },
{
    let entities = match extract_entity(
        registry,
        ptr,
        sentence,
        filter_entity_kinds,
        extract_entities,
    ) {
        Ok(entities) => entities,
        Err(error) => {
            return Err(error);
        },
    };
    let ghost answer = entities;
    let outcome = serialize(entities);
    proof {
        let request = request_for(registry@, ptr@, sentence@, filter_view(filter_entity_kinds))->Ok_0;
        assert(serialized(
            extract_entities,
            serialize,
            registry@.parser_of(ptr@),
            request,
            outcome,
        )) by {
            assert(parsed(extract_entities, registry@.parser_of(ptr@), request, answer));
            assert(call_ensures(serialize, (answer,), outcome));
        }
    }
    match outcome {
        Ok(json) => {
            *results = json;
            Ok(())
        },
        Err(_) => Err(ParserError::SerializationFailure),
    }
}

} // verus!
