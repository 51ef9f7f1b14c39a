//! A verified bridge between foreign callers and a builtin-entity parser:
//! handle lifecycle, input validation and error classification.
//!
//! The parser itself stays outside. The bridge is given the catalogue of
//! what the parser understands and the calls that reach the parser; it keeps
//! the registry of the handles it has issued, checks every call before the
//! parser is asked, and hands the parser's answer on in the encoding that
//! the caller wants.

pub mod error;
pub mod extraction;
pub mod filter;
pub mod ontology;
pub mod registry;
pub mod text;

pub use error::ParserError;
pub use extraction::{
    extract_entity, extract_entity_c, extract_entity_json, extraction_request, ExtractionRequest,
};
pub use ontology::{EntityKind, Language, Ontology};
pub use registry::{
    create_builtin_entity_parser, destroy_builtin_entity_parser, CBuiltinEntityParser,
    ParserRegistry,
};
