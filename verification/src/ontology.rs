//! The catalogue of what the parser understands: the languages it supports
//! and the kinds of entity it can recognise, each under its textual name.

use vstd::prelude::*;
use vstd::string::*;
use crate::text::{decode_uppercase, decoded, to_uppercase, uppercase_of};

verus! {

/// A supported language, named by its place in the catalogue.
#[derive(Clone, Copy, Debug, PartialEq, Eq, Structural)]
pub struct Language {
    index: usize,
}

/// A known kind of entity, named by its place in the catalogue.
#[derive(Clone, Copy, Debug, PartialEq, Eq, Structural)]
pub struct EntityKind {
    index: usize,
}

impl View for Language {
    type V = int;

    closed spec fn view(&self) -> int {
        self.index as int
    }
}

impl View for EntityKind {
    type V = int;

    closed spec fn view(&self) -> int {
        self.index as int
    }
}

impl Language {
    /// The place of the language in the catalogue.
    pub fn index(&self) -> (index: usize)
        ensures
            index == self@,
    {
        self.index
    }

    /// The language at a place of the catalogue.
    pub fn at(index: usize) -> (language: Language)
        ensures
            language@ == index,
    {
        Language { index }
    }
}

impl EntityKind {
    /// The place of the kind in the catalogue.
    pub fn index(&self) -> (index: usize)
        ensures
            index == self@,
    {
        self.index
    }

    /// The kind at a place of the catalogue.
    pub fn at(index: usize) -> (kind: EntityKind)
        ensures
            kind@ == index,
    {
        EntityKind { index }
    }
}

/// The catalogue itself. Language codes are kept in upper case, so that a
/// code is found whatever case the caller writes it in.
pub struct Ontology {
    languages: Vec<String>,
    kinds: Vec<String>,
}

/// An `Ontology` as specifications see it.
pub struct OntologyView {
    /// The upper-case code of each supported language.
    pub languages: Seq<Seq<char>>,
    /// The identifier of each known entity kind.
    pub kinds: Seq<Seq<char>>,
}

impl OntologyView {
    /// The language that a code written in bytes stands for: the first one
    /// whose code equals the upper-case form of the decoded text.
    pub open spec fn language_of_code(self, code: Seq<u8>) -> Option<int> {
        match decoded(code) {
            Some(text) => self.languages.index_of_first(uppercase_of(text)),
            None => None,
        }
    }

    /// The kind that an identifier stands for: the first one that has
    /// exactly this identifier.
    pub open spec fn kind_of_identifier(self, identifier: Seq<char>) -> Option<int> {
        self.kinds.index_of_first(identifier)
    }
}

/// How a language code is written in case does not matter: two codes with
/// the same upper-case form name the same language, or neither names one.
pub proof fn lemma_language_code_ignores_case(
    ontology: OntologyView,
    first: Seq<u8>,
    second: Seq<u8>,
)
    requires
        decoded(first) is Some,
        decoded(second) is Some,
        uppercase_of(decoded(first)->0) == uppercase_of(decoded(second)->0),
    ensures
        ontology.language_of_code(first) == ontology.language_of_code(second),
{
}

/// Every code whose upper-case form the catalogue lists names a language,
/// the first one listed under that form, and no other code names one.
pub proof fn lemma_supported_languages(ontology: OntologyView, code: Seq<u8>)
    ensures
        ontology.language_of_code(code) is Some <==> decoded(code) is Some
            && ontology.languages.contains(uppercase_of(decoded(code)->0)),
        ontology.language_of_code(code) matches Some(language) ==> {
            &&& 0 <= language < ontology.languages.len()
            &&& ontology.languages[language] == uppercase_of(decoded(code)->0)
            &&& forall|earlier: int|
                0 <= earlier < language ==> ontology.languages[earlier] != uppercase_of(
                    decoded(code)->0,
                )
        },
{
    if let Some(text) = decoded(code) {
        ontology.languages.index_of_first_ensures(uppercase_of(text));
    }
}

/// An identifier names a kind exactly when the catalogue lists it, and then
/// the first kind listed under it.
pub proof fn lemma_known_kinds(ontology: OntologyView, identifier: Seq<char>)
    ensures
        ontology.kind_of_identifier(identifier) is Some <==> ontology.kinds.contains(identifier),
        ontology.kind_of_identifier(identifier) matches Some(kind) ==> {
            &&& 0 <= kind < ontology.kinds.len()
            &&& ontology.kinds[kind] == identifier
            &&& forall|earlier: int| 0 <= earlier < kind ==> ontology.kinds[earlier] != identifier
        },
{
    ontology.kinds.index_of_first_ensures(identifier);
}

impl View for Ontology {
    type V = OntologyView;

    closed spec fn view(&self) -> OntologyView {
        OntologyView { languages: self.languages.deep_view(), kinds: self.kinds.deep_view() }
    }
}

/// Finds the first entry that equals `text`.
fn position(entries: &Vec<String>, text: &String) -> (found: Option<usize>)
    ensures
        match entries.deep_view().index_of_first(text@) {
            Some(index) => found matches Some(i) && i == index && index < entries.len(),
            None => found is None,
        },
{
    let ghost names = entries.deep_view();
    let mut i: usize = 0;
    while i < entries.len()
        invariant
            i <= entries.len(),
            names == entries.deep_view(),
            forall|j: int| 0 <= j < i ==> names[j] != text@,
        decreases entries.len() - i,
    {
        if entries[i] == *text {
            proof {
                assert(names[i as int] == text@);
                names.index_of_first_ensures(text@);
            }
            return Some(i);
        }
        i += 1;
    }
    proof {
        names.index_of_first_ensures(text@);
    }
    None
}

impl Ontology {
    /// Builds the catalogue from the codes of the supported languages and
    /// the identifiers of the known entity kinds, in the order given.
    pub fn new(languages: Vec<String>, kinds: Vec<String>) -> (ontology: Ontology)
        ensures
            ontology@.languages == languages.deep_view().map_values(
                |code: Seq<char>| uppercase_of(code),
            ),
            ontology@.kinds == kinds.deep_view(),
    {
        let mut codes: Vec<String> = Vec::new();
        let mut i: usize = 0;
        while i < languages.len()
            invariant
                i <= languages.len(),
                codes.len() == i,
                forall|j: int| 0 <= j < i ==> codes[j]@ == uppercase_of(#[trigger] languages[j]@),
            decreases languages.len() - i,
        {
            codes.push(to_uppercase(languages[i].as_str()));
            i += 1;
        }
        let ontology = Ontology { languages: codes, kinds };
        assert(ontology@.languages =~= languages.deep_view().map_values(
            |code: Seq<char>| uppercase_of(code),
        ));
        ontology
    }

    /// How many languages the catalogue lists.
    pub fn language_count(&self) -> (count: usize)
        ensures
            count == self@.languages.len(),
    {
        self.languages.len()
    }

    /// How many entity kinds the catalogue lists.
    pub fn kind_count(&self) -> (count: usize)
        ensures
            count == self@.kinds.len(),
    {
        self.kinds.len()
    }

    /// Resolves a language code, written in any case.
    pub fn language_from_code(&self, code: &[u8]) -> (language: Option<Language>)
        ensures
            match self@.language_of_code(code@) {
                Some(index) => language matches Some(l) && l@ == index
                    && 0 <= index < self@.languages.len(),
                None => language is None,
            },
    {
        match decode_uppercase(code) {
            Some(upper) => match position(&self.languages, &upper) {
                Some(index) => Some(Language { index }),
                None => None,
            },
            None => None,
        }
    }

    /// Resolves the identifier of an entity kind.
    pub fn kind_from_identifier(&self, identifier: &str) -> (kind: Option<EntityKind>)
        ensures
            match self@.kind_of_identifier(identifier@) {
                Some(index) => kind matches Some(k) && k@ == index
                    && 0 <= index < self@.kinds.len(),
                None => kind is None,
            },
    {
        let name = identifier.to_owned();
        match position(&self.kinds, &name) {
            Some(index) => Some(EntityKind { index }),
            None => None,
        }
    }

    /// The upper-case code of a language, if the catalogue lists it.
    pub fn language_code(&self, language: Language) -> (code: Option<&str>)
        ensures
            match code {
                Some(text) => 0 <= language@ < self@.languages.len()
                    && text@ == self@.languages[language@],
                None => !(0 <= language@ < self@.languages.len()),
            },
    {
        if language.index < self.languages.len() {
            Some(self.languages[language.index].as_str())
        } else {
            None
        }
    }

    /// The identifier of an entity kind, if the catalogue lists it.
    pub fn kind_identifier(&self, kind: EntityKind) -> (identifier: Option<&str>)
        ensures
            match identifier {
                Some(text) => 0 <= kind@ < self@.kinds.len() && text@ == self@.kinds[kind@],
                None => !(0 <= kind@ < self@.kinds.len()),
            },
    {
        if kind.index < self.kinds.len() {
            Some(self.kinds[kind.index].as_str())
        } else {
            None
        }
    }
}

} // verus!
