//! The filter of entity kinds that a caller may put on an extraction: each
//! entry is the identifier of a kind, written in bytes.

use vstd::prelude::*;
use vstd::string::*;
use crate::error::{ParserError, ParserErrorView};
use crate::ontology::{lemma_known_kinds, EntityKind, Ontology, OntologyView};
use crate::text::{decode_text, decoded};

verus! {

/// The entries of a filter as sequences of bytes.
pub open spec fn entries_view(entries: &Vec<Vec<u8>>) -> Seq<Seq<u8>> {
    entries@.map_values(|entry: Vec<u8>| entry@)
}

/// The kinds of a resolved filter as their places in the catalogue.
pub open spec fn kinds_view(kinds: &Vec<EntityKind>) -> Seq<int> {
    kinds@.map_values(|kind: EntityKind| kind@)
}

/// The kind that one filter entry names. An entry that is not text is
/// refused as such; one that is text but names no kind is refused with the
/// text attached.
pub open spec fn kind_of_entry(ontology: OntologyView, entry: Seq<u8>) -> Result<
    int,
    ParserErrorView,
> {
    match decoded(entry) {
        None => Err(ParserErrorView::InvalidText),
        Some(text) => match ontology.kind_of_identifier(text) {
            Some(kind) => Ok(kind),
            None => Err(ParserErrorView::InvalidFilterEntry(text)),
        },
    }
}

/// The kinds that a filter names, entry by entry and in the same order. The
/// first entry that is refused decides the error.
pub open spec fn kinds_of_filter(ontology: OntologyView, entries: Seq<Seq<u8>>) -> Result<
    Seq<int>,
    ParserErrorView,
>
    decreases entries.len(),
{
    if entries.len() == 0 {
        Ok(Seq::empty())
    } else {
        match kinds_of_filter(ontology, entries.drop_last()) {
            Err(error) => Err(error),
            Ok(kinds) => match kind_of_entry(ontology, entries.last()) {
                Ok(kind) => Ok(kinds.push(kind)),
                Err(error) => Err(error),
            },
        }
    }
}

/// Once the first entries of a filter are refused, the whole filter is, and
/// for the same reason.
pub proof fn lemma_refused_prefix_decides(
    ontology: OntologyView,
    entries: Seq<Seq<u8>>,
    count: int,
)
    requires
        0 <= count <= entries.len(),
        kinds_of_filter(ontology, entries.take(count)) is Err,
    ensures
        kinds_of_filter(ontology, entries) == kinds_of_filter(ontology, entries.take(count)),
    decreases entries.len() - count,
{
    if count == entries.len() {
        assert(entries.take(count) =~= entries);
    } else {
        assert(entries.take(count + 1).drop_last() =~= entries.take(count));
        lemma_refused_prefix_decides(ontology, entries, count + 1);
    }
}

/// A filter resolves exactly when each of its entries does, and then to the
/// kinds that the entries name, one for one and in the same order.
pub proof fn lemma_filter_resolves_entry_by_entry(ontology: OntologyView, entries: Seq<Seq<u8>>)
    ensures
        kinds_of_filter(ontology, entries) is Ok <==> forall|i: int|
            0 <= i < entries.len() ==> (#[trigger] kind_of_entry(ontology, entries[i])) is Ok,
        kinds_of_filter(ontology, entries) matches Ok(kinds) ==> {
            &&& kinds.len() == entries.len()
            &&& forall|i: int|
                0 <= i < entries.len() ==> kind_of_entry(ontology, entries[i]) == Ok::<
                    int,
                    ParserErrorView,
                >(#[trigger] kinds[i])
        },
    decreases entries.len(),
{
    if entries.len() > 0 {
        let front = entries.drop_last();
        lemma_filter_resolves_entry_by_entry(ontology, front);
        assert forall|i: int| 0 <= i < front.len() implies front[i] == entries[i] by {}
    }
}

/// The first entry that is refused decides the error of the whole filter,
/// whatever follows it.
pub proof fn lemma_first_refused_entry_decides(
    ontology: OntologyView,
    entries: Seq<Seq<u8>>,
    index: int,
)
    requires
        0 <= index < entries.len(),
        forall|i: int| 0 <= i < index ==> (#[trigger] kind_of_entry(ontology, entries[i])) is Ok,
        kind_of_entry(ontology, entries[index]) is Err,
    ensures
        kinds_of_filter(ontology, entries) == Err::<Seq<int>, ParserErrorView>(
            kind_of_entry(ontology, entries[index])->Err_0,
        ),
{
    let front = entries.take(index);
    assert forall|i: int| 0 <= i < front.len() implies front[i] == entries[i] by {}
    lemma_filter_resolves_entry_by_entry(ontology, front);
    assert(entries.take(index + 1).drop_last() =~= front);
    lemma_refused_prefix_decides(ontology, entries, index + 1);
}

/// A filter is refused for two reasons only: an entry that is not text, or
/// an entry that is text but that the catalogue does not list, and then the
/// error holds that text.
pub proof fn lemma_filter_errors(ontology: OntologyView, entries: Seq<Seq<u8>>)
    ensures
        kinds_of_filter(ontology, entries) matches Err(error) ==> {
            ||| error == ParserErrorView::InvalidText
            ||| error matches ParserErrorView::InvalidFilterEntry(text)
                && !ontology.kinds.contains(text)
        },
    decreases entries.len(),
{
    if entries.len() > 0 {
        lemma_filter_errors(ontology, entries.drop_last());
        if let Some(text) = decoded(entries.last()) {
            lemma_known_kinds(ontology, text);
        }
    }
}

/// Resolves one filter entry to the kind it names.
pub fn kind_from_entry(ontology: &Ontology, entry: &[u8]) -> (res: Result<EntityKind, ParserError>)
    ensures
        match kind_of_entry(ontology@, entry@) {
            Ok(kind) => res matches Ok(k) && k@ == kind && 0 <= kind < ontology@.kinds.len(),
            Err(error) => res matches Err(e) && e@ == error,
        },
{
    match decode_text(entry) {
        None => Err(ParserError::InvalidText),
        Some(text) => match ontology.kind_from_identifier(text) {
            Some(kind) => Ok(kind),
            None => Err(ParserError::InvalidFilterEntry(text.to_owned())),
        },
    }
}

/// Resolves a filter, entry by entry, and stops at the first entry that is
/// refused.
pub fn resolve_filter(ontology: &Ontology, entries: &Vec<Vec<u8>>) -> (res: Result<
    Vec<EntityKind>,
    ParserError,
>)
    ensures
        match kinds_of_filter(ontology@, entries_view(entries)) {
            Ok(kinds) => res matches Ok(found) && kinds_view(&found) == kinds,
            Err(error) => res matches Err(e) && e@ == error,
        },
{
    let ghost all = entries_view(entries);
    let mut found: Vec<EntityKind> = Vec::new();
    let mut i: usize = 0;
    assert(kinds_view(&found) =~= Seq::<int>::empty());
    while i < entries.len()
        invariant
            i <= entries.len(),
            all == entries_view(entries),
            kinds_of_filter(ontology@, all.take(i as int)) == Ok::<Seq<int>, ParserErrorView>(
                kinds_view(&found),
            ),
        decreases entries.len() - i,
    {
        proof {
            assert(all.take(i + 1).drop_last() =~= all.take(i as int));
        }
        match kind_from_entry(ontology, entries[i].as_slice()) {
            Ok(kind) => {
                let ghost before = kinds_view(&found);
                found.push(kind);
                assert(kinds_view(&found) =~= before.push(kind@));
            },
            Err(error) => {
                proof {
                    lemma_refused_prefix_decides(ontology@, all, i + 1);
                }
                return Err(error);
            },
        }
        i += 1;
    }
    assert(all.take(i as int) =~= all);
    Ok(found)
}

} // verus!
