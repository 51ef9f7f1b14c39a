//! The errors that the bridge reports, one class per kind of bad input.

use vstd::prelude::*;
use vstd::string::*;

verus! {

/// Why an operation of the bridge failed.
#[derive(Debug, PartialEq, Eq)]
pub enum ParserError {
    /// The language code names no supported language.
    InvalidLanguage,
    /// The handle is null, was never issued, or has been destroyed.
    InvalidHandle,
    /// The input is not well-formed UTF-8.
    InvalidText,
    /// A filter entry names no known entity kind; the entry is attached.
    InvalidFilterEntry(String),
    /// The entities could not be written as serialized text.
    SerializationFailure,
}

/// A `ParserError` as specifications see it.
pub enum ParserErrorView {
    InvalidLanguage,
    InvalidHandle,
    InvalidText,
    InvalidFilterEntry(Seq<char>),
    SerializationFailure,
}

impl View for ParserError {
    type V = ParserErrorView;

    open spec fn view(&self) -> ParserErrorView {
        match self {
            ParserError::InvalidLanguage => ParserErrorView::InvalidLanguage,
            ParserError::InvalidHandle => ParserErrorView::InvalidHandle,
            ParserError::InvalidText => ParserErrorView::InvalidText,
            ParserError::InvalidFilterEntry(entry) => ParserErrorView::InvalidFilterEntry(entry@),
            ParserError::SerializationFailure => ParserErrorView::SerializationFailure,
        }
    }
}

impl ParserErrorView {
    /// The text that describes the error to a person. For a rejected filter
    /// entry it quotes the entry as the caller wrote it.
    pub open spec fn message(self) -> Seq<char> {
        match self {
            ParserErrorView::InvalidLanguage => "unknown language"@,
            ParserErrorView::InvalidHandle => "invalid parser handle"@,
            ParserErrorView::InvalidText => "input is not valid UTF-8"@,
            ParserErrorView::InvalidFilterEntry(entry) => "`"@ + entry
                + "` isn't a known builtin entity kind"@,
            ParserErrorView::SerializationFailure => "entities could not be serialized"@,
        }
    }
}

impl ParserError {
    /// Describes the error in words.
    pub fn message(&self) -> (text: String)
        ensures
            text@ == self@.message(),
    {
        match self {
            ParserError::InvalidLanguage => "unknown language".to_owned(),
            ParserError::InvalidHandle => "invalid parser handle".to_owned(),
            ParserError::InvalidText => "input is not valid UTF-8".to_owned(),
            ParserError::InvalidFilterEntry(entry) => {
                let mut text = "`".to_owned();
                text.append(entry.as_str());
                text.append("` isn't a known builtin entity kind");
                text
            },
            ParserError::SerializationFailure => "entities could not be serialized".to_owned(),
        }
    }
}

/// The message for a refused filter entry quotes the entry, letter for
/// letter, right after its opening quote mark.
pub proof fn lemma_message_quotes_entry(entry: Seq<char>)
    ensures
        ParserErrorView::InvalidFilterEntry(entry).message().len() > entry.len(),
        ParserErrorView::InvalidFilterEntry(entry).message().subrange(
            1,
            1 + entry.len() as int,
        ) == entry,
{
    reveal_strlit("`");
    let message = ParserErrorView::InvalidFilterEntry(entry).message();
    assert(message.subrange(1, 1 + entry.len() as int) =~= entry);
}

} // verus!
