//! The errors of the service, and how each is shown to a client.
use crate::data_files::EngineKind;
use vstd::prelude::*;
use vstd::string::StringExecFns;

verus! {

/// Why a data file could not be opened as an engine.
#[derive(Clone, Copy, Debug, PartialEq, Eq, Structural)]
pub enum OpenError {
    /// The file is missing or cannot be read.
    Io,
    /// The engine refused what the file holds.
    Corrupt,
}

/// Why a worker did not answer a request.
#[derive(Clone, Copy, Debug, PartialEq, Eq, Structural)]
pub enum WorkerError {
    /// The worker's queue is full.
    Busy,
    /// The worker has been shut down.
    Closed,
    /// The engine failed on this request.
    EngineFault,
}

/// An error as a client sees it.
#[derive(Debug)]
pub struct ApiError {
    pub message: String,
}

/// Why a request was not served.
#[derive(Debug)]
pub enum DispatchError {
    /// The request carries no text.
    InputError,
    /// No engine of the kind is loaded for the language.
    NoSuchLanguage(EngineKind, String),
    /// The worker of the language did not answer.
    EngineFault(WorkerError),
}

pub enum DispatchErrorView {
    InputError,
    NoSuchLanguage(EngineKind, Seq<char>),
    EngineFault(WorkerError),
}

impl View for DispatchError {
    type V = DispatchErrorView;

    open spec fn view(&self) -> DispatchErrorView {
        match self {
            DispatchError::InputError => DispatchErrorView::InputError,
            DispatchError::NoSuchLanguage(kind, language) => DispatchErrorView::NoSuchLanguage(
                *kind,
                language@,
            ),
            DispatchError::EngineFault(fault) => DispatchErrorView::EngineFault(*fault),
        }
    }
}

/// What a client calls an engine of the kind.
pub open spec fn engine_noun(kind: EngineKind) -> Seq<char> {
    match kind {
        EngineKind::Spelling => "speller"@,
        EngineKind::Grammar => "grammar checker"@,
        EngineKind::Hyphenation => "hyphenator"@,
    }
}

/// The message for a language that has no engine of the kind.
pub open spec fn no_such_language_message(kind: EngineKind, language: Seq<char>) -> Seq<char> {
    "No "@ + engine_noun(kind) + " available for language "@ + language
}

/// The message a client gets for each error. An engine's failure is told in
/// general words, whatever the worker reported.
pub open spec fn message_of(error: DispatchErrorView) -> Seq<char> {
    match error {
        DispatchErrorView::InputError => "The request holds no text"@,
        DispatchErrorView::NoSuchLanguage(kind, language) => no_such_language_message(
            kind,
            language,
        ),
        DispatchErrorView::EngineFault(_) => "The language engine failed on the request"@,
    }
}

fn noun(kind: EngineKind) -> (noun: &'static str)
    ensures
        noun@ == engine_noun(kind),
{
    match kind {
        EngineKind::Spelling => "speller",
        EngineKind::Grammar => "grammar checker",
        EngineKind::Hyphenation => "hyphenator",
    }
}

impl DispatchError {
    /// The error as the client is to see it.
    pub fn to_api_error(&self) -> (shown: ApiError)
        ensures
            shown.message@ == message_of(self@),
    {
        match self {
            DispatchError::InputError => ApiError {
                message: String::from_str("The request holds no text"),
            },
            DispatchError::NoSuchLanguage(kind, language) => {
                let mut message = String::from_str("No ");
                message.append(noun(*kind));
                message.append(" available for language ");
                message.append(language.as_str());
                ApiError { message }
            },
            DispatchError::EngineFault(_) => ApiError {
                message: String::from_str("The language engine failed on the request"),
            },
        }
    }
}

} // verus!
