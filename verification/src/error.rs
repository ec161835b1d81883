//! The error type of the library.

use vstd::prelude::*;
use vstd::string::*;

verus! {

/// What can go wrong.
#[derive(Debug, PartialEq)]
pub enum NekoError {
    /// Configuration loading or validation failed.
    Config(String),
    /// A database operation failed.
    Database(String),
    /// The model provider returned an error or produced invalid output.
    Llm(String),
    /// The network or a channel failed.
    Transport(String),
    /// A message could not be read.
    Parse(String),
    /// A requested resource or handler is missing.
    Missing(String),
    /// Anything else.
    Other(String),
}

/// The kinds of error.
#[derive(Debug, Clone, Copy, PartialEq, Eq, Structural)]
pub enum ErrorKind {
    Config,
    Database,
    Llm,
    Transport,
    Parse,
    Missing,
    Other,
}

impl NekoError {
    /// The kind of the error.
    pub open spec fn kind(self) -> ErrorKind {
        match self {
            NekoError::Config(_) => ErrorKind::Config,
            NekoError::Database(_) => ErrorKind::Database,
            NekoError::Llm(_) => ErrorKind::Llm,
            NekoError::Transport(_) => ErrorKind::Transport,
            NekoError::Parse(_) => ErrorKind::Parse,
            NekoError::Missing(_) => ErrorKind::Missing,
            NekoError::Other(_) => ErrorKind::Other,
        }
    }

    /// What the error says, without its kind.
    pub open spec fn detail(self) -> Seq<char> {
        match self {
            NekoError::Config(msg) => msg@,
            NekoError::Database(msg) => msg@,
            NekoError::Llm(msg) => msg@,
            NekoError::Transport(msg) => msg@,
            NekoError::Parse(msg) => msg@,
            NekoError::Missing(msg) => msg@,
            NekoError::Other(msg) => msg@,
        }
    }

    /// The error is of the kind `kind` and says `detail`.
    pub open spec fn says(self, kind: ErrorKind, detail: Seq<char>) -> bool {
        self.kind() == kind && self.detail() == detail
    }

    /// What stands before the detail in the message.
    pub open spec fn label(kind: ErrorKind) -> Seq<char> {
        match kind {
            ErrorKind::Config => "config error: "@,
            ErrorKind::Database => "database error: "@,
            ErrorKind::Llm => "llm error: "@,
            ErrorKind::Transport => "transport error: "@,
            ErrorKind::Parse => "parse error: "@,
            ErrorKind::Missing => "missing: "@,
            ErrorKind::Other => ""@,
        }
    }

    /// A configuration error.
    pub fn config(msg: String) -> (res: Self)
        ensures
            res.says(ErrorKind::Config, msg@),
    {
        NekoError::Config(msg)
    }

    /// A database error.
    pub fn database(msg: String) -> (res: Self)
        ensures
            res.says(ErrorKind::Database, msg@),
    {
        NekoError::Database(msg)
    }

    /// An error of the model provider.
    pub fn llm(msg: String) -> (res: Self)
        ensures
            res.says(ErrorKind::Llm, msg@),
    {
        NekoError::Llm(msg)
    }

    /// A transport error.
    pub fn transport(msg: String) -> (res: Self)
        ensures
            res.says(ErrorKind::Transport, msg@),
    {
        NekoError::Transport(msg)
    }

    /// A parse error.
    pub fn parse(msg: String) -> (res: Self)
        ensures
            res.says(ErrorKind::Parse, msg@),
    {
        NekoError::Parse(msg)
    }

    /// A missing resource.
    pub fn missing(msg: String) -> (res: Self)
        ensures
            res.says(ErrorKind::Missing, msg@),
    {
        NekoError::Missing(msg)
    }

    /// Any other error.
    pub fn other(msg: String) -> (res: Self)
        ensures
            res.says(ErrorKind::Other, msg@),
    {
        NekoError::Other(msg)
    }

    /// The message: the kind in words, then the detail.
    pub fn message(&self) -> (res: String)
        ensures
            res@ == NekoError::label(self.kind()) + self.detail(),
    {
        match self {
            NekoError::Config(msg) => "config error: ".to_string().concat(msg.as_str()),
            NekoError::Database(msg) => "database error: ".to_string().concat(msg.as_str()),
            NekoError::Llm(msg) => "llm error: ".to_string().concat(msg.as_str()),
            NekoError::Transport(msg) => "transport error: ".to_string().concat(msg.as_str()),
            NekoError::Parse(msg) => "parse error: ".to_string().concat(msg.as_str()),
            NekoError::Missing(msg) => "missing: ".to_string().concat(msg.as_str()),
            NekoError::Other(msg) => "".to_string().concat(msg.as_str()),
        }
    }
}

/// The error made of a fixed text before a detail.
pub fn detailed(kind: ErrorKind, lead: &str, detail: &str) -> (res: NekoError)
    ensures
        res.says(kind, lead@ + detail@),
{
    let msg: String = lead.to_string().concat(detail);
    match kind {
        ErrorKind::Config => NekoError::Config(msg),
        ErrorKind::Database => NekoError::Database(msg),
        ErrorKind::Llm => NekoError::Llm(msg),
        ErrorKind::Transport => NekoError::Transport(msg),
        ErrorKind::Parse => NekoError::Parse(msg),
        ErrorKind::Missing => NekoError::Missing(msg),
        ErrorKind::Other => NekoError::Other(msg),
    }
}

/// An error is of the kind that it was made as, and says what it was made with.
pub proof fn law_errors_keep_kind_and_words(e: NekoError, msg: String)
    ensures
        e == NekoError::Config(msg) ==> e.says(ErrorKind::Config, msg@),
        e == NekoError::Database(msg) ==> e.says(ErrorKind::Database, msg@),
        e == NekoError::Llm(msg) ==> e.says(ErrorKind::Llm, msg@),
        e == NekoError::Transport(msg) ==> e.says(ErrorKind::Transport, msg@),
        e == NekoError::Parse(msg) ==> e.says(ErrorKind::Parse, msg@),
        e == NekoError::Missing(msg) ==> e.says(ErrorKind::Missing, msg@),
        e == NekoError::Other(msg) ==> e.says(ErrorKind::Other, msg@),
{
}

} // verus!
