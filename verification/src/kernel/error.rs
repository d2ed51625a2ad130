//! The one error type that crosses a module boundary.
use vstd::prelude::*;
use vstd::string::*;

verus! {

/// The error every operation returns. The variants are sentinels a caller
/// can match on: not found, invalid input, a dependency that is not
/// reachable right now, a cancellation, and everything else.
#[derive(Debug, Clone)]
pub enum Error {
    /// An addressed entity does not exist: a model, a file, a runtime.
    NotFound(String),
    /// Input failed validation; a caller mistake.
    Invalid(String),
    /// A dependency is not reachable right now; the message says what to do.
    Unavailable(String),
    /// The caller asked to stop.
    Cancelled,
    /// Everything else: `context` locates the failure, `source` keeps the
    /// underlying error's text.
    Internal { context: String, source: Option<String> },
}

/// The result type every operation returns.
pub type Result<T> = core::result::Result<T, Error>;

/// The text of an error as it is shown to a person.
pub open spec fn error_text(e: Error) -> Seq<char> {
    match e {
        Error::NotFound(m) => "not found: "@ + m@,
        Error::Invalid(m) => "invalid: "@ + m@,
        Error::Unavailable(m) => "unavailable: "@ + m@,
        Error::Cancelled => "cancelled"@,
        Error::Internal { context, source } => match source {
            Some(s) => context@ + ": "@ + s@,
            None => context@,
        },
    }
}

impl Error {
    pub fn not_found(msg: &str) -> (e: Self)
        ensures
            e matches Error::NotFound(m) && m@ == msg@,
    {
        Error::NotFound(msg.to_owned())
    }

    pub fn invalid(msg: &str) -> (e: Self)
        ensures
            e matches Error::Invalid(m) && m@ == msg@,
    {
        Error::Invalid(msg.to_owned())
    }

    pub fn unavailable(msg: &str) -> (e: Self)
        ensures
            e matches Error::Unavailable(m) && m@ == msg@,
    {
        Error::Unavailable(msg.to_owned())
    }

    pub fn internal(context: &str) -> (e: Self)
        ensures
            e matches Error::Internal { context: c, source: None } && c@ == context@,
    {
        Error::Internal { context: context.to_owned(), source: None }
    }

    /// Wrap an underlying error's text with enough context to locate the
    /// failure: `Error::wrap("reading tensor blk.3.attn_q.weight", &e)`.
    pub fn wrap(context: &str, source: &str) -> (e: Self)
        ensures
            e matches Error::Internal { context: c, source: Some(s) } && c@ == context@ && s@
                == source@,
    {
        Error::Internal { context: context.to_owned(), source: Some(source.to_owned()) }
    }

    /// The process exit code for a failure of this kind: 2 for invalid
    /// input, 3 for something not found, 4 for an unavailable dependency,
    /// 130 for a cancellation (as for an interrupt), 1 for anything else.
    pub fn exit_code(&self) -> (c: i32)
        ensures
            c == match *self {
                Error::Invalid(_) => 2i32,
                Error::NotFound(_) => 3i32,
                Error::Unavailable(_) => 4i32,
                Error::Cancelled => 130i32,
                Error::Internal { .. } => 1i32,
            },
    {
        match self {
            Error::Invalid(_) => 2,
            Error::NotFound(_) => 3,
            Error::Unavailable(_) => 4,
            Error::Cancelled => 130,
            Error::Internal { .. } => 1,
        }
    }

    pub fn is_cancelled(&self) -> (b: bool)
        ensures
            b == (self is Cancelled),
    {
        match self {
            Error::Cancelled => true,
            _ => false,
        }
    }

    /// The message a person reads: `"not found: <what>"`, or
    /// `"<context>: <source>"` for an internal failure.
    pub fn message(&self) -> (s: String)
        ensures
            s@ == error_text(*self),
    {
        match self {
            Error::NotFound(m) => {
                let mut s = "not found: ".to_owned();
                s.append(m.as_str());
                s
            },
            Error::Invalid(m) => {
                let mut s = "invalid: ".to_owned();
                s.append(m.as_str());
                s
            },
            Error::Unavailable(m) => {
                let mut s = "unavailable: ".to_owned();
                s.append(m.as_str());
                s
            },
            Error::Cancelled => "cancelled".to_owned(),
            Error::Internal { context, source } => {
                let mut s = context.clone();
                match source {
                    Some(src) => {
                        s.append(": ");
                        s.append(src.as_str());
                    },
                    None => {},
                }
                s
            },
        }
    }

    /// The underlying error's text, where there is one.
    pub fn source(&self) -> (s: Option<String>)
        ensures
            s == (match *self {
                Error::Internal { source, .. } => source,
                _ => None,
            }),
    {
        match self {
            Error::Internal { source, .. } => source.clone(),
            _ => None,
        }
    }
}

} // verus!
