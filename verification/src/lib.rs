//! A pooling and exclusive-access layer for slow-to-create remote value
//! handles.
//!
//! The crate keeps a registry that maps a stable identity key to a reusable
//! handle, a guard that serializes operation sequences against one handle,
//! and a sequential mailbox actor that owns a handle's connect lifecycle and
//! processes requests strictly in submission order.  The handle itself is a
//! self-contained simulated one: it echoes writes and reports a documented
//! default value, which is enough to exercise every pooling, exclusion and
//! ordering rule without a live controller.

use vstd::prelude::*;
use vstd::string::StringExecFns;

pub mod entry;
pub mod mailbox;
pub mod pool;
pub mod status;
pub mod tag;

pub use entry::TagEntry;
pub use entry::TagFactory;
pub use entry::TagOptions;
pub use pool::Pool;
pub use pool::PoolEntry;
pub use pool::TagRef;
pub use status::Status;
pub use tag::RawTag;

verus! {

/// Failures surfaced to callers of the pool, guard and mailbox operations.
///
/// `TagError` carries a native status verbatim; this layer never interprets
/// it.  `JoinError` means an offloaded blocking call's execution context
/// failed before producing a result.  `ParkError` means the cooperative wait
/// primitive itself failed; it is fatal for that one wait only.  `Other` is
/// the escape hatch for collaborator-supplied failures such as malformed
/// options.
#[derive(Debug)]
pub enum Error {
    TagError(Status),
    JoinError,
    ParkError,
    Other(String),
}

impl Error {
    /// The error rendered as text: a native failure carries its status
    /// code, a park failure its fixed wording, and an `Other` payload is
    /// returned as it was supplied.
    pub fn message(&self) -> (m: String)
        ensures
            match *self {
                Error::TagError(s) => m@ == "TagError - "@ + status::spec_decimal(
                    s.spec_code() as int,
                ),
                Error::JoinError => m@ == "offloaded call failed to complete"@,
                Error::ParkError => m@ == "Coroutine Park Error"@,
                Error::Other(s) => m@ == s@,
            },
    {
        match self {
            Error::TagError(s) => {
                let mut m = "TagError - ".to_owned();
                let code = status::decimal_string(s.code());
                m.append(code.as_str());
                m
            },
            Error::JoinError => "offloaded call failed to complete".to_owned(),
            Error::ParkError => "Coroutine Park Error".to_owned(),
            Error::Other(m) => m.clone(),
        }
    }

    /// True when the error carries a native status.
    pub fn is_tag_error(&self) -> (r: bool)
        ensures
            r == (self is TagError),
    {
        match self {
            Error::TagError(_) => true,
            _ => false,
        }
    }

    /// The native status carried by a `TagError`, if any.
    pub fn status(&self) -> (r: Option<Status>)
        ensures
            match *self {
                Error::TagError(s) => r == Some(s),
                _ => r is None,
            },
    {
        match self {
            Error::TagError(s) => Some(*s),
            _ => None,
        }
    }
}

impl From<Status> for Error {
    /// Wraps a native status unchanged.
    fn from(s: Status) -> (r: Error) {
        Error::TagError(s)
    }
}

impl vstd::std_specs::convert::FromSpecImpl<Status> for Error {
    open spec fn obeys_from_spec() -> bool {
        true
    }

    open spec fn from_spec(s: Status) -> Error {
        Error::TagError(s)
    }
}

} // verus!
