//! Why a connection ended and why an operation failed, as far as the node's
//! rules read them: the kind decides what the node does, the text is what it
//! prints.

use vstd::prelude::*;
use vstd::string::*;
use crate::codec::CodecError;
use crate::text::{push_bytes, push_str};

verus! {

/// The application code with which a duplicate connection is closed.
pub const ALREADY_CONNECTED_CODE: u64 = 1;

/// The application code with which every connection is closed at shutdown.
pub const SHUTDOWN_CODE: u64 = 2;

/// The reason given when a duplicate connection is closed.
pub const ALREADY_CONNECTED_REASON: &'static str = "already connected";

/// The reason given when the endpoint is closed at shutdown.
pub const SHUTDOWN_REASON: &'static str = "shutdown";

/// The kinds of close reason that the node tells apart.
#[derive(Clone, Copy, Debug, PartialEq, Eq)]
pub enum CloseKind {
    /// The peer's application closed the connection, with this code.
    ApplicationClosed(u64),
    /// This node closed the connection.
    LocallyClosed,
    /// The peer was silent for longer than the idle timeout.
    TimedOut,
    /// Any other reason.
    Other,
}

/// Why the transport says a connection ended.
#[derive(Debug, PartialEq, Eq)]
pub struct CloseReason {
    pub kind: CloseKind,
    /// The reason as the transport words it.
    pub text: Vec<u8>,
}

/// A failure, tagged by where it came from. Each variant but the codec's
/// holds the failure as its source words it.
#[derive(Debug, PartialEq, Eq)]
pub enum AppError {
    /// An established or half-established connection was lost.
    ConnectionError(CloseReason),
    /// A connection could not be started.
    ConnectError(Vec<u8>),
    /// A stream could not be read to its end.
    ReadToEndError(Vec<u8>),
    /// A stream could not be written.
    WriteError(Vec<u8>),
    /// Input or output failed.
    Io(Vec<u8>),
    /// A list of address records could not be decoded.
    AddressCodec(CodecError),
    /// The name of an address could not be looked up.
    Dns(Vec<u8>),
}

/// A close reason is benign when it reports a deliberate teardown: the peer
/// closed a duplicate connection, or this node closed the connection itself.
pub open spec fn benign_reason(reason: CloseReason) -> bool {
    reason.kind == CloseKind::ApplicationClosed(1) || reason.kind == CloseKind::LocallyClosed
}

/// An error is benign when it is a lost connection with a benign reason.
pub open spec fn benign_error(error: AppError) -> bool {
    match error {
        AppError::ConnectionError(reason) => benign_reason(reason),
        _ => false,
    }
}

/// Whether the reason reports a deliberate teardown, which is never logged.
pub fn is_already_open_or_locally_closed_reason(e: &CloseReason) -> (b: bool)
    ensures
        b == benign_reason(*e),
{
    match e.kind {
        CloseKind::ApplicationClosed(code) => code == ALREADY_CONNECTED_CODE,
        CloseKind::LocallyClosed => true,
        _ => false,
    }
}

/// Whether the error reports a deliberate teardown, which is never logged.
pub fn is_already_open_or_locally_closed_error(e: &AppError) -> (b: bool)
    ensures
        b == benign_error(*e),
{
    match e {
        AppError::ConnectionError(reason) => is_already_open_or_locally_closed_reason(reason),
        _ => false,
    }
}

impl CodecError {
    /// How the failure is worded.
    pub open spec fn text(&self) -> Seq<u8> {
        "malformed address record".spec_bytes()
    }
}

impl AppError {
    /// How the error is worded: the name of its source, then the failure.
    pub open spec fn text(&self) -> Seq<u8> {
        match *self {
            AppError::ConnectionError(reason) => "connection error: ".spec_bytes() + reason.text@,
            AppError::ConnectError(t) => "connect error: ".spec_bytes() + t@,
            AppError::ReadToEndError(t) => "read error: ".spec_bytes() + t@,
            AppError::WriteError(t) => "write error: ".spec_bytes() + t@,
            AppError::Io(t) => "I/O error: ".spec_bytes() + t@,
            AppError::AddressCodec(e) => "address codec error: ".spec_bytes() + e.text(),
            AppError::Dns(t) => "DNS error: ".spec_bytes() + t@,
        }
    }

    /// Appends the wording of the error to `buf`.
    pub fn write_text(&self, buf: &mut Vec<u8>)
        ensures
            final(buf)@ == old(buf)@ + self.text(),
    {
        match self {
            AppError::ConnectionError(reason) => {
                push_str(buf, "connection error: ");
                push_bytes(buf, reason.text.as_slice());
            },
            AppError::ConnectError(t) => {
                push_str(buf, "connect error: ");
                push_bytes(buf, t.as_slice());
            },
            AppError::ReadToEndError(t) => {
                push_str(buf, "read error: ");
                push_bytes(buf, t.as_slice());
            },
            AppError::WriteError(t) => {
                push_str(buf, "write error: ");
                push_bytes(buf, t.as_slice());
            },
            AppError::Io(t) => {
                push_str(buf, "I/O error: ");
                push_bytes(buf, t.as_slice());
            },
            AppError::AddressCodec(_) => {
                push_str(buf, "address codec error: ");
                push_str(buf, "malformed address record");
            },
            AppError::Dns(t) => {
                push_str(buf, "DNS error: ");
                push_bytes(buf, t.as_slice());
            },
        }
        assert(buf@ =~= old(buf)@ + self.text());
    }

    /// The wording of the error.
    pub fn message(&self) -> (v: Vec<u8>)
        ensures
            v@ == self.text(),
    {
        let mut v: Vec<u8> = Vec::new();
        self.write_text(&mut v);
        v
    }
}

} // verus!
