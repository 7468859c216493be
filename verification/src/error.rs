//! The closed set of failure kinds that cross the wire, with their numeric
//! codes and canonical texts.

use crate::json::{
    map_get, map_insert, map_new, no_fields, value_as_str, value_as_u64, value_from_string,
    value_from_u64, Json,
};
use crate::proto::{BodyView, MessageBody};
use vstd::prelude::*;
use vstd::string::*;

verus! {

/// One of the eleven failure kinds of the protocol.
#[derive(Debug, Clone, Copy, PartialEq, Eq, Structural)]
pub enum ErrorKind {
    /// The requested operation could not be completed within a timeout.
    Timeout,
    /// A request was sent to a node which does not exist.
    NodeNotFound,
    /// The requested operation is not supported by this implementation.
    NotSupported,
    /// The operation definitely cannot be performed at this time.
    TemporarilyUnavailable,
    /// The request did not conform to the server's expectations and could not
    /// have been processed.
    MalformedRequest,
    /// Some general, indefinite error occurred.
    Crash,
    /// Some general, definite error occurred: the operation has not taken place.
    Abort,
    /// An operation was requested on a key which does not exist.
    KeyDoesNotExist,
    /// The creation of a key was requested which already exists.
    KeyAlreadyExists,
    /// The operation expected some conditions to hold, and they did not.
    PreconditionFailed,
    /// The transaction was aborted because of a conflict with another one.
    TxnConflict,
}

impl ErrorKind {
    /// The numeric code of a kind on the wire.
    pub open spec fn spec_code(self) -> u8 {
        match self {
            ErrorKind::Timeout => 0,
            ErrorKind::NodeNotFound => 1,
            ErrorKind::NotSupported => 10,
            ErrorKind::TemporarilyUnavailable => 11,
            ErrorKind::MalformedRequest => 12,
            ErrorKind::Crash => 13,
            ErrorKind::Abort => 14,
            ErrorKind::KeyDoesNotExist => 20,
            ErrorKind::KeyAlreadyExists => 21,
            ErrorKind::PreconditionFailed => 22,
            ErrorKind::TxnConflict => 30,
        }
    }

    /// The kind that a numeric code stands for, if it stands for one.
    pub open spec fn spec_from_u8(code: u8) -> Option<ErrorKind> {
        if code == 0 {
            Some(ErrorKind::Timeout)
        } else if code == 1 {
            Some(ErrorKind::NodeNotFound)
        } else if code == 10 {
            Some(ErrorKind::NotSupported)
        } else if code == 11 {
            Some(ErrorKind::TemporarilyUnavailable)
        } else if code == 12 {
            Some(ErrorKind::MalformedRequest)
        } else if code == 13 {
            Some(ErrorKind::Crash)
        } else if code == 14 {
            Some(ErrorKind::Abort)
        } else if code == 20 {
            Some(ErrorKind::KeyDoesNotExist)
        } else if code == 21 {
            Some(ErrorKind::KeyAlreadyExists)
        } else if code == 22 {
            Some(ErrorKind::PreconditionFailed)
        } else if code == 30 {
            Some(ErrorKind::TxnConflict)
        } else {
            None
        }
    }

    /// The canonical description of a kind.
    pub open spec fn text(self) -> Seq<char> {
        match self {
            ErrorKind::Timeout => "timeout"@,
            ErrorKind::NodeNotFound => "node not found"@,
            ErrorKind::NotSupported => "not supported"@,
            ErrorKind::TemporarilyUnavailable => "temporarily unavailable"@,
            ErrorKind::MalformedRequest => "malformed request"@,
            ErrorKind::Crash => "crash"@,
            ErrorKind::Abort => "abort"@,
            ErrorKind::KeyDoesNotExist => "key does not exist"@,
            ErrorKind::KeyAlreadyExists => "key already exists"@,
            ErrorKind::PreconditionFailed => "precondition failed"@,
            ErrorKind::TxnConflict => "transaction conflict"@,
        }
    }

    /// The numeric code of this kind.
    pub fn code(self) -> (r: u8)
        ensures
            r == self.spec_code(),
            ErrorKind::spec_from_u8(r) == Some(self),
    {
        match self {
            ErrorKind::Timeout => 0,
            ErrorKind::NodeNotFound => 1,
            ErrorKind::NotSupported => 10,
            ErrorKind::TemporarilyUnavailable => 11,
            ErrorKind::MalformedRequest => 12,
            ErrorKind::Crash => 13,
            ErrorKind::Abort => 14,
            ErrorKind::KeyDoesNotExist => 20,
            ErrorKind::KeyAlreadyExists => 21,
            ErrorKind::PreconditionFailed => 22,
            ErrorKind::TxnConflict => 30,
        }
    }

    /// The kind with the given numeric code; `None` for a number that is no
    /// kind's code.
    pub fn from_u8(kind: u8) -> (r: Option<Self>)
        ensures
            r == ErrorKind::spec_from_u8(kind),
            r is Some <==> exists|k: ErrorKind| k.spec_code() == kind,
            r is Some ==> r.unwrap().spec_code() == kind,
    {
        proof {
            lemma_codes_decode(kind);
        }
        match kind {
            0 => Some(ErrorKind::Timeout),
            1 => Some(ErrorKind::NodeNotFound),
            10 => Some(ErrorKind::NotSupported),
            11 => Some(ErrorKind::TemporarilyUnavailable),
            12 => Some(ErrorKind::MalformedRequest),
            13 => Some(ErrorKind::Crash),
            14 => Some(ErrorKind::Abort),
            20 => Some(ErrorKind::KeyDoesNotExist),
            21 => Some(ErrorKind::KeyAlreadyExists),
            22 => Some(ErrorKind::PreconditionFailed),
            30 => Some(ErrorKind::TxnConflict),
            _ => None,
        }
    }

    /// The canonical description of this kind.
    pub fn to_string(&self) -> (r: String)
        ensures
            r@ == self.text(),
    {
        match self {
            ErrorKind::Timeout => String::from_str("timeout"),
            ErrorKind::NodeNotFound => String::from_str("node not found"),
            ErrorKind::NotSupported => String::from_str("not supported"),
            ErrorKind::TemporarilyUnavailable => String::from_str("temporarily unavailable"),
            ErrorKind::MalformedRequest => String::from_str("malformed request"),
            ErrorKind::Crash => String::from_str("crash"),
            ErrorKind::Abort => String::from_str("abort"),
            ErrorKind::KeyDoesNotExist => String::from_str("key does not exist"),
            ErrorKind::KeyAlreadyExists => String::from_str("key already exists"),
            ErrorKind::PreconditionFailed => String::from_str("precondition failed"),
            ErrorKind::TxnConflict => String::from_str("transaction conflict"),
        }
    }
}

/// A failure: its kind, and a free text that defaults to the kind's
/// canonical description.
#[derive(Debug)]
pub struct Error {
    pub kind: ErrorKind,
    pub text: String,
}

/// The mathematical content of an [`Error`].
pub struct ErrorView {
    pub kind: ErrorKind,
    pub text: Seq<char>,
}

impl View for Error {
    type V = ErrorView;

    open spec fn view(&self) -> ErrorView {
        ErrorView { kind: self.kind, text: self.text@ }
    }
}

impl Clone for Error {
    fn clone(&self) -> (r: Self)
        ensures
            r@ == self@,
    {
        Error { kind: self.kind, text: self.text.clone() }
    }
}

impl ErrorView {
    /// How an error reads: the kind's description alone where the text says
    /// nothing more, else the description, a colon and the text.
    pub open spec fn display(self) -> Seq<char> {
        if self.kind.text() == self.text {
            self.kind.text()
        } else {
            self.kind.text() + ": "@ + self.text
        }
    }
}

impl ErrorView {
    /// The body that carries an error: its type is `error`, its payload the
    /// kind's code under `code` and the text under `text`.
    pub open spec fn to_body(self) -> BodyView {
        BodyView {
            extra: no_fields().insert("code"@, Json::Int(self.kind.spec_code() as int)).insert(
                "text"@,
                Json::Str(self.text),
            ),
            ..BodyView::of_type("error"@)
        }
    }

    /// The error that a body carries: its payload must hold an integer under
    /// `code` that is the code of a kind, and a string under `text`.
    pub open spec fn from_body(b: BodyView) -> Option<ErrorView> {
        if b.extra.contains_key("code"@) && b.extra.contains_key("text"@) {
            match (b.extra["code"@], b.extra["text"@]) {
                (Json::Int(n), Json::Str(text)) if 0 <= n <= u8::MAX => match ErrorKind::spec_from_u8(
                    n as u8,
                ) {
                    Some(kind) => Some(ErrorView { kind, text }),
                    None => None,
                },
                _ => None,
            }
        } else {
            None
        }
    }
}

impl Error {
    /// The error of a kind with that kind's canonical text.
    pub open spec fn of_kind(kind: ErrorKind) -> ErrorView {
        ErrorView { kind, text: kind.text() }
    }

    /// An error of the given kind with the given text.
    pub fn new(kind: ErrorKind, text: &str) -> (r: Self)
        ensures
            r@ == (ErrorView { kind, text: text@ }),
    {
        Error { kind, text: String::from_str(text) }
    }

    /// The error for a timeout, with the kind's canonical text.
    pub fn timeout() -> (r: Self)
        ensures
            r@ == Error::of_kind(ErrorKind::Timeout),
    {
        Error { kind: ErrorKind::Timeout, text: ErrorKind::Timeout.to_string() }
    }

    /// Whether this error's kind is `Timeout`.
    pub fn is_timeout(&self) -> (r: bool)
        ensures
            r == (self.kind == ErrorKind::Timeout),
    {
        self.kind == ErrorKind::Timeout
    }

    /// The error for a missing node, with the kind's canonical text.
    pub fn node_not_found() -> (r: Self)
        ensures
            r@ == Error::of_kind(ErrorKind::NodeNotFound),
    {
        Error { kind: ErrorKind::NodeNotFound, text: ErrorKind::NodeNotFound.to_string() }
    }

    /// Whether this error's kind is `NodeNotFound`.
    pub fn is_node_not_found(&self) -> (r: bool)
        ensures
            r == (self.kind == ErrorKind::NodeNotFound),
    {
        self.kind == ErrorKind::NodeNotFound
    }

    /// The error for an unsupported operation, with the kind's canonical text.
    pub fn not_supported() -> (r: Self)
        ensures
            r@ == Error::of_kind(ErrorKind::NotSupported),
    {
        Error { kind: ErrorKind::NotSupported, text: ErrorKind::NotSupported.to_string() }
    }

    /// Whether this error's kind is `NotSupported`.
    pub fn is_not_supported(&self) -> (r: bool)
        ensures
            r == (self.kind == ErrorKind::NotSupported),
    {
        self.kind == ErrorKind::NotSupported
    }

    /// The error for a temporary unavailability, with the kind's canonical text.
    pub fn temporarily_unavailable() -> (r: Self)
        ensures
            r@ == Error::of_kind(ErrorKind::TemporarilyUnavailable),
    {
        Error { kind: ErrorKind::TemporarilyUnavailable, text: ErrorKind::TemporarilyUnavailable.to_string() }
    }

    /// Whether this error's kind is `TemporarilyUnavailable`.
    pub fn is_temporarily_unavailable(&self) -> (r: bool)
        ensures
            r == (self.kind == ErrorKind::TemporarilyUnavailable),
    {
        self.kind == ErrorKind::TemporarilyUnavailable
    }

    /// The error for a malformed request, with the kind's canonical text.
    pub fn malformed_request() -> (r: Self)
        ensures
            r@ == Error::of_kind(ErrorKind::MalformedRequest),
    {
        Error { kind: ErrorKind::MalformedRequest, text: ErrorKind::MalformedRequest.to_string() }
    }

    /// Whether this error's kind is `MalformedRequest`.
    pub fn is_malformed_request(&self) -> (r: bool)
        ensures
            r == (self.kind == ErrorKind::MalformedRequest),
    {
        self.kind == ErrorKind::MalformedRequest
    }

    /// The error for a crash, with the kind's canonical text.
    pub fn crash() -> (r: Self)
        ensures
            r@ == Error::of_kind(ErrorKind::Crash),
    {
        Error { kind: ErrorKind::Crash, text: ErrorKind::Crash.to_string() }
    }

    /// Whether this error's kind is `Crash`.
    pub fn is_crash(&self) -> (r: bool)
        ensures
            r == (self.kind == ErrorKind::Crash),
    {
        self.kind == ErrorKind::Crash
    }

    /// The error for an abort, with the kind's canonical text.
    pub fn abort() -> (r: Self)
        ensures
            r@ == Error::of_kind(ErrorKind::Abort),
    {
        Error { kind: ErrorKind::Abort, text: ErrorKind::Abort.to_string() }
    }

    /// Whether this error's kind is `Abort`.
    pub fn is_abort(&self) -> (r: bool)
        ensures
            r == (self.kind == ErrorKind::Abort),
    {
        self.kind == ErrorKind::Abort
    }

    /// The error for a missing key, with the kind's canonical text.
    pub fn key_does_not_exist() -> (r: Self)
        ensures
            r@ == Error::of_kind(ErrorKind::KeyDoesNotExist),
    {
        Error { kind: ErrorKind::KeyDoesNotExist, text: ErrorKind::KeyDoesNotExist.to_string() }
    }

    /// Whether this error's kind is `KeyDoesNotExist`.
    pub fn is_key_does_not_exist(&self) -> (r: bool)
        ensures
            r == (self.kind == ErrorKind::KeyDoesNotExist),
    {
        self.kind == ErrorKind::KeyDoesNotExist
    }

    /// The error for a key that already exists, with the kind's canonical text.
    pub fn key_already_exists() -> (r: Self)
        ensures
            r@ == Error::of_kind(ErrorKind::KeyAlreadyExists),
    {
        Error { kind: ErrorKind::KeyAlreadyExists, text: ErrorKind::KeyAlreadyExists.to_string() }
    }

    /// Whether this error's kind is `KeyAlreadyExists`.
    pub fn is_key_already_exists(&self) -> (r: bool)
        ensures
            r == (self.kind == ErrorKind::KeyAlreadyExists),
    {
        self.kind == ErrorKind::KeyAlreadyExists
    }

    /// The error for a failed precondition, with the kind's canonical text.
    pub fn precondition_failed() -> (r: Self)
        ensures
            r@ == Error::of_kind(ErrorKind::PreconditionFailed),
    {
        Error { kind: ErrorKind::PreconditionFailed, text: ErrorKind::PreconditionFailed.to_string() }
    }

    /// Whether this error's kind is `PreconditionFailed`.
    pub fn is_precondition_failed(&self) -> (r: bool)
        ensures
            r == (self.kind == ErrorKind::PreconditionFailed),
    {
        self.kind == ErrorKind::PreconditionFailed
    }

    /// The error for a transaction conflict, with the kind's canonical text.
    pub fn txn_conflict() -> (r: Self)
        ensures
            r@ == Error::of_kind(ErrorKind::TxnConflict),
    {
        Error { kind: ErrorKind::TxnConflict, text: ErrorKind::TxnConflict.to_string() }
    }

    /// Whether this error's kind is `TxnConflict`.
    pub fn is_txn_conflict(&self) -> (r: bool)
        ensures
            r == (self.kind == ErrorKind::TxnConflict),
    {
        self.kind == ErrorKind::TxnConflict
    }

    /// The body that carries this error over the wire.
    pub fn into_body(self) -> (r: MessageBody)
        ensures
            r@ == self@.to_body(),
    {
        let mut extra = map_new();
        let code: u8 = self.kind.code();
        map_insert(&mut extra, String::from_str("code"), value_from_u64(code as u64));
        map_insert(&mut extra, String::from_str("text"), value_from_string(self.text));
        MessageBody { ty: String::from_str("error"), msg_id: 0, in_reply_to: 0, extra }
    }

    /// The error that a body carries; `None` where the code or the text is
    /// missing or of another shape, or the code is no kind's.
    pub fn from_body(body: &MessageBody) -> (r: Option<Self>)
        ensures
            (match ErrorView::from_body(body@) {
                Some(e) => r is Some && r.unwrap()@ == e,
                None => r is None,
            }),
    {
        let code: u64 = match map_get(&body.extra, "code") {
            Some(v) => match value_as_u64(v) {
                Some(n) => n,
                None => {
                    return None;
                },
            },
            None => {
                return None;
            },
        };
        let text = match map_get(&body.extra, "text") {
            Some(v) => match value_as_str(v) {
                Some(s) => String::from_str(s),
                None => {
                    return None;
                },
            },
            None => {
                return None;
            },
        };
        if code > 255 {
            return None;
        }
        match ErrorKind::from_u8(code as u8) {
            Some(kind) => Some(Error { kind, text }),
            None => None,
        }
    }

    /// This error as a line of text for a person.
    pub fn to_string(&self) -> (r: String)
        ensures
            r@ == self@.display(),
    {
        let kind_str = self.kind.to_string();
        if kind_str == self.text {
            kind_str
        } else {
            let mut out = kind_str;
            out.append(": ");
            out.append(self.text.as_str());
            out
        }
    }
}

/// Encoding a kind as its code and decoding the code gives the kind back.
pub proof fn lemma_code_round_trip(kind: ErrorKind)
    ensures
        ErrorKind::spec_from_u8(kind.spec_code()) == Some(kind),
{
}

/// The body of an error carries it whole: reading the body gives the error
/// back, kind and text.
pub proof fn lemma_error_body_round_trip(e: ErrorView)
    ensures
        ErrorView::from_body(e.to_body()) == Some(e),
        e.to_body().ty == "error"@,
        e.to_body().valid(),
{
    reveal_strlit("code");
    reveal_strlit("text");
    reveal_strlit("type");
    reveal_strlit("msg_id");
    reveal_strlit("in_reply_to");
    assert("code"@.len() == 4);
    assert("text"@.len() == 4);
    assert("code"@[0] == 'c');
    assert("text"@[0] == 't');
    assert("type"@[1] == 'y');
    assert("text"@[1] == 'e');
    assert("msg_id"@.len() == 6);
    assert("in_reply_to"@.len() == 11);
    lemma_code_round_trip(e.kind);
}

/// A code decodes exactly when it is the code of some kind, and then to a
/// kind with that code: every other number is refused.
pub proof fn lemma_codes_decode(code: u8)
    ensures
        ErrorKind::spec_from_u8(code) is Some <==> exists|k: ErrorKind| k.spec_code() == code,
        ErrorKind::spec_from_u8(code) is Some ==> ErrorKind::spec_from_u8(code).unwrap().spec_code()
            == code,
{
    if ErrorKind::spec_from_u8(code) is Some {
        assert(ErrorKind::spec_from_u8(code).unwrap().spec_code() == code);
    }
    assert forall|k: ErrorKind| k.spec_code() == code implies ErrorKind::spec_from_u8(
        code,
    ) is Some by {
        lemma_code_round_trip(k);
    }
}

} // verus!
