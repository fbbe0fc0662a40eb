use vstd::prelude::*;

verus! {

/// The errors of the Maelstrom protocol. Each standard error has a fixed
/// numeric code and name; `Other` carries a code outside the standard table
/// together with the text that came with it.
#[derive(Debug, Clone, PartialEq, Eq)]
pub enum Error {
    Timeout,
    NodeNotFound,
    NotSupported,
    TemporarilyUnavailable,
    MalformedRequest,
    Crash,
    Abort,
    KeyDoesNotExist,
    KeyAlreadyExists,
    PreconditionFailed,
    TxnConflict,
    Other { code: i32, text: String },
}

/// Whether `code` is one of the codes of the standard error table.
pub open spec fn is_standard_code(code: i32) -> bool {
    code == 0 || code == 1 || code == 10 || code == 11 || code == 12 || code == 13
        || code == 14 || code == 20 || code == 21 || code == 22 || code == 30
}

/// The error that a code and a text denote: the standard error of that code,
/// or `Other` with both when the code is not standard.
pub open spec fn error_of_code(code: i32, text: String) -> Error {
    if code == 0 {
        Error::Timeout
    } else if code == 1 {
        Error::NodeNotFound
    } else if code == 10 {
        Error::NotSupported
    } else if code == 11 {
        Error::TemporarilyUnavailable
    } else if code == 12 {
        Error::MalformedRequest
    } else if code == 13 {
        Error::Crash
    } else if code == 14 {
        Error::Abort
    } else if code == 20 {
        Error::KeyDoesNotExist
    } else if code == 21 {
        Error::KeyAlreadyExists
    } else if code == 22 {
        Error::PreconditionFailed
    } else if code == 30 {
        Error::TxnConflict
    } else {
        Error::Other { code, text }
    }
}

impl Error {
    /// An error is well formed when an `Other` error does not use a standard code.
    pub open spec fn wf(self) -> bool {
        match self {
            Error::Other { code, .. } => !is_standard_code(code),
            _ => true,
        }
    }

    pub open spec fn spec_code(self) -> i32 {
        match self {
            Error::Timeout => 0,
            Error::NodeNotFound => 1,
            Error::NotSupported => 10,
            Error::TemporarilyUnavailable => 11,
            Error::MalformedRequest => 12,
            Error::Crash => 13,
            Error::Abort => 14,
            Error::KeyDoesNotExist => 20,
            Error::KeyAlreadyExists => 21,
            Error::PreconditionFailed => 22,
            Error::TxnConflict => 30,
            Error::Other { code, .. } => code,
        }
    }

    pub open spec fn spec_description(self) -> Seq<char> {
        match self {
            Error::Timeout => "timeout"@,
            Error::NodeNotFound => "node-not-found"@,
            Error::NotSupported => "not-supported"@,
            Error::TemporarilyUnavailable => "temporarily-unavailable"@,
            Error::MalformedRequest => "malformed-request"@,
            Error::Crash => "crash"@,
            Error::Abort => "abort"@,
            Error::KeyDoesNotExist => "key-does-not-exist"@,
            Error::KeyAlreadyExists => "key-already-exists"@,
            Error::PreconditionFailed => "precondition-failed"@,
            Error::TxnConflict => "txn-conflict"@,
            Error::Other { text, .. } => text@,
        }
    }

    /// The numeric code of the error.
    pub fn code(&self) -> (c: i32)
        ensures
            c == self.spec_code(),
    {
        match self {
            Error::Timeout => 0,
            Error::NodeNotFound => 1,
            Error::NotSupported => 10,
            Error::TemporarilyUnavailable => 11,
            Error::MalformedRequest => 12,
            Error::Crash => 13,
            Error::Abort => 14,
            Error::KeyDoesNotExist => 20,
            Error::KeyAlreadyExists => 21,
            Error::PreconditionFailed => 22,
            Error::TxnConflict => 30,
            Error::Other { code, .. } => *code,
        }
    }

    /// The name of a standard error, or the text of an `Other` error.
    pub fn description(&self) -> (d: &str)
        ensures
            d@ == self.spec_description(),
    {
        match self {
            Error::Timeout => "timeout",
            Error::NodeNotFound => "node-not-found",
            Error::NotSupported => "not-supported",
            Error::TemporarilyUnavailable => "temporarily-unavailable",
            Error::MalformedRequest => "malformed-request",
            Error::Crash => "crash",
            Error::Abort => "abort",
            Error::KeyDoesNotExist => "key-does-not-exist",
            Error::KeyAlreadyExists => "key-already-exists",
            Error::PreconditionFailed => "precondition-failed",
            Error::TxnConflict => "txn-conflict",
            Error::Other { text, .. } => text.as_str(),
        }
    }

    /// The error that a received error payload denotes.
    pub fn from_code_message(code: i32, text: String) -> (e: Error)
        ensures
            e == error_of_code(code, text),
            e.wf(),
    {
        match code {
            0 => Error::Timeout,
            1 => Error::NodeNotFound,
            10 => Error::NotSupported,
            11 => Error::TemporarilyUnavailable,
            12 => Error::MalformedRequest,
            13 => Error::Crash,
            14 => Error::Abort,
            20 => Error::KeyDoesNotExist,
            21 => Error::KeyAlreadyExists,
            22 => Error::PreconditionFailed,
            30 => Error::TxnConflict,
            _ => Error::Other { code, text },
        }
    }
}

/// A code names one error: two well-formed errors with the same code are
/// the same standard error, or both carry that code outside the standard
/// table; the error read from a code has that code, and a standard code reads
/// as the error whatever text comes with it.
pub proof fn lemma_codes_identify_errors(e1: Error, e2: Error, code: i32, text: String)
    requires
        e1.wf(),
        e2.wf(),
    ensures
        e1.spec_code() == e2.spec_code() && !(e1 is Other) ==> e1 == e2,
        e1.spec_code() == e2.spec_code() && e1 is Other ==> e2 is Other,
        error_of_code(code, text).spec_code() == code,
        error_of_code(code, text).wf(),
        is_standard_code(code) ==> !(error_of_code(code, text) is Other),
        !is_standard_code(code) ==> error_of_code(code, text).spec_description() == text@,
        !(e1 is Other) ==> is_standard_code(e1.spec_code()) && error_of_code(e1.spec_code(), text)
            == e1,
{
}

} // verus!
