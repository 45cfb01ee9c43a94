//! Result codes and errors shared by the SDK, the CLI and the C ABI.
use vstd::prelude::*;

use crate::text::push_str;

verus! {

/// The outcome of an SDK call, as the C ABI reports it.
#[derive(Debug, Clone, Copy, PartialEq, Eq, Structural)]
pub enum ResultCode {
    Success,
    NotInitialized,
    AlreadyRunning,
    NotRunning,
    PlatformUnavailable,
    InvalidArgument,
    BackendError,
    NotFound,
    AlreadyExists,
    PermissionRequired,
    BufferTooSmall,
    Unsupported,
}

/// The human-readable text of each result code.
pub open spec fn result_message(code: ResultCode) -> Seq<char> {
    match code {
        ResultCode::Success => "ok"@,
        ResultCode::NotInitialized => "CamJongUn runtime is not initialized"@,
        ResultCode::AlreadyRunning => "stream is already running"@,
        ResultCode::NotRunning => "stream is not running"@,
        ResultCode::PlatformUnavailable => "platform backend is unavailable"@,
        ResultCode::InvalidArgument => "invalid argument"@,
        ResultCode::BackendError => "backend error"@,
        ResultCode::NotFound => "device not found"@,
        ResultCode::AlreadyExists => "device already exists"@,
        ResultCode::PermissionRequired => "permission or user approval is required"@,
        ResultCode::BufferTooSmall => "buffer is too small"@,
        ResultCode::Unsupported => "operation is unsupported"@,
    }
}

/// The number of each result code in the C ABI.
pub open spec fn result_number(code: ResultCode) -> i32 {
    match code {
        ResultCode::Success => 0,
        ResultCode::NotInitialized => 1,
        ResultCode::AlreadyRunning => 2,
        ResultCode::NotRunning => 3,
        ResultCode::PlatformUnavailable => 4,
        ResultCode::InvalidArgument => 5,
        ResultCode::BackendError => 6,
        ResultCode::NotFound => 7,
        ResultCode::AlreadyExists => 8,
        ResultCode::PermissionRequired => 9,
        ResultCode::BufferTooSmall => 10,
        ResultCode::Unsupported => 11,
    }
}

impl ResultCode {
    pub fn message(self) -> (text: &'static str)
        ensures
            text@ == result_message(self),
    {
        match self {
            ResultCode::Success => "ok",
            ResultCode::NotInitialized => "CamJongUn runtime is not initialized",
            ResultCode::AlreadyRunning => "stream is already running",
            ResultCode::NotRunning => "stream is not running",
            ResultCode::PlatformUnavailable => "platform backend is unavailable",
            ResultCode::InvalidArgument => "invalid argument",
            ResultCode::BackendError => "backend error",
            ResultCode::NotFound => "device not found",
            ResultCode::AlreadyExists => "device already exists",
            ResultCode::PermissionRequired => "permission or user approval is required",
            ResultCode::BufferTooSmall => "buffer is too small",
            ResultCode::Unsupported => "operation is unsupported",
        }
    }

    /// The code's number in the C ABI.
    pub fn number(self) -> (n: i32)
        ensures
            n == result_number(self),
    {
        match self {
            ResultCode::Success => 0,
            ResultCode::NotInitialized => 1,
            ResultCode::AlreadyRunning => 2,
            ResultCode::NotRunning => 3,
            ResultCode::PlatformUnavailable => 4,
            ResultCode::InvalidArgument => 5,
            ResultCode::BackendError => 6,
            ResultCode::NotFound => 7,
            ResultCode::AlreadyExists => 8,
            ResultCode::PermissionRequired => 9,
            ResultCode::BufferTooSmall => 10,
            ResultCode::Unsupported => 11,
        }
    }

    /// The code with the given C ABI number; an unknown number reads as a
    /// backend error.
    pub fn from_number(n: i32) -> (code: ResultCode)
        ensures
            (0 <= n <= 11) ==> result_number(code) == n,
            !(0 <= n <= 11) ==> code == ResultCode::BackendError,
    {
        match n {
            0 => ResultCode::Success,
            1 => ResultCode::NotInitialized,
            2 => ResultCode::AlreadyRunning,
            3 => ResultCode::NotRunning,
            4 => ResultCode::PlatformUnavailable,
            5 => ResultCode::InvalidArgument,
            6 => ResultCode::BackendError,
            7 => ResultCode::NotFound,
            8 => ResultCode::AlreadyExists,
            9 => ResultCode::PermissionRequired,
            10 => ResultCode::BufferTooSmall,
            11 => ResultCode::Unsupported,
            _ => ResultCode::BackendError,
        }
    }
}

/// Reading a code's number back gives the code.
pub proof fn lemma_result_number_round_trip(code: ResultCode)
    ensures
        0 <= result_number(code) <= 11,
        forall|other: ResultCode| result_number(other) == result_number(code) ==> other == code,
{
}

/// An SDK error: a result code and a free-text detail.
#[derive(Debug, Clone)]
pub struct Error {
    pub code: ResultCode,
    pub detail: String,
}

/// How an error reads: the code's message, then `": "` and the detail when
/// there is one.
pub open spec fn error_text(code: ResultCode, detail: Seq<char>) -> Seq<char> {
    if detail.len() == 0 {
        result_message(code)
    } else {
        result_message(code) + ": "@ + detail
    }
}

impl Error {
    pub fn new(code: ResultCode, detail: &str) -> (e: Error)
        ensures
            e.code == code,
            e.detail@ == detail@,
    {
        Error { code, detail: detail.to_owned() }
    }

    /// The error's text, as its display form shows it.
    pub fn to_string(&self) -> (s: String)
        ensures
            s@ == error_text(self.code, self.detail@),
    {
        let mut s = String::new();
        let msg = self.code.message();
        push_str(&mut s, msg);
        if self.detail.as_str().is_empty() {
            assert(s@ =~= result_message(self.code));
        } else {
            push_str(&mut s, ": ");
            push_str(&mut s, self.detail.as_str());
            assert(s@ =~= result_message(self.code) + ": "@ + self.detail@);
        }
        s
    }
}

/// The result type of SDK calls.
pub type CjuResult<T> = Result<T, Error>;

} // verus!
