//! Error type and result alias shared by the library.

use vstd::prelude::*;

use crate::text::{hex_upper, hex_upper_chars};

verus! {

/// Errors raised while attaching to the game, scanning it and hooking it.
#[derive(Debug)]
pub enum AppError {
    ProcessNotFound(String),
    AttachFailed(String),
    ReadMemoryFailed(String),
    WriteMemoryFailed(String),
    AllocFailed(String),
    PatternNotFound(String),
    HookFailed(String),
    InvalidHookConfig(String),
    RelJmpOutOfRange { from: u64, to: u64 },
    FreeFailed(String),
}

/// Convenience result type for the library.
pub type AppResult<T> = Result<T, AppError>;

/// The human-readable message of an error.
pub open spec fn error_message(e: AppError) -> Seq<char> {
    match e {
        AppError::ProcessNotFound(s) => "Process not found: "@ + s@,
        AppError::AttachFailed(s) => "Failed to attach to process: "@ + s@,
        AppError::ReadMemoryFailed(s) => "Failed to read memory: "@ + s@,
        AppError::WriteMemoryFailed(s) => "Failed to write memory: "@ + s@,
        AppError::AllocFailed(s) => "Failed to allocate memory: "@ + s@,
        AppError::PatternNotFound(s) => "AOB pattern not found: "@ + s@,
        AppError::HookFailed(s) => "Hook installation failed: "@ + s@,
        AppError::InvalidHookConfig(s) => "Invalid hook configuration: "@ + s@,
        AppError::RelJmpOutOfRange { from, to } => "Trampoline too far: from 0x"@ + hex_upper_chars(
            from as nat,
        ) + " to 0x"@ + hex_upper_chars(to as nat),
        AppError::FreeFailed(s) => "Failed to free memory: "@ + s@,
    }
}

fn prefixed(prefix: &str, detail: &String) -> (s: String)
    ensures
        s@ == prefix@ + detail@,
{
    let mut s = String::from_str(prefix);
    s.append(detail.as_str());
    s
}

impl AppError {
    /// The human-readable message of the error (what `Display` shows).
    pub fn message(&self) -> (s: String)
        ensures
            s@ == error_message(*self),
    {
        match self {
            AppError::ProcessNotFound(d) => prefixed("Process not found: ", d),
            AppError::AttachFailed(d) => prefixed("Failed to attach to process: ", d),
            AppError::ReadMemoryFailed(d) => prefixed("Failed to read memory: ", d),
            AppError::WriteMemoryFailed(d) => prefixed("Failed to write memory: ", d),
            AppError::AllocFailed(d) => prefixed("Failed to allocate memory: ", d),
            AppError::PatternNotFound(d) => prefixed("AOB pattern not found: ", d),
            AppError::HookFailed(d) => prefixed("Hook installation failed: ", d),
            AppError::InvalidHookConfig(d) => prefixed("Invalid hook configuration: ", d),
            AppError::RelJmpOutOfRange { from, to } => {
                let mut s = String::from_str("Trampoline too far: from 0x");
                let f = hex_upper(*from);
                s.append(f.as_str());
                s.append(" to 0x");
                let t = hex_upper(*to);
                s.append(t.as_str());
                s
            },
            AppError::FreeFailed(d) => prefixed("Failed to free memory: ", d),
        }
    }
}

} // verus!
