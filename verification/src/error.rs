//! The error taxonomy of a single capture attempt and of the record store.
use vstd::prelude::*;
use vstd::string::*;
use crate::text::dec_spec;
use crate::text::u32_string;

verus! {

/// Why a capture attempt or a store operation failed. Gate drops (pause for
/// background triggers, exclusion match) are silent and never surface here.
#[derive(Debug)]
pub enum AppError {
    /// An explicit snapshot request arrived while capturing was paused.
    Paused,
    /// The per-minute capture ceiling was reached.
    RateLimited { limit: u32 },
    /// No window matched the requested title and monitor fallback is off.
    NoCaptureTarget { title: String },
    /// The display provider failed: no monitors, or a zero-dimension image.
    CaptureProviderError { detail: String },
    /// The record store or the filesystem failed.
    StorageError { detail: String },
    /// A record with this id already exists in the store.
    DuplicateId,
}

impl AppError {
    /// A human-readable description of the failure.
    pub fn message(&self) -> (r: String)
        ensures
            match self {
                AppError::Paused => r@ == "capture paused"@,
                AppError::RateLimited { limit } => r@ == "capture rate exceeded ("@ + dec_spec(
                    *limit as int,
                ) + " per minute)"@,
                AppError::NoCaptureTarget { title } => r@ == "no window matched title '"@ + title@
                    + "' and monitor fallback disabled"@,
                AppError::CaptureProviderError { detail } => r@ == "capture provider error: "@
                    + detail@,
                AppError::StorageError { detail } => r@ == "storage error: "@ + detail@,
                AppError::DuplicateId => r@ == "duplicate record id"@,
            },
    {
        match self {
            AppError::Paused => String::from_str("capture paused"),
            AppError::RateLimited { limit } => {
                let mut s = String::from_str("capture rate exceeded (");
                s.append(u32_string(*limit).as_str());
                s.append(" per minute)");
                s
            },
            AppError::NoCaptureTarget { title } => {
                let mut s = String::from_str("no window matched title '");
                s.append(title.as_str());
                s.append("' and monitor fallback disabled");
                s
            },
            AppError::CaptureProviderError { detail } => {
                let mut s = String::from_str("capture provider error: ");
                s.append(detail.as_str());
                s
            },
            AppError::StorageError { detail } => {
                let mut s = String::from_str("storage error: ");
                s.append(detail.as_str());
                s
            },
            AppError::DuplicateId => String::from_str("duplicate record id"),
        }
    }
}

} // verus!
