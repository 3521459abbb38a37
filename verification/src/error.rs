//! The errors of the library.
use vstd::prelude::*;

verus! {

/// `std::io::Error`, carried as it is.
#[verifier::external_type_specification]
#[verifier::external_body]
pub struct ExIoError(std::io::Error);

/// `reqwest::Error`, carried as it is.
#[verifier::external_type_specification]
#[verifier::external_body]
pub struct ExHttpError(reqwest::Error);

/// `serde_json::Error`, carried as it is.
#[verifier::external_type_specification]
#[verifier::external_body]
pub struct ExJsonError(serde_json::Error);

/// `zip::result::ZipError`, carried as it is.
#[verifier::external_type_specification]
#[verifier::external_body]
pub struct ExZipError(zip::result::ZipError);

/// Everything that can go wrong.
#[derive(Debug)]
pub enum AppError {
    Io(std::io::Error),
    Http(reqwest::Error),
    Json(serde_json::Error),
    Zip(zip::result::ZipError),
    NoMatchingAsset,
    NotRunning,
    BinaryMissing,
    Other(String),
}

} // verus!
