//! The framework's central error type.

use vstd::prelude::*;
use crate::text::concat2;

verus! {

/// `std::io::Error`, carried opaquely.
#[verifier::external_type_specification]
#[verifier::external_body]
pub struct ExIoError(std::io::Error);

/// The `Display` text of an I/O error; nothing is stated of it.
#[verifier::external_body]
fn io_error_text(e: &std::io::Error) -> String {
    e.to_string()
}

/// The kinds of failure the framework reports, each with its detail.
#[derive(Debug)]
pub enum RjangoError {
    Config(String),
    Database(String),
    Io(std::io::Error),
    Serialization(String),
    NotFound(String),
    PermissionDenied(String),
    Validation(String),
    Template(String),
    Middleware(String),
    Server(String),
    Internal(String),
}

/// The prefix the error displays before its detail.
pub open spec fn error_prefix(e: &RjangoError) -> Seq<char> {
    match e {
        RjangoError::Config(_) => "Configuration error: "@,
        RjangoError::Database(_) => "Database error: "@,
        RjangoError::Io(_) => "IO error: "@,
        RjangoError::Serialization(_) => "Serialization error: "@,
        RjangoError::NotFound(_) => "Not found: "@,
        RjangoError::PermissionDenied(_) => "Permission denied: "@,
        RjangoError::Validation(_) => "Validation error: "@,
        RjangoError::Template(_) => "Template error: "@,
        RjangoError::Middleware(_) => "Middleware error: "@,
        RjangoError::Server(_) => "Server error: "@,
        RjangoError::Internal(_) => "Internal error: "@,
    }
}

/// `t` is a text the error displays: its prefix, then its detail (any
/// detail for an I/O error, whose text comes from the I/O error itself).
pub open spec fn displays_as(e: &RjangoError, t: Seq<char>) -> bool {
    match e {
        RjangoError::Io(_) => exists|detail: Seq<char>| t == error_prefix(e) + detail,
        RjangoError::Config(d) => t == error_prefix(e) + d@,
        RjangoError::Database(d) => t == error_prefix(e) + d@,
        RjangoError::Serialization(d) => t == error_prefix(e) + d@,
        RjangoError::NotFound(d) => t == error_prefix(e) + d@,
        RjangoError::PermissionDenied(d) => t == error_prefix(e) + d@,
        RjangoError::Validation(d) => t == error_prefix(e) + d@,
        RjangoError::Template(d) => t == error_prefix(e) + d@,
        RjangoError::Middleware(d) => t == error_prefix(e) + d@,
        RjangoError::Server(d) => t == error_prefix(e) + d@,
        RjangoError::Internal(d) => t == error_prefix(e) + d@,
    }
}

impl RjangoError {
    /// The text the error displays: its prefix, then its detail (for an I/O
    /// error, the I/O error's own text).
    pub fn to_string(&self) -> (r: String)
        ensures
            match self {
                RjangoError::Io(_) => exists|detail: Seq<char>| r@ == error_prefix(self) + detail,
                RjangoError::Config(d) => r@ == error_prefix(self) + d@,
                RjangoError::Database(d) => r@ == error_prefix(self) + d@,
                RjangoError::Serialization(d) => r@ == error_prefix(self) + d@,
                RjangoError::NotFound(d) => r@ == error_prefix(self) + d@,
                RjangoError::PermissionDenied(d) => r@ == error_prefix(self) + d@,
                RjangoError::Validation(d) => r@ == error_prefix(self) + d@,
                RjangoError::Template(d) => r@ == error_prefix(self) + d@,
                RjangoError::Middleware(d) => r@ == error_prefix(self) + d@,
                RjangoError::Server(d) => r@ == error_prefix(self) + d@,
                RjangoError::Internal(d) => r@ == error_prefix(self) + d@,
            },
            displays_as(self, r@),
    {
        match self {
            RjangoError::Config(d) => concat2("Configuration error: ", d.as_str()),
            RjangoError::Database(d) => concat2("Database error: ", d.as_str()),
            RjangoError::Io(e) => {
                let t = io_error_text(e);
                let r = concat2("IO error: ", t.as_str());
                assert(r@ == error_prefix(self) + t@);
                r
            },
            RjangoError::Serialization(d) => concat2("Serialization error: ", d.as_str()),
            RjangoError::NotFound(d) => concat2("Not found: ", d.as_str()),
            RjangoError::PermissionDenied(d) => concat2("Permission denied: ", d.as_str()),
            RjangoError::Validation(d) => concat2("Validation error: ", d.as_str()),
            RjangoError::Template(d) => concat2("Template error: ", d.as_str()),
            RjangoError::Middleware(d) => concat2("Middleware error: ", d.as_str()),
            RjangoError::Server(d) => concat2("Server error: ", d.as_str()),
            RjangoError::Internal(d) => concat2("Internal error: ", d.as_str()),
        }
    }
}

} // verus!
