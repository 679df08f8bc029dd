//! Error types that mirror the framework's exceptions. Each displays as its
//! name, then `: ` and its detail where it has one.

use vstd::prelude::*;
use crate::text::{concat2, owned, u64_to_string, nat_str};

verus! {
/// A model field does not exist on the model.
#[derive(Debug, Clone)]
pub struct FieldDoesNotExist(pub String);

impl FieldDoesNotExist {
    /// The text the error displays.
    pub fn to_string(&self) -> (r: String)
        ensures
            r@ == "FieldDoesNotExist: "@ + self.0@,
    {
        concat2("FieldDoesNotExist: ", self.0.as_str())
    }
}

/// The app registry has not been populated yet.
#[derive(Debug, Clone)]
pub struct AppRegistryNotReady(pub String);

impl AppRegistryNotReady {
    /// The text the error displays.
    pub fn to_string(&self) -> (r: String)
        ensures
            r@ == "AppRegistryNotReady: "@ + self.0@,
    {
        concat2("AppRegistryNotReady: ", self.0.as_str())
    }
}

/// A lookup that expected one object found none.
#[derive(Debug, Clone)]
pub struct ObjectDoesNotExist(pub String);

impl ObjectDoesNotExist {
    /// The text the error displays.
    pub fn to_string(&self) -> (r: String)
        ensures
            r@ == "ObjectDoesNotExist: "@ + self.0@,
    {
        concat2("ObjectDoesNotExist: ", self.0.as_str())
    }
}

/// A lookup that expected one object found several.
#[derive(Debug, Clone)]
pub struct MultipleObjectsReturned(pub String);

impl MultipleObjectsReturned {
    /// The text the error displays.
    pub fn to_string(&self) -> (r: String)
        ensures
            r@ == "MultipleObjectsReturned: "@ + self.0@,
    {
        concat2("MultipleObjectsReturned: ", self.0.as_str())
    }
}

/// An operation that looks like an attack.
#[derive(Debug, Clone)]
pub struct SuspiciousOperation(pub String);

impl SuspiciousOperation {
    /// The text the error displays.
    pub fn to_string(&self) -> (r: String)
        ensures
            r@ == "SuspiciousOperation: "@ + self.0@,
    {
        concat2("SuspiciousOperation: ", self.0.as_str())
    }
}

/// A multipart form that looks malformed on purpose.
#[derive(Debug, Clone)]
pub struct SuspiciousMultipartForm(pub String);

impl SuspiciousMultipartForm {
    /// The text the error displays.
    pub fn to_string(&self) -> (r: String)
        ensures
            r@ == "SuspiciousMultipartForm: "@ + self.0@,
    {
        concat2("SuspiciousMultipartForm: ", self.0.as_str())
    }
}

/// A file operation outside the allowed locations.
#[derive(Debug, Clone)]
pub struct SuspiciousFileOperation(pub String);

impl SuspiciousFileOperation {
    /// The text the error displays.
    pub fn to_string(&self) -> (r: String)
        ensures
            r@ == "SuspiciousFileOperation: "@ + self.0@,
    {
        concat2("SuspiciousFileOperation: ", self.0.as_str())
    }
}

/// A request for a host that is not allowed.
#[derive(Debug, Clone)]
pub struct DisallowedHost(pub String);

impl DisallowedHost {
    /// The text the error displays.
    pub fn to_string(&self) -> (r: String)
        ensures
            r@ == "DisallowedHost: "@ + self.0@,
    {
        concat2("DisallowedHost: ", self.0.as_str())
    }
}

/// A redirect to a scheme that is not allowed.
#[derive(Debug, Clone)]
pub struct DisallowedRedirect(pub String);

impl DisallowedRedirect {
    /// The text the error displays.
    pub fn to_string(&self) -> (r: String)
        ensures
            r@ == "DisallowedRedirect: "@ + self.0@,
    {
        concat2("DisallowedRedirect: ", self.0.as_str())
    }
}

/// A request with more fields than allowed; holds the count.
#[derive(Debug, Clone)]
pub struct TooManyFieldsSent(pub u64);

impl TooManyFieldsSent {
    /// The text the error displays.
    pub fn to_string(&self) -> (r: String)
        ensures
            r@ == "TooManyFieldsSent: "@ + nat_str(self.0 as nat),
    {
        concat2("TooManyFieldsSent: ", u64_to_string(self.0).as_str())
    }
}

/// A request with more files than allowed; holds the count.
#[derive(Debug, Clone)]
pub struct TooManyFilesSent(pub u64);

impl TooManyFilesSent {
    /// The text the error displays.
    pub fn to_string(&self) -> (r: String)
        ensures
            r@ == "TooManyFilesSent: "@ + nat_str(self.0 as nat),
    {
        concat2("TooManyFilesSent: ", u64_to_string(self.0).as_str())
    }
}

/// A request body larger than allowed.
#[derive(Debug, Clone)]
pub struct RequestDataTooBig(pub String);

impl RequestDataTooBig {
    /// The text the error displays.
    pub fn to_string(&self) -> (r: String)
        ensures
            r@ == "RequestDataTooBig: "@ + self.0@,
    {
        concat2("RequestDataTooBig: ", self.0.as_str())
    }
}

/// The client went away during the request.
#[derive(Debug, Clone)]
pub struct RequestAborted(pub String);

impl RequestAborted {
    /// The text the error displays.
    pub fn to_string(&self) -> (r: String)
        ensures
            r@ == "RequestAborted: "@ + self.0@,
    {
        concat2("RequestAborted: ", self.0.as_str())
    }
}

/// A malformed request.
#[derive(Debug, Clone)]
pub struct BadRequest(pub String);

impl BadRequest {
    /// The text the error displays.
    pub fn to_string(&self) -> (r: String)
        ensures
            r@ == "BadRequest: "@ + self.0@,
    {
        concat2("BadRequest: ", self.0.as_str())
    }
}

/// A view named in the configuration does not exist.
#[derive(Debug, Clone)]
pub struct ViewDoesNotExist(pub String);

impl ViewDoesNotExist {
    /// The text the error displays.
    pub fn to_string(&self) -> (r: String)
        ensures
            r@ == "ViewDoesNotExist: "@ + self.0@,
    {
        concat2("ViewDoesNotExist: ", self.0.as_str())
    }
}

/// A middleware asked to be left out.
#[derive(Debug, Clone)]
pub struct MiddlewareNotUsed(pub String);

impl MiddlewareNotUsed {
    /// The text the error displays.
    pub fn to_string(&self) -> (r: String)
        ensures
            r@ == "MiddlewareNotUsed: "@ + self.0@,
    {
        concat2("MiddlewareNotUsed: ", self.0.as_str())
    }
}

/// The settings are inconsistent.
#[derive(Debug, Clone)]
pub struct ImproperlyConfigured(pub String);

impl ImproperlyConfigured {
    /// The text the error displays.
    pub fn to_string(&self) -> (r: String)
        ensures
            r@ == "ImproperlyConfigured: "@ + self.0@,
    {
        concat2("ImproperlyConfigured: ", self.0.as_str())
    }
}

/// A query names a field in a way that is not allowed.
#[derive(Debug, Clone)]
pub struct FieldError(pub String);

impl FieldError {
    /// The text the error displays.
    pub fn to_string(&self) -> (r: String)
        ensures
            r@ == "FieldError: "@ + self.0@,
    {
        concat2("FieldError: ", self.0.as_str())
    }
}

/// A query that can match nothing.
#[derive(Debug, Clone)]
pub struct EmptyResultSet;

impl EmptyResultSet {
    /// The text the error displays.
    pub fn to_string(&self) -> (r: String)
        ensures
            r@ == "EmptyResultSet"@,
    {
        owned("EmptyResultSet")
    }
}

/// A query that matches every row.
#[derive(Debug, Clone)]
pub struct FullResultSet;

impl FullResultSet {
    /// The text the error displays.
    pub fn to_string(&self) -> (r: String)
        ensures
            r@ == "FullResultSet"@,
    {
        owned("FullResultSet")
    }
}

/// A blocking operation called from asynchronous code.
#[derive(Debug, Clone)]
pub struct SynchronousOnlyOperation(pub String);

impl SynchronousOnlyOperation {
    /// The text the error displays.
    pub fn to_string(&self) -> (r: String)
        ensures
            r@ == "SynchronousOnlyOperation: "@ + self.0@,
    {
        concat2("SynchronousOnlyOperation: ", self.0.as_str())
    }
}

} // verus!
