//! Rjango — a Django-style web framework toolkit whose core logic is
//! specified and proved with Verus.

use vstd::prelude::*;

pub mod text;
pub mod paginator;
pub mod orm;
pub mod migrations;
pub mod forms;
pub mod cache;
pub mod signing;
pub mod exceptions;
pub mod errors;
pub mod dispatch;
pub mod signals;
pub mod http;
pub mod contenttypes;
pub mod messages;
pub mod checks;
pub mod shortcuts;
pub mod files;
pub mod storage;
pub mod staticfiles;
pub mod validators;
pub mod mail;
pub mod json;
pub mod serializers;
pub mod sessions;
pub mod settings;
pub mod apps;
pub mod handlers;
pub mod routing;
pub mod middleware;

verus! {

/// The version of the framework.
pub const VERSION: &'static str = "0.1.0";

} // verus!
