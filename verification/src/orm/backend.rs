//! Database backends and their SQL dialect details.

use vstd::prelude::*;
use crate::text::{lowercase, to_lowercase, str_eq, concat3};

verus! {

/// Database backend configuration.
#[derive(Debug, Clone, Copy, PartialEq, Eq, Structural)]
pub enum DatabaseBackend {
    SQLite,
    PostgreSQL,
    MySQL,
}

/// The backend an engine name selects (case-insensitively; anything unknown is SQLite).
pub open spec fn engine_backend(name: Seq<char>) -> DatabaseBackend {
    let l = lowercase(name);
    if l == "postgresql"@ || l == "postgres"@ {
        DatabaseBackend::PostgreSQL
    } else if l == "mysql"@ {
        DatabaseBackend::MySQL
    } else {
        DatabaseBackend::SQLite
    }
}

impl DatabaseBackend {
    /// The placeholder text of the backend.
    pub open spec fn placeholder_text(self) -> Seq<char> {
        match self {
            DatabaseBackend::SQLite => "?"@,
            DatabaseBackend::PostgreSQL => "$1"@,
            DatabaseBackend::MySQL => "?"@,
        }
    }

    /// An identifier quoted for the backend.
    pub open spec fn quoted(self, ident: Seq<char>) -> Seq<char> {
        match self {
            DatabaseBackend::MySQL => "`"@ + ident + "`"@,
            _ => "\""@ + ident + "\""@,
        }
    }

    pub fn from_engine(s: &str) -> (b: Self)
        ensures
            b == engine_backend(s@),
    {
        let l = to_lowercase(s);
        if str_eq(l.as_str(), "postgresql") || str_eq(l.as_str(), "postgres") {
            DatabaseBackend::PostgreSQL
        } else if str_eq(l.as_str(), "mysql") {
            DatabaseBackend::MySQL
        } else {
            DatabaseBackend::SQLite
        }
    }

    pub fn placeholder(&self) -> (r: &'static str)
        ensures
            r@ == self.placeholder_text(),
    {
        match self {
            DatabaseBackend::SQLite => "?",
            DatabaseBackend::PostgreSQL => "$1",
            DatabaseBackend::MySQL => "?",
        }
    }

    pub fn quote_ident(&self, ident: &str) -> (r: String)
        ensures
            r@ == self.quoted(ident@),
    {
        match self {
            DatabaseBackend::SQLite => concat3("\"", ident, "\""),
            DatabaseBackend::PostgreSQL => concat3("\"", ident, "\""),
            DatabaseBackend::MySQL => concat3("`", ident, "`"),
        }
    }
}

} // verus!
