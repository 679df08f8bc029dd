//! Connection settings and table creation statements.

use vstd::prelude::*;
use crate::orm::backend::DatabaseBackend;
use crate::orm::fields::FieldTypes;
use crate::text::{concat2, concat3, join, join_strings, nat_str, owned, str_eq, trim, trim_seq, u64_to_string, views};

verus! {

/// Database configuration: a backend and its connection URL.
#[derive(Debug, Clone)]
pub struct DatabaseConfig {
    pub backend: DatabaseBackend,
    pub url: String,
}

/// The connection URL of an SQLite database at `path`.
pub open spec fn sqlite_url(path: Seq<char>) -> Seq<char> {
    if path == ":memory:"@ { "sqlite::memory:"@ } else { "sqlite:"@ + path }
}

/// The connection URL of a PostgreSQL database.
pub open spec fn postgres_url(host: Seq<char>, port: u16, user: Seq<char>, password: Seq<char>, db: Seq<char>) -> Seq<char> {
    "postgresql://"@ + user + ":"@ + password + "@"@ + host + ":"@ + nat_str(port as nat) + "/"@ + db
}

impl DatabaseConfig {
    /// An SQLite database at `path`; `:memory:` is an in-memory database.
    pub fn sqlite(path: &str) -> (r: Self)
        ensures
            r.backend == DatabaseBackend::SQLite,
            r.url@ == sqlite_url(path@),
    {
        let url = if str_eq(path, ":memory:") { owned("sqlite::memory:") } else { concat2("sqlite:", path) };
        DatabaseConfig { backend: DatabaseBackend::SQLite, url }
    }

    /// A PostgreSQL database.
    pub fn postgres(host: &str, port: u16, user: &str, password: &str, db: &str) -> (r: Self)
        ensures
            r.backend == DatabaseBackend::PostgreSQL,
            r.url@ == postgres_url(host@, port, user@, password@, db@),
    {
        let mut url = concat3("postgresql://", user, ":");
        url.append(password);
        url.append("@");
        url.append(host);
        url.append(":");
        let p = u64_to_string(port as u64);
        url.append(p.as_str());
        url.append("/");
        url.append(db);
        DatabaseConfig { backend: DatabaseBackend::PostgreSQL, url }
    }
}

/// The column line of one field: name and type, with `PRIMARY KEY` on the
/// key field, trimmed.
pub open spec fn column_line(name: Seq<char>, ft: FieldTypes, pk_field: Seq<char>) -> Seq<char> {
    if name == pk_field {
        trim_seq("    "@ + name + " "@ + ft.column_type() + " PRIMARY KEY"@)
    } else {
        trim_seq("    "@ + name + " "@ + ft.column_type())
    }
}

/// The views of the model's fields: name and type.
pub open spec fn field_views(fields: Seq<(String, FieldTypes)>) -> Seq<(Seq<char>, FieldTypes)> {
    fields.map_values(|f: (String, FieldTypes)| (f.0@, f.1))
}

/// Some field is named `id`.
pub open spec fn has_id_field(fields: Seq<(Seq<char>, FieldTypes)>) -> bool {
    exists|i: int| 0 <= i < fields.len() && fields[i].0 == "id"@
}

/// The column lines of a table: one per field, then an automatic `id`
/// key when no field is named `id`.
pub open spec fn column_lines(fields: Seq<(Seq<char>, FieldTypes)>, pk_field: Seq<char>) -> Seq<Seq<char>> {
    let cols = fields.map_values(|f: (Seq<char>, FieldTypes)| column_line(f.0, f.1, pk_field));
    if has_id_field(fields) { cols } else { cols.push("    id INTEGER PRIMARY KEY AUTOINCREMENT"@) }
}

/// `CREATE TABLE IF NOT EXISTS table (` and the column lines, one per line.
pub open spec fn create_table_text(table: Seq<char>, fields: Seq<(Seq<char>, FieldTypes)>, pk_field: Seq<char>) -> Seq<char> {
    "CREATE TABLE IF NOT EXISTS "@ + table + " (\n"@ + join(column_lines(fields, pk_field), ",\n"@) + "\n);"@
}

/// The CREATE TABLE statement of a model with `fields` (name and type each),
/// keyed by `pk_field`. The column types are the same on every backend.
pub fn create_table_sql(table_name: &str, fields: &[(String, FieldTypes)], pk_field: &str, backend: DatabaseBackend) -> (r: String)
    ensures
        r@ == create_table_text(table_name@, field_views(fields@), pk_field@),
{
    let ghost fv = field_views(fields@);
    let ghost lines = fv.map_values(|f: (Seq<char>, FieldTypes)| column_line(f.0, f.1, pk_field@));
    let mut cols: Vec<String> = Vec::new();
    let mut has_id = false;
    let mut i: usize = 0;
    while i < fields.len()
        invariant
            i <= fields.len(),
            fv == field_views(fields@),
            lines == fv.map_values(|f: (Seq<char>, FieldTypes)| column_line(f.0, f.1, pk_field@)),
            views(cols@) == lines.take(i as int),
            has_id == (exists|j: int| 0 <= j < i && fv[j].0 == "id"@),
        decreases fields.len() - i,
    {
        let name = fields[i].0.as_str();
        let col_type = fields[i].1.sql_type(&backend);
        let mut line = concat3("    ", name, " ");
        line.append(col_type);
        if str_eq(name, pk_field) {
            line.append(" PRIMARY KEY");
        }
        let t = trim(line.as_str());
        if str_eq(name, "id") {
            has_id = true;
        }
        assert(fv[i as int] == (name@, fields@[i as int].1));
        let ghost before = cols@;
        cols.push(t);
        assert(views(cols@) =~= views(before).push(t@));
        assert(lines.take(i + 1) =~= lines.take(i as int).push(lines[i as int]));
        i = i + 1;
    }
    assert(lines.take(fields.len() as int) =~= lines);
    if !has_id {
        let ghost before = cols@;
        cols.push(owned("    id INTEGER PRIMARY KEY AUTOINCREMENT"));
        assert(views(cols@) =~= views(before).push("    id INTEGER PRIMARY KEY AUTOINCREMENT"@));
    }
    let body = join_strings(&cols, ",\n");
    let mut sql = concat3("CREATE TABLE IF NOT EXISTS ", table_name, " (\n");
    sql.append(body.as_str());
    sql.append("\n);");
    sql
}

} // verus!
