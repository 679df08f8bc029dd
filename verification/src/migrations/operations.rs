//! Migration operations (`migrations.CreateModel`, `migrations.AddField`, ...).

use vstd::prelude::*;
use crate::orm::backend::DatabaseBackend;
use crate::text::{
    concat2, concat3, join, join_strings, lowercase, nat_str, owned, to_lowercase, usize_to_string,
    views,
};

pub use crate::orm::fields::FieldTypes;

verus! {

/// A single migration operation.
#[derive(Debug, Clone)]
pub enum MigrationOperation {
    CreateModel { name: String, fields: Vec<MigrationField>, options: ModelOptions },
    DeleteModel { name: String },
    RenameModel { old_name: String, new_name: String },
    AddField { model_name: String, field: MigrationField },
    RemoveField { model_name: String, field_name: String },
    AlterField { model_name: String, field: MigrationField },
    RenameField { model_name: String, old_name: String, new_name: String },
    AddIndex { model_name: String, index_name: String, fields: Vec<String> },
    RemoveIndex { model_name: String, index_name: String },
    RunSQL { sql: String, reverse_sql: Option<String> },
}

/// A field definition within a migration.
#[derive(Debug, Clone)]
pub struct MigrationField {
    pub name: String,
    pub field_type: FieldTypes,
    pub null: bool,
    pub primary_key: bool,
    pub unique: bool,
    pub default: Option<String>,
    pub max_length: Option<usize>,
}

/// Model options (Django's `Meta` options).
#[derive(Debug, Clone)]
pub struct ModelOptions {
    pub table_name: Option<String>,
    pub ordering: Option<Vec<String>>,
    pub verbose_name: Option<String>,
    pub verbose_name_plural: Option<String>,
}

impl Default for ModelOptions {
    fn default() -> (o: Self)
        ensures
            o.table_name is None,
            o.ordering is None,
            o.verbose_name is None,
            o.verbose_name_plural is None,
    {
        ModelOptions { table_name: None, ordering: None, verbose_name: None, verbose_name_plural: None }
    }
}

/// `str`'s `Debug` text of `s`: quoted, with escapes.
pub uninterp spec fn str_debug(s: Seq<char>) -> Seq<char>;

/// `format!("{:?}", s)` for a string slice: its `Debug` text, a function of `s` alone.
#[verifier::external_body]
fn debug_quoted(s: &str) -> (r: String)
    ensures
        r@ == str_debug(s@),
{
    format!("{:?}", s)
}

/// The name of a field type, as its `Debug` text writes it.
pub open spec fn field_type_name(t: FieldTypes) -> Seq<char> {
    match t {
        FieldTypes::AutoField => "AutoField"@,
        FieldTypes::BigAutoField => "BigAutoField"@,
        FieldTypes::SmallAutoField => "SmallAutoField"@,
        FieldTypes::CharField => "CharField"@,
        FieldTypes::TextField => "TextField"@,
        FieldTypes::IntegerField => "IntegerField"@,
        FieldTypes::BigIntegerField => "BigIntegerField"@,
        FieldTypes::PositiveBigIntegerField => "PositiveBigIntegerField"@,
        FieldTypes::FloatField => "FloatField"@,
        FieldTypes::DecimalField => "DecimalField"@,
        FieldTypes::BooleanField => "BooleanField"@,
        FieldTypes::NullBooleanField => "NullBooleanField"@,
        FieldTypes::DateTimeField => "DateTimeField"@,
        FieldTypes::DateField => "DateField"@,
        FieldTypes::TimeField => "TimeField"@,
        FieldTypes::EmailField => "EmailField"@,
        FieldTypes::URLField => "URLField"@,
        FieldTypes::SlugField => "SlugField"@,
        FieldTypes::UUIDField => "UUIDField"@,
        FieldTypes::IPAddressField => "IPAddressField"@,
        FieldTypes::GenericIPAddressField => "GenericIPAddressField"@,
        FieldTypes::DurationField => "DurationField"@,
        FieldTypes::JSONField => "JSONField"@,
        FieldTypes::BinaryField => "BinaryField"@,
        FieldTypes::CommaSeparatedIntegerField => "CommaSeparatedIntegerField"@,
        FieldTypes::FileField => "FileField"@,
        FieldTypes::ImageField => "ImageField"@,
        FieldTypes::FilePathField => "FilePathField"@,
        FieldTypes::SmallIntegerField => "SmallIntegerField"@,
        FieldTypes::PositiveIntegerField => "PositiveIntegerField"@,
        FieldTypes::PositiveSmallIntegerField => "PositiveSmallIntegerField"@,
        FieldTypes::ForeignKey => "ForeignKey"@,
        FieldTypes::OneToOneField => "OneToOneField"@,
        FieldTypes::ManyToManyField => "ManyToManyField"@,
    }
}

fn field_type_debug(t: FieldTypes) -> (r: &'static str)
    ensures
        r@ == field_type_name(t),
{
    match t {
        FieldTypes::AutoField => "AutoField",
        FieldTypes::BigAutoField => "BigAutoField",
        FieldTypes::SmallAutoField => "SmallAutoField",
        FieldTypes::CharField => "CharField",
        FieldTypes::TextField => "TextField",
        FieldTypes::IntegerField => "IntegerField",
        FieldTypes::BigIntegerField => "BigIntegerField",
        FieldTypes::PositiveBigIntegerField => "PositiveBigIntegerField",
        FieldTypes::FloatField => "FloatField",
        FieldTypes::DecimalField => "DecimalField",
        FieldTypes::BooleanField => "BooleanField",
        FieldTypes::NullBooleanField => "NullBooleanField",
        FieldTypes::DateTimeField => "DateTimeField",
        FieldTypes::DateField => "DateField",
        FieldTypes::TimeField => "TimeField",
        FieldTypes::EmailField => "EmailField",
        FieldTypes::URLField => "URLField",
        FieldTypes::SlugField => "SlugField",
        FieldTypes::UUIDField => "UUIDField",
        FieldTypes::IPAddressField => "IPAddressField",
        FieldTypes::GenericIPAddressField => "GenericIPAddressField",
        FieldTypes::DurationField => "DurationField",
        FieldTypes::JSONField => "JSONField",
        FieldTypes::BinaryField => "BinaryField",
        FieldTypes::CommaSeparatedIntegerField => "CommaSeparatedIntegerField",
        FieldTypes::FileField => "FileField",
        FieldTypes::ImageField => "ImageField",
        FieldTypes::FilePathField => "FilePathField",
        FieldTypes::SmallIntegerField => "SmallIntegerField",
        FieldTypes::PositiveIntegerField => "PositiveIntegerField",
        FieldTypes::PositiveSmallIntegerField => "PositiveSmallIntegerField",
        FieldTypes::ForeignKey => "ForeignKey",
        FieldTypes::OneToOneField => "OneToOneField",
        FieldTypes::ManyToManyField => "ManyToManyField",
    }
}

/// `Debug` text of a boolean.
pub open spec fn bool_debug(b: bool) -> Seq<char> {
    if b { "true"@ } else { "false"@ }
}

/// `Debug` text of an optional string.
pub open spec fn opt_str_debug(o: Option<String>) -> Seq<char> {
    match o {
        Some(s) => "Some("@ + str_debug(s@) + ")"@,
        None => "None"@,
    }
}

/// `Debug` text of an optional count.
pub open spec fn opt_usize_debug(o: Option<usize>) -> Seq<char> {
    match o {
        Some(n) => "Some("@ + nat_str(n as nat) + ")"@,
        None => "None"@,
    }
}

/// `Debug` text of a list of strings.
pub open spec fn str_list_debug(v: Seq<String>) -> Seq<char> {
    "["@ + join(v.map_values(|s: String| str_debug(s@)), ", "@) + "]"@
}

/// `Debug` text of a migration field.
pub open spec fn field_debug(f: MigrationField) -> Seq<char> {
    "MigrationField { name: "@ + str_debug(f.name@)
        + ", field_type: "@ + field_type_name(f.field_type)
        + ", null: "@ + bool_debug(f.null)
        + ", primary_key: "@ + bool_debug(f.primary_key)
        + ", unique: "@ + bool_debug(f.unique)
        + ", default: "@ + opt_str_debug(f.default)
        + ", max_length: "@ + opt_usize_debug(f.max_length) + " }"@
}

/// The column definition of a field in a CREATE TABLE.
pub open spec fn column_def(f: MigrationField) -> Seq<char> {
    f.name@ + " "@ + f.field_type.column_type()
        + (if f.primary_key { " PRIMARY KEY"@ } else { Seq::<char>::empty() })
        + (if !f.null { " NOT NULL"@ } else { Seq::<char>::empty() })
        + (if f.unique { " UNIQUE"@ } else { Seq::<char>::empty() })
        + (match f.default { Some(d) => " DEFAULT "@ + d@, None => Seq::<char>::empty() })
}

/// Law: a field's column is declared `NOT NULL` exactly when the field is not
/// nullable: the column of the non-nullable field is that of the same field
/// made nullable with ` NOT NULL` put in at one place, and nothing else
/// changes.
pub proof fn law_not_null_iff_not_nullable(f: MigrationField)
    ensures
        exists|a: Seq<char>, b: Seq<char>| {
            &&& column_def(MigrationField { null: true, ..f }) == a + b
            &&& column_def(MigrationField { null: false, ..f }) == a + " NOT NULL"@ + b
        },
{
    let g = MigrationField { null: true, ..f };
    let h = MigrationField { null: false, ..f };
    let a = f.name@ + " "@ + f.field_type.column_type()
        + (if f.primary_key { " PRIMARY KEY"@ } else { Seq::<char>::empty() });
    let b = (if f.unique { " UNIQUE"@ } else { Seq::<char>::empty() })
        + (match f.default { Some(d) => " DEFAULT "@ + d@, None => Seq::<char>::empty() });
    assert(column_def(g) =~= a + b);
    assert(column_def(h) =~= a + " NOT NULL"@ + b);
}

/// The column definitions of a sequence of fields.
pub open spec fn column_defs(fs: Seq<MigrationField>) -> Seq<Seq<char>> {
    fs.map_values(|f: MigrationField| column_def(f))
}

/// The statements an operation produces.
pub open spec fn operation_sql(op: MigrationOperation) -> Seq<Seq<char>> {
    match op {
        MigrationOperation::CreateModel { name, fields, options } =>
            seq!["CREATE TABLE "@ + lowercase(name@) + " ("@ + join(column_defs(fields@), ", "@) + ")"@],
        MigrationOperation::DeleteModel { name } => seq!["DROP TABLE "@ + lowercase(name@)],
        MigrationOperation::AddField { model_name, field } =>
            seq!["ALTER TABLE "@ + lowercase(model_name@) + " ADD COLUMN "@ + field.name@ + " "@
                + field.field_type.column_type()
                + (if field.primary_key { " PRIMARY KEY"@ } else { Seq::<char>::empty() })
                + (if !field.null { " NOT NULL"@ } else { Seq::<char>::empty() })],
        MigrationOperation::RemoveField { model_name, field_name } =>
            seq!["ALTER TABLE "@ + lowercase(model_name@) + " DROP COLUMN "@ + field_name@],
        MigrationOperation::RunSQL { sql, reverse_sql } => seq![sql@],
        _ => seq!["-- Unimplemented operation: "@ + operation_debug(op)],
    }
}

/// `Debug` text of the operations that have no SQL rendering.
pub open spec fn operation_debug(op: MigrationOperation) -> Seq<char> {
    match op {
        MigrationOperation::RenameModel { old_name, new_name } =>
            "RenameModel { old_name: "@ + str_debug(old_name@) + ", new_name: "@ + str_debug(new_name@) + " }"@,
        MigrationOperation::AlterField { model_name, field } =>
            "AlterField { model_name: "@ + str_debug(model_name@) + ", field: "@ + field_debug(field) + " }"@,
        MigrationOperation::RenameField { model_name, old_name, new_name } =>
            "RenameField { model_name: "@ + str_debug(model_name@) + ", old_name: "@ + str_debug(old_name@)
                + ", new_name: "@ + str_debug(new_name@) + " }"@,
        MigrationOperation::AddIndex { model_name, index_name, fields } =>
            "AddIndex { model_name: "@ + str_debug(model_name@) + ", index_name: "@ + str_debug(index_name@)
                + ", fields: "@ + str_list_debug(fields@) + " }"@,
        MigrationOperation::RemoveIndex { model_name, index_name } =>
            "RemoveIndex { model_name: "@ + str_debug(model_name@) + ", index_name: "@ + str_debug(index_name@) + " }"@,
        _ => Seq::empty(),
    }
}

fn bool_text(b: bool) -> (r: &'static str)
    ensures
        r@ == bool_debug(b),
{
    if b { "true" } else { "false" }
}

fn opt_str_text(o: &Option<String>) -> (r: String)
    ensures
        r@ == opt_str_debug(*o),
{
    match o {
        Some(s) => {
            let q = debug_quoted(s.as_str());
            concat3("Some(", q.as_str(), ")")
        }
        None => owned("None"),
    }
}

fn opt_usize_text(o: Option<usize>) -> (r: String)
    ensures
        r@ == opt_usize_debug(o),
{
    match o {
        Some(n) => {
            let d = usize_to_string(n);
            concat3("Some(", d.as_str(), ")")
        }
        None => owned("None"),
    }
}

fn str_list_text(v: &Vec<String>) -> (r: String)
    ensures
        r@ == str_list_debug(v@),
{
    let mut parts: Vec<String> = Vec::new();
    let mut i: usize = 0;
    while i < v.len()
        invariant
            i <= v.len(),
            views(parts@) == v@.take(i as int).map_values(|s: String| str_debug(s@)),
        decreases v.len() - i,
    {
        let ghost before = views(parts@);
        let q = debug_quoted(v[i].as_str());
        parts.push(q);
        assert(views(parts@) =~= before.push(q@));
        assert(v@.take(i + 1) =~= v@.take(i as int).push(v@[i as int]));
        i = i + 1;
    }
    assert(v@.take(v.len() as int) =~= v@);
    let joined = join_strings(&parts, ", ");
    concat3("[", joined.as_str(), "]")
}

/// Appends `a` then `b` to `s`.
fn push2(s: &mut String, a: &str, b: &str)
    ensures
        final(s)@ == old(s)@ + a@ + b@,
{
    s.append(a);
    s.append(b);
}

impl MigrationField {
    /// An exact copy of the field.
    pub fn duplicate(&self) -> (f: Self)
        ensures
            f == *self,
    {
        MigrationField {
            name: self.name.clone(),
            field_type: self.field_type,
            null: self.null,
            primary_key: self.primary_key,
            unique: self.unique,
            default: match &self.default { Some(d) => Some(d.clone()), None => None },
            max_length: self.max_length,
        }
    }

    fn debug_text(&self) -> (r: String)
        ensures
            r@ == field_debug(*self),
    {
        let mut r = owned("MigrationField { name: ");
        let q = debug_quoted(self.name.as_str());
        push2(&mut r, q.as_str(), ", field_type: ");
        push2(&mut r, field_type_debug(self.field_type), ", null: ");
        push2(&mut r, bool_text(self.null), ", primary_key: ");
        push2(&mut r, bool_text(self.primary_key), ", unique: ");
        push2(&mut r, bool_text(self.unique), ", default: ");
        let d = opt_str_text(&self.default);
        push2(&mut r, d.as_str(), ", max_length: ");
        let m = opt_usize_text(self.max_length);
        push2(&mut r, m.as_str(), " }");
        r
    }

    fn column_sql(&self) -> (r: String)
        ensures
            r@ == column_def(*self),
    {
        let mut col = concat3(self.name.as_str(), " ", self.field_type.sql_type(&DatabaseBackend::SQLite));
        if self.primary_key {
            col.append(" PRIMARY KEY");
        }
        if !self.null {
            col.append(" NOT NULL");
        }
        if self.unique {
            col.append(" UNIQUE");
        }
        match &self.default {
            Some(d) => { push2(&mut col, " DEFAULT ", d.as_str()); }
            None => {}
        }
        col
    }
}

impl MigrationOperation {
    fn debug_text(&self) -> (r: String)
        ensures
            r@ == operation_debug(*self),
    {
        match self {
            MigrationOperation::RenameModel { old_name, new_name } => {
                let mut r = owned("RenameModel { old_name: ");
                push2(&mut r, debug_quoted(old_name.as_str()).as_str(), ", new_name: ");
                push2(&mut r, debug_quoted(new_name.as_str()).as_str(), " }");
                r
            }
            MigrationOperation::AlterField { model_name, field } => {
                let mut r = owned("AlterField { model_name: ");
                push2(&mut r, debug_quoted(model_name.as_str()).as_str(), ", field: ");
                push2(&mut r, field.debug_text().as_str(), " }");
                r
            }
            MigrationOperation::RenameField { model_name, old_name, new_name } => {
                let mut r = owned("RenameField { model_name: ");
                push2(&mut r, debug_quoted(model_name.as_str()).as_str(), ", old_name: ");
                push2(&mut r, debug_quoted(old_name.as_str()).as_str(), ", new_name: ");
                push2(&mut r, debug_quoted(new_name.as_str()).as_str(), " }");
                r
            }
            MigrationOperation::AddIndex { model_name, index_name, fields } => {
                let mut r = owned("AddIndex { model_name: ");
                push2(&mut r, debug_quoted(model_name.as_str()).as_str(), ", index_name: ");
                push2(&mut r, debug_quoted(index_name.as_str()).as_str(), ", fields: ");
                push2(&mut r, str_list_text(fields).as_str(), " }");
                r
            }
            MigrationOperation::RemoveIndex { model_name, index_name } => {
                let mut r = owned("RemoveIndex { model_name: ");
                push2(&mut r, debug_quoted(model_name.as_str()).as_str(), ", index_name: ");
                push2(&mut r, debug_quoted(index_name.as_str()).as_str(), " }");
                r
            }
            _ => String::new(),
        }
    }

    /// Generate the SQL statements of this operation; the column types are the
    /// same on every backend.
    pub fn to_sql(&self, backend: &DatabaseBackend) -> (r: Vec<String>)
        ensures
            views(r@) == operation_sql(*self),
    {
        let mut out: Vec<String> = Vec::new();
        match self {
            MigrationOperation::CreateModel { name, fields, options: _ } => {
                let mut cols: Vec<String> = Vec::new();
                let mut i: usize = 0;
                while i < fields.len()
                    invariant
                        i <= fields.len(),
                        views(cols@) == column_defs(fields@.take(i as int)),
                    decreases fields.len() - i,
                {
                    let ghost before = views(cols@);
                    let c = fields[i].column_sql();
                    cols.push(c);
                    assert(views(cols@) =~= before.push(c@));
                    assert(fields@.take(i + 1) =~= fields@.take(i as int).push(fields@[i as int]));
                    i = i + 1;
                }
                assert(fields@.take(fields.len() as int) =~= fields@);
                let lower = to_lowercase(name.as_str());
                let head = concat3("CREATE TABLE ", lower.as_str(), " (");
                let joined = join_strings(&cols, ", ");
                out.push(concat3(head.as_str(), joined.as_str(), ")"));
            }
            MigrationOperation::DeleteModel { name } => {
                let lower = to_lowercase(name.as_str());
                out.push(concat2("DROP TABLE ", lower.as_str()));
            }
            MigrationOperation::AddField { model_name, field } => {
                let lower = to_lowercase(model_name.as_str());
                let mut col = concat3("ALTER TABLE ", lower.as_str(), " ADD COLUMN ");
                push2(&mut col, field.name.as_str(), " ");
                col.append(field.field_type.sql_type(backend));
                if field.primary_key {
                    col.append(" PRIMARY KEY");
                }
                if !field.null {
                    col.append(" NOT NULL");
                }
                out.push(col);
            }
            MigrationOperation::RemoveField { model_name, field_name } => {
                let lower = to_lowercase(model_name.as_str());
                let head = concat3("ALTER TABLE ", lower.as_str(), " DROP COLUMN ");
                out.push(concat2(head.as_str(), field_name.as_str()));
            }
            MigrationOperation::RunSQL { sql, .. } => {
                out.push(sql.clone());
            }
            _ => {
                let d = self.debug_text();
                out.push(concat2("-- Unimplemented operation: ", d.as_str()));
            }
        }
        assert(views(out@) =~= operation_sql(*self));
        out
    }
}

} // verus!
