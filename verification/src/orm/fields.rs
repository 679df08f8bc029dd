//! Model field types and the column types they map to.

use vstd::prelude::*;
use crate::forms::validation::{char_is_alphanumeric, unicode_alphanumeric};
use crate::apps::assoc_get;
use crate::forms::values::{
    float_syntax, lookup_value, pair_views, read_float_syntax, FloatSyntax, FormValue, Val,
};
use crate::orm::backend::DatabaseBackend;
use crate::text::{
    all_digits, byte_len, chars_of, concat2, concat3, contains_char, digit_value, has_char, i64_to_string, int_str,
    is_digit, is_hex_digit, is_prefix, is_suffix, nat_str, owned, parse_i64, parse_i64_str, parse_u16,
    parse_u16_str, parse_u64, parse_u64_str, replace_char, replace_char_str, split_char, split_on_char,
    split_first, split_first_str, starts_with, ends_with, str_byte_len, str_eq, str_is_empty, str_len, trim,
    trim_seq, u64_to_string, usize_to_string, views,
};

verus! {

/// Supported field types.
#[derive(Debug, Clone, Copy, PartialEq, Eq, Structural)]
pub enum FieldTypes {
    AutoField,
    BigAutoField,
    SmallAutoField,
    CharField,
    TextField,
    IntegerField,
    BigIntegerField,
    PositiveBigIntegerField,
    FloatField,
    DecimalField,
    BooleanField,
    NullBooleanField,
    DateTimeField,
    DateField,
    TimeField,
    EmailField,
    URLField,
    SlugField,
    UUIDField,
    IPAddressField,
    GenericIPAddressField,
    DurationField,
    JSONField,
    BinaryField,
    CommaSeparatedIntegerField,
    FileField,
    ImageField,
    FilePathField,
    SmallIntegerField,
    PositiveIntegerField,
    PositiveSmallIntegerField,
    ForeignKey,
    OneToOneField,
    ManyToManyField,
}

impl FieldTypes {
    /// The column type of a field; the same on every backend.
    pub open spec fn column_type(self) -> Seq<char> {
        match self {
            FieldTypes::AutoField => "INTEGER"@,
            FieldTypes::BigAutoField => "BIGINT"@,
            FieldTypes::CharField => "TEXT"@,
            FieldTypes::TextField => "TEXT"@,
            FieldTypes::IntegerField => "INTEGER"@,
            FieldTypes::BigIntegerField => "BIGINT"@,
            FieldTypes::PositiveBigIntegerField => "BIGINT"@,
            FieldTypes::SmallAutoField => "INTEGER"@,
            FieldTypes::NullBooleanField => "INTEGER"@,
            FieldTypes::CommaSeparatedIntegerField => "TEXT"@,
            FieldTypes::FloatField => "REAL"@,
            FieldTypes::DecimalField => "TEXT"@,
            FieldTypes::BooleanField => "INTEGER"@,
            FieldTypes::DateTimeField => "TEXT"@,
            FieldTypes::DateField => "TEXT"@,
            FieldTypes::TimeField => "TEXT"@,
            FieldTypes::DurationField => "TEXT"@,
            FieldTypes::EmailField => "TEXT"@,
            FieldTypes::URLField => "TEXT"@,
            FieldTypes::SlugField => "TEXT"@,
            FieldTypes::UUIDField => "TEXT"@,
            FieldTypes::IPAddressField => "TEXT"@,
            FieldTypes::GenericIPAddressField => "TEXT"@,
            FieldTypes::JSONField => "TEXT"@,
            FieldTypes::BinaryField => "BLOB"@,
            FieldTypes::FileField => "TEXT"@,
            FieldTypes::ImageField => "TEXT"@,
            FieldTypes::FilePathField => "TEXT"@,
            FieldTypes::SmallIntegerField => "INTEGER"@,
            FieldTypes::PositiveIntegerField => "INTEGER"@,
            FieldTypes::PositiveSmallIntegerField => "INTEGER"@,
            FieldTypes::ForeignKey => "INTEGER"@,
            FieldTypes::OneToOneField => "INTEGER"@,
            FieldTypes::ManyToManyField => ""@,
        }
    }

    pub fn sql_type(&self, db: &DatabaseBackend) -> (r: &'static str)
        ensures
            r@ == self.column_type(),
    {
        match self {
            FieldTypes::AutoField => "INTEGER",
            FieldTypes::BigAutoField => "BIGINT",
            FieldTypes::CharField => "TEXT",
            FieldTypes::TextField => "TEXT",
            FieldTypes::IntegerField => "INTEGER",
            FieldTypes::BigIntegerField => "BIGINT",
            FieldTypes::PositiveBigIntegerField => "BIGINT",
            FieldTypes::SmallAutoField => "INTEGER",
            FieldTypes::NullBooleanField => "INTEGER",
            FieldTypes::CommaSeparatedIntegerField => "TEXT",
            FieldTypes::FloatField => "REAL",
            FieldTypes::DecimalField => "TEXT",
            FieldTypes::BooleanField => "INTEGER",
            FieldTypes::DateTimeField => "TEXT",
            FieldTypes::DateField => "TEXT",
            FieldTypes::TimeField => "TEXT",
            FieldTypes::DurationField => "TEXT",
            FieldTypes::EmailField => "TEXT",
            FieldTypes::URLField => "TEXT",
            FieldTypes::SlugField => "TEXT",
            FieldTypes::UUIDField => "TEXT",
            FieldTypes::IPAddressField => "TEXT",
            FieldTypes::GenericIPAddressField => "TEXT",
            FieldTypes::JSONField => "TEXT",
            FieldTypes::BinaryField => "BLOB",
            FieldTypes::FileField => "TEXT",
            FieldTypes::ImageField => "TEXT",
            FieldTypes::FilePathField => "TEXT",
            FieldTypes::SmallIntegerField => "INTEGER",
            FieldTypes::PositiveIntegerField => "INTEGER",
            FieldTypes::PositiveSmallIntegerField => "INTEGER",
            FieldTypes::ForeignKey => "INTEGER",
            FieldTypes::OneToOneField => "INTEGER",
            FieldTypes::ManyToManyField => "",
        }
    }
}

// ---------------------------------------------------------------------------
// Values in and out of the database
// ---------------------------------------------------------------------------

/// A lowercase hex digit.
pub open spec fn hex_lower(n: int) -> char {
    "0123456789abcdef"@[n]
}

/// How `serde_json` writes a character inside a string: `"` and `\` and
/// the controls backspace, tab, line feed, form feed and carriage return
/// with a backslash, any other character below U+0020 as `\u00` and two
/// lowercase hex digits, every other character as itself.
pub open spec fn json_escape_char(c: char) -> Seq<char> {
    let u = c as u32;
    if c == '"' {
        seq!['\\', '"']
    } else if c == '\\' {
        seq!['\\', '\\']
    } else if u == 8 {
        seq!['\\', 'b']
    } else if u == 9 {
        seq!['\\', 't']
    } else if u == 10 {
        seq!['\\', 'n']
    } else if u == 12 {
        seq!['\\', 'f']
    } else if u == 13 {
        seq!['\\', 'r']
    } else if u < 32 {
        seq!['\\', 'u', '0', '0', hex_lower(u as int / 16), hex_lower(u as int % 16)]
    } else {
        seq![c]
    }
}

/// The characters of `s` escaped one by one.
pub open spec fn json_escaped(s: Seq<char>) -> Seq<char>
    decreases s.len(),
{
    if s.len() == 0 {
        Seq::empty()
    } else {
        json_escaped(s.drop_last()) + json_escape_char(s.last())
    }
}

/// The JSON text of a string, as `serde_json` writes it: in double quotes,
/// each character escaped (see [`json_escape_char`]).
pub open spec fn json_quoted(s: Seq<char>) -> Seq<char> {
    seq!['"'] + json_escaped(s) + seq!['"']
}

/// `serde_json::to_string` of a string: its JSON text, quoted and escaped
/// as `format_escaped_str` in `serde_json`'s `ser.rs` writes it.
#[verifier::external_body]
pub(crate) fn json_quote(s: &str) -> (r: String)
    ensures
        r@ == json_quoted(s@),
{
    serde_json::Value::String(s.to_string()).to_string()
}

/// A value as JSON text (`Value::to_string`).
pub open spec fn json_text(v: Val) -> Seq<char> {
    match v {
        Val::Null => "null"@,
        Val::Bool(b) => if b { "true"@ } else { "false"@ },
        Val::Number(t) => t,
        Val::Text(s) => json_quoted(s),
        Val::Json(t) => t,
    }
}

fn value_json_text(v: &FormValue) -> (r: String)
    ensures
        r@ == json_text(v@),
{
    match v {
        FormValue::Null => owned("null"),
        FormValue::Bool(b) => if *b { owned("true") } else { owned("false") },
        FormValue::Number(t) => t.clone(),
        FormValue::Text(s) => json_quote(s.as_str()),
        FormValue::Json(t) => t.clone(),
    }
}

/// Text as an SQL string literal: in single quotes, each quote doubled.
pub open spec fn sql_quoted(s: Seq<char>) -> Seq<char> {
    "'"@ + replace_char(s, '\'', "''"@) + "'"@
}

fn quote_sql(s: &str) -> (r: String)
    ensures
        r@ == sql_quoted(s@),
{
    concat3("'", replace_char_str(s, '\'', "''").as_str(), "'")
}

/// The integer a value holds (`Value::as_i64`): a number written as an
/// integer that fits in an `i64`.
pub open spec fn as_i64(v: Val) -> Option<int> {
    match v {
        Val::Number(t) => parse_i64(t),
        _ => None,
    }
}

fn value_as_i64(v: &FormValue) -> (r: Option<i64>)
    ensures
        match as_i64(v@) {
            Some(n) => r == Some(n as i64),
            None => r is None,
        },
{
    match v {
        FormValue::Number(t) => parse_i64_str(t.as_str()),
        _ => None,
    }
}

/// `Field '<name>' <rest>`: how field errors read.
pub open spec fn field_msg(name: Seq<char>, rest: Seq<char>) -> Seq<char> {
    "Field '"@ + name + "' "@ + rest
}

fn field_error(name: &str, rest: &str) -> (r: String)
    ensures
        r@ == field_msg(name@, rest@),
{
    let mut r = concat3("Field '", name, "' ");
    r.append(rest);
    r
}

/// The views of a validation outcome.
pub open spec fn check_view(r: Result<(), String>) -> Result<(), Seq<char>> {
    match r {
        Ok(_) => Ok(()),
        Err(e) => Err(e@),
    }
}

/// The outcome for a null value: accepted when the field allows null.
pub open spec fn null_outcome(name: Seq<char>, nullable: bool) -> Result<(), Seq<char>> {
    if nullable { Ok(()) } else { Err(field_msg(name, "cannot be null"@)) }
}

fn null_check(name: &str, nullable: bool) -> (r: Result<(), String>)
    ensures
        check_view(r) == null_outcome(name@, nullable),
{
    if nullable { Ok(()) } else { Err(field_error(name, "cannot be null")) }
}

/// How text-like fields write a value: null as `NULL`, text quoted, anything
/// else as JSON.
pub open spec fn text_to_db(v: Val) -> Seq<char> {
    match v {
        Val::Null => "NULL"@,
        Val::Text(s) => sql_quoted(s),
        _ => json_text(v),
    }
}

fn text_value_to_db(v: &FormValue) -> (r: String)
    ensures
        r@ == text_to_db(v@),
{
    match v {
        FormValue::Null => owned("NULL"),
        FormValue::Text(s) => quote_sql(s.as_str()),
        _ => value_json_text(v),
    }
}

/// How integer fields write a value: null as `NULL`, numbers as written,
/// anything else as JSON.
pub open spec fn integer_to_db(v: Val) -> Seq<char> {
    match v {
        Val::Null => "NULL"@,
        Val::Number(t) => t,
        _ => json_text(v),
    }
}

fn integer_value_to_db(v: &FormValue) -> (r: String)
    ensures
        r@ == integer_to_db(v@),
{
    match v {
        FormValue::Null => owned("NULL"),
        FormValue::Number(t) => t.clone(),
        _ => value_json_text(v),
    }
}

/// How integer fields read a column: the text as an `i64`, 0 when it is not one.
pub open spec fn integer_from_db(text: Seq<char>) -> Val {
    Val::Number(int_str(match parse_i64(text) {
        Some(n) => n,
        None => 0,
    }))
}

fn integer_value_from_db(text: &str) -> (r: FormValue)
    ensures
        r@ == integer_from_db(text@),
{
    let n: i64 = match parse_i64_str(text) {
        Some(n) => n,
        None => 0,
    };
    FormValue::Number(i64_to_string(n))
}

/// The value under the field's name in a row, if any.
pub open spec fn value_in_row(row: Seq<(Seq<char>, Val)>, name: Seq<char>) -> Option<Val> {
    assoc_get(row, name)
}

/// The text of the value under the field's name: `None` for null, text as
/// is, numbers and booleans as written, anything else as JSON; empty when
/// the row has no such value.
pub open spec fn row_value_text(row: Seq<(Seq<char>, Val)>, name: Seq<char>) -> Seq<char> {
    match assoc_get(row, name) {
        Some(v) => match v {
            Val::Null => "None"@,
            Val::Text(s) => s,
            Val::Number(t) => t,
            Val::Bool(b) => if b { "true"@ } else { "false"@ },
            Val::Json(t) => t,
        },
        None => ""@,
    }
}

/// A model field: its name, type and constraints, how it checks a value,
/// and how values go to and come from the database.
pub trait Field {
    /// The field's name, as text.
    spec fn field_name(&self) -> Seq<char>;

    /// The field's name.
    fn name(&self) -> (r: &str)
        ensures
            r@ == self.field_name();
    /// The field's type.
    fn field_type(&self) -> FieldTypes;
    /// Whether it is the primary key, as a fact.
    spec fn primary(&self) -> bool;

    /// Whether it is the primary key.
    fn is_pk(&self) -> (r: bool)
        ensures
            r == self.primary();
    /// Whether it may hold null.
    fn is_null(&self) -> bool;
    /// Whether its values are unique.
    fn is_unique(&self) -> bool;
    /// The value it takes when none is given.
    fn default(&self) -> Option<FormValue>;
    /// Checks a value.
    fn validate(&self, value: &FormValue) -> Result<(), String>;
    /// The SQL text of a value.
    fn to_db(&self, value: &FormValue) -> String;
    /// The value a column text stands for.
    fn from_db(&self, value: &str) -> FormValue;

    /// The field's value in a row, if any.
    fn value_from_object(&self, obj: &Vec<(String, FormValue)>) -> (r: Option<FormValue>)
        ensures
            match value_in_row(pair_views(obj@), self.field_name()) {
                Some(v) => r matches Some(x) && x@ == v,
                None => r is None,
            },
    {
        match lookup_value(obj, self.name()) {
            Some(v) => Some(v.duplicate()),
            None => None,
        }
    }

    /// The field's value in a row as text (see [`row_value_text`]).
    fn value_to_string(&self, obj: &Vec<(String, FormValue)>) -> (r: String)
        ensures
            r@ == row_value_text(pair_views(obj@), self.field_name()),
    {
        match lookup_value(obj, self.name()) {
            Some(v) => match v {
                FormValue::Null => owned("None"),
                FormValue::Text(s) => s.clone(),
                FormValue::Number(t) => t.clone(),
                FormValue::Bool(b) => if *b { owned("true") } else { owned("false") },
                FormValue::Json(t) => t.clone(),
            },
            None => owned(""),
        }
    }
}

/// A field of any type with optional length limit, index, column name,
/// choices and help text.
#[derive(Debug)]
pub struct SimpleField {
    pub name: String,
    pub field_type: FieldTypes,
    pub is_pk: bool,
    pub is_null: bool,
    pub is_unique: bool,
    pub default_val: Option<FormValue>,
    pub max_length: Option<usize>,
    pub db_index: bool,
    pub db_column: Option<String>,
    pub choices: Option<Vec<(String, String)>>,
    pub help_text: Option<String>,
}

/// The automatic key types: a field of one of them is the primary key.
pub open spec fn is_auto(t: FieldTypes) -> bool {
    t == FieldTypes::AutoField || t == FieldTypes::BigAutoField || t == FieldTypes::SmallAutoField
}

/// How a [`SimpleField`] checks a value: null only when allowed, and text
/// no longer (in bytes) than the maximum length.
pub open spec fn simple_check(f: SimpleField, v: Val) -> Result<(), Seq<char>> {
    if v is Null && !f.is_null {
        Err(field_msg(f.name@, "cannot be null"@))
    } else {
        match f.max_length {
            Some(max) => match v {
                Val::Text(s) => if str_len(s) > max {
                    Err(field_msg(f.name@, "exceeds max length "@ + nat_str(max as nat)))
                } else {
                    Ok(())
                },
                _ => Ok(()),
            },
            None => Ok(()),
        }
    }
}

/// How a [`SimpleField`] writes a value: text quoted, numbers as written,
/// booleans as 1 or 0, null as `NULL`, anything else as JSON.
pub open spec fn simple_to_db(v: Val) -> Seq<char> {
    match v {
        Val::Text(s) => sql_quoted(s),
        Val::Number(t) => t,
        Val::Bool(b) => if b { "1"@ } else { "0"@ },
        Val::Null => "NULL"@,
        Val::Json(t) => t,
    }
}

/// How a [`SimpleField`] reads a column: integers for integer and key
/// fields (0 when unreadable), a number for float fields (0.0 when
/// unreadable, null for `inf` and `nan`), a boolean (`1` or `true`) for
/// boolean fields, and the text itself otherwise.
pub open spec fn simple_from_db(t: FieldTypes, text: Seq<char>) -> Val {
    if t == FieldTypes::IntegerField || t == FieldTypes::AutoField || t == FieldTypes::BigAutoField {
        integer_from_db(text)
    } else if t == FieldTypes::FloatField {
        match float_syntax(text) {
            FloatSyntax::Decimal => Val::Number(text),
            FloatSyntax::NonFinite => Val::Null,
            FloatSyntax::Invalid => Val::Number("0.0"@),
        }
    } else if t == FieldTypes::BooleanField {
        Val::Bool(text == "1"@ || text == "true"@)
    } else {
        Val::Text(text)
    }
}

impl SimpleField {
    /// A field named `name` of type `field_type`; it is the primary key
    /// when the type is an automatic key, and has no other constraint.
    pub fn new(name: &str, field_type: FieldTypes) -> (r: Self)
        ensures
            r.name@ == name@,
            r.field_type == field_type,
            r.is_pk == is_auto(field_type),
            !r.is_null,
            !r.is_unique,
            r.default_val is None,
            r.max_length is None,
            !r.db_index,
            r.db_column is None,
            r.choices is None,
            r.help_text is None,
    {
        let is_pk = match field_type {
            FieldTypes::AutoField | FieldTypes::BigAutoField | FieldTypes::SmallAutoField => true,
            _ => false,
        };
        SimpleField {
            name: owned(name),
            field_type,
            is_pk,
            is_null: false,
            is_unique: false,
            default_val: None,
            max_length: None,
            db_index: false,
            db_column: None,
            choices: None,
            help_text: None,
        }
    }

    /// The same field, allowing null.
    pub fn null(self) -> (r: Self)
        ensures
            r.is_null,
            r.name == self.name && r.field_type == self.field_type && r.is_pk == self.is_pk,
            r.is_unique == self.is_unique && r.default_val == self.default_val && r.max_length == self.max_length,
    {
        SimpleField { is_null: true, ..self }
    }

    /// The same field, with unique values.
    pub fn unique(self) -> (r: Self)
        ensures
            r.is_unique,
            r.name == self.name && r.field_type == self.field_type && r.is_pk == self.is_pk,
            r.is_null == self.is_null && r.default_val == self.default_val && r.max_length == self.max_length,
    {
        SimpleField { is_unique: true, ..self }
    }

    /// The same field, with default value `val`.
    pub fn default(self, val: FormValue) -> (r: Self)
        ensures
            r.default_val == Some(val),
            r.name == self.name && r.field_type == self.field_type && r.is_pk == self.is_pk,
            r.is_null == self.is_null && r.is_unique == self.is_unique && r.max_length == self.max_length,
    {
        SimpleField { default_val: Some(val), ..self }
    }

    /// The same field, with text limited to `n` bytes.
    pub fn max_length(self, n: usize) -> (r: Self)
        ensures
            r.max_length == Some(n),
            r.name == self.name && r.field_type == self.field_type && r.is_pk == self.is_pk,
            r.is_null == self.is_null && r.is_unique == self.is_unique && r.default_val == self.default_val,
    {
        SimpleField { max_length: Some(n), ..self }
    }

    /// The same field, indexed.
    pub fn db_index(self) -> (r: Self)
        ensures
            r.db_index,
            r.name == self.name && r.field_type == self.field_type && r.is_null == self.is_null,
            r.max_length == self.max_length && r.db_column == self.db_column,
    {
        SimpleField { db_index: true, ..self }
    }

    /// The same field, stored in column `col`.
    pub fn db_column(self, col: &str) -> (r: Self)
        ensures
            r.db_column matches Some(c) && c@ == col@,
            r.name == self.name && r.field_type == self.field_type && r.is_null == self.is_null,
            r.max_length == self.max_length && r.db_index == self.db_index,
    {
        SimpleField { db_column: Some(owned(col)), ..self }
    }

    /// The same field, with the given `(value, label)` choices.
    pub fn choices(self, choices: Vec<(String, String)>) -> (r: Self)
        ensures
            r.choices == Some(choices),
            r.name == self.name && r.field_type == self.field_type && r.is_null == self.is_null,
            r.max_length == self.max_length,
    {
        SimpleField { choices: Some(choices), ..self }
    }

    /// The same field, with help text `text`.
    pub fn help_text(self, text: &str) -> (r: Self)
        ensures
            r.help_text matches Some(h) && h@ == text@,
            r.name == self.name && r.field_type == self.field_type && r.is_null == self.is_null,
            r.max_length == self.max_length,
    {
        SimpleField { help_text: Some(owned(text)), ..self }
    }
}

impl Field for SimpleField {
    open spec fn field_name(&self) -> Seq<char> {
        self.name@
    }

    open spec fn primary(&self) -> bool {
        self.is_pk
    }

    fn name(&self) -> (r: &str) {
        self.name.as_str()
    }

    fn field_type(&self) -> (r: FieldTypes)
        ensures
            r == self.field_type,
    {
        self.field_type
    }

    fn is_pk(&self) -> (r: bool) {
        self.is_pk
    }

    fn is_null(&self) -> (r: bool)
        ensures
            r == self.is_null,
    {
        self.is_null
    }

    fn is_unique(&self) -> (r: bool)
        ensures
            r == self.is_unique,
    {
        self.is_unique
    }

    fn default(&self) -> (r: Option<FormValue>)
        ensures
            match self.default_val {
                Some(v) => r matches Some(x) && x@ == v@,
                None => r is None,
            },
    {
        match &self.default_val {
            Some(v) => Some(v.duplicate()),
            None => None,
        }
    }

    fn validate(&self, value: &FormValue) -> (r: Result<(), String>)
        ensures
            check_view(r) == simple_check(*self, value@),
    {
        if value.is_null() && !self.is_null {
            return Err(field_error(self.name.as_str(), "cannot be null"));
        }
        match self.max_length {
            Some(max) => match value {
                FormValue::Text(s) => {
                    if str_byte_len(s.as_str()) > max {
                        let rest = concat2("exceeds max length ", usize_to_string(max).as_str());
                        return Err(field_error(self.name.as_str(), rest.as_str()));
                    }
                    Ok(())
                },
                _ => Ok(()),
            },
            None => Ok(()),
        }
    }

    fn to_db(&self, value: &FormValue) -> (r: String)
        ensures
            r@ == simple_to_db(value@),
    {
        match value {
            FormValue::Text(s) => quote_sql(s.as_str()),
            FormValue::Number(t) => t.clone(),
            FormValue::Bool(b) => if *b { owned("1") } else { owned("0") },
            FormValue::Null => owned("NULL"),
            FormValue::Json(t) => t.clone(),
        }
    }

    fn from_db(&self, value: &str) -> (r: FormValue)
        ensures
            r@ == simple_from_db(self.field_type, value@),
    {
        match self.field_type {
            FieldTypes::IntegerField | FieldTypes::AutoField | FieldTypes::BigAutoField => integer_value_from_db(value),
            FieldTypes::FloatField => match read_float_syntax(value) {
                FloatSyntax::Decimal => FormValue::Number(owned(value)),
                FloatSyntax::NonFinite => FormValue::Null,
                FloatSyntax::Invalid => FormValue::Number(owned("0.0")),
            },
            FieldTypes::BooleanField => FormValue::Bool(str_eq(value, "1") || str_eq(value, "true")),
            _ => FormValue::Text(owned(value)),
        }
    }
}

// ---------------------------------------------------------------------------
// Checks on text
// ---------------------------------------------------------------------------


/// Every character is an ASCII hexadecimal digit.
pub open spec fn all_hex(s: Seq<char>) -> bool {
    forall|i: int| 0 <= i < s.len() ==> is_hex_digit(#[trigger] s[i])
}

fn all_hex_str(s: &str) -> (r: bool)
    ensures
        r == all_hex(s@),
{
    let v = chars_of(s);
    let mut i: usize = 0;
    while i < v.len()
        invariant
            i <= v.len(),
            v@ == s@,
            forall|j: int| 0 <= j < i ==> is_hex_digit(#[trigger] v@[j]),
        decreases v.len() - i,
    {
        let c = v[i];
        if !(('0' <= c && c <= '9') || ('a' <= c && c <= 'f') || ('A' <= c && c <= 'F')) {
            assert(!is_hex_digit(s@[i as int]));
            return false;
        }
        i = i + 1;
    }
    true
}

/// Every character is alphanumeric, `-` or `_`.
pub open spec fn slug_chars(s: Seq<char>) -> bool {
    forall|i: int| 0 <= i < s.len() ==> (unicode_alphanumeric(#[trigger] s[i]) || s[i] == '-' || s[i] == '_')
}

fn slug_chars_str(s: &str) -> (r: bool)
    ensures
        r == slug_chars(s@),
{
    let v = chars_of(s);
    let mut i: usize = 0;
    while i < v.len()
        invariant
            i <= v.len(),
            v@ == s@,
            forall|j: int| 0 <= j < i ==> (unicode_alphanumeric(#[trigger] v@[j]) || v@[j] == '-' || v@[j] == '_'),
        decreases v.len() - i,
    {
        let c = v[i];
        if !(char_is_alphanumeric(c) || c == '-' || c == '_') {
            assert(!(unicode_alphanumeric(s@[i as int]) || s@[i as int] == '-' || s@[i as int] == '_'));
            return false;
        }
        i = i + 1;
    }
    true
}

/// Text that looks like an IPv4 address: it has a `.` and only digits and dots.
pub open spec fn looks_v4(s: Seq<char>) -> bool {
    has_char(s, '.') && forall|i: int| 0 <= i < s.len() ==> (is_digit(#[trigger] s[i]) || s[i] == '.')
}

/// Text that looks like an IPv6 address: it has a `:` and only ASCII
/// letters, digits and colons.
pub open spec fn looks_v6(s: Seq<char>) -> bool {
    has_char(s, ':') && forall|i: int| 0 <= i < s.len() ==> (crate::text::is_ascii_alnum(#[trigger] s[i]) || s[i] == ':')
}

fn looks_v4_str(s: &str) -> (r: bool)
    ensures
        r == looks_v4(s@),
{
    let v = chars_of(s);
    if !contains_char(&v, '.') {
        return false;
    }
    let mut i: usize = 0;
    while i < v.len()
        invariant
            i <= v.len(),
            v@ == s@,
            forall|j: int| 0 <= j < i ==> (is_digit(#[trigger] v@[j]) || v@[j] == '.'),
        decreases v.len() - i,
    {
        let c = v[i];
        if !(('0' <= c && c <= '9') || c == '.') {
            assert(!(is_digit(s@[i as int]) || s@[i as int] == '.'));
            return false;
        }
        i = i + 1;
    }
    true
}

fn looks_v6_str(s: &str) -> (r: bool)
    ensures
        r == looks_v6(s@),
{
    let v = chars_of(s);
    if !contains_char(&v, ':') {
        return false;
    }
    let mut i: usize = 0;
    while i < v.len()
        invariant
            i <= v.len(),
            v@ == s@,
            forall|j: int| 0 <= j < i ==> (crate::text::is_ascii_alnum(#[trigger] v@[j]) || v@[j] == ':'),
        decreases v.len() - i,
    {
        let c = v[i];
        if !(('a' <= c && c <= 'z') || ('A' <= c && c <= 'Z') || ('0' <= c && c <= '9') || c == ':') {
            assert(!(crate::text::is_ascii_alnum(s@[i as int]) || s@[i as int] == ':'));
            return false;
        }
        i = i + 1;
    }
    true
}

/// `s` without its `+` and `-` characters.
pub open spec fn strip_signs(s: Seq<char>) -> Seq<char>
    decreases s.len(),
{
    if s.len() == 0 {
        Seq::empty()
    } else if s.last() == '+' || s.last() == '-' {
        strip_signs(s.drop_last())
    } else {
        strip_signs(s.drop_last()).push(s.last())
    }
}

fn strip_signs_str(s: &str) -> (r: String)
    ensures
        r@ == strip_signs(s@),
{
    let v = chars_of(s);
    let mut out: Vec<char> = Vec::new();
    let mut i: usize = 0;
    while i < v.len()
        invariant
            i <= v.len(),
            v@ == s@,
            out@ == strip_signs(v@.take(i as int)),
        decreases v.len() - i,
    {
        assert(v@.take(i + 1).drop_last() =~= v@.take(i as int));
        let c = v[i];
        if c != '+' && c != '-' {
            out.push(c);
        }
        i = i + 1;
    }
    assert(v@.take(i as int) =~= v@);
    crate::text::string_from_chars(&out)
}

/// `s.parse::<u8>()` succeeds with this value.
pub open spec fn parse_u8(s: Seq<char>) -> Option<int> {
    match crate::text::parse_int(s, false) {
        Some(v) => if v <= 255 { Some(v) } else { None },
        None => None,
    }
}

fn parse_u8_str(s: &str) -> (r: Option<u8>)
    ensures
        match r {
            Some(x) => parse_u8(s@) == Some(x as int),
            None => parse_u8(s@) is None,
        },
{
    match parse_u16_str(s) {
        Some(v) => if v <= 255 { Some(v as u8) } else { None },
        None => None,
    }
}

// ---------------------------------------------------------------------------
// How the typed fields check values
// ---------------------------------------------------------------------------

/// The checks of a UUID field.
pub open spec fn uuid_check(name: Seq<char>, nullable: bool, v: Val) -> Result<(), Seq<char>> {
    match v {
        Val::Null => null_outcome(name, nullable),
        Val::Text(s) => {
            let p = split_char(s, '-');
            if str_len(s) != 36 {
                Err(field_msg(name, "UUID must be 36 characters"@))
            } else if p.len() != 5 {
                Err(field_msg(name, "invalid UUID format"@))
            } else if str_len(p[0]) != 8 || str_len(p[1]) != 4 || str_len(p[2]) != 4 || str_len(p[3]) != 4
                || str_len(p[4]) != 12 {
                Err(field_msg(name, "invalid UUID structure"@))
            } else if !(forall|i: int| 0 <= i < 5 ==> all_hex(#[trigger] p[i])) {
                Err(field_msg(name, "UUID contains non-hex characters"@))
            } else {
                Ok(())
            }
        },
        _ => Err(field_msg(name, "requires a string value"@)),
    }
}

/// The checks of an email field, on the trimmed text.
pub open spec fn email_check(name: Seq<char>, nullable: bool, v: Val) -> Result<(), Seq<char>> {
    match v {
        Val::Null => null_outcome(name, nullable),
        Val::Text(s) => {
            let t = trim_seq(s);
            if !has_char(t, '@') {
                Err(field_msg(name, "must contain '@'"@))
            } else if split_first(t, '@').0.len() == 0 || split_first(t, '@').1.len() == 0 {
                Err(field_msg(name, "invalid email format"@))
            } else if !has_char(split_first(t, '@').1, '.') {
                Err(field_msg(name, "domain must contain '.'"@))
            } else {
                Ok(())
            }
        },
        _ => Err(field_msg(name, "requires a string value"@)),
    }
}

/// The checks of a URL field, on the trimmed text.
pub open spec fn url_check(name: Seq<char>, nullable: bool, v: Val) -> Result<(), Seq<char>> {
    match v {
        Val::Null => null_outcome(name, nullable),
        Val::Text(s) => {
            let t = trim_seq(s);
            if !(is_prefix("http://"@, t) || is_prefix("https://"@, t)) {
                Err(field_msg(name, "URL must start with http:// or https://"@))
            } else if str_len(t) < 10 {
                Err(field_msg(name, "URL too short"@))
            } else {
                Ok(())
            }
        },
        _ => Err(field_msg(name, "requires a string value"@)),
    }
}

/// The checks of a slug field.
pub open spec fn slug_check(name: Seq<char>, nullable: bool, v: Val) -> Result<(), Seq<char>> {
    match v {
        Val::Null => null_outcome(name, nullable),
        Val::Text(s) => if !slug_chars(s) {
            Err(field_msg(name, "slug must be alphanumeric, hyphens, or underscores"@))
        } else if s.len() == 0 {
            Err(field_msg(name, "slug cannot be empty"@))
        } else {
            Ok(())
        },
        _ => Err(field_msg(name, "requires a string value"@)),
    }
}

/// What is wrong with one IPv4 octet, if anything.
pub open spec fn octet_error(o: Seq<char>) -> Option<Seq<char>> {
    match parse_u16(o) {
        Some(v) => if v > 255 { Some("invalid octet: "@ + nat_str(v as nat)) } else { None },
        None => Some("invalid octet: "@ + o),
    }
}

/// The first octet error among the first `n` octets.
pub open spec fn first_octet_error(octets: Seq<Seq<char>>, n: int) -> Option<Seq<char>>
    decreases n,
{
    if n <= 0 {
        None
    } else {
        match first_octet_error(octets, n - 1) {
            Some(e) => Some(e),
            None => octet_error(octets[n - 1]),
        }
    }
}

proof fn lemma_first_octet_error_stays(octets: Seq<Seq<char>>, from: int, n: int)
    requires
        0 <= from <= n,
        first_octet_error(octets, from) is Some,
    ensures
        first_octet_error(octets, n) == first_octet_error(octets, from),
    decreases n - from,
{
    if n > from {
        lemma_first_octet_error_stays(octets, from, n - 1);
    }
}

/// The checks of an IP address field, on the trimmed text.
pub open spec fn ip_check(name: Seq<char>, nullable: bool, protocol: Seq<char>, v: Val) -> Result<(), Seq<char>> {
    match v {
        Val::Null => null_outcome(name, nullable),
        Val::Text(s) => {
            let t = trim_seq(s);
            let v4 = looks_v4(t);
            let v6 = looks_v6(t);
            if protocol == "IPv4"@ && !v4 {
                Err(field_msg(name, "requires IPv4 address"@))
            } else if protocol != "IPv4"@ && protocol == "IPv6"@ && !v6 {
                Err(field_msg(name, "requires IPv6 address"@))
            } else if protocol != "IPv4"@ && protocol != "IPv6"@ && !v4 && !v6 {
                Err(field_msg(name, "invalid IP address"@))
            } else if v4 {
                match first_octet_error(split_char(t, '.'), split_char(t, '.').len() as int) {
                    Some(e) => Err(field_msg(name, e)),
                    None => Ok(()),
                }
            } else {
                Ok(())
            }
        },
        _ => Err(field_msg(name, "requires a string value"@)),
    }
}

/// The checks of a time field: three two-character parts read as hour,
/// minute and second.
pub open spec fn time_check(name: Seq<char>, nullable: bool, v: Val) -> Result<(), Seq<char>> {
    match v {
        Val::Null => null_outcome(name, nullable),
        Val::Text(s) => {
            let p = split_char(s, ':');
            if p.len() != 3 {
                Err(field_msg(name, "time must be HH:MM:SS"@))
            } else if str_len(p[0]) != 2 || str_len(p[1]) != 2 || str_len(p[2]) != 2 {
                Err(field_msg(name, "time parts must be 2 digits each"@))
            } else if parse_u8(p[0]) is None {
                Err(field_msg(name, "invalid hour"@))
            } else if parse_u8(p[1]) is None {
                Err(field_msg(name, "invalid minute"@))
            } else if parse_u8(p[2]) is None {
                Err(field_msg(name, "invalid second"@))
            } else if parse_u8(p[0])->0 > 23 || parse_u8(p[1])->0 > 59 || parse_u8(p[2])->0 > 59 {
                Err(field_msg(name, "invalid time value"@))
            } else {
                Ok(())
            }
        },
        _ => Err(field_msg(name, "requires a string value"@)),
    }
}

/// The checks of a duration field.
pub open spec fn duration_check(name: Seq<char>, nullable: bool, v: Val) -> Result<(), Seq<char>> {
    match v {
        Val::Null => null_outcome(name, nullable),
        Val::Text(s) => if !is_prefix("P"@, s) && !is_prefix("-"@, s) {
            Err(field_msg(name, "duration must be ISO 8601 (starts with P)"@))
        } else if !has_char(s, 'T') && !is_suffix("D"@, s) && str_len(s) < 2 {
            Err(field_msg(name, "invalid duration format"@))
        } else {
            Ok(())
        },
        _ => Err(field_msg(name, "requires a string value"@)),
    }
}

/// The elements of a JSON array text, as written between its brackets and
/// commas; `None` when the text is not an array.
pub open spec fn json_array_items(t: Seq<char>) -> Option<Seq<Seq<char>>> {
    if t.len() >= 2 && t[0] == '[' && t.last() == ']' {
        let inner = t.subrange(1, t.len() - 1);
        if inner.len() == 0 { Some(Seq::empty()) } else { Some(split_char(inner, ',')) }
    } else {
        None
    }
}

/// The unsigned number a JSON element stands for (`Value::as_u64`).
pub open spec fn json_u64(e: Seq<char>) -> Option<int> {
    if e.len() > 0 && e[0] != '+' { parse_u64(e) } else { None }
}

/// An element that is a byte: a number up to 255.
pub open spec fn is_byte_element(e: Seq<char>) -> bool {
    json_u64(e) is Some && json_u64(e)->0 <= 255
}

/// The index of the first element among the first `n` that is not a byte.
pub open spec fn first_bad_byte(items: Seq<Seq<char>>, n: int) -> Option<int>
    decreases n,
{
    if n <= 0 {
        None
    } else {
        match first_bad_byte(items, n - 1) {
            Some(i) => Some(i),
            None => if is_byte_element(items[n - 1]) { None } else { Some(n - 1) },
        }
    }
}

proof fn lemma_first_bad_byte_stays(items: Seq<Seq<char>>, from: int, n: int)
    requires
        0 <= from <= n,
        first_bad_byte(items, from) is Some,
    ensures
        first_bad_byte(items, n) == first_bad_byte(items, from),
    decreases n - from,
{
    if n > from {
        lemma_first_bad_byte_stays(items, from, n - 1);
    }
}

/// The checks of a binary field: hexadecimal text of even length, or an
/// array whose elements are all bytes.
pub open spec fn binary_check(name: Seq<char>, nullable: bool, v: Val) -> Result<(), Seq<char>> {
    match v {
        Val::Null => null_outcome(name, nullable),
        Val::Text(s) => if str_len(s) % 2 != 0 {
            Err(field_msg(name, "hex string must have even length"@))
        } else if !all_hex(s) {
            Err(field_msg(name, "invalid hex characters"@))
        } else {
            Ok(())
        },
        Val::Json(t) => match json_array_items(t) {
            Some(items) => match first_bad_byte(items, items.len() as int) {
                Some(i) => Err(field_msg(name, "byte at index "@ + nat_str(i as nat) + " invalid"@)),
                None => Ok(()),
            },
            None => Err(field_msg(name, "requires hex string or byte array"@)),
        },
        _ => Err(field_msg(name, "requires hex string or byte array"@)),
    }
}

/// A lowercase hexadecimal digit.
pub open spec fn hex_char(d: nat) -> char {
    if d < 10 { ((d as int) + ('0' as int)) as char } else { ((d as int) - 10 + ('a' as int)) as char }
}

/// A number in lowercase hexadecimal.
pub open spec fn hex_digits(n: nat) -> Seq<char>
    decreases n,
{
    if n < 16 { seq![hex_char(n)] } else { hex_digits(n / 16).push(hex_char(n % 16)) }
}

/// A number in lowercase hexadecimal, at least two digits wide.
pub open spec fn hex2(n: nat) -> Seq<char> {
    if hex_digits(n).len() < 2 { "0"@ + hex_digits(n) } else { hex_digits(n) }
}

/// The hexadecimal of the elements among the first `n` that are numbers.
pub open spec fn hex_elements(items: Seq<Seq<char>>, n: int) -> Seq<char>
    decreases n,
{
    if n <= 0 {
        Seq::empty()
    } else {
        hex_elements(items, n - 1) + match json_u64(items[n - 1]) {
            Some(b) => hex2(b as nat),
            None => Seq::empty(),
        }
    }
}

/// How a binary field writes a value: text and arrays as `x'..'` literals.
pub open spec fn binary_to_db(v: Val) -> Seq<char> {
    match v {
        Val::Null => "NULL"@,
        Val::Text(s) => "x'"@ + s + "'"@,
        Val::Json(t) => match json_array_items(t) {
            Some(items) => "x'"@ + hex_elements(items, items.len() as int) + "'"@,
            None => t,
        },
        _ => json_text(v),
    }
}

/// How a binary field reads a column: the text inside `x'..'`, or the text itself.
pub open spec fn binary_from_db(t: Seq<char>) -> Seq<char> {
    if is_prefix("x'"@, t) && t.len() >= 3 && t.last() == '\'' { t.subrange(2, t.len() - 1) } else { t }
}

fn json_array_elements(t: &str) -> (r: Option<Vec<String>>)
    ensures
        match json_array_items(t@) {
            Some(items) => r matches Some(v) && views(v@) == items,
            None => r is None,
        },
{
    let v = chars_of(t);
    if v.len() >= 2 && v[0] == '[' && v[v.len() - 1] == ']' {
        let inner = crate::text::string_from_range(&v, 1, v.len() - 1);
        if str_is_empty(inner.as_str()) {
            Some(Vec::new())
        } else {
            Some(split_on_char(inner.as_str(), ','))
        }
    } else {
        None
    }
}

fn element_u64(e: &str) -> (r: Option<u64>)
    ensures
        match json_u64(e@) {
            Some(n) => r == Some(n as u64),
            None => r is None,
        },
{
    let v = chars_of(e);
    if v.len() > 0 && v[0] != '+' {
        parse_u64_str(e)
    } else {
        None
    }
}

fn byte_element_ok(e: &str) -> (r: bool)
    ensures
        r == is_byte_element(e@),
{
    match element_u64(e) {
        Some(n) => n <= 255,
        None => false,
    }
}

fn hex_digit_char(d: u64) -> (c: char)
    requires
        d < 16,
    ensures
        c == hex_char(d as nat),
{
    if d < 10 { ((d as u8) + 48) as char } else { ((d as u8) - 10 + 97) as char }
}

fn hex_of(n: u64) -> (r: String)
    ensures
        r@ == hex_digits(n as nat),
    decreases n,
{
    if n < 16 {
        let mut r = String::new();
        crate::text::push_char(&mut r, hex_digit_char(n));
        assert(r@ =~= seq![hex_char(n as nat)]);
        r
    } else {
        let mut r = hex_of(n / 16);
        crate::text::push_char(&mut r, hex_digit_char(n % 16));
        r
    }
}

fn hex2_of(n: u64) -> (r: String)
    ensures
        r@ == hex2(n as nat),
{
    let h = hex_of(n);
    if chars_of(h.as_str()).len() < 2 {
        concat2("0", h.as_str())
    } else {
        h
    }
}

fn binary_value_to_db(v: &FormValue) -> (r: String)
    ensures
        r@ == binary_to_db(v@),
{
    match v {
        FormValue::Null => owned("NULL"),
        FormValue::Text(s) => concat3("x'", s.as_str(), "'"),
        FormValue::Json(t) => match json_array_elements(t.as_str()) {
            Some(items) => {
                let ghost iv = views(items@);
                let mut hex = String::new();
                let mut i: usize = 0;
                while i < items.len()
                    invariant
                        i <= items@.len(),
                        iv == views(items@),
                        hex@ == hex_elements(iv, i as int),
                    decreases items.len() - i,
                {
                    assert(items@[i as int]@ == iv[i as int]);
                    match element_u64(items[i].as_str()) {
                        Some(b) => {
                            hex.append(hex2_of(b).as_str());
                        },
                        None => {},
                    }
                    i = i + 1;
                }
                concat3("x'", hex.as_str(), "'")
            },
            None => t.clone(),
        },
        _ => value_json_text(v),
    }
}

/// The integer ranges of the integer fields.
#[derive(Debug, Clone, Copy, PartialEq, Eq)]
pub enum IntRange {
    Small,
    NonNegative,
    PositiveSmall,
}

/// The checks of an integer field: an integer value in its range.
pub open spec fn int_range_check(name: Seq<char>, nullable: bool, v: Val, range: IntRange) -> Result<(), Seq<char>> {
    match v {
        Val::Null => null_outcome(name, nullable),
        _ => match as_i64(v) {
            Some(n) => match range {
                IntRange::Small => if n < -32768 || n > 32767 {
                    Err(field_msg(name, "value "@ + int_str(n) + " out of range for smallint"@))
                } else {
                    Ok(())
                },
                IntRange::NonNegative => if n < 0 {
                    Err(field_msg(name, "must be non-negative, got "@ + int_str(n)))
                } else {
                    Ok(())
                },
                IntRange::PositiveSmall => if n < 0 || n > 65535 {
                    Err(field_msg(name, "value "@ + int_str(n) + " out of range for positive smallint"@))
                } else {
                    Ok(())
                },
            },
            None => Err(field_msg(name, "requires an integer"@)),
        },
    }
}


/// A UUID in its 36-character text form.
#[derive(Debug)]
pub struct UUIDField {
    pub name: String,
    pub is_null: bool,
    pub is_unique: bool,
    pub default_val: Option<FormValue>,
}

impl UUIDField {
    /// A field named `name` without constraints.
    pub fn new(name: &str) -> (r: Self)
        ensures
            r.name@ == name@,
            !r.is_null,
            !r.is_unique,
            r.default_val is None,
    {
        UUIDField { name: owned(name), is_null: false, is_unique: false, default_val: None }
    }

    /// The same field, allowing null.
    pub fn null(self) -> (r: Self)
        ensures
            r.is_null,
            r.name == self.name && r.is_unique == self.is_unique && r.default_val == self.default_val,
    {
        UUIDField { is_null: true, ..self }
    }

    /// The same field, with unique values.
    pub fn unique(self) -> (r: Self)
        ensures
            r.is_unique,
            r.name == self.name && r.is_null == self.is_null && r.default_val == self.default_val,
    {
        UUIDField { is_unique: true, ..self }
    }

    /// The same field, with default value `val`.
    pub fn default(self, val: FormValue) -> (r: Self)
        ensures
            r.default_val == Some(val),
            r.name == self.name && r.is_null == self.is_null && r.is_unique == self.is_unique,
    {
        UUIDField { default_val: Some(val), ..self }
    }
}

impl Field for UUIDField {
    open spec fn field_name(&self) -> Seq<char> {
        self.name@
    }

    open spec fn primary(&self) -> bool {
        false
    }

    fn name(&self) -> (r: &str) {
        self.name.as_str()
    }

    fn field_type(&self) -> (r: FieldTypes)
        ensures
            r == FieldTypes::UUIDField,
    {
        FieldTypes::UUIDField
    }

    fn is_pk(&self) -> (r: bool)
        ensures
            !r,
    {
        false
    }

    fn is_null(&self) -> (r: bool)
        ensures
            r == self.is_null,
    {
        self.is_null
    }

    fn is_unique(&self) -> (r: bool)
        ensures
            r == self.is_unique,
    {
        self.is_unique
    }

    fn default(&self) -> (r: Option<FormValue>)
        ensures
            match self.default_val {
                Some(v) => r matches Some(x) && x@ == v@,
                None => r is None,
            },
    {
        match &self.default_val {
            Some(v) => Some(v.duplicate()),
            None => None,
        }
    }

    #[verifier::loop_isolation(false)]
    fn validate(&self, value: &FormValue) -> (r: Result<(), String>)
        ensures
            check_view(r) == uuid_check(self.name@, self.is_null, value@),
    {
        match value {
            FormValue::Null => null_check(self.name.as_str(), self.is_null),
            FormValue::Text(s) => {
                if str_byte_len(s.as_str()) != 36 {
                    return Err(field_error(self.name.as_str(), "UUID must be 36 characters"));
                }
                let parts = split_on_char(s.as_str(), '-');
                assert(views(parts@) == split_char(s@, '-'));
                if parts.len() != 5 {
                    return Err(field_error(self.name.as_str(), "invalid UUID format"));
                }
                assert(parts@[0]@ == split_char(s@, '-')[0] && parts@[1]@ == split_char(s@, '-')[1]
                    && parts@[2]@ == split_char(s@, '-')[2] && parts@[3]@ == split_char(s@, '-')[3]
                    && parts@[4]@ == split_char(s@, '-')[4]);
                if str_byte_len(parts[0].as_str()) != 8 || str_byte_len(parts[1].as_str()) != 4
                    || str_byte_len(parts[2].as_str()) != 4 || str_byte_len(parts[3].as_str()) != 4
                    || str_byte_len(parts[4].as_str()) != 12 {
                    return Err(field_error(self.name.as_str(), "invalid UUID structure"));
                }
                let mut i: usize = 0;
                while i < 5
                    invariant
                        i <= 5,
                        parts@.len() == 5,
                        views(parts@) == split_char(s@, '-'),
                        forall|j: int| 0 <= j < i ==> all_hex(#[trigger] split_char(s@, '-')[j]),
                    decreases 5 - i,
                {
                    assert(parts@[i as int]@ == split_char(s@, '-')[i as int]);
                    if !all_hex_str(parts[i].as_str()) {
                        assert(!all_hex(split_char(s@, '-')[i as int]));
                        return Err(field_error(self.name.as_str(), "UUID contains non-hex characters"));
                    }
                    i = i + 1;
                }
                Ok(())
            },
            _ => Err(field_error(self.name.as_str(), "requires a string value")),
        }
    }

    fn to_db(&self, value: &FormValue) -> (r: String)
        ensures
            r@ == text_to_db(value@),
    {
        text_value_to_db(value)
    }

    fn from_db(&self, value: &str) -> (r: FormValue)
        ensures
            r@ == Val::Text(value@),
    {
        FormValue::Text(owned(value))
    }
}

/// An email address.
#[derive(Debug)]
pub struct EmailField {
    pub name: String,
    pub is_null: bool,
    pub is_unique: bool,
    pub default_val: Option<FormValue>,
}

impl EmailField {
    /// A field named `name` without constraints.
    pub fn new(name: &str) -> (r: Self)
        ensures
            r.name@ == name@,
            !r.is_null,
            !r.is_unique,
            r.default_val is None,
    {
        EmailField { name: owned(name), is_null: false, is_unique: false, default_val: None }
    }

    /// The same field, allowing null.
    pub fn null(self) -> (r: Self)
        ensures
            r.is_null,
            r.name == self.name && r.is_unique == self.is_unique && r.default_val == self.default_val,
    {
        EmailField { is_null: true, ..self }
    }

    /// The same field, with unique values.
    pub fn unique(self) -> (r: Self)
        ensures
            r.is_unique,
            r.name == self.name && r.is_null == self.is_null && r.default_val == self.default_val,
    {
        EmailField { is_unique: true, ..self }
    }

    /// The same field, with default value `val`.
    pub fn default(self, val: FormValue) -> (r: Self)
        ensures
            r.default_val == Some(val),
            r.name == self.name && r.is_null == self.is_null && r.is_unique == self.is_unique,
    {
        EmailField { default_val: Some(val), ..self }
    }
}

impl Field for EmailField {
    open spec fn field_name(&self) -> Seq<char> {
        self.name@
    }

    open spec fn primary(&self) -> bool {
        false
    }

    fn name(&self) -> (r: &str) {
        self.name.as_str()
    }

    fn field_type(&self) -> (r: FieldTypes)
        ensures
            r == FieldTypes::EmailField,
    {
        FieldTypes::EmailField
    }

    fn is_pk(&self) -> (r: bool)
        ensures
            !r,
    {
        false
    }

    fn is_null(&self) -> (r: bool)
        ensures
            r == self.is_null,
    {
        self.is_null
    }

    fn is_unique(&self) -> (r: bool)
        ensures
            r == self.is_unique,
    {
        self.is_unique
    }

    fn default(&self) -> (r: Option<FormValue>)
        ensures
            match self.default_val {
                Some(v) => r matches Some(x) && x@ == v@,
                None => r is None,
            },
    {
        match &self.default_val {
            Some(v) => Some(v.duplicate()),
            None => None,
        }
    }

    fn validate(&self, value: &FormValue) -> (r: Result<(), String>)
        ensures
            check_view(r) == email_check(self.name@, self.is_null, value@),
    {
        match value {
            FormValue::Null => null_check(self.name.as_str(), self.is_null),
            FormValue::Text(s) => {
                let t = trim(s.as_str());
                if !contains_char(&chars_of(t.as_str()), '@') {
                    return Err(field_error(self.name.as_str(), "must contain '@'"));
                }
                let (local, domain) = split_first_str(t.as_str(), '@');
                if str_is_empty(local.as_str()) || str_is_empty(domain.as_str()) {
                    return Err(field_error(self.name.as_str(), "invalid email format"));
                }
                if !contains_char(&chars_of(domain.as_str()), '.') {
                    return Err(field_error(self.name.as_str(), "domain must contain '.'"));
                }
                Ok(())
            },
            _ => Err(field_error(self.name.as_str(), "requires a string value")),
        }
    }

    fn to_db(&self, value: &FormValue) -> (r: String)
        ensures
            r@ == text_to_db(value@),
    {
        text_value_to_db(value)
    }

    fn from_db(&self, value: &str) -> (r: FormValue)
        ensures
            r@ == Val::Text(value@),
    {
        FormValue::Text(owned(value))
    }
}

/// A web address.
#[derive(Debug)]
pub struct URLField {
    pub name: String,
    pub is_null: bool,
    pub is_unique: bool,
    pub default_val: Option<FormValue>,
}

impl URLField {
    /// A field named `name` without constraints.
    pub fn new(name: &str) -> (r: Self)
        ensures
            r.name@ == name@,
            !r.is_null,
            !r.is_unique,
            r.default_val is None,
    {
        URLField { name: owned(name), is_null: false, is_unique: false, default_val: None }
    }

    /// The same field, allowing null.
    pub fn null(self) -> (r: Self)
        ensures
            r.is_null,
            r.name == self.name && r.is_unique == self.is_unique && r.default_val == self.default_val,
    {
        URLField { is_null: true, ..self }
    }

    /// The same field, with unique values.
    pub fn unique(self) -> (r: Self)
        ensures
            r.is_unique,
            r.name == self.name && r.is_null == self.is_null && r.default_val == self.default_val,
    {
        URLField { is_unique: true, ..self }
    }

    /// The same field, with default value `val`.
    pub fn default(self, val: FormValue) -> (r: Self)
        ensures
            r.default_val == Some(val),
            r.name == self.name && r.is_null == self.is_null && r.is_unique == self.is_unique,
    {
        URLField { default_val: Some(val), ..self }
    }
}

impl Field for URLField {
    open spec fn field_name(&self) -> Seq<char> {
        self.name@
    }

    open spec fn primary(&self) -> bool {
        false
    }

    fn name(&self) -> (r: &str) {
        self.name.as_str()
    }

    fn field_type(&self) -> (r: FieldTypes)
        ensures
            r == FieldTypes::URLField,
    {
        FieldTypes::URLField
    }

    fn is_pk(&self) -> (r: bool)
        ensures
            !r,
    {
        false
    }

    fn is_null(&self) -> (r: bool)
        ensures
            r == self.is_null,
    {
        self.is_null
    }

    fn is_unique(&self) -> (r: bool)
        ensures
            r == self.is_unique,
    {
        self.is_unique
    }

    fn default(&self) -> (r: Option<FormValue>)
        ensures
            match self.default_val {
                Some(v) => r matches Some(x) && x@ == v@,
                None => r is None,
            },
    {
        match &self.default_val {
            Some(v) => Some(v.duplicate()),
            None => None,
        }
    }

    fn validate(&self, value: &FormValue) -> (r: Result<(), String>)
        ensures
            check_view(r) == url_check(self.name@, self.is_null, value@),
    {
        match value {
            FormValue::Null => null_check(self.name.as_str(), self.is_null),
            FormValue::Text(s) => {
                let t = trim(s.as_str());
                if !starts_with(t.as_str(), "http://") && !starts_with(t.as_str(), "https://") {
                    return Err(field_error(self.name.as_str(), "URL must start with http:// or https://"));
                }
                if str_byte_len(t.as_str()) < 10 {
                    return Err(field_error(self.name.as_str(), "URL too short"));
                }
                Ok(())
            },
            _ => Err(field_error(self.name.as_str(), "requires a string value")),
        }
    }

    fn to_db(&self, value: &FormValue) -> (r: String)
        ensures
            r@ == text_to_db(value@),
    {
        text_value_to_db(value)
    }

    fn from_db(&self, value: &str) -> (r: FormValue)
        ensures
            r@ == Val::Text(value@),
    {
        FormValue::Text(owned(value))
    }
}

/// A slug: letters, digits, hyphens and underscores.
#[derive(Debug)]
pub struct SlugField {
    pub name: String,
    pub is_null: bool,
    pub is_unique: bool,
    pub default_val: Option<FormValue>,
}

impl SlugField {
    /// A field named `name` without constraints.
    pub fn new(name: &str) -> (r: Self)
        ensures
            r.name@ == name@,
            !r.is_null,
            !r.is_unique,
            r.default_val is None,
    {
        SlugField { name: owned(name), is_null: false, is_unique: false, default_val: None }
    }

    /// The same field, allowing null.
    pub fn null(self) -> (r: Self)
        ensures
            r.is_null,
            r.name == self.name && r.is_unique == self.is_unique && r.default_val == self.default_val,
    {
        SlugField { is_null: true, ..self }
    }

    /// The same field, with unique values.
    pub fn unique(self) -> (r: Self)
        ensures
            r.is_unique,
            r.name == self.name && r.is_null == self.is_null && r.default_val == self.default_val,
    {
        SlugField { is_unique: true, ..self }
    }

    /// The same field, with default value `val`.
    pub fn default(self, val: FormValue) -> (r: Self)
        ensures
            r.default_val == Some(val),
            r.name == self.name && r.is_null == self.is_null && r.is_unique == self.is_unique,
    {
        SlugField { default_val: Some(val), ..self }
    }
}

impl Field for SlugField {
    open spec fn field_name(&self) -> Seq<char> {
        self.name@
    }

    open spec fn primary(&self) -> bool {
        false
    }

    fn name(&self) -> (r: &str) {
        self.name.as_str()
    }

    fn field_type(&self) -> (r: FieldTypes)
        ensures
            r == FieldTypes::SlugField,
    {
        FieldTypes::SlugField
    }

    fn is_pk(&self) -> (r: bool)
        ensures
            !r,
    {
        false
    }

    fn is_null(&self) -> (r: bool)
        ensures
            r == self.is_null,
    {
        self.is_null
    }

    fn is_unique(&self) -> (r: bool)
        ensures
            r == self.is_unique,
    {
        self.is_unique
    }

    fn default(&self) -> (r: Option<FormValue>)
        ensures
            match self.default_val {
                Some(v) => r matches Some(x) && x@ == v@,
                None => r is None,
            },
    {
        match &self.default_val {
            Some(v) => Some(v.duplicate()),
            None => None,
        }
    }

    fn validate(&self, value: &FormValue) -> (r: Result<(), String>)
        ensures
            check_view(r) == slug_check(self.name@, self.is_null, value@),
    {
        match value {
            FormValue::Null => null_check(self.name.as_str(), self.is_null),
            FormValue::Text(s) => {
                if !slug_chars_str(s.as_str()) {
                    return Err(field_error(self.name.as_str(), "slug must be alphanumeric, hyphens, or underscores"));
                }
                if str_is_empty(s.as_str()) {
                    return Err(field_error(self.name.as_str(), "slug cannot be empty"));
                }
                Ok(())
            },
            _ => Err(field_error(self.name.as_str(), "requires a string value")),
        }
    }

    fn to_db(&self, value: &FormValue) -> (r: String)
        ensures
            r@ == text_to_db(value@),
    {
        text_value_to_db(value)
    }

    fn from_db(&self, value: &str) -> (r: FormValue)
        ensures
            r@ == Val::Text(value@),
    {
        FormValue::Text(owned(value))
    }
}

/// An IP address of the protocol given: `IPv4`, `IPv6`, or any other text for both.
#[derive(Debug)]
pub struct GenericIPAddressField {
    pub name: String,
    pub is_null: bool,
    pub is_unique: bool,
    pub default_val: Option<FormValue>,
    pub protocol: String,
}

impl GenericIPAddressField {
    /// A field named `name` without constraints.
    pub fn new(name: &str, protocol: &str) -> (r: Self)
        ensures
            r.name@ == name@,
            !r.is_null,
            !r.is_unique,
            r.default_val is None,
            r.protocol@ == protocol@,
    {
        GenericIPAddressField { name: owned(name), is_null: false, is_unique: false, default_val: None, protocol: owned(protocol) }
    }

    /// The same field, allowing null.
    pub fn null(self) -> (r: Self)
        ensures
            r.is_null,
            r.name == self.name && r.is_unique == self.is_unique && r.default_val == self.default_val && r.protocol == self.protocol,
    {
        GenericIPAddressField { is_null: true, ..self }
    }

    /// The same field, with unique values.
    pub fn unique(self) -> (r: Self)
        ensures
            r.is_unique,
            r.name == self.name && r.is_null == self.is_null && r.default_val == self.default_val && r.protocol == self.protocol,
    {
        GenericIPAddressField { is_unique: true, ..self }
    }

    /// The same field, with default value `val`.
    pub fn default(self, val: FormValue) -> (r: Self)
        ensures
            r.default_val == Some(val),
            r.name == self.name && r.is_null == self.is_null && r.is_unique == self.is_unique && r.protocol == self.protocol,
    {
        GenericIPAddressField { default_val: Some(val), ..self }
    }
}

impl Field for GenericIPAddressField {
    open spec fn field_name(&self) -> Seq<char> {
        self.name@
    }

    open spec fn primary(&self) -> bool {
        false
    }

    fn name(&self) -> (r: &str) {
        self.name.as_str()
    }

    fn field_type(&self) -> (r: FieldTypes)
        ensures
            r == FieldTypes::GenericIPAddressField,
    {
        FieldTypes::GenericIPAddressField
    }

    fn is_pk(&self) -> (r: bool)
        ensures
            !r,
    {
        false
    }

    fn is_null(&self) -> (r: bool)
        ensures
            r == self.is_null,
    {
        self.is_null
    }

    fn is_unique(&self) -> (r: bool)
        ensures
            r == self.is_unique,
    {
        self.is_unique
    }

    fn default(&self) -> (r: Option<FormValue>)
        ensures
            match self.default_val {
                Some(v) => r matches Some(x) && x@ == v@,
                None => r is None,
            },
    {
        match &self.default_val {
            Some(v) => Some(v.duplicate()),
            None => None,
        }
    }

    #[verifier::loop_isolation(false)]
    fn validate(&self, value: &FormValue) -> (r: Result<(), String>)
        ensures
            check_view(r) == ip_check(self.name@, self.is_null, self.protocol@, value@),
    {
        match value {
            FormValue::Null => null_check(self.name.as_str(), self.is_null),
            FormValue::Text(s) => {
                let t = trim(s.as_str());
                let v4 = looks_v4_str(t.as_str());
                let v6 = looks_v6_str(t.as_str());
                if str_eq(self.protocol.as_str(), "IPv4") {
                    if !v4 {
                        return Err(field_error(self.name.as_str(), "requires IPv4 address"));
                    }
                } else if str_eq(self.protocol.as_str(), "IPv6") {
                    if !v6 {
                        return Err(field_error(self.name.as_str(), "requires IPv6 address"));
                    }
                } else if !v4 && !v6 {
                    return Err(field_error(self.name.as_str(), "invalid IP address"));
                }
                if v4 {
                    let octets = split_on_char(t.as_str(), '.');
                    let ghost os = split_char(t@, '.');
                    let mut i: usize = 0;
                    while i < octets.len()
                        invariant
                            i <= octets@.len(),
                            views(octets@) == os,
                            first_octet_error(os, i as int) is None,
                        decreases octets.len() - i,
                    {
                        assert(octets@[i as int]@ == os[i as int]);
                        match parse_u16_str(octets[i].as_str()) {
                            Some(val) => {
                                if val > 255 {
                                    let rest = concat2("invalid octet: ", u64_to_string(val as u64).as_str());
                                    assert(first_octet_error(os, i + 1) == Some(rest@));
                                    proof { lemma_first_octet_error_stays(os, i + 1, os.len() as int); }
                                    return Err(field_error(self.name.as_str(), rest.as_str()));
                                }
                            },
                            None => {
                                let rest = concat2("invalid octet: ", octets[i].as_str());
                                assert(first_octet_error(os, i + 1) == Some(rest@));
                                proof { lemma_first_octet_error_stays(os, i + 1, os.len() as int); }
                                return Err(field_error(self.name.as_str(), rest.as_str()));
                            },
                        }
                        i = i + 1;
                    }
                }
                Ok(())
            },
            _ => Err(field_error(self.name.as_str(), "requires a string value")),
        }
    }

    fn to_db(&self, value: &FormValue) -> (r: String)
        ensures
            r@ == text_to_db(value@),
    {
        text_value_to_db(value)
    }

    fn from_db(&self, value: &str) -> (r: FormValue)
        ensures
            r@ == Val::Text(value@),
    {
        FormValue::Text(owned(value))
    }
}

/// A time of day as `HH:MM:SS`.
#[derive(Debug)]
pub struct TimeField {
    pub name: String,
    pub is_null: bool,
    pub is_unique: bool,
    pub default_val: Option<FormValue>,
}

impl TimeField {
    /// A field named `name` without constraints.
    pub fn new(name: &str) -> (r: Self)
        ensures
            r.name@ == name@,
            !r.is_null,
            !r.is_unique,
            r.default_val is None,
    {
        TimeField { name: owned(name), is_null: false, is_unique: false, default_val: None }
    }

    /// The same field, allowing null.
    pub fn null(self) -> (r: Self)
        ensures
            r.is_null,
            r.name == self.name && r.is_unique == self.is_unique && r.default_val == self.default_val,
    {
        TimeField { is_null: true, ..self }
    }

    /// The same field, with unique values.
    pub fn unique(self) -> (r: Self)
        ensures
            r.is_unique,
            r.name == self.name && r.is_null == self.is_null && r.default_val == self.default_val,
    {
        TimeField { is_unique: true, ..self }
    }

    /// The same field, with default value `val`.
    pub fn default(self, val: FormValue) -> (r: Self)
        ensures
            r.default_val == Some(val),
            r.name == self.name && r.is_null == self.is_null && r.is_unique == self.is_unique,
    {
        TimeField { default_val: Some(val), ..self }
    }
}

impl Field for TimeField {
    open spec fn field_name(&self) -> Seq<char> {
        self.name@
    }

    open spec fn primary(&self) -> bool {
        false
    }

    fn name(&self) -> (r: &str) {
        self.name.as_str()
    }

    fn field_type(&self) -> (r: FieldTypes)
        ensures
            r == FieldTypes::TimeField,
    {
        FieldTypes::TimeField
    }

    fn is_pk(&self) -> (r: bool)
        ensures
            !r,
    {
        false
    }

    fn is_null(&self) -> (r: bool)
        ensures
            r == self.is_null,
    {
        self.is_null
    }

    fn is_unique(&self) -> (r: bool)
        ensures
            r == self.is_unique,
    {
        self.is_unique
    }

    fn default(&self) -> (r: Option<FormValue>)
        ensures
            match self.default_val {
                Some(v) => r matches Some(x) && x@ == v@,
                None => r is None,
            },
    {
        match &self.default_val {
            Some(v) => Some(v.duplicate()),
            None => None,
        }
    }

    fn validate(&self, value: &FormValue) -> (r: Result<(), String>)
        ensures
            check_view(r) == time_check(self.name@, self.is_null, value@),
    {
        match value {
            FormValue::Null => null_check(self.name.as_str(), self.is_null),
            FormValue::Text(s) => {
                let parts = split_on_char(s.as_str(), ':');
                assert(views(parts@) == split_char(s@, ':'));
                if parts.len() != 3 {
                    return Err(field_error(self.name.as_str(), "time must be HH:MM:SS"));
                }
                assert(parts@[0]@ == split_char(s@, ':')[0] && parts@[1]@ == split_char(s@, ':')[1]
                    && parts@[2]@ == split_char(s@, ':')[2]);
                if str_byte_len(parts[0].as_str()) != 2 || str_byte_len(parts[1].as_str()) != 2
                    || str_byte_len(parts[2].as_str()) != 2 {
                    return Err(field_error(self.name.as_str(), "time parts must be 2 digits each"));
                }
                let h = match parse_u8_str(parts[0].as_str()) {
                    Some(v) => v,
                    None => return Err(field_error(self.name.as_str(), "invalid hour")),
                };
                let m = match parse_u8_str(parts[1].as_str()) {
                    Some(v) => v,
                    None => return Err(field_error(self.name.as_str(), "invalid minute")),
                };
                let sec = match parse_u8_str(parts[2].as_str()) {
                    Some(v) => v,
                    None => return Err(field_error(self.name.as_str(), "invalid second")),
                };
                if h > 23 || m > 59 || sec > 59 {
                    return Err(field_error(self.name.as_str(), "invalid time value"));
                }
                Ok(())
            },
            _ => Err(field_error(self.name.as_str(), "requires a string value")),
        }
    }

    fn to_db(&self, value: &FormValue) -> (r: String)
        ensures
            r@ == text_to_db(value@),
    {
        text_value_to_db(value)
    }

    fn from_db(&self, value: &str) -> (r: FormValue)
        ensures
            r@ == Val::Text(value@),
    {
        FormValue::Text(owned(value))
    }
}

/// A duration in ISO 8601 form.
#[derive(Debug)]
pub struct DurationField {
    pub name: String,
    pub is_null: bool,
    pub is_unique: bool,
    pub default_val: Option<FormValue>,
}

impl DurationField {
    /// A field named `name` without constraints.
    pub fn new(name: &str) -> (r: Self)
        ensures
            r.name@ == name@,
            !r.is_null,
            !r.is_unique,
            r.default_val is None,
    {
        DurationField { name: owned(name), is_null: false, is_unique: false, default_val: None }
    }

    /// The same field, allowing null.
    pub fn null(self) -> (r: Self)
        ensures
            r.is_null,
            r.name == self.name && r.is_unique == self.is_unique && r.default_val == self.default_val,
    {
        DurationField { is_null: true, ..self }
    }

    /// The same field, with unique values.
    pub fn unique(self) -> (r: Self)
        ensures
            r.is_unique,
            r.name == self.name && r.is_null == self.is_null && r.default_val == self.default_val,
    {
        DurationField { is_unique: true, ..self }
    }

    /// The same field, with default value `val`.
    pub fn default(self, val: FormValue) -> (r: Self)
        ensures
            r.default_val == Some(val),
            r.name == self.name && r.is_null == self.is_null && r.is_unique == self.is_unique,
    {
        DurationField { default_val: Some(val), ..self }
    }
}

impl Field for DurationField {
    open spec fn field_name(&self) -> Seq<char> {
        self.name@
    }

    open spec fn primary(&self) -> bool {
        false
    }

    fn name(&self) -> (r: &str) {
        self.name.as_str()
    }

    fn field_type(&self) -> (r: FieldTypes)
        ensures
            r == FieldTypes::DurationField,
    {
        FieldTypes::DurationField
    }

    fn is_pk(&self) -> (r: bool)
        ensures
            !r,
    {
        false
    }

    fn is_null(&self) -> (r: bool)
        ensures
            r == self.is_null,
    {
        self.is_null
    }

    fn is_unique(&self) -> (r: bool)
        ensures
            r == self.is_unique,
    {
        self.is_unique
    }

    fn default(&self) -> (r: Option<FormValue>)
        ensures
            match self.default_val {
                Some(v) => r matches Some(x) && x@ == v@,
                None => r is None,
            },
    {
        match &self.default_val {
            Some(v) => Some(v.duplicate()),
            None => None,
        }
    }

    fn validate(&self, value: &FormValue) -> (r: Result<(), String>)
        ensures
            check_view(r) == duration_check(self.name@, self.is_null, value@),
    {
        match value {
            FormValue::Null => null_check(self.name.as_str(), self.is_null),
            FormValue::Text(s) => {
                if !starts_with(s.as_str(), "P") && !starts_with(s.as_str(), "-") {
                    return Err(field_error(self.name.as_str(), "duration must be ISO 8601 (starts with P)"));
                }
                if !contains_char(&chars_of(s.as_str()), 'T') && !ends_with(s.as_str(), "D") && str_byte_len(s.as_str()) < 2 {
                    return Err(field_error(self.name.as_str(), "invalid duration format"));
                }
                Ok(())
            },
            _ => Err(field_error(self.name.as_str(), "requires a string value")),
        }
    }

    fn to_db(&self, value: &FormValue) -> (r: String)
        ensures
            r@ == text_to_db(value@),
    {
        text_value_to_db(value)
    }

    fn from_db(&self, value: &str) -> (r: FormValue)
        ensures
            r@ == Val::Text(value@),
    {
        FormValue::Text(owned(value))
    }
}

/// Binary data, given as hexadecimal text or as an array of bytes.
#[derive(Debug)]
pub struct BinaryField {
    pub name: String,
    pub is_null: bool,
    pub is_unique: bool,
    pub default_val: Option<FormValue>,
}

impl BinaryField {
    /// A field named `name` without constraints.
    pub fn new(name: &str) -> (r: Self)
        ensures
            r.name@ == name@,
            !r.is_null,
            !r.is_unique,
            r.default_val is None,
    {
        BinaryField { name: owned(name), is_null: false, is_unique: false, default_val: None }
    }

    /// The same field, allowing null.
    pub fn null(self) -> (r: Self)
        ensures
            r.is_null,
            r.name == self.name && r.is_unique == self.is_unique && r.default_val == self.default_val,
    {
        BinaryField { is_null: true, ..self }
    }

    /// The same field, with unique values.
    pub fn unique(self) -> (r: Self)
        ensures
            r.is_unique,
            r.name == self.name && r.is_null == self.is_null && r.default_val == self.default_val,
    {
        BinaryField { is_unique: true, ..self }
    }

    /// The same field, with default value `val`.
    pub fn default(self, val: FormValue) -> (r: Self)
        ensures
            r.default_val == Some(val),
            r.name == self.name && r.is_null == self.is_null && r.is_unique == self.is_unique,
    {
        BinaryField { default_val: Some(val), ..self }
    }
}

impl Field for BinaryField {
    open spec fn field_name(&self) -> Seq<char> {
        self.name@
    }

    open spec fn primary(&self) -> bool {
        false
    }

    fn name(&self) -> (r: &str) {
        self.name.as_str()
    }

    fn field_type(&self) -> (r: FieldTypes)
        ensures
            r == FieldTypes::BinaryField,
    {
        FieldTypes::BinaryField
    }

    fn is_pk(&self) -> (r: bool)
        ensures
            !r,
    {
        false
    }

    fn is_null(&self) -> (r: bool)
        ensures
            r == self.is_null,
    {
        self.is_null
    }

    fn is_unique(&self) -> (r: bool)
        ensures
            r == self.is_unique,
    {
        self.is_unique
    }

    fn default(&self) -> (r: Option<FormValue>)
        ensures
            match self.default_val {
                Some(v) => r matches Some(x) && x@ == v@,
                None => r is None,
            },
    {
        match &self.default_val {
            Some(v) => Some(v.duplicate()),
            None => None,
        }
    }

    #[verifier::loop_isolation(false)]
    fn validate(&self, value: &FormValue) -> (r: Result<(), String>)
        ensures
            check_view(r) == binary_check(self.name@, self.is_null, value@),
    {
        match value {
            FormValue::Null => null_check(self.name.as_str(), self.is_null),
            FormValue::Text(s) => {
                if str_byte_len(s.as_str()) % 2 != 0 {
                    return Err(field_error(self.name.as_str(), "hex string must have even length"));
                }
                if !all_hex_str(s.as_str()) {
                    return Err(field_error(self.name.as_str(), "invalid hex characters"));
                }
                Ok(())
            },
            FormValue::Json(t) => match json_array_elements(t.as_str()) {
                Some(items) => {
                    let ghost iv = views(items@);
                    let mut i: usize = 0;
                    while i < items.len()
                        invariant
                            i <= items@.len(),
                            iv == views(items@),
                            first_bad_byte(iv, i as int) is None,
                        decreases items.len() - i,
                    {
                        assert(items@[i as int]@ == iv[i as int]);
                        if !byte_element_ok(items[i].as_str()) {
                            let mut rest = concat2("byte at index ", usize_to_string(i).as_str());
                            rest.append(" invalid");
                            assert(first_bad_byte(iv, i + 1) == Some(i as int));
                            proof { lemma_first_bad_byte_stays(iv, i + 1, iv.len() as int); }
                            return Err(field_error(self.name.as_str(), rest.as_str()));
                        }
                        i = i + 1;
                    }
                    Ok(())
                },
                None => Err(field_error(self.name.as_str(), "requires hex string or byte array")),
            },
            _ => Err(field_error(self.name.as_str(), "requires hex string or byte array")),
        }
    }

    fn to_db(&self, value: &FormValue) -> (r: String)
        ensures
            r@ == binary_to_db(value@),
    {
        binary_value_to_db(value)
    }

    fn from_db(&self, value: &str) -> (r: FormValue)
        ensures
            r@ == Val::Text(binary_from_db(value@)),
    {
        let v = chars_of(value);
        if starts_with(value, "x'") && v.len() >= 3 && v[v.len() - 1] == '\'' {
            proof { reveal_strlit("x'"); }
            FormValue::Text(crate::text::string_from_range(&v, 2, v.len() - 1))
        } else {
            FormValue::Text(owned(value))
        }
    }
}

/// An integer from -32768 to 32767.
#[derive(Debug)]
pub struct SmallIntegerField {
    pub name: String,
    pub is_null: bool,
    pub is_unique: bool,
    pub default_val: Option<FormValue>,
}

impl SmallIntegerField {
    /// A field named `name` without constraints.
    pub fn new(name: &str) -> (r: Self)
        ensures
            r.name@ == name@,
            !r.is_null,
            !r.is_unique,
            r.default_val is None,
    {
        SmallIntegerField { name: owned(name), is_null: false, is_unique: false, default_val: None }
    }

    /// The same field, allowing null.
    pub fn null(self) -> (r: Self)
        ensures
            r.is_null,
            r.name == self.name && r.is_unique == self.is_unique && r.default_val == self.default_val,
    {
        SmallIntegerField { is_null: true, ..self }
    }

    /// The same field, with unique values.
    pub fn unique(self) -> (r: Self)
        ensures
            r.is_unique,
            r.name == self.name && r.is_null == self.is_null && r.default_val == self.default_val,
    {
        SmallIntegerField { is_unique: true, ..self }
    }

    /// The same field, with default value `val`.
    pub fn default(self, val: FormValue) -> (r: Self)
        ensures
            r.default_val == Some(val),
            r.name == self.name && r.is_null == self.is_null && r.is_unique == self.is_unique,
    {
        SmallIntegerField { default_val: Some(val), ..self }
    }
}

impl Field for SmallIntegerField {
    open spec fn field_name(&self) -> Seq<char> {
        self.name@
    }

    open spec fn primary(&self) -> bool {
        false
    }

    fn name(&self) -> (r: &str) {
        self.name.as_str()
    }

    fn field_type(&self) -> (r: FieldTypes)
        ensures
            r == FieldTypes::SmallIntegerField,
    {
        FieldTypes::SmallIntegerField
    }

    fn is_pk(&self) -> (r: bool)
        ensures
            !r,
    {
        false
    }

    fn is_null(&self) -> (r: bool)
        ensures
            r == self.is_null,
    {
        self.is_null
    }

    fn is_unique(&self) -> (r: bool)
        ensures
            r == self.is_unique,
    {
        self.is_unique
    }

    fn default(&self) -> (r: Option<FormValue>)
        ensures
            match self.default_val {
                Some(v) => r matches Some(x) && x@ == v@,
                None => r is None,
            },
    {
        match &self.default_val {
            Some(v) => Some(v.duplicate()),
            None => None,
        }
    }

    fn validate(&self, value: &FormValue) -> (r: Result<(), String>)
        ensures
            check_view(r) == int_range_check(self.name@, self.is_null, value@, IntRange::Small),
    {
        match value {
            FormValue::Null => null_check(self.name.as_str(), self.is_null),
            _ => match value_as_i64(value) {
                Some(n) => {
                    if n < -32768 || n > 32767 {
                        let mut rest = concat2("value ", i64_to_string(n).as_str());
                        rest.append(" out of range for smallint");
                        return Err(field_error(self.name.as_str(), rest.as_str()));
                    }
                    Ok(())
                },
                None => Err(field_error(self.name.as_str(), "requires an integer")),
            },
        }
    }

    fn to_db(&self, value: &FormValue) -> (r: String)
        ensures
            r@ == integer_to_db(value@),
    {
        integer_value_to_db(value)
    }

    fn from_db(&self, value: &str) -> (r: FormValue)
        ensures
            r@ == integer_from_db(value@),
    {
        integer_value_from_db(value)
    }
}

/// A non-negative integer.
#[derive(Debug)]
pub struct PositiveIntegerField {
    pub name: String,
    pub is_null: bool,
    pub is_unique: bool,
    pub default_val: Option<FormValue>,
}

impl PositiveIntegerField {
    /// A field named `name` without constraints.
    pub fn new(name: &str) -> (r: Self)
        ensures
            r.name@ == name@,
            !r.is_null,
            !r.is_unique,
            r.default_val is None,
    {
        PositiveIntegerField { name: owned(name), is_null: false, is_unique: false, default_val: None }
    }

    /// The same field, allowing null.
    pub fn null(self) -> (r: Self)
        ensures
            r.is_null,
            r.name == self.name && r.is_unique == self.is_unique && r.default_val == self.default_val,
    {
        PositiveIntegerField { is_null: true, ..self }
    }

    /// The same field, with unique values.
    pub fn unique(self) -> (r: Self)
        ensures
            r.is_unique,
            r.name == self.name && r.is_null == self.is_null && r.default_val == self.default_val,
    {
        PositiveIntegerField { is_unique: true, ..self }
    }

    /// The same field, with default value `val`.
    pub fn default(self, val: FormValue) -> (r: Self)
        ensures
            r.default_val == Some(val),
            r.name == self.name && r.is_null == self.is_null && r.is_unique == self.is_unique,
    {
        PositiveIntegerField { default_val: Some(val), ..self }
    }
}

impl Field for PositiveIntegerField {
    open spec fn field_name(&self) -> Seq<char> {
        self.name@
    }

    open spec fn primary(&self) -> bool {
        false
    }

    fn name(&self) -> (r: &str) {
        self.name.as_str()
    }

    fn field_type(&self) -> (r: FieldTypes)
        ensures
            r == FieldTypes::PositiveIntegerField,
    {
        FieldTypes::PositiveIntegerField
    }

    fn is_pk(&self) -> (r: bool)
        ensures
            !r,
    {
        false
    }

    fn is_null(&self) -> (r: bool)
        ensures
            r == self.is_null,
    {
        self.is_null
    }

    fn is_unique(&self) -> (r: bool)
        ensures
            r == self.is_unique,
    {
        self.is_unique
    }

    fn default(&self) -> (r: Option<FormValue>)
        ensures
            match self.default_val {
                Some(v) => r matches Some(x) && x@ == v@,
                None => r is None,
            },
    {
        match &self.default_val {
            Some(v) => Some(v.duplicate()),
            None => None,
        }
    }

    fn validate(&self, value: &FormValue) -> (r: Result<(), String>)
        ensures
            check_view(r) == int_range_check(self.name@, self.is_null, value@, IntRange::NonNegative),
    {
        match value {
            FormValue::Null => null_check(self.name.as_str(), self.is_null),
            _ => match value_as_i64(value) {
                Some(n) => {
                    if n < 0 {
                        let rest = concat2("must be non-negative, got ", i64_to_string(n).as_str());
                        return Err(field_error(self.name.as_str(), rest.as_str()));
                    }
                    Ok(())
                },
                None => Err(field_error(self.name.as_str(), "requires an integer")),
            },
        }
    }

    fn to_db(&self, value: &FormValue) -> (r: String)
        ensures
            r@ == integer_to_db(value@),
    {
        integer_value_to_db(value)
    }

    fn from_db(&self, value: &str) -> (r: FormValue)
        ensures
            r@ == integer_from_db(value@),
    {
        integer_value_from_db(value)
    }
}

/// An integer from 0 to 65535.
#[derive(Debug)]
pub struct PositiveSmallIntegerField {
    pub name: String,
    pub is_null: bool,
    pub is_unique: bool,
    pub default_val: Option<FormValue>,
}

impl PositiveSmallIntegerField {
    /// A field named `name` without constraints.
    pub fn new(name: &str) -> (r: Self)
        ensures
            r.name@ == name@,
            !r.is_null,
            !r.is_unique,
            r.default_val is None,
    {
        PositiveSmallIntegerField { name: owned(name), is_null: false, is_unique: false, default_val: None }
    }

    /// The same field, allowing null.
    pub fn null(self) -> (r: Self)
        ensures
            r.is_null,
            r.name == self.name && r.is_unique == self.is_unique && r.default_val == self.default_val,
    {
        PositiveSmallIntegerField { is_null: true, ..self }
    }

    /// The same field, with unique values.
    pub fn unique(self) -> (r: Self)
        ensures
            r.is_unique,
            r.name == self.name && r.is_null == self.is_null && r.default_val == self.default_val,
    {
        PositiveSmallIntegerField { is_unique: true, ..self }
    }

    /// The same field, with default value `val`.
    pub fn default(self, val: FormValue) -> (r: Self)
        ensures
            r.default_val == Some(val),
            r.name == self.name && r.is_null == self.is_null && r.is_unique == self.is_unique,
    {
        PositiveSmallIntegerField { default_val: Some(val), ..self }
    }
}

impl Field for PositiveSmallIntegerField {
    open spec fn field_name(&self) -> Seq<char> {
        self.name@
    }

    open spec fn primary(&self) -> bool {
        false
    }

    fn name(&self) -> (r: &str) {
        self.name.as_str()
    }

    fn field_type(&self) -> (r: FieldTypes)
        ensures
            r == FieldTypes::PositiveSmallIntegerField,
    {
        FieldTypes::PositiveSmallIntegerField
    }

    fn is_pk(&self) -> (r: bool)
        ensures
            !r,
    {
        false
    }

    fn is_null(&self) -> (r: bool)
        ensures
            r == self.is_null,
    {
        self.is_null
    }

    fn is_unique(&self) -> (r: bool)
        ensures
            r == self.is_unique,
    {
        self.is_unique
    }

    fn default(&self) -> (r: Option<FormValue>)
        ensures
            match self.default_val {
                Some(v) => r matches Some(x) && x@ == v@,
                None => r is None,
            },
    {
        match &self.default_val {
            Some(v) => Some(v.duplicate()),
            None => None,
        }
    }

    fn validate(&self, value: &FormValue) -> (r: Result<(), String>)
        ensures
            check_view(r) == int_range_check(self.name@, self.is_null, value@, IntRange::PositiveSmall),
    {
        match value {
            FormValue::Null => null_check(self.name.as_str(), self.is_null),
            _ => match value_as_i64(value) {
                Some(n) => {
                    if n < 0 || n > 65535 {
                        let mut rest = concat2("value ", i64_to_string(n).as_str());
                        rest.append(" out of range for positive smallint");
                        return Err(field_error(self.name.as_str(), rest.as_str()));
                    }
                    Ok(())
                },
                None => Err(field_error(self.name.as_str(), "requires an integer")),
            },
        }
    }

    fn to_db(&self, value: &FormValue) -> (r: String)
        ensures
            r@ == integer_to_db(value@),
    {
        integer_value_to_db(value)
    }

    fn from_db(&self, value: &str) -> (r: FormValue)
        ensures
            r@ == integer_from_db(value@),
    {
        integer_value_from_db(value)
    }
}


/// The text a decimal field checks: text as is, numbers as written.
pub open spec fn decimal_text(v: Val) -> Option<Seq<char>> {
    match v {
        Val::Text(s) => Some(s),
        Val::Number(t) => Some(t),
        _ => None,
    }
}

/// The checks of a decimal field with `max_digits` digits of which
/// `decimal_places` after the point: the text must read as a number; once
/// signs are dropped it may have one point, at most `max_digits -
/// decimal_places` characters before it and `decimal_places` after it.
pub open spec fn decimal_check(
    name: Seq<char>,
    nullable: bool,
    max_digits: nat,
    decimal_places: nat,
    v: Val,
) -> Result<(), Seq<char>> {
    match v {
        Val::Null => null_outcome(name, nullable),
        _ => match decimal_text(v) {
            None => Err(field_msg(name, "requires a numeric string"@)),
            Some(s) => {
                let parts = split_char(strip_signs(s), '.');
                let int_len = str_len(parts[0]);
                let frac_len: nat = if parts.len() > 1 { str_len(parts[1]) as nat } else { 0 };
                if float_syntax(s) is Invalid {
                    Err(field_msg(name, "is not a valid decimal: "@ + s))
                } else if parts.len() > 2 {
                    Err(field_msg(name, "has too many decimal points"@))
                } else if int_len > max_digits - decimal_places {
                    Err(field_msg(name, "integer part too long (max "@ + nat_str((max_digits - decimal_places) as nat) + ")"@))
                } else if frac_len > decimal_places {
                    Err(field_msg(name, "fractional part too long (max "@ + nat_str(decimal_places) + ")"@))
                } else {
                    Ok(())
                }
            },
        },
    }
}

/// How a decimal field writes a value: text and numbers as written.
pub open spec fn decimal_to_db(v: Val) -> Seq<char> {
    match v {
        Val::Null => "NULL"@,
        Val::Text(s) => s,
        Val::Number(t) => t,
        _ => json_text(v),
    }
}

/// A fixed-point number with at most `max_digits` digits, `decimal_places`
/// of them after the point.
#[derive(Debug)]
pub struct DecimalField {
    name: String,
    is_null: bool,
    is_unique: bool,
    default_val: Option<FormValue>,
    max_digits: usize,
    decimal_places: usize,
}

impl DecimalField {
    #[verifier::type_invariant]
    spec fn places_within_digits(self) -> bool {
        self.decimal_places <= self.max_digits
    }

    /// The field's name.
    pub closed spec fn spec_name(&self) -> Seq<char> {
        self.name@
    }

    /// Whether it allows null.
    pub closed spec fn spec_nullable(&self) -> bool {
        self.is_null
    }

    /// Whether its values are unique.
    pub closed spec fn spec_unique(&self) -> bool {
        self.is_unique
    }

    /// Its default value.
    pub closed spec fn spec_default(&self) -> Option<Val> {
        match self.default_val {
            Some(v) => Some(v@),
            None => None,
        }
    }

    /// The number of digits.
    pub closed spec fn spec_max_digits(&self) -> nat {
        self.max_digits as nat
    }

    /// The number of digits after the point.
    pub closed spec fn spec_decimal_places(&self) -> nat {
        self.decimal_places as nat
    }

    /// A field named `name` without constraints; there can be no more
    /// places after the point than digits.
    pub fn new(name: &str, max_digits: usize, decimal_places: usize) -> (r: Self)
        requires
            decimal_places <= max_digits,
        ensures
            r.spec_name() == name@,
            !r.spec_nullable(),
            !r.spec_unique(),
            r.spec_default() is None,
            r.spec_max_digits() == max_digits,
            r.spec_decimal_places() == decimal_places,
    {
        DecimalField { name: owned(name), is_null: false, is_unique: false, default_val: None, max_digits, decimal_places }
    }

    /// The same field, allowing null.
    pub fn null(self) -> (r: Self)
        ensures
            r.spec_nullable(),
            r.spec_name() == self.spec_name() && r.spec_unique() == self.spec_unique(),
            r.spec_default() == self.spec_default(),
            r.spec_max_digits() == self.spec_max_digits() && r.spec_decimal_places() == self.spec_decimal_places(),
    {
        proof { use_type_invariant(&self); }
        DecimalField { is_null: true, ..self }
    }

    /// The same field, with unique values.
    pub fn unique(self) -> (r: Self)
        ensures
            r.spec_unique(),
            r.spec_name() == self.spec_name() && r.spec_nullable() == self.spec_nullable(),
            r.spec_default() == self.spec_default(),
            r.spec_max_digits() == self.spec_max_digits() && r.spec_decimal_places() == self.spec_decimal_places(),
    {
        proof { use_type_invariant(&self); }
        DecimalField { is_unique: true, ..self }
    }

    /// The same field, with default value `val`.
    pub fn default(self, val: FormValue) -> (r: Self)
        ensures
            r.spec_default() == Some(val@),
            r.spec_name() == self.spec_name() && r.spec_nullable() == self.spec_nullable(),
            r.spec_unique() == self.spec_unique(),
            r.spec_max_digits() == self.spec_max_digits() && r.spec_decimal_places() == self.spec_decimal_places(),
    {
        proof { use_type_invariant(&self); }
        DecimalField { default_val: Some(val), ..self }
    }
}

impl Field for DecimalField {
    open spec fn field_name(&self) -> Seq<char> {
        self.spec_name()
    }

    open spec fn primary(&self) -> bool {
        false
    }

    fn name(&self) -> (r: &str) {
        self.name.as_str()
    }

    fn field_type(&self) -> (r: FieldTypes)
        ensures
            r == FieldTypes::DecimalField,
    {
        FieldTypes::DecimalField
    }

    fn is_pk(&self) -> (r: bool)
        ensures
            !r,
    {
        false
    }

    fn is_null(&self) -> (r: bool)
        ensures
            r == self.spec_nullable(),
    {
        self.is_null
    }

    fn is_unique(&self) -> (r: bool)
        ensures
            r == self.spec_unique(),
    {
        self.is_unique
    }

    fn default(&self) -> (r: Option<FormValue>)
        ensures
            match self.spec_default() {
                Some(v) => r matches Some(x) && x@ == v,
                None => r is None,
            },
    {
        match &self.default_val {
            Some(v) => Some(v.duplicate()),
            None => None,
        }
    }

    fn validate(&self, value: &FormValue) -> (r: Result<(), String>)
        ensures
            check_view(r) == decimal_check(
                self.spec_name(),
                self.spec_nullable(),
                self.spec_max_digits(),
                self.spec_decimal_places(),
                value@,
            ),
    {
        proof { use_type_invariant(self); }
        let s: String = match value {
            FormValue::Null => return null_check(self.name.as_str(), self.is_null),
            FormValue::Text(t) => t.clone(),
            FormValue::Number(t) => t.clone(),
            _ => return Err(field_error(self.name.as_str(), "requires a numeric string")),
        };
        let ghost parts_spec = split_char(strip_signs(s@), '.');
        proof { crate::text::lemma_split_char_nonempty(strip_signs(s@), '.'); }
        match read_float_syntax(s.as_str()) {
            FloatSyntax::Invalid => {
                let rest = concat2("is not a valid decimal: ", s.as_str());
                return Err(field_error(self.name.as_str(), rest.as_str()));
            },
            _ => {},
        }
        let cleaned = strip_signs_str(s.as_str());
        let parts = split_on_char(cleaned.as_str(), '.');
        assert(views(parts@) == parts_spec);
        if parts.len() > 2 {
            return Err(field_error(self.name.as_str(), "has too many decimal points"));
        }
        assert(parts@[0]@ == parts_spec[0]);
        let int_len = str_byte_len(parts[0].as_str());
        let frac_len: usize = if parts.len() > 1 {
            assert(parts@[1]@ == parts_spec[1]);
            str_byte_len(parts[1].as_str())
        } else {
            0
        };
        let int_max = self.max_digits - self.decimal_places;
        if int_len > int_max {
            let mut rest = concat2("integer part too long (max ", usize_to_string(int_max).as_str());
            rest.append(")");
            return Err(field_error(self.name.as_str(), rest.as_str()));
        }
        if frac_len > self.decimal_places {
            let mut rest = concat2("fractional part too long (max ", usize_to_string(self.decimal_places).as_str());
            rest.append(")");
            return Err(field_error(self.name.as_str(), rest.as_str()));
        }
        Ok(())
    }

    fn to_db(&self, value: &FormValue) -> (r: String)
        ensures
            r@ == decimal_to_db(value@),
    {
        match value {
            FormValue::Null => owned("NULL"),
            FormValue::Text(s) => s.clone(),
            FormValue::Number(t) => t.clone(),
            _ => value_json_text(value),
        }
    }

    fn from_db(&self, value: &str) -> (r: FormValue)
        ensures
            r@ == Val::Text(value@),
    {
        FormValue::Text(owned(value))
    }
}

} // verus!
