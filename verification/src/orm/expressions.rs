//! SQL expressions and database functions (`django.db.models.expressions`).

use vstd::prelude::*;
use crate::text::{
    join, uppercase, to_uppercase, replace_char, replace_char_str, str_eq, concat2, concat3,
    owned, int_str, i64_to_string,
};

verus! {

/// A database expression that can be rendered as SQL.
#[derive(Debug)]
pub enum Expression {
    /// Column reference: `"table"."column"`
    Column { table: Option<String>, name: String },
    /// Value literal
    Value(String),
    /// SQL function call
    Function { name: String, args: Vec<Expression>, alias: Option<String> },
    /// Raw SQL expression
    Raw(String),
    /// Combined with AND
    And(Box<Expression>, Box<Expression>),
    /// Combined with OR
    Or(Box<Expression>, Box<Expression>),
    /// Negation
    Not(Box<Expression>),
}

/// The SQL text of an expression.
pub open spec fn expr_sql(e: Expression) -> Seq<char>
    decreases e,
{
    match e {
        Expression::Column { table, name } => match table {
            Some(t) => "\""@ + t@ + "\".\""@ + name@ + "\""@,
            None => "\""@ + name@ + "\""@,
        },
        Expression::Value(v) => if v@ == "NULL"@ {
            "NULL"@
        } else {
            "'"@ + replace_char(v@, '\'', "''"@) + "'"@
        },
        Expression::Function { name, args, alias } => {
            let call = uppercase(name@) + "("@ + join(exprs_sql(args@), ", "@) + ")"@;
            match alias {
                Some(a) => call + " AS \""@ + a@ + "\""@,
                None => call,
            }
        },
        Expression::Raw(s) => s@,
        Expression::And(a, b) => "("@ + expr_sql(*a) + " AND "@ + expr_sql(*b) + ")"@,
        Expression::Or(a, b) => "("@ + expr_sql(*a) + " OR "@ + expr_sql(*b) + ")"@,
        Expression::Not(x) => "NOT ("@ + expr_sql(*x) + ")"@,
    }
}

/// The SQL texts of a sequence of expressions.
pub open spec fn exprs_sql(s: Seq<Expression>) -> Seq<Seq<char>>
    decreases s,
{
    if s.len() == 0 {
        Seq::empty()
    } else {
        exprs_sql(s.drop_last()).push(expr_sql(s.last()))
    }
}

impl Expression {
    /// Render the expression as SQL.
    pub fn to_sql(&self) -> (r: String)
        ensures
            r@ == expr_sql(*self),
        decreases self,
    {
        match self {
            Expression::Column { table, name } => {
                match table {
                    Some(t) => {
                        let head = concat3("\"", t.as_str(), "\".\"");
                        concat3(head.as_str(), name.as_str(), "\"")
                    }
                    None => concat3("\"", name.as_str(), "\""),
                }
            }
            Expression::Value(v) => {
                if str_eq(v.as_str(), "NULL") {
                    owned("NULL")
                } else {
                    let esc = replace_char_str(v.as_str(), '\'', "''");
                    concat3("'", esc.as_str(), "'")
                }
            }
            Expression::Function { name, args, alias } => {
                let mut parts: Vec<String> = Vec::new();
                let mut i: usize = 0;
                while i < args.len()
                    invariant
                        i <= args.len(),
                        *self == (Expression::Function { name: *name, args: *args, alias: *alias }),
                        crate::text::views(parts@) == exprs_sql(args@.take(i as int)),
                    decreases args.len() - i,
                {
                    assert(args@.take(i + 1).drop_last() =~= args@.take(i as int));
                    proof {
                        assert(decreases_to!(*self => self->args));
                        assert(self->args == *args);
                        assert(decreases_to!(*args => args@));
                        assert(decreases_to!(args@ => args@[i as int]));
                        assert(decreases_to!(*self => args@[i as int]));
                    }
                    let s = args[i].to_sql();
                    parts.push(s);
                    assert(crate::text::views(parts@) =~= exprs_sql(args@.take(i + 1)));
                    i = i + 1;
                }
                assert(args@.take(args.len() as int) =~= args@);
                let joined = crate::text::join_strings(&parts, ", ");
                let upper = to_uppercase(name.as_str());
                let head = concat2(upper.as_str(), "(");
                let call = concat3(head.as_str(), joined.as_str(), ")");
                match alias {
                    Some(a) => {
                        let tail = concat3(" AS \"", a.as_str(), "\"");
                        concat2(call.as_str(), tail.as_str())
                    }
                    None => call,
                }
            }
            Expression::Raw(s) => owned(s.as_str()),
            Expression::And(a, b) => {
                let l = a.to_sql();
                let r = b.to_sql();
                let head = concat3("(", l.as_str(), " AND ");
                concat3(head.as_str(), r.as_str(), ")")
            }
            Expression::Or(a, b) => {
                let l = a.to_sql();
                let r = b.to_sql();
                let head = concat3("(", l.as_str(), " OR ");
                concat3(head.as_str(), r.as_str(), ")")
            }
            Expression::Not(e) => {
                let inner = e.to_sql();
                concat3("NOT (", inner.as_str(), ")")
            }
        }
    }
}

/// `NOW()` — current timestamp (like Django's `Now`).
pub fn now() -> (e: Expression)
    ensures
        e matches Expression::Function { name, args, alias } && name@ == "NOW"@ && args@.len() == 0 && alias is None,
{
    Expression::Function { name: owned("NOW"), args: Vec::new(), alias: None }
}

/// `CAST(expr AS type)` — type cast (like Django's `Cast`).
pub fn cast(expr: Expression, sql_type: &str) -> (e: Expression)
    ensures
        e matches Expression::Raw(s) && s@ == "CAST("@ + expr_sql(expr) + " AS "@ + sql_type@ + ")"@,
{
    let inner = expr.to_sql();
    let head = concat3("CAST(", inner.as_str(), " AS ");
    Expression::Raw(concat3(head.as_str(), sql_type, ")"))
}

/// `e` is the literal value whose text is `v`.
pub open spec fn is_value(e: Expression, v: Seq<char>) -> bool {
    e matches Expression::Value(x) && x@ == v
}

/// `e` is `SUBSTR(expr, start[, length])` with the numbers as value literals.
pub open spec fn is_substr_call(e: Expression, expr: Expression, start: int, length: Option<int>) -> bool {
    match e {
        Expression::Function { name, args, alias } => {
            &&& name@ == "SUBSTR"@
            &&& alias is None
            &&& args@.len() == (if length is Some { 3int } else { 2int })
            &&& args@[0] == expr
            &&& is_value(args@[1], int_str(start))
            &&& (match length { Some(l) => is_value(args@[2], int_str(l)), None => true })
        },
        _ => false,
    }
}

/// A call of the SQL function `fname` on `args`.
pub open spec fn is_call(e: Expression, fname: Seq<char>, args: Seq<Expression>) -> bool {
    e matches Expression::Function { name, args: a, alias } && name@ == fname && a@ == args && alias is None
}

/// `COALESCE(expr1, expr2, ...)` — first non-null (like Django's `Coalesce`).
pub fn coalesce(args: Vec<Expression>) -> (e: Expression)
    ensures
        is_call(e, "COALESCE"@, args@),
{
    Expression::Function { name: owned("COALESCE"), args, alias: None }
}

/// `LENGTH(expr)` — string length (like Django's `Length`).
pub fn length(expr: Expression) -> (e: Expression)
    ensures
        is_call(e, "LENGTH"@, seq![expr]),
{
    let mut args = Vec::new();
    args.push(expr);
    Expression::Function { name: owned("LENGTH"), args, alias: None }
}

/// `LOWER(expr)` — lowercase (like Django's `Lower`).
pub fn lower(expr: Expression) -> (e: Expression)
    ensures
        is_call(e, "LOWER"@, seq![expr]),
{
    let mut args = Vec::new();
    args.push(expr);
    Expression::Function { name: owned("LOWER"), args, alias: None }
}

/// `UPPER(expr)` — uppercase (like Django's `Upper`).
pub fn upper(expr: Expression) -> (e: Expression)
    ensures
        is_call(e, "UPPER"@, seq![expr]),
{
    let mut args = Vec::new();
    args.push(expr);
    Expression::Function { name: owned("UPPER"), args, alias: None }
}

/// `SUBSTR(expr, start, length)` — substring (like Django's `Substr`).
pub fn substr(expr: Expression, start: i32, length: Option<i32>) -> (e: Expression)
    ensures
        is_substr_call(e, expr, start as int, match length { Some(l) => Some(l as int), None => None }),
{
    let mut args = Vec::new();
    args.push(expr);
    args.push(Expression::Value(i64_to_string(start as i64)));
    if let Some(len) = length {
        args.push(Expression::Value(i64_to_string(len as i64)));
    }
    Expression::Function { name: owned("SUBSTR"), args, alias: None }
}

/// `TRIM(expr)` — trim whitespace (like Django's `Trim`).
pub fn trim(expr: Expression) -> (e: Expression)
    ensures
        is_call(e, "TRIM"@, seq![expr]),
{
    let mut args = Vec::new();
    args.push(expr);
    Expression::Function { name: owned("TRIM"), args, alias: None }
}

/// `CONCAT(expr1, expr2, ...)` — string concatenation (like Django's `Concat`).
pub fn concat(args: Vec<Expression>) -> (e: Expression)
    ensures
        is_call(e, "CONCAT"@, args@),
{
    Expression::Function { name: owned("CONCAT"), args, alias: None }
}

/// Column reference helper.
pub fn col(name: &str) -> (e: Expression)
    ensures
        e matches Expression::Column { table, name: n } && table is None && n@ == name@,
{
    Expression::Column { table: None, name: owned(name) }
}

/// Column reference with table.
pub fn col_table(table: &str, name: &str) -> (e: Expression)
    ensures
        e matches Expression::Column { table: t, name: n } && t matches Some(tt) && tt@ == table@ && n@ == name@,
{
    Expression::Column { table: Some(owned(table)), name: owned(name) }
}

/// Raw SQL expression.
pub fn raw(sql: &str) -> (e: Expression)
    ensures
        e matches Expression::Raw(s) && s@ == sql@,
{
    Expression::Raw(owned(sql))
}

/// F() expression — references a model field (like Django's `F()`).
pub struct F {
    pub name: String,
}

impl F {
    pub fn new(name: &str) -> (f: Self)
        ensures
            f.name@ == name@,
    {
        F { name: owned(name) }
    }

    /// The field reference as it displays: the name in double quotes.
    pub fn to_string(&self) -> (r: String)
        ensures
            r@ == "\""@ + self.name@ + "\""@,
    {
        concat3("\"", self.name.as_str(), "\"")
    }

    /// The column expression this field reference stands for.
    pub fn into_expression(self) -> (e: Expression)
        ensures
            e matches Expression::Column { table, name } && table is None && name@ == self.name@,
    {
        Expression::Column { table: None, name: self.name }
    }
}

impl From<F> for Expression {
    fn from(f: F) -> (e: Self) {
        Expression::Column { table: None, name: f.name }
    }
}

impl vstd::std_specs::convert::FromSpecImpl<F> for Expression {
    open spec fn obeys_from_spec() -> bool {
        true
    }

    open spec fn from_spec(f: F) -> Self {
        Expression::Column { table: None, name: f.name }
    }
}

} // verus!
