//! The parsed form of queries and of schema definitions, as inference reads it.

use vstd::prelude::*;
use crate::kind::Kind;

verus! {

/// One step of a path.
#[derive(Debug)]
pub enum Part {
    /// The field of that name.
    Field(String),
    /// Every field, written `*`.
    Wildcard,
    /// Along the edges of a relation, to the table named.
    GraphStep(String),
    /// The value that the path sets out from, where it is not the current row.
    Start(Box<ValueExpr>),
    /// Any other step.
    Other,
}

/// An expression, as far as inference tells expressions apart.
#[derive(Debug)]
pub enum ValueExpr {
    /// A table, by name.
    Table(String),
    /// A list of expressions.
    Array(Vec<ValueExpr>),
    /// A parameter, by its name without the `$`.
    Param(String),
    /// One row: its table and its key.
    RecordId(String, String),
    /// A path of fields and graph steps.
    FieldPath(Vec<Part>),
    /// A statement in brackets, in the place of a value.
    Subquery(Box<Statement>),
    /// A literal: the kind of its value, and the text it is written as.
    Constant(Kind, String),
    /// Any other expression.
    Other,
}

/// One item of a list of fields to return.
#[derive(Debug)]
pub enum Field {
    /// `*`: all fields of the row.
    All,
    /// An expression, and the path under which its value is returned, if one is given.
    Single(ValueExpr, Option<Vec<Part>>),
}

/// A list of fields to return.
#[derive(Debug)]
pub struct Fields {
    pub items: Vec<Field>,
}

/// What a statement that changes rows returns.
#[derive(Debug)]
pub enum Output {
    /// `RETURN NONE`.
    Nothing,
    /// `RETURN NULL`.
    Null,
    /// `RETURN DIFF`: the changes made.
    Diff,
    /// `RETURN AFTER`: the rows as they are after the statement.
    After,
    /// `RETURN BEFORE`: the rows as they were before it.
    Before,
    /// `RETURN` and a list of fields.
    Fields(Fields),
}

/// The payload of a statement that writes.
#[derive(Debug)]
pub enum Data {
    /// `CONTENT` and an expression.
    ContentExpression(ValueExpr),
    /// `SET` and assignments, which are not looked into.
    SetExpression,
    /// Any other payload.
    Other,
}

/// `SELECT fields FROM what`.
#[derive(Debug)]
pub struct SelectStatement {
    pub fields: Fields,
    pub what: Vec<ValueExpr>,
    /// With `ONLY` the result is one row, not a list of rows.
    pub only: bool,
}

/// `CREATE`, `UPDATE`, `DELETE` or `INSERT` on the rows of `what`.
#[derive(Debug)]
pub struct MutateStatement {
    pub what: Vec<ValueExpr>,
    pub data: Option<Data>,
    pub output: Option<Output>,
    /// With `ONLY` the result is one row, not a list of rows.
    pub only: bool,
}

/// `RELATE from -> kind -> with`.
#[derive(Debug)]
pub struct RelateStatement {
    /// The relation table.
    pub kind: ValueExpr,
    /// Where the edges start.
    pub from: ValueExpr,
    /// Where the edges end.
    pub with: ValueExpr,
    pub data: Option<Data>,
    pub output: Option<Output>,
}

/// One statement of a query.
#[derive(Debug)]
pub enum Statement {
    Select(SelectStatement),
    Create(MutateStatement),
    Update(MutateStatement),
    Delete(MutateStatement),
    Insert(MutateStatement),
    Relate(RelateStatement),
    /// A bare expression.
    Value(ValueExpr),
    /// Any other statement.
    Other,
}

/// One statement of a schema.
#[derive(Debug)]
pub enum Definition {
    /// Declares the table called `name`.
    Table { name: String },
    /// Declares the field at `path` in `table`, with its kind.
    Field { table: String, path: Vec<Part>, kind: Kind },
    /// Declares that `table` holds edges, and from and to which tables they may go.
    Relation { table: String, in_tables: Vec<String>, out_tables: Vec<String> },
}

} // verus!
