//! The kind of what `CREATE`, `UPDATE`, `DELETE` and `INSERT` return.

use vstd::prelude::*;
use crate::error::InferError;
use crate::fields::{get_statement_fields, projection};
use crate::interpret::{
    done, failed, get_target_row, requiring, row_frame, rows, target_row, this_frame, wrap_rows,
    Outcome,
};
use crate::kind::{Kind, KindModel, TableFields};
use crate::paths::agrees;
use crate::state::{QueryState, StateModel};
use crate::syntax::{Fields, MutateStatement, Output};
use crate::text::owned_text;

verus! {

/// Which statement changes the rows.
#[derive(Debug, Clone, Copy, PartialEq, Eq, Structural)]
pub enum Verb {
    Create,
    Update,
    Delete,
    Insert,
}

/// What a row is before the statement: nothing where the statement makes it.
pub open spec fn row_before(row: Map<Seq<char>, KindModel>, verb: Verb) -> KindModel {
    if verb is Update || verb is Delete {
        KindModel::Object(row)
    } else {
        KindModel::Null
    }
}

/// What a row is after the statement: nothing where the statement deletes it.
pub open spec fn row_after(row: Map<Seq<char>, KindModel>, verb: Verb) -> KindModel {
    if verb is Delete {
        KindModel::Null
    } else {
        KindModel::Object(row)
    }
}

/// The frame of a row that is changed: `$this` is the row, `$before` and `$after` are
/// what the row was and what it becomes.
pub open spec fn change_frame(
    row: Map<Seq<char>, KindModel>,
    before: KindModel,
    after: KindModel,
) -> Map<Seq<char>, KindModel> {
    this_frame(row).insert("before"@, before).insert("after"@, after)
}

/// The kind of what a statement that changes rows returns.
///
/// Without an output clause it returns the rows as they are after it. A deleted row is
/// nothing after the statement, and a row that is made was nothing before it.
pub open spec fn mutate_outcome(
    state: StateModel,
    statement: MutateStatement,
    verb: Verb,
) -> Outcome
    decreases statement, 0nat,
{
    match target_row(state, statement.what@) {
        Ok(row) => match statement.output {
            None => done(rows(row_after(row, verb), statement.only), state),
            Some(Output::After) => done(rows(row_after(row, verb), statement.only), state),
            Some(Output::Before) => done(rows(row_before(row, verb), statement.only), state),
            Some(Output::Nothing) => done(rows(KindModel::Null, statement.only), state),
            Some(Output::Null) => done(rows(KindModel::Null, statement.only), state),
            Some(Output::Diff) => failed(InferError::UnsupportedExpression, state),
            Some(Output::Fields(fields)) => {
                let object = projection(
                    state,
                    change_frame(row, row_before(row, verb), row_after(row, verb)),
                    row,
                    fields,
                );
                match object.result {
                    Ok(kind) => Outcome {
                        result: Ok(rows(kind, statement.only)),
                        required: object.required,
                    },
                    Err(_) => object,
                }
            },
        },
        Err(error) => failed(error, state),
    }
}

/// What a row is before a statement of the kind `verb`.
fn kind_before(row: &TableFields, verb: Verb) -> (kind: Kind)
    ensures
        kind@ == row_before(row@, verb),
{
    match verb {
        Verb::Update => Kind::Object(row.duplicate()),
        Verb::Delete => Kind::Object(row.duplicate()),
        _ => Kind::Null,
    }
}

/// What a row is after a statement of the kind `verb`.
fn kind_after(row: &TableFields, verb: Verb) -> (kind: Kind)
    ensures
        kind@ == row_after(row@, verb),
{
    match verb {
        Verb::Delete => Kind::Null,
        _ => Kind::Object(row.duplicate()),
    }
}

/// Finds the kind of what a statement that changes rows returns.
pub fn get_mutate_statement_return_type(
    statement: &MutateStatement,
    verb: Verb,
    state: &mut QueryState,
) -> (result: Result<Kind, InferError>)
    ensures
        final(state)@ == requiring(
            old(state)@,
            mutate_outcome(old(state)@, *statement, verb).required,
        ),
        agrees(result, mutate_outcome(old(state)@, *statement, verb).result),
    decreases statement, 0nat,
{
    let row = match get_target_row(&statement.what, state) {
        Ok(row) => row,
        Err(error) => {
            return Err(error);
        },
    };
    match &statement.output {
        None => Ok(wrap_rows(kind_after(&row, verb), statement.only)),
        Some(Output::After) => Ok(wrap_rows(kind_after(&row, verb), statement.only)),
        Some(Output::Before) => Ok(wrap_rows(kind_before(&row, verb), statement.only)),
        Some(Output::Nothing) => Ok(wrap_rows(Kind::Null, statement.only)),
        Some(Output::Null) => Ok(wrap_rows(Kind::Null, statement.only)),
        Some(Output::Diff) => Err(InferError::UnsupportedExpression),
        Some(Output::Fields(fields)) => {
            let mut frame = row_frame("this", &row);
            frame.insert(owned_text("before"), kind_before(&row, verb));
            frame.insert(owned_text("after"), kind_after(&row, verb));
            match get_statement_fields(&row, fields, frame, state) {
                Ok(kind) => Ok(wrap_rows(kind, statement.only)),
                Err(error) => Err(error),
            }
        },
    }
}

} // verus!
