//! The kind of what a `SELECT` returns.

use vstd::prelude::*;
use crate::error::InferError;
use crate::fields::{get_statement_fields, projected, projection};
use crate::interpret::{
    done, entered, failed, get_target_row, requiring, row_frame, rows, target_row, this_frame,
    wrap_rows, Outcome,
};
use crate::kind::{Kind, KindModel};
use crate::schema::select_fields;
use crate::paths::agrees;
use crate::state::{QueryState, StateModel};
use crate::syntax::SelectStatement;
use crate::utils::value_table;

verus! {

/// The kind of what a `SELECT` returns.
pub open spec fn select_outcome(state: StateModel, select: SelectStatement) -> Outcome
    decreases select, 0nat,
{
    match target_row(state, select.what@) {
        Ok(row) => {
            let object = projection(state, this_frame(row), row, select.fields);
            match object.result {
                Ok(kind) => Outcome {
                    result: Ok(rows(kind, select.only)),
                    required: object.required,
                },
                Err(_) => object,
            }
        },
        Err(error) => failed(error, state),
    }
}

/// Finds the kind of what a `SELECT` returns.
pub fn get_select_statement_return_type(
    select: &SelectStatement,
    state: &mut QueryState,
) -> (result: Result<Kind, InferError>)
    ensures
        final(state)@ == requiring(old(state)@, select_outcome(old(state)@, *select).required),
        agrees(result, select_outcome(old(state)@, *select).result),
    decreases select, 0nat,
{
    let row = match get_target_row(&select.what, state) {
        Ok(row) => row,
        Err(error) => {
            return Err(error);
        },
    };
    let frame = row_frame("this", &row);
    match get_statement_fields(&row, &select.fields, frame, state) {
        Ok(kind) => Ok(wrap_rows(kind, select.only)),
        Err(error) => Err(error),
    }
}

/// A `SELECT *` from a declared table returns rows with every declared field of the
/// table and its `id`, and requires nothing of the parameters.
pub proof fn lemma_select_everything(state: StateModel, select: SelectStatement, table: Seq<char>)
    requires
        select.what.len() > 0,
        value_table(select.what@[0], state.scope) == Ok::<_, InferError>(table),
        state.schema.contains_key(table),
        select.fields.items.len() == 1,
        select.fields.items@[0] is All,
    ensures
        select_outcome(state, select) == done(
            rows(KindModel::Object(select_fields(table, state.schema[table])), select.only),
            state,
        ),
{
    let row = select_fields(table, state.schema[table]);
    let inside = entered(state, this_frame(row));
    assert(projected(inside, row, select.fields, 0).result == Ok::<_, InferError>(
        Map::<Seq<char>, KindModel>::empty(),
    ));
    assert(Map::<Seq<char>, KindModel>::empty().union_prefer_right(row) =~= row);
    assert(projected(inside, row, select.fields, 1).result == Ok::<_, InferError>(row));
}

} // verus!
