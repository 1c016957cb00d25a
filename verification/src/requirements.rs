//! What is required of the caller's parameters is only ever added to.

use vstd::prelude::*;
use crate::fields::{item_projected, projected, projection};
use crate::interpret::{
    entered, expr_outcome, parent_frame, requiring, stmt_outcome, target_row, this_frame,
};
use crate::kind::KindModel;
use crate::query::run;
use crate::state::StateModel;
use crate::statements::mutate_statement::{
    change_frame, mutate_outcome, row_after, row_before, Verb,
};
use crate::statements::relate_statement::{relate_fields, relate_object, relate_outcome};
use crate::statements::select_statement::select_outcome;
use crate::syntax::{
    Field, Fields, MutateStatement, Output, Part, RelateStatement, SelectStatement, Statement,
    ValueExpr,
};

verus! {

/// Whether every parameter of which something was required before has something
/// required of it after.
pub open spec fn kept(before: Map<Seq<char>, KindModel>, after: Map<Seq<char>, KindModel>) -> bool {
    forall|name: Seq<char>| #[trigger] before.contains_key(name) ==> after.contains_key(name)
}

proof fn lemma_expr_keeps(state: StateModel, row: Map<Seq<char>, KindModel>, expr: ValueExpr)
    ensures
        kept(state.required, expr_outcome(state, row, expr).required),
    decreases expr, 0nat,
{
    match expr {
        ValueExpr::FieldPath(parts) => {
            if parts.len() > 0 {
                match parts[0] {
                    Part::Start(start) => {
                        lemma_expr_keeps(state, row, *start);
                    },
                    _ => {},
                }
            }
        },
        ValueExpr::Subquery(statement) => {
            lemma_statement_keeps(entered(state, parent_frame(row)), *statement);
        },
        _ => {},
    }
}

proof fn lemma_item_keeps(
    state: StateModel,
    row: Map<Seq<char>, KindModel>,
    map: Map<Seq<char>, KindModel>,
    field: Field,
)
    ensures
        kept(state.required, item_projected(state, row, map, field).required),
    decreases field, 0nat,
{
    match field {
        Field::Single(expr, _) => {
            lemma_expr_keeps(state, row, expr);
        },
        _ => {},
    }
}

proof fn lemma_projected_keeps(
    state: StateModel,
    row: Map<Seq<char>, KindModel>,
    fields: Fields,
    n: nat,
)
    ensures
        kept(state.required, projected(state, row, fields, n).required),
    decreases fields, n,
{
    if n > 0 && n <= fields.items.len() {
        let before = projected(state, row, fields, (n - 1) as nat);
        lemma_projected_keeps(state, row, fields, (n - 1) as nat);
        match before.result {
            Ok(map) => {
                lemma_item_keeps(requiring(state, before.required), row, map, fields.items@[n - 1]);
            },
            Err(_) => {},
        }
    }
}

proof fn lemma_projection_keeps(
    state: StateModel,
    frame: Map<Seq<char>, KindModel>,
    row: Map<Seq<char>, KindModel>,
    fields: Fields,
)
    ensures
        kept(state.required, projection(state, frame, row, fields).required),
    decreases fields, fields.items.len() + 1,
{
    lemma_projected_keeps(entered(state, frame), row, fields, fields.items.len() as nat);
}

proof fn lemma_select_keeps(state: StateModel, select: SelectStatement)
    ensures
        kept(state.required, select_outcome(state, select).required),
    decreases select, 0nat,
{
    match target_row(state, select.what@) {
        Ok(row) => {
            lemma_projection_keeps(state, this_frame(row), row, select.fields);
        },
        Err(_) => {},
    }
}

proof fn lemma_mutate_keeps(state: StateModel, statement: MutateStatement, verb: Verb)
    ensures
        kept(state.required, mutate_outcome(state, statement, verb).required),
    decreases statement, 0nat,
{
    match target_row(state, statement.what@) {
        Ok(row) => match statement.output {
            Some(Output::Fields(fields)) => {
                lemma_projection_keeps(
                    state,
                    change_frame(row, row_before(row, verb), row_after(row, verb)),
                    row,
                    fields,
                );
            },
            _ => {},
        },
        Err(_) => {},
    }
}

proof fn lemma_relate_fields_keeps(state: StateModel, relate: RelateStatement, filtered: bool)
    ensures
        kept(state.required, relate_fields(state, relate, filtered).required),
    decreases relate, 0nat,
{
    match relate_object(state, relate) {
        Ok(object) => {
            if filtered {
                match relate.output {
                    Some(Output::Fields(fields)) => {
                        lemma_projection_keeps(state, this_frame(object), object, fields);
                    },
                    _ => {},
                }
            }
        },
        Err(_) => {},
    }
}

proof fn lemma_relate_keeps(state: StateModel, relate: RelateStatement)
    ensures
        kept(state.required, relate_outcome(state, relate).required),
    decreases relate, 1nat,
{
    lemma_relate_fields_keeps(state, relate, false);
    lemma_relate_fields_keeps(state, relate, true);
}

proof fn lemma_statement_keeps(state: StateModel, statement: Statement)
    ensures
        kept(state.required, stmt_outcome(state, statement).required),
    decreases statement, 0nat,
{
    match statement {
        Statement::Select(select) => lemma_select_keeps(state, select),
        Statement::Create(create) => lemma_mutate_keeps(state, create, Verb::Create),
        Statement::Update(update) => lemma_mutate_keeps(state, update, Verb::Update),
        Statement::Delete(delete) => lemma_mutate_keeps(state, delete, Verb::Delete),
        Statement::Insert(insert) => lemma_mutate_keeps(state, insert, Verb::Insert),
        Statement::Relate(relate) => lemma_relate_keeps(state, relate),
        Statement::Value(expr) => lemma_expr_keeps(state, Map::empty(), expr),
        Statement::Other => {},
    }
}

/// Typing a statement never takes a requirement back: every parameter of which
/// something was required before the statement has something required of it after,
/// whether the statement fails or not.
pub proof fn lemma_statement_keeps_requirements(state: StateModel, statement: Statement)
    ensures
        kept(state.required, stmt_outcome(state, statement).required),
{
    lemma_statement_keeps(state, statement);
}

/// Typing the statements of a query never takes a requirement back.
pub proof fn lemma_run_keeps_requirements(state: StateModel, statements: Seq<Statement>, n: nat)
    ensures
        kept(state.required, run(state, statements, n).required),
    decreases n,
{
    if n > 0 && n <= statements.len() {
        let before = run(state, statements, (n - 1) as nat);
        lemma_run_keeps_requirements(state, statements, (n - 1) as nat);
        if before.result is Ok {
            lemma_statement_keeps(requiring(state, before.required), statements[n - 1]);
        }
    }
}

} // verus!
