//! The kinds of expressions and of statements.

use vstd::prelude::*;
use vstd::slice::slice_subrange;
use crate::error::InferError;
use crate::kind::{array_of, kind_model, record_of, Kind, KindModel, TableFields};
use crate::paths::{agrees, walk_path, walked};
use crate::state::{bound, frames_model, QueryState, StateModel};
use crate::statements::mutate_statement::{get_mutate_statement_return_type, mutate_outcome, Verb};
use crate::statements::relate_statement::{get_relate_statement_return_type, relate_outcome};
use crate::statements::select_statement::{get_select_statement_return_type, select_outcome};
use crate::syntax::{Part, Statement, ValueExpr};
use crate::text::owned_text;
use crate::utils::{get_what_fields, what_fields};

verus! {

/// What typing an expression or a statement comes to: its kind or the failure, and what
/// is required of the caller's parameters by then.
pub ghost struct Outcome {
    pub result: Result<KindModel, InferError>,
    pub required: Map<Seq<char>, KindModel>,
}

/// The outcome that is a kind, with nothing newly required.
pub open spec fn done(kind: KindModel, state: StateModel) -> Outcome {
    Outcome { result: Ok(kind), required: state.required }
}

/// The outcome that is a failure, with nothing newly required.
pub open spec fn failed(error: InferError, state: StateModel) -> Outcome {
    Outcome { result: Err(error), required: state.required }
}

/// The state inside a nested context that `frame` opens.
pub open spec fn entered(state: StateModel, frame: Map<Seq<char>, KindModel>) -> StateModel {
    StateModel { scope: state.scope.push(frame), ..state }
}

/// The state in which `required` is what is required of the parameters.
pub open spec fn requiring(state: StateModel, required: Map<Seq<char>, KindModel>) -> StateModel {
    StateModel { required, ..state }
}

/// The frame of a row that is read: `$this` is the row.
pub open spec fn this_frame(row: Map<Seq<char>, KindModel>) -> Map<Seq<char>, KindModel> {
    Map::<Seq<char>, KindModel>::empty().insert("this"@, KindModel::Object(row))
}

/// The frame of a subquery: `$parent` is the row of the enclosing statement.
pub open spec fn parent_frame(row: Map<Seq<char>, KindModel>) -> Map<Seq<char>, KindModel> {
    Map::<Seq<char>, KindModel>::empty().insert("parent"@, KindModel::Object(row))
}

/// The kind of a list of rows, or of the one row where only one is asked for.
pub open spec fn rows(kind: KindModel, only: bool) -> KindModel {
    if only {
        kind
    } else {
        array_of(kind)
    }
}

/// The fields of the rows that a statement works on: those of its first target.
pub open spec fn target_row(state: StateModel, what: Seq<ValueExpr>) -> Result<
    Map<Seq<char>, KindModel>,
    InferError,
> {
    if what.len() == 0 {
        Err(InferError::EmptyTargetSet)
    } else {
        what_fields(what[0], state)
    }
}

/// The kind of an expression, in the row `row`.
///
/// A literal has its kind, a parameter the kind that it is bound to, a record id refers
/// to its table. A path is followed from the value that it sets out from, else from the
/// row. A subquery is typed as the statement that it is, with `$parent` bound to the row.
pub open spec fn expr_outcome(
    state: StateModel,
    row: Map<Seq<char>, KindModel>,
    expr: ValueExpr,
) -> Outcome
    decreases expr, 0nat,
{
    match expr {
        ValueExpr::Constant(kind, _) => done(kind@, state),
        ValueExpr::Param(name) => match bound(state.scope, name@) {
            Some(kind) => done(kind, state),
            None => failed(InferError::UnknownParameter, state),
        },
        ValueExpr::RecordId(table, _) => done(record_of(table@), state),
        ValueExpr::FieldPath(parts) => if parts.len() == 0 {
            failed(InferError::UnsupportedExpression, state)
        } else {
            match parts[0] {
                Part::Start(start) => {
                    let from = expr_outcome(state, row, *start);
                    match from.result {
                        Ok(kind) => Outcome {
                            result: walked(state.schema, kind, parts@.drop_first()),
                            required: from.required,
                        },
                        Err(_) => from,
                    }
                },
                _ => Outcome {
                    result: walked(state.schema, KindModel::Object(row), parts@),
                    required: state.required,
                },
            }
        },
        ValueExpr::Subquery(statement) => stmt_outcome(
            entered(state, parent_frame(row)),
            *statement,
        ),
        _ => failed(InferError::UnsupportedExpression, state),
    }
}

/// The kind of what a statement returns.
pub open spec fn stmt_outcome(state: StateModel, statement: Statement) -> Outcome
    decreases statement, 0nat,
{
    match statement {
        Statement::Select(select) => select_outcome(state, select),
        Statement::Create(create) => mutate_outcome(state, create, Verb::Create),
        Statement::Update(update) => mutate_outcome(state, update, Verb::Update),
        Statement::Delete(delete) => mutate_outcome(state, delete, Verb::Delete),
        Statement::Insert(insert) => mutate_outcome(state, insert, Verb::Insert),
        Statement::Relate(relate) => relate_outcome(state, relate),
        Statement::Value(expr) => expr_outcome(state, Map::empty(), expr),
        Statement::Other => failed(InferError::UnsupportedExpression, state),
    }
}

/// Opens a nested context with the bindings of `frame`.
pub(crate) fn enter(state: &mut QueryState, frame: TableFields)
    ensures
        final(state)@ == entered(old(state)@, frame@),
{
    state.scope.push(frame);
    assert(frames_model(state.scope@) =~= frames_model(old(state).scope@).push(frame@));
}

/// Closes the nested context that was opened last.
pub(crate) fn leave(state: &mut QueryState)
    requires
        old(state)@.scope.len() > 0,
    ensures
        final(state)@ == (StateModel { scope: old(state)@.scope.drop_last(), ..old(state)@ }),
{
    state.pop_stack_frame();
}

/// The frame in which `name` is bound to the object with the fields `row`.
pub(crate) fn row_frame(name: &str, row: &TableFields) -> (frame: TableFields)
    ensures
        frame@ == Map::<Seq<char>, KindModel>::empty().insert(name@, KindModel::Object(row@)),
{
    let mut frame = TableFields::new();
    frame.insert(owned_text(name), Kind::Object(row.duplicate()));
    frame
}

/// Finds the kind of the expression `expr`, in a row with the fields `row`.
pub fn get_field_return_type(
    expr: &ValueExpr,
    row: &TableFields,
    state: &mut QueryState,
) -> (result: Result<Kind, InferError>)
    ensures
        final(state)@ == requiring(old(state)@, expr_outcome(old(state)@, row@, *expr).required),
        agrees(result, expr_outcome(old(state)@, row@, *expr).result),
    decreases expr, 0nat,
{
    proof {
        reveal_with_fuel(kind_model, 2);
    }
    match expr {
        ValueExpr::Constant(kind, _) => Ok(kind.duplicate()),
        ValueExpr::Param(name) => match state.get(name.as_str()) {
            Some(kind) => Ok(kind.duplicate()),
            None => Err(InferError::UnknownParameter),
        },
        ValueExpr::RecordId(table, _) => Ok(Kind::record(table.as_str())),
        ValueExpr::FieldPath(parts) => {
            if parts.len() == 0 {
                return Err(InferError::UnsupportedExpression);
            }
            match &parts[0] {
                Part::Start(start) => {
                    let from = match get_field_return_type(start, row, state) {
                        Ok(kind) => kind,
                        Err(error) => {
                            return Err(error);
                        },
                    };
                    let rest = slice_subrange(parts.as_slice(), 1, parts.len());
                    assert(rest@ =~= parts@.drop_first());
                    walk_path(state.schema, &from, rest)
                },
                _ => {
                    let whole = Kind::Object(row.duplicate());
                    walk_path(state.schema, &whole, parts.as_slice())
                },
            }
        },
        ValueExpr::Subquery(statement) => {
            let ghost before = state@;
            enter(state, row_frame("parent", row));
            let result = get_statement_return_type(statement, state);
            leave(state);
            assert(state@.scope =~= before.scope);
            result
        },
        _ => Err(InferError::UnsupportedExpression),
    }
}

/// Finds the fields of the rows that a statement works on.
pub(crate) fn get_target_row(what: &Vec<ValueExpr>, state: &mut QueryState) -> (result: Result<
    TableFields,
    InferError,
>)
    ensures
        *final(state) == *old(state),
        match result {
            Ok(row) => target_row(old(state)@, what@) == Ok::<_, InferError>(row@),
            Err(error) => target_row(old(state)@, what@) == Err::<Map<Seq<char>, KindModel>, _>(
                error,
            ),
        },
{
    if what.len() == 0 {
        Err(InferError::EmptyTargetSet)
    } else {
        get_what_fields(&what[0], state)
    }
}

/// The kind of a list of rows of kind `kind`, or of the one row.
pub(crate) fn wrap_rows(kind: Kind, only: bool) -> (wrapped: Kind)
    ensures
        wrapped@ == rows(kind@, only),
{
    if only {
        kind
    } else {
        kind.array()
    }
}

/// Finds the kind of what the statement `statement` returns.
pub fn get_statement_return_type(statement: &Statement, state: &mut QueryState) -> (result: Result<
    Kind,
    InferError,
>)
    ensures
        final(state)@ == requiring(old(state)@, stmt_outcome(old(state)@, *statement).required),
        agrees(result, stmt_outcome(old(state)@, *statement).result),
    decreases statement, 0nat,
{
    match statement {
        Statement::Select(select) => get_select_statement_return_type(select, state),
        Statement::Create(create) => get_mutate_statement_return_type(create, Verb::Create, state),
        Statement::Update(update) => get_mutate_statement_return_type(update, Verb::Update, state),
        Statement::Delete(delete) => get_mutate_statement_return_type(delete, Verb::Delete, state),
        Statement::Insert(insert) => get_mutate_statement_return_type(insert, Verb::Insert, state),
        Statement::Relate(relate) => get_relate_statement_return_type(relate, state),
        Statement::Value(expr) => {
            let row = TableFields::new();
            get_field_return_type(expr, &row, state)
        },
        Statement::Other => Err(InferError::UnsupportedExpression),
    }
}

} // verus!
