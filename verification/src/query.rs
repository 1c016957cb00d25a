//! Inference over a whole query: the kinds of its statements and of its parameters.

use vstd::prelude::*;
use crate::error::InferError;
use crate::interpret::{get_statement_return_type, requiring, stmt_outcome};
use crate::kind::{entries_model, kinds_model, Entry, Kind, KindModel, TableFields};
use crate::schema::{built, SchemaModel, TableModel};
use crate::state::{QueryState, StateModel};
use crate::syntax::{Definition, Statement};
use crate::text::{owned_text, same_text};

verus! {

/// What inference found of a query.
#[derive(Debug)]
pub struct QueryResult {
    /// The statements of the query, as they were handed in.
    pub statements: Vec<Statement>,
    /// The kind of what each statement returns, in the order of the statements.
    pub return_types: Vec<Kind>,
    /// The kinds required of the parameters that the caller has to supply.
    pub variables: TableFields,
}

/// What typing the statements of a query comes to: their kinds or the failure, and what
/// is required of the caller's parameters by then.
pub ghost struct Run {
    pub result: Result<Seq<KindModel>, InferError>,
    pub required: Map<Seq<char>, KindModel>,
}

/// Whether a name is that of a variable that the running query binds by itself.
pub open spec fn ambient(name: Seq<char>) -> bool {
    name == "this"@ || name == "parent"@ || name == "before"@ || name == "after"@
}

/// The names that are never required of the caller: those that the query binds by
/// itself, and those that the caller has bound for good.
pub open spec fn supplied(globals: Map<Seq<char>, KindModel>) -> Set<Seq<char>> {
    Set::new(|name: Seq<char>| ambient(name) || globals.contains_key(name))
}

/// The kinds of the first `n` statements, typed one after the other. The first statement
/// that fails ends the run.
pub open spec fn run(state: StateModel, statements: Seq<Statement>, n: nat) -> Run
    decreases n,
{
    if n == 0 || n > statements.len() {
        Run { result: Ok(Seq::empty()), required: state.required }
    } else {
        let before = run(state, statements, (n - 1) as nat);
        match before.result {
            Ok(kinds) => {
                let next = stmt_outcome(requiring(state, before.required), statements[n - 1]);
                match next.result {
                    Ok(kind) => Run { result: Ok(kinds.push(kind)), required: next.required },
                    Err(error) => Run { result: Err(error), required: next.required },
                }
            },
            Err(_) => before,
        }
    }
}

/// The state in which a run starts.
pub open spec fn start(
    schema: Map<Seq<char>, TableModel>,
    globals: Map<Seq<char>, KindModel>,
) -> StateModel {
    StateModel { schema, scope: seq![globals], required: Map::empty() }
}

/// What inference finds of a query: the kinds of its statements, and the kinds required
/// of its parameters, without the names in `supplied(globals)`.
pub open spec fn query_outcome(
    definitions: Seq<Definition>,
    statements: Seq<Statement>,
    globals: Map<Seq<char>, KindModel>,
) -> Result<(Seq<KindModel>, Map<Seq<char>, KindModel>), InferError> {
    match built(definitions) {
        Ok(schema) => {
            let all = run(start(schema, globals), statements, statements.len());
            match all.result {
                Ok(kinds) => Ok((kinds, all.required.remove_keys(supplied(globals)))),
                Err(error) => Err(error),
            }
        },
        Err(error) => Err(error),
    }
}

/// Once a statement has failed, the whole run fails in the same way.
proof fn lemma_run_fails_on(state: StateModel, statements: Seq<Statement>, n: nat)
    requires
        n <= statements.len(),
        run(state, statements, n).result is Err,
    ensures
        run(state, statements, statements.len()) == run(state, statements, n),
    decreases statements.len() - n,
{
    if n < statements.len() {
        lemma_run_fails_on(state, statements, n + 1);
    }
}

/// Tells whether a name is that of a variable that the running query binds by itself.
pub fn is_ambient(name: &str) -> (yes: bool)
    ensures
        yes == ambient(name@),
{
    same_text(name, "this") || same_text(name, "parent") || same_text(name, "before")
        || same_text(name, "after")
}

/// What is required of the parameters, without those whose names are supplied.
fn required_of_caller(required: &TableFields, globals: &TableFields) -> (variables: TableFields)
    ensures
        variables@ == required@.remove_keys(supplied(globals@)),
{
    let mut variables = TableFields::new();
    let mut i: usize = 0;
    assert(required.entries@.take(0) =~= Seq::<Entry>::empty());
    assert(variables@ =~= entries_model(required.entries@.take(0)).remove_keys(
        supplied(globals@),
    ));
    while i < required.entries.len()
        invariant
            i <= required.entries.len(),
            variables@ == entries_model(required.entries@.take(i as int)).remove_keys(
                supplied(globals@),
            ),
        decreases required.entries.len() - i,
    {
        let entry = &required.entries[i];
        let ghost before = variables@;
        let name = entry.name.as_str();
        if !is_ambient(name) && !globals.contains(name) {
            variables.insert(owned_text(name), entry.kind.duplicate());
        }
        proof {
            let upto = required.entries@.take(i + 1);
            assert(upto.drop_last() =~= required.entries@.take(i as int));
            assert(upto.last() == required.entries@[i as int]);
            assert(variables@ =~= entries_model(upto).remove_keys(supplied(globals@)));
        }
        i += 1;
    }
    assert(required.entries@.take(i as int) =~= required.entries@);
    variables
}

/// Infers the kinds of what the statements of a query return, against the schema that
/// `definitions` declare.
///
/// `globals` binds the variables that the caller supplies whatever the query. A
/// variable that the query binds by itself, or that `globals` binds, is never among the
/// variables of the result.
pub fn interpret_query(
    definitions: &[Definition],
    statements: Vec<Statement>,
    globals: TableFields,
) -> (result: Result<QueryResult, InferError>)
    ensures
        match result {
            Ok(found) => {
                &&& query_outcome(definitions@, statements@, globals@) == Ok::<_, InferError>(
                    (kinds_model(found.return_types@), found.variables@),
                )
                &&& found.statements == statements
                &&& found.return_types.len() == statements.len()
                &&& forall|name: Seq<char>|
                    ambient(name) || globals@.contains_key(name) ==> !found.variables@.contains_key(
                        name,
                    )
            },
            Err(error) => query_outcome(definitions@, statements@, globals@) == Err::<
                (Seq<KindModel>, Map<Seq<char>, KindModel>),
                _,
            >(error),
        },
{
    let schema = match SchemaModel::build(definitions) {
        Ok(schema) => schema,
        Err(error) => {
            return Err(error);
        },
    };
    let supplied_by_caller = globals.duplicate();
    let mut state = QueryState::new(&schema, globals);
    let ghost first = state@;
    let mut return_types: Vec<Kind> = Vec::new();
    let mut i: usize = 0;
    assert(kinds_model(return_types@) =~= Seq::<KindModel>::empty());
    while i < statements.len()
        invariant
            i <= statements.len(),
            built(definitions@) == Ok::<_, InferError>(schema@),
            first == start(schema@, globals@),
            state@ == requiring(first, run(first, statements@, i as nat).required),
            run(first, statements@, i as nat).result == Ok::<_, InferError>(
                kinds_model(return_types@),
            ),
            return_types.len() == i,
        decreases statements.len() - i,
    {
        let ghost before = return_types@;
        match get_statement_return_type(&statements[i], &mut state) {
            Ok(kind) => {
                return_types.push(kind);
                assert(kinds_model(return_types@) =~= kinds_model(before).push(kind@));
            },
            Err(error) => {
                proof {
                    lemma_run_fails_on(first, statements@, (i + 1) as nat);
                }
                return Err(error);
            },
        }
        i += 1;
    }
    let variables = required_of_caller(&state.required_variables, &supplied_by_caller);
    Ok(QueryResult { statements, return_types, variables })
}

} // verus!
