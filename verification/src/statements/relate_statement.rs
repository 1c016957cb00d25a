//! The kind of what a `RELATE` returns, and what holds of it.

use vstd::prelude::*;
use crate::error::InferError;
use crate::fields::{get_statement_fields, lemma_plain_projection, listed, plain_fields, projection};
use crate::interpret::{done, entered, failed, requiring, row_frame, this_frame, Outcome};
use crate::kind::{
    array_of, kind_model, kinds_model, option_of, record_of, Kind, KindModel, TableFields,
};
use crate::paths::agrees;
use crate::schema::{create_fields, select_fields, TableModel};
use crate::state::{inferred, QueryState, StateModel};
use crate::syntax::{Data, Fields, Output, RelateStatement, ValueExpr};
use crate::text::owned_text;
use crate::utils::{get_value_table, value_table};

verus! {

/// The fields of an edge that a `RELATE` makes: those of the relation table, its `id`,
/// and `in` and `out`, which refer to the tables at the two ends of the statement.
pub open spec fn relate_object(state: StateModel, relate: RelateStatement) -> Result<
    Map<Seq<char>, KindModel>,
    InferError,
> {
    match value_table(relate.kind, state.scope) {
        Ok(relation) => match value_table(relate.from, state.scope) {
            Ok(source) => match value_table(relate.with, state.scope) {
                Ok(target) => if state.schema.contains_key(relation) {
                    Ok(
                        select_fields(relation, state.schema[relation]).insert(
                            "id"@,
                            record_of(relation),
                        ).insert("in"@, record_of(source)).insert("out"@, record_of(target)),
                    )
                } else {
                    Err(InferError::UnknownTable)
                },
                Err(error) => Err(error),
            },
            Err(error) => Err(error),
        },
        Err(error) => Err(error),
    }
}

/// The kind of one edge as a `RELATE` returns it: the whole edge, or where `filtered`,
/// what the fields of its output clause project from it.
pub open spec fn relate_fields(
    state: StateModel,
    relate: RelateStatement,
    filtered: bool,
) -> Outcome
    decreases relate, 0nat,
{
    match relate_object(state, relate) {
        Ok(object) => if filtered {
            match relate.output {
                Some(Output::Fields(fields)) => projection(
                    state,
                    this_frame(object),
                    object,
                    fields,
                ),
                _ => failed(InferError::UnsupportedExpression, state),
            }
        } else {
            done(KindModel::Object(object), state)
        },
        Err(error) => failed(error, state),
    }
}

/// The kind that content for rows of `table` must have where it is handed in as a
/// parameter: one object for one row, or a list of them.
pub open spec fn content_kind(table: Seq<char>, definition: TableModel) -> KindModel {
    KindModel::Either(
        seq![create_fields(table, definition), array_of(create_fields(table, definition))],
    )
}

/// What the payload of a `RELATE` into `table` requires: content that is a parameter
/// must be content for rows of the table. Any other payload requires nothing.
pub open spec fn content_checked(state: StateModel, table: Seq<char>, data: Data) -> Outcome {
    match data {
        Data::ContentExpression(ValueExpr::Param(name)) => if state.schema.contains_key(table) {
            Outcome {
                result: Ok(KindModel::Null),
                required: inferred(
                    state.required,
                    name@,
                    content_kind(table, state.schema[table]),
                ),
            }
        } else {
            failed(InferError::UnknownTable, state)
        },
        _ => done(KindModel::Null, state),
    }
}

/// The kind of what a `RELATE` returns: always a list, since the ends may be many.
pub open spec fn relate_outcome(state: StateModel, relate: RelateStatement) -> Outcome
    decreases relate, 1nat,
{
    match value_table(relate.kind, state.scope) {
        Ok(relation) => {
            let returned = match relate.output {
                None => relate_fields(state, relate, false),
                Some(Output::After) => relate_fields(state, relate, false),
                Some(Output::Before) => done(KindModel::Null, state),
                Some(Output::Null) => done(KindModel::Null, state),
                Some(Output::Nothing) => done(KindModel::Null, state),
                Some(Output::Fields(_)) => relate_fields(state, relate, true),
                Some(Output::Diff) => failed(InferError::UnsupportedExpression, state),
            };
            match returned.result {
                Ok(kind) => match relate.data {
                    Some(data) => {
                        let checked = content_checked(
                            requiring(state, returned.required),
                            relation,
                            data,
                        );
                        match checked.result {
                            Ok(_) => Outcome {
                                result: Ok(array_of(kind)),
                                required: checked.required,
                            },
                            Err(_) => checked,
                        }
                    },
                    None => Outcome { result: Ok(array_of(kind)), required: returned.required },
                },
                Err(_) => returned,
            }
        },
        Err(error) => failed(error, state),
    }
}

/// Finds the fields of an edge that a `RELATE` makes.
fn get_relate_object(relate: &RelateStatement, state: &mut QueryState) -> (result: Result<
    TableFields,
    InferError,
>)
    ensures
        *final(state) == *old(state),
        match result {
            Ok(object) => relate_object(old(state)@, *relate) == Ok::<_, InferError>(object@),
            Err(error) => relate_object(old(state)@, *relate) == Err::<
                Map<Seq<char>, KindModel>,
                _,
            >(error),
        },
{
    let relation_table = match get_value_table(&relate.kind, state) {
        Ok(table) => table,
        Err(error) => {
            return Err(error);
        },
    };
    let in_table = match get_value_table(&relate.from, state) {
        Ok(table) => table,
        Err(error) => {
            return Err(error);
        },
    };
    let out_table = match get_value_table(&relate.with, state) {
        Ok(table) => table,
        Err(error) => {
            return Err(error);
        },
    };
    let mut relation_fields = match state.table_select_fields(relation_table.as_str()) {
        Ok(fields) => fields,
        Err(error) => {
            return Err(error);
        },
    };
    relation_fields.insert(owned_text("id"), Kind::record(relation_table.as_str()));
    relation_fields.insert(owned_text("in"), Kind::record(in_table.as_str()));
    relation_fields.insert(owned_text("out"), Kind::record(out_table.as_str()));
    Ok(relation_fields)
}

/// Finds the kind of one edge as a `RELATE` returns it: the whole edge, or what `fields`
/// project from it.
fn get_relate_fields(
    relate: &RelateStatement,
    state: &mut QueryState,
    fields: Option<&Fields>,
) -> (result: Result<Kind, InferError>)
    requires
        fields matches Some(list) ==> relate.output == Some(Output::Fields(*list)),
    ensures
        final(state)@ == requiring(
            old(state)@,
            relate_fields(old(state)@, *relate, fields is Some).required,
        ),
        agrees(result, relate_fields(old(state)@, *relate, fields is Some).result),
    decreases relate, 0nat,
{
    let relation_fields = match get_relate_object(relate, state) {
        Ok(object) => object,
        Err(error) => {
            return Err(error);
        },
    };
    match fields {
        Some(list) => {
            let frame = row_frame("this", &relation_fields);
            get_statement_fields(&relation_fields, list, frame, state)
        },
        None => Ok(Kind::Object(relation_fields)),
    }
}

/// Records what the payload of a `RELATE` into `relation_table` requires of a parameter.
fn validate_data_type(state: &mut QueryState, relation_table: &str, data: &Data) -> (result: Result<
    (),
    InferError,
>)
    ensures
        final(state)@ == requiring(
            old(state)@,
            content_checked(old(state)@, relation_table@, *data).required,
        ),
        match result {
            Ok(_) => content_checked(old(state)@, relation_table@, *data).result is Ok,
            Err(error) => content_checked(old(state)@, relation_table@, *data).result == Err::<
                KindModel,
                _,
            >(error),
        },
{
    proof {
        reveal_with_fuel(kind_model, 3);
    }
    match data {
        Data::ContentExpression(ValueExpr::Param(param)) => {
            let create_fields = match state.schema.create_required_fields(relation_table) {
                Ok(kind) => kind,
                Err(error) => {
                    return Err(error);
                },
            };
            let mut either: Vec<Kind> = Vec::new();
            either.push(create_fields.duplicate());
            either.push(create_fields.array());
            assert(kinds_model(either@) =~= seq![
                create_fields@,
                array_of(create_fields@),
            ]);
            state.infer(param.as_str(), Kind::Either(either));
            Ok(())
        },
        _ => Ok(()),
    }
}

/// Finds the kind of what a `RELATE` returns.
pub fn get_relate_statement_return_type(
    relate: &RelateStatement,
    state: &mut QueryState,
) -> (result: Result<Kind, InferError>)
    ensures
        final(state)@ == requiring(old(state)@, relate_outcome(old(state)@, *relate).required),
        agrees(result, relate_outcome(old(state)@, *relate).result),
    decreases relate, 1nat,
{
    let relation_table = match get_value_table(&relate.kind, state) {
        Ok(table) => table,
        Err(error) => {
            return Err(error);
        },
    };
    let returned = match &relate.output {
        None => get_relate_fields(relate, state, None),
        Some(Output::After) => get_relate_fields(relate, state, None),
        Some(Output::Before) => Ok(Kind::Null),
        Some(Output::Null) => Ok(Kind::Null),
        Some(Output::Nothing) => Ok(Kind::Null),
        Some(Output::Fields(fields)) => get_relate_fields(relate, state, Some(fields)),
        Some(Output::Diff) => Err(InferError::UnsupportedExpression),
    };
    let return_type = match returned {
        Ok(kind) => kind,
        Err(error) => {
            return Err(error);
        },
    };
    match &relate.data {
        Some(data) => match validate_data_type(state, relation_table.as_str(), data) {
            Ok(_) => {},
            Err(error) => {
                return Err(error);
            },
        },
        None => {},
    }
    Ok(return_type.array())
}

/// The fields of an edge of the relation `relation` from `source` to `target`, where the
/// relation has no fields of its own.
pub open spec fn bare_edge(relation: Seq<char>, source: Seq<char>, target: Seq<char>) -> Map<
    Seq<char>,
    KindModel,
> {
    Map::<Seq<char>, KindModel>::empty().insert("id"@, record_of(relation)).insert(
        "in"@,
        record_of(source),
    ).insert("out"@, record_of(target))
}

/// The edge that a `RELATE` makes has the fields that its relation table declares, and
/// `id`, `in` and `out`; these three refer to the relation table and to the tables at
/// the two ends of the statement, whatever the table declares under their names.
pub proof fn lemma_edge_fields(state: StateModel, relate: RelateStatement)
    requires
        relate_object(state, relate) is Ok,
    ensures
        ({
            let edge = relate_object(state, relate)->Ok_0;
            let relation = value_table(relate.kind, state.scope)->Ok_0;
            let source = value_table(relate.from, state.scope)->Ok_0;
            let target = value_table(relate.with, state.scope)->Ok_0;
            let declared = state.schema[relation].fields;
            &&& state.schema.contains_key(relation)
            &&& edge.dom() == declared.dom().insert("id"@).insert("in"@).insert("out"@)
            &&& edge["id"@] == record_of(relation)
            &&& edge["in"@] == record_of(source)
            &&& edge["out"@] == record_of(target)
            &&& forall|name: Seq<char>|
                declared.contains_key(name) && name != "id"@ && name != "in"@ && name != "out"@
                    ==> #[trigger] edge[name] == declared[name]
        }),
{
    let edge = relate_object(state, relate)->Ok_0;
    let relation = value_table(relate.kind, state.scope)->Ok_0;
    let declared = state.schema[relation].fields;
    reveal_strlit("id");
    reveal_strlit("in");
    reveal_strlit("out");
    assert("id"@[1] != "in"@[1]);
    assert("id"@.len() != "out"@.len());
    assert("in"@.len() != "out"@.len());
    assert(edge.dom() =~= declared.dom().insert("id"@).insert("in"@).insert("out"@));
}

/// A `RELATE` that is typed at all is typed as a list.
pub proof fn lemma_relate_returns_list(state: StateModel, relate: RelateStatement)
    requires
        relate_outcome(state, relate).result is Ok,
    ensures
        relate_outcome(state, relate).result->Ok_0 is Array,
{
}

/// A `RELATE` without an output clause, or with `RETURN AFTER`, into a declared relation
/// table that has no fields of its own, returns a list of objects with an `id` that
/// refers to the relation table, an `in` that refers to the table where the edge starts,
/// an `out` that refers to the table where it ends, and nothing else.
pub proof fn lemma_relate_default_output(
    state: StateModel,
    relate: RelateStatement,
    relation: Seq<char>,
    source: Seq<char>,
    target: Seq<char>,
)
    requires
        value_table(relate.kind, state.scope) == Ok::<_, InferError>(relation),
        value_table(relate.from, state.scope) == Ok::<_, InferError>(source),
        value_table(relate.with, state.scope) == Ok::<_, InferError>(target),
        state.schema.contains_key(relation),
        state.schema[relation].fields == Map::<Seq<char>, KindModel>::empty(),
        relate.output is None || relate.output == Some(Output::After),
    ensures
        relate_outcome(state, relate).result == Ok::<_, InferError>(
            array_of(KindModel::Object(bare_edge(relation, source, target))),
        ),
{
    assert(relate_object(state, relate)->Ok_0 =~= bare_edge(relation, source, target));
}

/// Whether the payload of a statement is content handed in as a parameter, and the
/// table that it is content for is not declared.
pub open spec fn content_for_unknown(state: StateModel, relate: RelateStatement) -> bool {
    &&& relate.data matches Some(Data::ContentExpression(ValueExpr::Param(_)))
    &&& value_table(relate.kind, state.scope) matches Ok(relation)
    &&& !state.schema.contains_key(relation)
}

/// A `RELATE` with `RETURN BEFORE` returns a list of nulls, whatever the schema declares:
/// an edge that is made was nothing before. This holds wherever the relation is named
/// in a way that denotes a table, and content that is a parameter has its table declared.
pub proof fn lemma_relate_before_is_null(state: StateModel, relate: RelateStatement)
    requires
        value_table(relate.kind, state.scope) is Ok,
        !content_for_unknown(state, relate),
        relate.output == Some(Output::Before),
    ensures
        relate_outcome(state, relate).result == Ok::<_, InferError>(array_of(KindModel::Null)),
{
}

/// A `RELATE` with `RETURN DIFF` is not supported, whatever the schema declares. This
/// holds wherever the relation is named in a way that denotes a table.
pub proof fn lemma_relate_diff_is_unsupported(state: StateModel, relate: RelateStatement)
    requires
        value_table(relate.kind, state.scope) is Ok,
        relate.output == Some(Output::Diff),
    ensures
        relate_outcome(state, relate) == (Outcome {
            result: Err(InferError::UnsupportedExpression),
            required: state.required,
        }),
{
}

/// What is required of the parameters once the output clause of a `RELATE` is typed.
pub open spec fn required_by_output(state: StateModel, relate: RelateStatement) -> Map<
    Seq<char>,
    KindModel,
> {
    if relate.output matches Some(Output::Fields(_)) {
        relate_fields(state, relate, true).required
    } else {
        state.required
    }
}

/// A `RELATE` whose content is the parameter `name` requires of that parameter that it
/// be content for the relation table: an object with every declared field of the table
/// and an `id` that may be missing, or a list of such objects.
pub proof fn lemma_relate_content_parameter(
    state: StateModel,
    relate: RelateStatement,
    relation: Seq<char>,
    name: String,
)
    requires
        value_table(relate.kind, state.scope) == Ok::<_, InferError>(relation),
        relate.data == Some(Data::ContentExpression(ValueExpr::Param(name))),
        relate_outcome(state, relate).result is Ok,
    ensures
        state.schema.contains_key(relation),
        relate_outcome(state, relate).required == inferred(
            required_by_output(state, relate),
            name@,
            KindModel::Either(
                seq![
                    create_fields(relation, state.schema[relation]),
                    array_of(create_fields(relation, state.schema[relation])),
                ],
            ),
        ),
        create_fields(relation, state.schema[relation]) == KindModel::Object(
            state.schema[relation].fields.insert("id"@, option_of(record_of(relation))),
        ),
        !required_by_output(state, relate).contains_key(name@) ==> relate_outcome(
            state,
            relate,
        ).required[name@] == content_kind(relation, state.schema[relation]),
{
}

/// A `RELATE` that returns a plain list of fields returns a list of objects with exactly
/// the fields listed, each with the kind that it has in the edge: `id`, `in` and `out`
/// are there only where they are listed.
pub proof fn lemma_relate_returns_listed_fields(
    state: StateModel,
    relate: RelateStatement,
    fields: Fields,
)
    requires
        relate.output == Some(Output::Fields(fields)),
        plain_fields(fields),
        relate_outcome(state, relate).result is Ok,
    ensures
        relate_object(state, relate) is Ok,
        relate_outcome(state, relate).result->Ok_0 matches KindModel::Array(inner)
            && *inner matches KindModel::Object(returned) && {
            &&& forall|name: Seq<char>| #[trigger]
                returned.contains_key(name) <==> listed(fields, fields.items.len() as nat, name)
            &&& forall|name: Seq<char>| #[trigger]
                returned.contains_key(name) ==> relate_object(state, relate)->Ok_0.contains_key(
                    name,
                ) && returned[name] == relate_object(state, relate)->Ok_0[name]
        },
{
    let object = relate_object(state, relate)->Ok_0;
    let inside = entered(state, this_frame(object));
    lemma_plain_projection(inside, object, fields, fields.items.len() as nat);
}

} // verus!
