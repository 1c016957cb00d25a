//! Projecting a list of fields from a row.

use vstd::prelude::*;
use vstd::slice::slice_subrange;
use crate::error::InferError;
use crate::interpret::{
    enter, entered, expr_outcome, get_field_return_type, leave, requiring, Outcome,
};
use crate::kind::{Kind, KindModel, TableFields};
use crate::paths::{agrees, ends_wild, traversal_table, walked};
use crate::schema::{select_fields, SchemaModel};
use crate::state::{QueryState, StateModel};
use crate::syntax::{Field, Fields, Part, ValueExpr};
use crate::text::owned_text;
use crate::utils::{get_path_table, merge_into_map_recursively, merged};

verus! {

/// What projecting fields comes to: the fields of the result or the failure, and what is
/// required of the caller's parameters by then.
pub ghost struct Projected {
    pub result: Result<Map<Seq<char>, KindModel>, InferError>,
    pub required: Map<Seq<char>, KindModel>,
}

/// The fields after a path was merged into them, where that went well.
pub open spec fn merged_fields(
    map: Map<Seq<char>, KindModel>,
    parts: Seq<Part>,
    leaf: KindModel,
) -> Result<Map<Seq<char>, KindModel>, InferError> {
    match merged(map, parts, leaf).result {
        Ok(_) => Ok(merged(map, parts, leaf).map),
        Err(error) => Err(error),
    }
}

/// Whether an expression is a graph traversal that ends in a wildcard.
pub open spec fn wild_traversal(expr: ValueExpr) -> bool {
    expr matches ValueExpr::FieldPath(parts) && parts.len() > 0 && parts[0] is GraphStep
        && ends_wild(parts@)
}

/// The path under which the rows of a wildcard traversal are returned: a wildcard, and
/// after it the field that the alias starts with, if it starts with one.
pub open spec fn wildcard_path(alias: Option<Vec<Part>>) -> Seq<Part> {
    match alias {
        Some(path) => if path.len() > 0 && path[0] is Field {
            seq![Part::Wildcard, path[0]]
        } else {
            seq![Part::Wildcard]
        },
        None => seq![Part::Wildcard],
    }
}

/// The fields after the value of `expr`, of kind `kind`, was put among them: under its
/// alias, else under the path, the parameter's name or the literal's text that it is.
pub open spec fn placed(
    map: Map<Seq<char>, KindModel>,
    expr: ValueExpr,
    alias: Option<Vec<Part>>,
    kind: KindModel,
) -> Result<Map<Seq<char>, KindModel>, InferError> {
    match alias {
        Some(path) => merged_fields(map, path@, kind),
        None => match expr {
            ValueExpr::FieldPath(parts) => merged_fields(map, parts@, kind),
            ValueExpr::Param(name) => Ok(map.insert(name@, kind)),
            ValueExpr::Constant(_, text) => Ok(map.insert(text@, kind)),
            _ => Err(InferError::UnsupportedExpression),
        },
    }
}

/// The fields `map` after one more item of a list of fields was projected.
pub open spec fn item_projected(
    state: StateModel,
    row: Map<Seq<char>, KindModel>,
    map: Map<Seq<char>, KindModel>,
    field: Field,
) -> Projected
    decreases field, 0nat,
{
    match field {
        Field::All => Projected {
            result: Ok(map.union_prefer_right(row)),
            required: state.required,
        },
        Field::Single(expr, alias) => if wild_traversal(expr) {
            match traversal_table(state.schema, expr->FieldPath_0@.drop_last()) {
                Ok(table) => Projected {
                    result: merged_fields(
                        map,
                        wildcard_path(alias),
                        KindModel::Object(select_fields(table, state.schema[table])),
                    ),
                    required: state.required,
                },
                Err(error) => Projected { result: Err(error), required: state.required },
            }
        } else {
            let value = expr_outcome(state, row, expr);
            match value.result {
                Ok(kind) => Projected {
                    result: placed(map, expr, alias, kind),
                    required: value.required,
                },
                Err(error) => Projected { result: Err(error), required: value.required },
            }
        },
    }
}

/// The fields that the first `n` items of a list of fields project from the row `row`.
/// The first item that fails ends it.
pub open spec fn projected(
    state: StateModel,
    row: Map<Seq<char>, KindModel>,
    fields: Fields,
    n: nat,
) -> Projected
    decreases fields, n,
{
    if n == 0 || n > fields.items.len() {
        Projected { result: Ok(Map::empty()), required: state.required }
    } else {
        let before = projected(state, row, fields, (n - 1) as nat);
        match before.result {
            Ok(map) => item_projected(
                requiring(state, before.required),
                row,
                map,
                fields.items@[n - 1],
            ),
            Err(_) => before,
        }
    }
}

/// The object that a whole list of fields projects from the row `row`, with the
/// bindings of `frame` in scope.
pub open spec fn projection(
    state: StateModel,
    frame: Map<Seq<char>, KindModel>,
    row: Map<Seq<char>, KindModel>,
    fields: Fields,
) -> Outcome
    decreases fields, fields.items.len() + 1,
{
    let all = projected(entered(state, frame), row, fields, fields.items.len() as nat);
    match all.result {
        Ok(map) => Outcome { result: Ok(KindModel::Object(map)), required: all.required },
        Err(error) => Outcome { result: Err(error), required: all.required },
    }
}

/// Merges a path into fields, and says whether that went well.
fn merge_fields(map: &mut TableFields, parts: &[Part], leaf: Kind) -> (result: Result<
    (),
    InferError,
>)
    ensures
        match merged_fields(old(map)@, parts@, leaf@) {
            Ok(fields) => result is Ok && final(map)@ == fields,
            Err(error) => result == Err::<(), _>(error),
        },
{
    merge_into_map_recursively(map, parts, leaf)
}

/// Puts the value of `expr`, of kind `kind`, among the fields `map`.
fn place_field(
    map: &mut TableFields,
    expr: &ValueExpr,
    alias: &Option<Vec<Part>>,
    kind: Kind,
) -> (result: Result<(), InferError>)
    ensures
        match placed(old(map)@, *expr, *alias, kind@) {
            Ok(fields) => result is Ok && final(map)@ == fields,
            Err(error) => result == Err::<(), _>(error),
        },
{
    match alias {
        Some(path) => merge_fields(map, path.as_slice(), kind),
        None => match expr {
            ValueExpr::FieldPath(parts) => merge_fields(map, parts.as_slice(), kind),
            ValueExpr::Param(name) => {
                map.insert(owned_text(name.as_str()), kind);
                Ok(())
            },
            ValueExpr::Constant(_, text) => {
                map.insert(owned_text(text.as_str()), kind);
                Ok(())
            },
            _ => Err(InferError::UnsupportedExpression),
        },
    }
}

/// Tells whether an expression is a graph traversal that ends in a wildcard.
fn is_wild_traversal(expr: &ValueExpr) -> (wild: bool)
    ensures
        wild == wild_traversal(*expr),
{
    match expr {
        ValueExpr::FieldPath(parts) => parts.len() > 0 && matches!(parts[0], Part::GraphStep(_))
            && matches!(parts[parts.len() - 1], Part::Wildcard),
        _ => false,
    }
}

/// Puts the rows that a wildcard traversal reaches among the fields `map`.
fn place_traversal(
    map: &mut TableFields,
    parts: &[Part],
    alias: &Option<Vec<Part>>,
    schema: &SchemaModel,
) -> (result: Result<(), InferError>)
    requires
        ends_wild(parts@),
    ensures
        match traversal_table(schema@, parts@.drop_last()) {
            Ok(table) => match merged_fields(
                old(map)@,
                wildcard_path(*alias),
                KindModel::Object(select_fields(table, schema@[table])),
            ) {
                Ok(fields) => result is Ok && final(map)@ == fields,
                Err(error) => result == Err::<(), _>(error),
            },
            Err(error) => result == Err::<(), _>(error),
        },
{
    let steps = slice_subrange(parts, 0, parts.len() - 1);
    assert(steps@ =~= parts@.drop_last());
    let table = match get_path_table(steps) {
        Ok(table) => table,
        Err(error) => {
            return Err(error);
        },
    };
    let fields = match schema.table_select_fields(table.as_str()) {
        Ok(fields) => fields,
        Err(error) => {
            return Err(error);
        },
    };
    let mut path: Vec<Part> = Vec::new();
    path.push(Part::Wildcard);
    match alias {
        Some(given) => {
            if given.len() > 0 {
                match &given[0] {
                    Part::Field(name) => {
                        path.push(Part::Field(owned_text(name.as_str())));
                    },
                    _ => {},
                }
            }
        },
        None => {},
    }
    merge_fields(map, path.as_slice(), Kind::Object(fields))
}

/// Projects one item of a list of fields from the row `row` into the fields `map`.
fn get_field_projection(
    field: &Field,
    row: &TableFields,
    map: &mut TableFields,
    state: &mut QueryState,
) -> (result: Result<(), InferError>)
    ensures
        final(state)@ == requiring(
            old(state)@,
            item_projected(old(state)@, row@, old(map)@, *field).required,
        ),
        match item_projected(old(state)@, row@, old(map)@, *field).result {
            Ok(fields) => result is Ok && final(map)@ == fields,
            Err(error) => result == Err::<(), _>(error),
        },
    decreases field, 0nat,
{
    match field {
        Field::All => {
            map.extend(row);
            Ok(())
        },
        Field::Single(expr, alias) => {
            if is_wild_traversal(expr) {
                match expr {
                    ValueExpr::FieldPath(parts) => place_traversal(
                        map,
                        parts.as_slice(),
                        alias,
                        state.schema,
                    ),
                    _ => Err(InferError::UnsupportedExpression),
                }
            } else {
                match get_field_return_type(expr, row, state) {
                    Ok(kind) => place_field(map, expr, alias, kind),
                    Err(error) => Err(error),
                }
            }
        },
    }
}

/// Projects the fields `fields` from the row `row`, with the bindings of `frame` in scope.
pub fn get_statement_fields(
    row: &TableFields,
    fields: &Fields,
    frame: TableFields,
    state: &mut QueryState,
) -> (result: Result<Kind, InferError>)
    ensures
        final(state)@ == requiring(
            old(state)@,
            projection(old(state)@, frame@, row@, *fields).required,
        ),
        agrees(result, projection(old(state)@, frame@, row@, *fields).result),
    decreases fields, fields.items.len() + 1,
{
    let ghost outside = state@;
    enter(state, frame);
    let ghost inside = state@;
    let mut map = TableFields::new();
    let mut i: usize = 0;
    while i < fields.items.len()
        invariant
            i <= fields.items.len(),
            outside == old(state)@,
            inside == entered(outside, frame@),
            state@ == requiring(inside, projected(inside, row@, *fields, i as nat).required),
            projected(inside, row@, *fields, i as nat).result == Ok::<_, InferError>(map@),
        decreases fields.items.len() - i,
    {
        match get_field_projection(&fields.items[i], row, &mut map, state) {
            Ok(_) => {},
            Err(error) => {
                proof {
                    lemma_projected_fails_on(inside, row@, *fields, (i + 1) as nat);
                }
                leave(state);
                assert(state@.scope =~= outside.scope);
                return Err(error);
            },
        }
        i += 1;
    }
    leave(state);
    assert(state@.scope =~= outside.scope);
    Ok(Kind::Object(map))
}

/// Once an item of a list of fields has failed, the whole list fails in the same way.
proof fn lemma_projected_fails_on(
    state: StateModel,
    row: Map<Seq<char>, KindModel>,
    fields: Fields,
    n: nat,
)
    requires
        n <= fields.items.len(),
        projected(state, row, fields, n).result is Err,
    ensures
        projected(state, row, fields, fields.items.len() as nat) == projected(
            state,
            row,
            fields,
            n,
        ),
    decreases fields.items.len() - n,
{
    if n < fields.items.len() {
        lemma_projected_fails_on(state, row, fields, n + 1);
    }
}

/// The name of an item of a list of fields that is a single field without an alias.
pub open spec fn plain_name(field: Field) -> Option<Seq<char>> {
    match field {
        Field::Single(ValueExpr::FieldPath(parts), None) => {
            if parts.len() == 1 && parts[0] is Field {
                Some(parts[0]->Field_0@)
            } else {
                None
            }
        },
        _ => None,
    }
}

/// Whether every item of a list of fields is a single field without an alias.
pub open spec fn plain_fields(fields: Fields) -> bool {
    forall|i: int| 0 <= i < fields.items.len() ==> plain_name(#[trigger] fields.items@[i]) is Some
}

/// Whether `name` is among the first `n` items of a plain list of fields.
pub open spec fn listed(fields: Fields, n: nat, name: Seq<char>) -> bool {
    exists|i: int|
        0 <= i < n && i < fields.items.len() && plain_name(#[trigger] fields.items@[i]) == Some(
            name,
        )
}

/// Projecting a plain list of fields from a row gives exactly the fields listed, each
/// with the kind that it has in the row, and requires nothing of the parameters.
pub proof fn lemma_plain_projection(
    state: StateModel,
    row: Map<Seq<char>, KindModel>,
    fields: Fields,
    n: nat,
)
    requires
        plain_fields(fields),
        n <= fields.items.len(),
        projected(state, row, fields, n).result is Ok,
    ensures
        projected(state, row, fields, n).required == state.required,
        forall|name: Seq<char>|
            (#[trigger] projected(state, row, fields, n).result->Ok_0.contains_key(name))
                <==> listed(fields, n, name),
        forall|name: Seq<char>|
            #[trigger] projected(state, row, fields, n).result->Ok_0.contains_key(name) ==> {
                &&& row.contains_key(name)
                &&& projected(state, row, fields, n).result->Ok_0[name] == row[name]
            },
    decreases n,
{
    if n > 0 {
        reveal_with_fuel(walked, 3);
        let before = projected(state, row, fields, (n - 1) as nat);
        assert(before.result is Ok);
        lemma_plain_projection(state, row, fields, (n - 1) as nat);
        let field = fields.items@[n - 1];
        assert(plain_name(field) is Some);
        let name = plain_name(field)->Some_0;
        let expr = field->Single_0;
        let parts = expr->FieldPath_0@;
        let map = before.result->Ok_0;
        let inner = requiring(state, before.required);
        assert(parts.drop_first().len() == 0);
        assert(inner == state);
        assert(projected(state, row, fields, n) == item_projected(inner, row, map, field));
        let value = expr_outcome(inner, row, expr);
        assert(value.result == walked(state.schema, KindModel::Object(row), parts));
        assert(value.result is Ok);
        assert(row.contains_key(name));
        assert(walked(state.schema, row[name], parts.drop_first()) == Ok::<_, InferError>(
            row[name],
        ));
        assert(value.result == Ok::<_, InferError>(row[name]));
        assert(merged(map, parts, row[name]).map == map.insert(name, row[name]));
        let after = projected(state, row, fields, n).result->Ok_0;
        assert(after == map.insert(name, row[name]));
        assert forall|other: Seq<char>| (#[trigger] after.contains_key(other)) <==> listed(
            fields,
            n,
            other,
        ) by {
            if after.contains_key(other) {
                if other == name {
                    assert(plain_name(fields.items@[n - 1]) == Some(other));
                } else {
                    assert(map.contains_key(other));
                    let i = choose|i: int|
                        0 <= i < n - 1 && i < fields.items.len() && plain_name(
                            #[trigger] fields.items@[i],
                        ) == Some(other);
                    assert(plain_name(fields.items@[i]) == Some(other));
                }
            }
            if listed(fields, n, other) {
                let i = choose|i: int|
                    0 <= i < n && i < fields.items.len() && plain_name(
                        #[trigger] fields.items@[i],
                    ) == Some(other);
                if i < n - 1 {
                    assert(listed(fields, (n - 1) as nat, other));
                }
            }
        }
    } else {
        assert forall|name: Seq<char>| !listed(fields, n, name) by {}
    }
}

} // verus!
