//! Following a path of fields from a value of a known kind.

use vstd::prelude::*;
use vstd::slice::slice_subrange;
use crate::error::InferError;
use crate::kind::{array_of, kind_model, option_of, record_of, Kind, KindModel};
use crate::schema::{select_fields, SchemaModel, TableModel};
use crate::syntax::Part;
use crate::utils::{first_table, get_path_table, path_table};

verus! {

/// The table that a graph traversal ends at, which the schema must declare.
pub open spec fn traversal_table(schema: Map<Seq<char>, TableModel>, steps: Seq<Part>) -> Result<
    Seq<char>,
    InferError,
> {
    match path_table(steps) {
        Ok(table) => if schema.contains_key(table) {
            Ok(table)
        } else {
            Err(InferError::UnknownTable)
        },
        Err(error) => Err(error),
    }
}

/// Whether a path ends in a wildcard.
pub open spec fn ends_wild(parts: Seq<Part>) -> bool {
    parts.len() > 0 && parts[parts.len() - 1] is Wildcard
}

/// The kind of a graph traversal: a list of the rows reached where the path ends in a
/// wildcard, else a list of references to them.
pub open spec fn traversal(schema: Map<Seq<char>, TableModel>, parts: Seq<Part>) -> Result<
    KindModel,
    InferError,
> {
    if ends_wild(parts) {
        match traversal_table(schema, parts.drop_last()) {
            Ok(table) => Ok(array_of(KindModel::Object(select_fields(table, schema[table])))),
            Err(error) => Err(error),
        }
    } else {
        match traversal_table(schema, parts) {
            Ok(table) => Ok(array_of(record_of(table))),
            Err(error) => Err(error),
        }
    }
}

/// The kind of what a path leads to, from a value of kind `kind`.
///
/// A field is looked up in an object, or in the row that a record refers to. Through a
/// value that may be missing, or through a list, the path goes on in the content, and
/// what it leads to may be missing, or is a list, in turn. A wildcard stays where it is.
/// From a graph step on, the path is a graph traversal.
pub open spec fn walked(
    schema: Map<Seq<char>, TableModel>,
    kind: KindModel,
    parts: Seq<Part>,
) -> Result<KindModel, InferError>
    decreases parts.len(), kind,
{
    if parts.len() == 0 {
        Ok(kind)
    } else {
        match parts[0] {
            Part::Field(name) => match kind {
                KindModel::Object(fields) => if fields.contains_key(name@) {
                    walked(schema, fields[name@], parts.drop_first())
                } else {
                    Err(InferError::UnknownField)
                },
                KindModel::Record(tables) => match first_table(tables) {
                    Some(table) => if !schema.contains_key(table) {
                        Err(InferError::UnknownTable)
                    } else if select_fields(table, schema[table]).contains_key(name@) {
                        walked(
                            schema,
                            select_fields(table, schema[table])[name@],
                            parts.drop_first(),
                        )
                    } else {
                        Err(InferError::UnknownField)
                    },
                    None => Err(InferError::TypeMismatch),
                },
                KindModel::Option(inner) => match walked(schema, *inner, parts) {
                    Ok(found) => Ok(option_of(found)),
                    Err(error) => Err(error),
                },
                KindModel::Array(inner) => match walked(schema, *inner, parts) {
                    Ok(found) => Ok(array_of(found)),
                    Err(error) => Err(error),
                },
                _ => Err(InferError::TypeMismatch),
            },
            Part::Wildcard => walked(schema, kind, parts.drop_first()),
            Part::GraphStep(_) => traversal(schema, parts),
            _ => Err(InferError::UnsupportedExpression),
        }
    }
}

/// Whether what was computed is what was to be computed.
pub open spec fn agrees(
    result: Result<Kind, InferError>,
    expected: Result<KindModel, InferError>,
) -> bool {
    match result {
        Ok(kind) => expected == Ok::<_, InferError>(kind@),
        Err(error) => expected == Err::<KindModel, _>(error),
    }
}

/// The kind of a graph traversal.
pub fn get_traversal_type(schema: &SchemaModel, parts: &[Part]) -> (result: Result<
    Kind,
    InferError,
>)
    ensures
        agrees(result, traversal(schema@, parts@)),
{
    proof {
        reveal_with_fuel(kind_model, 3);
    }
    let wild = parts.len() > 0 && matches!(parts[parts.len() - 1], Part::Wildcard);
    if wild {
        let steps = slice_subrange(parts, 0, parts.len() - 1);
        assert(steps@ =~= parts@.drop_last());
        let table = match get_path_table(steps) {
            Ok(table) => table,
            Err(error) => {
                return Err(error);
            },
        };
        match schema.table_select_fields(table.as_str()) {
            Ok(fields) => Ok(Kind::Object(fields).array()),
            Err(error) => Err(error),
        }
    } else {
        let table = match get_path_table(parts) {
            Ok(table) => table,
            Err(error) => {
                return Err(error);
            },
        };
        if schema.table(table.as_str()).is_some() {
            Ok(Kind::record(table.as_str()).array())
        } else {
            Err(InferError::UnknownTable)
        }
    }
}

/// Follows the path `parts` from a value of kind `kind`.
pub fn walk_path(schema: &SchemaModel, kind: &Kind, parts: &[Part]) -> (result: Result<
    Kind,
    InferError,
>)
    ensures
        agrees(result, walked(schema@, kind@, parts@)),
    decreases parts.len(), kind,
{
    proof {
        reveal_with_fuel(kind_model, 2);
    }
    if parts.len() == 0 {
        return Ok(kind.duplicate());
    }
    let rest = slice_subrange(parts, 1, parts.len());
    assert(rest@ =~= parts@.drop_first());
    match &parts[0] {
        Part::Field(name) => match kind {
            Kind::Object(fields) => match fields.get(name.as_str()) {
                Some(found) => walk_path(schema, found, rest),
                None => Err(InferError::UnknownField),
            },
            Kind::Record(tables) => {
                if tables.len() == 0 {
                    return Err(InferError::TypeMismatch);
                }
                match schema.table_select_fields(tables[0].as_str()) {
                    Ok(row) => match row.get(name.as_str()) {
                        Some(found) => walk_path(schema, found, rest),
                        None => Err(InferError::UnknownField),
                    },
                    Err(error) => Err(error),
                }
            },
            Kind::Option(inner) => match walk_path(schema, inner, parts) {
                Ok(found) => Ok(Kind::Option(Box::new(found))),
                Err(error) => Err(error),
            },
            Kind::Array(inner) => match walk_path(schema, inner, parts) {
                Ok(found) => Ok(found.array()),
                Err(error) => Err(error),
            },
            _ => Err(InferError::TypeMismatch),
        },
        Part::Wildcard => walk_path(schema, kind, rest),
        Part::GraphStep(_) => get_traversal_type(schema, parts),
        _ => Err(InferError::UnsupportedExpression),
    }
}

} // verus!
