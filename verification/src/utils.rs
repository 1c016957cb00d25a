//! Finding the table that a target denotes, and merging field paths into the shape of a
//! result.

use vstd::prelude::*;
use vstd::slice::slice_subrange;
use crate::error::InferError;
use crate::kind::{
    array_of, kind_model, lemma_last_index, lemma_replace_last, names_model, no_fields,
    option_of, Entry, Kind, KindModel, TableFields,
};
use crate::schema::select_fields;
use crate::state::{bound, QueryState, StateModel};
use crate::syntax::{Part, ValueExpr};
use crate::text::owned_text;

verus! {

/// The first of the tables that a record refers to.
pub open spec fn first_table(tables: Seq<Seq<char>>) -> Option<Seq<char>> {
    if tables.len() > 0 {
        Some(tables[0])
    } else {
        None
    }
}

/// The table of the row that a value of this kind stands for: the kind is a record, a
/// record that may be missing, or an object whose `id` is a record.
pub open spec fn record_table(kind: KindModel) -> Option<Seq<char>> {
    match kind {
        KindModel::Record(tables) => first_table(tables),
        KindModel::Option(inner) => match *inner {
            KindModel::Record(tables) => first_table(tables),
            _ => None,
        },
        KindModel::Object(fields) => if fields.contains_key("id"@) {
            match fields["id"@] {
                KindModel::Record(tables) => first_table(tables),
                _ => None,
            }
        } else {
            None
        },
        _ => None,
    }
}

/// The table that a path denotes: the one that its last step goes to, which must be a
/// graph step.
pub open spec fn path_table(parts: Seq<Part>) -> Result<Seq<char>, InferError> {
    if parts.len() > 0 && parts[parts.len() - 1] is GraphStep {
        Ok(parts[parts.len() - 1]->GraphStep_0@)
    } else {
        Err(InferError::UnsupportedExpression)
    }
}

/// The table that a target denotes.
///
/// A table and a record id name it. An array denotes what its first item denotes. A
/// parameter must be bound to a kind that stands for a row. A path denotes the table
/// that its last step goes to, which must be a graph step.
pub open spec fn value_table(what: ValueExpr, scope: Seq<Map<Seq<char>, KindModel>>) -> Result<
    Seq<char>,
    InferError,
>
    decreases what,
{
    match what {
        ValueExpr::Table(name) => Ok(name@),
        ValueExpr::Array(items) => if items.len() == 0 {
            Err(InferError::EmptyTargetSet)
        } else {
            value_table(items[0], scope)
        },
        ValueExpr::Param(name) => match bound(scope, name@) {
            Some(kind) => match record_table(kind) {
                Some(table) => Ok(table),
                None => Err(InferError::TypeMismatch),
            },
            None => Err(InferError::UnknownParameter),
        },
        ValueExpr::RecordId(table, _) => Ok(table@),
        ValueExpr::FieldPath(parts) => path_table(parts@),
        _ => Err(InferError::TypeMismatch),
    }
}

/// The fields of the rows that a target denotes, which are those of its table.
pub open spec fn what_fields(what: ValueExpr, state: StateModel) -> Result<
    Map<Seq<char>, KindModel>,
    InferError,
> {
    match value_table(what, state.scope) {
        Ok(table) => if state.schema.contains_key(table) {
            Ok(select_fields(table, state.schema[table]))
        } else {
            Err(InferError::UnknownTable)
        },
        Err(error) => Err(error),
    }
}

/// The first of the tables of a record, as its own text.
fn first_of(tables: &Vec<String>) -> (result: Result<String, InferError>)
    ensures
        match result {
            Ok(table) => first_table(names_model(tables@)) == Some(table@),
            Err(error) => first_table(names_model(tables@)) is None && error
                == InferError::TypeMismatch,
        },
{
    if tables.len() > 0 {
        Ok(owned_text(tables[0].as_str()))
    } else {
        Err(InferError::TypeMismatch)
    }
}

/// Finds the table that a path denotes.
pub fn get_path_table(parts: &[Part]) -> (result: Result<String, InferError>)
    ensures
        match result {
            Ok(table) => path_table(parts@) == Ok::<_, InferError>(table@),
            Err(error) => path_table(parts@) == Err::<Seq<char>, _>(error),
        },
{
    if parts.len() > 0 {
        match &parts[parts.len() - 1] {
            Part::GraphStep(target) => Ok(owned_text(target.as_str())),
            _ => Err(InferError::UnsupportedExpression),
        }
    } else {
        Err(InferError::UnsupportedExpression)
    }
}

/// Finds the table that the target `what_value` denotes.
pub fn get_value_table(what_value: &ValueExpr, state: &mut QueryState) -> (result: Result<
    String,
    InferError,
>)
    ensures
        *final(state) == *old(state),
        match result {
            Ok(table) => value_table(*what_value, old(state)@.scope) == Ok::<_, InferError>(table@),
            Err(error) => value_table(*what_value, old(state)@.scope) == Err::<Seq<char>, _>(error),
        },
    decreases what_value,
{
    proof {
        reveal_with_fuel(kind_model, 3);
    }
    match what_value {
        ValueExpr::Table(table) => Ok(owned_text(table.as_str())),
        ValueExpr::Array(array) => {
            if array.len() > 0 {
                get_value_table(&array[0], state)
            } else {
                Err(InferError::EmptyTargetSet)
            }
        },
        ValueExpr::Param(param_ident) => match state.get(param_ident.as_str()) {
            Some(kind) => match kind {
                Kind::Record(tables) => first_of(tables),
                Kind::Option(inner) => match &**inner {
                    Kind::Record(tables) => first_of(tables),
                    _ => Err(InferError::TypeMismatch),
                },
                Kind::Object(fields) => match fields.get("id") {
                    Some(Kind::Record(tables)) => first_of(tables),
                    _ => Err(InferError::TypeMismatch),
                },
                _ => Err(InferError::TypeMismatch),
            },
            None => Err(InferError::UnknownParameter),
        },
        ValueExpr::RecordId(tb, _) => Ok(owned_text(tb.as_str())),
        ValueExpr::FieldPath(idiom) => get_path_table(idiom.as_slice()),
        _ => Err(InferError::TypeMismatch),
    }
}

/// Finds the fields of the rows that the target `what_value` denotes.
pub fn get_what_fields(what_value: &ValueExpr, state: &mut QueryState) -> (result: Result<
    TableFields,
    InferError,
>)
    ensures
        *final(state) == *old(state),
        match result {
            Ok(fields) => what_fields(*what_value, old(state)@) == Ok::<_, InferError>(fields@),
            Err(error) => what_fields(*what_value, old(state)@) == Err::<
                Map<Seq<char>, KindModel>,
                _,
            >(error),
        },
{
    let table_name = match get_value_table(what_value, state) {
        Ok(name) => name,
        Err(error) => {
            return Err(error);
        },
    };
    state.table_select_fields(table_name.as_str())
}

/// Whether a kind is an option whose content is itself an option.
pub open spec fn double_optional(kind: KindModel) -> bool {
    kind matches KindModel::Option(inner) && *inner is Option
}

/// Tells whether `return_type` is optional twice over, as the type of a path through
/// two optional fields is.
pub fn is_double_optional(return_type: &Kind) -> (twice: bool)
    ensures
        twice == double_optional(return_type@),
{
    proof {
        reveal_with_fuel(kind_model, 2);
    }
    match return_type {
        Kind::Option(inner) => match **inner {
            Kind::Option(_) => true,
            _ => false,
        },
        _ => false,
    }
}

/// What merging a path leaves behind: the fields, and the failure if there was one.
pub ghost struct Merged {
    pub map: Map<Seq<char>, KindModel>,
    pub result: Result<(), InferError>,
}

/// The name under which a wildcard puts its list: the field that follows it, else `*`.
pub open spec fn wildcard_key(parts: Seq<Part>) -> Seq<char> {
    if parts.len() > 1 && parts[1] is Field {
        parts[1]->Field_0@
    } else {
        "*"@
    }
}

/// The object in which a path goes on below `name`: what `map` holds there, or else an
/// empty object, optional where the leaf is optional twice over.
pub open spec fn container_at(
    map: Map<Seq<char>, KindModel>,
    name: Seq<char>,
    twice: bool,
) -> KindModel {
    if map.contains_key(name) {
        map[name]
    } else if twice {
        option_of(KindModel::Object(no_fields()))
    } else {
        KindModel::Object(no_fields())
    }
}

/// The fields that result from merging the path `parts`, which leads to a value of kind
/// `leaf`, into `map`.
///
/// A single field puts the leaf under its name. A field with more to follow goes on in
/// the object under its name, which is made if it is missing. Where the leaf is optional
/// twice over, that object is the optional one, and the path goes on with the leaf's
/// content, so that one level of optionality stays at each of the two places. A wildcard
/// puts a list of the leaf under the name that follows it, or under `*`. Any other part,
/// and a name that holds something else than the object needed, is not supported; what
/// was merged up to there stays.
pub open spec fn merged(map: Map<Seq<char>, KindModel>, parts: Seq<Part>, leaf: KindModel) -> Merged
    decreases parts.len(),
{
    if parts.len() == 0 {
        Merged { map, result: Ok(()) }
    } else {
        match parts[0] {
            Part::Field(name) => {
                if parts.len() == 1 {
                    Merged { map: map.insert(name@, leaf), result: Ok(()) }
                } else if double_optional(leaf) {
                    match container_at(map, name@, true) {
                        KindModel::Option(inner) => match *inner {
                            KindModel::Object(fields) => {
                                let below = merged(fields, parts.drop_first(), *leaf->Option_0);
                                Merged {
                                    map: map.insert(name@, option_of(KindModel::Object(below.map))),
                                    result: below.result,
                                }
                            },
                            _ => Merged { map, result: Err(InferError::UnsupportedExpression) },
                        },
                        _ => Merged { map, result: Err(InferError::UnsupportedExpression) },
                    }
                } else {
                    match container_at(map, name@, false) {
                        KindModel::Object(fields) => {
                            let below = merged(fields, parts.drop_first(), leaf);
                            Merged {
                                map: map.insert(name@, KindModel::Object(below.map)),
                                result: below.result,
                            }
                        },
                        _ => Merged { map, result: Err(InferError::UnsupportedExpression) },
                    }
                }
            },
            Part::Wildcard => Merged {
                map: map.insert(wildcard_key(parts), array_of(leaf)),
                result: Ok(()),
            },
            _ => Merged { map, result: Err(InferError::UnsupportedExpression) },
        }
    }
}

/// The place of the entry for `name`, after an empty container was added where there was none.
fn container_place(map: &mut TableFields, name: &str, twice: bool) -> (place: usize)
    ensures
        place < final(map).entries.len(),
        final(map).entries@[place as int].name@ == name@,
        forall|j: int|
            place < j < final(map).entries.len() ==> (#[trigger] final(map).entries@[j]).name@
                != name@,
        final(map).entries@[place as int].kind@ == container_at(old(map)@, name@, twice),
        final(map)@ == old(map)@.insert(name@, container_at(old(map)@, name@, twice)),
{
    proof {
        reveal_with_fuel(kind_model, 3);
        lemma_last_index(map.entries@, name@);
    }
    match map.position(name) {
        Some(place) => {
            assert(map@ =~= map@.insert(name@, map@[name@]));
            place
        },
        None => {
            let empty = Kind::Object(TableFields::new());
            let kind = if twice {
                Kind::Option(Box::new(empty))
            } else {
                empty
            };
            map.entries.push(Entry { name: owned_text(name), kind });
            assert(map.entries@.drop_last() =~= old(map).entries@);
            map.entries.len() - 1
        },
    }
}

/// Merges the path `parts`, which leads to a value of kind `return_type`, into `map`.
pub fn merge_into_map_recursively(
    map: &mut TableFields,
    parts: &[Part],
    return_type: Kind,
) -> (result: Result<(), InferError>)
    ensures
        final(map)@ == merged(old(map)@, parts@, return_type@).map,
        result == merged(old(map)@, parts@, return_type@).result,
    decreases parts.len(),
{
    proof {
        reveal_with_fuel(kind_model, 3);
    }
    if parts.len() == 0 {
        return Ok(());
    }
    match &parts[0] {
        Part::Field(field_name) => {
            if parts.len() == 1 {
                map.insert(owned_text(field_name.as_str()), return_type);
                Ok(())
            } else {
                let rest = slice_subrange(parts, 1, parts.len());
                assert(rest@ =~= parts@.drop_first());
                let twice = is_double_optional(&return_type);
                let place = container_place(map, field_name.as_str(), twice);
                let ghost before = map.entries@;
                let leaf = if twice {
                    match return_type {
                        Kind::Option(inner) => *inner,
                        other => other,
                    }
                } else {
                    return_type
                };
                let fits = match &map.entries[place].kind {
                    Kind::Option(boxed) => twice && matches!(**boxed, Kind::Object(_)),
                    Kind::Object(_) => !twice,
                    _ => false,
                };
                let result = if fits {
                    match &mut map.entries[place].kind {
                        Kind::Option(boxed) => match &mut **boxed {
                            Kind::Object(nested) => merge_into_map_recursively(nested, rest, leaf),
                            _ => Err(InferError::UnsupportedExpression),
                        },
                        Kind::Object(nested) => merge_into_map_recursively(nested, rest, leaf),
                        _ => Err(InferError::UnsupportedExpression),
                    }
                } else {
                    Err(InferError::UnsupportedExpression)
                };
                proof {
                    let changed = map.entries@[place as int];
                    assert(map.entries@ =~= before.update(place as int, changed));
                    lemma_replace_last(before, place as int, changed);
                    assert(old(map)@.contains_key(field_name@) ==> old(map)@ =~= old(map)@.insert(
                        field_name@,
                        container_at(old(map)@, field_name@, twice),
                    ));
                }
                result
            }
        },
        Part::Wildcard => {
            let key = match parts.get(1) {
                Some(Part::Field(ident)) => owned_text(ident.as_str()),
                _ => owned_text("*"),
            };
            map.insert(key, return_type.array());
            Ok(())
        },
        _ => Err(InferError::UnsupportedExpression),
    }
}

/// Merging a path a second time, with the same leaf, changes nothing: neither the
/// fields that the first merge left, nor the outcome.
pub proof fn lemma_merge_twice(map: Map<Seq<char>, KindModel>, parts: Seq<Part>, leaf: KindModel)
    ensures
        merged(merged(map, parts, leaf).map, parts, leaf) == merged(map, parts, leaf),
    decreases parts.len(),
{
    let once = merged(map, parts, leaf);
    if parts.len() > 0 {
        match parts[0] {
            Part::Field(name) => {
                if parts.len() == 1 {
                    assert(once.map.insert(name@, leaf) =~= once.map);
                } else {
                    let twice = double_optional(leaf);
                    let below_leaf = if twice {
                        *leaf->Option_0
                    } else {
                        leaf
                    };
                    let container = container_at(map, name@, twice);
                    let fits = if twice {
                        container matches KindModel::Option(inner) && *inner is Object
                    } else {
                        container is Object
                    };
                    if fits {
                        let fields = if twice {
                            container->Option_0->Object_0
                        } else {
                            container->Object_0
                        };
                        let below = merged(fields, parts.drop_first(), below_leaf);
                        lemma_merge_twice(fields, parts.drop_first(), below_leaf);
                        let kept = if twice {
                            option_of(KindModel::Object(below.map))
                        } else {
                            KindModel::Object(below.map)
                        };
                        assert(once.map == map.insert(name@, kept));
                        assert(container_at(once.map, name@, twice) == kept);
                        assert(once.map.insert(name@, kept) =~= once.map);
                    }
                }
            },
            Part::Wildcard => {
                assert(once.map.insert(wildcard_key(parts), array_of(leaf)) =~= once.map);
            },
            _ => {},
        }
    }
}

/// Whether every part of a path is a plain field.
pub open spec fn only_fields(parts: Seq<Part>) -> bool {
    forall|i: int| 0 <= i < parts.len() ==> (#[trigger] parts[i]) is Field
}

/// The kind found by following a path of fields down through objects, optional or not.
pub open spec fn kind_at(map: Map<Seq<char>, KindModel>, parts: Seq<Part>) -> Option<KindModel>
    decreases parts.len(),
{
    if parts.len() == 0 || !(parts[0] is Field) || !map.contains_key(parts[0]->Field_0@) {
        None
    } else if parts.len() == 1 {
        Some(map[parts[0]->Field_0@])
    } else {
        match map[parts[0]->Field_0@] {
            KindModel::Object(fields) => kind_at(fields, parts.drop_first()),
            KindModel::Option(inner) => match *inner {
                KindModel::Object(fields) => kind_at(fields, parts.drop_first()),
                _ => None,
            },
            _ => None,
        }
    }
}

/// The kind that a path of fields ends at once it is merged: the leaf itself, or its
/// content where the leaf is optional twice over and the path has more than one field.
pub open spec fn merged_leaf(parts: Seq<Part>, leaf: KindModel) -> KindModel {
    if parts.len() > 1 && double_optional(leaf) {
        *leaf->Option_0
    } else {
        leaf
    }
}

/// After a path of fields was merged with success, following it leads to the leaf, with
/// one level of optionality taken off where the leaf had two and the path more than one
/// field.
pub proof fn lemma_merged_leaf(map: Map<Seq<char>, KindModel>, parts: Seq<Part>, leaf: KindModel)
    requires
        parts.len() > 0,
        only_fields(parts),
        merged(map, parts, leaf).result is Ok,
        !double_optional(merged_leaf(parts, leaf)),
    ensures
        kind_at(merged(map, parts, leaf).map, parts) == Some(merged_leaf(parts, leaf)),
    decreases parts.len(),
{
    let name = parts[0]->Field_0;
    if parts.len() > 1 {
        let rest = parts.drop_first();
        assert forall|i: int| 0 <= i < rest.len() implies (#[trigger] rest[i]) is Field by {
            assert(rest[i] == parts[i + 1]);
        }
        let twice = double_optional(leaf);
        let below_leaf = merged_leaf(parts, leaf);
        let container = container_at(map, name@, twice);
        let fields = if twice {
            container->Option_0->Object_0
        } else {
            container->Object_0
        };
        assert(merged_leaf(rest, below_leaf) == below_leaf);
        lemma_merged_leaf(fields, rest, below_leaf);
    }
}

/// A path through two optional fields, whose leaf is therefore optional twice over,
/// is merged so that the object under the first field is optional and the second
/// field is optional once: no kind that is optional twice over is left at the leaf.
pub proof fn lemma_double_optional_is_flattened(
    map: Map<Seq<char>, KindModel>,
    first: Part,
    second: Part,
    content: KindModel,
)
    requires
        first is Field,
        second is Field,
        !(content is Option),
        merged(map, seq![first, second], option_of(option_of(content))).result is Ok,
    ensures
        ({
            let after = merged(map, seq![first, second], option_of(option_of(content))).map;
            &&& after.contains_key(first->Field_0@)
            &&& after[first->Field_0@] matches KindModel::Option(inner)
            &&& *inner matches KindModel::Object(fields)
            &&& fields.contains_key(second->Field_0@)
            &&& fields[second->Field_0@] == option_of(content)
            &&& !double_optional(fields[second->Field_0@])
        }),
{
    let parts = seq![first, second];
    let leaf = option_of(option_of(content));
    assert(parts.drop_first() =~= seq![second]);
    let container = container_at(map, first->Field_0@, true);
    let fields = container->Option_0->Object_0;
    assert(merged(fields, seq![second], option_of(content)).map == fields.insert(
        second->Field_0@,
        option_of(content),
    ));
}

} // verus!
