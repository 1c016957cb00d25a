//! What is known while a query is read: the schema, the variables in scope, and what
//! was learnt of the parameters that the caller has to supply.

use vstd::prelude::*;
use crate::error::InferError;
use crate::kind::{united, Kind, KindModel, TableFields};
use crate::schema::{select_fields, SchemaModel, TableModel};
use crate::text::owned_text;

verus! {

/// What a [`QueryState`] holds.
pub ghost struct StateModel {
    pub schema: Map<Seq<char>, TableModel>,
    /// The frames of bindings, the innermost last.
    pub scope: Seq<Map<Seq<char>, KindModel>>,
    /// The kinds required of the caller's parameters.
    pub required: Map<Seq<char>, KindModel>,
}

/// The state of one run of inference over the statements of a query.
#[derive(Debug)]
pub struct QueryState<'a> {
    pub schema: &'a SchemaModel,
    /// The frames of bindings, the innermost last.
    pub scope: Vec<TableFields>,
    /// The kinds required of the caller's parameters.
    pub required_variables: TableFields,
}

/// The maps that a list of frames denotes.
pub open spec fn frames_model(frames: Seq<TableFields>) -> Seq<Map<Seq<char>, KindModel>> {
    Seq::new(frames.len(), |i: int| frames[i]@)
}

impl<'a> View for QueryState<'a> {
    type V = StateModel;

    open spec fn view(&self) -> StateModel {
        StateModel {
            schema: self.schema@,
            scope: frames_model(self.scope@),
            required: self.required_variables@,
        }
    }
}

/// The kind that `name` is bound to: that of the innermost frame that binds it.
pub open spec fn bound(scope: Seq<Map<Seq<char>, KindModel>>, name: Seq<char>) -> Option<KindModel>
    decreases scope.len(),
{
    if scope.len() == 0 {
        None
    } else if scope.last().contains_key(name) {
        Some(scope.last()[name])
    } else {
        bound(scope.drop_last(), name)
    }
}

/// The frames after `name` was bound to `kind` in the innermost of them, or in a first
/// frame where there was none.
pub open spec fn with_local(
    scope: Seq<Map<Seq<char>, KindModel>>,
    name: Seq<char>,
    kind: KindModel,
) -> Seq<Map<Seq<char>, KindModel>> {
    if scope.len() == 0 {
        seq![Map::<Seq<char>, KindModel>::empty().insert(name, kind)]
    } else {
        scope.update(scope.len() - 1, scope.last().insert(name, kind))
    }
}

/// What is required of the parameters after `name` was seen to need kind `kind`: what
/// was required of it before is kept beside the new kind.
pub open spec fn inferred(
    required: Map<Seq<char>, KindModel>,
    name: Seq<char>,
    kind: KindModel,
) -> Map<Seq<char>, KindModel> {
    if required.contains_key(name) {
        required.insert(name, united(required[name], kind))
    } else {
        required.insert(name, kind)
    }
}

impl<'a> QueryState<'a> {
    /// The state at the start of a run: `globals` are the bindings that the caller
    /// supplies, and nothing is required yet.
    pub fn new(schema: &'a SchemaModel, globals: TableFields) -> (state: QueryState<'a>)
        ensures
            state@ == (StateModel {
                schema: schema@,
                scope: seq![globals@],
                required: Map::empty(),
            }),
    {
        let mut scope: Vec<TableFields> = Vec::new();
        scope.push(globals);
        assert(frames_model(scope@) =~= seq![globals@]);
        QueryState { schema, scope, required_variables: TableFields::new() }
    }

    /// The kind that `name` is bound to, if it is bound.
    pub fn get(&self, name: &str) -> (found: Option<&Kind>)
        ensures
            match found {
                Some(kind) => bound(self@.scope, name@) == Some(kind@),
                None => bound(self@.scope, name@) is None,
            },
    {
        let mut i: usize = self.scope.len();
        assert(frames_model(self.scope@).take(i as int) =~= frames_model(self.scope@));
        while i > 0
            invariant
                i <= self.scope.len(),
                bound(self@.scope, name@) == bound(frames_model(self.scope@).take(i as int), name@),
            decreases i,
        {
            i -= 1;
            proof {
                let upto = frames_model(self.scope@).take(i + 1);
                assert(upto.drop_last() =~= frames_model(self.scope@).take(i as int));
                assert(upto.last() == self.scope@[i as int]@);
            }
            match self.scope[i].get(name) {
                Some(kind) => {
                    return Some(kind);
                },
                None => {},
            }
        }
        None
    }

    /// Opens a frame for the bindings of a nested context.
    pub fn push_stack_frame(&mut self)
        ensures
            final(self)@ == (StateModel {
                scope: old(self)@.scope.push(Map::empty()),
                ..old(self)@
            }),
    {
        self.scope.push(TableFields::new());
        assert(frames_model(self.scope@) =~= frames_model(old(self).scope@).push(Map::empty()));
    }

    /// Closes the innermost frame, and with it the bindings made in it.
    pub fn pop_stack_frame(&mut self)
        ensures
            final(self)@ == (StateModel {
                scope: if old(self)@.scope.len() > 0 {
                    old(self)@.scope.drop_last()
                } else {
                    old(self)@.scope
                },
                ..old(self)@
            }),
    {
        let gone = self.scope.pop();
        assert(frames_model(self.scope@) =~= if old(self)@.scope.len() > 0 {
            old(self)@.scope.drop_last()
        } else {
            old(self)@.scope
        });
    }

    /// Binds `name` to `kind` in the innermost frame.
    pub fn set_local(&mut self, name: &str, kind: Kind)
        ensures
            final(self)@ == (StateModel {
                scope: with_local(old(self)@.scope, name@, kind@),
                ..old(self)@
            }),
    {
        if self.scope.len() == 0 {
            self.scope.push(TableFields::new());
        }
        let last = self.scope.len() - 1;
        self.scope[last].insert(owned_text(name), kind);
        assert(frames_model(self.scope@) =~= with_local(old(self)@.scope, name@, kind@));
    }

    /// Records that the parameter `name` has to be of kind `kind`.
    pub fn infer(&mut self, name: &str, kind: Kind)
        ensures
            final(self)@ == (StateModel {
                required: inferred(old(self)@.required, name@, kind@),
                ..old(self)@
            }),
    {
        let both = match self.required_variables.get(name) {
            Some(known) => known.duplicate().unite(kind),
            None => kind,
        };
        self.required_variables.insert(owned_text(name), both);
    }

    /// The fields that a row of `table` has when it is read.
    pub fn table_select_fields(&self, table: &str) -> (result: Result<TableFields, InferError>)
        ensures
            match result {
                Ok(fields) => self@.schema.contains_key(table@) && fields@ == select_fields(
                    table@,
                    self@.schema[table@],
                ),
                Err(error) => !self@.schema.contains_key(table@) && error
                    == InferError::UnknownTable,
            },
    {
        self.schema.table_select_fields(table)
    }
}

} // verus!
