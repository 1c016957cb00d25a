//! The declared tables, their fields and the relations between them.

use vstd::prelude::*;
use crate::error::InferError;
use crate::kind::{
    duplicate_names, kind_model, names_model, option_of, record_of, Kind, KindModel, TableFields,
};
use crate::syntax::{Definition, Part};
use crate::text::{owned_text, same_text};
use crate::utils::{merge_into_map_recursively, merged};

verus! {

/// What a [`TableDefinition`] says of its table.
pub ghost struct TableModel {
    pub fields: Map<Seq<char>, KindModel>,
    pub is_relation: bool,
    pub in_tables: Seq<Seq<char>>,
    pub out_tables: Seq<Seq<char>>,
}

/// One declared table.
#[derive(Debug)]
pub struct TableDefinition {
    pub name: String,
    pub fields: TableFields,
    /// Whether the rows of the table are edges.
    pub is_relation: bool,
    /// The tables at which the edges may start; none where that is left open.
    pub in_tables: Vec<String>,
    /// The tables at which the edges may end; none where that is left open.
    pub out_tables: Vec<String>,
}

impl View for TableDefinition {
    type V = TableModel;

    open spec fn view(&self) -> TableModel {
        TableModel {
            fields: self.fields@,
            is_relation: self.is_relation,
            in_tables: names_model(self.in_tables@),
            out_tables: names_model(self.out_tables@),
        }
    }
}

/// The declared tables, in the order of their declarations. Where a name was declared
/// twice the later declaration counts.
#[derive(Debug)]
pub struct SchemaModel {
    pub tables: Vec<TableDefinition>,
}

/// The map from names to tables that a list of declarations denotes.
pub open spec fn tables_model(tables: Seq<TableDefinition>) -> Map<Seq<char>, TableModel>
    decreases tables.len(),
{
    if tables.len() == 0 {
        Map::empty()
    } else {
        tables_model(tables.drop_last()).insert(tables.last().name@, tables.last()@)
    }
}

impl View for SchemaModel {
    type V = Map<Seq<char>, TableModel>;

    open spec fn view(&self) -> Map<Seq<char>, TableModel> {
        tables_model(self.tables@)
    }
}

/// The place of the last declaration of `name`, if there is one.
pub open spec fn last_table(tables: Seq<TableDefinition>, name: Seq<char>) -> Option<int>
    decreases tables.len(),
{
    if tables.len() == 0 {
        None
    } else if tables.last().name@ == name {
        Some(tables.len() - 1)
    } else {
        last_table(tables.drop_last(), name)
    }
}

/// The last declaration of a name is the one that the schema holds under that name.
pub proof fn lemma_last_table(tables: Seq<TableDefinition>, name: Seq<char>)
    ensures
        match last_table(tables, name) {
            Some(i) => {
                &&& 0 <= i < tables.len()
                &&& tables[i].name@ == name
                &&& forall|j: int| i < j < tables.len() ==> (#[trigger] tables[j]).name@ != name
                &&& tables_model(tables).contains_key(name)
                &&& tables_model(tables)[name] == tables[i]@
            },
            None => {
                &&& forall|j: int| 0 <= j < tables.len() ==> (#[trigger] tables[j]).name@ != name
                &&& !tables_model(tables).contains_key(name)
            },
        },
    decreases tables.len(),
{
    if tables.len() > 0 && tables.last().name@ != name {
        let front = tables.drop_last();
        lemma_last_table(front, name);
        match last_table(front, name) {
            Some(i) => {
                assert forall|j: int| i < j < tables.len() implies (#[trigger] tables[j]).name@
                    != name by {
                    if j < front.len() {
                        assert(front[j] == tables[j]);
                    }
                }
            },
            None => {
                assert forall|j: int| 0 <= j < tables.len() implies (#[trigger] tables[j]).name@
                    != name by {
                    if j < front.len() {
                        assert(front[j] == tables[j]);
                    }
                }
            },
        }
    }
}

/// Replacing the last declaration of a name by another of that name puts the new table
/// under the name and leaves the rest of the schema alone.
pub proof fn lemma_replace_table(tables: Seq<TableDefinition>, i: int, table: TableDefinition)
    requires
        0 <= i < tables.len(),
        tables[i].name@ == table.name@,
        forall|j: int| i < j < tables.len() ==> (#[trigger] tables[j]).name@ != table.name@,
    ensures
        tables_model(tables.update(i, table)) == tables_model(tables).insert(table.name@, table@),
    decreases tables.len(),
{
    let changed = tables.update(i, table);
    let front = tables.drop_last();
    if i == tables.len() - 1 {
        assert(changed.drop_last() =~= front);
        assert(tables_model(changed) =~= tables_model(tables).insert(table.name@, table@));
    } else {
        assert(changed.drop_last() =~= front.update(i, table));
        assert(changed.last() == tables.last());
        assert forall|j: int| i < j < front.len() implies (#[trigger] front[j]).name@
            != table.name@ by {
            assert(front[j] == tables[j]);
        }
        lemma_replace_table(front, i, table);
        assert(tables_model(changed) =~= tables_model(tables).insert(table.name@, table@));
    }
}

/// A table as it is once declared: without fields, and no relation.
pub open spec fn empty_table() -> TableModel {
    TableModel {
        fields: Map::empty(),
        is_relation: false,
        in_tables: Seq::empty(),
        out_tables: Seq::empty(),
    }
}

/// The fields that a row of the table has when it is read: the declared fields, its
/// `id`, and for a relation whose ends are declared, `in` and `out`.
pub open spec fn select_fields(name: Seq<char>, table: TableModel) -> Map<Seq<char>, KindModel> {
    let with_id = table.fields.insert("id"@, record_of(name));
    let with_in = if table.is_relation && table.in_tables.len() > 0 {
        with_id.insert("in"@, KindModel::Record(table.in_tables))
    } else {
        with_id
    };
    if table.is_relation && table.out_tables.len() > 0 {
        with_in.insert("out"@, KindModel::Record(table.out_tables))
    } else {
        with_in
    }
}

/// The object that content must be to make a row of the table: every declared field,
/// and an `id` that may be left out.
pub open spec fn create_fields(name: Seq<char>, table: TableModel) -> KindModel {
    KindModel::Object(table.fields.insert("id"@, option_of(record_of(name))))
}

/// The schema after a field was declared, and whether that went well.
pub ghost struct Defined {
    pub schema: Map<Seq<char>, TableModel>,
    pub result: Result<(), InferError>,
}

/// Declaring the field at `path` in `table`: the path is merged into the fields of the
/// table, which must have been declared.
pub open spec fn field_defined(
    schema: Map<Seq<char>, TableModel>,
    table: Seq<char>,
    path: Seq<Part>,
    kind: KindModel,
) -> Defined {
    if schema.contains_key(table) {
        let outcome = merged(schema[table].fields, path, kind);
        Defined {
            schema: schema.insert(table, TableModel { fields: outcome.map, ..schema[table] }),
            result: outcome.result,
        }
    } else {
        Defined { schema, result: Err(InferError::UnknownTable) }
    }
}

/// Declaring that `table` is a relation between the tables named: the table must have
/// been declared.
pub open spec fn relation_defined(
    schema: Map<Seq<char>, TableModel>,
    table: Seq<char>,
    in_tables: Seq<Seq<char>>,
    out_tables: Seq<Seq<char>>,
) -> Defined {
    if schema.contains_key(table) {
        Defined {
            schema: schema.insert(
                table,
                TableModel { is_relation: true, in_tables, out_tables, ..schema[table] },
            ),
            result: Ok(()),
        }
    } else {
        Defined { schema, result: Err(InferError::UnknownTable) }
    }
}

/// The schema after one definition.
pub open spec fn defined(schema: Map<Seq<char>, TableModel>, definition: Definition) -> Defined {
    match definition {
        Definition::Table { name } => Defined {
            schema: schema.insert(name@, empty_table()),
            result: Ok(()),
        },
        Definition::Field { table, path, kind } => field_defined(schema, table@, path@, kind@),
        Definition::Relation { table, in_tables, out_tables } => relation_defined(
            schema,
            table@,
            names_model(in_tables@),
            names_model(out_tables@),
        ),
    }
}

/// The schema that a list of definitions builds, taken in order; the first definition
/// that fails ends it.
pub open spec fn built(definitions: Seq<Definition>) -> Result<
    Map<Seq<char>, TableModel>,
    InferError,
>
    decreases definitions.len(),
{
    if definitions.len() == 0 {
        Ok(Map::empty())
    } else {
        match built(definitions.drop_last()) {
            Ok(schema) => match defined(schema, definitions.last()).result {
                Ok(_) => Ok(defined(schema, definitions.last()).schema),
                Err(error) => Err(error),
            },
            Err(error) => Err(error),
        }
    }
}

impl SchemaModel {
    /// A schema without tables.
    pub fn new() -> (schema: SchemaModel)
        ensures
            schema@ == Map::<Seq<char>, TableModel>::empty(),
    {
        SchemaModel { tables: Vec::new() }
    }

    /// The place of the declaration that counts for `name`.
    pub fn position(&self, name: &str) -> (place: Option<usize>)
        ensures
            match place {
                Some(i) => last_table(self.tables@, name@) == Some(i as int),
                None => last_table(self.tables@, name@) is None,
            },
    {
        let mut i: usize = self.tables.len();
        while i > 0
            invariant
                i <= self.tables.len(),
                forall|j: int|
                    i <= j < self.tables.len() ==> (#[trigger] self.tables@[j]).name@ != name@,
            decreases i,
        {
            i -= 1;
            if same_text(self.tables[i].name.as_str(), name) {
                proof {
                    lemma_last_table(self.tables@, name@);
                }
                return Some(i);
            }
        }
        proof {
            lemma_last_table(self.tables@, name@);
        }
        None
    }

    /// The table called `name`, if it was declared.
    pub fn table(&self, name: &str) -> (found: Option<&TableDefinition>)
        ensures
            match found {
                Some(table) => self@.contains_key(name@) && table@ == self@[name@],
                None => !self@.contains_key(name@),
            },
    {
        proof {
            lemma_last_table(self.tables@, name@);
        }
        match self.position(name) {
            Some(i) => Some(&self.tables[i]),
            None => None,
        }
    }

    /// Declares the table `name`, without fields. An earlier table of that name is
    /// replaced.
    pub fn define_table(&mut self, name: &str)
        ensures
            final(self)@ == old(self)@.insert(name@, empty_table()),
    {
        let table = TableDefinition {
            name: owned_text(name),
            fields: TableFields::new(),
            is_relation: false,
            in_tables: Vec::new(),
            out_tables: Vec::new(),
        };
        assert(table@ == empty_table()) by {
            assert(names_model(table.in_tables@) =~= Seq::<Seq<char>>::empty());
            assert(names_model(table.out_tables@) =~= Seq::<Seq<char>>::empty());
        }
        proof {
            lemma_last_table(self.tables@, name@);
        }
        match self.position(name) {
            Some(i) => {
                proof {
                    lemma_replace_table(self.tables@, i as int, table);
                }
                self.tables[i] = table;
            },
            None => {
                self.tables.push(table);
                assert(self.tables@.drop_last() =~= old(self).tables@);
            },
        }
    }

    /// Declares the field at `path` in `table`, with its kind.
    pub fn define_field(&mut self, table: &str, path: &[Part], kind: Kind) -> (result: Result<
        (),
        InferError,
    >)
        ensures
            final(self)@ == field_defined(old(self)@, table@, path@, kind@).schema,
            result == field_defined(old(self)@, table@, path@, kind@).result,
    {
        proof {
            lemma_last_table(self.tables@, table@);
        }
        match self.position(table) {
            Some(i) => {
                let ghost before = self.tables@;
                let result = merge_into_map_recursively(&mut self.tables[i].fields, path, kind);
                proof {
                    assert(self.tables@ =~= before.update(i as int, self.tables@[i as int]));
                    lemma_replace_table(before, i as int, self.tables@[i as int]);
                }
                result
            },
            None => Err(InferError::UnknownTable),
        }
    }

    /// Declares that `table` holds edges from the tables `in_tables` to the tables
    /// `out_tables`.
    pub fn define_relation(
        &mut self,
        table: &str,
        in_tables: Vec<String>,
        out_tables: Vec<String>,
    ) -> (result: Result<(), InferError>)
        ensures
            final(self)@ == relation_defined(
                old(self)@,
                table@,
                names_model(in_tables@),
                names_model(out_tables@),
            ).schema,
            result == relation_defined(
                old(self)@,
                table@,
                names_model(in_tables@),
                names_model(out_tables@),
            ).result,
    {
        proof {
            lemma_last_table(self.tables@, table@);
        }
        match self.position(table) {
            Some(i) => {
                let ghost before = self.tables@;
                let entry = &mut self.tables[i];
                entry.is_relation = true;
                entry.in_tables = in_tables;
                entry.out_tables = out_tables;
                proof {
                    assert(self.tables@ =~= before.update(i as int, self.tables@[i as int]));
                    lemma_replace_table(before, i as int, self.tables@[i as int]);
                }
                Ok(())
            },
            None => Err(InferError::UnknownTable),
        }
    }

    /// The fields that a row of `table` has when it is read.
    pub fn table_select_fields(&self, table: &str) -> (result: Result<TableFields, InferError>)
        ensures
            match result {
                Ok(fields) => self@.contains_key(table@) && fields@ == select_fields(
                    table@,
                    self@[table@],
                ),
                Err(error) => !self@.contains_key(table@) && error == InferError::UnknownTable,
            },
    {
        match self.table(table) {
            Some(found) => {
                let mut fields = found.fields.duplicate();
                fields.insert(owned_text("id"), Kind::record(table));
                if found.is_relation && found.in_tables.len() > 0 {
                    fields.insert(
                        owned_text("in"),
                        Kind::Record(duplicate_names(&found.in_tables)),
                    );
                }
                if found.is_relation && found.out_tables.len() > 0 {
                    fields.insert(
                        owned_text("out"),
                        Kind::Record(duplicate_names(&found.out_tables)),
                    );
                }
                Ok(fields)
            },
            None => Err(InferError::UnknownTable),
        }
    }

    /// The object that content must be to make a row of `table`.
    pub fn create_required_fields(&self, table: &str) -> (result: Result<Kind, InferError>)
        ensures
            match result {
                Ok(kind) => self@.contains_key(table@) && kind@ == create_fields(
                    table@,
                    self@[table@],
                ),
                Err(error) => !self@.contains_key(table@) && error == InferError::UnknownTable,
            },
    {
        proof {
            reveal_with_fuel(kind_model, 3);
        }
        match self.table(table) {
            Some(found) => {
                let mut fields = found.fields.duplicate();
                fields.insert(owned_text("id"), Kind::record(table).optional());
                Ok(Kind::Object(fields))
            },
            None => Err(InferError::UnknownTable),
        }
    }

    /// Takes one definition into the schema.
    pub fn define(&mut self, definition: &Definition) -> (result: Result<(), InferError>)
        ensures
            final(self)@ == defined(old(self)@, *definition).schema,
            result == defined(old(self)@, *definition).result,
    {
        match definition {
            Definition::Table { name } => {
                self.define_table(name.as_str());
                Ok(())
            },
            Definition::Field { table, path, kind } => self.define_field(
                table.as_str(),
                path.as_slice(),
                kind.duplicate(),
            ),
            Definition::Relation { table, in_tables, out_tables } => {
                let ins = duplicate_names(in_tables);
                let outs = duplicate_names(out_tables);
                self.define_relation(table.as_str(), ins, outs)
            },
        }
    }

    /// Builds the schema that a list of definitions declares.
    pub fn build(definitions: &[Definition]) -> (result: Result<SchemaModel, InferError>)
        ensures
            match result {
                Ok(schema) => built(definitions@) == Ok::<_, InferError>(schema@),
                Err(error) => built(definitions@) == Err::<Map<Seq<char>, TableModel>, _>(error),
            },
    {
        let mut schema = SchemaModel::new();
        let mut i: usize = 0;
        while i < definitions.len()
            invariant
                i <= definitions.len(),
                built(definitions@.take(i as int)) == Ok::<_, InferError>(schema@),
            decreases definitions.len() - i,
        {
            let result = schema.define(&definitions[i]);
            proof {
                assert(definitions@.take(i + 1).drop_last() =~= definitions@.take(i as int));
                assert(definitions@.take(i + 1).last() == definitions@[i as int]);
                lemma_built_fails_on(definitions@, i + 1);
            }
            match result {
                Ok(_) => {},
                Err(error) => {
                    return Err(error);
                },
            }
            i += 1;
        }
        assert(definitions@.take(i as int) =~= definitions@);
        Ok(schema)
    }
}

/// Once a front part of the definitions has failed, the whole list fails in the same way.
proof fn lemma_built_fails_on(definitions: Seq<Definition>, n: int)
    requires
        0 <= n <= definitions.len(),
    ensures
        built(definitions.take(n)) is Err ==> built(definitions) == built(definitions.take(n)),
    decreases definitions.len() - n,
{
    if n < definitions.len() {
        assert(definitions.take(n + 1).drop_last() =~= definitions.take(n));
        lemma_built_fails_on(definitions, n + 1);
    } else {
        assert(definitions.take(n) =~= definitions);
    }
}

} // verus!
