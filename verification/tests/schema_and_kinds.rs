use surreal_type_generator::error::InferError;
use surreal_type_generator::kind::{Entry, Kind, TableFields};
use surreal_type_generator::paths::walk_path;
use surreal_type_generator::schema::SchemaModel;
use surreal_type_generator::state::QueryState;
use surreal_type_generator::syntax::{Definition, Part};
use surreal_type_generator::text::{owned_text, same_text};

fn map_of(fields: Vec<(&str, Kind)>) -> TableFields {
    let mut entries = Vec::new();
    for (name, kind) in fields {
        entries.push(Entry { name: name.to_string(), kind });
    }
    TableFields { entries }
}

fn link(table: &str) -> Kind {
    Kind::Record(vec![table.to_string()])
}

fn opt(kind: Kind) -> Kind {
    Kind::Option(Box::new(kind))
}

fn steps(names: &[&str]) -> Vec<Part> {
    names.iter().map(|name| Part::Field(name.to_string())).collect()
}

#[test]
fn text_is_compared_by_its_characters() {
    assert!(same_text("id", "id"));
    assert!(same_text("", ""));
    assert!(!same_text("id", "in"));
    assert!(!same_text("id", "id "));
    assert!(!same_text("é", "e"));
    assert!(same_text("héllo→", &owned_text("héllo→")));
}

#[test]
fn objects_are_the_same_whatever_the_order_of_their_fields() {
    let a = Kind::Object(map_of(vec![("x", Kind::Int), ("y", Kind::String)]));
    let b = Kind::Object(map_of(vec![("y", Kind::String), ("x", Kind::Int)]));
    let c = Kind::Object(map_of(vec![("y", Kind::String), ("x", Kind::Float)]));
    let d = Kind::Object(map_of(vec![("y", Kind::String)]));
    assert!(a.same(&b));
    assert!(b.same(&a));
    assert!(!a.same(&c));
    assert!(!a.same(&d));
    assert!(!d.same(&a));
    assert!(a.same(&a.duplicate()));
}

#[test]
fn later_entry_of_a_name_counts() {
    let twice = map_of(vec![("x", Kind::Int), ("y", Kind::Bool), ("x", Kind::String)]);
    assert!(twice.get("x").unwrap().same(&Kind::String));
    assert!(twice.same(&map_of(vec![("y", Kind::Bool), ("x", Kind::String)])));
    assert_eq!(twice.position("x"), Some(2));
    assert_eq!(twice.position("z"), None);
    assert!(twice.contains("y"));
    assert!(!twice.contains("z"));
    let mut replaced = twice.duplicate();
    replaced.insert("x".to_string(), Kind::Uuid);
    assert!(replaced.same(&map_of(vec![("y", Kind::Bool), ("x", Kind::Uuid)])));
    assert_eq!(replaced.entries.len(), 3);
}

#[test]
fn extend_prefers_the_fields_that_come() {
    let mut fields = map_of(vec![("a", Kind::Int), ("b", Kind::Int)]);
    fields.extend(&map_of(vec![("b", Kind::String), ("c", Kind::Bool)]));
    assert!(fields.same(&map_of(vec![("a", Kind::Int), ("b", Kind::String), ("c", Kind::Bool)])));
}

#[test]
fn kinds_differ_by_variant_and_content() {
    let all = [
        Kind::Any,
        Kind::Null,
        Kind::Bool,
        Kind::Bytes,
        Kind::Datetime,
        Kind::Decimal,
        Kind::Duration,
        Kind::Float,
        Kind::Int,
        Kind::Number,
        Kind::String,
        Kind::Uuid,
        link("a"),
        Kind::Record(vec!["a".to_string(), "b".to_string()]),
        opt(Kind::Int),
        Kind::Array(Box::new(Kind::Int)),
        Kind::Either(vec![Kind::Int, Kind::String]),
        Kind::Either(vec![Kind::String, Kind::Int]),
        Kind::Object(TableFields::new()),
    ];
    for (i, a) in all.iter().enumerate() {
        for (j, b) in all.iter().enumerate() {
            assert_eq!(a.same(b), i == j, "{a:?} {b:?}");
        }
        assert!(a.duplicate().same(a));
    }
}

#[test]
fn constructors_wrap_once() {
    assert!(Kind::record("user").same(&link("user")));
    assert!(Kind::Int.array().same(&Kind::Array(Box::new(Kind::Int))));
    assert!(Kind::Int.optional().same(&opt(Kind::Int)));
    assert!(opt(Kind::Int).optional().same(&opt(Kind::Int)));
}

#[test]
fn union_keeps_each_alternative_once() {
    assert!(Kind::Int.unite(Kind::Int).same(&Kind::Int));
    assert!(Kind::Int.unite(Kind::String).same(&Kind::Either(vec![Kind::Int, Kind::String])));
    let both = Kind::Either(vec![Kind::Int, Kind::String]);
    assert!(both.duplicate().unite(Kind::String).same(&both));
    assert!(both.duplicate().unite(Kind::Bool).same(&Kind::Either(vec![
        Kind::Int,
        Kind::String,
        Kind::Bool
    ])));
    assert!(both.duplicate().unite(both.duplicate()).same(&both));
}

#[test]
fn definitions_need_their_table() {
    let mut schema = SchemaModel::new();
    assert_eq!(
        schema.define_field("user", &steps(&["name"]), Kind::String),
        Err(InferError::UnknownTable)
    );
    assert_eq!(
        schema.define_relation("likes", vec![], vec![]),
        Err(InferError::UnknownTable)
    );
    assert!(schema.table("user").is_none());
    schema.define_table("user");
    let user = schema.table("user").unwrap();
    assert!(user.fields.same(&TableFields::new()));
    assert!(!user.is_relation);
    assert_eq!(schema.define_field("user", &steps(&["name"]), Kind::String), Ok(()));
    assert!(schema.table("user").unwrap().fields.same(&map_of(vec![("name", Kind::String)])));
    assert_eq!(
        schema.table_select_fields("team").err(),
        Some(InferError::UnknownTable)
    );
    assert_eq!(
        schema.create_required_fields("team").err(),
        Some(InferError::UnknownTable)
    );
}

#[test]
fn declaring_a_table_again_empties_it() {
    let mut schema = SchemaModel::new();
    schema.define_table("user");
    assert_eq!(schema.define_field("user", &steps(&["name"]), Kind::String), Ok(()));
    schema.define_table("team");
    schema.define_table("user");
    assert!(schema.table("user").unwrap().fields.same(&TableFields::new()));
    assert_eq!(schema.tables.len(), 2);
}

#[test]
fn dotted_fields_nest() {
    let mut schema = SchemaModel::new();
    schema.define_table("user");
    assert_eq!(schema.define_field("user", &steps(&["address", "city"]), Kind::String), Ok(()));
    assert_eq!(schema.define_field("user", &steps(&["address", "zip"]), Kind::Int), Ok(()));
    assert_eq!(
        schema.define_field("user", &steps(&["boss", "name"]), opt(opt(Kind::String))),
        Ok(())
    );
    let expected = map_of(vec![
        (
            "address",
            Kind::Object(map_of(vec![("city", Kind::String), ("zip", Kind::Int)])),
        ),
        ("boss", opt(Kind::Object(map_of(vec![("name", opt(Kind::String))])))),
    ]);
    assert!(schema.table("user").unwrap().fields.same(&expected));
    assert_eq!(
        schema.define_field("user", &[Part::Other], Kind::Int),
        Err(InferError::UnsupportedExpression)
    );
}

#[test]
fn rows_have_their_id_and_content_may_leave_it_out() {
    let schema = SchemaModel::build(&[
        Definition::Table { name: "works_at".to_string() },
        Definition::Field {
            table: "works_at".to_string(),
            path: steps(&["position"]),
            kind: Kind::String,
        },
        Definition::Relation {
            table: "works_at".to_string(),
            in_tables: vec!["user".to_string()],
            out_tables: vec!["company".to_string(), "club".to_string()],
        },
    ])
    .unwrap();
    let read = schema.table_select_fields("works_at").unwrap();
    assert!(read.same(&map_of(vec![
        ("position", Kind::String),
        ("id", link("works_at")),
        ("in", link("user")),
        ("out", Kind::Record(vec!["company".to_string(), "club".to_string()])),
    ])));
    let made = schema.create_required_fields("works_at").unwrap();
    assert!(made.same(&Kind::Object(map_of(vec![
        ("position", Kind::String),
        ("id", opt(link("works_at"))),
    ]))));
    let table = schema.table("works_at").unwrap();
    assert!(table.is_relation);
    assert_eq!(table.in_tables, vec!["user".to_string()]);
}

#[test]
fn building_ends_at_the_first_definition_that_fails() {
    let found = SchemaModel::build(&[
        Definition::Table { name: "user".to_string() },
        Definition::Field { table: "team".to_string(), path: steps(&["name"]), kind: Kind::String },
        Definition::Field { table: "user".to_string(), path: vec![Part::Other], kind: Kind::Int },
    ]);
    assert_eq!(found.err(), Some(InferError::UnknownTable));
    assert!(SchemaModel::build(&[]).unwrap().tables.is_empty());
}

#[test]
fn required_kinds_are_united() {
    let schema = SchemaModel::new();
    let mut state = QueryState::new(&schema, TableFields::new());
    state.infer("data", Kind::Int);
    assert!(state.required_variables.same(&map_of(vec![("data", Kind::Int)])));
    state.infer("data", Kind::Int);
    assert!(state.required_variables.same(&map_of(vec![("data", Kind::Int)])));
    state.infer("data", Kind::String);
    state.infer("other", Kind::Bool);
    assert!(state.required_variables.same(&map_of(vec![
        ("data", Kind::Either(vec![Kind::Int, Kind::String])),
        ("other", Kind::Bool),
    ])));
    assert!(state.get("data").is_none());
}

#[test]
fn binding_without_a_frame_opens_one() {
    let schema = SchemaModel::new();
    let mut state = QueryState::new(&schema, TableFields::new());
    state.pop_stack_frame();
    state.pop_stack_frame();
    assert_eq!(state.scope.len(), 0);
    assert!(state.get("x").is_none());
    state.set_local("x", Kind::Int);
    assert_eq!(state.scope.len(), 1);
    assert!(state.get("x").unwrap().same(&Kind::Int));
}

#[test]
fn paths_go_through_options_lists_and_records() {
    let schema = SchemaModel::build(&[
        Definition::Table { name: "abc".to_string() },
        Definition::Field { table: "abc".to_string(), path: steps(&["baz"]), kind: opt(Kind::String) },
    ])
    .unwrap();
    let row = Kind::Object(map_of(vec![
        ("name", Kind::String),
        ("xyz", opt(link("abc"))),
        ("tags", Kind::Array(Box::new(Kind::Object(map_of(vec![("label", Kind::String)]))))),
        ("lost", link("gone")),
        ("none", Kind::Record(vec![])),
    ]));
    let walk = |names: &[&str]| walk_path(&schema, &row, &steps(names));
    assert!(walk(&[]).unwrap().same(&row));
    assert!(walk(&["name"]).unwrap().same(&Kind::String));
    assert!(walk(&["xyz"]).unwrap().same(&opt(link("abc"))));
    assert!(walk(&["xyz", "id"]).unwrap().same(&opt(link("abc"))));
    assert!(walk(&["xyz", "baz"]).unwrap().same(&opt(opt(Kind::String))));
    assert!(walk(&["tags", "label"]).unwrap().same(&Kind::Array(Box::new(Kind::String))));
    assert_eq!(walk(&["age"]).err(), Some(InferError::UnknownField));
    assert_eq!(walk(&["xyz", "age"]).err(), Some(InferError::UnknownField));
    assert_eq!(walk(&["name", "first"]).err(), Some(InferError::TypeMismatch));
    assert_eq!(walk(&["lost", "name"]).err(), Some(InferError::UnknownTable));
    assert_eq!(walk(&["none", "name"]).err(), Some(InferError::TypeMismatch));
    let wild = vec![Part::Field("tags".to_string()), Part::Wildcard];
    assert!(walk_path(&schema, &row, &wild).unwrap().same(
        &Kind::Array(Box::new(Kind::Object(map_of(vec![("label", Kind::String)]))))
    ));
    assert_eq!(
        walk_path(&schema, &row, &[Part::Other]).err(),
        Some(InferError::UnsupportedExpression)
    );
    let edge = vec![Part::Field("name".to_string()), Part::GraphStep("abc".to_string())];
    assert!(walk_path(&schema, &row, &edge).unwrap().same(&Kind::Array(Box::new(link("abc")))));
    let edge = vec![Part::GraphStep("abc".to_string()), Part::Wildcard];
    assert!(walk_path(&schema, &row, &edge).unwrap().same(&Kind::Array(Box::new(Kind::Object(
        map_of(vec![("id", link("abc")), ("baz", opt(Kind::String))])
    )))));
    let edge = vec![Part::GraphStep("gone".to_string())];
    assert_eq!(walk_path(&schema, &row, &edge).err(), Some(InferError::UnknownTable));
    let edge = vec![Part::GraphStep("abc".to_string()), Part::Field("baz".to_string())];
    assert_eq!(walk_path(&schema, &row, &edge).err(), Some(InferError::UnsupportedExpression));
}

#[test]
fn errors_say_what_went_wrong() {
    let all = [
        InferError::UnknownTable,
        InferError::UnknownField,
        InferError::UnknownParameter,
        InferError::EmptyTargetSet,
        InferError::TypeMismatch,
        InferError::UnsupportedExpression,
    ];
    for (i, a) in all.iter().enumerate() {
        assert!(!a.message().is_empty());
        for (j, b) in all.iter().enumerate() {
            assert_eq!(a.message() == b.message(), i == j);
        }
    }
}
