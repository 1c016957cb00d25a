use surreal_type_generator::error::InferError;
use surreal_type_generator::kind::{Entry, Kind, TableFields};
use surreal_type_generator::query::{interpret_query, QueryResult};
use surreal_type_generator::syntax::{
    Definition, Field, Fields, MutateStatement, Output, Part, SelectStatement, Statement,
    ValueExpr,
};

fn object_of(fields: Vec<(&str, Kind)>) -> Kind {
    let mut entries = Vec::new();
    for (name, kind) in fields {
        entries.push(Entry { name: name.to_string(), kind });
    }
    Kind::Object(TableFields { entries })
}

fn list_of(kind: Kind) -> Kind {
    Kind::Array(Box::new(kind))
}

fn param(name: &str) -> ValueExpr {
    ValueExpr::Param(name.to_string())
}

fn from_param(name: &str, fields: &[&str]) -> ValueExpr {
    let mut parts = vec![Part::Start(Box::new(param(name)))];
    for field in fields {
        parts.push(Part::Field(field.to_string()));
    }
    ValueExpr::FieldPath(parts)
}

fn column(name: &str) -> Field {
    Field::Single(ValueExpr::FieldPath(vec![Part::Field(name.to_string())]), None)
}

fn aliased(expr: ValueExpr, alias: &str) -> Field {
    Field::Single(expr, Some(vec![Part::Field(alias.to_string())]))
}

fn delete_user(items: Vec<Field>) -> Vec<Statement> {
    vec![Statement::Delete(MutateStatement {
        what: vec![ValueExpr::Table("user".to_string())],
        data: None,
        output: Some(Output::Fields(Fields { items })),
        only: false,
    })]
}

fn select_user(items: Vec<Field>) -> Vec<Statement> {
    vec![Statement::Select(SelectStatement {
        fields: Fields { items },
        what: vec![ValueExpr::Table("user".to_string())],
        only: false,
    })]
}

fn user_schema() -> Vec<Definition> {
    vec![
        Definition::Table { name: "user".to_string() },
        Definition::Field {
            table: "user".to_string(),
            path: vec![Part::Field("name".to_string())],
            kind: Kind::String,
        },
    ]
}

#[test]
fn query_with_variable() {
    let query = r#"
DELETE user RETURN $before;
"#;
    let schema = r#"
DEFINE TABLE user SCHEMAFULL;
DEFINE FIELD name ON user TYPE string;
"#;

    let QueryResult { return_types, variables, .. } = interpret_query(
        &user_schema(),
        delete_user(vec![Field::Single(param("before"), None)]),
        TableFields::new(),
    )
    .unwrap();

    // $before should not be a required variable
    assert!(variables.same(&TableFields::new()), "{query}{schema}");

    let expected = list_of(object_of(vec![(
        "before",
        object_of(vec![
            ("id", Kind::Record(vec!["user".into()])),
            ("name", Kind::String),
        ]),
    )]));
    assert_eq!(return_types.len(), 1);
    assert!(return_types[0].same(&expected), "{query}{schema}: {return_types:?}");
}

#[test]
fn query_with_variable_with_multiple_returns() {
    let query = r#"
DELETE user RETURN $before.name AS alias, $before.xyz.baz AS baz
"#;
    let mut schema = user_schema();
    schema.push(Definition::Field {
        table: "user".to_string(),
        path: vec![Part::Field("xyz".to_string())],
        kind: Kind::Record(vec!["abc".to_string()]),
    });
    schema.push(Definition::Table { name: "abc".to_string() });
    schema.push(Definition::Field {
        table: "abc".to_string(),
        path: vec![Part::Field("baz".to_string())],
        kind: Kind::String,
    });

    let QueryResult { return_types, variables, .. } = interpret_query(
        &schema,
        delete_user(vec![
            aliased(from_param("before", &["name"]), "alias"),
            aliased(from_param("before", &["xyz", "baz"]), "baz"),
        ]),
        TableFields::new(),
    )
    .unwrap();

    // $before should not be a required variable
    assert!(variables.same(&TableFields::new()), "{query}");

    let expected = list_of(object_of(vec![("alias", Kind::String), ("baz", Kind::String)]));
    assert_eq!(return_types.len(), 1);
    assert!(return_types[0].same(&expected), "{query}: {return_types:?}");
}

#[test]
fn query_with_variable_with_multiple_returns_with_alias() {
    let query = r#"
DELETE user RETURN $after
"#;
    let schema = r#"
DEFINE TABLE user SCHEMAFULL;
DEFINE FIELD name ON user TYPE string;
"#;

    let QueryResult { return_types, variables, .. } = interpret_query(
        &user_schema(),
        delete_user(vec![Field::Single(param("after"), None)]),
        TableFields::new(),
    )
    .unwrap();

    // $after should not be a required variable
    assert!(variables.same(&TableFields::new()), "{query}{schema}");

    let expected = list_of(object_of(vec![("after", Kind::Null)]));
    assert_eq!(return_types.len(), 1);
    assert!(return_types[0].same(&expected), "{query}{schema}: {return_types:?}");
}

#[test]
fn query_with_this_field() {
    let query = r#"
SELECT
    name,
    $this.name AS alias
FROM user;
"#;
    let schema = r#"
DEFINE TABLE user SCHEMAFULL;
DEFINE FIELD name ON user TYPE string;
"#;

    let QueryResult { return_types, variables, .. } = interpret_query(
        &user_schema(),
        select_user(vec![column("name"), aliased(from_param("this", &["name"]), "alias")]),
        TableFields::new(),
    )
    .unwrap();

    // $this should not be a required variable
    assert!(variables.same(&TableFields::new()), "{query}{schema}");

    let expected = list_of(object_of(vec![("name", Kind::String), ("alias", Kind::String)]));
    assert_eq!(return_types.len(), 1);
    assert!(return_types[0].same(&expected), "{query}{schema}: {return_types:?}");
}

#[test]
fn query_with_nested_query_parent_parameter() {
    let query = r#"
SELECT
    name,
    ($parent.name) AS alias
FROM user;
"#;
    let schema = r#"
DEFINE TABLE user SCHEMAFULL;
DEFINE FIELD name ON user TYPE string;
"#;

    let nested = ValueExpr::Subquery(Box::new(Statement::Value(from_param("parent", &["name"]))));
    let QueryResult { return_types, variables, .. } = interpret_query(
        &user_schema(),
        select_user(vec![column("name"), aliased(nested, "alias")]),
        TableFields::new(),
    )
    .unwrap();

    // $parent should not be a required variable
    assert!(variables.same(&TableFields::new()), "{query}{schema}");

    let expected = list_of(object_of(vec![("name", Kind::String), ("alias", Kind::String)]));
    assert_eq!(return_types.len(), 1);
    assert!(return_types[0].same(&expected), "{query}{schema}: {return_types:?}");
}

#[test]
fn parent_is_not_bound_outside_a_subquery() {
    let found = interpret_query(
        &user_schema(),
        select_user(vec![aliased(from_param("parent", &["name"]), "alias")]),
        TableFields::new(),
    );
    assert_eq!(found.err(), Some(InferError::UnknownParameter));
}

#[test]
fn bindings_of_a_statement_end_with_it() {
    let mut statements = select_user(vec![column("name")]);
    statements.push(Statement::Value(param("this")));
    let found = interpret_query(&user_schema(), statements, TableFields::new());
    assert_eq!(found.err(), Some(InferError::UnknownParameter));
}

#[test]
fn unbound_parameter_fails() {
    let found = interpret_query(
        &user_schema(),
        select_user(vec![aliased(param("limit"), "limit")]),
        TableFields::new(),
    );
    assert_eq!(found.err(), Some(InferError::UnknownParameter));
}

#[test]
fn global_parameter_is_typed_and_not_required() {
    let globals = TableFields {
        entries: vec![Entry { name: "auth".to_string(), kind: Kind::Record(vec!["user".into()]) }],
    };
    let found = interpret_query(
        &user_schema(),
        select_user(vec![
            Field::Single(param("auth"), None),
            aliased(from_param("auth", &["name"]), "who"),
        ]),
        globals,
    )
    .unwrap();
    let expected = list_of(object_of(vec![
        ("auth", Kind::Record(vec!["user".into()])),
        ("who", Kind::String),
    ]));
    assert!(found.return_types[0].same(&expected), "{:?}", found.return_types);
    assert!(found.variables.same(&TableFields::new()));
}

#[test]
fn delete_without_output_returns_nothing() {
    let statements = vec![Statement::Delete(MutateStatement {
        what: vec![ValueExpr::Table("user".to_string())],
        data: None,
        output: None,
        only: false,
    })];
    let found = interpret_query(&user_schema(), statements, TableFields::new()).unwrap();
    assert!(found.return_types[0].same(&list_of(Kind::Null)));
}

#[test]
fn create_returns_the_row_and_nothing_before() {
    let user = || {
        object_of(vec![("id", Kind::Record(vec!["user".into()])), ("name", Kind::String)])
    };
    let create = |output: Option<Output>, only: bool| {
        vec![Statement::Create(MutateStatement {
            what: vec![ValueExpr::Table("user".to_string())],
            data: None,
            output,
            only,
        })]
    };
    let run = |statements: Vec<Statement>| {
        interpret_query(&user_schema(), statements, TableFields::new())
    };
    assert!(run(create(None, false)).unwrap().return_types[0].same(&list_of(user())));
    assert!(run(create(None, true)).unwrap().return_types[0].same(&user()));
    assert!(run(create(Some(Output::After), false)).unwrap().return_types[0]
        .same(&list_of(user())));
    assert!(run(create(Some(Output::Before), false)).unwrap().return_types[0]
        .same(&list_of(Kind::Null)));
    assert!(run(create(Some(Output::Nothing), false)).unwrap().return_types[0]
        .same(&list_of(Kind::Null)));
    assert_eq!(run(create(Some(Output::Diff), false)).err(), Some(InferError::UnsupportedExpression));
}

#[test]
fn update_knows_the_row_before_and_after() {
    let user = || {
        object_of(vec![("id", Kind::Record(vec!["user".into()])), ("name", Kind::String)])
    };
    let statements = vec![Statement::Update(MutateStatement {
        what: vec![ValueExpr::RecordId("user".to_string(), "john".to_string())],
        data: None,
        output: Some(Output::Fields(Fields {
            items: vec![
                Field::Single(param("before"), None),
                aliased(from_param("after", &["name"]), "now"),
            ],
        })),
        only: true,
    })];
    let found = interpret_query(&user_schema(), statements, TableFields::new()).unwrap();
    let expected = object_of(vec![("before", user()), ("now", Kind::String)]);
    assert!(found.return_types[0].same(&expected), "{:?}", found.return_types);
}

#[test]
fn insert_returns_the_rows() {
    let statements = vec![Statement::Insert(MutateStatement {
        what: vec![ValueExpr::Table("user".to_string())],
        data: None,
        output: None,
        only: false,
    })];
    let found = interpret_query(&user_schema(), statements, TableFields::new()).unwrap();
    let user = object_of(vec![("id", Kind::Record(vec!["user".into()])), ("name", Kind::String)]);
    assert!(found.return_types[0].same(&list_of(user)));
}

#[test]
fn statement_without_target_fails() {
    let statements = vec![Statement::Select(SelectStatement {
        fields: Fields { items: vec![Field::All] },
        what: vec![],
        only: false,
    })];
    let found = interpret_query(&user_schema(), statements, TableFields::new());
    assert_eq!(found.err(), Some(InferError::EmptyTargetSet));
}

#[test]
fn other_statement_is_unsupported_and_ends_the_run() {
    let mut statements = select_user(vec![column("name")]);
    statements.push(Statement::Other);
    let found = interpret_query(&user_schema(), statements, TableFields::new());
    assert_eq!(found.err(), Some(InferError::UnsupportedExpression));
}

#[test]
fn one_kind_for_each_statement_in_order() {
    let mut statements = select_user(vec![column("name")]);
    statements.push(Statement::Value(ValueExpr::Constant(Kind::Bool, "true".to_string())));
    statements.append(&mut select_user(vec![Field::All]));
    let found = interpret_query(&user_schema(), statements, TableFields::new()).unwrap();
    assert_eq!(found.statements.len(), 3);
    assert_eq!(found.return_types.len(), 3);
    assert!(found.return_types[0].same(&list_of(object_of(vec![("name", Kind::String)]))));
    assert!(found.return_types[1].same(&Kind::Bool));
    assert!(found.return_types[2].same(&list_of(object_of(vec![
        ("name", Kind::String),
        ("id", Kind::Record(vec!["user".into()])),
    ]))));
}
