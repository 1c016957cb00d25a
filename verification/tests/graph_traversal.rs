use surreal_type_generator::kind::{Entry, Kind, TableFields};
use surreal_type_generator::query::{interpret_query, QueryResult};
use surreal_type_generator::syntax::{
    Definition, Field, Fields, Part, SelectStatement, Statement, ValueExpr,
};

fn obj(fields: Vec<(&str, Kind)>) -> Kind {
    let mut entries = Vec::new();
    for (name, kind) in fields {
        entries.push(Entry { name: name.to_string(), kind });
    }
    Kind::Object(TableFields { entries })
}

fn rec(table: &str) -> Kind {
    Kind::Record(vec![table.to_string()])
}

fn list(kind: Kind) -> Kind {
    Kind::Array(Box::new(kind))
}

fn define_table(name: &str) -> Definition {
    Definition::Table { name: name.to_string() }
}

fn define_field(table: &str, name: &str, kind: Kind) -> Definition {
    Definition::Field {
        table: table.to_string(),
        path: vec![Part::Field(name.to_string())],
        kind,
    }
}

fn define_relation(table: &str, from: &str, to: &str) -> Definition {
    Definition::Relation {
        table: table.to_string(),
        in_tables: vec![from.to_string()],
        out_tables: vec![to.to_string()],
    }
}

fn step(table: &str) -> Part {
    Part::GraphStep(table.to_string())
}

fn named(name: &str) -> Option<Vec<Part>> {
    Some(vec![Part::Field(name.to_string())])
}

fn org_schema() -> Vec<Definition> {
    vec![
        define_table("user"),
        define_field("user", "name", Kind::String),
        define_field("user", "email", Kind::String),
        define_table("memberOf"),
        define_relation("memberOf", "user", "org"),
        define_table("org"),
        define_field("org", "name", Kind::String),
        define_field("org", "revenue", Kind::Float),
    ]
}

#[test]
fn graph_traversal() {
    let query = r#"
        SELECT ->memberOf->org.* as orgs FROM user;
    "#;
    let statements = vec![Statement::Select(SelectStatement {
        fields: Fields {
            items: vec![Field::Single(
                ValueExpr::FieldPath(vec![step("memberOf"), step("org"), Part::Wildcard]),
                named("orgs"),
            )],
        },
        what: vec![ValueExpr::Table("user".to_string())],
        only: false,
    })];

    let QueryResult { statements, return_types, .. } =
        interpret_query(&org_schema(), statements, TableFields::new()).unwrap();

    let org_fields =
        obj(vec![("id", rec("org")), ("name", Kind::String), ("revenue", Kind::Float)]);

    let orgs_array = list(org_fields);

    let outer_obj = obj(vec![("orgs", orgs_array)]);

    let expected = vec![list(outer_obj)];

    assert_eq!(statements.len(), 1);
    assert_eq!(return_types.len(), expected.len());
    assert!(return_types[0].same(&expected[0]), "{query}: {return_types:?}");
}

#[test]
fn graph_traversal_with_auth_and_subquery() {
    let statements = vec![Statement::Select(SelectStatement {
        fields: Fields {
            items: vec![
                Field::All,
                Field::Single(
                    ValueExpr::Subquery(Box::new(Statement::Select(SelectStatement {
                        fields: Fields { items: vec![Field::All] },
                        what: vec![ValueExpr::Table("bucket".to_string())],
                        only: false,
                    }))),
                    named("buckets"),
                ),
            ],
        },
        what: vec![ValueExpr::FieldPath(vec![
            Part::Start(Box::new(ValueExpr::Param("auth".to_string()))),
            step("memberOf"),
            step("workspace"),
        ])],
        only: false,
    })];

    let schema = vec![
        define_table("user"),
        define_field("user", "name", Kind::String),
        define_field("user", "email", Kind::String),
        define_table("memberOf"),
        define_relation("memberOf", "user", "workspace"),
        define_table("workspace"),
        define_field("workspace", "name", Kind::String),
        define_table("bucket"),
        define_field("bucket", "workspace", rec("workspace")),
        define_field("bucket", "name", Kind::String),
    ];

    let globals = TableFields { entries: vec![Entry { name: "auth".to_string(), kind: rec("user") }] };

    let result = interpret_query(&schema, statements, globals);

    if let Err(ref e) = result {
        println!("\n=== ERROR ===");
        println!("{:#?}", e);
    }

    let QueryResult { statements, return_types, variables } = result.unwrap();

    let bucket_fields = obj(vec![
        ("id", rec("bucket")),
        ("workspace", rec("workspace")),
        ("name", Kind::String),
    ]);

    let workspace_fields = obj(vec![
        ("id", rec("workspace")),
        ("name", Kind::String),
        ("buckets", list(bucket_fields)),
    ]);

    let expected = vec![list(workspace_fields)];

    println!("\n=== PARSED QUERY ===");
    println!("{:#?}", statements);
    println!("\n=== ACTUAL TYPES ===");
    println!("{:#?}", return_types);
    println!("\n=== EXPECTED TYPES ===");
    println!("{:#?}", expected);

    assert_eq!(return_types.len(), expected.len());
    assert!(return_types[0].same(&expected[0]));
    assert!(variables.same(&TableFields::new()));
}

#[test]
fn graph_traversal_without_wildcard_is_a_list_of_references() {
    let statements = vec![Statement::Select(SelectStatement {
        fields: Fields {
            items: vec![Field::Single(
                ValueExpr::FieldPath(vec![step("memberOf"), step("org")]),
                named("orgs"),
            )],
        },
        what: vec![ValueExpr::Table("user".to_string())],
        only: false,
    })];
    let found = interpret_query(&org_schema(), statements, TableFields::new()).unwrap();
    let expected = list(obj(vec![("orgs", list(rec("org")))]));
    assert!(found.return_types[0].same(&expected), "{:?}", found.return_types);
}

#[test]
fn graph_traversal_wildcard_without_alias_goes_under_star() {
    let statements = vec![Statement::Select(SelectStatement {
        fields: Fields {
            items: vec![Field::Single(
                ValueExpr::FieldPath(vec![step("memberOf"), step("org"), Part::Wildcard]),
                None,
            )],
        },
        what: vec![ValueExpr::Table("user".to_string())],
        only: false,
    })];
    let found = interpret_query(&org_schema(), statements, TableFields::new()).unwrap();
    let org = obj(vec![("id", rec("org")), ("name", Kind::String), ("revenue", Kind::Float)]);
    let expected = list(obj(vec![("*", list(org))]));
    assert!(found.return_types[0].same(&expected), "{:?}", found.return_types);
}

#[test]
fn graph_traversal_to_undeclared_table_fails() {
    let statements = vec![Statement::Select(SelectStatement {
        fields: Fields {
            items: vec![Field::Single(
                ValueExpr::FieldPath(vec![step("memberOf"), step("team"), Part::Wildcard]),
                named("teams"),
            )],
        },
        what: vec![ValueExpr::Table("user".to_string())],
        only: false,
    })];
    let found = interpret_query(&org_schema(), statements, TableFields::new());
    assert_eq!(found.err(), Some(surreal_type_generator::error::InferError::UnknownTable));
}

#[test]
fn select_from_relation_shows_its_declared_ends() {
    let statements = vec![Statement::Select(SelectStatement {
        fields: Fields { items: vec![Field::All] },
        what: vec![ValueExpr::Table("memberOf".to_string())],
        only: false,
    })];
    let found = interpret_query(&org_schema(), statements, TableFields::new()).unwrap();
    let expected =
        list(obj(vec![("id", rec("memberOf")), ("in", rec("user")), ("out", rec("org"))]));
    assert!(found.return_types[0].same(&expected), "{:?}", found.return_types);
}

#[test]
fn graph_traversal_from_a_parameter() {
    let statements = vec![Statement::Select(SelectStatement {
        fields: Fields {
            items: vec![
                Field::Single(
                    ValueExpr::FieldPath(vec![
                        Part::Start(Box::new(ValueExpr::Param("auth".to_string()))),
                        step("memberOf"),
                        step("org"),
                        Part::Wildcard,
                    ]),
                    named("orgs"),
                ),
                Field::Single(
                    ValueExpr::FieldPath(vec![
                        Part::Start(Box::new(ValueExpr::Param("auth".to_string()))),
                        step("memberOf"),
                        step("org"),
                    ]),
                    named("ids"),
                ),
            ],
        },
        what: vec![ValueExpr::Table("user".to_string())],
        only: true,
    })];
    let globals = TableFields { entries: vec![Entry { name: "auth".to_string(), kind: rec("user") }] };
    let found = interpret_query(&org_schema(), statements, globals).unwrap();
    let org = obj(vec![("id", rec("org")), ("name", Kind::String), ("revenue", Kind::Float)]);
    let expected = obj(vec![("orgs", list(org)), ("ids", list(rec("org")))]);
    assert!(found.return_types[0].same(&expected), "{:?}", found.return_types);
}
