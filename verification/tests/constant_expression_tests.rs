use surreal_type_generator::kind::{Entry, Kind, TableFields};
use surreal_type_generator::query::{interpret_query, QueryResult};
use surreal_type_generator::syntax::{
    Definition, Field, Fields, SelectStatement, Statement, ValueExpr,
};

fn literal(kind: Kind, text: &str) -> Field {
    Field::Single(ValueExpr::Constant(kind, text.to_string()), None)
}

#[test]
fn constant_string() {
    let schema = r#"
DEFINE TABLE foo SCHEMAFULL;
"#;
    let definitions = vec![Definition::Table { name: "foo".to_string() }];
    let statements = vec![Statement::Select(SelectStatement {
        fields: Fields {
            items: vec![
                literal(Kind::String, "foo"),
                literal(Kind::Number, "123"),
                literal(Kind::Bool, "true"),
                literal(Kind::Bool, "false"),
                literal(Kind::Null, "NONE"),
                literal(Kind::Null, "NULL"),
            ],
        },
        what: vec![ValueExpr::Table("foo".to_string())],
        only: true,
    })];

    let QueryResult { return_types, .. } =
        interpret_query(&definitions, statements, TableFields::new()).unwrap();

    let mut entries = Vec::new();
    for (name, kind) in [
        ("foo".to_string(), Kind::String),
        ("123".to_string(), Kind::Number),
        ("true".to_string(), Kind::Bool),
        ("false".to_string(), Kind::Bool),
        ("NONE".to_string(), Kind::Null),
        ("NULL".to_string(), Kind::Null),
    ] {
        entries.push(Entry { name, kind });
    }
    let expected = Kind::Object(TableFields { entries });

    assert_eq!(return_types.len(), 1);
    assert!(return_types[0].same(&expected), "{schema}: {return_types:?}");
}

#[test]
fn constant_statement_has_the_kind_of_the_literal() {
    let statements = vec![
        Statement::Value(ValueExpr::Constant(Kind::Duration, "1h".to_string())),
        Statement::Value(ValueExpr::RecordId("foo".to_string(), "one".to_string())),
    ];
    let found = interpret_query(&[], statements, TableFields::new()).unwrap();
    assert!(found.return_types[0].same(&Kind::Duration));
    assert!(found.return_types[1].same(&Kind::Record(vec!["foo".to_string()])));
}
