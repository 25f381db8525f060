use cypher_to_sql::convert::{
    cypher_create_to_sql, cypher_to_sql, extract_first_label, extract_first_variable,
    extract_properties, parse_simple_value, plan_create, plan_match,
};
use cypher_to_sql::error::{Expected, LexFault, TokenKind, TranslateError};
use cypher_to_sql::pattern::parse_pattern;
use cypher_to_sql::translate::{translate_create, translate_match, Projection};
use cypher_to_sql::value::Value;
use sqlparser::ast::{Expr, Ident, SelectItem};

#[test]
fn test_extract_first_label() {
    assert_eq!(extract_first_label("(n:Person)").unwrap(), "Person");
    assert_eq!(extract_first_label("(a:Company)").unwrap(), "Company");
    assert_eq!(extract_first_label("( n : Person )").unwrap(), "Person");
}

#[test]
fn test_extract_first_variable() {
    assert_eq!(extract_first_variable("(n:Person)"), Some("n".to_string()));
    assert_eq!(extract_first_variable("(abc:Person)"), Some("abc".to_string()));
    assert_eq!(extract_first_variable("(:Person)"), None);
}

#[test]
fn test_cypher_to_sql_simple() {
    let pattern = "(n:Person)";
    let where_clause = None;
    let return_items = vec![SelectItem::UnnamedExpr(Expr::CompoundIdentifier(vec![
        Ident::new("n"),
        Ident::new("name"),
    ]))];

    let result = cypher_to_sql(pattern, &where_clause, &return_items);
    assert!(result.is_ok());

    let sql_stmt = result.unwrap();
    let sql_str = sql_stmt.to_string();

    println!("Generated SQL: {}", sql_str);
    assert!(sql_str.contains("SELECT"));
    assert!(sql_str.contains("FROM"));
    assert!(sql_str.contains("Person"));
}

#[test]
fn test_cypher_return_whole_node() {
    let pattern = "(n:Person)";
    let where_clause = None;
    let return_items = vec![SelectItem::UnnamedExpr(Expr::Identifier(Ident::new("n")))];

    let result = cypher_to_sql(pattern, &where_clause, &return_items);
    assert!(result.is_ok());

    let sql_stmt = result.unwrap();
    let sql_str = sql_stmt.to_string();

    println!("Generated SQL for RETURN n: {}", sql_str);
    assert!(sql_str.contains("SELECT *") || sql_str.contains("SELECT*"));
    assert!(sql_str.contains("FROM Person"));
}

#[test]
fn test_cypher_create_to_sql() {
    let pattern = "(n:Person {name: 'Alice', age: 30})";

    let result = cypher_create_to_sql(pattern);
    assert!(result.is_ok());

    let sql_stmt = result.unwrap();
    let sql_str = sql_stmt.to_string();

    println!("Generated INSERT SQL: {}", sql_str);
    assert!(sql_str.contains("INSERT"));
    assert!(sql_str.contains("Person"));
    assert!(sql_str.contains("name"));
    assert!(sql_str.contains("Alice"));
}

fn bare(name: &str) -> SelectItem {
    SelectItem::UnnamedExpr(Expr::Identifier(Ident::new(name)))
}

fn property(var: &str, key: &str) -> SelectItem {
    SelectItem::UnnamedExpr(Expr::CompoundIdentifier(vec![Ident::new(var), Ident::new(key)]))
}

#[test]
fn return_whole_node_prints_wildcard_with_alias() {
    let sql = cypher_to_sql("(n:Person)", &None, &[bare("n")]).unwrap();
    assert_eq!(sql.to_string(), "SELECT * FROM Person AS n");
}

#[test]
fn return_property_prints_it_unchanged() {
    let sql = cypher_to_sql("(n:Person)", &None, &[property("n", "name")]).unwrap();
    assert_eq!(sql.to_string(), "SELECT n.name FROM Person AS n");
}

#[test]
fn create_prints_insert_with_columns_and_row() {
    let sql = cypher_create_to_sql("(n:Person {name: 'Alice', age: 30})").unwrap();
    assert_eq!(sql.to_string(), "INSERT INTO Person (name, age) VALUES ('Alice', 30)");
}

#[test]
fn create_without_variable_or_properties_fails() {
    assert_eq!(cypher_create_to_sql("(:Person)").unwrap_err(), TranslateError::NoProperties);
    assert_eq!(cypher_create_to_sql("(:Person {})").unwrap_err(), TranslateError::NoProperties);
    assert_eq!(cypher_create_to_sql("(n:Person { })").unwrap_err(), TranslateError::NoProperties);
}

#[test]
fn property_without_value_is_a_parse_error() {
    let e = cypher_create_to_sql("(n:Person {name})").unwrap_err();
    assert_eq!(
        e,
        TranslateError::Parse { position: 15, expected: Expected::Colon, found: Some(TokenKind::Punct('}')) }
    );
    let e = cypher_create_to_sql("(n:Person {name: 'A', age})").unwrap_err();
    assert!(matches!(e, TranslateError::Parse { expected: Expected::Colon, .. }));
}

#[test]
fn pattern_without_label_fails_for_match_and_create() {
    assert_eq!(cypher_to_sql("(n)", &None, &[bare("n")]).unwrap_err(), TranslateError::MissingLabel);
    assert_eq!(cypher_create_to_sql("(n {a: 1})").unwrap_err(), TranslateError::MissingLabel);
    assert_eq!(extract_first_label("()").unwrap_err(), TranslateError::MissingLabel);
}

#[test]
fn whole_node_is_wildcard_whatever_the_variable() {
    let sql = cypher_to_sql("(thing:Widget)", &None, &[bare("thing")]).unwrap();
    assert_eq!(sql.to_string(), "SELECT * FROM Widget AS thing");
    let sql = cypher_to_sql("(x_1:Widget)", &None, &[bare("x_1")]).unwrap();
    assert_eq!(sql.to_string(), "SELECT * FROM Widget AS x_1");
}

#[test]
fn other_bare_names_pass_through() {
    let sql = cypher_to_sql("(n:Person)", &None, &[bare("m"), bare("n")]).unwrap();
    assert_eq!(sql.to_string(), "SELECT m, * FROM Person AS n");
}

#[test]
fn match_without_variable_has_no_alias() {
    let sql = cypher_to_sql("(:Person)", &None, &[property("n", "name")]).unwrap();
    assert_eq!(sql.to_string(), "SELECT n.name FROM Person");
}

#[test]
fn filter_passes_through_to_where() {
    let filter = Some(Expr::Identifier(Ident::new("active")));
    let sql = cypher_to_sql("(n:Person)", &filter, &[bare("n")]).unwrap();
    assert_eq!(sql.to_string(), "SELECT * FROM Person AS n WHERE active");
}

#[test]
fn lex_errors_name_the_position() {
    assert_eq!(
        cypher_create_to_sql("(n:Person {name: 'Al})").unwrap_err(),
        TranslateError::Lex { position: 17, reason: LexFault::UnterminatedString }
    );
    assert_eq!(
        extract_first_label("(n:Per#son)").unwrap_err(),
        TranslateError::Lex { position: 6, reason: LexFault::InvalidCharacter }
    );
}

#[test]
fn edges_and_more_nodes_are_unsupported() {
    assert_eq!(
        cypher_to_sql("(a:A)-[r]->(b:B)", &None, &[bare("a")]).unwrap_err(),
        TranslateError::UnsupportedConstruct
    );
    assert_eq!(cypher_create_to_sql("(a:A {x: 1}) (b:B)").unwrap_err(), TranslateError::UnsupportedConstruct);
}

#[test]
fn grammar_errors() {
    assert!(matches!(
        extract_first_label("n:Person").unwrap_err(),
        TranslateError::Parse { position: 0, expected: Expected::OpenParen, .. }
    ));
    assert!(matches!(
        extract_first_label("(n:)").unwrap_err(),
        TranslateError::Parse { position: 3, expected: Expected::Label, .. }
    ));
    assert!(matches!(
        extract_first_label("(n:Person").unwrap_err(),
        TranslateError::Parse { position: 9, expected: Expected::CloseParen, found: None }
    ));
    assert!(matches!(
        cypher_create_to_sql("(n:P {a: 1 b: 2})").unwrap_err(),
        TranslateError::Parse { expected: Expected::CommaOrCloseBrace, .. }
    ));
    assert!(matches!(
        cypher_create_to_sql("(n:P {a: 1,})").unwrap_err(),
        TranslateError::Parse { expected: Expected::PropertyKey, .. }
    ));
    assert!(matches!(
        cypher_create_to_sql("(n:P {a: :})").unwrap_err(),
        TranslateError::Parse { expected: Expected::PropertyValue, .. }
    ));
}

#[test]
fn values_are_coerced_in_order() {
    let (columns, values) =
        extract_properties("(n:T {s: \"x y\", i: -7, f: 2.5, b: TRUE, z: null, r: other})").unwrap();
    assert_eq!(columns, vec!["s", "i", "f", "b", "z", "r"]);
    assert_eq!(
        values,
        vec![
            Value::Str("x y".to_string()),
            Value::Integer(-7),
            Value::Float("2.5".to_string()),
            Value::Boolean(true),
            Value::Identifier("null".to_string()),
            Value::Identifier("other".to_string()),
        ]
    );
}

#[test]
fn properties_need_a_map() {
    assert_eq!(extract_properties("(n:Person)").unwrap_err(), TranslateError::NoProperties);
    let (columns, values) = extract_properties("(n:Person {})").unwrap();
    assert!(columns.is_empty() && values.is_empty());
}

#[test]
fn insert_prints_every_kind_of_value() {
    let sql = cypher_create_to_sql("(n:T {a: 1.5, b: false, c: null, d: x, e: -3, f: 007})").unwrap();
    assert_eq!(sql.to_string(), "INSERT INTO T (a, b, c, d, e, f) VALUES (1.5, false, null, x, -3, 7)");
    let sql = cypher_create_to_sql("(n:T {a: +12})").unwrap();
    assert_eq!(sql.to_string(), "INSERT INTO T (a) VALUES (12)");
}

#[test]
fn simple_values() {
    assert_eq!(parse_simple_value("30"), Value::Integer(30));
    assert_eq!(parse_simple_value("+5"), Value::Integer(5));
    assert_eq!(parse_simple_value("+2.5"), Value::Float("+2.5".to_string()));
    assert_eq!(parse_simple_value("+"), Value::Identifier("+".to_string()));
    assert_eq!(parse_simple_value(" 30 "), Value::Integer(30));
    assert_eq!(parse_simple_value("-9223372036854775808"), Value::Integer(i64::MIN));
    assert_eq!(parse_simple_value("9223372036854775807"), Value::Integer(i64::MAX));
    assert_eq!(parse_simple_value("9223372036854775808"), Value::Float("9223372036854775808".to_string()));
    assert_eq!(parse_simple_value("3.14"), Value::Float("3.14".to_string()));
    assert_eq!(parse_simple_value("1.2.3"), Value::Identifier("1.2.3".to_string()));
    assert_eq!(parse_simple_value("True"), Value::Boolean(true));
    assert_eq!(parse_simple_value("fAlSe"), Value::Boolean(false));
    assert_eq!(parse_simple_value("NULL"), Value::Identifier("NULL".to_string()));
    assert_eq!(parse_simple_value("'it'"), Value::Str("it".to_string()));
    assert_eq!(parse_simple_value("\"\""), Value::Str(String::new()));
    assert_eq!(parse_simple_value("name"), Value::Identifier("name".to_string()));
    assert_eq!(parse_simple_value("a b"), Value::Identifier("a b".to_string()));
    assert_eq!(parse_simple_value(" a b\t"), Value::Identifier("a b".to_string()));
    assert_eq!(parse_simple_value("  'open "), Value::Identifier("'open".to_string()));
    assert_eq!(parse_simple_value("   "), Value::Identifier(String::new()));
}

#[test]
fn literal_text_round_trips() {
    for v in [
        Value::Str("Alice".to_string()),
        Value::Integer(30),
        Value::Integer(-12),
        Value::Float("0.5".to_string()),
        Value::Boolean(true),
        Value::Boolean(false),
        Value::Identifier("other".to_string()),
    ] {
        let text = match &v {
            Value::Str(s) => format!("'{}'", s),
            Value::Integer(n) => n.to_string(),
            Value::Float(s) | Value::Identifier(s) => s.clone(),
            Value::Boolean(b) => b.to_string(),
        };
        assert_eq!(parse_simple_value(&text), v);
    }
}

#[test]
fn create_plan_keeps_label_keys_and_values() {
    let plan = plan_create("(v:Car {make: 'VW', year: 1999, used: true})").unwrap();
    assert_eq!(plan.table, "Car");
    assert_eq!(plan.columns, vec!["make", "year", "used"]);
    assert_eq!(
        plan.values,
        vec![Value::Str("VW".to_string()), Value::Integer(1999), Value::Boolean(true)]
    );
    let p = parse_pattern("(v:Car {make: 'VW'})").unwrap();
    assert_eq!(translate_create(&p).unwrap().columns, vec!["make"]);
}

#[test]
fn match_plan_projects_by_bare_name() {
    let names = vec![Some("v".to_string()), None, Some("w".to_string())];
    let plan = plan_match("(v:Car)", &names).unwrap();
    assert_eq!(plan.table, "Car");
    assert_eq!(plan.alias, Some("v".to_string()));
    assert_eq!(plan.projection, vec![Projection::Wildcard, Projection::Keep(1), Projection::Keep(2)]);
    let p = parse_pattern("(:Car)").unwrap();
    let plan = translate_match(&p, &vec![Some("v".to_string())]).unwrap();
    assert_eq!(plan.projection, vec![Projection::Keep(0)]);
}
