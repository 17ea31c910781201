use tusker_core::filter::{build_where_clause, render_condition, FilterCondition, FilterOperator};
use tusker_core::json::{JsonNumber, JsonValue};
use tusker_core::sql::{
    escape_like_pattern, escape_sql_string, json_value_to_sql, qualify, quote_identifier,
    quote_literal,
};

fn condition(column: &str, operator: FilterOperator) -> FilterCondition {
    FilterCondition { column: column.to_string(), operator, value: None, value2: None, values: None }
}

fn with_value(column: &str, operator: FilterOperator, value: &str) -> FilterCondition {
    FilterCondition {
        column: column.to_string(),
        operator,
        value: Some(value.to_string()),
        value2: None,
        values: None,
    }
}

#[test]
fn quote_identifier_doubles_inner_quotes() {
    assert_eq!(quote_identifier("users"), "\"users\"");
    assert_eq!(quote_identifier("we\"ird"), "\"we\"\"ird\"");
    assert_eq!(quote_identifier(""), "\"\"");
    assert_eq!(quote_identifier("a\"; DROP TABLE x; --"), "\"a\"\"; DROP TABLE x; --\"");
}

#[test]
fn escape_sql_string_doubles_single_quotes() {
    assert_eq!(escape_sql_string("O'Brien"), "O''Brien");
    assert_eq!(escape_sql_string("plain"), "plain");
    assert_eq!(escape_sql_string("''"), "''''");
    assert_eq!(quote_literal("it's"), "'it''s'");
}

#[test]
fn escape_like_pattern_guards_wildcards() {
    assert_eq!(escape_like_pattern("50%"), "50\\%");
    assert_eq!(escape_like_pattern("a_b"), "a\\_b");
    assert_eq!(escape_like_pattern("c:\\dir"), "c:\\\\dir");
    assert_eq!(escape_like_pattern("\\%_"), "\\\\\\%\\_");
    assert_eq!(escape_like_pattern("plain"), "plain");
}

#[test]
fn qualified_names_quote_both_parts() {
    assert_eq!(qualify("public", "t"), "\"public\".\"t\"");
    assert_eq!(qualify("my\"schema", "my\"table"), "\"my\"\"schema\".\"my\"\"table\"");
}

#[test]
fn json_values_render_as_sql_literals() {
    assert_eq!(json_value_to_sql(&JsonValue::Null), "NULL");
    assert_eq!(json_value_to_sql(&JsonValue::Bool(true)), "TRUE");
    assert_eq!(json_value_to_sql(&JsonValue::Bool(false)), "FALSE");
    assert_eq!(json_value_to_sql(&JsonValue::Number(JsonNumber::Signed(-42))), "-42");
    assert_eq!(
        json_value_to_sql(&JsonValue::Number(JsonNumber::Unsigned(u64::MAX))),
        "18446744073709551615"
    );
    assert_eq!(
        json_value_to_sql(&JsonValue::Number(JsonNumber::Literal("1.5".to_string()))),
        "1.5"
    );
    assert_eq!(json_value_to_sql(&JsonValue::Text("O'Brien".to_string())), "'O''Brien'");
    assert_eq!(
        json_value_to_sql(&JsonValue::Array("[1,\"it's\"]".to_string())),
        "'[1,\"it''s\"]'::jsonb"
    );
    assert_eq!(
        json_value_to_sql(&JsonValue::Object("{\"a\":1}".to_string())),
        "'{\"a\":1}'::jsonb"
    );
}

#[test]
fn comparison_filters_render_their_symbol() {
    let cases = [
        (FilterOperator::Equals, "\"age\" = '30'"),
        (FilterOperator::NotEquals, "\"age\" != '30'"),
        (FilterOperator::GreaterThan, "\"age\" > '30'"),
        (FilterOperator::LessThan, "\"age\" < '30'"),
        (FilterOperator::GreaterThanOrEqual, "\"age\" >= '30'"),
        (FilterOperator::LessThanOrEqual, "\"age\" <= '30'"),
    ];
    for (operator, expected) in cases {
        assert_eq!(render_condition(&with_value("age", operator, "30")).as_deref(), Some(expected));
        assert_eq!(render_condition(&condition("age", operator)), None);
    }
}

#[test]
fn like_filters_escape_the_value() {
    assert_eq!(
        render_condition(&with_value("note", FilterOperator::Contains, "50%")).unwrap(),
        "\"note\"::text ILIKE '%50\\%%' ESCAPE '\\'"
    );
    assert_eq!(
        render_condition(&with_value("note", FilterOperator::NotContains, "a_b")).unwrap(),
        "\"note\"::text NOT ILIKE '%a\\_b%' ESCAPE '\\'"
    );
    assert_eq!(
        render_condition(&with_value("note", FilterOperator::StartsWith, "it's")).unwrap(),
        "\"note\"::text ILIKE 'it''s%' ESCAPE '\\'"
    );
    assert_eq!(
        render_condition(&with_value("note", FilterOperator::EndsWith, "x\\y")).unwrap(),
        "\"note\"::text ILIKE '%x\\\\y' ESCAPE '\\'"
    );
    assert_eq!(render_condition(&condition("note", FilterOperator::Contains)), None);
}

#[test]
fn null_and_boolean_filters_need_no_value() {
    assert_eq!(
        render_condition(&condition("c", FilterOperator::IsNull)).unwrap(),
        "\"c\" IS NULL"
    );
    assert_eq!(
        render_condition(&condition("c", FilterOperator::IsNotNull)).unwrap(),
        "\"c\" IS NOT NULL"
    );
    assert_eq!(render_condition(&condition("c", FilterOperator::IsTrue)).unwrap(), "\"c\" = TRUE");
    assert_eq!(
        render_condition(&condition("c", FilterOperator::IsFalse)).unwrap(),
        "\"c\" = FALSE"
    );
}

#[test]
fn between_needs_both_values() {
    let mut f = with_value("d", FilterOperator::Between, "2024-01-01");
    assert_eq!(render_condition(&f), None);
    f.value2 = Some("2024-12-31".to_string());
    assert_eq!(
        render_condition(&f).unwrap(),
        "\"d\" BETWEEN '2024-01-01' AND '2024-12-31'"
    );
    f.value = None;
    assert_eq!(render_condition(&f), None);
}

#[test]
fn in_lists_are_quoted_and_empty_lists_skipped() {
    let mut f = condition("id", FilterOperator::In);
    assert_eq!(render_condition(&f), None);
    f.values = Some(Vec::new());
    assert_eq!(render_condition(&f), None);
    f.values = Some(vec!["a".to_string(), "b'c".to_string()]);
    assert_eq!(render_condition(&f).unwrap(), "\"id\" IN ('a', 'b''c')");
}

#[test]
fn where_clause_joins_what_renders() {
    assert_eq!(build_where_clause(&Vec::new()), "");
    let filters = vec![
        with_value("a", FilterOperator::Equals, "1"),
        condition("skipped", FilterOperator::Equals),
        condition("b", FilterOperator::IsNull),
    ];
    assert_eq!(build_where_clause(&filters), "WHERE \"a\" = '1' AND \"b\" IS NULL");
    let none = vec![condition("x", FilterOperator::Between)];
    assert_eq!(build_where_clause(&none), "");
}
