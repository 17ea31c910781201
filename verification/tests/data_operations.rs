use tusker_core::commands::{fetch_table_data, FetchDataRequest};
use tusker_core::data::{
    total_pages, BulkInsertRequest, DataOperations, DeleteRequest, InsertRequest, UpdateRequest,
};
use tusker_core::error::DbViewerError;
use tusker_core::filter::{FilterCondition, FilterOperator};
use tusker_core::json::{JsonNumber, JsonObject, JsonValue};
use tusker_core::rows::{
    fallback_value, pg_value_to_json, rows_to_json, PgDecoder, PgValue, SqlCell, SqlRow,
};

fn object(entries: Vec<(&str, JsonValue)>) -> JsonObject {
    let mut o = JsonObject::new();
    for (k, v) in entries {
        o.insert(k.to_string(), v);
    }
    o
}

fn integer(n: i64) -> JsonValue {
    JsonValue::Number(JsonNumber::Signed(n))
}

fn text(s: &str) -> JsonValue {
    JsonValue::Text(s.to_string())
}

fn invalid_query(e: DbViewerError) -> String {
    match e {
        DbViewerError::InvalidQuery(m) => m,
        other => panic!("unexpected error {:?}", other),
    }
}

fn id_row(n: i32) -> SqlRow {
    SqlRow {
        cells: vec![SqlCell {
            column: "id".to_string(),
            pg_type: "INT4".to_string(),
            value: PgValue::Int4(n),
        }],
    }
}

#[test]
fn paginated_read_with_empty_in_filter_is_unfiltered() {
    let filters = vec![FilterCondition {
        column: "id".to_string(),
        operator: FilterOperator::In,
        value: None,
        value2: None,
        values: Some(Vec::new()),
    }];
    let order: Vec<String> = Vec::new();
    let q = DataOperations::fetch_paginated(
        "public",
        "t",
        1,
        Some(2),
        Some(&order),
        Some(&order),
        Some(&filters),
    );
    assert_eq!(q.count_sql, "SELECT COUNT(*) FROM \"public\".\"t\" ");
    assert_eq!(q.data_sql, "SELECT * FROM \"public\".\"t\"   LIMIT 2 OFFSET 0");
    let rows = vec![id_row(1), id_row(2)];
    let page = DataOperations::page_result(&q, 5, &rows);
    assert_eq!(page.rows.len(), 2);
    assert_eq!(page.total_count, 5);
    assert_eq!(page.total_pages, 3);
    assert_eq!(page.page, 1);
    assert_eq!(page.page_size, 2);
    assert_eq!(page.columns.len(), 1);
    assert_eq!(page.columns[0].name, "id");
    assert_eq!(page.columns[0].data_type, "INT4");
}

#[test]
fn paginated_read_renders_filters_order_and_offset() {
    let filters = vec![FilterCondition {
        column: "name".to_string(),
        operator: FilterOperator::Contains,
        value: Some("50%".to_string()),
        value2: None,
        values: None,
    }];
    let order = vec!["na\"me".to_string(), "id".to_string(), "age".to_string()];
    let directions = vec!["desc".to_string(), "sideways".to_string()];
    let q = DataOperations::fetch_paginated(
        "s",
        "t",
        3,
        None,
        Some(&order),
        Some(&directions),
        Some(&filters),
    );
    let filter = "WHERE \"name\"::text ILIKE '%50\\%%' ESCAPE '\\'";
    assert_eq!(q.page_size, 50);
    assert_eq!(q.count_sql, format!("SELECT COUNT(*) FROM \"s\".\"t\" {}", filter));
    assert_eq!(
        q.data_sql,
        format!(
            "SELECT * FROM \"s\".\"t\" {} ORDER BY \"na\"\"me\" DESC, \"id\" ASC, \"age\" ASC LIMIT 50 OFFSET 100",
            filter
        )
    );
}

#[test]
fn paginated_read_without_options() {
    let q = DataOperations::fetch_paginated("public", "t", 2, Some(10), None, None, None);
    assert_eq!(q.count_sql, "SELECT COUNT(*) FROM \"public\".\"t\" ");
    assert_eq!(q.data_sql, "SELECT * FROM \"public\".\"t\"   LIMIT 10 OFFSET 10");
    let far = DataOperations::fetch_paginated("public", "t", i64::MIN, Some(i64::MAX), None, None, None);
    assert!(far.data_sql.ends_with("OFFSET -85070591730234615865843651857942052863"));
}

#[test]
fn fetch_table_data_defaults_to_the_first_page() {
    let request = FetchDataRequest {
        connection_id: "c".to_string(),
        schema: "public".to_string(),
        table: "t".to_string(),
        page: None,
        page_size: None,
        order_by: Some(vec!["id".to_string()]),
        order_direction: None,
        filters: None,
    };
    let q = fetch_table_data(&request);
    assert_eq!(q.page, 1);
    assert_eq!(q.page_size, 50);
    assert_eq!(q.data_sql, "SELECT * FROM \"public\".\"t\"  ORDER BY \"id\" ASC LIMIT 50 OFFSET 0");
}

#[test]
fn total_pages_is_the_ceiling_of_the_quotient() {
    assert_eq!(total_pages(5, 2), 3);
    assert_eq!(total_pages(4, 2), 2);
    assert_eq!(total_pages(0, 50), 0);
    assert_eq!(total_pages(1, 50), 1);
    assert_eq!(total_pages(50, 50), 1);
    assert_eq!(total_pages(51, 50), 2);
    assert_eq!(total_pages(i64::MAX, 1), i64::MAX);
    assert_eq!(total_pages(5, -2), -2);
    assert_eq!(total_pages(-5, 2), -2);
    assert_eq!(total_pages(-5, -2), 3);
    assert_eq!(total_pages(i64::MIN, -1), i64::MAX);
}

#[test]
fn total_pages_with_page_size_zero() {
    assert_eq!(total_pages(5, 0), i64::MAX);
    assert_eq!(total_pages(0, 0), 0);
    assert_eq!(total_pages(-1, 0), i64::MIN);
}

#[test]
fn total_pages_agrees_with_floating_point_on_small_numbers() {
    for total in -20i64..=20 {
        for size in -7i64..=7 {
            let expected = (total as f64 / size as f64).ceil() as i64;
            assert_eq!(total_pages(total, size), expected, "{} / {}", total, size);
        }
    }
}

#[test]
fn insert_renders_columns_and_values_in_order() {
    let request = InsertRequest {
        schema: "public".to_string(),
        table: "users".to_string(),
        data: object(vec![("name", text("O'Brien")), ("age", integer(30)), ("nick", JsonValue::Null)]),
    };
    assert_eq!(
        DataOperations::insert_row(&request).unwrap(),
        "INSERT INTO \"public\".\"users\" (\"name\", \"age\", \"nick\") VALUES ('O''Brien', 30, NULL) RETURNING *"
    );
}

#[test]
fn insert_without_data_is_refused() {
    let request = InsertRequest {
        schema: "public".to_string(),
        table: "users".to_string(),
        data: JsonObject::new(),
    };
    assert_eq!(
        invalid_query(DataOperations::insert_row(&request).unwrap_err()),
        "No data provided for insert"
    );
}

#[test]
fn inserted_row_is_the_first_row_or_empty() {
    let rows = vec![id_row(7), id_row(8)];
    let first = DataOperations::inserted_row(&rows);
    assert_eq!(first.len(), 1);
    assert!(matches!(first.get("id"), Some(JsonValue::Number(JsonNumber::Signed(7)))));
    assert!(DataOperations::inserted_row(&Vec::new()).is_empty());
}

#[test]
fn bulk_insert_takes_columns_from_the_first_row() {
    let request = BulkInsertRequest {
        schema: "public".to_string(),
        table: "t".to_string(),
        rows: vec![
            object(vec![("a", integer(1)), ("b", text("x"))]),
            object(vec![("b", text("y"))]),
            object(vec![("c", integer(9)), ("a", JsonValue::Bool(true))]),
        ],
    };
    assert_eq!(
        DataOperations::bulk_insert(&request).unwrap().unwrap(),
        "INSERT INTO \"public\".\"t\" (\"a\", \"b\") VALUES (1, 'x'), (NULL, 'y'), (TRUE, NULL)"
    );
}

#[test]
fn bulk_insert_has_one_tuple_per_row() {
    let rows: Vec<JsonObject> = (0..5).map(|i| object(vec![("n", integer(i))])).collect();
    let request = BulkInsertRequest { schema: "s".to_string(), table: "t".to_string(), rows };
    let sql = DataOperations::bulk_insert(&request).unwrap().unwrap();
    assert_eq!(sql, "INSERT INTO \"s\".\"t\" (\"n\") VALUES (0), (1), (2), (3), (4)");
    assert_eq!(sql.matches('(').count(), 1 + 5);
}

#[test]
fn bulk_insert_of_nothing_renders_no_statement() {
    let request =
        BulkInsertRequest { schema: "s".to_string(), table: "t".to_string(), rows: Vec::new() };
    assert!(DataOperations::bulk_insert(&request).unwrap().is_none());
    let empty_first = BulkInsertRequest {
        schema: "s".to_string(),
        table: "t".to_string(),
        rows: vec![JsonObject::new(), object(vec![("a", integer(1))])],
    };
    assert_eq!(
        invalid_query(DataOperations::bulk_insert(&empty_first).unwrap_err()),
        "No data provided for insert"
    );
}

#[test]
fn update_renders_set_and_where() {
    let request = UpdateRequest {
        schema: "public".to_string(),
        table: "users".to_string(),
        data: object(vec![("name", text("Ann")), ("age", integer(31))]),
        where_clause: object(vec![("id", integer(7)), ("org", text("x'y"))]),
    };
    assert_eq!(
        DataOperations::update_row(&request).unwrap(),
        "UPDATE \"public\".\"users\" SET \"name\" = 'Ann', \"age\" = 31 WHERE \"id\" = 7 AND \"org\" = 'x''y'"
    );
}

#[test]
fn update_needs_data_and_where() {
    let no_data = UpdateRequest {
        schema: "s".to_string(),
        table: "t".to_string(),
        data: JsonObject::new(),
        where_clause: JsonObject::new(),
    };
    assert_eq!(
        invalid_query(DataOperations::update_row(&no_data).unwrap_err()),
        "No data provided for update"
    );
    let no_where = UpdateRequest {
        schema: "s".to_string(),
        table: "t".to_string(),
        data: object(vec![("a", integer(1))]),
        where_clause: JsonObject::new(),
    };
    assert_eq!(
        invalid_query(DataOperations::update_row(&no_where).unwrap_err()),
        "No where clause provided for update"
    );
}

#[test]
fn delete_renders_where_and_needs_it() {
    let request = DeleteRequest {
        schema: "public".to_string(),
        table: "users".to_string(),
        where_clause: object(vec![("id", integer(7)), ("gone", JsonValue::Bool(false))]),
    };
    assert_eq!(
        DataOperations::delete_row(&request).unwrap(),
        "DELETE FROM \"public\".\"users\" WHERE \"id\" = 7 AND \"gone\" = FALSE"
    );
    let bare = DeleteRequest {
        schema: "s".to_string(),
        table: "t".to_string(),
        where_clause: JsonObject::new(),
    };
    assert_eq!(
        invalid_query(DataOperations::delete_row(&bare).unwrap_err()),
        "No where clause provided for delete"
    );
}

#[test]
fn raw_queries_are_trimmed_and_classified() {
    let q = DataOperations::execute_raw_query("  select * from t \n").unwrap();
    assert_eq!(q.sql, "select * from t");
    assert!(q.returns_rows);
    assert!(DataOperations::execute_raw_query("WITH x AS (SELECT 1) SELECT * FROM x").unwrap().returns_rows);
    assert!(DataOperations::execute_raw_query("explain select 1").unwrap().returns_rows);
    assert!(DataOperations::execute_raw_query("Show server_version").unwrap().returns_rows);
    let update = DataOperations::execute_raw_query("UPDATE t SET a = 1").unwrap();
    assert!(!update.returns_rows);
    assert_eq!(update.sql, "UPDATE t SET a = 1");
    assert!(DataOperations::is_row_returning("SELECT"));
    assert!(!DataOperations::is_row_returning("select"));
    assert!(!DataOperations::is_row_returning("INSERT INTO t SELECT 1"));
}

#[test]
fn empty_raw_query_is_refused() {
    assert_eq!(
        invalid_query(DataOperations::execute_raw_query("").unwrap_err()),
        "Empty query"
    );
    assert_eq!(
        invalid_query(DataOperations::execute_raw_query(" \n\t ").unwrap_err()),
        "Empty query"
    );
}

#[test]
fn raw_query_results() {
    let rows = vec![id_row(1)];
    let r = DataOperations::rows_result(&rows, 12);
    assert_eq!(r.rows.len(), 1);
    assert_eq!(r.columns.len(), 1);
    assert_eq!(r.rows_affected, 0);
    assert_eq!(r.execution_time_ms, 12);
    let a = DataOperations::affected_result(3, 5);
    assert!(a.rows.is_empty());
    assert!(a.columns.is_empty());
    assert_eq!(a.rows_affected, 3);
    assert_eq!(a.execution_time_ms, 5);
}

#[test]
fn decoders_are_chosen_by_type_name() {
    let cases = [
        ("BOOL", PgDecoder::Bool),
        ("INT2", PgDecoder::Int2),
        ("INT4", PgDecoder::Int4),
        ("INT8", PgDecoder::Int8),
        ("FLOAT4", PgDecoder::Float4),
        ("FLOAT8", PgDecoder::Float8),
        ("JSON", PgDecoder::Json),
        ("JSONB", PgDecoder::Json),
        ("UUID", PgDecoder::Uuid),
        ("BYTEA", PgDecoder::Bytea),
        ("TIMESTAMPTZ", PgDecoder::TimestampTz),
        ("TIMESTAMP", PgDecoder::Timestamp),
        ("DATE", PgDecoder::Date),
        ("TIME", PgDecoder::Time),
        ("TEXT", PgDecoder::Fallback),
        ("bool", PgDecoder::Fallback),
        ("mood", PgDecoder::Fallback),
        ("", PgDecoder::Fallback),
    ];
    for (name, expected) in cases {
        assert_eq!(PgDecoder::for_type(name), expected, "{}", name);
    }
}

#[test]
fn cells_render_as_json() {
    assert!(matches!(pg_value_to_json(&PgValue::Null), JsonValue::Null));
    assert!(matches!(pg_value_to_json(&PgValue::Bool(true)), JsonValue::Bool(true)));
    assert!(matches!(
        pg_value_to_json(&PgValue::Int2(-3)),
        JsonValue::Number(JsonNumber::Signed(-3))
    ));
    assert!(matches!(
        pg_value_to_json(&PgValue::Int8(i64::MAX)),
        JsonValue::Number(JsonNumber::Signed(i64::MAX))
    ));
    match pg_value_to_json(&PgValue::Number("1.25".to_string())) {
        JsonValue::Number(JsonNumber::Literal(t)) => assert_eq!(t, "1.25"),
        other => panic!("unexpected {:?}", other),
    }
    match pg_value_to_json(&PgValue::Text("2024-01-01".to_string())) {
        JsonValue::Text(t) => assert_eq!(t, "2024-01-01"),
        other => panic!("unexpected {:?}", other),
    }
    match pg_value_to_json(&PgValue::Json(JsonValue::Array("[1]".to_string()))) {
        JsonValue::Array(t) => assert_eq!(t, "[1]"),
        other => panic!("unexpected {:?}", other),
    }
}

#[test]
fn bytea_renders_as_hex_text() {
    match pg_value_to_json(&PgValue::Bytes(vec![0x00, 0xde, 0xad, 0xBE, 0xef, 0x0f])) {
        JsonValue::Text(t) => assert_eq!(t, "\\x00deadbeef0f"),
        other => panic!("unexpected {:?}", other),
    }
    match pg_value_to_json(&PgValue::Bytes(Vec::new())) {
        JsonValue::Text(t) => assert_eq!(t, "\\x"),
        other => panic!("unexpected {:?}", other),
    }
}

#[test]
fn rows_become_objects_with_the_columns_of_the_first_row() {
    let rows = vec![
        SqlRow {
            cells: vec![
                SqlCell { column: "id".to_string(), pg_type: "INT4".to_string(), value: PgValue::Int4(1) },
                SqlCell { column: "name".to_string(), pg_type: "TEXT".to_string(), value: PgValue::Text("a".to_string()) },
                SqlCell { column: "id".to_string(), pg_type: "INT4".to_string(), value: PgValue::Int4(2) },
            ],
        },
        SqlRow { cells: Vec::new() },
    ];
    let (objects, columns) = rows_to_json(&rows);
    assert_eq!(objects.len(), 2);
    assert_eq!(columns.len(), 3);
    assert_eq!(columns[1].name, "name");
    assert_eq!(columns[1].data_type, "TEXT");
    assert_eq!(objects[0].len(), 2);
    assert_eq!(objects[0].entry(0).key, "id");
    assert!(matches!(objects[0].get("id"), Some(JsonValue::Number(JsonNumber::Signed(2)))));
    assert!(objects[1].is_empty());
    let (no_objects, no_columns) = rows_to_json(&Vec::new());
    assert!(no_objects.is_empty());
    assert!(no_columns.is_empty());
}

#[test]
fn json_objects_keep_order_and_replace_in_place() {
    let mut o = JsonObject::new();
    o.insert("b".to_string(), integer(1));
    o.insert("a".to_string(), integer(2));
    o.insert("b".to_string(), integer(3));
    assert_eq!(o.len(), 2);
    assert_eq!(o.entry(0).key, "b");
    assert_eq!(o.entry(1).key, "a");
    assert!(matches!(o.get("b"), Some(JsonValue::Number(JsonNumber::Signed(3)))));
    assert!(o.get("c").is_none());
    assert_eq!(o.entries().len(), 2);
}

#[test]
fn a_cell_of_unknown_type_is_read_as_text_then_from_the_raw_value() {
    match fallback_value(Some("happy".to_string()), false, Some("raw".to_string())) {
        PgValue::Text(t) => assert_eq!(t, "happy"),
        other => panic!("unexpected {:?}", other),
    }
    match fallback_value(Some("happy".to_string()), true, None) {
        PgValue::Text(t) => assert_eq!(t, "happy"),
        other => panic!("unexpected {:?}", other),
    }
    match fallback_value(None, false, Some("raw".to_string())) {
        PgValue::Text(t) => assert_eq!(t, "raw"),
        other => panic!("unexpected {:?}", other),
    }
}

#[test]
fn a_cell_of_unknown_type_that_cannot_be_read_is_null() {
    assert!(matches!(fallback_value(None, true, None), PgValue::Null));
    assert!(matches!(fallback_value(None, true, Some("raw".to_string())), PgValue::Null));
    assert!(matches!(fallback_value(None, false, None), PgValue::Null));
}
