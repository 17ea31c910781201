use tusker_core::schema::{
    ColumnRow, ConstraintRow, ConstraintType, EnumLabel, MaterializedViewRow, SchemaInfo,
    SchemaIntrospector, TableColumnRow, TableRow, TableType,
};

fn column(name: &str, udt: &str, position: i16) -> ColumnRow {
    ColumnRow {
        name: name.to_string(),
        data_type: format!("{}(x)", udt),
        udt_name: udt.to_string(),
        is_nullable: true,
        default_value: None,
        character_maximum_length: Some(10),
        numeric_precision: None,
        numeric_scale: Some(2),
        ordinal_position: position,
        description: Some("about".to_string()),
        is_primary_key: false,
        is_unique: true,
        fk_constraint: None,
        fk_ref_schema: None,
        fk_ref_table: None,
        fk_ref_column: None,
    }
}

fn label(enum_type: &str, label: &str) -> EnumLabel {
    EnumLabel { enum_type: enum_type.to_string(), label: label.to_string() }
}

fn table(schema: &str, name: &str, kind: &str) -> TableRow {
    TableRow {
        schema: schema.to_string(),
        name: name.to_string(),
        kind: kind.to_string(),
        estimated_row_count: Some(12),
        description: None,
    }
}

fn in_table(schema: &str, table: &str, name: &str, position: i16) -> TableColumnRow {
    TableColumnRow {
        schema_name: schema.to_string(),
        table_name: table.to_string(),
        column: column(name, "int4", position),
    }
}

#[test]
fn table_types_from_names() {
    assert_eq!(TableType::from("VIEW".to_string()), TableType::View);
    assert_eq!(TableType::from("MATERIALIZED VIEW".to_string()), TableType::MaterializedView);
    assert_eq!(TableType::from("FOREIGN TABLE".to_string()), TableType::ForeignTable);
    assert_eq!(TableType::from("BASE TABLE".to_string()), TableType::Table);
    assert_eq!(TableType::from("view".to_string()), TableType::Table);
    assert_eq!(TableType::from(String::new()), TableType::Table);
    assert_eq!(TableType::from_name("VIEW"), TableType::View);
}

#[test]
fn constraint_types_from_names() {
    assert_eq!(ConstraintType::from("PRIMARY KEY".to_string()), ConstraintType::PrimaryKey);
    assert_eq!(ConstraintType::from("FOREIGN KEY".to_string()), ConstraintType::ForeignKey);
    assert_eq!(ConstraintType::from("UNIQUE".to_string()), ConstraintType::Unique);
    assert_eq!(ConstraintType::from("CHECK".to_string()), ConstraintType::Check);
    assert_eq!(ConstraintType::from("EXCLUSION".to_string()), ConstraintType::Exclusion);
    assert_eq!(ConstraintType::from("TRIGGER".to_string()), ConstraintType::Check);
}

#[test]
fn row_count_statement_quotes_names() {
    assert_eq!(
        SchemaIntrospector::get_row_count("public", "my\"table"),
        "SELECT COUNT(*) FROM \"public\".\"my\"\"table\""
    );
}

#[test]
fn columns_get_enum_labels_and_foreign_keys() {
    let mut mood = column("mood", "mood", 2);
    mood.is_primary_key = true;
    let mut owner = column("owner_id", "int4", 3);
    owner.fk_constraint = Some("fk_owner".to_string());
    owner.fk_ref_schema = Some("public".to_string());
    owner.fk_ref_table = Some("users".to_string());
    let rows = vec![column("id", "int4", 1), mood, owner];
    let enums = vec![label("color", "red"), label("mood", "sad"), label("mood", "ok"), label("color", "blue"), label("mood", "happy")];
    let columns = SchemaIntrospector::get_columns(&rows, &enums);
    assert_eq!(columns.len(), 3);
    assert_eq!(columns[0].name, "id");
    assert_eq!(columns[0].data_type, "int4(x)");
    assert_eq!(columns[0].udt_name, "int4");
    assert!(columns[0].is_nullable);
    assert!(!columns[0].is_primary_key);
    assert!(columns[0].is_unique);
    assert!(!columns[0].is_foreign_key);
    assert_eq!(columns[0].default_value, None);
    assert_eq!(columns[0].character_maximum_length, Some(10));
    assert_eq!(columns[0].numeric_precision, None);
    assert_eq!(columns[0].numeric_scale, Some(2));
    assert_eq!(columns[0].ordinal_position, 1);
    assert_eq!(columns[0].description.as_deref(), Some("about"));
    assert!(columns[0].foreign_key_info.is_none());
    assert_eq!(columns[0].enum_values, None);
    assert!(columns[1].is_primary_key);
    assert_eq!(
        columns[1].enum_values,
        Some(vec!["sad".to_string(), "ok".to_string(), "happy".to_string()])
    );
    assert!(columns[2].is_foreign_key);
    let fk = columns[2].foreign_key_info.as_ref().unwrap();
    assert_eq!(fk.constraint_name, "fk_owner");
    assert_eq!(fk.referenced_schema, "public");
    assert_eq!(fk.referenced_table, "users");
    assert_eq!(fk.referenced_column, "");
    assert_eq!(columns[2].ordinal_position, 3);
}

#[test]
fn all_columns_are_grouped_by_runs_of_one_table() {
    let rows = vec![
        in_table("a", "t1", "id", 1),
        in_table("a", "t1", "name", 2),
        in_table("a", "t2", "id", 1),
        in_table("b", "t2", "id", 1),
        in_table("b", "t2", "x", 2),
        in_table("b", "t2", "y", 3),
        in_table("a", "t1", "late", 9),
    ];
    let tables = SchemaIntrospector::get_all_columns(&rows, &Vec::new());
    let shape: Vec<(String, String, Vec<String>)> = tables
        .iter()
        .map(|t| (t.schema.clone(), t.table.clone(), t.columns.iter().map(|c| c.name.clone()).collect()))
        .collect();
    assert_eq!(
        shape,
        vec![
            ("a".to_string(), "t1".to_string(), vec!["id".to_string(), "name".to_string()]),
            ("a".to_string(), "t2".to_string(), vec!["id".to_string()]),
            ("b".to_string(), "t2".to_string(), vec!["id".to_string(), "x".to_string(), "y".to_string()]),
            ("a".to_string(), "t1".to_string(), vec!["late".to_string()]),
        ]
    );
    assert_eq!(tables[2].columns[2].ordinal_position, 3);
    assert!(SchemaIntrospector::get_all_columns(&Vec::new(), &Vec::new()).is_empty());
}

#[test]
fn tables_take_their_type_from_the_kind() {
    let tables = SchemaIntrospector::get_tables(&vec![
        table("public", "a", "BASE TABLE"),
        table("public", "b", "VIEW"),
        table("public", "c", "MATERIALIZED VIEW"),
        table("public", "d", "FOREIGN TABLE"),
    ]);
    let types: Vec<TableType> = tables.iter().map(|t| t.table_type).collect();
    assert_eq!(
        types,
        vec![TableType::Table, TableType::View, TableType::MaterializedView, TableType::ForeignTable]
    );
    assert_eq!(tables[1].schema, "public");
    assert_eq!(tables[1].name, "b");
    assert_eq!(tables[1].estimated_row_count, Some(12));
    assert_eq!(tables[1].description, None);
}

#[test]
fn constraints_keep_their_columns() {
    let constraints = SchemaIntrospector::get_constraints(vec![
        ConstraintRow {
            name: "pk".to_string(),
            kind: "PRIMARY KEY".to_string(),
            columns: vec!["a".to_string(), "b".to_string()],
            definition: Some("PRIMARY KEY (a, b)".to_string()),
        },
        ConstraintRow {
            name: "odd".to_string(),
            kind: "?".to_string(),
            columns: Vec::new(),
            definition: None,
        },
    ]);
    assert_eq!(constraints.len(), 2);
    assert_eq!(constraints[0].name, "pk");
    assert_eq!(constraints[0].constraint_type, ConstraintType::PrimaryKey);
    assert_eq!(constraints[0].columns, vec!["a".to_string(), "b".to_string()]);
    assert_eq!(constraints[0].definition.as_deref(), Some("PRIMARY KEY (a, b)"));
    assert_eq!(constraints[1].constraint_type, ConstraintType::Check);
}

#[test]
fn schemas_hold_their_relations_by_name() {
    let schemas = vec![
        SchemaInfo { name: "app".to_string(), owner: Some("ann".to_string()) },
        SchemaInfo { name: "empty".to_string(), owner: None },
        SchemaInfo { name: "public".to_string(), owner: Some("postgres".to_string()) },
    ];
    let tables = vec![
        table("app", "orders", "BASE TABLE"),
        table("app", "users", "BASE TABLE"),
        table("public", "b", "VIEW"),
        table("public", "d", "FOREIGN TABLE"),
        table("other", "x", "BASE TABLE"),
    ];
    let views = vec![
        MaterializedViewRow {
            schema: "app".to_string(),
            name: "report".to_string(),
            estimated_row_count: None,
            description: Some("nightly".to_string()),
        },
        MaterializedViewRow {
            schema: "public".to_string(),
            name: "a".to_string(),
            estimated_row_count: Some(1),
            description: None,
        },
        MaterializedViewRow {
            schema: "public".to_string(),
            name: "c".to_string(),
            estimated_row_count: Some(2),
            description: None,
        },
    ];
    let result = SchemaIntrospector::get_schemas_with_tables(&schemas, &tables, &views);
    assert_eq!(result.len(), 3);
    assert_eq!(result[0].name, "app");
    assert_eq!(result[0].owner.as_deref(), Some("ann"));
    let app: Vec<(&str, TableType)> =
        result[0].tables.iter().map(|t| (t.name.as_str(), t.table_type)).collect();
    assert_eq!(
        app,
        vec![
            ("orders", TableType::Table),
            ("report", TableType::MaterializedView),
            ("users", TableType::Table),
        ]
    );
    assert_eq!(result[0].tables[1].description.as_deref(), Some("nightly"));
    assert_eq!(result[0].tables[1].schema, "app");
    assert!(result[1].tables.is_empty());
    assert_eq!(result[1].owner, None);
    let public: Vec<&str> = result[2].tables.iter().map(|t| t.name.as_str()).collect();
    assert_eq!(public, vec!["a", "b", "c", "d"]);
}
