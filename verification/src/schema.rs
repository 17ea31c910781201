//! The schema introspector: catalog rows turned into a uniform description of
//! schemas, tables, columns and constraints.
//!
//! The catalog queries are the caller's. What they return comes here as plain
//! rows; this module names the kinds, attaches enum labels and foreign keys to
//! columns, and groups columns under tables and tables under schemas.

use vstd::prelude::*;
use crate::sql::{qualified_name, qualify};
use crate::text::{text_eq, text_less, text_lt, texts};

verus! {

// ---------------------------------------------------------------------------
// Data
// ---------------------------------------------------------------------------

#[derive(Debug)]
pub struct SchemaInfo {
    pub name: String,
    pub owner: Option<String>,
}

#[derive(Debug, Clone, Copy, PartialEq, Eq)]
pub enum TableType {
    Table,
    View,
    MaterializedView,
    ForeignTable,
}

#[derive(Debug)]
pub struct TableInfo {
    pub schema: String,
    pub name: String,
    pub table_type: TableType,
    pub estimated_row_count: Option<i64>,
    pub description: Option<String>,
}

#[derive(Debug)]
pub struct ForeignKeyInfo {
    pub constraint_name: String,
    pub referenced_schema: String,
    pub referenced_table: String,
    pub referenced_column: String,
}

#[derive(Debug)]
pub struct ColumnInfo {
    pub name: String,
    pub data_type: String,
    pub udt_name: String,
    pub is_nullable: bool,
    pub is_primary_key: bool,
    pub is_unique: bool,
    pub is_foreign_key: bool,
    pub default_value: Option<String>,
    pub character_maximum_length: Option<i32>,
    pub numeric_precision: Option<i32>,
    pub numeric_scale: Option<i32>,
    pub ordinal_position: i32,
    pub description: Option<String>,
    pub foreign_key_info: Option<ForeignKeyInfo>,
    pub enum_values: Option<Vec<String>>,
}

#[derive(Debug)]
pub struct TableColumnsInfo {
    pub schema: String,
    pub table: String,
    pub columns: Vec<ColumnInfo>,
}

#[derive(Debug)]
pub struct IndexInfo {
    pub name: String,
    pub is_unique: bool,
    pub is_primary: bool,
    pub columns: Vec<String>,
    pub index_type: String,
}

#[derive(Debug, Clone, Copy, PartialEq, Eq)]
pub enum ConstraintType {
    PrimaryKey,
    ForeignKey,
    Unique,
    Check,
    Exclusion,
}

#[derive(Debug)]
pub struct ConstraintInfo {
    pub name: String,
    pub constraint_type: ConstraintType,
    pub columns: Vec<String>,
    pub definition: Option<String>,
}

#[derive(Debug)]
pub struct SchemaWithTables {
    pub name: String,
    pub owner: Option<String>,
    pub tables: Vec<TableInfo>,
}

/// A row of the tables query: a relation with the name of its kind.
#[derive(Debug)]
pub struct TableRow {
    pub schema: String,
    pub name: String,
    pub kind: String,
    pub estimated_row_count: Option<i64>,
    pub description: Option<String>,
}

/// A row of the materialized-views query.
#[derive(Debug)]
pub struct MaterializedViewRow {
    pub schema: String,
    pub name: String,
    pub estimated_row_count: Option<i64>,
    pub description: Option<String>,
}

/// A row of the columns query.
#[derive(Debug)]
pub struct ColumnRow {
    pub name: String,
    pub data_type: String,
    pub udt_name: String,
    pub is_nullable: bool,
    pub default_value: Option<String>,
    pub character_maximum_length: Option<i32>,
    pub numeric_precision: Option<i32>,
    pub numeric_scale: Option<i32>,
    pub ordinal_position: i16,
    pub description: Option<String>,
    pub is_primary_key: bool,
    pub is_unique: bool,
    pub fk_constraint: Option<String>,
    pub fk_ref_schema: Option<String>,
    pub fk_ref_table: Option<String>,
    pub fk_ref_column: Option<String>,
}

/// A row of the columns query over several schemas: a column with the schema
/// and the table it belongs to.
#[derive(Debug)]
pub struct TableColumnRow {
    pub schema_name: String,
    pub table_name: String,
    pub column: ColumnRow,
}

/// A row of the enum query: one label of one enum type.
#[derive(Debug)]
pub struct EnumLabel {
    pub enum_type: String,
    pub label: String,
}

/// A row of the constraints query.
#[derive(Debug)]
pub struct ConstraintRow {
    pub name: String,
    pub kind: String,
    pub columns: Vec<String>,
    pub definition: Option<String>,
}

pub struct SchemaIntrospector;

// ---------------------------------------------------------------------------
// Kinds
// ---------------------------------------------------------------------------

/// The kind of relation that a name of the tables query stands for; a name
/// that is none of the three others stands for a table.
pub open spec fn table_type_of(kind: Seq<char>) -> TableType {
    if kind == "VIEW"@ {
        TableType::View
    } else if kind == "MATERIALIZED VIEW"@ {
        TableType::MaterializedView
    } else if kind == "FOREIGN TABLE"@ {
        TableType::ForeignTable
    } else {
        TableType::Table
    }
}

/// The kind of constraint that a name of the constraints query stands for;
/// an unknown name stands for a check.
pub open spec fn constraint_type_of(kind: Seq<char>) -> ConstraintType {
    if kind == "PRIMARY KEY"@ {
        ConstraintType::PrimaryKey
    } else if kind == "FOREIGN KEY"@ {
        ConstraintType::ForeignKey
    } else if kind == "UNIQUE"@ {
        ConstraintType::Unique
    } else if kind == "EXCLUSION"@ {
        ConstraintType::Exclusion
    } else {
        ConstraintType::Check
    }
}

impl TableType {
    /// The kind of relation for a name of the tables query.
    pub fn from(s: String) -> (r: TableType)
        ensures
            r == table_type_of(s@),
    {
        Self::from_name(s.as_str())
    }

    /// The kind of relation for a name of the tables query.
    pub fn from_name(s: &str) -> (r: TableType)
        ensures
            r == table_type_of(s@),
    {
        if text_eq(s, "VIEW") {
            TableType::View
        } else if text_eq(s, "MATERIALIZED VIEW") {
            TableType::MaterializedView
        } else if text_eq(s, "FOREIGN TABLE") {
            TableType::ForeignTable
        } else {
            TableType::Table
        }
    }
}

impl ConstraintType {
    /// The kind of constraint for a name of the constraints query.
    pub fn from(s: String) -> (r: ConstraintType)
        ensures
            r == constraint_type_of(s@),
    {
        Self::from_name(s.as_str())
    }

    /// The kind of constraint for a name of the constraints query.
    pub fn from_name(s: &str) -> (r: ConstraintType)
        ensures
            r == constraint_type_of(s@),
    {
        if text_eq(s, "PRIMARY KEY") {
            ConstraintType::PrimaryKey
        } else if text_eq(s, "FOREIGN KEY") {
            ConstraintType::ForeignKey
        } else if text_eq(s, "UNIQUE") {
            ConstraintType::Unique
        } else if text_eq(s, "EXCLUSION") {
            ConstraintType::Exclusion
        } else {
            ConstraintType::Check
        }
    }
}

// ---------------------------------------------------------------------------
// The mathematical values
// ---------------------------------------------------------------------------

/// The text of an optional string.
pub open spec fn optional_text(o: Option<String>) -> Option<Seq<char>> {
    match o {
        Some(s) => Some(s@),
        None => None,
    }
}

/// The text of an optional string, empty where there is none.
pub open spec fn text_or_empty(o: Option<String>) -> Seq<char> {
    match o {
        Some(s) => s@,
        None => Seq::empty(),
    }
}

/// What a `TableInfo` stands for.
pub struct TableModel {
    pub schema: Seq<char>,
    pub name: Seq<char>,
    pub table_type: TableType,
    pub estimated_row_count: Option<i64>,
    pub description: Option<Seq<char>>,
}

impl View for TableInfo {
    type V = TableModel;

    open spec fn view(&self) -> TableModel {
        TableModel {
            schema: self.schema@,
            name: self.name@,
            table_type: self.table_type,
            estimated_row_count: self.estimated_row_count,
            description: optional_text(self.description),
        }
    }
}

/// The models of a list of tables.
pub open spec fn table_models(tables: Seq<TableInfo>) -> Seq<TableModel> {
    Seq::new(tables.len(), |i: int| tables[i]@)
}

/// The table of a row of the tables query.
pub open spec fn table_of(row: TableRow) -> TableModel {
    TableModel {
        schema: row.schema@,
        name: row.name@,
        table_type: table_type_of(row.kind@),
        estimated_row_count: row.estimated_row_count,
        description: optional_text(row.description),
    }
}

/// The table of a row of the materialized-views query.
pub open spec fn view_of(row: MaterializedViewRow) -> TableModel {
    TableModel {
        schema: row.schema@,
        name: row.name@,
        table_type: TableType::MaterializedView,
        estimated_row_count: row.estimated_row_count,
        description: optional_text(row.description),
    }
}

/// What a `ForeignKeyInfo` stands for.
pub struct ForeignKeyModel {
    pub constraint_name: Seq<char>,
    pub referenced_schema: Seq<char>,
    pub referenced_table: Seq<char>,
    pub referenced_column: Seq<char>,
}

/// What a `ColumnInfo` stands for.
pub struct ColumnModel {
    pub name: Seq<char>,
    pub data_type: Seq<char>,
    pub udt_name: Seq<char>,
    pub is_nullable: bool,
    pub is_primary_key: bool,
    pub is_unique: bool,
    pub is_foreign_key: bool,
    pub default_value: Option<Seq<char>>,
    pub character_maximum_length: Option<i32>,
    pub numeric_precision: Option<i32>,
    pub numeric_scale: Option<i32>,
    pub ordinal_position: i32,
    pub description: Option<Seq<char>>,
    pub foreign_key_info: Option<ForeignKeyModel>,
    pub enum_values: Option<Seq<Seq<char>>>,
}

impl View for ForeignKeyInfo {
    type V = ForeignKeyModel;

    open spec fn view(&self) -> ForeignKeyModel {
        ForeignKeyModel {
            constraint_name: self.constraint_name@,
            referenced_schema: self.referenced_schema@,
            referenced_table: self.referenced_table@,
            referenced_column: self.referenced_column@,
        }
    }
}

impl View for ColumnInfo {
    type V = ColumnModel;

    open spec fn view(&self) -> ColumnModel {
        ColumnModel {
            name: self.name@,
            data_type: self.data_type@,
            udt_name: self.udt_name@,
            is_nullable: self.is_nullable,
            is_primary_key: self.is_primary_key,
            is_unique: self.is_unique,
            is_foreign_key: self.is_foreign_key,
            default_value: optional_text(self.default_value),
            character_maximum_length: self.character_maximum_length,
            numeric_precision: self.numeric_precision,
            numeric_scale: self.numeric_scale,
            ordinal_position: self.ordinal_position,
            description: optional_text(self.description),
            foreign_key_info: match self.foreign_key_info {
                Some(f) => Some(f@),
                None => None,
            },
            enum_values: match self.enum_values {
                Some(v) => Some(texts(v@)),
                None => None,
            },
        }
    }
}

/// The models of a list of columns.
pub open spec fn column_models(columns: Seq<ColumnInfo>) -> Seq<ColumnModel> {
    Seq::new(columns.len(), |i: int| columns[i]@)
}

// ---------------------------------------------------------------------------
// Columns
// ---------------------------------------------------------------------------

/// The labels of the enum type `name`, in the order of the rows.
pub open spec fn labels_of(enums: Seq<EnumLabel>, name: Seq<char>) -> Seq<Seq<char>>
    decreases enums.len(),
{
    if enums.len() == 0 {
        Seq::empty()
    } else if enums.last().enum_type@ == name {
        labels_of(enums.drop_last(), name).push(enums.last().label@)
    } else {
        labels_of(enums.drop_last(), name)
    }
}

/// The enum labels of a column: those of its base type, where that is an
/// enum type of the catalog.
pub open spec fn enum_values_of(enums: Seq<EnumLabel>, udt_name: Seq<char>) -> Option<
    Seq<Seq<char>>,
> {
    if labels_of(enums, udt_name).len() == 0 {
        None
    } else {
        Some(labels_of(enums, udt_name))
    }
}

/// The foreign key of a column: the constraint's name with what it points
/// to, where the column has a foreign-key constraint.
pub open spec fn foreign_key_of(row: ColumnRow) -> Option<ForeignKeyModel> {
    match row.fk_constraint {
        Some(c) => Some(
            ForeignKeyModel {
                constraint_name: c@,
                referenced_schema: text_or_empty(row.fk_ref_schema),
                referenced_table: text_or_empty(row.fk_ref_table),
                referenced_column: text_or_empty(row.fk_ref_column),
            },
        ),
        None => None,
    }
}

/// The column of a row of the columns query.
pub open spec fn column_of(row: ColumnRow, enums: Seq<EnumLabel>) -> ColumnModel {
    ColumnModel {
        name: row.name@,
        data_type: row.data_type@,
        udt_name: row.udt_name@,
        is_nullable: row.is_nullable,
        is_primary_key: row.is_primary_key,
        is_unique: row.is_unique,
        is_foreign_key: row.fk_constraint is Some,
        default_value: optional_text(row.default_value),
        character_maximum_length: row.character_maximum_length,
        numeric_precision: row.numeric_precision,
        numeric_scale: row.numeric_scale,
        ordinal_position: row.ordinal_position as i32,
        description: optional_text(row.description),
        foreign_key_info: foreign_key_of(row),
        enum_values: enum_values_of(enums, row.udt_name@),
    }
}

fn clone_optional(o: &Option<String>) -> (r: Option<String>)
    ensures
        optional_text(r) == optional_text(*o),
{
    match o {
        Some(s) => Some(s.clone()),
        None => None,
    }
}

fn clone_or_empty(o: &Option<String>) -> (r: String)
    ensures
        r@ == text_or_empty(*o),
{
    match o {
        Some(s) => s.clone(),
        None => String::new(),
    }
}

fn enum_values_for(enums: &Vec<EnumLabel>, udt_name: &str) -> (r: Option<Vec<String>>)
    ensures
        match r {
            Some(v) => enum_values_of(enums@, udt_name@) == Some(texts(v@)),
            None => enum_values_of(enums@, udt_name@) is None,
        },
{
    let mut labels: Vec<String> = Vec::new();
    let mut i: usize = 0;
    assert(texts(labels@) =~= labels_of(enums@.take(0), udt_name@));
    while i < enums.len()
        invariant
            i <= enums.len(),
            texts(labels@) == labels_of(enums@.take(i as int), udt_name@),
        decreases enums.len() - i,
    {
        proof {
            assert(enums@.take(i + 1).drop_last() =~= enums@.take(i as int));
            assert(enums@.take(i + 1).last() == enums@[i as int]);
        }
        if text_eq(enums[i].enum_type.as_str(), udt_name) {
            let ghost before = texts(labels@);
            labels.push(enums[i].label.clone());
            assert(texts(labels@) =~= before.push(enums@[i as int].label@));
        }
        i += 1;
    }
    assert(enums@.take(enums.len() as int) =~= enums@);
    if labels.len() == 0 {
        None
    } else {
        Some(labels)
    }
}

fn build_column(row: &ColumnRow, enums: &Vec<EnumLabel>) -> (r: ColumnInfo)
    ensures
        r@ == column_of(*row, enums@),
{
    let foreign_key_info = match &row.fk_constraint {
        Some(c) => Some(
            ForeignKeyInfo {
                constraint_name: c.clone(),
                referenced_schema: clone_or_empty(&row.fk_ref_schema),
                referenced_table: clone_or_empty(&row.fk_ref_table),
                referenced_column: clone_or_empty(&row.fk_ref_column),
            },
        ),
        None => None,
    };
    let is_foreign_key = foreign_key_info.is_some();
    ColumnInfo {
        name: row.name.clone(),
        data_type: row.data_type.clone(),
        udt_name: row.udt_name.clone(),
        is_nullable: row.is_nullable,
        is_primary_key: row.is_primary_key,
        is_unique: row.is_unique,
        is_foreign_key,
        default_value: clone_optional(&row.default_value),
        character_maximum_length: row.character_maximum_length,
        numeric_precision: row.numeric_precision,
        numeric_scale: row.numeric_scale,
        ordinal_position: row.ordinal_position as i32,
        description: clone_optional(&row.description),
        foreign_key_info,
        enum_values: enum_values_for(enums, row.udt_name.as_str()),
    }
}

// ---------------------------------------------------------------------------
// Columns under tables
// ---------------------------------------------------------------------------

/// Two rows belong to one table.
pub open spec fn same_table(a: TableColumnRow, b: TableColumnRow) -> bool {
    a.schema_name@ == b.schema_name@ && a.table_name@ == b.table_name@
}

/// The rows in runs of one table each: the positions of the rows, a new run
/// wherever a row belongs to another table than the row before it.
pub open spec fn table_runs(rows: Seq<TableColumnRow>) -> Seq<Seq<int>>
    decreases rows.len(),
{
    if rows.len() == 0 {
        Seq::empty()
    } else {
        let before = table_runs(rows.drop_last());
        let at = rows.len() - 1;
        if at > 0 && same_table(rows[at - 1], rows[at]) {
            before.drop_last().push(before.last().push(at))
        } else {
            before.push(seq![at])
        }
    }
}

/// `info` is the table of the run `run` of `rows`: it has the schema and the
/// table of the run's first row, and one column per row of the run.
pub open spec fn is_table_of_run(
    info: TableColumnsInfo,
    rows: Seq<TableColumnRow>,
    run: Seq<int>,
    enums: Seq<EnumLabel>,
) -> bool {
    &&& run.len() > 0
    &&& info.schema@ == rows[run[0]].schema_name@
    &&& info.table@ == rows[run[0]].table_name@
    &&& info.columns@.len() == run.len()
    &&& forall|k: int|
        0 <= k < run.len() ==> (#[trigger] info.columns@[k])@ == column_of(
            rows[run[k]].column,
            enums,
        )
}

/// `tables` are the tables of the runs of `rows`, in order.
pub open spec fn are_tables_of(
    tables: Seq<TableColumnsInfo>,
    rows: Seq<TableColumnRow>,
    enums: Seq<EnumLabel>,
) -> bool {
    &&& tables.len() == table_runs(rows).len()
    &&& forall|b: int|
        0 <= b < tables.len() ==> is_table_of_run(
            #[trigger] tables[b],
            rows,
            table_runs(rows)[b],
            enums,
        )
}

/// Every run holds a row at least, its rows follow one another, and the
/// runs together hold every row once, in order.
pub proof fn lemma_table_runs(rows: Seq<TableColumnRow>)
    ensures
        rows.len() > 0 ==> table_runs(rows).len() > 0 && table_runs(rows).last().len() > 0
            && table_runs(rows).last().last() == rows.len() - 1,
        rows.len() == 0 ==> table_runs(rows).len() == 0,
        forall|b: int|
            0 <= b < table_runs(rows).len() ==> (#[trigger] table_runs(rows)[b]).len() > 0,
        forall|b: int, k: int|
            0 <= b < table_runs(rows).len() && 0 <= k < table_runs(rows)[b].len() ==> 0 <= (
            #[trigger] table_runs(rows)[b][k]) < rows.len(),
    decreases rows.len(),
{
    if rows.len() > 0 {
        let shorter = rows.drop_last();
        lemma_table_runs(shorter);
        let before = table_runs(shorter);
        let at = rows.len() - 1;
        let runs = table_runs(rows);
        if at > 0 && same_table(rows[at - 1], rows[at]) {
            assert(runs == before.drop_last().push(before.last().push(at)));
            assert forall|b: int| 0 <= b < runs.len() implies (#[trigger] runs[b]).len() > 0 by {
                if b < runs.len() - 1 {
                    assert(runs[b] == before[b]);
                }
            }
            assert forall|b: int, k: int|
                0 <= b < runs.len() && 0 <= k < runs[b].len() implies 0 <= (
            #[trigger] runs[b][k]) < rows.len() by {
                if b < runs.len() - 1 {
                    assert(runs[b] == before[b]);
                    assert(0 <= before[b][k] < shorter.len());
                } else if k < before.last().len() {
                    assert(runs[b][k] == before.last()[k]);
                    assert(0 <= before[before.len() - 1][k] < shorter.len());
                }
            }
        } else {
            assert(runs == before.push(seq![at]));
            assert forall|b: int| 0 <= b < runs.len() implies (#[trigger] runs[b]).len() > 0 by {
                if b < runs.len() - 1 {
                    assert(runs[b] == before[b]);
                }
            }
            assert forall|b: int, k: int|
                0 <= b < runs.len() && 0 <= k < runs[b].len() implies 0 <= (
            #[trigger] runs[b][k]) < rows.len() by {
                if b < runs.len() - 1 {
                    assert(runs[b] == before[b]);
                    assert(0 <= before[b][k] < shorter.len());
                }
            }
        }
    }
}

// ---------------------------------------------------------------------------
// Tables under schemas
// ---------------------------------------------------------------------------

/// `sorted` with `t` put behind the last table whose name does not sort
/// after that of `t`.
pub open spec fn insert_by_name(sorted: Seq<TableModel>, t: TableModel) -> Seq<TableModel>
    decreases sorted.len(),
{
    if sorted.len() == 0 {
        seq![t]
    } else if text_lt(t.name, sorted[0].name) {
        seq![t] + sorted
    } else {
        seq![sorted[0]] + insert_by_name(sorted.drop_first(), t)
    }
}

/// The tables of the schema `name` among the rows of the tables query, by
/// name; tables of one name keep their order.
pub open spec fn tables_in(rows: Seq<TableRow>, name: Seq<char>) -> Seq<TableModel>
    decreases rows.len(),
{
    if rows.len() == 0 {
        Seq::empty()
    } else if rows.last().schema@ == name {
        insert_by_name(tables_in(rows.drop_last(), name), table_of(rows.last()))
    } else {
        tables_in(rows.drop_last(), name)
    }
}

/// `tables` with the materialized views of the schema `name` put in, by
/// name.
pub open spec fn with_views_in(
    tables: Seq<TableModel>,
    views: Seq<MaterializedViewRow>,
    name: Seq<char>,
) -> Seq<TableModel>
    decreases views.len(),
{
    if views.len() == 0 {
        tables
    } else if views.last().schema@ == name {
        insert_by_name(with_views_in(tables, views.drop_last(), name), view_of(views.last()))
    } else {
        with_views_in(tables, views.drop_last(), name)
    }
}

/// The relations of the schema `name`: its tables, views and foreign
/// tables, then its materialized views, all by name.
pub open spec fn relations_in(
    rows: Seq<TableRow>,
    views: Seq<MaterializedViewRow>,
    name: Seq<char>,
) -> Seq<TableModel> {
    with_views_in(tables_in(rows, name), views, name)
}

/// No table's name sorts after that of the table behind it.
pub open spec fn is_by_name(tables: Seq<TableModel>) -> bool {
    forall|i: int, j: int|
        0 <= i < j < tables.len() ==> !text_lt(
            (#[trigger] tables[j]).name,
            (#[trigger] tables[i]).name,
        )
}

/// Inserting at the place before the tables whose names sort after.
pub proof fn lemma_insert_by_name(sorted: Seq<TableModel>, t: TableModel, at: int)
    requires
        0 <= at <= sorted.len(),
        forall|k: int| 0 <= k < at ==> !text_lt(t.name, (#[trigger] sorted[k]).name),
        at < sorted.len() ==> text_lt(t.name, sorted[at].name),
    ensures
        insert_by_name(sorted, t) == sorted.insert(at, t),
    decreases sorted.len(),
{
    if sorted.len() == 0 {
        assert(sorted.insert(0, t) =~= seq![t]);
    } else if at == 0 {
        assert(sorted.insert(0, t) =~= seq![t] + sorted);
    } else {
        assert(!text_lt(t.name, sorted[0].name));
        let rest = sorted.drop_first();
        assert forall|k: int| 0 <= k < at - 1 implies !text_lt(
            t.name,
            (#[trigger] rest[k]).name,
        ) by {
            assert(rest[k] == sorted[k + 1]);
        }
        lemma_insert_by_name(rest, t, at - 1);
        assert(sorted.insert(at, t) =~= seq![sorted[0]] + rest.insert(at - 1, t));
    }
}

/// Inserting a table keeps the order and adds exactly that table.
pub proof fn lemma_insert_by_name_sorted(sorted: Seq<TableModel>, t: TableModel)
    requires
        is_by_name(sorted),
    ensures
        is_by_name(insert_by_name(sorted, t)),
        insert_by_name(sorted, t).to_multiset() == sorted.to_multiset().insert(t),
    decreases sorted.len(),
{
    broadcast use vstd::seq_lib::group_to_multiset_ensures;

    let out = insert_by_name(sorted, t);
    if sorted.len() == 0 {
        assert(sorted =~= Seq::<TableModel>::empty());
        assert(out =~= Seq::<TableModel>::empty().push(t));
    } else if text_lt(t.name, sorted[0].name) {
        assert(out =~= seq![t] + sorted);
        assert forall|i: int, j: int| 0 <= i < j < out.len() implies !text_lt(
            (#[trigger] out[j]).name,
            (#[trigger] out[i]).name,
        ) by {
            if i == 0 {
                let x = sorted[j - 1];
                assert(out[j] == x);
                if text_lt(x.name, t.name) {
                    // then x would sort before the first table
                    crate::text::lemma_text_lt_transitive(x.name, t.name, sorted[0].name);
                    crate::text::lemma_text_lt_irreflexive(x.name);
                }
            } else {
                assert(out[i] == sorted[i - 1]);
                assert(out[j] == sorted[j - 1]);
            }
        }
        assert(seq![t] =~= Seq::<TableModel>::empty().push(t));
        vstd::seq_lib::lemma_multiset_commutative(seq![t], sorted);
        assert(out.to_multiset() =~= sorted.to_multiset().insert(t));
    } else {
        let rest = sorted.drop_first();
        assert forall|i: int, j: int| 0 <= i < j < rest.len() implies !text_lt(
            (#[trigger] rest[j]).name,
            (#[trigger] rest[i]).name,
        ) by {
            assert(rest[i] == sorted[i + 1]);
            assert(rest[j] == sorted[j + 1]);
        }
        lemma_insert_by_name_sorted(rest, t);
        let tail = insert_by_name(rest, t);
        assert(out =~= seq![sorted[0]] + tail);
        // every table of the tail is the new one or one of the rest
        assert forall|i: int, j: int| 0 <= i < j < out.len() implies !text_lt(
            (#[trigger] out[j]).name,
            (#[trigger] out[i]).name,
        ) by {
            if i == 0 {
                let x = tail[j - 1];
                assert(out[j] == x);
                assert(tail.to_multiset().count(x) > 0) by {
                    assert(tail.contains(x));
                }
                if x != t {
                    assert(rest.to_multiset().count(x) > 0);
                    assert(rest.contains(x));
                    let k = choose|k: int| 0 <= k < rest.len() && rest[k] == x;
                    assert(sorted[k + 1] == x);
                }
            } else {
                assert(out[i] == tail[i - 1]);
                assert(out[j] == tail[j - 1]);
            }
        }
        assert(sorted =~= seq![sorted[0]] + rest);
        assert(seq![sorted[0]] =~= Seq::<TableModel>::empty().push(sorted[0]));
        vstd::seq_lib::lemma_multiset_commutative(seq![sorted[0]], tail);
        vstd::seq_lib::lemma_multiset_commutative(seq![sorted[0]], rest);
        assert(out.to_multiset() =~= sorted.to_multiset().insert(t));
    }
}

/// The tables of a schema come by name.
pub proof fn lemma_tables_in_by_name(rows: Seq<TableRow>, name: Seq<char>)
    ensures
        is_by_name(tables_in(rows, name)),
    decreases rows.len(),
{
    if rows.len() > 0 {
        lemma_tables_in_by_name(rows.drop_last(), name);
        if rows.last().schema@ == name {
            lemma_insert_by_name_sorted(tables_in(rows.drop_last(), name), table_of(rows.last()));
        }
    }
}

/// Putting the materialized views in keeps the order by name.
pub proof fn lemma_with_views_by_name(
    tables: Seq<TableModel>,
    views: Seq<MaterializedViewRow>,
    name: Seq<char>,
)
    requires
        is_by_name(tables),
    ensures
        is_by_name(with_views_in(tables, views, name)),
    decreases views.len(),
{
    if views.len() > 0 {
        lemma_with_views_by_name(tables, views.drop_last(), name);
        if views.last().schema@ == name {
            lemma_insert_by_name_sorted(
                with_views_in(tables, views.drop_last(), name),
                view_of(views.last()),
            );
        }
    }
}

/// The relations of a schema come in alphabetic order: no relation's name
/// sorts after that of the relation behind it.
pub proof fn lemma_relations_by_name(
    rows: Seq<TableRow>,
    views: Seq<MaterializedViewRow>,
    name: Seq<char>,
)
    ensures
        is_by_name(relations_in(rows, views, name)),
{
    lemma_tables_in_by_name(rows, name);
    lemma_with_views_by_name(tables_in(rows, name), views, name);
}

fn insert_table(sorted: &mut Vec<TableInfo>, t: TableInfo)
    ensures
        table_models(final(sorted)@) == insert_by_name(table_models(old(sorted)@), t@),
{
    let mut at: usize = 0;
    while at < sorted.len() && !text_less(t.name.as_str(), sorted[at].name.as_str())
        invariant
            at <= sorted.len(),
            forall|k: int|
                0 <= k < at ==> !text_lt(t@.name, (#[trigger] table_models(sorted@)[k]).name),
        decreases sorted.len() - at,
    {
        assert(table_models(sorted@)[at as int] == sorted@[at as int]@);
        at += 1;
    }
    proof {
        let s = table_models(sorted@);
        if at < sorted.len() {
            assert(s[at as int] == sorted@[at as int]@);
        }
        lemma_insert_by_name(s, t@, at as int);
    }
    let ghost before = table_models(sorted@);
    sorted.insert(at, t);
    assert(table_models(sorted@) =~= before.insert(at as int, t@));
}

impl SchemaIntrospector {
    /// The statement that counts the rows of a table, with both names
    /// quoted.
    pub fn get_row_count(schema: &str, table: &str) -> (r: String)
        ensures
            r@ == "SELECT COUNT(*) FROM "@ + qualified_name(schema@, table@),
    {
        let name = qualify(schema, table);
        let mut out = "SELECT COUNT(*) FROM ".to_owned();
        out.append(name.as_str());
        out
    }

    /// The tables of the rows of the tables query, in the order of the rows.
    pub fn get_tables(rows: &Vec<TableRow>) -> (r: Vec<TableInfo>)
        ensures
            table_models(r@) == Seq::new(rows@.len(), |i: int| table_of(rows@[i])),
    {
        let mut tables: Vec<TableInfo> = Vec::new();
        let mut i: usize = 0;
        while i < rows.len()
            invariant
                i <= rows.len(),
                tables.len() == i,
                forall|k: int| 0 <= k < i ==> (#[trigger] tables@[k])@ == table_of(rows@[k]),
            decreases rows.len() - i,
        {
            let row = &rows[i];
            tables.push(
                TableInfo {
                    schema: row.schema.clone(),
                    name: row.name.clone(),
                    table_type: TableType::from_name(row.kind.as_str()),
                    estimated_row_count: row.estimated_row_count,
                    description: clone_optional(&row.description),
                },
            );
            i += 1;
        }
        assert(table_models(tables@) =~= Seq::new(rows@.len(), |i: int| table_of(rows@[i])));
        tables
    }

    /// The columns of the rows of the columns query, in the order of the
    /// rows. A column has the labels of its base type where that is an enum
    /// type, and its foreign key where it has one.
    pub fn get_columns(rows: &Vec<ColumnRow>, enums: &Vec<EnumLabel>) -> (r: Vec<ColumnInfo>)
        ensures
            column_models(r@) == Seq::new(rows@.len(), |i: int| column_of(rows@[i], enums@)),
    {
        let mut columns: Vec<ColumnInfo> = Vec::new();
        let mut i: usize = 0;
        while i < rows.len()
            invariant
                i <= rows.len(),
                columns.len() == i,
                forall|k: int|
                    0 <= k < i ==> (#[trigger] columns@[k])@ == column_of(rows@[k], enums@),
            decreases rows.len() - i,
        {
            columns.push(build_column(&rows[i], enums));
            i += 1;
        }
        assert(column_models(columns@) =~= Seq::new(
            rows@.len(),
            |i: int| column_of(rows@[i], enums@),
        ));
        columns
    }

    /// The columns of the rows of the columns query over several schemas,
    /// grouped under their tables: a new table begins wherever a row belongs
    /// to another table than the row before it.
    pub fn get_all_columns(rows: &Vec<TableColumnRow>, enums: &Vec<EnumLabel>) -> (r: Vec<
        TableColumnsInfo,
    >)
        ensures
            are_tables_of(r@, rows@, enums@),
    {
        let mut tables: Vec<TableColumnsInfo> = Vec::new();
        let mut i: usize = 0;
        while i < rows.len()
            invariant
                i <= rows.len(),
                are_tables_of(tables@, rows@.take(i as int), enums@),
            decreases rows.len() - i,
        {
            let row = &rows[i];
            let col = build_column(&row.column, enums);
            let ghost part = rows@.take(i as int);
            let ghost next = rows@.take(i + 1);
            let ghost before = table_runs(part);
            let ghost old_tables = tables@;
            proof {
                assert(next.drop_last() =~= part);
                assert(next[i as int] == rows@[i as int]);
                lemma_table_runs(part);
                if i > 0 {
                    assert(next[i - 1] == rows@[i - 1]);
                }
            }
            let same = i > 0 && text_eq(rows[i - 1].schema_name.as_str(), row.schema_name.as_str())
                && text_eq(rows[i - 1].table_name.as_str(), row.table_name.as_str());
            if same {
                let last: usize = tables.len() - 1;
                let mut table = tables.remove(last);
                let ghost old_columns = table.columns@;
                table.columns.push(col);
                tables.push(table);
                proof {
                    let runs = table_runs(next);
                    assert(runs == before.drop_last().push(before.last().push(i as int)));
                    assert(tables@.len() == runs.len());
                    assert forall|b: int| 0 <= b < tables@.len() implies is_table_of_run(
                        #[trigger] tables@[b],
                        next,
                        runs[b],
                        enums@,
                    ) by {
                        if b < tables@.len() - 1 {
                            assert(tables@[b] == old_tables[b]);
                            assert(runs[b] == before[b]);
                            assert(is_table_of_run(old_tables[b], part, before[b], enums@));
                            assert forall|k: int| 0 <= k < runs[b].len() implies next[runs[b][k]]
                                == part[runs[b][k]] by {
                                assert(0 <= before[b][k] < part.len());
                            }
                            assert(0 <= before[b][0] < part.len());
                        } else {
                            let t = tables@[b];
                            let run = runs[b];
                            let old_run = before.last();
                            assert(is_table_of_run(
                                old_tables[old_tables.len() - 1],
                                part,
                                old_run,
                                enums@,
                            ));
                            assert(run == old_run.push(i as int));
                            assert(0 <= before[before.len() - 1][0] < part.len());
                            assert(run[0] == old_run[0]);
                            assert forall|k: int| 0 <= k < run.len() implies (
                            #[trigger] t.columns@[k])@ == column_of(
                                next[run[k]].column,
                                enums@,
                            ) by {
                                if k < old_run.len() {
                                    assert(t.columns@[k] == old_columns[k]);
                                    assert(0 <= before[before.len() - 1][k] < part.len());
                                    assert(next[run[k]] == part[old_run[k]]);
                                }
                            }
                        }
                    }
                }
            } else {
                let mut columns: Vec<ColumnInfo> = Vec::new();
                columns.push(col);
                tables.push(
                    TableColumnsInfo {
                        schema: row.schema_name.clone(),
                        table: row.table_name.clone(),
                        columns,
                    },
                );
                proof {
                    let runs = table_runs(next);
                    assert(runs == before.push(seq![i as int]));
                    assert forall|b: int| 0 <= b < tables@.len() implies is_table_of_run(
                        #[trigger] tables@[b],
                        next,
                        runs[b],
                        enums@,
                    ) by {
                        if b < tables@.len() - 1 {
                            assert(tables@[b] == old_tables[b]);
                            assert(runs[b] == before[b]);
                            assert(is_table_of_run(old_tables[b], part, before[b], enums@));
                            assert forall|k: int| 0 <= k < runs[b].len() implies next[runs[b][k]]
                                == part[runs[b][k]] by {
                                assert(0 <= before[b][k] < part.len());
                            }
                            assert(0 <= before[b][0] < part.len());
                        }
                    }
                }
            }
            i += 1;
        }
        assert(rows@.take(rows.len() as int) =~= rows@);
        tables
    }

    /// The constraints of the rows of the constraints query, in the order of
    /// the rows.
    pub fn get_constraints(rows: Vec<ConstraintRow>) -> (r: Vec<ConstraintInfo>)
        ensures
            r@.len() == rows@.len(),
            forall|i: int|
                0 <= i < r@.len() ==> {
                    &&& (#[trigger] r@[i]).name@ == rows@[i].name@
                    &&& r@[i].constraint_type == constraint_type_of(rows@[i].kind@)
                    &&& texts(r@[i].columns@) == texts(rows@[i].columns@)
                    &&& optional_text(r@[i].definition) == optional_text(rows@[i].definition)
                },
    {
        let ghost all = rows@;
        let mut rest = rows;
        let mut out: Vec<ConstraintInfo> = Vec::new();
        while rest.len() > 0
            invariant
                out@.len() + rest@.len() == all.len(),
                forall|k: int| 0 <= k < rest@.len() ==> rest@[k] == all[out@.len() + k],
                forall|i: int|
                    0 <= i < out@.len() ==> {
                        &&& (#[trigger] out@[i]).name@ == all[i].name@
                        &&& out@[i].constraint_type == constraint_type_of(all[i].kind@)
                        &&& texts(out@[i].columns@) == texts(all[i].columns@)
                        &&& optional_text(out@[i].definition) == optional_text(all[i].definition)
                    },
            decreases rest.len(),
        {
            let row = rest.remove(0);
            let kind = ConstraintType::from_name(row.kind.as_str());
            out.push(
                ConstraintInfo {
                    name: row.name,
                    constraint_type: kind,
                    columns: row.columns,
                    definition: row.definition,
                },
            );
        }
        out
    }

    /// The schemas with their relations: under each schema its tables,
    /// views and foreign tables and its materialized views, by name. (The
    /// names of the schemas of a catalog are distinct.)
    pub fn get_schemas_with_tables(
        schemas: &Vec<SchemaInfo>,
        tables: &Vec<TableRow>,
        materialized_views: &Vec<MaterializedViewRow>,
    ) -> (r: Vec<SchemaWithTables>)
        ensures
            r@.len() == schemas@.len(),
            forall|i: int|
                0 <= i < r@.len() ==> {
                    &&& (#[trigger] r@[i]).name@ == schemas@[i].name@
                    &&& optional_text(r@[i].owner) == optional_text(schemas@[i].owner)
                    &&& table_models(r@[i].tables@) == relations_in(
                        tables@,
                        materialized_views@,
                        schemas@[i].name@,
                    )
                },
    {
        let mut out: Vec<SchemaWithTables> = Vec::new();
        let mut s: usize = 0;
        while s < schemas.len()
            invariant
                s <= schemas.len(),
                out@.len() == s,
                forall|i: int|
                    0 <= i < s ==> {
                        &&& (#[trigger] out@[i]).name@ == schemas@[i].name@
                        &&& optional_text(out@[i].owner) == optional_text(schemas@[i].owner)
                        &&& table_models(out@[i].tables@) == relations_in(
                            tables@,
                            materialized_views@,
                            schemas@[i].name@,
                        )
                    },
            decreases schemas.len() - s,
        {
            let schema = &schemas[s];
            let name = schema.name.as_str();
            let mut sorted: Vec<TableInfo> = Vec::new();
            let mut i: usize = 0;
            assert(table_models(sorted@) =~= tables_in(tables@.take(0), name@));
            while i < tables.len()
                invariant
                    i <= tables.len(),
                    table_models(sorted@) == tables_in(tables@.take(i as int), name@),
                decreases tables.len() - i,
            {
                let row = &tables[i];
                proof {
                    assert(tables@.take(i + 1).drop_last() =~= tables@.take(i as int));
                    assert(tables@.take(i + 1).last() == tables@[i as int]);
                }
                if text_eq(row.schema.as_str(), name) {
                    let info = TableInfo {
                        schema: row.schema.clone(),
                        name: row.name.clone(),
                        table_type: TableType::from_name(row.kind.as_str()),
                        estimated_row_count: row.estimated_row_count,
                        description: clone_optional(&row.description),
                    };
                    insert_table(&mut sorted, info);
                }
                i += 1;
            }
            assert(tables@.take(tables.len() as int) =~= tables@);
            let ghost base = tables_in(tables@, name@);
            let mut j: usize = 0;
            assert(materialized_views@.take(0) =~= Seq::<MaterializedViewRow>::empty());
            while j < materialized_views.len()
                invariant
                    j <= materialized_views.len(),
                    table_models(sorted@) == with_views_in(
                        base,
                        materialized_views@.take(j as int),
                        name@,
                    ),
                decreases materialized_views.len() - j,
            {
                let row = &materialized_views[j];
                proof {
                    assert(materialized_views@.take(j + 1).drop_last()
                        =~= materialized_views@.take(j as int));
                    assert(materialized_views@.take(j + 1).last() == materialized_views@[j as int]);
                }
                if text_eq(row.schema.as_str(), name) {
                    let info = TableInfo {
                        schema: row.schema.clone(),
                        name: row.name.clone(),
                        table_type: TableType::MaterializedView,
                        estimated_row_count: row.estimated_row_count,
                        description: clone_optional(&row.description),
                    };
                    insert_table(&mut sorted, info);
                }
                j += 1;
            }
            assert(materialized_views@.take(materialized_views.len() as int)
                =~= materialized_views@);
            out.push(
                SchemaWithTables {
                    name: schema.name.clone(),
                    owner: clone_optional(&schema.owner),
                    tables: sorted,
                },
            );
            s += 1;
        }
        out
    }
}

} // verus!
