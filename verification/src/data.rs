//! The data-operations layer: the statements for paginated reads, single and
//! bulk writes and raw SQL, and the results made of what the server returns.
//!
//! Nothing here talks to a server. Each operation renders its statement from
//! the request; the caller runs it and hands the rows or the count back.

use vstd::prelude::*;
use crate::error::DbViewerError;
use crate::filter::{build_where_clause, where_clause_sql, FilterCondition};
use crate::json::{object_models, value_of, EntryModel, JsonEntry, JsonObject};
use crate::rows::{column_metas, row_objects, rows_to_json, ColumnMeta, SqlRow};
use crate::sql::{
    json_value_to_sql, qualified_name, qualify, quote_identifier, quoted_identifier, sql_value,
};
use crate::text::{
    decimal, has_prefix, int_to_decimal, is_blank, join, joined, starts_with, text_eq, texts, trim,
    trimmed,
};
use crate::trusted::{to_uppercase, uppercased};

verus! {

/// The page size used where the request names none.
pub const DEFAULT_PAGE_SIZE: i64 = 50;

/// One page of a table.
#[derive(Debug)]
pub struct PaginatedResult {
    pub rows: Vec<JsonObject>,
    pub total_count: i64,
    pub page: i64,
    pub page_size: i64,
    pub total_pages: i64,
    pub columns: Vec<ColumnMeta>,
}

/// The outcome of a raw statement.
#[derive(Debug)]
pub struct QueryResult {
    pub rows: Vec<JsonObject>,
    pub columns: Vec<ColumnMeta>,
    pub rows_affected: u64,
    pub execution_time_ms: u128,
}

#[derive(Debug)]
pub struct InsertRequest {
    pub schema: String,
    pub table: String,
    pub data: JsonObject,
}

#[derive(Debug)]
pub struct BulkInsertRequest {
    pub schema: String,
    pub table: String,
    pub rows: Vec<JsonObject>,
}

#[derive(Debug)]
pub struct UpdateRequest {
    pub schema: String,
    pub table: String,
    pub data: JsonObject,
    pub where_clause: JsonObject,
}

#[derive(Debug)]
pub struct DeleteRequest {
    pub schema: String,
    pub table: String,
    pub where_clause: JsonObject,
}

/// The two statements of a paginated read, with the page they are for.
#[derive(Debug)]
pub struct PageQuery {
    /// Counts the rows the filters let through.
    pub count_sql: String,
    /// Selects the rows of the page.
    pub data_sql: String,
    pub page: i64,
    pub page_size: i64,
}

/// A raw statement, trimmed, and whether it returns rows.
#[derive(Debug)]
pub struct RawQuery {
    pub sql: String,
    pub returns_rows: bool,
}

pub struct DataOperations;

// ---------------------------------------------------------------------------
// Paging arithmetic
// ---------------------------------------------------------------------------

/// The absolute value.
pub open spec fn magnitude(n: int) -> int {
    if n < 0 {
        -n
    } else {
        n
    }
}

/// The quotient `total / size` rounded up to an integer, for `size != 0`: a
/// quotient that is not negative has its magnitude rounded up, a negative one
/// has it rounded down.
pub open spec fn ceil_quotient(total: int, size: int) -> int {
    let a = magnitude(total);
    let b = magnitude(size);
    if total == 0 || (total > 0) == (size > 0) {
        a / b + (if a % b > 0 {
            1int
        } else {
            0int
        })
    } else {
        -(a / b)
    }
}

/// `n` brought into the range of `i64`.
pub open spec fn saturated(n: int) -> int {
    if n > i64::MAX {
        i64::MAX as int
    } else if n < i64::MIN {
        i64::MIN as int
    } else {
        n
    }
}

/// The number of pages: the row count divided by the page size, rounded up.
/// With a page size of zero the quotient is infinite, and the count is the
/// largest or smallest number there is, or zero where there are no rows.
pub open spec fn total_pages_of(total_count: int, page_size: int) -> int {
    if page_size == 0 {
        if total_count > 0 {
            i64::MAX as int
        } else if total_count < 0 {
            i64::MIN as int
        } else {
            0
        }
    } else {
        saturated(ceil_quotient(total_count, page_size))
    }
}

/// `ceil_quotient` is the ceiling: the least integer that is not below the
/// quotient.
pub proof fn lemma_ceil_quotient(total: int, size: int)
    requires
        size != 0,
    ensures
        size > 0 ==> (ceil_quotient(total, size) - 1) * size < total <= ceil_quotient(total, size)
            * size,
        size < 0 ==> ceil_quotient(total, size) * size <= total < (ceil_quotient(total, size) - 1)
            * size,
{
    let a = magnitude(total);
    let b = magnitude(size);
    let q = a / b;
    let r = a % b;
    assert(a == q * b + r && 0 <= r < b) by (nonlinear_arith)
        requires
            q == a / b,
            r == a % b,
            b > 0,
            a >= 0,
    ;
    let n = ceil_quotient(total, size);
    if total == 0 || (total > 0) == (size > 0) {
        // total and size agree in sign: total / size == a / b
        let up: int = if r > 0 {
            1
        } else {
            0
        };
        assert(n == q + up);
        assert((q + up) * b == q * b + up * b) by (nonlinear_arith);
        assert((q + up - 1) * b == q * b + up * b - b) by (nonlinear_arith);
        assert(up * b == (if r > 0 {
            b
        } else {
            0
        })) by (nonlinear_arith)
            requires
                up == (if r > 0 {
                    1int
                } else {
                    0int
                }),
        ;
        if size > 0 {
            assert(size == b);
            assert(total == a);
        } else {
            assert(size == -b);
            assert(total == -a);
            assert(n * size == -(n * b)) by (nonlinear_arith)
                requires
                    size == -b,
            ;
            assert((n - 1) * size == -((n - 1) * b)) by (nonlinear_arith)
                requires
                    size == -b,
            ;
        }
    } else {
        assert(n == -q);
        assert((-q) * b == -(q * b)) by (nonlinear_arith);
        assert((-q - 1) * b == -(q * b) - b) by (nonlinear_arith);
        if size > 0 {
            assert(size == b);
            assert(total == -a);
        } else {
            assert(size == -b);
            assert(total == a);
            assert(n * size == -(n * b)) by (nonlinear_arith)
                requires
                    size == -b,
            ;
            assert((n - 1) * size == -((n - 1) * b)) by (nonlinear_arith)
                requires
                    size == -b,
            ;
        }
    }
}

/// The number of pages that `total_count` rows make at `page_size` rows a page.
pub fn total_pages(total_count: i64, page_size: i64) -> (r: i64)
    ensures
        r == total_pages_of(total_count as int, page_size as int),
{
    if page_size == 0 {
        return if total_count > 0 {
            i64::MAX
        } else if total_count < 0 {
            i64::MIN
        } else {
            0
        };
    }
    let t: i128 = total_count as i128;
    let s: i128 = page_size as i128;
    let a: u128 = (if t < 0 {
        -t
    } else {
        t
    }) as u128;
    let b: u128 = (if s < 0 {
        -s
    } else {
        s
    }) as u128;
    let q: u128 = a / b;
    let rest: u128 = a % b;
    assert(q <= a) by (nonlinear_arith)
        requires
            q == a / b,
            b >= 1,
    ;
    let n: i128 = if total_count == 0 || (total_count > 0) == (page_size > 0) {
        if rest > 0 {
            (q + 1) as i128
        } else {
            q as i128
        }
    } else {
        -(q as i128)
    };
    if n > i64::MAX as i128 {
        i64::MAX
    } else if n < i64::MIN as i128 {
        i64::MIN
    } else {
        n as i64
    }
}

// ---------------------------------------------------------------------------
// ORDER BY
// ---------------------------------------------------------------------------

/// The keyword for a direction whose upper-case form is `upper`.
pub open spec fn direction_keyword(upper: Seq<char>) -> Seq<char> {
    if upper == "DESC"@ {
        "DESC"@
    } else {
        "ASC"@
    }
}

/// The `i`-th part of an `ORDER BY`: the quoted column and its direction,
/// ascending where the list of directions is too short.
pub open spec fn order_part(columns: Seq<String>, directions: Seq<String>, i: int) -> Seq<char> {
    quoted_identifier(columns[i]@) + " "@ + (if i < directions.len() {
        direction_keyword(uppercased(directions[i]@))
    } else {
        "ASC"@
    })
}

/// The `ORDER BY` clause for a list of columns: empty for no column.
pub open spec fn order_clause_sql(columns: Seq<String>, directions: Seq<String>) -> Seq<char> {
    if columns.len() == 0 {
        Seq::empty()
    } else {
        "ORDER BY "@ + joined(
            Seq::new(columns.len(), |i: int| order_part(columns, directions, i)),
            ", "@,
        )
    }
}

/// The list behind an optional reference, empty where there is none.
pub open spec fn list_or_empty<T>(list: Option<&Vec<T>>) -> Seq<T> {
    match list {
        Some(v) => v@,
        None => Seq::empty(),
    }
}

/// `DESC` where the upper-case form of a direction is exactly `DESC`, `ASC`
/// for anything else.
pub fn sort_keyword(upper: &str) -> (r: &'static str)
    ensures
        r@ == direction_keyword(upper@),
{
    if text_eq(upper, "DESC") {
        "DESC"
    } else {
        "ASC"
    }
}

/// Renders the `ORDER BY` clause. Each column is quoted; its direction is the
/// one at the same position, compared without regard to case.
pub fn build_order_clause(columns: &Vec<String>, directions: &Vec<String>) -> (r: String)
    ensures
        r@ == order_clause_sql(columns@, directions@),
{
    if columns.len() == 0 {
        return String::new();
    }
    let mut parts: Vec<String> = Vec::new();
    let mut i: usize = 0;
    while i < columns.len()
        invariant
            i <= columns.len(),
            parts.len() == i,
            forall|k: int| 0 <= k < i ==> parts@[k]@ == order_part(columns@, directions@, k),
        decreases columns.len() - i,
    {
        let mut part = quote_identifier(columns[i].as_str());
        part.append(" ");
        if i < directions.len() {
            let upper = to_uppercase(directions[i].as_str());
            part.append(sort_keyword(upper.as_str()));
        } else {
            part.append("ASC");
        }
        parts.push(part);
        i += 1;
    }
    assert(texts(parts@) =~= Seq::new(
        columns@.len(),
        |i: int| order_part(columns@, directions@, i),
    ));
    let body = join(&parts, ", ");
    let mut out = "ORDER BY ".to_owned();
    out.append(body.as_str());
    out
}

// ---------------------------------------------------------------------------
// The statements
// ---------------------------------------------------------------------------

/// The statement that counts the rows of a table under a `WHERE` clause.
pub open spec fn count_query_sql(schema: Seq<char>, table: Seq<char>, filter: Seq<char>) -> Seq<
    char,
> {
    "SELECT COUNT(*) FROM "@ + qualified_name(schema, table) + " "@ + filter
}

/// The statement that selects one page of a table.
pub open spec fn data_query_sql(
    schema: Seq<char>,
    table: Seq<char>,
    filter: Seq<char>,
    order: Seq<char>,
    limit: int,
    offset: int,
) -> Seq<char> {
    "SELECT * FROM "@ + qualified_name(schema, table) + " "@ + filter + " "@ + order + " LIMIT "@
        + decimal(limit) + " OFFSET "@ + decimal(offset)
}

/// The quoted keys of the members.
pub open spec fn column_list(entries: Seq<EntryModel>) -> Seq<Seq<char>> {
    Seq::new(entries.len(), |i: int| quoted_identifier(entries[i].key))
}

/// The values of the members as SQL literals.
pub open spec fn value_list(entries: Seq<EntryModel>) -> Seq<Seq<char>> {
    Seq::new(entries.len(), |i: int| sql_value(entries[i].value))
}

/// One `"key" = value` per member.
pub open spec fn assignment_list(entries: Seq<EntryModel>) -> Seq<Seq<char>> {
    Seq::new(
        entries.len(),
        |i: int| quoted_identifier(entries[i].key) + " = "@ + sql_value(entries[i].value),
    )
}

/// The `INSERT` of one row.
pub open spec fn insert_sql(schema: Seq<char>, table: Seq<char>, data: Seq<EntryModel>) -> Seq<
    char,
> {
    "INSERT INTO "@ + qualified_name(schema, table) + " ("@ + joined(column_list(data), ", "@)
        + ") VALUES ("@ + joined(value_list(data), ", "@) + ") RETURNING *"@
}

/// The values of `row` for the columns of `columns`, `NULL` for a column the
/// row does not have.
pub open spec fn tuple_values(columns: Seq<EntryModel>, row: Seq<EntryModel>) -> Seq<Seq<char>> {
    Seq::new(
        columns.len(),
        |i: int|
            match value_of(row, columns[i].key) {
                Some(v) => sql_value(v),
                None => "NULL"@,
            },
    )
}

/// One parenthesised tuple of a multi-row `INSERT`.
pub open spec fn tuple_sql(columns: Seq<EntryModel>, row: Seq<EntryModel>) -> Seq<char> {
    "("@ + joined(tuple_values(columns, row), ", "@) + ")"@
}

/// The tuples of all rows, for the columns of the first row.
pub open spec fn tuple_list(rows: Seq<Seq<EntryModel>>) -> Seq<Seq<char>> {
    Seq::new(rows.len(), |i: int| tuple_sql(rows[0], rows[i]))
}

/// The `INSERT` of several rows: the columns are those of the first row, and
/// there is one tuple per row, in order.
pub open spec fn bulk_insert_sql(schema: Seq<char>, table: Seq<char>, rows: Seq<Seq<EntryModel>>) -> Seq<
    char,
> {
    "INSERT INTO "@ + qualified_name(schema, table) + " ("@ + joined(column_list(rows[0]), ", "@)
        + ") VALUES "@ + joined(tuple_list(rows), ", "@)
}

/// The `UPDATE` of the rows that equal `filter` in each of its columns.
pub open spec fn update_sql(
    schema: Seq<char>,
    table: Seq<char>,
    data: Seq<EntryModel>,
    filter: Seq<EntryModel>,
) -> Seq<char> {
    "UPDATE "@ + qualified_name(schema, table) + " SET "@ + joined(assignment_list(data), ", "@)
        + " WHERE "@ + joined(assignment_list(filter), " AND "@)
}

/// The `DELETE` of the rows that equal `filter` in each of its columns.
pub open spec fn delete_sql(schema: Seq<char>, table: Seq<char>, filter: Seq<EntryModel>) -> Seq<
    char,
> {
    "DELETE FROM "@ + qualified_name(schema, table) + " WHERE "@ + joined(
        assignment_list(filter),
        " AND "@,
    )
}

/// The `INSERT` of several rows holds one tuple per row of the request: the
/// server, where it inserts them all, reports as many rows affected.
pub proof fn lemma_one_tuple_per_row(rows: Seq<Seq<EntryModel>>)
    ensures
        tuple_list(rows).len() == rows.len(),
{
}

/// Whether a statement whose upper-case form is `upper` returns rows.
pub open spec fn returns_rows(upper: Seq<char>) -> bool {
    has_prefix(upper, "SELECT"@) || has_prefix(upper, "WITH"@) || has_prefix(upper, "EXPLAIN"@)
        || has_prefix(upper, "SHOW"@)
}

/// The error for a request that cannot be rendered.
pub open spec fn is_invalid_query(e: DbViewerError, message: Seq<char>) -> bool {
    e matches DbViewerError::InvalidQuery(m) && m@ == message
}

fn render_columns(entries: &Vec<JsonEntry>) -> (r: String)
    ensures
        r@ == joined(column_list(crate::json::entry_models(entries@)), ", "@),
{
    let mut parts: Vec<String> = Vec::new();
    let mut i: usize = 0;
    while i < entries.len()
        invariant
            i <= entries.len(),
            parts.len() == i,
            forall|k: int| 0 <= k < i ==> parts@[k]@ == quoted_identifier(entries@[k].key@),
        decreases entries.len() - i,
    {
        parts.push(quote_identifier(entries[i].key.as_str()));
        i += 1;
    }
    assert(texts(parts@) =~= column_list(crate::json::entry_models(entries@)));
    join(&parts, ", ")
}

fn render_values(entries: &Vec<JsonEntry>) -> (r: String)
    ensures
        r@ == joined(value_list(crate::json::entry_models(entries@)), ", "@),
{
    let mut parts: Vec<String> = Vec::new();
    let mut i: usize = 0;
    while i < entries.len()
        invariant
            i <= entries.len(),
            parts.len() == i,
            forall|k: int| 0 <= k < i ==> parts@[k]@ == sql_value(entries@[k].value@),
        decreases entries.len() - i,
    {
        parts.push(json_value_to_sql(&entries[i].value));
        i += 1;
    }
    assert(texts(parts@) =~= value_list(crate::json::entry_models(entries@)));
    join(&parts, ", ")
}

fn render_assignments(entries: &Vec<JsonEntry>, separator: &str) -> (r: String)
    ensures
        r@ == joined(assignment_list(crate::json::entry_models(entries@)), separator@),
{
    let mut parts: Vec<String> = Vec::new();
    let mut i: usize = 0;
    while i < entries.len()
        invariant
            i <= entries.len(),
            parts.len() == i,
            forall|k: int|
                0 <= k < i ==> parts@[k]@ == quoted_identifier(entries@[k].key@) + " = "@
                    + sql_value(entries@[k].value@),
        decreases entries.len() - i,
    {
        let mut part = quote_identifier(entries[i].key.as_str());
        let value = json_value_to_sql(&entries[i].value);
        part.append(" = ");
        part.append(value.as_str());
        parts.push(part);
        i += 1;
    }
    assert(texts(parts@) =~= assignment_list(crate::json::entry_models(entries@)));
    join(&parts, separator)
}

fn render_tuple(columns: &Vec<JsonEntry>, row: &JsonObject) -> (r: String)
    ensures
        r@ == tuple_sql(crate::json::entry_models(columns@), row@),
{
    let mut parts: Vec<String> = Vec::new();
    let mut i: usize = 0;
    while i < columns.len()
        invariant
            i <= columns.len(),
            parts.len() == i,
            forall|k: int|
                0 <= k < i ==> parts@[k]@ == tuple_values(
                    crate::json::entry_models(columns@),
                    row@,
                )[k],
        decreases columns.len() - i,
    {
        let part = match row.get(columns[i].key.as_str()) {
            Some(v) => json_value_to_sql(v),
            None => "NULL".to_owned(),
        };
        parts.push(part);
        i += 1;
    }
    assert(texts(parts@) =~= tuple_values(crate::json::entry_models(columns@), row@));
    let body = join(&parts, ", ");
    let mut out = "(".to_owned();
    out.append(body.as_str());
    out.append(")");
    out
}

fn invalid_query(message: &str) -> (e: DbViewerError)
    ensures
        is_invalid_query(e, message@),
{
    DbViewerError::InvalidQuery(message.to_owned())
}

impl DataOperations {
    /// Renders the two statements of a paginated read.
    ///
    /// The page size is `DEFAULT_PAGE_SIZE` where none is given, the offset
    /// `(page - 1) * page_size`. Both statements carry the same `WHERE`
    /// clause; the data statement adds the `ORDER BY` clause and asks for at
    /// most `page_size` rows from the offset on.
    pub fn fetch_paginated(
        schema: &str,
        table: &str,
        page: i64,
        page_size: Option<i64>,
        order_by: Option<&Vec<String>>,
        order_direction: Option<&Vec<String>>,
        filters: Option<&Vec<FilterCondition>>,
    ) -> (q: PageQuery)
        ensures
            q.page == page,
            q.page_size == (match page_size {
                Some(s) => s,
                None => DEFAULT_PAGE_SIZE,
            }),
            q.count_sql@ == count_query_sql(
                schema@,
                table@,
                where_clause_sql(list_or_empty(filters)),
            ),
            q.data_sql@ == data_query_sql(
                schema@,
                table@,
                where_clause_sql(list_or_empty(filters)),
                order_clause_sql(list_or_empty(order_by), list_or_empty(order_direction)),
                q.page_size as int,
                (page - 1) * q.page_size,
            ),
    {
        let size: i64 = match page_size {
            Some(s) => s,
            None => DEFAULT_PAGE_SIZE,
        };
        let before: i128 = page as i128 - 1;
        let width: i128 = size as i128;
        assert(-0x4000_0000_0000_0000_8000_0000_0000_0000 <= before * width
            <= 0x4000_0000_0000_0000_8000_0000_0000_0000) by (nonlinear_arith)
            requires
                -0x8000_0000_0000_0001 <= before <= 0x7FFF_FFFF_FFFF_FFFE,
                -0x8000_0000_0000_0000 <= width <= 0x7FFF_FFFF_FFFF_FFFF,
        ;
        let offset: i128 = before * width;
        let order_clause = match order_by {
            Some(columns) => {
                let none: Vec<String> = Vec::new();
                let directions = match order_direction {
                    Some(d) => d,
                    None => &none,
                };
                build_order_clause(columns, directions)
            },
            None => String::new(),
        };
        let where_clause = match filters {
            Some(f) => build_where_clause(f),
            None => String::new(),
        };
        let name = qualify(schema, table);

        let mut count_sql = "SELECT COUNT(*) FROM ".to_owned();
        count_sql.append(name.as_str());
        count_sql.append(" ");
        count_sql.append(where_clause.as_str());

        let limit = int_to_decimal(size as i128);
        let skip = int_to_decimal(offset);
        let mut data_sql = "SELECT * FROM ".to_owned();
        data_sql.append(name.as_str());
        data_sql.append(" ");
        data_sql.append(where_clause.as_str());
        data_sql.append(" ");
        data_sql.append(order_clause.as_str());
        data_sql.append(" LIMIT ");
        data_sql.append(limit.as_str());
        data_sql.append(" OFFSET ");
        data_sql.append(skip.as_str());

        PageQuery { count_sql, data_sql, page, page_size: size }
    }

    /// Makes the page of what the two statements returned: the rows as JSON
    /// objects with their columns, the count, and the number of pages, which
    /// is the count divided by the page size, rounded up.
    pub fn page_result(query: &PageQuery, total_count: i64, rows: &Vec<SqlRow>) -> (r:
        PaginatedResult)
        ensures
            r.page == query.page,
            r.page_size == query.page_size,
            r.total_count == total_count,
            r.total_pages == total_pages_of(total_count as int, query.page_size as int),
            object_models(r.rows@) == row_objects(rows@),
            rows@.len() == 0 ==> r.columns@.len() == 0,
            rows@.len() > 0 ==> column_metas(rows@[0].cells@, r.columns@),
    {
        let (objects, columns) = rows_to_json(rows);
        PaginatedResult {
            rows: objects,
            total_count,
            page: query.page,
            page_size: query.page_size,
            total_pages: total_pages(total_count, query.page_size),
            columns,
        }
    }

    /// Renders the `INSERT ... RETURNING *` of one row. A row without
    /// columns is refused.
    pub fn insert_row(request: &InsertRequest) -> (r: Result<String, DbViewerError>)
        ensures
            match r {
                Ok(sql) => request.data@.len() > 0 && sql@ == insert_sql(
                    request.schema@,
                    request.table@,
                    request.data@,
                ),
                Err(e) => request.data@.len() == 0 && is_invalid_query(
                    e,
                    "No data provided for insert"@,
                ),
            },
    {
        if request.data.is_empty() {
            return Err(invalid_query("No data provided for insert"));
        }
        let name = qualify(request.schema.as_str(), request.table.as_str());
        let columns = render_columns(request.data.entries());
        let values = render_values(request.data.entries());
        let mut sql = "INSERT INTO ".to_owned();
        sql.append(name.as_str());
        sql.append(" (");
        sql.append(columns.as_str());
        sql.append(") VALUES (");
        sql.append(values.as_str());
        sql.append(") RETURNING *");
        Ok(sql)
    }

    /// The inserted row as the server returned it: the first of the rows as a
    /// JSON object, the empty object where there is none.
    pub fn inserted_row(rows: &Vec<SqlRow>) -> (r: JsonObject)
        ensures
            r@ == (if rows@.len() > 0 {
                row_objects(rows@)[0]
            } else {
                Seq::empty()
            }),
    {
        let (mut objects, _columns) = rows_to_json(rows);
        let ghost models = object_models(objects@);
        assert(models.len() == objects@.len());
        assert(row_objects(rows@).len() == rows@.len());
        if objects.len() > 0 {
            assert(models[0] == objects@[0]@);
            objects.swap_remove(0)
        } else {
            JsonObject::new()
        }
    }

    /// Renders the `INSERT` of several rows, or nothing where there is no
    /// row: then no row is affected. The columns are those of the first row,
    /// in its order; a later row gives `NULL` for a column it lacks. A first
    /// row without columns is refused.
    pub fn bulk_insert(request: &BulkInsertRequest) -> (r: Result<Option<String>, DbViewerError>)
        ensures
            match r {
                Ok(None) => request.rows@.len() == 0,
                Ok(Some(sql)) => request.rows@.len() > 0 && request.rows@[0]@.len() > 0 && sql@
                    == bulk_insert_sql(
                    request.schema@,
                    request.table@,
                    object_models(request.rows@),
                ),
                Err(e) => request.rows@.len() > 0 && request.rows@[0]@.len() == 0
                    && is_invalid_query(e, "No data provided for insert"@),
            },
    {
        if request.rows.len() == 0 {
            return Ok(None);
        }
        let first = &request.rows[0];
        if first.is_empty() {
            return Err(invalid_query("No data provided for insert"));
        }
        let columns = first.entries();
        let column_text = render_columns(columns);
        let mut tuples: Vec<String> = Vec::new();
        let mut i: usize = 0;
        while i < request.rows.len()
            invariant
                i <= request.rows.len(),
                tuples.len() == i,
                request.rows@.len() > 0,
                crate::json::entry_models(columns@) == request.rows@[0]@,
                forall|k: int|
                    0 <= k < i ==> tuples@[k]@ == tuple_sql(request.rows@[0]@, request.rows@[k]@),
            decreases request.rows.len() - i,
        {
            tuples.push(render_tuple(columns, &request.rows[i]));
            i += 1;
        }
        assert(texts(tuples@) =~= tuple_list(object_models(request.rows@)));
        let tuple_text = join(&tuples, ", ");
        let name = qualify(request.schema.as_str(), request.table.as_str());
        let mut sql = "INSERT INTO ".to_owned();
        sql.append(name.as_str());
        sql.append(" (");
        sql.append(column_text.as_str());
        sql.append(") VALUES ");
        sql.append(tuple_text.as_str());
        Ok(Some(sql))
    }

    /// Renders the `UPDATE` of the rows that match every pair of the
    /// `WHERE` map. Without new values, or without a `WHERE` map, the request
    /// is refused.
    pub fn update_row(request: &UpdateRequest) -> (r: Result<String, DbViewerError>)
        ensures
            match r {
                Ok(sql) => request.data@.len() > 0 && request.where_clause@.len() > 0 && sql@
                    == update_sql(
                    request.schema@,
                    request.table@,
                    request.data@,
                    request.where_clause@,
                ),
                Err(e) => if request.data@.len() == 0 {
                    is_invalid_query(e, "No data provided for update"@)
                } else {
                    request.where_clause@.len() == 0 && is_invalid_query(
                        e,
                        "No where clause provided for update"@,
                    )
                },
            },
    {
        if request.data.is_empty() {
            return Err(invalid_query("No data provided for update"));
        }
        if request.where_clause.is_empty() {
            return Err(invalid_query("No where clause provided for update"));
        }
        let name = qualify(request.schema.as_str(), request.table.as_str());
        let set_clause = render_assignments(request.data.entries(), ", ");
        let where_clause = render_assignments(request.where_clause.entries(), " AND ");
        let mut sql = "UPDATE ".to_owned();
        sql.append(name.as_str());
        sql.append(" SET ");
        sql.append(set_clause.as_str());
        sql.append(" WHERE ");
        sql.append(where_clause.as_str());
        Ok(sql)
    }

    /// Renders the `DELETE` of the rows that match every pair of the `WHERE`
    /// map. Without a `WHERE` map the request is refused.
    pub fn delete_row(request: &DeleteRequest) -> (r: Result<String, DbViewerError>)
        ensures
            match r {
                Ok(sql) => request.where_clause@.len() > 0 && sql@ == delete_sql(
                    request.schema@,
                    request.table@,
                    request.where_clause@,
                ),
                Err(e) => request.where_clause@.len() == 0 && is_invalid_query(
                    e,
                    "No where clause provided for delete"@,
                ),
            },
    {
        if request.where_clause.is_empty() {
            return Err(invalid_query("No where clause provided for delete"));
        }
        let name = qualify(request.schema.as_str(), request.table.as_str());
        let where_clause = render_assignments(request.where_clause.entries(), " AND ");
        let mut sql = "DELETE FROM ".to_owned();
        sql.append(name.as_str());
        sql.append(" WHERE ");
        sql.append(where_clause.as_str());
        Ok(sql)
    }

    /// Whether a statement returns rows, judged by its upper-case form: it
    /// does where that begins with `SELECT`, `WITH`, `EXPLAIN` or `SHOW`.
    pub fn is_row_returning(upper: &str) -> (r: bool)
        ensures
            r == returns_rows(upper@),
    {
        starts_with(upper, "SELECT") || starts_with(upper, "WITH") || starts_with(upper, "EXPLAIN")
            || starts_with(upper, "SHOW")
    }

    /// Prepares a raw statement: trims it, refuses it where nothing is left,
    /// and tells whether it returns rows.
    pub fn execute_raw_query(sql: &str) -> (r: Result<RawQuery, DbViewerError>)
        ensures
            match r {
                Ok(q) => !is_blank(sql@) && q.sql@ == trimmed(sql@) && q.returns_rows
                    == returns_rows(uppercased(trimmed(sql@))),
                Err(e) => is_blank(sql@) && is_invalid_query(e, "Empty query"@),
            },
    {
        let statement = trim(sql);
        proof {
            crate::text::lemma_trimmed_ends(sql@);
        }
        if statement.as_str().is_empty() {
            return Err(invalid_query("Empty query"));
        }
        let upper = to_uppercase(statement.as_str());
        let row_returning = Self::is_row_returning(upper.as_str());
        Ok(RawQuery { sql: statement, returns_rows: row_returning })
    }

    /// The result of a raw statement that returned rows: the rows as JSON
    /// objects with their columns, and no row affected.
    pub fn rows_result(rows: &Vec<SqlRow>, execution_time_ms: u128) -> (r: QueryResult)
        ensures
            object_models(r.rows@) == row_objects(rows@),
            rows@.len() == 0 ==> r.columns@.len() == 0,
            rows@.len() > 0 ==> column_metas(rows@[0].cells@, r.columns@),
            r.rows_affected == 0,
            r.execution_time_ms == execution_time_ms,
    {
        let (objects, columns) = rows_to_json(rows);
        QueryResult { rows: objects, columns, rows_affected: 0, execution_time_ms }
    }

    /// The result of a raw statement that returned a count: no rows, no
    /// columns, and the count.
    pub fn affected_result(rows_affected: u64, execution_time_ms: u128) -> (r: QueryResult)
        ensures
            r.rows@.len() == 0,
            r.columns@.len() == 0,
            r.rows_affected == rows_affected,
            r.execution_time_ms == execution_time_ms,
    {
        QueryResult { rows: Vec::new(), columns: Vec::new(), rows_affected, execution_time_ms }
    }
}

} // verus!
