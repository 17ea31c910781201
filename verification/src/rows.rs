//! Rows as they come back from the server, and their JSON form.
//!
//! A cell arrives decoded according to its column's type name: booleans and
//! integers as such, everything else that has a text form as text, `bytea` as
//! bytes. This module chooses the decoding for a type name and renders the
//! decoded cells as JSON.

use vstd::prelude::*;
use crate::json::{
    object_models, with_entry, EntryModel, JsonModel, JsonNumber, JsonObject, JsonValue,
    NumberModel,
};
use crate::text::text_eq;
use crate::trusted::{hex_encode, hex_lower};

verus! {

/// How the cells of a column are decoded, chosen by the column's type name.
#[derive(Debug, Clone, Copy, PartialEq, Eq)]
pub enum PgDecoder {
    Bool,
    Int2,
    Int4,
    Int8,
    Float4,
    Float8,
    Json,
    Uuid,
    Bytea,
    TimestampTz,
    Timestamp,
    Date,
    Time,
    /// Any other type: decoded as a string, then from the raw value as a
    /// string (see `fallback_value`).
    Fallback,
}

/// A decoded cell.
#[derive(Debug)]
pub enum PgValue {
    /// SQL `NULL`, or a cell that could not be decoded.
    Null,
    Bool(bool),
    Int2(i16),
    Int4(i32),
    Int8(i64),
    /// A finite floating-point number, as the text JSON writes for it.
    Number(String),
    /// A `json` or `jsonb` value.
    Json(JsonValue),
    /// A value in its text form: a string, a UUID, a date or a time.
    Text(String),
    /// The bytes of a `bytea`.
    Bytes(Vec<u8>),
}

/// One cell of a row, with the name and the type name of its column.
#[derive(Debug)]
pub struct SqlCell {
    pub column: String,
    pub pg_type: String,
    pub value: PgValue,
}

/// One row of a result.
#[derive(Debug)]
pub struct SqlRow {
    pub cells: Vec<SqlCell>,
}

/// Name and type name of a result column.
#[derive(Debug)]
pub struct ColumnMeta {
    pub name: String,
    pub data_type: String,
}

// ---------------------------------------------------------------------------
// Choosing the decoder
// ---------------------------------------------------------------------------

/// The decoder for a type name.
pub open spec fn decoder_of(pg_type: Seq<char>) -> PgDecoder {
    if pg_type == "BOOL"@ {
        PgDecoder::Bool
    } else if pg_type == "INT2"@ {
        PgDecoder::Int2
    } else if pg_type == "INT4"@ {
        PgDecoder::Int4
    } else if pg_type == "INT8"@ {
        PgDecoder::Int8
    } else if pg_type == "FLOAT4"@ {
        PgDecoder::Float4
    } else if pg_type == "FLOAT8"@ {
        PgDecoder::Float8
    } else if pg_type == "JSON"@ || pg_type == "JSONB"@ {
        PgDecoder::Json
    } else if pg_type == "UUID"@ {
        PgDecoder::Uuid
    } else if pg_type == "BYTEA"@ {
        PgDecoder::Bytea
    } else if pg_type == "TIMESTAMPTZ"@ {
        PgDecoder::TimestampTz
    } else if pg_type == "TIMESTAMP"@ {
        PgDecoder::Timestamp
    } else if pg_type == "DATE"@ {
        PgDecoder::Date
    } else if pg_type == "TIME"@ {
        PgDecoder::Time
    } else {
        PgDecoder::Fallback
    }
}

impl PgDecoder {
    /// Chooses the decoder for a column by its type name. Names are compared
    /// as the server reports them, in upper case; an unknown name gets the
    /// string fallback.
    pub fn for_type(pg_type: &str) -> (r: PgDecoder)
        ensures
            r == decoder_of(pg_type@),
    {
        if text_eq(pg_type, "BOOL") {
            PgDecoder::Bool
        } else if text_eq(pg_type, "INT2") {
            PgDecoder::Int2
        } else if text_eq(pg_type, "INT4") {
            PgDecoder::Int4
        } else if text_eq(pg_type, "INT8") {
            PgDecoder::Int8
        } else if text_eq(pg_type, "FLOAT4") {
            PgDecoder::Float4
        } else if text_eq(pg_type, "FLOAT8") {
            PgDecoder::Float8
        } else if text_eq(pg_type, "JSON") || text_eq(pg_type, "JSONB") {
            PgDecoder::Json
        } else if text_eq(pg_type, "UUID") {
            PgDecoder::Uuid
        } else if text_eq(pg_type, "BYTEA") {
            PgDecoder::Bytea
        } else if text_eq(pg_type, "TIMESTAMPTZ") {
            PgDecoder::TimestampTz
        } else if text_eq(pg_type, "TIMESTAMP") {
            PgDecoder::Timestamp
        } else if text_eq(pg_type, "DATE") {
            PgDecoder::Date
        } else if text_eq(pg_type, "TIME") {
            PgDecoder::Time
        } else {
            PgDecoder::Fallback
        }
    }
}

/// What the fallback decoding gives for a cell of an unknown type.
pub open spec fn fallback_of(
    as_text: Option<String>,
    raw_is_null: bool,
    raw_as_text: Option<String>,
) -> PgValue {
    match as_text {
        Some(s) => PgValue::Text(s),
        None => if raw_is_null {
            PgValue::Null
        } else {
            match raw_as_text {
                Some(s) => PgValue::Text(s),
                None => PgValue::Null,
            }
        },
    }
}

/// Decodes a cell of an unknown type from what the driver made of it: the
/// cell as a string where the driver decoded it as one; else null where the
/// raw value is null; else the raw value as a string where it can be read as
/// one; else null. No value is made up where both decodings fail.
pub fn fallback_value(as_text: Option<String>, raw_is_null: bool, raw_as_text: Option<String>) -> (r:
    PgValue)
    ensures
        r == fallback_of(as_text, raw_is_null, raw_as_text),
{
    match as_text {
        Some(s) => PgValue::Text(s),
        None => {
            if raw_is_null {
                PgValue::Null
            } else {
                match raw_as_text {
                    Some(s) => PgValue::Text(s),
                    None => PgValue::Null,
                }
            }
        },
    }
}

// ---------------------------------------------------------------------------
// Cells as JSON
// ---------------------------------------------------------------------------

/// The text form of a `bytea`: `\x` and the bytes in hexadecimal.
pub open spec fn bytea_text(bytes: Seq<u8>) -> Seq<char> {
    "\\x"@ + hex_lower(bytes)
}

/// The JSON form of a decoded cell.
pub open spec fn json_of(v: PgValue) -> JsonModel {
    match v {
        PgValue::Null => JsonModel::Null,
        PgValue::Bool(b) => JsonModel::Bool(b),
        PgValue::Int2(n) => JsonModel::Number(NumberModel::Integer(n as int)),
        PgValue::Int4(n) => JsonModel::Number(NumberModel::Integer(n as int)),
        PgValue::Int8(n) => JsonModel::Number(NumberModel::Integer(n as int)),
        PgValue::Number(t) => JsonModel::Number(NumberModel::Literal(t@)),
        PgValue::Json(j) => j@,
        PgValue::Text(t) => JsonModel::Text(t@),
        PgValue::Bytes(b) => JsonModel::Text(bytea_text(b@)),
    }
}

/// Renders a decoded cell as JSON: `NULL` as null, booleans and numbers as
/// such, `json` values as they are, bytes as `\x` and their hexadecimal
/// digits, and every other value as the string of its text form.
pub fn pg_value_to_json(value: &PgValue) -> (r: JsonValue)
    ensures
        r@ == json_of(*value),
{
    match value {
        PgValue::Null => JsonValue::Null,
        PgValue::Bool(b) => JsonValue::Bool(*b),
        PgValue::Int2(n) => JsonValue::Number(JsonNumber::Signed(*n as i64)),
        PgValue::Int4(n) => JsonValue::Number(JsonNumber::Signed(*n as i64)),
        PgValue::Int8(n) => JsonValue::Number(JsonNumber::Signed(*n)),
        PgValue::Number(t) => JsonValue::Number(JsonNumber::Literal(t.clone())),
        PgValue::Json(j) => j.duplicate(),
        PgValue::Text(t) => JsonValue::Text(t.clone()),
        PgValue::Bytes(b) => {
            let digits = hex_encode(b.as_slice());
            let mut out = "\\x".to_owned();
            out.append(digits.as_str());
            JsonValue::Text(out)
        },
    }
}

/// Name and type name of each cell, in order.
pub open spec fn column_metas(cells: Seq<SqlCell>, metas: Seq<ColumnMeta>) -> bool {
    &&& metas.len() == cells.len()
    &&& forall|i: int|
        0 <= i < cells.len() ==> (#[trigger] metas[i]).name@ == cells[i].column@ && metas[i].data_type@
            == cells[i].pg_type@
}

/// The object of the first `n` cells of a row: from the empty object, each
/// cell's JSON form is put under its column's name, in order, a later cell
/// replacing an earlier one of the same name.
pub open spec fn row_object(cells: Seq<SqlCell>, n: int) -> Seq<EntryModel>
    decreases n,
{
    if n <= 0 {
        Seq::empty()
    } else {
        with_entry(row_object(cells, n - 1), cells[n - 1].column@, json_of(cells[n - 1].value))
    }
}

/// The objects of a list of rows.
pub open spec fn row_objects(rows: Seq<SqlRow>) -> Seq<Seq<EntryModel>> {
    Seq::new(rows.len(), |i: int| row_object(rows[i].cells@, rows[i].cells@.len() as int))
}

fn row_to_object(row: &SqlRow) -> (r: JsonObject)
    ensures
        r@ == row_object(row.cells@, row.cells@.len() as int),
{
    let mut object = JsonObject::new();
    let mut i: usize = 0;
    while i < row.cells.len()
        invariant
            i <= row.cells.len(),
            object@ == row_object(row.cells@, i as int),
        decreases row.cells.len() - i,
    {
        let cell = &row.cells[i];
        let value = pg_value_to_json(&cell.value);
        object.insert(cell.column.clone(), value);
        i += 1;
    }
    object
}

/// Converts rows to JSON objects and describes their columns. Without rows
/// both lists are empty; otherwise the columns are those of the first row,
/// and each row becomes one object, in order.
pub fn rows_to_json(rows: &Vec<SqlRow>) -> (r: (Vec<JsonObject>, Vec<ColumnMeta>))
    ensures
        object_models(r.0@) == row_objects(rows@),
        rows@.len() == 0 ==> r.1@.len() == 0,
        rows@.len() > 0 ==> column_metas(rows@[0].cells@, r.1@),
{
    let mut objects: Vec<JsonObject> = Vec::new();
    let mut columns: Vec<ColumnMeta> = Vec::new();
    if rows.len() == 0 {
        assert(object_models(objects@) =~= row_objects(rows@));
        return (objects, columns);
    }
    let first = &rows[0];
    let mut c: usize = 0;
    while c < first.cells.len()
        invariant
            c <= first.cells.len(),
            columns.len() == c,
            forall|i: int|
                0 <= i < c ==> (#[trigger] columns@[i]).name@ == first.cells@[i].column@
                    && columns@[i].data_type@ == first.cells@[i].pg_type@,
        decreases first.cells.len() - c,
    {
        columns.push(
            ColumnMeta {
                name: first.cells[c].column.clone(),
                data_type: first.cells[c].pg_type.clone(),
            },
        );
        c += 1;
    }
    let mut i: usize = 0;
    while i < rows.len()
        invariant
            i <= rows.len(),
            objects.len() == i,
            forall|k: int|
                0 <= k < i ==> (#[trigger] objects@[k])@ == row_object(
                    rows@[k].cells@,
                    rows@[k].cells@.len() as int,
                ),
        decreases rows.len() - i,
    {
        objects.push(row_to_object(&rows[i]));
        i += 1;
    }
    assert(object_models(objects@) =~= row_objects(rows@));
    (objects, columns)
}

} // verus!
