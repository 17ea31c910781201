//! Rendering of identifiers and values into SQL text.
//!
//! Identifiers are double-quoted with `"` doubled, string values
//! single-quoted with `'` doubled. Every piece of dynamic SQL the crate
//! builds passes user-supplied names and values through these functions.

use vstd::prelude::*;
use crate::json::{JsonModel, JsonValue};
use crate::text::{lemma_replaced_concat, lemma_replaced_one, replace_char, replaced};

verus! {

// ---------------------------------------------------------------------------
// What is rendered
// ---------------------------------------------------------------------------

/// `s` with every `"` doubled.
pub open spec fn identifier_escaped(s: Seq<char>) -> Seq<char> {
    replaced(s, '"', "\"\""@)
}

/// `s` as a quoted identifier.
pub open spec fn quoted_identifier(s: Seq<char>) -> Seq<char> {
    "\""@ + identifier_escaped(s) + "\""@
}

/// `s` with every `'` doubled.
pub open spec fn sql_escaped(s: Seq<char>) -> Seq<char> {
    replaced(s, '\'', "''"@)
}

/// `s` as a single-quoted string literal.
pub open spec fn quoted_literal(s: Seq<char>) -> Seq<char> {
    "'"@ + sql_escaped(s) + "'"@
}

/// `s` with the three characters that `LIKE` reads specially, `\`, `%` and
/// `_`, each behind a backslash.
pub open spec fn like_escaped(s: Seq<char>) -> Seq<char> {
    replaced(replaced(replaced(s, '\\', "\\\\"@), '%', "\\%"@), '_', "\\_"@)
}

/// `schema.table`, both quoted.
pub open spec fn qualified_name(schema: Seq<char>, table: Seq<char>) -> Seq<char> {
    quoted_identifier(schema) + "."@ + quoted_identifier(table)
}

/// A JSON value as an SQL literal.
pub open spec fn sql_value(v: JsonModel) -> Seq<char> {
    match v {
        JsonModel::Null => "NULL"@,
        JsonModel::Bool(b) => if b {
            "TRUE"@
        } else {
            "FALSE"@
        },
        JsonModel::Number(n) => n.text(),
        JsonModel::Text(s) => quoted_literal(s),
        JsonModel::Array(t) => quoted_literal(t) + "::jsonb"@,
        JsonModel::Object(t) => quoted_literal(t) + "::jsonb"@,
    }
}

// ---------------------------------------------------------------------------
// How the server reads what is rendered
// ---------------------------------------------------------------------------

/// Reads the body of a quoted token, the text behind its opening quote: two
/// quotes stand for one, a single quote ends the token. Gives what the token
/// holds and what follows it, or nothing where the token does not end.
pub open spec fn read_quoted_body(t: Seq<char>, q: char) -> Option<(Seq<char>, Seq<char>)>
    decreases t.len(),
{
    if t.len() == 0 {
        None
    } else if t[0] != q {
        match read_quoted_body(t.drop_first(), q) {
            Some((content, rest)) => Some((seq![t[0]] + content, rest)),
            None => None,
        }
    } else if t.len() >= 2 && t[1] == q {
        match read_quoted_body(t.skip(2), q) {
            Some((content, rest)) => Some((seq![q] + content, rest)),
            None => None,
        }
    } else {
        Some((Seq::empty(), t.drop_first()))
    }
}

/// Reads a quoted token at the beginning of a text.
pub open spec fn read_quoted(t: Seq<char>, q: char) -> Option<(Seq<char>, Seq<char>)> {
    if t.len() > 0 && t[0] == q {
        read_quoted_body(t.drop_first(), q)
    } else {
        None
    }
}

/// A text with its quotes doubled, closed by a quote, reads back as the text,
/// whatever follows, as long as that does not begin with a quote.
pub proof fn lemma_doubled_reads_back(s: Seq<char>, q: char, rest: Seq<char>)
    requires
        rest.len() == 0 || rest[0] != q,
    ensures
        read_quoted_body(replaced(s, q, seq![q, q]) + seq![q] + rest, q) == Some((s, rest)),
    decreases s.len(),
{
    let t = replaced(s, q, seq![q, q]) + seq![q] + rest;
    if s.len() == 0 {
        assert(replaced(s, q, seq![q, q]) =~= Seq::<char>::empty());
        assert(t =~= seq![q] + rest);
        assert(t[0] == q);
        if t.len() >= 2 {
            assert(t[1] == rest[0]);
        }
        assert(t.drop_first() =~= rest);
    } else {
        let c = s[0];
        let tail = s.drop_first();
        assert(s =~= seq![c] + tail);
        lemma_replaced_concat(seq![c], tail, q, seq![q, q]);
        lemma_replaced_one(c, q, seq![q, q]);
        let x = replaced(tail, q, seq![q, q]) + seq![q] + rest;
        lemma_doubled_reads_back(tail, q, rest);
        if c == q {
            assert(t =~= seq![q, q] + x);
            assert(t[0] == q && t[1] == q);
            assert(t.skip(2) =~= x);
            assert(seq![q] + tail =~= s);
        } else {
            assert(t =~= seq![c] + x);
            assert(t[0] == c);
            assert(t.drop_first() =~= x);
            assert(seq![c] + tail =~= s);
        }
    }
}

/// A quoted identifier reads back as the name, whatever the name holds, and
/// what follows it is left as it is.
pub proof fn lemma_identifier_reads_back(name: Seq<char>, rest: Seq<char>)
    requires
        rest.len() == 0 || rest[0] != '"',
    ensures
        read_quoted(quoted_identifier(name) + rest, '"') == Some((name, rest)),
{
    reveal_strlit("\"");
    reveal_strlit("\"\"");
    assert("\""@ =~= seq!['"']);
    assert("\"\""@ =~= seq!['"', '"']);
    let body = replaced(name, '"', seq!['"', '"']) + seq!['"'] + rest;
    let t = quoted_identifier(name) + rest;
    assert(t =~= seq!['"'] + body);
    assert(t[0] == '"');
    assert(t.drop_first() =~= body);
    lemma_doubled_reads_back(name, '"', rest);
}

/// A quoted string literal reads back as the value, whatever the value
/// holds, and what follows it is left as it is.
pub proof fn lemma_literal_reads_back(value: Seq<char>, rest: Seq<char>)
    requires
        rest.len() == 0 || rest[0] != '\'',
    ensures
        read_quoted(quoted_literal(value) + rest, '\'') == Some((value, rest)),
{
    reveal_strlit("'");
    reveal_strlit("''");
    assert("'"@ =~= seq!['\'']);
    assert("''"@ =~= seq!['\'', '\'']);
    let body = replaced(value, '\'', seq!['\'', '\'']) + seq!['\''] + rest;
    let t = quoted_literal(value) + rest;
    assert(t =~= seq!['\''] + body);
    assert(t[0] == '\'');
    assert(t.drop_first() =~= body);
    lemma_doubled_reads_back(value, '\'', rest);
}

/// What a `LIKE` pattern asks for at one place.
pub enum LikeToken {
    /// The character with this code point.
    Literal(u32),
    /// Any one character (`_`).
    AnyOne,
    /// Any text (`%`).
    AnyMany,
}

/// A `LIKE` pattern as the server reads it with `\` as the escape character:
/// the character behind a backslash stands for itself, `%` for any text, `_`
/// for any one character, and every other character for itself.
pub open spec fn like_tokens(p: Seq<char>) -> Seq<LikeToken>
    decreases p.len(),
{
    if p.len() == 0 {
        Seq::empty()
    } else if p[0] == '\\' {
        if p.len() >= 2 {
            seq![LikeToken::Literal(p[1] as u32)] + like_tokens(p.skip(2))
        } else {
            seq![LikeToken::Literal('\\' as u32)]
        }
    } else if p[0] == '%' {
        seq![LikeToken::AnyMany] + like_tokens(p.drop_first())
    } else if p[0] == '_' {
        seq![LikeToken::AnyOne] + like_tokens(p.drop_first())
    } else {
        seq![LikeToken::Literal(p[0] as u32)] + like_tokens(p.drop_first())
    }
}

/// The pattern that asks for exactly the characters of a text.
pub open spec fn literal_tokens(s: Seq<char>) -> Seq<LikeToken>
    decreases s.len(),
{
    if s.len() == 0 {
        Seq::empty()
    } else {
        seq![LikeToken::Literal(s[0] as u32)] + literal_tokens(s.drop_first())
    }
}

/// What escaping makes of one character.
pub open spec fn like_escaped_char(c: char) -> Seq<char> {
    if c == '\\' || c == '%' || c == '_' {
        seq!['\\', c]
    } else {
        seq![c]
    }
}

/// Escaping works character by character.
pub proof fn lemma_like_escaped_step(c: char, tail: Seq<char>)
    ensures
        like_escaped(seq![c] + tail) == like_escaped_char(c) + like_escaped(tail),
{
    reveal_strlit("\\\\");
    reveal_strlit("\\%");
    reveal_strlit("\\_");
    let b = "\\\\"@;
    let p = "\\%"@;
    let u = "\\_"@;
    assert(b =~= seq!['\\', '\\']);
    assert(p =~= seq!['\\', '%']);
    assert(u =~= seq!['\\', '_']);
    // the first pass
    lemma_replaced_concat(seq![c], tail, '\\', b);
    lemma_replaced_one(c, '\\', b);
    let one = replaced(seq![c], '\\', b);
    let tail_one = replaced(tail, '\\', b);
    // the second pass
    lemma_replaced_concat(one, tail_one, '%', p);
    let two = replaced(one, '%', p);
    let tail_two = replaced(tail_one, '%', p);
    // the third pass
    lemma_replaced_concat(two, tail_two, '_', u);
    let three = replaced(two, '_', u);
    if c == '\\' {
        assert(one =~= seq!['\\'] + seq!['\\']);
        lemma_replaced_concat(seq!['\\'], seq!['\\'], '%', p);
        lemma_replaced_one('\\', '%', p);
        assert(two =~= seq!['\\'] + seq!['\\']);
        lemma_replaced_concat(seq!['\\'], seq!['\\'], '_', u);
        lemma_replaced_one('\\', '_', u);
        assert(three =~= like_escaped_char(c));
    } else if c == '%' {
        lemma_replaced_one(c, '%', p);
        assert(two =~= seq!['\\'] + seq!['%']);
        lemma_replaced_concat(seq!['\\'], seq!['%'], '_', u);
        lemma_replaced_one('\\', '_', u);
        lemma_replaced_one('%', '_', u);
        assert(three =~= like_escaped_char(c));
    } else if c == '_' {
        lemma_replaced_one(c, '%', p);
        lemma_replaced_one(c, '_', u);
        assert(three =~= like_escaped_char(c));
    } else {
        lemma_replaced_one(c, '%', p);
        lemma_replaced_one(c, '_', u);
        assert(three =~= like_escaped_char(c));
    }
}

/// An escaped text, as a `LIKE` pattern, asks for exactly the characters of
/// the text: no wildcard is left in it, whatever the text holds. What follows
/// the escaped text in a pattern is read as if it stood alone.
pub proof fn lemma_like_escaped_is_literal(s: Seq<char>, after: Seq<char>)
    ensures
        like_tokens(like_escaped(s) + after) == literal_tokens(s) + like_tokens(after),
    decreases s.len(),
{
    if s.len() == 0 {
        assert(like_escaped(s) =~= Seq::<char>::empty());
        assert(like_escaped(s) + after =~= after);
        assert(literal_tokens(s) + like_tokens(after) =~= like_tokens(after));
    } else {
        let c = s[0];
        let tail = s.drop_first();
        assert(s =~= seq![c] + tail);
        lemma_like_escaped_step(c, tail);
        lemma_like_escaped_is_literal(tail, after);
        let x = like_escaped(tail) + after;
        let t = like_escaped(s) + after;
        assert(t =~= like_escaped_char(c) + x);
        if c == '\\' || c == '%' || c == '_' {
            assert(t[0] == '\\' && t[1] == c);
            assert(t.skip(2) =~= x);
        } else {
            assert(t[0] == c);
            assert(t.drop_first() =~= x);
        }
        let head = seq![LikeToken::Literal(c as u32)];
        let body = literal_tokens(tail);
        let end = like_tokens(after);
        assert(literal_tokens(s) == head + body);
        assert(like_tokens(x) == body + end);
        assert(like_tokens(t) == head + like_tokens(x));
        assert((head + body) + end =~= head + (body + end));
    }
}

// ---------------------------------------------------------------------------
// Rendering
// ---------------------------------------------------------------------------

/// Quotes an identifier: `"` around it, and every `"` inside doubled.
pub fn quote_identifier(identifier: &str) -> (r: String)
    ensures
        r@ == quoted_identifier(identifier@),
{
    let escaped = replace_char(identifier, '"', "\"\"");
    let mut out = "\"".to_owned();
    out.append(escaped.as_str());
    out.append("\"");
    out
}

/// Doubles every `'` of a string value.
pub fn escape_sql_string(s: &str) -> (r: String)
    ensures
        r@ == sql_escaped(s@),
{
    replace_char(s, '\'', "''")
}

/// A string value as a single-quoted literal.
pub fn quote_literal(s: &str) -> (r: String)
    ensures
        r@ == quoted_literal(s@),
{
    let escaped = escape_sql_string(s);
    let mut out = "'".to_owned();
    out.append(escaped.as_str());
    out.append("'");
    out
}

/// Puts a backslash before every `\`, `%` and `_`, so that a `LIKE` pattern
/// reads the text literally.
pub fn escape_like_pattern(s: &str) -> (r: String)
    ensures
        r@ == like_escaped(s@),
{
    let a = replace_char(s, '\\', "\\\\");
    let b = replace_char(a.as_str(), '%', "\\%");
    replace_char(b.as_str(), '_', "\\_")
}

/// `schema.table` with both names quoted.
pub fn qualify(schema: &str, table: &str) -> (r: String)
    ensures
        r@ == qualified_name(schema@, table@),
{
    let mut out = quote_identifier(schema);
    let t = quote_identifier(table);
    out.append(".");
    out.append(t.as_str());
    out
}

/// Renders a JSON value as an SQL literal: `NULL`, `TRUE` or `FALSE`, the
/// number as it is written, a string single-quoted, and an array or object as
/// its single-quoted JSON text cast to `jsonb`.
pub fn json_value_to_sql(value: &JsonValue) -> (r: String)
    ensures
        r@ == sql_value(value@),
{
    match value {
        JsonValue::Null => "NULL".to_owned(),
        JsonValue::Bool(b) => if *b {
            "TRUE".to_owned()
        } else {
            "FALSE".to_owned()
        },
        JsonValue::Number(n) => n.to_text(),
        JsonValue::Text(s) => quote_literal(s.as_str()),
        JsonValue::Array(t) => {
            let mut out = quote_literal(t.as_str());
            out.append("::jsonb");
            out
        },
        JsonValue::Object(t) => {
            let mut out = quote_literal(t.as_str());
            out.append("::jsonb");
            out
        },
    }
}

} // verus!
