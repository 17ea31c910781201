//! Filter conditions and the `WHERE` clause they compile to.

use vstd::prelude::*;
use crate::sql::{
    escape_like_pattern, lemma_like_escaped_is_literal, like_escaped, like_tokens,
    literal_tokens, quote_identifier, quote_literal, quoted_identifier, quoted_literal,
    LikeToken,
};
use crate::text::{join, joined, texts};

verus! {

/// The comparison a filter makes.
#[derive(Debug, Clone, Copy, PartialEq, Eq)]
pub enum FilterOperator {
    Equals,
    NotEquals,
    GreaterThan,
    LessThan,
    GreaterThanOrEqual,
    LessThanOrEqual,
    Contains,
    NotContains,
    StartsWith,
    EndsWith,
    IsNull,
    IsNotNull,
    IsTrue,
    IsFalse,
    Between,
    In,
}

/// One condition on one column. Which of `value`, `value2` and `values` is
/// read depends on the operator.
#[derive(Debug)]
pub struct FilterCondition {
    pub column: String,
    pub operator: FilterOperator,
    pub value: Option<String>,
    pub value2: Option<String>,
    pub values: Option<Vec<String>>,
}

// ---------------------------------------------------------------------------
// The rendering contract
// ---------------------------------------------------------------------------

/// The SQL symbol of an operator that compares the column with one value.
pub open spec fn comparison_symbol(op: FilterOperator) -> Option<Seq<char>> {
    match op {
        FilterOperator::Equals => Some("="@),
        FilterOperator::NotEquals => Some("!="@),
        FilterOperator::GreaterThan => Some(">"@),
        FilterOperator::LessThan => Some("<"@),
        FilterOperator::GreaterThanOrEqual => Some(">="@),
        FilterOperator::LessThanOrEqual => Some("<="@),
        _ => None,
    }
}

/// `col OP 'value'`.
pub open spec fn comparison_sql(col: Seq<char>, symbol: Seq<char>, value: Seq<char>) -> Seq<char> {
    col + " "@ + symbol + " "@ + quoted_literal(value)
}

/// The `LIKE` pattern for a text: the text escaped, with `%` before and after
/// it as asked.
pub open spec fn like_pattern(value: Seq<char>, open_start: bool, open_end: bool) -> Seq<char> {
    (if open_start {
        "%"@
    } else {
        Seq::empty()
    }) + like_escaped(value) + (if open_end {
        "%"@
    } else {
        Seq::empty()
    })
}

/// The wildcard at an open end of a pattern, nothing at a closed end.
pub open spec fn open_end_tokens(open: bool) -> Seq<LikeToken> {
    if open {
        seq![LikeToken::AnyMany]
    } else {
        Seq::empty()
    }
}

/// The pattern for a text asks for exactly the characters of the text,
/// between any text at its open ends: whatever the text holds, `%` and `_`
/// too, it is looked for as it is.
pub proof fn lemma_like_pattern_is_literal(value: Seq<char>, open_start: bool, open_end: bool)
    ensures
        like_tokens(like_pattern(value, open_start, open_end)) == open_end_tokens(open_start)
            + literal_tokens(value) + open_end_tokens(open_end),
{
    reveal_strlit("%");
    let wild = "%"@;
    assert(wild =~= seq!['%']);
    let after = if open_end {
        wild
    } else {
        Seq::<char>::empty()
    };
    let middle = like_escaped(value) + after;
    lemma_like_escaped_is_literal(value, after);
    if open_end {
        assert(after[0] == '%');
        assert(after.drop_first() =~= Seq::<char>::empty());
        assert(like_tokens(after.drop_first()) =~= Seq::<LikeToken>::empty());
        assert(like_tokens(after) =~= seq![LikeToken::AnyMany]);
    } else {
        assert(like_tokens(after) =~= Seq::<LikeToken>::empty());
    }
    let pattern = like_pattern(value, open_start, open_end);
    if open_start {
        assert(pattern =~= wild + middle);
        assert(pattern[0] == '%');
        assert(pattern.drop_first() =~= middle);
    } else {
        assert(pattern =~= middle);
        assert(open_end_tokens(open_start) + literal_tokens(value) =~= literal_tokens(value));
    }
}

/// `col::text [NOT ]ILIKE 'pattern' ESCAPE '\'`.
pub open spec fn like_sql(col: Seq<char>, negated: bool, pattern: Seq<char>) -> Seq<char> {
    col + (if negated {
        "::text NOT ILIKE "@
    } else {
        "::text ILIKE "@
    }) + quoted_literal(pattern) + " ESCAPE '\\'"@
}

/// The values of an `IN` list, each as a quoted literal.
pub open spec fn literals(values: Seq<String>) -> Seq<Seq<char>> {
    Seq::new(values.len(), |i: int| quoted_literal(values[i]@))
}

/// The predicate a condition renders to, or `None` where the condition lacks
/// a field its operator needs, or is an `IN` with an empty list.
pub open spec fn condition_sql(f: FilterCondition) -> Option<Seq<char>> {
    let col = quoted_identifier(f.column@);
    match f.operator {
        FilterOperator::Contains => match f.value {
            Some(v) => Some(like_sql(col, false, like_pattern(v@, true, true))),
            None => None,
        },
        FilterOperator::NotContains => match f.value {
            Some(v) => Some(like_sql(col, true, like_pattern(v@, true, true))),
            None => None,
        },
        FilterOperator::StartsWith => match f.value {
            Some(v) => Some(like_sql(col, false, like_pattern(v@, false, true))),
            None => None,
        },
        FilterOperator::EndsWith => match f.value {
            Some(v) => Some(like_sql(col, false, like_pattern(v@, true, false))),
            None => None,
        },
        FilterOperator::IsNull => Some(col + " IS NULL"@),
        FilterOperator::IsNotNull => Some(col + " IS NOT NULL"@),
        FilterOperator::IsTrue => Some(col + " = TRUE"@),
        FilterOperator::IsFalse => Some(col + " = FALSE"@),
        FilterOperator::Between => match (f.value, f.value2) {
            (Some(low), Some(high)) => Some(
                col + " BETWEEN "@ + quoted_literal(low@) + " AND "@ + quoted_literal(high@),
            ),
            _ => None,
        },
        FilterOperator::In => match f.values {
            Some(values) => if values@.len() == 0 {
                None
            } else {
                Some(col + " IN ("@ + joined(literals(values@), ", "@) + ")"@)
            },
            None => None,
        },
        _ => match (comparison_symbol(f.operator), f.value) {
            (Some(symbol), Some(v)) => Some(comparison_sql(col, symbol, v@)),
            _ => None,
        },
    }
}

/// The predicates of the conditions that render to one, in order.
pub open spec fn conditions_sql(filters: Seq<FilterCondition>) -> Seq<Seq<char>>
    decreases filters.len(),
{
    if filters.len() == 0 {
        Seq::empty()
    } else {
        let before = conditions_sql(filters.drop_last());
        match condition_sql(filters.last()) {
            Some(c) => before.push(c),
            None => before,
        }
    }
}

/// The `WHERE` clause of a list of conditions: empty where none renders,
/// otherwise `WHERE` and the predicates joined by `AND`.
pub open spec fn where_clause_sql(filters: Seq<FilterCondition>) -> Seq<char> {
    let conditions = conditions_sql(filters);
    if conditions.len() == 0 {
        Seq::empty()
    } else {
        "WHERE "@ + joined(conditions, " AND "@)
    }
}

// ---------------------------------------------------------------------------
// Rendering
// ---------------------------------------------------------------------------

fn render_comparison(col: String, symbol: &str, value: &str) -> (r: String)
    ensures
        r@ == comparison_sql(col@, symbol@, value@),
{
    let mut out = col;
    let literal = quote_literal(value);
    out.append(" ");
    out.append(symbol);
    out.append(" ");
    out.append(literal.as_str());
    out
}

fn render_like(col: String, negated: bool, value: &str, open_start: bool, open_end: bool) -> (r:
    String)
    ensures
        r@ == like_sql(col@, negated, like_pattern(value@, open_start, open_end)),
{
    let escaped = escape_like_pattern(value);
    let mut pattern = String::new();
    if open_start {
        pattern.append("%");
    }
    pattern.append(escaped.as_str());
    if open_end {
        pattern.append("%");
    }
    assert(pattern@ =~= like_pattern(value@, open_start, open_end));
    let literal = quote_literal(pattern.as_str());
    let mut out = col;
    if negated {
        out.append("::text NOT ILIKE ");
    } else {
        out.append("::text ILIKE ");
    }
    out.append(literal.as_str());
    out.append(" ESCAPE '\\'");
    out
}

fn render_in_list(values: &Vec<String>) -> (r: String)
    ensures
        r@ == joined(literals(values@), ", "@),
{
    let mut quoted: Vec<String> = Vec::new();
    let mut i: usize = 0;
    while i < values.len()
        invariant
            i <= values.len(),
            quoted.len() == i,
            forall|k: int| 0 <= k < i ==> quoted@[k]@ == quoted_literal(values@[k]@),
        decreases values.len() - i,
    {
        quoted.push(quote_literal(values[i].as_str()));
        i += 1;
    }
    assert(texts(quoted@) =~= literals(values@));
    join(&quoted, ", ")
}

/// Renders one condition, or nothing where it is to be skipped.
pub fn render_condition(f: &FilterCondition) -> (r: Option<String>)
    ensures
        match r {
            Some(s) => condition_sql(*f) == Some(s@),
            None => condition_sql(*f) is None,
        },
{
    let col = quote_identifier(f.column.as_str());
    match f.operator {
        FilterOperator::Equals => match &f.value {
            Some(v) => Some(render_comparison(col, "=", v.as_str())),
            None => None,
        },
        FilterOperator::NotEquals => match &f.value {
            Some(v) => Some(render_comparison(col, "!=", v.as_str())),
            None => None,
        },
        FilterOperator::GreaterThan => match &f.value {
            Some(v) => Some(render_comparison(col, ">", v.as_str())),
            None => None,
        },
        FilterOperator::LessThan => match &f.value {
            Some(v) => Some(render_comparison(col, "<", v.as_str())),
            None => None,
        },
        FilterOperator::GreaterThanOrEqual => match &f.value {
            Some(v) => Some(render_comparison(col, ">=", v.as_str())),
            None => None,
        },
        FilterOperator::LessThanOrEqual => match &f.value {
            Some(v) => Some(render_comparison(col, "<=", v.as_str())),
            None => None,
        },
        FilterOperator::Contains => match &f.value {
            Some(v) => Some(render_like(col, false, v.as_str(), true, true)),
            None => None,
        },
        FilterOperator::NotContains => match &f.value {
            Some(v) => Some(render_like(col, true, v.as_str(), true, true)),
            None => None,
        },
        FilterOperator::StartsWith => match &f.value {
            Some(v) => Some(render_like(col, false, v.as_str(), false, true)),
            None => None,
        },
        FilterOperator::EndsWith => match &f.value {
            Some(v) => Some(render_like(col, false, v.as_str(), true, false)),
            None => None,
        },
        FilterOperator::IsNull => {
            let mut out = col;
            out.append(" IS NULL");
            Some(out)
        },
        FilterOperator::IsNotNull => {
            let mut out = col;
            out.append(" IS NOT NULL");
            Some(out)
        },
        FilterOperator::IsTrue => {
            let mut out = col;
            out.append(" = TRUE");
            Some(out)
        },
        FilterOperator::IsFalse => {
            let mut out = col;
            out.append(" = FALSE");
            Some(out)
        },
        FilterOperator::Between => match (&f.value, &f.value2) {
            (Some(low), Some(high)) => {
                let a = quote_literal(low.as_str());
                let b = quote_literal(high.as_str());
                let mut out = col;
                out.append(" BETWEEN ");
                out.append(a.as_str());
                out.append(" AND ");
                out.append(b.as_str());
                Some(out)
            },
            _ => None,
        },
        FilterOperator::In => match &f.values {
            Some(values) => {
                if values.len() == 0 {
                    None
                } else {
                    let list = render_in_list(values);
                    let mut out = col;
                    out.append(" IN (");
                    out.append(list.as_str());
                    out.append(")");
                    Some(out)
                }
            },
            None => None,
        },
    }
}

/// Compiles filter conditions to a `WHERE` clause. A condition that lacks a
/// field its operator needs is skipped, and so is an `IN` with an empty list;
/// where nothing is left the clause is empty.
pub fn build_where_clause(filters: &Vec<FilterCondition>) -> (r: String)
    ensures
        r@ == where_clause_sql(filters@),
{
    let mut conditions: Vec<String> = Vec::new();
    let mut i: usize = 0;
    while i < filters.len()
        invariant
            i <= filters.len(),
            texts(conditions@) == conditions_sql(filters@.take(i as int)),
        decreases filters.len() - i,
    {
        proof {
            assert(filters@.take(i + 1).drop_last() == filters@.take(i as int));
            assert(filters@.take(i + 1).last() == filters@[i as int]);
        }
        let ghost before = texts(conditions@);
        match render_condition(&filters[i]) {
            Some(c) => {
                conditions.push(c);
                assert(texts(conditions@) =~= before.push(c@));
            },
            None => {},
        }
        i += 1;
    }
    assert(filters@.take(filters.len() as int) == filters@);
    if conditions.len() == 0 {
        String::new()
    } else {
        let body = join(&conditions, " AND ");
        let mut out = "WHERE ".to_owned();
        out.append(body.as_str());
        out
    }
}

} // verus!
