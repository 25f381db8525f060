//! The entry points: pattern text in, sqlparser statements out.
use vstd::prelude::*;
use sqlparser::ast::{Expr, ObjectName, SelectItem, Statement, TableAlias, TableWithJoins};
use crate::error::TranslateError;
use crate::lexer::{lex, skip_space, tokenize, trim_end, trimmed};
use crate::pattern::{is_value_kind, label_view, opt_view, parse_pattern, parse_pattern_spec, prop_view};
use crate::sql::{
    bare_name, bare_name_of, boolean_expr, boolean_expr_of, clone_filter, clone_item,
    create_select, decimal_of, identifier_expr, identifier_expr_of, insert_of, insert_statement,
    integer_text, number_expr, number_expr_of, object_name, object_name_of, select_of,
    select_statement, select_statement_of, string_expr, string_expr_of, table_alias,
    table_alias_of, table_ref, table_ref_of, values_query, values_query_of, wildcard_item,
    wildcard_of,
};
use crate::text::{chars_of, string_of};
use crate::translate::{
    InsertModel, InsertPlan, Projection, SelectModel, SelectPlan, insert_result_view,
    names_view, select_result_view, translate_create, translate_create_spec, translate_match,
    translate_match_spec, copy_name, keys_of, values_of, split_properties, value_view,
};
use crate::value::{Value, ValueModel, coerce, coerce_token};

verus! {

/// The insert plan for a create of the pattern that `s` spells.
pub open spec fn create_spec(s: Seq<char>) -> Result<InsertModel, TranslateError> {
    match parse_pattern_spec(s) {
        Ok(p) => translate_create_spec(p),
        Err(e) => Err(e),
    }
}

/// The select plan for a match of the pattern that `s` spells, returning
/// items with the bare names `bare`.
pub open spec fn match_spec(s: Seq<char>, bare: Seq<Option<Seq<char>>>) -> Result<
    SelectModel,
    TranslateError,
> {
    match parse_pattern_spec(s) {
        Ok(p) => translate_match_spec(p, bare),
        Err(e) => Err(e),
    }
}

/// The table and alias of a match of the pattern that `s` spells.
pub open spec fn match_table_spec(s: Seq<char>) -> Result<
    (Seq<char>, Option<Seq<char>>),
    TranslateError,
> {
    match parse_pattern_spec(s) {
        Ok(p) => if p.labels.len() == 0 {
            Err(TranslateError::MissingLabel)
        } else {
            Ok((p.labels[0], p.variable))
        },
        Err(e) => Err(e),
    }
}

/// The value of literal text on its own: the literal's value where the text
/// is exactly one literal token, else the text as a bare name.
pub open spec fn simple_value_spec(s: Seq<char>) -> ValueModel {
    match lex(s) {
        Ok(toks) => if toks.len() == 1 && is_value_kind(toks[0].kind) {
            coerce(s, toks[0])
        } else {
            ValueModel::Identifier(trimmed(s))
        },
        Err(_) => ValueModel::Identifier(trimmed(s)),
    }
}

/// The expression that stands for a value.
pub open spec fn expr_of(v: ValueModel) -> Expr {
    match v {
        ValueModel::Str(s) => string_expr_of(s),
        ValueModel::Integer(n) => number_expr_of(decimal_of(n)),
        ValueModel::Float(t) => number_expr_of(t),
        ValueModel::Boolean(b) => boolean_expr_of(b),
        ValueModel::Identifier(t) => identifier_expr_of(t),
    }
}

/// The insert statement of an insert plan.
pub open spec fn insert_statement_spec(m: InsertModel) -> Statement {
    insert_of(
        object_name_of(m.table),
        m.columns.map_values(|c: Seq<char>| object_name_of(c)),
        values_query_of(m.values.map_values(|v: ValueModel| expr_of(v))),
    )
}

/// The bare name of each return item.
pub open spec fn bare_names_of(items: Seq<SelectItem>) -> Seq<Option<Seq<char>>> {
    items.map_values(|i: SelectItem| bare_name_of(i))
}

/// The select list of a projection: `*` in place of the item at a wildcard
/// position, the kept item elsewhere.
pub open spec fn projected(projection: Seq<Projection>, items: Seq<SelectItem>) -> Seq<SelectItem> {
    Seq::new(
        projection.len(),
        |j: int|
            match projection[j] {
                Projection::Wildcard => wildcard_of(items[j]),
                Projection::Keep(i) => items[i as int],
            },
    )
}

pub open spec fn alias_of(alias: Option<Seq<char>>) -> Option<TableAlias> {
    match alias {
        Some(a) => Some(table_alias_of(a)),
        None => None,
    }
}

/// The select statement of a select plan over the return items, with the
/// filter in the `WHERE` position.
pub open spec fn select_statement_spec(m: SelectModel, items: Seq<SelectItem>, filter: Option<Expr>) -> Statement {
    select_statement_of(
        select_of(
            projected(m.projection, items),
            seq![table_ref_of(object_name_of(m.table), alias_of(m.alias))],
            filter,
        ),
    )
}

/// Plans the insert for a create of the pattern text.
pub fn plan_create(pattern: &str) -> (r: Result<InsertPlan, TranslateError>)
    ensures
        insert_result_view(r) == create_spec(pattern@),
{
    match parse_pattern(pattern) {
        Ok(p) => translate_create(&p),
        Err(e) => Err(e),
    }
}

/// Plans the select for a match of the pattern text, returning items with
/// the bare names `bare`.
pub fn plan_match(pattern: &str, bare: &Vec<Option<String>>) -> (r: Result<SelectPlan, TranslateError>)
    ensures
        select_result_view(r) == match_spec(pattern@, names_view(bare@)),
{
    match parse_pattern(pattern) {
        Ok(p) => translate_match(&p, bare),
        Err(e) => Err(e),
    }
}

/// The label of the pattern text, which is the table it maps to.
pub fn extract_first_label(pattern: &str) -> (r: Result<String, TranslateError>)
    ensures
        match match_table_spec(pattern@) {
            Ok((label, _)) => r is Ok && r->Ok_0@ == label,
            Err(e) => r == Err::<String, TranslateError>(e),
        },
{
    match parse_pattern(pattern) {
        Ok(p) => if p.labels.len() == 0 {
            Err(TranslateError::MissingLabel)
        } else {
            Ok(p.labels[0].clone())
        },
        Err(e) => Err(e),
    }
}

/// The variable of the pattern text, `None` where it has none or does not
/// parse.
pub fn extract_first_variable(pattern: &str) -> (r: Option<String>)
    ensures
        opt_view(r) == match parse_pattern_spec(pattern@) {
            Ok(p) => p.variable,
            Err(_) => None,
        },
{
    match parse_pattern(pattern) {
        Ok(p) => copy_name(&p.variable),
        Err(_) => None,
    }
}

/// The property keys and values of the pattern text, in the order written;
/// `NoProperties` where the pattern has no property map at all.
pub fn extract_properties(pattern: &str) -> (r: Result<(Vec<String>, Vec<Value>), TranslateError>)
    ensures
        match parse_pattern_spec(pattern@) {
            Ok(p) => if p.has_property_map {
                r is Ok && r->Ok_0.0@.map_values(|c: String| label_view(c)) == keys_of(p.properties)
                    && r->Ok_0.1@.map_values(|v: Value| value_view(v)) == values_of(p.properties)
            } else {
                r == Err::<(Vec<String>, Vec<Value>), TranslateError>(TranslateError::NoProperties)
            },
            Err(e) => r == Err::<(Vec<String>, Vec<Value>), TranslateError>(e),
        },
{
    match parse_pattern(pattern) {
        Ok(p) => if p.has_property_map {
            Ok(split_properties(&p.properties))
        } else {
            Err(TranslateError::NoProperties)
        },
        Err(e) => Err(e),
    }
}

/// The bounds of `s` without its leading and trailing whitespace.
fn trim_bounds(s: &Vec<char>) -> (r: (usize, usize))
    ensures
        r.0 as int == skip_space(s@, 0),
        r.1 as int == trim_end(s@, s@.len() as int),
        r.0 <= s@.len(),
        r.1 <= s@.len(),
{
    let mut a: usize = 0;
    while a < s.len() && (s[a] == ' ' || s[a] == '\t' || s[a] == '\n' || s[a] == '\r')
        invariant
            a <= s@.len(),
            skip_space(s@, 0) == skip_space(s@, a as int),
        decreases s@.len() - a,
    {
        a = a + 1;
    }
    let mut b: usize = s.len();
    while b > 0 && (s[b - 1] == ' ' || s[b - 1] == '\t' || s[b - 1] == '\n' || s[b - 1] == '\r')
        invariant
            b <= s@.len(),
            trim_end(s@, s@.len() as int) == trim_end(s@, b as int),
        decreases b,
    {
        b = b - 1;
    }
    (a, b)
}

/// `s` without its leading and trailing whitespace.
fn trim_text(s: &Vec<char>) -> (r: String)
    ensures
        r@ == trimmed(s@),
{
    let (a, b) = trim_bounds(s);
    if a < b {
        string_of(s, a, b)
    } else {
        String::new()
    }
}

/// The value of literal text on its own.
pub fn parse_simple_value(text: &str) -> (r: Value)
    ensures
        r@ == simple_value_spec(text@),
{
    let s = chars_of(text);
    match tokenize(&s) {
        Ok(toks) => if toks.len() == 1 && !matches!(toks[0].kind, crate::error::TokenKind::Punct(_)) {
            coerce_token(&s, &toks[0])
        } else {
            Value::Identifier(trim_text(&s))
        },
        Err(_) => Value::Identifier(trim_text(&s)),
    }
}

/// The sqlparser expression of a value.
pub fn value_expr(v: &Value) -> (r: Expr)
    ensures
        r == expr_of(v@),
{
    match v {
        Value::Str(s) => string_expr(s.clone()),
        Value::Integer(n) => number_expr(integer_text(*n)),
        Value::Float(s) => number_expr(s.clone()),
        Value::Boolean(b) => boolean_expr(*b),
        Value::Identifier(s) => identifier_expr(s.clone()),
    }
}

/// The bare name of each return item, `None` for an item that is none.
pub fn bare_names(items: &[SelectItem]) -> (r: Vec<Option<String>>)
    ensures
        names_view(r@) == bare_names_of(items@),
{
    let mut out: Vec<Option<String>> = Vec::new();
    let mut i: usize = 0;
    while i < items.len()
        invariant
            i <= items@.len(),
            out@.len() == i,
            forall|k: int| 0 <= k < i ==> opt_view(#[trigger] out@[k]) == bare_name_of(items@[k]),
        decreases items@.len() - i,
    {
        let n = bare_name(&items[i]);
        out.push(n);
        i = i + 1;
    }
    assert(names_view(out@) =~= bare_names_of(items@));
    out
}

/// The select list of a plan: `*` in place of the item at a wildcard
/// position, else the return item it keeps.
pub fn project(projection: &Vec<Projection>, items: &[SelectItem]) -> (r: Vec<SelectItem>)
    requires
        projection@.len() == items@.len(),
        forall|j: int|
            0 <= j < projection@.len() ==> (#[trigger] projection@[j] matches Projection::Keep(i)
                ==> i < items@.len()),
    ensures
        r@ == projected(projection@, items@),
{
    let mut out: Vec<SelectItem> = Vec::new();
    let mut j: usize = 0;
    while j < projection.len()
        invariant
            j <= projection@.len(),
            projection@.len() == items@.len(),
            out@.len() == j,
            forall|j: int|
                0 <= j < projection@.len() ==> (#[trigger] projection@[j] matches Projection::Keep(i)
                    ==> i < items@.len()),
            forall|k: int| 0 <= k < j ==> #[trigger] out@[k] == projected(projection@, items@)[k],
        decreases projection@.len() - j,
    {
        match projection[j] {
            Projection::Wildcard => out.push(wildcard_item(&items[j])),
            Projection::Keep(i) => out.push(clone_item(&items[i])),
        }
        j = j + 1;
    }
    assert(out@ =~= projected(projection@, items@));
    out
}

/// The sqlparser statement of an insert plan.
pub fn emit_insert(plan: &InsertPlan) -> (r: Statement)
    ensures
        r == insert_statement_spec(plan@),
{
    let ghost m = plan@;
    let mut columns: Vec<ObjectName> = Vec::new();
    let mut i: usize = 0;
    while i < plan.columns.len()
        invariant
            i <= plan.columns@.len(),
            m == plan@,
            columns@.len() == i,
            forall|k: int| 0 <= k < i ==> #[trigger] columns@[k] == object_name_of(m.columns[k]),
        decreases plan.columns@.len() - i,
    {
        columns.push(object_name(plan.columns[i].clone()));
        i = i + 1;
    }
    let mut row: Vec<Expr> = Vec::new();
    let mut k: usize = 0;
    while k < plan.values.len()
        invariant
            k <= plan.values@.len(),
            m == plan@,
            row@.len() == k,
            forall|q: int| 0 <= q < k ==> #[trigger] row@[q] == expr_of(m.values[q]),
        decreases plan.values@.len() - k,
    {
        row.push(value_expr(&plan.values[k]));
        k = k + 1;
    }
    assert(columns@ =~= m.columns.map_values(|c: Seq<char>| object_name_of(c)));
    assert(row@ =~= m.values.map_values(|v: ValueModel| expr_of(v)));
    insert_statement(object_name(plan.table.clone()), columns, values_query(row))
}

/// Translates a match of the pattern text, with an optional `WHERE`
/// expression and the return items, into a select statement: the label is
/// the table, the variable its alias, a return item that names the variable
/// becomes `*`, the rest pass through as they are, and the filter stands in
/// the `WHERE` position unchanged.
pub fn cypher_to_sql(pattern: &str, where_clause: &Option<Expr>, return_items: &[SelectItem]) -> (r:
    Result<Statement, TranslateError>)
    ensures
        match match_spec(pattern@, bare_names_of(return_items@)) {
            Ok(m) => r == Ok::<Statement, TranslateError>(
                select_statement_spec(m, return_items@, *where_clause),
            ),
            Err(e) => r == Err::<Statement, TranslateError>(e),
        },
{
    let bare = bare_names(return_items);
    let plan = match plan_match(pattern, &bare) {
        Ok(plan) => plan,
        Err(e) => {
            return Err(e);
        },
    };
    let ghost m = plan@;
    let projection = project(&plan.projection, return_items);
    let alias = match plan.alias {
        Some(a) => Some(table_alias(a)),
        None => None,
    };
    assert(alias == alias_of(m.alias));
    let mut from: Vec<TableWithJoins> = Vec::new();
    from.push(table_ref(object_name(plan.table), alias));
    assert(from@ =~= seq![table_ref_of(object_name_of(m.table), alias_of(m.alias))]);
    Ok(select_statement(create_select(projection, from, clone_filter(where_clause))))
}

/// Translates a create of the pattern text into an insert statement: the
/// label is the table, the property keys the columns and the property
/// values the one row.
pub fn cypher_create_to_sql(pattern: &str) -> (r: Result<Statement, TranslateError>)
    ensures
        match create_spec(pattern@) {
            Ok(m) => r == Ok::<Statement, TranslateError>(insert_statement_spec(m)),
            Err(e) => r == Err::<Statement, TranslateError>(e),
        },
{
    match plan_create(pattern) {
        Ok(plan) => Ok(emit_insert(&plan)),
        Err(e) => Err(e),
    }
}

} // verus!
