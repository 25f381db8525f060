//! sqlparser's statement model, as the emitter reaches it.
use vstd::prelude::*;
use sqlparser::ast::helpers::attached_token::AttachedToken;
use sqlparser::ast::{
    Expr, GroupByExpr, Ident, Insert, ObjectName, Parens, Query, Select, SelectFlavor, SelectItem,
    SetExpr, Statement, TableAlias, TableFactor, TableObject, TableWithJoins, Values,
    WildcardAdditionalOptions,
};

verus! {

#[verifier::external_type_specification]
#[verifier::external_body]
pub struct ExStatement(Statement);

#[verifier::external_type_specification]
#[verifier::external_body]
pub struct ExExpr(Expr);

#[verifier::external_type_specification]
#[verifier::external_body]
pub struct ExSelectItem(SelectItem);

#[verifier::external_type_specification]
#[verifier::external_body]
pub struct ExSelect(Select);

#[verifier::external_type_specification]
#[verifier::external_body]
pub struct ExQuery(Query);

#[verifier::external_type_specification]
#[verifier::external_body]
pub struct ExTableWithJoins(TableWithJoins);

#[verifier::external_type_specification]
#[verifier::external_body]
pub struct ExObjectName(ObjectName);

#[verifier::external_type_specification]
#[verifier::external_body]
pub struct ExTableAlias(TableAlias);

/// The ten decimal digits, `'0'` first.
pub open spec fn decimal_digits() -> Seq<char> {
    seq!['0', '1', '2', '3', '4', '5', '6', '7', '8', '9']
}

/// The decimal digits of `n`, most significant first.
pub open spec fn digits_of(n: nat) -> Seq<char>
    decreases n,
{
    let d = decimal_digits();
    if n < 10 {
        seq![d[n as int]]
    } else {
        digits_of(n / 10).push(d[(n % 10) as int])
    }
}

/// The decimal text of `n`, with a minus sign when it is negative.
pub open spec fn decimal_of(n: int) -> Seq<char> {
    if n < 0 {
        seq!['-'] + digits_of((-n) as nat)
    } else {
        digits_of(n as nat)
    }
}

/// A quoted string literal expression.
pub uninterp spec fn string_expr_of(s: Seq<char>) -> Expr;

/// A number literal expression with this text.
pub uninterp spec fn number_expr_of(text: Seq<char>) -> Expr;

/// A boolean literal expression.
pub uninterp spec fn boolean_expr_of(b: bool) -> Expr;

/// An unquoted identifier expression.
pub uninterp spec fn identifier_expr_of(name: Seq<char>) -> Expr;

/// An unquoted one-part object name.
pub uninterp spec fn object_name_of(name: Seq<char>) -> ObjectName;

/// `AS name`.
pub uninterp spec fn table_alias_of(name: Seq<char>) -> TableAlias;

/// One table under an optional alias, without joins.
pub uninterp spec fn table_ref_of(name: ObjectName, alias: Option<TableAlias>) -> TableWithJoins;

/// A select with this select list, from list and `WHERE` expression alone.
pub uninterp spec fn select_of(projection: Seq<SelectItem>, from: Seq<TableWithJoins>, selection: Option<Expr>) -> Select;

/// A select as a query statement.
pub uninterp spec fn select_statement_of(select: Select) -> Statement;

/// A `VALUES` query of one row.
pub uninterp spec fn values_query_of(row: Seq<Expr>) -> Query;

/// `INSERT INTO table (columns) source`.
pub uninterp spec fn insert_of(table: ObjectName, columns: Seq<ObjectName>, source: Query) -> Statement;

/// Relies on `i64`'s `Display` (through `to_string`): its decimal text.
#[verifier::external_body]
pub(crate) fn integer_text(n: i64) -> (r: String)
    ensures
        r@ == decimal_of(n as int),
{
    n.to_string()
}

/// Relies on `Clone` as derived for sqlparser's `SelectItem`: a copy.
#[verifier::external_body]
pub(crate) fn clone_item(item: &SelectItem) -> (r: SelectItem)
    ensures
        r == *item,
{
    item.clone()
}

/// Relies on `Clone` as derived for sqlparser's `Expr`: a copy.
#[verifier::external_body]
pub(crate) fn clone_filter(filter: &Option<Expr>) -> (r: Option<Expr>)
    ensures
        r == *filter,
{
    filter.clone()
}

/// The name of a return item that is one bare identifier, `None` for any
/// other item.
pub uninterp spec fn bare_name_of(item: SelectItem) -> Option<Seq<char>>;

/// Relies on sqlparser's `SelectItem::UnnamedExpr` holding `Expr::Identifier`:
/// the identifier's text for an item that is one bare name, else `None`.
#[verifier::external_body]
pub(crate) fn bare_name(item: &SelectItem) -> (r: Option<String>)
    ensures
        match r {
            Some(n) => bare_name_of(*item) == Some(n@),
            None => bare_name_of(*item) is None,
        },
{
    match item {
        SelectItem::UnnamedExpr(Expr::Identifier(id)) => Some(id.value.clone()),
        _ => None,
    }
}

/// The `*` that stands in place of a return item.
pub uninterp spec fn wildcard_of(item: SelectItem) -> SelectItem;

/// Relies on sqlparser's `SelectItem::Wildcard` with default options: `*`,
/// the same whatever item it replaces.
#[verifier::external_body]
pub(crate) fn wildcard_item(item: &SelectItem) -> (r: SelectItem)
    ensures
        r == wildcard_of(*item),
{
    SelectItem::Wildcard(WildcardAdditionalOptions::default())
}

/// Relies on sqlparser's `Value::SingleQuotedString`: a quoted string literal.
#[verifier::external_body]
pub(crate) fn string_expr(s: String) -> (r: Expr)
    ensures
        r == string_expr_of(s@),
{
    Expr::Value(sqlparser::ast::Value::SingleQuotedString(s).into())
}

/// Relies on sqlparser's `Value::Number`: a number literal with this text.
#[verifier::external_body]
pub(crate) fn number_expr(text: String) -> (r: Expr)
    ensures
        r == number_expr_of(text@),
{
    Expr::Value(sqlparser::ast::Value::Number(text, false).into())
}

/// Relies on sqlparser's `Value::Boolean`: `TRUE` or `FALSE`.
#[verifier::external_body]
pub(crate) fn boolean_expr(b: bool) -> (r: Expr)
    ensures
        r == boolean_expr_of(b),
{
    Expr::Value(sqlparser::ast::Value::Boolean(b).into())
}

/// Relies on sqlparser's `Expr::Identifier` built by `Ident::new`: an
/// unquoted name.
#[verifier::external_body]
pub(crate) fn identifier_expr(name: String) -> (r: Expr)
    ensures
        r == identifier_expr_of(name@),
{
    Expr::Identifier(Ident::new(name))
}

/// Relies on sqlparser's `ObjectName` from one `Ident::new`: an unquoted
/// one-part name.
#[verifier::external_body]
pub(crate) fn object_name(name: String) -> (r: ObjectName)
    ensures
        r == object_name_of(name@),
{
    ObjectName::from(vec![Ident::new(name)])
}

/// Relies on sqlparser's `TableAlias`: `AS name`, with no column list.
#[verifier::external_body]
pub(crate) fn table_alias(name: String) -> (r: TableAlias)
    ensures
        r == table_alias_of(name@),
{
    TableAlias { explicit: true, name: Ident::new(name), columns: vec![], at: None }
}

/// Relies on sqlparser's `TableFactor::Table`: the table `name` under the
/// alias where there is one, and no joins.
#[verifier::external_body]
pub(crate) fn table_ref(name: ObjectName, alias: Option<TableAlias>) -> (r: TableWithJoins)
    ensures
        r == table_ref_of(name, alias),
{
    let relation = TableFactor::Table { name, alias, args: None, with_hints: vec![], version: None,
        with_ordinality: false, partitions: vec![], json_path: None, sample: None, index_hints: vec![] };
    TableWithJoins { relation, joins: vec![] }
}

/// Relies on sqlparser's `Select`: this select list, from list and `WHERE`
/// expression, and no other clause.
#[verifier::external_body]
pub(crate) fn create_select(projection: Vec<SelectItem>, from: Vec<TableWithJoins>, selection: Option<Expr>) -> (r: Select)
    ensures
        r == select_of(projection@, from@, selection),
{
    Select { select_token: AttachedToken::empty(), optimizer_hints: vec![], distinct: None,
        select_modifiers: None, top: None, top_before_distinct: false, projection, exclude: None,
        into: None, from, lateral_views: vec![], prewhere: None, selection, connect_by: vec![],
        group_by: GroupByExpr::Expressions(vec![], vec![]), cluster_by: vec![], distribute_by: vec![],
        sort_by: vec![], having: None, named_window: vec![], qualify: None,
        window_before_qualify: false, value_table_mode: None, flavor: SelectFlavor::Standard }
}

/// Relies on sqlparser's `Statement::Query` over `SetExpr::Select`: the
/// select as a statement, with no other clause.
#[verifier::external_body]
pub(crate) fn select_statement(select: Select) -> (r: Statement)
    ensures
        r == select_statement_of(select),
{
    let body = Box::new(SetExpr::Select(Box::new(select)));
    Statement::Query(Box::new(Query { with: None, body, order_by: None, limit_clause: None, fetch: None,
        locks: vec![], for_clause: None, settings: None, format_clause: None, pipe_operators: vec![] }))
}

/// Relies on sqlparser's `Query` over `SetExpr::Values`: a `VALUES` list of
/// one row, with no other clause.
#[verifier::external_body]
pub(crate) fn values_query(row: Vec<Expr>) -> (r: Query)
    ensures
        r == values_query_of(row@),
{
    let row = Parens { opening_token: AttachedToken::empty(), content: row, closing_token: AttachedToken::empty() };
    let body = Box::new(SetExpr::Values(Values { explicit_row: false, value_keyword: false, rows: vec![row] }));
    Query { with: None, body, order_by: None, limit_clause: None, fetch: None, locks: vec![],
        for_clause: None, settings: None, format_clause: None, pipe_operators: vec![] }
}

/// Relies on sqlparser's `Insert`: `INSERT INTO table (columns) source`,
/// with no other clause.
#[verifier::external_body]
pub(crate) fn insert_statement(table: ObjectName, columns: Vec<ObjectName>, source: Query) -> (r: Statement)
    ensures
        r == insert_of(table, columns@, source),
{
    Statement::Insert(Insert { insert_token: AttachedToken::empty(), optimizer_hints: vec![], or: None,
        ignore: false, into: true, table: TableObject::TableName(table), table_alias: None, columns,
        overwrite: false, source: Some(Box::new(source)), assignments: vec![], partitioned: None,
        after_columns: vec![], has_table_keyword: false, on: None, returning: None, output: None,
        replace_into: false, priority: None, insert_alias: None, settings: None, format_clause: None,
        multi_table_insert_type: None, multi_table_into_clauses: vec![], multi_table_when_clauses: vec![],
        multi_table_else_clause: None })
}

} // verus!
