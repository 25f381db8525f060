//! Laws that tie the translation functions together.
use vstd::prelude::*;
use crate::convert::{
    alias_of, bare_names_of, create_spec, expr_of, insert_statement_spec, match_spec, projected,
    select_statement_spec,
};
use sqlparser::ast::SelectItem;
use crate::error::{TokenKind, TranslateError};
use crate::pattern::{PatternModel, parse_pattern_spec};
use crate::translate::{
    Projection, SelectModel, keys_of, translate_create_spec, translate_match_spec, values_of,
};
use crate::convert::simple_value_spec;
use crate::lexer::{
    Token, is_ident_char, is_ident_start, is_number_char, is_true_word, is_false_word, lex,
    lex_from, next_token, scan_ident, scan_number, scan_to, is_space, is_digit,
};
use crate::sql::{
    decimal_digits, decimal_of, digits_of, insert_of, object_name_of, select_of,
    select_statement_of, table_ref_of, values_query_of, wildcard_of,
};
use crate::value::{
    ValueModel, all_digits, digits_value, digit_value, integer_of, is_decimal_text,
    scan_digits, unsigned_part,
};

verus! {

/// A create of a labelled pattern with properties inserts into the table
/// named by its label, one column per property key in the order written,
/// and a row of the coerced property values aligned with those columns.
pub proof fn lemma_create_columns_follow_properties(s: Seq<char>)
    requires
        parse_pattern_spec(s) is Ok,
        parse_pattern_spec(s)->Ok_0.labels.len() > 0,
        parse_pattern_spec(s)->Ok_0.properties.len() > 0,
    ensures
        ({
            let p = parse_pattern_spec(s)->Ok_0;
            let r = create_spec(s);
            &&& r is Ok
            &&& r->Ok_0.table == p.labels[0]
            &&& r->Ok_0.columns.len() == p.properties.len()
            &&& r->Ok_0.values.len() == p.properties.len()
            &&& forall|i: int|
                0 <= i < p.properties.len() ==> r->Ok_0.columns[i] == (#[trigger] p.properties[i]).0
                    && r->Ok_0.values[i] == p.properties[i].1
        }),
{
}

/// The insert statement of a create of a labelled pattern with properties
/// names the label's table, a column for each property key in order, and
/// one row of the coerced property values in the same order.
pub proof fn lemma_create_statement_follows_properties(s: Seq<char>)
    requires
        parse_pattern_spec(s) is Ok,
        parse_pattern_spec(s)->Ok_0.labels.len() > 0,
        parse_pattern_spec(s)->Ok_0.properties.len() > 0,
    ensures
        ({
            let p = parse_pattern_spec(s)->Ok_0;
            &&& create_spec(s) is Ok
            &&& insert_statement_spec(create_spec(s)->Ok_0) == insert_of(
                object_name_of(p.labels[0]),
                keys_of(p.properties).map_values(|c: Seq<char>| object_name_of(c)),
                values_query_of(values_of(p.properties).map_values(|v: ValueModel| expr_of(v))),
            )
        }),
{
}

/// A labelled pattern, as text, with an empty or absent property map gives
/// no insert: the create fails with `NoProperties`.
pub proof fn lemma_no_properties_text_no_insert(s: Seq<char>)
    requires
        parse_pattern_spec(s) is Ok,
        parse_pattern_spec(s)->Ok_0.labels.len() > 0,
        parse_pattern_spec(s)->Ok_0.properties.len() == 0,
    ensures
        create_spec(s) is Err,
        create_spec(s)->Err_0 == TranslateError::NoProperties,
{
}

/// Returning the whole node `var` of a pattern `(var:Label ...)`, as text,
/// gives the statement that selects `*` from `Label` under the alias `var`,
/// with the filter in the `WHERE` position, whatever name `var` has.
pub proof fn lemma_whole_node_statement(
    s: Seq<char>,
    var: Seq<char>,
    items: Seq<SelectItem>,
    filter: Option<sqlparser::ast::Expr>,
)
    requires
        parse_pattern_spec(s) is Ok,
        parse_pattern_spec(s)->Ok_0.variable == Some(var),
        parse_pattern_spec(s)->Ok_0.labels.len() > 0,
        bare_names_of(items) == seq![Some(var)],
    ensures
        ({
            let p = parse_pattern_spec(s)->Ok_0;
            &&& match_spec(s, bare_names_of(items)) is Ok
            &&& select_statement_spec(match_spec(s, bare_names_of(items))->Ok_0, items, filter)
                == select_statement_of(
                select_of(
                    seq![wildcard_of(items[0])],
                    seq![table_ref_of(object_name_of(p.labels[0]), alias_of(Some(var)))],
                    filter,
                ),
            )
        }),
{
    let p = parse_pattern_spec(s)->Ok_0;
    lemma_whole_node_is_wildcard(p, var);
    assert(items.len() == bare_names_of(items).len());
    let m = match_spec(s, bare_names_of(items))->Ok_0;
    assert(projected(m.projection, items) =~= seq![wildcard_of(items[0])]);
}

/// A pattern without a label translates neither as a match nor as a
/// create: both fail with `MissingLabel`.
pub proof fn lemma_no_label_no_translation(p: PatternModel, bare: Seq<Option<Seq<char>>>)
    requires
        p.labels.len() == 0,
    ensures
        translate_match_spec(p, bare) == Err::<SelectModel, TranslateError>(
            TranslateError::MissingLabel,
        ),
        translate_create_spec(p) is Err,
        translate_create_spec(p)->Err_0 == TranslateError::MissingLabel,
{
}

/// The same, for pattern text: text that parses to a pattern without a label
/// translates neither as a match nor as a create.
pub proof fn lemma_no_label_text_no_translation(s: Seq<char>, bare: Seq<Option<Seq<char>>>)
    requires
        parse_pattern_spec(s) is Ok,
        parse_pattern_spec(s)->Ok_0.labels.len() == 0,
    ensures
        match_spec(s, bare) == Err::<SelectModel, TranslateError>(TranslateError::MissingLabel),
        create_spec(s) is Err,
        create_spec(s)->Err_0 == TranslateError::MissingLabel,
{
}

/// A create of a labelled pattern whose property map is empty or absent
/// fails with `NoProperties`.
pub proof fn lemma_no_properties_no_insert(p: PatternModel)
    requires
        p.labels.len() > 0,
        p.properties.len() == 0,
    ensures
        translate_create_spec(p) is Err,
        translate_create_spec(p)->Err_0 == TranslateError::NoProperties,
{
}

/// Returning the whole node `var` of `(var:Label)` selects `*` from
/// `Label` under the alias `var`, whatever name `var` has.
pub proof fn lemma_whole_node_is_wildcard(p: PatternModel, var: Seq<char>)
    requires
        p.variable == Some(var),
        p.labels.len() > 0,
    ensures
        translate_match_spec(p, seq![Some(var)]) == Ok::<SelectModel, TranslateError>(
            SelectModel {
                table: p.labels[0],
                alias: Some(var),
                projection: seq![Projection::Wildcard],
            },
        ),
{
    let r = translate_match_spec(p, seq![Some(var)]);
    assert(r->Ok_0.projection =~= seq![Projection::Wildcard]);
}

/// The text that writes a value as a literal.
pub open spec fn literal_text(v: ValueModel) -> Seq<char> {
    match v {
        ValueModel::Str(c) => seq!['\''] + c + seq!['\''],
        ValueModel::Integer(n) => decimal_of(n),
        ValueModel::Float(t) => t,
        ValueModel::Boolean(b) => if b {
            seq!['t', 'r', 'u', 'e']
        } else {
            seq!['f', 'a', 'l', 's', 'e']
        },
        ValueModel::Identifier(t) => t,
    }
}

/// Values that a literal can write: a string without a single quote in
/// it, a 64-bit integer, decimal text that is no such integer, and a name
/// that is no boolean keyword.
pub open spec fn is_literal_value(v: ValueModel) -> bool {
    match v {
        ValueModel::Str(c) => forall|i: int| 0 <= i < c.len() ==> #[trigger] c[i] != '\'',
        ValueModel::Integer(n) => i64::MIN <= n <= i64::MAX,
        ValueModel::Float(t) => is_decimal_text(t) && integer_of(t) is None,
        ValueModel::Boolean(_) => true,
        ValueModel::Identifier(t) => t.len() > 0 && is_ident_start(t[0]) && (forall|i: int|
            0 <= i < t.len() ==> is_ident_char(#[trigger] t[i])) && !is_true_word(t)
            && !is_false_word(t),
    }
}

/// Text that is one token from its first character to its end lexes as
/// that token alone.
proof fn lemma_single_token(s: Seq<char>, t: Token)
    requires
        s.len() > 0,
        !is_space(s[0]),
        next_token(s, 0) == Ok::<Token, TranslateError>(t),
        t.end == s.len(),
    ensures
        lex(s) == Ok::<Seq<Token>, TranslateError>(seq![t]),
{
    assert(lex_from(s, s.len() as int) == Ok::<Seq<Token>, TranslateError>(Seq::empty()));
    assert(seq![t] + Seq::<Token>::empty() =~= seq![t]);
}

proof fn lemma_scan_to_last(s: Seq<char>, i: int, q: char)
    requires
        1 <= i <= s.len() - 1,
        s[s.len() - 1] == q,
        forall|k: int| i <= k < s.len() - 1 ==> #[trigger] s[k] != q,
    ensures
        scan_to(s, i, q) == s.len() - 1,
    decreases s.len() - i,
{
    if i < s.len() - 1 {
        lemma_scan_to_last(s, i + 1, q);
    }
}

proof fn lemma_scan_ident_all(s: Seq<char>, i: int)
    requires
        0 <= i <= s.len(),
        forall|k: int| i <= k < s.len() ==> is_ident_char(#[trigger] s[k]),
    ensures
        scan_ident(s, i) == s.len(),
    decreases s.len() - i,
{
    if i < s.len() {
        lemma_scan_ident_all(s, i + 1);
    }
}

proof fn lemma_scan_number_all(s: Seq<char>, i: int)
    requires
        0 <= i <= s.len(),
        forall|k: int| i <= k < s.len() ==> is_number_char(#[trigger] s[k]),
    ensures
        scan_number(s, i) == s.len(),
    decreases s.len() - i,
{
    if i < s.len() {
        lemma_scan_number_all(s, i + 1);
    }
}

proof fn lemma_scan_digits_are_digits(u: Seq<char>, i: int)
    requires
        0 <= i <= u.len(),
    ensures
        i <= scan_digits(u, i) <= u.len(),
        forall|k: int| i <= k < scan_digits(u, i) ==> is_digit(#[trigger] u[k]),
    decreases u.len() - i,
{
    if i < u.len() && is_digit(u[i]) {
        lemma_scan_digits_are_digits(u, i + 1);
    }
}

proof fn lemma_digit_chars()
    ensures
        forall|k: int|
            0 <= k < 10 ==> is_digit(#[trigger] decimal_digits()[k]) && digit_value(decimal_digits()[k])
                == k,
{
    let d = decimal_digits();
    assert forall|k: int| 0 <= k < 10 implies is_digit(#[trigger] d[k]) && digit_value(d[k]) == k by {
        if k == 0 { assert(d[k] == '0'); }
        else if k == 1 { assert(d[k] == '1'); }
        else if k == 2 { assert(d[k] == '2'); }
        else if k == 3 { assert(d[k] == '3'); }
        else if k == 4 { assert(d[k] == '4'); }
        else if k == 5 { assert(d[k] == '5'); }
        else if k == 6 { assert(d[k] == '6'); }
        else if k == 7 { assert(d[k] == '7'); }
        else if k == 8 { assert(d[k] == '8'); }
        else { assert(d[k] == '9'); }
    }
}

/// The decimal digits of `m` are digits, at least one, and spell `m`.
proof fn lemma_digits_of(m: nat)
    ensures
        digits_of(m).len() >= 1,
        all_digits(digits_of(m)),
        digits_value(digits_of(m)) == m,
    decreases m,
{
    lemma_digit_chars();
    let d = decimal_digits();
    if m >= 10 {
        lemma_digits_of(m / 10);
        let ds = digits_of(m);
        assert(ds.drop_last() =~= digits_of(m / 10));
        assert(ds.last() == d[(m % 10) as int]);
        assert(digit_value(d[(m % 10) as int]) == m % 10);
        assert(digits_value(ds) == digits_value(digits_of(m / 10)) * 10 + m % 10);
        assert(m == (m / 10) * 10 + m % 10);
        assert forall|i: int| 0 <= i < ds.len() implies is_digit(#[trigger] ds[i]) by {
            if i < ds.len() - 1 {
                assert(ds[i] == digits_of(m / 10)[i]);
            }
        }
    } else {
        let ds = digits_of(m);
        assert(ds[0] == d[m as int]);
        assert(ds.drop_last() =~= Seq::<char>::empty());
        assert(digit_value(d[m as int]) == m);
        assert(digits_value(ds) == digits_value(ds.drop_last()) * 10 + digit_value(ds.last()));
    }
}

proof fn lemma_string_round_trip(c: Seq<char>)
    requires
        is_literal_value(ValueModel::Str(c)),
        literal_text(ValueModel::Str(c)).len() <= usize::MAX,
    ensures
        simple_value_spec(literal_text(ValueModel::Str(c))) == ValueModel::Str(c),
{
    let s = literal_text(ValueModel::Str(c));
    let q = '\'';
    assert(s[0] == q);
    assert(s[s.len() - 1] == q);
    assert forall|k: int| 1 <= k < s.len() - 1 implies #[trigger] s[k] != q by {
        assert(s[k] == c[k - 1]);
    }
    lemma_scan_to_last(s, 1, q);
    let t = Token { kind: TokenKind::StringLiteral, start: 0, end: s.len() as usize };
    assert(next_token(s, 0) == Ok::<Token, TranslateError>(t));
    lemma_single_token(s, t);
    assert(s.subrange(1, s.len() - 1) =~= c);
}

/// Text made of identifier characters, starting with a letter or `_`,
/// lexes as one word token.
proof fn lemma_word_round_trip(s: Seq<char>)
    requires
        s.len() > 0,
        s.len() <= usize::MAX,
        is_ident_start(s[0]),
        forall|i: int| 0 <= i < s.len() ==> is_ident_char(#[trigger] s[i]),
    ensures
        lex(s) == Ok::<Seq<Token>, TranslateError>(
            seq![Token {
                kind: if is_true_word(s) || is_false_word(s) {
                    TokenKind::BooleanLiteral
                } else {
                    TokenKind::Identifier
                },
                start: 0,
                end: s.len() as usize,
            }],
        ),
{
    lemma_scan_ident_all(s, 0);
    assert(s.subrange(0, s.len() as int) =~= s);
    let t = Token {
        kind: if is_true_word(s) || is_false_word(s) {
            TokenKind::BooleanLiteral
        } else {
            TokenKind::Identifier
        },
        start: 0,
        end: s.len() as usize,
    };
    assert(next_token(s, 0) == Ok::<Token, TranslateError>(t));
    lemma_single_token(s, t);
}

/// Number text, a digit after an optional sign and then digits and
/// dots, lexes as one number token.
proof fn lemma_number_round_trip(s: Seq<char>, b: int)
    requires
        s.len() <= usize::MAX,
        b == 0 || (b == 1 && (s[0] == '-' || s[0] == '+')),
        b < s.len(),
        is_digit(s[b]),
        forall|k: int| b <= k < s.len() ==> is_number_char(#[trigger] s[k]),
    ensures
        lex(s) == Ok::<Seq<Token>, TranslateError>(
            seq![Token { kind: TokenKind::NumberLiteral, start: 0, end: s.len() as usize }],
        ),
{
    lemma_scan_number_all(s, b);
    let t = Token { kind: TokenKind::NumberLiteral, start: 0, end: s.len() as usize };
    assert(next_token(s, 0) == Ok::<Token, TranslateError>(t));
    lemma_single_token(s, t);
}

proof fn lemma_integer_round_trip(n: int)
    requires
        i64::MIN <= n <= i64::MAX,
        decimal_of(n).len() <= usize::MAX,
    ensures
        simple_value_spec(decimal_of(n)) == ValueModel::Integer(n),
{
    let s = decimal_of(n);
    if n < 0 {
        let ds = digits_of((-n) as nat);
        lemma_digits_of((-n) as nat);
        assert(s =~= seq!['-'] + ds);
        assert(is_digit(ds[0]));
        assert forall|k: int| 1 <= k < s.len() implies is_number_char(#[trigger] s[k]) by {
            assert(s[k] == ds[k - 1]);
            assert(is_digit(ds[k - 1]));
        }
        lemma_number_round_trip(s, 1);
        assert(s.subrange(0, s.len() as int) =~= s);
        assert(unsigned_part(s) =~= ds);
    } else {
        let ds = digits_of(n as nat);
        lemma_digits_of(n as nat);
        assert(is_digit(ds[0]));
        assert forall|k: int| 0 <= k < s.len() implies is_number_char(#[trigger] s[k]) by {
            assert(is_digit(ds[k]));
        }
        lemma_number_round_trip(s, 0);
        assert(s.subrange(0, s.len() as int) =~= s);
        assert(unsigned_part(s) =~= ds);
    }
}

proof fn lemma_float_round_trip(s: Seq<char>)
    requires
        is_decimal_text(s),
        integer_of(s) is None,
        s.len() <= usize::MAX,
    ensures
        simple_value_spec(s) == ValueModel::Float(s),
{
    let u = unsigned_part(s);
    let j = scan_digits(u, 0);
    lemma_scan_digits_are_digits(u, 0);
    if j < u.len() {
        lemma_scan_digits_are_digits(u, j + 1);
    }
    assert forall|k: int| 0 <= k < u.len() implies is_number_char(#[trigger] u[k]) by {
        if k < j {
            assert(is_digit(u[k]));
        } else if k > j {
            assert(is_digit(u[k]));
        }
    }
    assert(is_digit(u[0]));
    let b: int = if s.len() > 0 && (s[0] == '-' || s[0] == '+') { 1 } else { 0 };
    assert forall|k: int| b <= k < s.len() implies is_number_char(#[trigger] s[k]) by {
        assert(s[k] == u[k - b]);
    }
    assert(s[b] == u[0]);
    lemma_number_round_trip(s, b);
    assert(s.subrange(0, s.len() as int) =~= s);
}

/// Tokenizing the literal text of a value and coercing it gives the value
/// back.
pub proof fn lemma_literal_round_trip(v: ValueModel)
    requires
        is_literal_value(v),
        literal_text(v).len() <= usize::MAX,
    ensures
        simple_value_spec(literal_text(v)) == v,
{
    let s = literal_text(v);
    match v {
        ValueModel::Str(c) => lemma_string_round_trip(c),
        ValueModel::Integer(n) => lemma_integer_round_trip(n),
        ValueModel::Float(w) => lemma_float_round_trip(w),
        ValueModel::Identifier(w) => {
            lemma_word_round_trip(w);
            assert(w.subrange(0, w.len() as int) =~= w);
        },
        _ => {
            lemma_word_round_trip(s);
            assert(s.subrange(0, s.len() as int) =~= s);
        },
    }
}

} // verus!
