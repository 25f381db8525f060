use vstd::prelude::*;
use crate::error::TokenKind;
use crate::lexer::{Token, is_digit, is_digit_exec, token_text, is_true_word, is_true_word_exec};
use crate::text::string_of;

verus! {

/// A typed literal value of a property.
#[derive(Debug, Clone, PartialEq, Eq)]
pub enum Value {
    Str(String),
    Integer(i64),
    /// A decimal number that is no 64-bit integer, kept as written.
    Float(String),
    Boolean(bool),
    /// A bare name, kept for expressions that refer to other variables.
    Identifier(String),
}

/// The mathematical model of a [`Value`].
pub enum ValueModel {
    Str(Seq<char>),
    Integer(int),
    Float(Seq<char>),
    Boolean(bool),
    Identifier(Seq<char>),
}

impl View for Value {
    type V = ValueModel;

    open spec fn view(&self) -> ValueModel {
        match self {
            Value::Str(s) => ValueModel::Str(s@),
            Value::Integer(n) => ValueModel::Integer(*n as int),
            Value::Float(s) => ValueModel::Float(s@),
            Value::Boolean(b) => ValueModel::Boolean(*b),
            Value::Identifier(s) => ValueModel::Identifier(s@),
        }
    }
}

pub open spec fn all_digits(d: Seq<char>) -> bool {
    forall|i: int| 0 <= i < d.len() ==> is_digit(#[trigger] d[i])
}

pub open spec fn digit_value(c: char) -> int {
    (c as u32) as int - 48
}

/// The number that the decimal digits `d` spell.
pub open spec fn digits_value(d: Seq<char>) -> int
    decreases d.len(),
{
    if d.len() == 0 {
        0
    } else {
        digits_value(d.drop_last()) * 10 + digit_value(d.last())
    }
}

pub open spec fn is_negative(t: Seq<char>) -> bool {
    t.len() > 0 && t[0] == '-'
}

pub open spec fn has_sign(t: Seq<char>) -> bool {
    t.len() > 0 && (t[0] == '-' || t[0] == '+')
}

/// The text without its leading sign, if it has one.
pub open spec fn unsigned_part(t: Seq<char>) -> Seq<char> {
    if has_sign(t) {
        t.subrange(1, t.len() as int)
    } else {
        t
    }
}

/// The 64-bit signed integer that `t` spells, if it spells one.
pub open spec fn integer_of(t: Seq<char>) -> Option<int> {
    let u = unsigned_part(t);
    if u.len() > 0 && all_digits(u) {
        let v = if is_negative(t) {
            -digits_value(u)
        } else {
            digits_value(u)
        };
        if i64::MIN <= v <= i64::MAX {
            Some(v)
        } else {
            None
        }
    } else {
        None
    }
}

/// The end of the run of digits that starts at `i`.
pub open spec fn scan_digits(s: Seq<char>, i: int) -> int
    decreases s.len() - i,
{
    if 0 <= i < s.len() && is_digit(s[i]) {
        scan_digits(s, i + 1)
    } else {
        i
    }
}

/// A decimal number: an optional sign, digits, and optionally a dot
/// followed by more digits.
pub open spec fn is_decimal_text(t: Seq<char>) -> bool {
    let u = unsigned_part(t);
    let j = scan_digits(u, 0);
    0 < j && (j == u.len() || (u[j] == '.' && j + 1 < u.len() && scan_digits(u, j + 1)
        == u.len()))
}

/// The value of a literal token: a quoted literal is a string; `true` and
/// `false` are booleans; a number is an integer where it is a 64-bit one,
/// else a float where it is decimal; everything else is a bare name.
pub open spec fn coerce(s: Seq<char>, t: Token) -> ValueModel {
    let txt = token_text(s, t);
    match t.kind {
        TokenKind::StringLiteral => ValueModel::Str(s.subrange(t.start + 1, t.end - 1)),
        TokenKind::BooleanLiteral => ValueModel::Boolean(is_true_word(txt)),
        TokenKind::NumberLiteral => match integer_of(txt) {
            Some(v) => ValueModel::Integer(v),
            None => if is_decimal_text(txt) {
                ValueModel::Float(txt)
            } else {
                ValueModel::Identifier(txt)
            },
        },
        _ => ValueModel::Identifier(txt),
    }
}

/// A prefix of a run of digits spells no larger number than the whole run.
proof fn lemma_prefix_value_le(d: Seq<char>, j: int)
    requires
        all_digits(d),
        0 <= j <= d.len(),
    ensures
        0 <= digits_value(d.subrange(0, j)) <= digits_value(d),
    decreases d.len(),
{
    if j < d.len() {
        let p = d.drop_last();
        assert(all_digits(p));
        lemma_prefix_value_le(p, j);
        assert(p.subrange(0, j) =~= d.subrange(0, j));
        assert(is_digit(d[d.len() - 1]));
    } else {
        assert(d.subrange(0, j) =~= d);
        lemma_value_nonneg(d);
    }
}

proof fn lemma_value_nonneg(d: Seq<char>)
    requires
        all_digits(d),
    ensures
        0 <= digits_value(d),
    decreases d.len(),
{
    if d.len() > 0 {
        let p = d.drop_last();
        assert(all_digits(p));
        lemma_value_nonneg(p);
        assert(is_digit(d[d.len() - 1]));
    }
}

/// The end of the run of digits in `s` that starts at `i`, below `end`.
fn scan_digits_exec(s: &Vec<char>, i: usize, end: usize) -> (r: usize)
    requires
        i <= end <= s@.len(),
    ensures
        r as int == i + scan_digits(s@.subrange(i as int, end as int), 0),
        i <= r <= end,
{
    let ghost u = s@.subrange(i as int, end as int);
    let mut j: usize = i;
    while j < end && is_digit_exec(s[j])
        invariant
            i <= j <= end <= s@.len(),
            u == s@.subrange(i as int, end as int),
            scan_digits(u, 0) == scan_digits(u, j - i),
        decreases end - j,
    {
        j = j + 1;
    }
    j
}

/// The integer that `s[start..end]` spells, if it spells a 64-bit one.
fn integer_exec(s: &Vec<char>, start: usize, end: usize) -> (r: Option<i64>)
    requires
        start <= end <= s@.len(),
    ensures
        match integer_of(s@.subrange(start as int, end as int)) {
            Some(v) => r == Some(v as i64),
            None => r is None,
        },
{
    let ghost t = s@.subrange(start as int, end as int);
    let neg = start < end && s[start] == '-';
    let signed = start < end && (s[start] == '-' || s[start] == '+');
    let b: usize = if signed { start + 1 } else { start };
    let ghost u = s@.subrange(b as int, end as int);
    assert(is_negative(t) == neg);
    assert(u =~= unsigned_part(t));
    if b == end {
        return None;
    }
    let mut k: usize = b;
    while k < end
        invariant
            b <= k <= end <= s@.len(),
            u == s@.subrange(b as int, end as int),
            u == unsigned_part(t),
            t == s@.subrange(start as int, end as int),
            forall|i: int| b <= i < k ==> is_digit(#[trigger] s@[i]),
        decreases end - k,
    {
        if !is_digit_exec(s[k]) {
            assert(!is_digit(u[k - b]));
            assert(!all_digits(u));
            return None;
        }
        k = k + 1;
    }
    assert(all_digits(u));
    let mut mag: u64 = 0;
    let mut j: usize = b;
    while j < end
        invariant
            b <= j <= end <= s@.len(),
            u == s@.subrange(b as int, end as int),
            u == unsigned_part(t),
            t == s@.subrange(start as int, end as int),
            is_negative(t) == neg,
            all_digits(u),
            mag as int == digits_value(u.subrange(0, j - b)),
            mag <= 9223372036854775808u64,
        decreases end - j,
    {
        assert(is_digit(u[j - b]));
        let d = (s[j] as u32 - 48) as u64;
        assert(u.subrange(0, j + 1 - b).drop_last() =~= u.subrange(0, j - b));
        assert(digits_value(u.subrange(0, j + 1 - b)) == mag * 10 + d);
        if mag > 922337203685477580u64 || (mag == 922337203685477580u64 && d > 8) {
            proof {
                assert(digits_value(u.subrange(0, j + 1 - b)) > 9223372036854775808);
                lemma_prefix_value_le(u, j + 1 - b);
                assert(digits_value(u) > 9223372036854775808);
                assert(integer_of(t) is None);
            }
            return None;
        }
        mag = mag * 10 + d;
        j = j + 1;
    }
    assert(u.subrange(0, end - b) =~= u);
    if neg {
        if mag == 9223372036854775808u64 {
            Some(i64::MIN)
        } else {
            Some(-(mag as i64))
        }
    } else if mag <= 9223372036854775807u64 {
        Some(mag as i64)
    } else {
        None
    }
}

/// Whether `s[start..end]` is decimal number text.
fn is_decimal_exec(s: &Vec<char>, start: usize, end: usize) -> (r: bool)
    requires
        start <= end <= s@.len(),
    ensures
        r == is_decimal_text(s@.subrange(start as int, end as int)),
{
    let ghost t = s@.subrange(start as int, end as int);
    let signed = start < end && (s[start] == '-' || s[start] == '+');
    let b: usize = if signed { start + 1 } else { start };
    let ghost u = s@.subrange(b as int, end as int);
    assert(u =~= unsigned_part(t));
    let j = scan_digits_exec(s, b, end);
    if j == b {
        return false;
    }
    if j == end {
        return true;
    }
    if s[j] != '.' || j + 1 >= end {
        return false;
    }
    let e = scan_digits_exec(s, j + 1, end);
    proof {
        lemma_scan_digits_shift(s@, b as int, j as int + 1, end as int);
    }
    e == end
}

/// Scanning digits within a suffix agrees with scanning within the whole.
proof fn lemma_scan_digits_shift(s: Seq<char>, b: int, i: int, end: int)
    requires
        0 <= b <= i <= end <= s.len(),
    ensures
        b + scan_digits(s.subrange(b, end), i - b) == i + scan_digits(s.subrange(i, end), 0),
    decreases end - i,
{
    let u = s.subrange(b, end);
    let w = s.subrange(i, end);
    if i < end && is_digit(s[i]) {
        assert(u[i - b] == s[i]);
        assert(w[0] == s[i]);
        lemma_scan_digits_shift(s, b, i + 1, end);
        lemma_scan_digits_from(s, i, end, 1);
    } else {
        if i < end {
            assert(u[i - b] == s[i]);
            assert(w[0] == s[i]);
        }
    }
}

/// Scanning within `s[i..end]` from `k` agrees with scanning within `s[i+1..end]` from `k-1`.
proof fn lemma_scan_digits_from(s: Seq<char>, i: int, end: int, k: int)
    requires
        0 <= i < end <= s.len(),
        1 <= k <= end - i,
    ensures
        scan_digits(s.subrange(i, end), k) == 1 + scan_digits(s.subrange(i + 1, end), k - 1),
    decreases end - i - k,
{
    let w = s.subrange(i, end);
    let v = s.subrange(i + 1, end);
    if k < end - i {
        assert(w[k] == v[k - 1]);
        if is_digit(w[k]) {
            lemma_scan_digits_from(s, i, end, k + 1);
        }
    }
}

/// The value of a literal token of `s`.
pub fn coerce_token(s: &Vec<char>, t: &Token) -> (r: Value)
    requires
        t.start < t.end <= s@.len(),
        t.kind is StringLiteral ==> t.start + 1 < t.end,
    ensures
        r@ == coerce(s@, *t),
{
    match t.kind {
        TokenKind::StringLiteral => Value::Str(string_of(s, t.start + 1, t.end - 1)),
        TokenKind::BooleanLiteral => Value::Boolean(is_true_word_exec(s, t.start, t.end)),
        TokenKind::NumberLiteral => {
            match integer_exec(s, t.start, t.end) {
                Some(v) => Value::Integer(v),
                None => if is_decimal_exec(s, t.start, t.end) {
                    Value::Float(string_of(s, t.start, t.end))
                } else {
                    Value::Identifier(string_of(s, t.start, t.end))
                },
            }
        },
        _ => Value::Identifier(string_of(s, t.start, t.end)),
    }
}

} // verus!
