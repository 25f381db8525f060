use vstd::prelude::*;
use crate::error::{LexFault, TokenKind, TranslateError};

verus! {

/// A token: its kind and the span `[start, end)` of characters it covers.
#[derive(Debug, Clone, Copy, PartialEq, Eq, Structural)]
pub struct Token {
    pub kind: TokenKind,
    pub start: usize,
    pub end: usize,
}

pub open spec fn is_space(c: char) -> bool {
    c == ' ' || c == '\t' || c == '\n' || c == '\r'
}

/// The first position at or after `i` that holds no whitespace, or the
/// length.
pub open spec fn skip_space(s: Seq<char>, i: int) -> int
    decreases s.len() - i,
{
    if 0 <= i < s.len() && is_space(s[i]) {
        skip_space(s, i + 1)
    } else {
        i
    }
}

/// The end of `s[..j]` once its trailing whitespace is dropped.
pub open spec fn trim_end(s: Seq<char>, j: int) -> int
    decreases j,
{
    if 0 < j <= s.len() && is_space(s[j - 1]) {
        trim_end(s, j - 1)
    } else {
        j
    }
}

/// `s` without its leading and trailing whitespace.
pub open spec fn trimmed(s: Seq<char>) -> Seq<char> {
    let a = skip_space(s, 0);
    let b = trim_end(s, s.len() as int);
    if a < b {
        s.subrange(a, b)
    } else {
        Seq::empty()
    }
}

pub open spec fn is_digit(c: char) -> bool {
    48 <= (c as u32) && (c as u32) <= 57
}

pub open spec fn is_ident_start(c: char) -> bool {
    ('a' <= c && c <= 'z') || ('A' <= c && c <= 'Z') || c == '_'
}

pub open spec fn is_ident_char(c: char) -> bool {
    is_ident_start(c) || is_digit(c)
}

pub open spec fn is_number_char(c: char) -> bool {
    is_digit(c) || c == '.'
}

pub open spec fn is_quote(c: char) -> bool {
    c == '\'' || c == '"'
}

/// Characters that stand as tokens of their own.
pub open spec fn is_punct(c: char) -> bool {
    c == '(' || c == ')' || c == ':' || c == '{' || c == '}' || c == ',' || c == '['
        || c == ']' || c == '<' || c == '>' || c == '-'
}

/// `c` is the letter given in its two cases.
pub open spec fn ci(c: char, lo: char, up: char) -> bool {
    c == lo || c == up
}

/// `true`, in any mix of cases.
pub open spec fn is_true_word(t: Seq<char>) -> bool {
    t.len() == 4 && ci(t[0], 't', 'T') && ci(t[1], 'r', 'R') && ci(t[2], 'u', 'U') && ci(
        t[3],
        'e',
        'E',
    )
}

/// `false`, in any mix of cases.
pub open spec fn is_false_word(t: Seq<char>) -> bool {
    t.len() == 5 && ci(t[0], 'f', 'F') && ci(t[1], 'a', 'A') && ci(t[2], 'l', 'L') && ci(
        t[3],
        's',
        'S',
    ) && ci(t[4], 'e', 'E')
}

/// The end of the run of identifier characters that starts at `i`.
pub open spec fn scan_ident(s: Seq<char>, i: int) -> int
    decreases s.len() - i,
{
    if 0 <= i < s.len() && is_ident_char(s[i]) {
        scan_ident(s, i + 1)
    } else {
        i
    }
}

/// The end of the run of digits and dots that starts at `i`.
pub open spec fn scan_number(s: Seq<char>, i: int) -> int
    decreases s.len() - i,
{
    if 0 <= i < s.len() && is_number_char(s[i]) {
        scan_number(s, i + 1)
    } else {
        i
    }
}

/// The first position at or after `i` that holds `q`, or the length.
pub open spec fn scan_to(s: Seq<char>, i: int, q: char) -> int
    decreases s.len() - i,
{
    if 0 <= i < s.len() && s[i] != q {
        scan_to(s, i + 1, q)
    } else {
        i
    }
}

pub open spec fn token(kind: TokenKind, start: int, end: int) -> Token {
    Token { kind, start: start as usize, end: end as usize }
}

/// The token that starts at `i`, a position that holds no whitespace.
pub open spec fn next_token(s: Seq<char>, i: int) -> Result<Token, TranslateError> {
    let c = s[i];
    if (c == '-' || c == '+') && i + 1 < s.len() && is_digit(s[i + 1]) {
        Ok(token(TokenKind::NumberLiteral, i, scan_number(s, i + 1)))
    } else if is_punct(c) {
        Ok(token(TokenKind::Punct(c), i, i + 1))
    } else if is_digit(c) {
        Ok(token(TokenKind::NumberLiteral, i, scan_number(s, i)))
    } else if is_ident_start(c) {
        let e = scan_ident(s, i);
        let w = s.subrange(i, e);
        if is_true_word(w) || is_false_word(w) {
            Ok(token(TokenKind::BooleanLiteral, i, e))
        } else {
            Ok(token(TokenKind::Identifier, i, e))
        }
    } else if is_quote(c) {
        let j = scan_to(s, i + 1, c);
        if j < s.len() {
            Ok(token(TokenKind::StringLiteral, i, j + 1))
        } else {
            Err(TranslateError::Lex { position: i as usize, reason: LexFault::UnterminatedString })
        }
    } else {
        Err(TranslateError::Lex { position: i as usize, reason: LexFault::InvalidCharacter })
    }
}

/// The tokens of `s` from position `i` on, whitespace skipped.
pub open spec fn lex_from(s: Seq<char>, i: int) -> Result<Seq<Token>, TranslateError>
    decreases s.len() - i,
{
    if i < 0 || i >= s.len() {
        Ok(Seq::empty())
    } else if is_space(s[i]) {
        lex_from(s, i + 1)
    } else {
        match next_token(s, i) {
            Err(e) => Err(e),
            Ok(t) => if i < t.end <= s.len() {
                match lex_from(s, t.end as int) {
                    Ok(rest) => Ok(seq![t] + rest),
                    Err(e) => Err(e),
                }
            } else {
                Ok(Seq::empty())
            },
        }
    }
}

/// The tokens of the whole text.
pub open spec fn lex(s: Seq<char>) -> Result<Seq<Token>, TranslateError> {
    lex_from(s, 0)
}

/// The characters a token covers.
pub open spec fn token_text(s: Seq<char>, t: Token) -> Seq<char> {
    s.subrange(t.start as int, t.end as int)
}

/// `r` with `toks` put in front of its tokens.
pub open spec fn prepend(toks: Seq<Token>, r: Result<Seq<Token>, TranslateError>) -> Result<
    Seq<Token>,
    TranslateError,
> {
    match r {
        Ok(rest) => Ok(toks + rest),
        Err(e) => Err(e),
    }
}

/// Every token of a successful lex lies within the text, in order, and is
/// not empty.
pub open spec fn well_placed(s: Seq<char>, toks: Seq<Token>) -> bool {
    forall|k: int|
        0 <= k < toks.len() ==> #[trigger] toks[k].start < toks[k].end <= s.len() && (
        toks[k].kind is StringLiteral ==> toks[k].start + 1 < toks[k].end)
}

fn scan_ident_exec(s: &Vec<char>, i: usize) -> (r: usize)
    requires
        i <= s@.len(),
    ensures
        r as int == scan_ident(s@, i as int),
        i <= r <= s@.len(),
        i < s@.len() && is_ident_char(s@[i as int]) ==> i < r,
{
    let mut j: usize = i;
    while j < s.len() && is_ident_char_exec(s[j])
        invariant
            i <= j <= s@.len(),
            scan_ident(s@, i as int) == scan_ident(s@, j as int),
        decreases s@.len() - j,
    {
        j = j + 1;
    }
    j
}

fn scan_number_exec(s: &Vec<char>, i: usize) -> (r: usize)
    requires
        i <= s@.len(),
    ensures
        r as int == scan_number(s@, i as int),
        i <= r <= s@.len(),
        i < s@.len() && is_number_char(s@[i as int]) ==> i < r,
{
    let mut j: usize = i;
    while j < s.len() && (is_digit_exec(s[j]) || s[j] == '.')
        invariant
            i <= j <= s@.len(),
            scan_number(s@, i as int) == scan_number(s@, j as int),
        decreases s@.len() - j,
    {
        j = j + 1;
    }
    j
}

fn scan_to_exec(s: &Vec<char>, i: usize, q: char) -> (r: usize)
    requires
        i <= s@.len(),
    ensures
        r as int == scan_to(s@, i as int, q),
        i <= r <= s@.len(),
{
    let mut j: usize = i;
    while j < s.len() && s[j] != q
        invariant
            i <= j <= s@.len(),
            scan_to(s@, i as int, q) == scan_to(s@, j as int, q),
        decreases s@.len() - j,
    {
        j = j + 1;
    }
    j
}

pub fn is_digit_exec(c: char) -> (r: bool)
    ensures
        r == is_digit(c),
{
    let v = c as u32;
    48 <= v && v <= 57
}

pub fn is_ident_char_exec(c: char) -> (r: bool)
    ensures
        r == is_ident_char(c),
{
    ('a' <= c && c <= 'z') || ('A' <= c && c <= 'Z') || c == '_' || is_digit_exec(c)
}

fn ci_exec(c: char, lo: char, up: char) -> (r: bool)
    ensures
        r == ci(c, lo, up),
{
    c == lo || c == up
}

/// Whether `s[start..end]` spells `true`, in any mix of cases.
pub fn is_true_word_exec(s: &Vec<char>, start: usize, end: usize) -> (r: bool)
    requires
        start <= end <= s@.len(),
    ensures
        r == is_true_word(s@.subrange(start as int, end as int)),
{
    if end - start == 4 {
        ci_exec(s[start], 't', 'T') && ci_exec(s[start + 1], 'r', 'R') && ci_exec(
            s[start + 2],
            'u',
            'U',
        ) && ci_exec(s[start + 3], 'e', 'E')
    } else {
        false
    }
}

/// Whether `s[start..end]` spells `false`, in any mix of cases.
fn is_false_word_exec(s: &Vec<char>, start: usize, end: usize) -> (r: bool)
    requires
        start <= end <= s@.len(),
    ensures
        r == is_false_word(s@.subrange(start as int, end as int)),
{
    if end - start == 5 {
        ci_exec(s[start], 'f', 'F') && ci_exec(s[start + 1], 'a', 'A') && ci_exec(
            s[start + 2],
            'l',
            'L',
        ) && ci_exec(s[start + 3], 's', 'S') && ci_exec(s[start + 4], 'e', 'E')
    } else {
        false
    }
}

fn next_token_exec(s: &Vec<char>, i: usize) -> (r: Result<Token, TranslateError>)
    requires
        i < s@.len(),
    ensures
        r == next_token(s@, i as int),
        r is Ok ==> i < r->Ok_0.end <= s@.len() && r->Ok_0.start == i && (r->Ok_0.kind is StringLiteral
            ==> i + 1 < r->Ok_0.end),
{
    let n = s.len();
    let c = s[i];
    if (c == '-' || c == '+') && i < n - 1 && is_digit_exec(s[i + 1]) {
        let e = scan_number_exec(s, i + 1);
        Ok(Token { kind: TokenKind::NumberLiteral, start: i, end: e })
    } else if c == '(' || c == ')' || c == ':' || c == '{' || c == '}' || c == ',' || c == '['
        || c == ']' || c == '<' || c == '>' || c == '-' {
        Ok(Token { kind: TokenKind::Punct(c), start: i, end: i + 1 })
    } else if is_digit_exec(c) {
        let e = scan_number_exec(s, i);
        Ok(Token { kind: TokenKind::NumberLiteral, start: i, end: e })
    } else if ('a' <= c && c <= 'z') || ('A' <= c && c <= 'Z') || c == '_' {
        let e = scan_ident_exec(s, i);
        if is_true_word_exec(s, i, e) || is_false_word_exec(s, i, e) {
            Ok(Token { kind: TokenKind::BooleanLiteral, start: i, end: e })
        } else {
            Ok(Token { kind: TokenKind::Identifier, start: i, end: e })
        }
    } else if c == '\'' || c == '"' {
        let j = scan_to_exec(s, i + 1, c);
        if j < s.len() {
            Ok(Token { kind: TokenKind::StringLiteral, start: i, end: j + 1 })
        } else {
            Err(TranslateError::Lex { position: i, reason: LexFault::UnterminatedString })
        }
    } else {
        Err(TranslateError::Lex { position: i, reason: LexFault::InvalidCharacter })
    }
}

/// Splits pattern text, given as its characters, into tokens.
pub fn tokenize(s: &Vec<char>) -> (r: Result<Vec<Token>, TranslateError>)
    ensures
        match r {
            Ok(toks) => lex(s@) == Ok::<Seq<Token>, TranslateError>(toks@) && well_placed(
                s@,
                toks@,
            ),
            Err(e) => lex(s@) == Err::<Seq<Token>, TranslateError>(e),
        },
{
    let mut toks: Vec<Token> = Vec::new();
    let mut i: usize = 0;
    while i < s.len()
        invariant
            i <= s@.len(),
            lex(s@) == prepend(toks@, lex_from(s@, i as int)),
            well_placed(s@, toks@),
            forall|k: int| 0 <= k < toks@.len() ==> #[trigger] toks@[k].end <= i,
        decreases s@.len() - i,
    {
        if s[i] == ' ' || s[i] == '\t' || s[i] == '\n' || s[i] == '\r' {
            i = i + 1;
        } else {
            match next_token_exec(s, i) {
                Err(e) => {
                    return Err(e);
                },
                Ok(t) => {
                    proof {
                        let rest = lex_from(s@, t.end as int);
                        if let Ok(rs) = rest {
                            assert(toks@ + (seq![t] + rs) =~= toks@.push(t) + rs);
                        }
                    }
                    toks.push(t);
                    i = t.end;
                },
            }
        }
    }
    assert(toks@ + Seq::<Token>::empty() =~= toks@);
    Ok(toks)
}

} // verus!
