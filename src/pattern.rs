use vstd::prelude::*;
use crate::error::{Expected, TokenKind, TranslateError};
use crate::lexer::{Token, lex, token_text, tokenize, well_placed};
use crate::text::{chars_of, string_of};
use crate::value::{Value, ValueModel, coerce, coerce_token};

verus! {

/// A parsed node pattern: `( [variable] [: Label] [{ key: value, ... }] )`.
#[derive(Debug, Clone, PartialEq, Eq)]
pub struct NodePattern {
    pub variable: Option<String>,
    /// The labels in order; the grammar admits at most one.
    pub labels: Vec<String>,
    /// Whether the pattern has a property map, even an empty one.
    pub has_property_map: bool,
    /// The properties in the order they were written.
    pub properties: Vec<(String, Value)>,
}

/// The mathematical model of a [`NodePattern`].
pub struct PatternModel {
    pub variable: Option<Seq<char>>,
    pub labels: Seq<Seq<char>>,
    pub has_property_map: bool,
    pub properties: Seq<(Seq<char>, ValueModel)>,
}

pub open spec fn opt_view(o: Option<String>) -> Option<Seq<char>> {
    match o {
        Some(v) => Some(v@),
        None => None,
    }
}

pub open spec fn prop_view(p: (String, Value)) -> (Seq<char>, ValueModel) {
    (p.0@, p.1@)
}

pub open spec fn label_view(l: String) -> Seq<char> {
    l@
}

impl View for NodePattern {
    type V = PatternModel;

    open spec fn view(&self) -> PatternModel {
        PatternModel {
            variable: opt_view(self.variable),
            labels: self.labels@.map_values(|l: String| label_view(l)),
            has_property_map: self.has_property_map,
            properties: self.properties@.map_values(|p: (String, Value)| prop_view(p)),
        }
    }
}

pub open spec fn result_view(r: Result<NodePattern, TranslateError>) -> Result<
    PatternModel,
    TranslateError,
> {
    match r {
        Ok(p) => Ok(p@),
        Err(e) => Err(e),
    }
}

pub open spec fn is_punct_at(toks: Seq<Token>, k: int, c: char) -> bool {
    0 <= k < toks.len() && toks[k].kind == TokenKind::Punct(c)
}

pub open spec fn is_ident_at(toks: Seq<Token>, k: int) -> bool {
    0 <= k < toks.len() && toks[k].kind == TokenKind::Identifier
}

/// Token kinds that can stand as a property value.
pub open spec fn is_value_kind(kind: TokenKind) -> bool {
    !(kind is Punct)
}

/// The error for finding token `k` (or the end) where `expected` belongs.
pub open spec fn parse_error(s: Seq<char>, toks: Seq<Token>, k: int, expected: Expected) -> TranslateError {
    if 0 <= k < toks.len() {
        TranslateError::Parse { position: toks[k].start, expected, found: Some(toks[k].kind) }
    } else {
        TranslateError::Parse { position: s.len() as usize, expected, found: None }
    }
}

pub type Props = Seq<(Seq<char>, ValueModel)>;

/// The `key: value` pairs from token `k` on, up to and with the closing
/// brace, and the index after it.
pub open spec fn parse_pairs(s: Seq<char>, toks: Seq<Token>, k: int) -> Result<
    (Props, int),
    TranslateError,
>
    decreases toks.len() - k,
{
    if !is_ident_at(toks, k) {
        Err(parse_error(s, toks, k, Expected::PropertyKey))
    } else if !is_punct_at(toks, k + 1, ':') {
        Err(parse_error(s, toks, k + 1, Expected::Colon))
    } else if !(k + 2 < toks.len() && is_value_kind(toks[k + 2].kind)) {
        Err(parse_error(s, toks, k + 2, Expected::PropertyValue))
    } else {
        let prop = (token_text(s, toks[k]), coerce(s, toks[k + 2]));
        if is_punct_at(toks, k + 3, ',') {
            match parse_pairs(s, toks, k + 4) {
                Ok((rest, e)) => Ok((seq![prop] + rest, e)),
                Err(e) => Err(e),
            }
        } else if is_punct_at(toks, k + 3, '}') {
            Ok((seq![prop], k + 4))
        } else {
            Err(parse_error(s, toks, k + 3, Expected::CommaOrCloseBrace))
        }
    }
}

/// The property map whose opening brace stands just before token `k`.
pub open spec fn parse_props(s: Seq<char>, toks: Seq<Token>, k: int) -> Result<
    (Props, int),
    TranslateError,
> {
    if is_punct_at(toks, k, '}') {
        Ok((Seq::empty(), k + 1))
    } else {
        parse_pairs(s, toks, k)
    }
}

/// The node pattern that the tokens spell, which must be all of them.
pub open spec fn parse_node(s: Seq<char>, toks: Seq<Token>) -> Result<PatternModel, TranslateError> {
    if !is_punct_at(toks, 0, '(') {
        Err(parse_error(s, toks, 0, Expected::OpenParen))
    } else {
        let has_var = is_ident_at(toks, 1);
        let variable = if has_var {
            Some(token_text(s, toks[1]))
        } else {
            None
        };
        let k: int = if has_var { 2 } else { 1 };
        let has_label = is_punct_at(toks, k, ':');
        if has_label && !is_ident_at(toks, k + 1) {
            Err(parse_error(s, toks, k + 1, Expected::Label))
        } else {
            let labels = if has_label {
                seq![token_text(s, toks[k + 1])]
            } else {
                Seq::empty()
            };
            let k2: int = if has_label { k + 2 } else { k };
            let has_property_map = is_punct_at(toks, k2, '{');
            let props = if has_property_map {
                parse_props(s, toks, k2 + 1)
            } else {
                Ok((Seq::empty(), k2))
            };
            match props {
                Err(e) => Err(e),
                Ok((properties, k3)) => if !is_punct_at(toks, k3, ')') {
                    Err(parse_error(s, toks, k3, Expected::CloseParen))
                } else if k3 + 1 < toks.len() {
                    Err(TranslateError::UnsupportedConstruct)
                } else {
                    Ok(PatternModel { variable, labels, has_property_map, properties })
                },
            }
        }
    }
}

/// The node pattern that the text spells.
pub open spec fn parse_pattern_spec(s: Seq<char>) -> Result<PatternModel, TranslateError> {
    match lex(s) {
        Ok(toks) => parse_node(s, toks),
        Err(e) => Err(e),
    }
}

pub open spec fn prepend_props(acc: Props, r: Result<(Props, int), TranslateError>) -> Result<
    (Props, int),
    TranslateError,
> {
    match r {
        Ok((rest, e)) => Ok((acc + rest, e)),
        Err(e) => Err(e),
    }
}

fn punct_at(toks: &Vec<Token>, k: usize, c: char) -> (r: bool)
    ensures
        r == is_punct_at(toks@, k as int, c),
{
    k < toks.len() && toks[k].kind == TokenKind::Punct(c)
}

fn ident_at(toks: &Vec<Token>, k: usize) -> (r: bool)
    ensures
        r == is_ident_at(toks@, k as int),
{
    k < toks.len() && toks[k].kind == TokenKind::Identifier
}

fn error_at(s: &Vec<char>, toks: &Vec<Token>, k: usize, expected: Expected) -> (r: TranslateError)
    ensures
        r == parse_error(s@, toks@, k as int, expected),
{
    if k < toks.len() {
        TranslateError::Parse { position: toks[k].start, expected, found: Some(toks[k].kind) }
    } else {
        TranslateError::Parse { position: s.len(), expected, found: None }
    }
}

fn text_of(s: &Vec<char>, t: Token) -> (r: String)
    requires
        t.start < t.end <= s@.len(),
    ensures
        r@ == token_text(s@, t),
{
    string_of(s, t.start, t.end)
}

fn parse_pairs_exec(s: &Vec<char>, toks: &Vec<Token>, k0: usize) -> (r: Result<
    (Vec<(String, Value)>, usize),
    TranslateError,
>)
    requires
        well_placed(s@, toks@),
        k0 <= toks@.len(),
    ensures
        match r {
            Ok((props, e)) => parse_pairs(s@, toks@, k0 as int) == Ok::<(Props, int), TranslateError>(
                (props@.map_values(|p: (String, Value)| prop_view(p)), e as int),
            ) && e <= toks@.len(),
            Err(e) => parse_pairs(s@, toks@, k0 as int) == Err::<(Props, int), TranslateError>(e),
        },
{
    let n = toks.len();
    let mut acc: Vec<(String, Value)> = Vec::new();
    let mut k: usize = k0;
    loop
        invariant
            n == toks@.len(),
            well_placed(s@, toks@),
            k <= toks@.len(),
            parse_pairs(s@, toks@, k0 as int) == prepend_props(
                acc@.map_values(|p: (String, Value)| prop_view(p)),
                parse_pairs(s@, toks@, k as int),
            ),
        decreases toks@.len() - k,
    {
        let ghost before = acc@.map_values(|p: (String, Value)| prop_view(p));
        if !ident_at(toks, k) {
            return Err(error_at(s, toks, k, Expected::PropertyKey));
        }
        if !punct_at(toks, k + 1, ':') {
            return Err(error_at(s, toks, k + 1, Expected::Colon));
        }
        if !(k + 2 < n && !matches!(toks[k + 2].kind, TokenKind::Punct(_))) {
            return Err(error_at(s, toks, k + 2, Expected::PropertyValue));
        }
        let key = text_of(s, toks[k]);
        let value = coerce_token(s, &toks[k + 2]);
        let ghost prop = (key@, value@);
        acc.push((key, value));
        proof {
            assert(acc@.map_values(|p: (String, Value)| prop_view(p)) =~= before.push(prop));
        }
        if punct_at(toks, k + 3, ',') {
            proof {
                let rest = parse_pairs(s@, toks@, k as int + 4);
                if let Ok((rs, e)) = rest {
                    assert(before + (seq![prop] + rs) =~= before.push(prop) + rs);
                }
            }
            k = k + 4;
        } else if punct_at(toks, k + 3, '}') {
            proof {
                assert(before + seq![prop] =~= before.push(prop));
            }
            return Ok((acc, k + 4));
        } else {
            return Err(error_at(s, toks, k + 3, Expected::CommaOrCloseBrace));
        }
    }
}

fn parse_node_exec(s: &Vec<char>, toks: &Vec<Token>) -> (r: Result<NodePattern, TranslateError>)
    requires
        well_placed(s@, toks@),
    ensures
        result_view(r) == parse_node(s@, toks@),
{
    let n = toks.len();
    if !punct_at(toks, 0, '(') {
        return Err(error_at(s, toks, 0, Expected::OpenParen));
    }
    let has_var = ident_at(toks, 1);
    let variable = if has_var {
        Some(text_of(s, toks[1]))
    } else {
        None
    };
    let k: usize = if has_var { 2 } else { 1 };
    let has_label = punct_at(toks, k, ':');
    if has_label && !ident_at(toks, k + 1) {
        return Err(error_at(s, toks, k + 1, Expected::Label));
    }
    let mut labels: Vec<String> = Vec::new();
    if has_label {
        labels.push(text_of(s, toks[k + 1]));
    }
    let k2: usize = if has_label { k + 2 } else { k };
    let has_property_map = punct_at(toks, k2, '{');
    let (properties, k3) = if has_property_map {
        if punct_at(toks, k2 + 1, '}') {
            (Vec::new(), k2 + 2)
        } else {
            match parse_pairs_exec(s, toks, k2 + 1) {
                Ok(pe) => pe,
                Err(e) => {
                    return Err(e);
                },
            }
        }
    } else {
        (Vec::new(), k2)
    };
    if !punct_at(toks, k3, ')') {
        return Err(error_at(s, toks, k3, Expected::CloseParen));
    }
    if k3 + 1 < n {
        return Err(TranslateError::UnsupportedConstruct);
    }
    let r = NodePattern { variable, labels, has_property_map, properties };
    proof {
        assert(r@.labels =~= parse_node(s@, toks@)->Ok_0.labels);
        assert(r@.properties =~= parse_node(s@, toks@)->Ok_0.properties);
    }
    Ok(r)
}

/// Parses pattern text into a node pattern.
pub fn parse_pattern(pattern: &str) -> (r: Result<NodePattern, TranslateError>)
    ensures
        result_view(r) == parse_pattern_spec(pattern@),
{
    let s = chars_of(pattern);
    match tokenize(&s) {
        Ok(toks) => parse_node_exec(&s, &toks),
        Err(e) => Err(e),
    }
}

} // verus!
