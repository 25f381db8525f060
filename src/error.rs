use vstd::prelude::*;

verus! {

/// Why a piece of pattern text could not be tokenized.
#[derive(Debug, Clone, Copy, PartialEq, Eq, Structural)]
pub enum LexFault {
    UnterminatedString,
    InvalidCharacter,
}

/// What the pattern parser was looking for when it failed.
#[derive(Debug, Clone, Copy, PartialEq, Eq, Structural)]
pub enum Expected {
    OpenParen,
    CloseParen,
    Label,
    PropertyKey,
    Colon,
    PropertyValue,
    CommaOrCloseBrace,
}

/// The kind of a token, punctuation carrying its character.
#[derive(Debug, Clone, Copy, PartialEq, Eq, Structural)]
pub enum TokenKind {
    Identifier,
    StringLiteral,
    NumberLiteral,
    BooleanLiteral,
    Punct(char),
}

/// Every way a translation can fail.
#[derive(Debug, Clone, Copy, PartialEq, Eq, Structural)]
pub enum TranslateError {
    /// The text holds a token that cannot be read, at this character.
    Lex { position: usize, reason: LexFault },
    /// The tokens break the pattern grammar at this character; `found` is
    /// the kind of the offending token, `None` at the end of the text.
    Parse { position: usize, expected: Expected, found: Option<TokenKind> },
    /// The pattern has no label, so there is no table to name.
    MissingLabel,
    /// A create pattern without properties has nothing to insert.
    NoProperties,
    /// The text goes on past the single node pattern (an edge, more nodes).
    UnsupportedConstruct,
}

} // verus!
