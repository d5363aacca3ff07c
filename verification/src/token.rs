//! Tokens produced by the lexer, and the lexing error type.

use vstd::prelude::*;

verus! {

/// Classification of a lexical unit. `Comment` and `Whitespace` are
/// recognized during scanning but never emitted into the token sequence.
#[derive(Clone, Copy, PartialEq, Eq, Structural, Debug)]
pub enum TokenType {
    Identifier,
    Keyword,
    Operator,
    Literal,
    Separator,
    Comment,
    Whitespace,
}

/// A classified minimal lexical unit with its source position.
/// `line` counts from 1; `column` is the absolute character offset of the
/// token's first character in the input.
#[derive(Clone, PartialEq, Debug)]
pub struct Token {
    pub token_type: TokenType,
    pub value: String,
    pub line: usize,
    pub column: usize,
}

/// The mathematical value of a `Token`: its text as a character sequence
/// and its position as unbounded integers.
pub struct SpecTok {
    pub kind: TokenType,
    pub text: Seq<char>,
    pub line: int,
    pub column: int,
}

impl View for Token {
    type V = SpecTok;

    open spec fn view(&self) -> SpecTok {
        SpecTok {
            kind: self.token_type,
            text: self.value@,
            line: self.line as int,
            column: self.column as int,
        }
    }
}

/// A failure of the lexer; `position` is the absolute character offset at
/// which the offending construct begins (for an unterminated string, the
/// opening quote).
#[derive(Clone, PartialEq, Eq, Debug)]
pub enum LexError {
    UnterminatedString { position: usize },
    UnexpectedCharacter { character: char, position: usize },
}

/// The mathematical value of a `LexError`.
pub enum SpecLexError {
    UnterminatedString { position: int },
    UnexpectedCharacter { character: char, position: int },
}

impl View for LexError {
    type V = SpecLexError;

    open spec fn view(&self) -> SpecLexError {
        match self {
            LexError::UnterminatedString { position } => SpecLexError::UnterminatedString {
                position: *position as int,
            },
            LexError::UnexpectedCharacter { character, position } => {
                SpecLexError::UnexpectedCharacter {
                    character: *character,
                    position: *position as int,
                }
            },
        }
    }
}

pub open spec fn tok_views(ts: Seq<Token>) -> Seq<SpecTok> {
    ts.map_values(|t: Token| t@)
}

} // verus!
