//! The tokenizer: a single left-to-right scan of the source text.
//!
//! `spec_tokenize` is the mathematical scanner: it classifies the character
//! at each position, yields the token (or skip, or failure) of `lex_step`,
//! and appends a synthetic `EOF` separator carrying the final line and
//! position. `Lexer::tokenize` is proved to return exactly its value.
//! Positions are absolute character offsets; `line` counts from 1 and is
//! advanced by every newline, including newlines inside string literals.

use vstd::prelude::*;
use crate::token::Token;
use crate::token::TokenType;
use crate::token::SpecTok;
use crate::token::LexError;
use crate::token::SpecLexError;
use crate::token::tok_views;

verus! {

pub open spec fn is_digit_c(c: char) -> bool {
    48 <= c as u32 <= 57
}

pub open spec fn is_alpha_c(c: char) -> bool {
    (65 <= c as u32 <= 90) || (97 <= c as u32 <= 122) || c == '_'
}

pub open spec fn is_alnum_c(c: char) -> bool {
    is_alpha_c(c) || is_digit_c(c)
}

pub open spec fn is_separator_c(c: char) -> bool {
    c == '(' || c == ')' || c == '{' || c == '}' || c == ',' || c == ';' || c == ':'
}

fn is_digit_ch(c: char) -> (r: bool)
    ensures
        r == is_digit_c(c),
{
    let u = c as u32;
    48 <= u && u <= 57
}

fn is_alpha_ch(c: char) -> (r: bool)
    ensures
        r == is_alpha_c(c),
{
    let u = c as u32;
    (65 <= u && u <= 90) || (97 <= u && u <= 122) || c == '_'
}

fn is_alnum_ch(c: char) -> (r: bool)
    ensures
        r == is_alnum_c(c),
{
    is_alpha_ch(c) || is_digit_ch(c)
}

/// The first index at or after `i` holding `target`, or the input length.
pub open spec fn scan_until(s: Seq<char>, i: int, target: char) -> int
    decreases s.len() - i,
{
    if 0 <= i < s.len() {
        if s[i] == target {
            i
        } else {
            scan_until(s, i + 1, target)
        }
    } else {
        s.len() as int
    }
}

/// The first index at or after `i` whose character does not continue an
/// identifier.
pub open spec fn ident_end(s: Seq<char>, i: int) -> int
    decreases s.len() - i,
{
    if 0 <= i < s.len() && is_alnum_c(s[i]) {
        ident_end(s, i + 1)
    } else {
        i
    }
}

/// The first index at or after `i` whose character is not a digit.
pub open spec fn digits_end(s: Seq<char>, i: int) -> int
    decreases s.len() - i,
{
    if 0 <= i < s.len() && is_digit_c(s[i]) {
        digits_end(s, i + 1)
    } else {
        i
    }
}

/// Where a numeric literal whose digits start at `i` ends: its digit run,
/// extended past a decimal point only when a digit follows the point.
pub open spec fn number_end(s: Seq<char>, i: int) -> int {
    let d = digits_end(s, i);
    if d < s.len() && s[d] == '.' && d + 1 < s.len() && is_digit_c(s[d + 1]) {
        digits_end(s, d + 2)
    } else {
        d
    }
}

/// How many newline characters lie in `s[from..to)`.
pub open spec fn newlines_in(s: Seq<char>, from: int, to: int) -> int
    decreases to - from,
{
    if from < to {
        newlines_in(s, from, to - 1) + (if 0 <= to - 1 < s.len() && s[to - 1] == '\n' {
            1int
        } else {
            0int
        })
    } else {
        0
    }
}

pub proof fn lemma_scan_until_bounds(s: Seq<char>, i: int, target: char)
    requires
        0 <= i <= s.len(),
    ensures
        i <= scan_until(s, i, target) <= s.len(),
    decreases s.len() - i,
{
    if i < s.len() && s[i] != target {
        lemma_scan_until_bounds(s, i + 1, target);
    }
}

pub proof fn lemma_ident_end_bounds(s: Seq<char>, i: int)
    requires
        0 <= i <= s.len(),
    ensures
        i <= ident_end(s, i) <= s.len(),
    decreases s.len() - i,
{
    if i < s.len() && is_alnum_c(s[i]) {
        lemma_ident_end_bounds(s, i + 1);
    }
}

pub proof fn lemma_digits_end_bounds(s: Seq<char>, i: int)
    requires
        0 <= i <= s.len(),
    ensures
        i <= digits_end(s, i) <= s.len(),
    decreases s.len() - i,
{
    if i < s.len() && is_digit_c(s[i]) {
        lemma_digits_end_bounds(s, i + 1);
    }
}

/// A numeric literal never ends before it begins and never passes the end.
pub proof fn lemma_number_end_bounds(s: Seq<char>, i: int)
    requires
        0 <= i <= s.len(),
    ensures
        i <= number_end(s, i) <= s.len(),
{
    lemma_digits_end_bounds(s, i);
    let d = digits_end(s, i);
    if d < s.len() && s[d] == '.' && d + 1 < s.len() && is_digit_c(s[d + 1]) {
        lemma_digits_end_bounds(s, d + 2);
    }
}

/// The reserved words of the language.
pub open spec fn is_keyword(t: Seq<char>) -> bool {
    t == "fn"@ || t == "let"@ || t == "if"@ || t == "else"@ || t == "while"@ || t == "return"@
}

fn is_keyword_str(t: &str) -> (r: bool)
    ensures
        r == is_keyword(t@),
{
    let o = t.to_owned();
    o == String::from_str("fn") || o == String::from_str("let") || o == String::from_str("if")
        || o == String::from_str("else") || o == String::from_str("while") || o
        == String::from_str("return")
}

/// The outcome of scanning one construct at position `i` on line `line`:
/// a token with the position and line after it, a skipped span (whitespace
/// or a comment), or a failure.
pub enum SpecLexStep {
    Emit { tok: SpecTok, next: int, line: int },
    Skip { next: int, line: int },
    Fail { err: SpecLexError },
}

/// Classifies the construct starting at `i` (which must be in range).
///
/// Separators and the single-character operators take one character; the
/// arrow `->` is a two-character separator, preferred greedily over a bare
/// minus; `==`, `!=`, `<=` and `>=` are preferred greedily over their
/// one-character prefixes; `//` begins a comment running to the end of the
/// line, which
/// yields no token; a double quote opens a string literal, whose token text
/// keeps its quotes and which fails when the input ends first; a digit
/// opens a numeric literal; a letter or underscore opens a word, a keyword
/// if it is reserved; blanks are skipped; a newline is skipped and counts
/// one line; anything else fails.
pub open spec fn lex_step(s: Seq<char>, i: int, line: int) -> SpecLexStep {
    let c = s[i];
    if is_separator_c(c) {
        SpecLexStep::Emit {
            tok: SpecTok {
                kind: TokenType::Separator,
                text: s.subrange(i, i + 1),
                line,
                column: i,
            },
            next: i + 1,
            line,
        }
    } else if c == '+' || c == '*' {
        SpecLexStep::Emit {
            tok: SpecTok { kind: TokenType::Operator, text: s.subrange(i, i + 1), line, column: i },
            next: i + 1,
            line,
        }
    } else if c == '-' {
        if i + 1 < s.len() && s[i + 1] == '>' {
            SpecLexStep::Emit {
                tok: SpecTok {
                    kind: TokenType::Separator,
                    text: s.subrange(i, i + 2),
                    line,
                    column: i,
                },
                next: i + 2,
                line,
            }
        } else {
            SpecLexStep::Emit {
                tok: SpecTok {
                    kind: TokenType::Operator,
                    text: s.subrange(i, i + 1),
                    line,
                    column: i,
                },
                next: i + 1,
                line,
            }
        }
    } else if c == '/' {
        if i + 1 < s.len() && s[i + 1] == '/' {
            SpecLexStep::Skip { next: scan_until(s, i + 2, '\n'), line }
        } else {
            SpecLexStep::Emit {
                tok: SpecTok {
                    kind: TokenType::Operator,
                    text: s.subrange(i, i + 1),
                    line,
                    column: i,
                },
                next: i + 1,
                line,
            }
        }
    } else if c == '=' || c == '!' || c == '<' || c == '>' {
        if i + 1 < s.len() && s[i + 1] == '=' {
            SpecLexStep::Emit {
                tok: SpecTok {
                    kind: TokenType::Operator,
                    text: s.subrange(i, i + 2),
                    line,
                    column: i,
                },
                next: i + 2,
                line,
            }
        } else {
            SpecLexStep::Emit {
                tok: SpecTok {
                    kind: TokenType::Operator,
                    text: s.subrange(i, i + 1),
                    line,
                    column: i,
                },
                next: i + 1,
                line,
            }
        }
    } else if c == '"' {
        let e = scan_until(s, i + 1, '"');
        if e >= s.len() {
            SpecLexStep::Fail { err: SpecLexError::UnterminatedString { position: i } }
        } else {
            let l2 = line + newlines_in(s, i + 1, e);
            SpecLexStep::Emit {
                tok: SpecTok {
                    kind: TokenType::Literal,
                    text: s.subrange(i, e + 1),
                    line: l2,
                    column: i,
                },
                next: e + 1,
                line: l2,
            }
        }
    } else if is_digit_c(c) {
        let e = number_end(s, i + 1);
        SpecLexStep::Emit {
            tok: SpecTok { kind: TokenType::Literal, text: s.subrange(i, e), line, column: i },
            next: e,
            line,
        }
    } else if is_alpha_c(c) {
        let e = ident_end(s, i + 1);
        let text = s.subrange(i, e);
        SpecLexStep::Emit {
            tok: SpecTok {
                kind: if is_keyword(text) {
                    TokenType::Keyword
                } else {
                    TokenType::Identifier
                },
                text,
                line,
                column: i,
            },
            next: e,
            line,
        }
    } else if c == ' ' || c == '\r' || c == '\t' {
        SpecLexStep::Skip { next: i + 1, line }
    } else if c == '\n' {
        SpecLexStep::Skip { next: i + 1, line: line + 1 }
    } else {
        SpecLexStep::Fail { err: SpecLexError::UnexpectedCharacter { character: c, position: i } }
    }
}

/// The synthetic end-of-input marker.
pub open spec fn eof_tok(line: int, column: int) -> SpecTok {
    SpecTok { kind: TokenType::Separator, text: "EOF"@, line, column }
}

/// The tokens of `s` from position `i` on line `line`, ending with the
/// `EOF` marker, or the first failure.
pub open spec fn lex_from(s: Seq<char>, i: int, line: int) -> Result<Seq<SpecTok>, SpecLexError>
    decreases s.len() - i,
{
    if i >= s.len() {
        Ok(seq![eof_tok(line, i)])
    } else {
        match lex_step(s, i, line) {
            SpecLexStep::Emit { tok, next, line: l2 } => {
                let n2 = if i < next && next <= s.len() {
                    next
                } else {
                    i + 1
                };
                match lex_from(s, n2, l2) {
                    Ok(rest) => Ok(seq![tok] + rest),
                    Err(e) => Err(e),
                }
            },
            SpecLexStep::Skip { next, line: l2 } => {
                let n2 = if i < next && next <= s.len() {
                    next
                } else {
                    i + 1
                };
                lex_from(s, n2, l2)
            },
            SpecLexStep::Fail { err } => Err(err),
        }
    }
}

/// The complete token sequence of a source text, or its first failure.
pub open spec fn spec_tokenize(s: Seq<char>) -> Result<Seq<SpecTok>, SpecLexError> {
    lex_from(s, 0, 1)
}

/// The scanner state: the input, the tokens emitted so far, the start of
/// the construct being scanned, the cursor, and the current line.
pub struct Lexer {
    pub input: String,
    pub tokens: Vec<Token>,
    pub start: usize,
    pub current: usize,
    pub line: usize,
}

impl Lexer {
    /// The state kept between steps: the cursor is in range and the line
    /// count cannot exceed the lines seen.
    pub open spec fn wf(self) -> bool {
        &&& self.start <= self.current <= self.input@.len()
        &&& self.line as int <= 1 + self.current as int
        &&& 1 <= self.line
        &&& self.input@.len() < usize::MAX
    }

    pub fn new(input: String) -> (r: Lexer)
        ensures
            r.input@ == input@,
            r.tokens@.len() == 0,
            r.start == 0,
            r.current == 0,
            r.line == 1,
    {
        Lexer { input, tokens: Vec::new(), start: 0, current: 0, line: 1 }
    }

    pub fn is_at_end(&self) -> (r: bool)
        ensures
            r == (self.current as int >= self.input@.len()),
    {
        self.current >= self.input.as_str().unicode_len()
    }

    /// The character under the cursor, or the nul character at the end.
    pub fn peek(&self) -> (r: char)
        ensures
            r == (if (self.current as int) < self.input@.len() {
                self.input@[self.current as int]
            } else {
                '\0'
            }),
    {
        if self.is_at_end() {
            '\0'
        } else {
            self.input.as_str().get_char(self.current)
        }
    }

    /// Consumes and returns the character under the cursor.
    pub fn advance(&mut self) -> (r: char)
        requires
            (old(self).current as int) < old(self).input@.len(),
            old(self).input@.len() <= usize::MAX,
        ensures
            r == old(self).input@[old(self).current as int],
            final(self).current == old(self).current + 1,
            final(self).input@ == old(self).input@,
            final(self).tokens == old(self).tokens,
            final(self).start == old(self).start,
            final(self).line == old(self).line,
    {
        let c = self.input.as_str().get_char(self.current);
        self.current = self.current + 1;
        c
    }

    /// Consumes the character under the cursor only if it is `expected`.
    pub fn match_char(&mut self, expected: char) -> (r: bool)
        requires
            old(self).current <= old(self).input@.len(),
            old(self).input@.len() <= usize::MAX,
        ensures
            r == (((old(self).current as int) < old(self).input@.len()) && old(self).input@[old(
                self,
            ).current as int] == expected),
            final(self).current == old(self).current + (if r {
                1int
            } else {
                0int
            }),
            final(self).input@ == old(self).input@,
            final(self).tokens == old(self).tokens,
            final(self).start == old(self).start,
            final(self).line == old(self).line,
    {
        if self.is_at_end() {
            return false;
        }
        if self.input.as_str().get_char(self.current) != expected {
            return false;
        }
        self.current = self.current + 1;
        true
    }

    /// Emits the span scanned so far, from `start` to the cursor, as one
    /// token of the given kind at the current line.
    pub fn add_token(&mut self, token_type: TokenType)
        requires
            old(self).start <= old(self).current <= old(self).input@.len(),
        ensures
            tok_views(final(self).tokens@) == tok_views(old(self).tokens@).push(
                SpecTok {
                    kind: token_type,
                    text: old(self).input@.subrange(old(self).start as int, old(self).current as int),
                    line: old(self).line as int,
                    column: old(self).start as int,
                },
            ),
            final(self).input@ == old(self).input@,
            final(self).current == old(self).current,
            final(self).start == old(self).start,
            final(self).line == old(self).line,
    {
        let ghost pre = tok_views(self.tokens@);
        let text = self.input.as_str().substring_char(self.start, self.current);
        let tok = Token {
            token_type,
            value: text.to_owned(),
            line: self.line,
            column: self.start,
        };
        let ghost v = tok@;
        self.tokens.push(tok);
        proof {
            assert(tok_views(self.tokens@) =~= pre.push(v));
        }
    }

    /// Scans the rest of a string literal, the opening quote already
    /// consumed; the token keeps its surrounding quotes, and newlines
    /// inside the literal advance the line count.
    #[verifier::loop_isolation(false)]
    pub fn string(&mut self) -> (r: Result<(), LexError>)
        requires
            old(self).wf(),
            old(self).current == old(self).start + 1,
            (old(self).start as int) < old(self).input@.len(),
        ensures
            final(self).input@ == old(self).input@,
            final(self).start == old(self).start,
            final(self).wf(),
            ({
                let s = old(self).input@;
                let e = scan_until(s, old(self).current as int, '"');
                match r {
                    Ok(()) => {
                        &&& e < s.len()
                        &&& tok_views(final(self).tokens@) == tok_views(old(self).tokens@).push(
                            SpecTok {
                                kind: TokenType::Literal,
                                text: s.subrange(old(self).start as int, e + 1),
                                line: old(self).line + newlines_in(s, old(self).current as int, e),
                                column: old(self).start as int,
                            },
                        )
                        &&& final(self).current as int == e + 1
                        &&& final(self).line as int == old(self).line + newlines_in(
                            s,
                            old(self).current as int,
                            e,
                        )
                    },
                    Err(err) => {
                        &&& e >= s.len()
                        &&& err@ == SpecLexError::UnterminatedString {
                            position: old(self).start as int,
                        }
                        &&& final(self).tokens@ == old(self).tokens@
                    },
                }
            }),
    {
        let ghost s = self.input@;
        let ghost c0 = self.current as int;
        let ghost l0 = self.line as int;
        while self.peek() != '"' && !self.is_at_end()
            invariant
                self.input@ == s,
                self.start == old(self).start,
                self.tokens == old(self).tokens,
                c0 <= self.current as int <= s.len(),
                scan_until(s, self.current as int, '"') == scan_until(s, c0, '"'),
                self.line as int == l0 + newlines_in(s, c0, self.current as int),
                self.line as int <= 1 + self.current as int,
                1 <= self.line,
            decreases s.len() - self.current as int,
        {
            if self.peek() == '\n' {
                self.line = self.line + 1;
            }
            self.advance();
        }
        if self.is_at_end() {
            return Err(LexError::UnterminatedString { position: self.start });
        }
        self.advance();
        self.add_token(TokenType::Literal);
        Ok(())
    }

    /// Scans the rest of a numeric literal, the first digit already
    /// consumed: the remaining digits, and a fractional part only when a
    /// digit follows the decimal point.
    #[verifier::loop_isolation(false)]
    pub fn number(&mut self)
        requires
            old(self).wf(),
            old(self).current == old(self).start + 1,
            (old(self).start as int) < old(self).input@.len(),
        ensures
            final(self).input@ == old(self).input@,
            final(self).start == old(self).start,
            final(self).line == old(self).line,
            final(self).wf(),
            final(self).current as int == number_end(old(self).input@, old(self).current as int),
            tok_views(final(self).tokens@) == tok_views(old(self).tokens@).push(
                SpecTok {
                    kind: TokenType::Literal,
                    text: old(self).input@.subrange(
                        old(self).start as int,
                        number_end(old(self).input@, old(self).current as int),
                    ),
                    line: old(self).line as int,
                    column: old(self).start as int,
                },
            ),
    {
        let ghost s = self.input@;
        let ghost c0 = self.current as int;
        while is_digit_ch(self.peek())
            invariant
                self.input@ == s,
                self.start == old(self).start,
                self.tokens == old(self).tokens,
                self.line == old(self).line,
                c0 <= self.current as int <= s.len(),
                digits_end(s, self.current as int) == digits_end(s, c0),
            decreases s.len() - self.current as int,
        {
            self.advance();
        }
        let n = self.input.as_str().unicode_len();
        if self.peek() == '.' && self.current + 1 < n && is_digit_ch(
            self.input.as_str().get_char(self.current + 1),
        ) {
            self.advance();
            let ghost c1 = self.current as int;
            while is_digit_ch(self.peek())
                invariant
                    self.input@ == s,
                    self.start == old(self).start,
                    self.tokens == old(self).tokens,
                    self.line == old(self).line,
                    c1 <= self.current as int <= s.len(),
                    digits_end(s, self.current as int) == digits_end(s, c1),
                decreases s.len() - self.current as int,
            {
                self.advance();
            }
            proof {
                assert(digits_end(s, c1) == digits_end(s, c1 + 1));
            }
        }
        self.add_token(TokenType::Literal);
    }

    /// Scans the rest of a word, the first letter or underscore already
    /// consumed, and classifies it as a keyword or an identifier.
    #[verifier::loop_isolation(false)]
    pub fn identifier(&mut self)
        requires
            old(self).wf(),
            old(self).current == old(self).start + 1,
            (old(self).start as int) < old(self).input@.len(),
        ensures
            final(self).input@ == old(self).input@,
            final(self).start == old(self).start,
            final(self).line == old(self).line,
            final(self).wf(),
            final(self).current as int == ident_end(old(self).input@, old(self).current as int),
            ({
                let text = old(self).input@.subrange(
                    old(self).start as int,
                    ident_end(old(self).input@, old(self).current as int),
                );
                tok_views(final(self).tokens@) == tok_views(old(self).tokens@).push(
                    SpecTok {
                        kind: if is_keyword(text) {
                            TokenType::Keyword
                        } else {
                            TokenType::Identifier
                        },
                        text,
                        line: old(self).line as int,
                        column: old(self).start as int,
                    },
                )
            }),
    {
        let ghost s = self.input@;
        let ghost c0 = self.current as int;
        while is_alnum_ch(self.peek())
            invariant
                self.input@ == s,
                self.start == old(self).start,
                self.tokens == old(self).tokens,
                self.line == old(self).line,
                c0 <= self.current as int <= s.len(),
                ident_end(s, self.current as int) == ident_end(s, c0),
            decreases s.len() - self.current as int,
        {
            self.advance();
        }
        let text = self.input.as_str().substring_char(self.start, self.current);
        let kind = if is_keyword_str(text) {
            TokenType::Keyword
        } else {
            TokenType::Identifier
        };
        self.add_token(kind);
    }

    /// Scans one construct at the cursor: the executable counterpart of
    /// `lex_step` at the current position and line.
    #[verifier::loop_isolation(false)]
    pub fn scan_token(&mut self) -> (r: Result<(), LexError>)
        requires
            old(self).wf(),
            old(self).start == old(self).current,
            (old(self).current as int) < old(self).input@.len(),
        ensures
            final(self).input@ == old(self).input@,
            final(self).wf(),
            match r {
                Ok(()) => match lex_step(
                    old(self).input@,
                    old(self).current as int,
                    old(self).line as int,
                ) {
                    SpecLexStep::Emit { tok, next, line } => {
                        &&& tok_views(final(self).tokens@) == tok_views(old(self).tokens@).push(tok)
                        &&& final(self).current as int == next
                        &&& final(self).line as int == line
                        &&& final(self).current > old(self).current
                    },
                    SpecLexStep::Skip { next, line } => {
                        &&& final(self).tokens@ == old(self).tokens@
                        &&& final(self).current as int == next
                        &&& final(self).line as int == line
                        &&& final(self).current > old(self).current
                    },
                    SpecLexStep::Fail { .. } => false,
                },
                Err(e) => {
                    &&& final(self).tokens@ == old(self).tokens@
                    &&& lex_step(old(self).input@, old(self).current as int, old(self).line as int)
                        == SpecLexStep::Fail { err: e@ }
                },
            },
    {
        let ghost s = self.input@;
        let ghost i = self.current as int;
        let c = self.advance();
        if c == '(' || c == ')' || c == '{' || c == '}' || c == ',' || c == ';' || c == ':' {
            self.add_token(TokenType::Separator);
            Ok(())
        } else if c == '+' || c == '*' {
            self.add_token(TokenType::Operator);
            Ok(())
        } else if c == '-' {
            if self.match_char('>') {
                self.add_token(TokenType::Separator);
            } else {
                self.add_token(TokenType::Operator);
            }
            Ok(())
        } else if c == '/' {
            if self.match_char('/') {
                let ghost c2 = self.current as int;
                while self.peek() != '\n' && !self.is_at_end()
                    invariant
                        self.input@ == s,
                        self.start == old(self).start,
                        self.tokens == old(self).tokens,
                        self.line == old(self).line,
                        c2 <= self.current as int <= s.len(),
                        scan_until(s, self.current as int, '\n') == scan_until(s, c2, '\n'),
                    decreases s.len() - self.current as int,
                {
                    self.advance();
                }
                Ok(())
            } else {
                self.add_token(TokenType::Operator);
                Ok(())
            }
        } else if c == '=' || c == '!' || c == '<' || c == '>' {
            if self.match_char('=') {
                self.add_token(TokenType::Operator);
            } else {
                self.add_token(TokenType::Operator);
            }
            Ok(())
        } else if c == '"' {
            proof {
                lemma_scan_until_bounds(s, i + 1, '"');
            }
            match self.string() {
                Ok(()) => Ok(()),
                Err(e) => Err(e),
            }
        } else if is_digit_ch(c) {
            proof {
                lemma_number_end_bounds(s, i + 1);
            }
            self.number();
            Ok(())
        } else if is_alpha_ch(c) {
            proof {
                lemma_ident_end_bounds(s, i + 1);
            }
            self.identifier();
            Ok(())
        } else if c == ' ' || c == '\r' || c == '\t' {
            Ok(())
        } else if c == '\n' {
            self.line = self.line + 1;
            Ok(())
        } else {
            Err(LexError::UnexpectedCharacter { character: c, position: self.start })
        }
    }

    /// Scans the whole input into its token sequence, ending with the
    /// synthetic `EOF` marker, or fails with the first lexing error.
    #[verifier::loop_isolation(false)]
    pub fn tokenize(&mut self) -> (r: Result<Vec<Token>, LexError>)
        requires
            old(self).tokens@.len() == 0,
            old(self).start == 0,
            old(self).current == 0,
            old(self).line == 1,
            old(self).input@.len() < usize::MAX,
        ensures
            final(self).input@ == old(self).input@,
            match r {
                Ok(ts) => spec_tokenize(old(self).input@) == Ok::<Seq<SpecTok>, SpecLexError>(
                    tok_views(ts@),
                ),
                Err(e) => spec_tokenize(old(self).input@) == Err::<Seq<SpecTok>, SpecLexError>(e@),
            },
    {
        let ghost s = self.input@;
        while !self.is_at_end()
            invariant
                self.input@ == s,
                self.wf(),
                self.tokens@.len() >= 0,
                (lex_from(s, self.current as int, self.line as int) matches Ok(rest) ==> lex_from(
                    s,
                    0,
                    1,
                ) == Ok::<Seq<SpecTok>, SpecLexError>(tok_views(self.tokens@) + rest)),
                (lex_from(s, self.current as int, self.line as int) matches Err(e2) ==> lex_from(
                    s,
                    0,
                    1,
                ) == Err::<Seq<SpecTok>, SpecLexError>(e2)),
            decreases s.len() - self.current as int,
        {
            self.start = self.current;
            let ghost cur = self.current as int;
            let ghost ln = self.line as int;
            let ghost toks_pre = tok_views(self.tokens@);
            let step_result = self.scan_token();
            match step_result {
                Ok(()) => {
                    proof {
                        match lex_step(s, cur, ln) {
                            SpecLexStep::Emit { tok, next, line } => {
                                assert(lex_from(s, cur, ln) == (match lex_from(s, next, line) {
                                    Ok(rest) => Ok::<Seq<SpecTok>, SpecLexError>(
                                        seq![tok] + rest,
                                    ),
                                    Err(e) => Err::<Seq<SpecTok>, SpecLexError>(e),
                                }));
                                match lex_from(s, next, line) {
                                    Ok(rest) => {
                                        assert(toks_pre.push(tok) + rest =~= toks_pre + (
                                        seq![tok] + rest));
                                    },
                                    Err(_) => {},
                                }
                            },
                            SpecLexStep::Skip { next, line } => {
                                assert(lex_from(s, cur, ln) == lex_from(s, next, line));
                            },
                            SpecLexStep::Fail { .. } => {
                                assert(false);
                            },
                        }
                    }
                },
                Err(e) => {
                    proof {
                        assert(lex_from(s, cur, ln) == Err::<Seq<SpecTok>, SpecLexError>(e@));
                    }
                    return Err(e);
                },
            }
        }
        let ghost toks_pre = tok_views(self.tokens@);
        proof {
            assert(self.current as int == s.len());
            assert(lex_from(s, self.current as int, self.line as int) == Ok::<
                Seq<SpecTok>,
                SpecLexError,
            >(seq![eof_tok(self.line as int, s.len() as int)]));
        }
        let eof_value = String::from_str("EOF");
        let tok = Token {
            token_type: TokenType::Separator,
            value: eof_value,
            line: self.line,
            column: self.current,
        };
        let ghost v = tok@;
        self.tokens.push(tok);
        proof {
            assert(tok_views(self.tokens@) =~= toks_pre.push(v));
            assert(toks_pre.push(v) =~= toks_pre + seq![v]);
            assert(v == eof_tok(self.line as int, s.len() as int));
        }
        let mut out: Vec<Token> = Vec::new();
        core::mem::swap(&mut out, &mut self.tokens);
        Ok(out)
    }
}

} // verus!
