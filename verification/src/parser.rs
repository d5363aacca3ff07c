//! The recursive-descent parser with precedence climbing.
//!
//! The grammar, from loosest to tightest binding: a program is a sequence
//! of declarations; an assignment is right-associative and its left side
//! must reduce to a bare identifier; equality, comparison, additive and
//! multiplicative operators are left-associative; unary `!` and `-` bind
//! tighter still; a primary is a literal, an identifier or a
//! parenthesized expression.
//!
//! The `sp_` functions form the mathematical parser: each takes the token
//! sequence and a position and yields the parsed tree with the position
//! after it, or the first failure. Each `Parser` method is proved to
//! return exactly the value of its `sp_` counterpart, which makes parsing
//! deterministic by construction (`lemma_parse_deterministic`).
//!
//! Failure is abortive: there is no recovery, and the first wrong token
//! ends the whole parse.

use vstd::prelude::*;
use crate::ast::ASTNode;
use crate::ast::SpecAst;
use crate::ast::view_nodes;
use crate::ast::lemma_view_nodes_push;
use crate::token::Token;
use crate::token::TokenType;

verus! {

/// A failure of the parser, naming what was expected or what was wrong.
#[derive(Clone, PartialEq, Eq, Debug)]
pub enum ParseError {
    /// A specific token was required and not found.
    Expected { token_type: TokenType, value: String },
    ExpectedIdentifier,
    ExpectedDeclaration,
    ExpectedExpression,
    InvalidAssignmentTarget,
}

/// The mathematical value of a `ParseError`.
pub enum SpecParseError {
    Expected { kind: TokenType, text: Seq<char> },
    ExpectedIdentifier,
    ExpectedDeclaration,
    ExpectedExpression,
    InvalidAssignmentTarget,
}

impl View for ParseError {
    type V = SpecParseError;

    open spec fn view(&self) -> SpecParseError {
        match self {
            ParseError::Expected { token_type, value } => SpecParseError::Expected {
                kind: *token_type,
                text: value@,
            },
            ParseError::ExpectedIdentifier => SpecParseError::ExpectedIdentifier,
            ParseError::ExpectedDeclaration => SpecParseError::ExpectedDeclaration,
            ParseError::ExpectedExpression => SpecParseError::ExpectedExpression,
            ParseError::InvalidAssignmentTarget => SpecParseError::InvalidAssignmentTarget,
        }
    }
}

/// Whether the token at `pos` has the given kind and, unless `text` is
/// empty, the given text.
pub open spec fn tok_check(toks: Seq<Token>, pos: int, kind: TokenType, text: Seq<char>) -> bool {
    &&& 0 <= pos < toks.len()
    &&& toks[pos].token_type == kind
    &&& (text.len() == 0 || toks[pos].value@ == text)
}

/// The tokens not yet consumed; the parsers' termination measure.
pub open spec fn rem(toks: Seq<Token>, pos: int) -> int {
    if pos <= toks.len() {
        toks.len() - pos
    } else {
        0
    }
}

/// `p` if it is a sound position strictly past `pos`, else the next
/// position: a guard that makes the measure decrease by construction. The
/// executable parsers always advance, so in every reachable state the
/// guard returns `p` itself.
pub open spec fn stepped(toks: Seq<Token>, pos: int, p: int) -> int {
    if pos < p && p <= toks.len() {
        p
    } else if pos + 1 <= toks.len() {
        pos + 1
    } else {
        toks.len() as int
    }
}

/// `p` if it is a sound position at or past `pos`, else `pos` itself.
pub open spec fn bounded(toks: Seq<Token>, pos: int, p: int) -> int {
    if pos < p && p <= toks.len() {
        p
    } else {
        pos
    }
}

/// Consuming one required token: the position after it, or the failure
/// naming it.
pub open spec fn sp_expect(toks: Seq<Token>, pos: int, kind: TokenType, text: Seq<char>) -> Result<
    int,
    SpecParseError,
> {
    if tok_check(toks, pos, kind, text) {
        Ok(pos + 1)
    } else {
        Err(SpecParseError::Expected { kind, text })
    }
}

/// Consuming one identifier: its text and the position after it.
pub open spec fn sp_expect_ident(toks: Seq<Token>, pos: int) -> Result<
    (Seq<char>, int),
    SpecParseError,
> {
    if tok_check(toks, pos, TokenType::Identifier, Seq::empty()) {
        Ok((toks[pos].value@, pos + 1))
    } else {
        Err(SpecParseError::ExpectedIdentifier)
    }
}

/// A type reference: a bare identifier.
pub open spec fn sp_type(toks: Seq<Token>, pos: int) -> Result<(SpecAst, int), SpecParseError> {
    match sp_expect_ident(toks, pos) {
        Ok((name, p)) => Ok((SpecAst::Type { name }, p)),
        Err(e) => Err(e),
    }
}

/// A primary: a literal, an identifier, or a parenthesized expression.
pub open spec fn sp_primary(toks: Seq<Token>, pos: int) -> Result<(SpecAst, int), SpecParseError>
    decreases rem(toks, pos), 0int,
{
    if tok_check(toks, pos, TokenType::Literal, Seq::empty()) {
        Ok((SpecAst::Literal { value: toks[pos].value@ }, pos + 1))
    } else if tok_check(toks, pos, TokenType::Identifier, Seq::empty()) {
        Ok((SpecAst::Identifier { name: toks[pos].value@ }, pos + 1))
    } else if tok_check(toks, pos, TokenType::Separator, "("@) {
        match sp_expression(toks, pos + 1) {
            Ok((e, p)) => match sp_expect(toks, p, TokenType::Separator, ")"@) {
                Ok(p2) => Ok((e, p2)),
                Err(er) => Err(er),
            },
            Err(er) => Err(er),
        }
    } else {
        Err(SpecParseError::ExpectedExpression)
    }
}

/// A unary chain: `!` and `-` applied to a primary.
pub open spec fn sp_unary(toks: Seq<Token>, pos: int) -> Result<(SpecAst, int), SpecParseError>
    decreases rem(toks, pos), 1int,
{
    if tok_check(toks, pos, TokenType::Operator, "!"@) || tok_check(
        toks,
        pos,
        TokenType::Operator,
        "-"@,
    ) {
        let op = toks[pos].value@;
        match sp_unary(toks, pos + 1) {
            Ok((operand, p)) => Ok(
                (SpecAst::UnaryOperation { operator: op, operand: Box::new(operand) }, p),
            ),
            Err(e) => Err(e),
        }
    } else {
        sp_primary(toks, pos)
    }
}

/// The left-associative continuation of a multiplicative chain.
pub open spec fn sp_factor_more(toks: Seq<Token>, pos: int, acc: SpecAst) -> Result<
    (SpecAst, int),
    SpecParseError,
>
    decreases rem(toks, pos), 2int,
{
    if tok_check(toks, pos, TokenType::Operator, "*"@) || tok_check(
        toks,
        pos,
        TokenType::Operator,
        "/"@,
    ) {
        let op = toks[pos].value@;
        match sp_unary(toks, pos + 1) {
            Ok((right, p)) => sp_factor_more(
                toks,
                stepped(toks, pos, p),
                SpecAst::BinaryOperation {
                    left: Box::new(acc),
                    operator: op,
                    right: Box::new(right),
                },
            ),
            Err(e) => Err(e),
        }
    } else {
        Ok((acc, pos))
    }
}

/// A multiplicative chain of unaries.
pub open spec fn sp_factor(toks: Seq<Token>, pos: int) -> Result<(SpecAst, int), SpecParseError>
    decreases rem(toks, pos), 3int,
{
    match sp_unary(toks, pos) {
        Ok((e, p)) => sp_factor_more(toks, bounded(toks, pos, p), e),
        Err(er) => Err(er),
    }
}

/// The left-associative continuation of an additive chain.
pub open spec fn sp_term_more(toks: Seq<Token>, pos: int, acc: SpecAst) -> Result<
    (SpecAst, int),
    SpecParseError,
>
    decreases rem(toks, pos), 4int,
{
    if tok_check(toks, pos, TokenType::Operator, "+"@) || tok_check(
        toks,
        pos,
        TokenType::Operator,
        "-"@,
    ) {
        let op = toks[pos].value@;
        match sp_factor(toks, pos + 1) {
            Ok((right, p)) => sp_term_more(
                toks,
                stepped(toks, pos, p),
                SpecAst::BinaryOperation {
                    left: Box::new(acc),
                    operator: op,
                    right: Box::new(right),
                },
            ),
            Err(e) => Err(e),
        }
    } else {
        Ok((acc, pos))
    }
}

/// An additive chain of factors.
pub open spec fn sp_term(toks: Seq<Token>, pos: int) -> Result<(SpecAst, int), SpecParseError>
    decreases rem(toks, pos), 5int,
{
    match sp_factor(toks, pos) {
        Ok((e, p)) => sp_term_more(toks, bounded(toks, pos, p), e),
        Err(er) => Err(er),
    }
}

/// The left-associative continuation of a comparison chain.
pub open spec fn sp_comparison_more(toks: Seq<Token>, pos: int, acc: SpecAst) -> Result<
    (SpecAst, int),
    SpecParseError,
>
    decreases rem(toks, pos), 6int,
{
    if tok_check(toks, pos, TokenType::Operator, ">"@) || tok_check(
        toks,
        pos,
        TokenType::Operator,
        ">="@,
    ) || tok_check(toks, pos, TokenType::Operator, "<"@) || tok_check(
        toks,
        pos,
        TokenType::Operator,
        "<="@,
    ) {
        let op = toks[pos].value@;
        match sp_term(toks, pos + 1) {
            Ok((right, p)) => sp_comparison_more(
                toks,
                stepped(toks, pos, p),
                SpecAst::BinaryOperation {
                    left: Box::new(acc),
                    operator: op,
                    right: Box::new(right),
                },
            ),
            Err(e) => Err(e),
        }
    } else {
        Ok((acc, pos))
    }
}

/// A comparison chain of terms.
pub open spec fn sp_comparison(toks: Seq<Token>, pos: int) -> Result<(SpecAst, int), SpecParseError>
    decreases rem(toks, pos), 7int,
{
    match sp_term(toks, pos) {
        Ok((e, p)) => sp_comparison_more(toks, bounded(toks, pos, p), e),
        Err(er) => Err(er),
    }
}

/// The left-associative continuation of an equality chain.
pub open spec fn sp_equality_more(toks: Seq<Token>, pos: int, acc: SpecAst) -> Result<
    (SpecAst, int),
    SpecParseError,
>
    decreases rem(toks, pos), 8int,
{
    if tok_check(toks, pos, TokenType::Operator, "=="@) || tok_check(
        toks,
        pos,
        TokenType::Operator,
        "!="@,
    ) {
        let op = toks[pos].value@;
        match sp_comparison(toks, pos + 1) {
            Ok((right, p)) => sp_equality_more(
                toks,
                stepped(toks, pos, p),
                SpecAst::BinaryOperation {
                    left: Box::new(acc),
                    operator: op,
                    right: Box::new(right),
                },
            ),
            Err(e) => Err(e),
        }
    } else {
        Ok((acc, pos))
    }
}

/// An equality chain of comparisons.
pub open spec fn sp_equality(toks: Seq<Token>, pos: int) -> Result<(SpecAst, int), SpecParseError>
    decreases rem(toks, pos), 9int,
{
    match sp_comparison(toks, pos) {
        Ok((e, p)) => sp_equality_more(toks, bounded(toks, pos, p), e),
        Err(er) => Err(er),
    }
}

/// An assignment: right-associative, and its left side must already be a
/// bare identifier, else the whole parse fails.
pub open spec fn sp_assignment(toks: Seq<Token>, pos: int) -> Result<(SpecAst, int), SpecParseError>
    decreases rem(toks, pos), 10int,
{
    match sp_equality(toks, pos) {
        Ok((expr, p)) => {
            let p1 = bounded(toks, pos, p);
            if tok_check(toks, p1, TokenType::Operator, "="@) {
                match sp_assignment(toks, p1 + 1) {
                    Ok((value, p2)) => match expr {
                        SpecAst::Identifier { name } => Ok(
                            (
                                SpecAst::BinaryOperation {
                                    left: Box::new(SpecAst::Identifier { name }),
                                    operator: "="@,
                                    right: Box::new(value),
                                },
                                p2,
                            ),
                        ),
                        _ => Err(SpecParseError::InvalidAssignmentTarget),
                    },
                    Err(e) => Err(e),
                }
            } else {
                Ok((expr, p))
            }
        },
        Err(e) => Err(e),
    }
}

/// An expression: an assignment.
pub open spec fn sp_expression(toks: Seq<Token>, pos: int) -> Result<(SpecAst, int), SpecParseError>
    decreases rem(toks, pos), 11int,
{
    sp_assignment(toks, pos)
}

/// An expression statement: an expression closed by `;`.
pub open spec fn sp_expression_statement(toks: Seq<Token>, pos: int) -> Result<
    (SpecAst, int),
    SpecParseError,
>
    decreases rem(toks, pos), 12int,
{
    match sp_expression(toks, pos) {
        Ok((e, p)) => match sp_expect(toks, p, TokenType::Separator, ";"@) {
            Ok(p2) => Ok((SpecAst::Expression { inner: Box::new(e) }, p2)),
            Err(er) => Err(er),
        },
        Err(er) => Err(er),
    }
}

/// A variable declaration after its `let`: name, `:`, type, an optional
/// `=` initializer, and `;`.
pub open spec fn sp_variable_declaration(toks: Seq<Token>, pos: int) -> Result<
    (SpecAst, int),
    SpecParseError,
>
    decreases rem(toks, pos), 13int,
{
    match sp_expect_ident(toks, pos) {
        Ok((name, p1)) => match sp_expect(toks, p1, TokenType::Separator, ":"@) {
            Ok(p2) => match sp_type(toks, p2) {
                Ok((vt, p3)) => {
                    let p3b = bounded(toks, pos, p3);
                    if tok_check(toks, p3b, TokenType::Operator, "="@) {
                        match sp_expression(toks, p3b + 1) {
                            Ok((init, p4)) => match sp_expect(
                                toks,
                                p4,
                                TokenType::Separator,
                                ";"@,
                            ) {
                                Ok(p5) => Ok(
                                    (
                                        SpecAst::VariableDeclaration {
                                            name,
                                            var_type: Box::new(vt),
                                            initializer: Some(Box::new(init)),
                                        },
                                        p5,
                                    ),
                                ),
                                Err(e) => Err(e),
                            },
                            Err(e) => Err(e),
                        }
                    } else {
                        match sp_expect(toks, p3, TokenType::Separator, ";"@) {
                            Ok(p5) => Ok(
                                (
                                    SpecAst::VariableDeclaration {
                                        name,
                                        var_type: Box::new(vt),
                                        initializer: None,
                                    },
                                    p5,
                                ),
                            ),
                            Err(e) => Err(e),
                        }
                    }
                },
                Err(e) => Err(e),
            },
            Err(e) => Err(e),
        },
        Err(e) => Err(e),
    }
}

/// A statement: a `let` declaration or an expression statement.
pub open spec fn sp_statement(toks: Seq<Token>, pos: int) -> Result<(SpecAst, int), SpecParseError>
    decreases rem(toks, pos), 14int,
{
    if tok_check(toks, pos, TokenType::Keyword, "let"@) {
        sp_variable_declaration(toks, pos + 1)
    } else {
        sp_expression_statement(toks, pos)
    }
}

/// The statements of a block up to its closing `}`.
pub open spec fn sp_block_items(toks: Seq<Token>, pos: int, acc: Seq<SpecAst>) -> Result<
    (SpecAst, int),
    SpecParseError,
>
    decreases rem(toks, pos), 15int,
{
    if tok_check(toks, pos, TokenType::Separator, "}"@) {
        Ok((SpecAst::Block { statements: acc }, pos + 1))
    } else if pos >= toks.len() {
        Err(SpecParseError::Expected { kind: TokenType::Separator, text: "}"@ })
    } else {
        match sp_statement(toks, pos) {
            Ok((st, p)) => sp_block_items(toks, stepped(toks, pos, p), acc.push(st)),
            Err(e) => Err(e),
        }
    }
}

/// A block: `{`, statements, `}`.
pub open spec fn sp_block(toks: Seq<Token>, pos: int) -> Result<(SpecAst, int), SpecParseError>
    decreases rem(toks, pos), 16int,
{
    if tok_check(toks, pos, TokenType::Separator, "{"@) {
        sp_block_items(toks, pos + 1, Seq::empty())
    } else {
        Err(SpecParseError::Expected { kind: TokenType::Separator, text: "{"@ })
    }
}

/// The comma-separated formal parameters after the first one is known to
/// exist: each is a name, `:` and a type, recorded as a variable
/// declaration without initializer.
pub open spec fn sp_param_items(toks: Seq<Token>, pos: int, acc: Seq<SpecAst>) -> Result<
    (Seq<SpecAst>, int),
    SpecParseError,
>
    decreases rem(toks, pos), 17int,
{
    if !tok_check(toks, pos, TokenType::Identifier, Seq::empty()) {
        Err(SpecParseError::ExpectedIdentifier)
    } else {
        let pname = toks[pos].value@;
        if !tok_check(toks, pos + 1, TokenType::Separator, ":"@) {
            Err(SpecParseError::Expected { kind: TokenType::Separator, text: ":"@ })
        } else {
            match sp_type(toks, pos + 2) {
                Ok((vt, p3)) => {
                    let acc2 = acc.push(
                        SpecAst::VariableDeclaration {
                            name: pname,
                            var_type: Box::new(vt),
                            initializer: None,
                        },
                    );
                    let p3b = bounded(toks, pos, p3);
                    if tok_check(toks, p3b, TokenType::Separator, ","@) {
                        sp_param_items(toks, p3b + 1, acc2)
                    } else {
                        Ok((acc2, p3))
                    }
                },
                Err(e) => Err(e),
            }
        }
    }
}

/// A parameter list: empty when `)` follows at once, else one or more
/// comma-separated parameters. The closing `)` itself is not consumed.
pub open spec fn sp_parameters(toks: Seq<Token>, pos: int) -> Result<
    (Seq<SpecAst>, int),
    SpecParseError,
>
    decreases rem(toks, pos), 18int,
{
    if tok_check(toks, pos, TokenType::Separator, ")"@) {
        Ok((Seq::empty(), pos))
    } else {
        sp_param_items(toks, pos, Seq::empty())
    }
}

/// A function declaration after its `fn`: name, parenthesized parameters,
/// the `->` separator, the return type, and the body block.
pub open spec fn sp_function_declaration(toks: Seq<Token>, pos: int) -> Result<
    (SpecAst, int),
    SpecParseError,
>
    decreases rem(toks, pos), 19int,
{
    if !tok_check(toks, pos, TokenType::Identifier, Seq::empty()) {
        Err(SpecParseError::ExpectedIdentifier)
    } else {
        let name = toks[pos].value@;
        if !tok_check(toks, pos + 1, TokenType::Separator, "("@) {
            Err(SpecParseError::Expected { kind: TokenType::Separator, text: "("@ })
        } else {
            match sp_parameters(toks, pos + 2) {
                Ok((params, p)) => {
                    let pb = bounded(toks, pos, p);
                    if !tok_check(toks, pb, TokenType::Separator, ")"@) {
                        Err(SpecParseError::Expected { kind: TokenType::Separator, text: ")"@ })
                    } else if !tok_check(toks, pb + 1, TokenType::Separator, "->"@) {
                        Err(SpecParseError::Expected { kind: TokenType::Separator, text: "->"@ })
                    } else {
                        match sp_type(toks, pb + 2) {
                            Ok((rt, p4)) => match sp_block(toks, bounded(toks, pos, p4)) {
                                Ok((body, p5)) => Ok(
                                    (
                                        SpecAst::FunctionDeclaration {
                                            name,
                                            parameters: params,
                                            return_type: Box::new(rt),
                                            body: Box::new(body),
                                        },
                                        p5,
                                    ),
                                ),
                                Err(e) => Err(e),
                            },
                            Err(e) => Err(e),
                        }
                    }
                },
                Err(e) => Err(e),
            }
        }
    }
}

/// A declaration: a `fn` function declaration or a `let` variable
/// declaration.
pub open spec fn sp_declaration(toks: Seq<Token>, pos: int) -> Result<(SpecAst, int), SpecParseError>
    decreases rem(toks, pos), 20int,
{
    if tok_check(toks, pos, TokenType::Keyword, "fn"@) {
        sp_function_declaration(toks, pos + 1)
    } else if tok_check(toks, pos, TokenType::Keyword, "let"@) {
        sp_variable_declaration(toks, pos + 1)
    } else {
        Err(SpecParseError::ExpectedDeclaration)
    }
}

/// The declarations of a program until the tokens run out or the
/// synthetic `EOF` separator is reached; the marker itself is not
/// consumed.
pub open spec fn sp_program_items(toks: Seq<Token>, pos: int, acc: Seq<SpecAst>) -> Result<
    (SpecAst, int),
    SpecParseError,
>
    decreases rem(toks, pos), 21int,
{
    if pos >= toks.len() || tok_check(toks, pos, TokenType::Separator, "EOF"@) {
        Ok((SpecAst::Program { decls: acc }, pos))
    } else {
        match sp_declaration(toks, pos) {
            Ok((d, p)) => sp_program_items(toks, stepped(toks, pos, p), acc.push(d)),
            Err(e) => Err(e),
        }
    }
}

/// The whole parse: the program grown from the first token.
pub open spec fn sp_parse(toks: Seq<Token>) -> Result<(SpecAst, int), SpecParseError> {
    sp_program_items(toks, 0, Seq::empty())
}

/// Whether two tokens agree in kind and text; line and column are free to
/// differ, since the grammar never reads them.
pub open spec fn tok_like(a: Token, b: Token) -> bool {
    a.token_type == b.token_type && a.value@ == b.value@
}

/// Whether two token sequences agree token for token in kind and text.
pub open spec fn tokens_equiv(t1: Seq<Token>, t2: Seq<Token>) -> bool {
    &&& t1.len() == t2.len()
    &&& forall|i: int| 0 <= i < t1.len() ==> #[trigger] tok_like(t1[i], t2[i])
}

proof fn lemma_eqv_check(t1: Seq<Token>, t2: Seq<Token>, pos: int, kind: TokenType, text: Seq<char>)
    requires
        tokens_equiv(t1, t2),
    ensures
        tok_check(t1, pos, kind, text) == tok_check(t2, pos, kind, text),
        tok_check(t1, pos, kind, text) ==> t1[pos].value@ == t2[pos].value@,
{
    if 0 <= pos < t1.len() {
        assert(tok_like(t1[pos], t2[pos]));
    }
}

proof fn lemma_eqv_type(t1: Seq<Token>, t2: Seq<Token>, pos: int)
    requires
        tokens_equiv(t1, t2),
    ensures
        sp_type(t1, pos) == sp_type(t2, pos),
{
    lemma_eqv_check(t1, t2, pos, TokenType::Identifier, Seq::empty());
}

proof fn lemma_eqv_primary(t1: Seq<Token>, t2: Seq<Token>, pos: int)
    requires
        tokens_equiv(t1, t2),
    ensures
        sp_primary(t1, pos) == sp_primary(t2, pos),
    decreases rem(t1, pos), 0int,
{
    lemma_eqv_check(t1, t2, pos, TokenType::Literal, Seq::empty());
    lemma_eqv_check(t1, t2, pos, TokenType::Identifier, Seq::empty());
    lemma_eqv_check(t1, t2, pos, TokenType::Separator, "("@);
    if !tok_check(t1, pos, TokenType::Literal, Seq::empty()) && !tok_check(
        t1,
        pos,
        TokenType::Identifier,
        Seq::empty(),
    ) && tok_check(t1, pos, TokenType::Separator, "("@) {
        lemma_eqv_expression(t1, t2, pos + 1);
        match sp_expression(t1, pos + 1) {
            Ok((e, p)) => {
                lemma_eqv_check(t1, t2, p, TokenType::Separator, ")"@);
            },
            Err(_) => {},
        }
    }
}

proof fn lemma_eqv_unary(t1: Seq<Token>, t2: Seq<Token>, pos: int)
    requires
        tokens_equiv(t1, t2),
    ensures
        sp_unary(t1, pos) == sp_unary(t2, pos),
    decreases rem(t1, pos), 1int,
{
    lemma_eqv_check(t1, t2, pos, TokenType::Operator, "!"@);
    lemma_eqv_check(t1, t2, pos, TokenType::Operator, "-"@);
    if tok_check(t1, pos, TokenType::Operator, "!"@) || tok_check(
        t1,
        pos,
        TokenType::Operator,
        "-"@,
    ) {
        lemma_eqv_unary(t1, t2, pos + 1);
    } else {
        lemma_eqv_primary(t1, t2, pos);
    }
}

proof fn lemma_eqv_factor_more(t1: Seq<Token>, t2: Seq<Token>, pos: int, acc: SpecAst)
    requires
        tokens_equiv(t1, t2),
    ensures
        sp_factor_more(t1, pos, acc) == sp_factor_more(t2, pos, acc),
    decreases rem(t1, pos), 2int,
{
    lemma_eqv_check(t1, t2, pos, TokenType::Operator, "*"@);
    lemma_eqv_check(t1, t2, pos, TokenType::Operator, "/"@);
    if tok_check(t1, pos, TokenType::Operator, "*"@) || tok_check(
        t1,
        pos,
        TokenType::Operator,
        "/"@,
    ) {
        lemma_eqv_unary(t1, t2, pos + 1);
        match sp_unary(t1, pos + 1) {
            Ok((right, p)) => {
                lemma_eqv_factor_more(
                    t1,
                    t2,
                    stepped(t1, pos, p),
                    SpecAst::BinaryOperation {
                        left: Box::new(acc),
                        operator: t1[pos].value@,
                        right: Box::new(right),
                    },
                );
            },
            Err(_) => {},
        }
    }
}

proof fn lemma_eqv_factor(t1: Seq<Token>, t2: Seq<Token>, pos: int)
    requires
        tokens_equiv(t1, t2),
    ensures
        sp_factor(t1, pos) == sp_factor(t2, pos),
    decreases rem(t1, pos), 3int,
{
    lemma_eqv_unary(t1, t2, pos);
    match sp_unary(t1, pos) {
        Ok((e, p)) => {
            lemma_eqv_factor_more(t1, t2, bounded(t1, pos, p), e);
        },
        Err(_) => {},
    }
}

proof fn lemma_eqv_term_more(t1: Seq<Token>, t2: Seq<Token>, pos: int, acc: SpecAst)
    requires
        tokens_equiv(t1, t2),
    ensures
        sp_term_more(t1, pos, acc) == sp_term_more(t2, pos, acc),
    decreases rem(t1, pos), 4int,
{
    lemma_eqv_check(t1, t2, pos, TokenType::Operator, "+"@);
    lemma_eqv_check(t1, t2, pos, TokenType::Operator, "-"@);
    if tok_check(t1, pos, TokenType::Operator, "+"@) || tok_check(
        t1,
        pos,
        TokenType::Operator,
        "-"@,
    ) {
        lemma_eqv_factor(t1, t2, pos + 1);
        match sp_factor(t1, pos + 1) {
            Ok((right, p)) => {
                lemma_eqv_term_more(
                    t1,
                    t2,
                    stepped(t1, pos, p),
                    SpecAst::BinaryOperation {
                        left: Box::new(acc),
                        operator: t1[pos].value@,
                        right: Box::new(right),
                    },
                );
            },
            Err(_) => {},
        }
    }
}

proof fn lemma_eqv_term(t1: Seq<Token>, t2: Seq<Token>, pos: int)
    requires
        tokens_equiv(t1, t2),
    ensures
        sp_term(t1, pos) == sp_term(t2, pos),
    decreases rem(t1, pos), 5int,
{
    lemma_eqv_factor(t1, t2, pos);
    match sp_factor(t1, pos) {
        Ok((e, p)) => {
            lemma_eqv_term_more(t1, t2, bounded(t1, pos, p), e);
        },
        Err(_) => {},
    }
}

proof fn lemma_eqv_comparison_more(t1: Seq<Token>, t2: Seq<Token>, pos: int, acc: SpecAst)
    requires
        tokens_equiv(t1, t2),
    ensures
        sp_comparison_more(t1, pos, acc) == sp_comparison_more(t2, pos, acc),
    decreases rem(t1, pos), 6int,
{
    lemma_eqv_check(t1, t2, pos, TokenType::Operator, ">"@);
    lemma_eqv_check(t1, t2, pos, TokenType::Operator, ">="@);
    lemma_eqv_check(t1, t2, pos, TokenType::Operator, "<"@);
    lemma_eqv_check(t1, t2, pos, TokenType::Operator, "<="@);
    if tok_check(t1, pos, TokenType::Operator, ">"@) || tok_check(
        t1,
        pos,
        TokenType::Operator,
        ">="@,
    ) || tok_check(t1, pos, TokenType::Operator, "<"@) || tok_check(
        t1,
        pos,
        TokenType::Operator,
        "<="@,
    ) {
        lemma_eqv_term(t1, t2, pos + 1);
        match sp_term(t1, pos + 1) {
            Ok((right, p)) => {
                lemma_eqv_comparison_more(
                    t1,
                    t2,
                    stepped(t1, pos, p),
                    SpecAst::BinaryOperation {
                        left: Box::new(acc),
                        operator: t1[pos].value@,
                        right: Box::new(right),
                    },
                );
            },
            Err(_) => {},
        }
    }
}

proof fn lemma_eqv_comparison(t1: Seq<Token>, t2: Seq<Token>, pos: int)
    requires
        tokens_equiv(t1, t2),
    ensures
        sp_comparison(t1, pos) == sp_comparison(t2, pos),
    decreases rem(t1, pos), 7int,
{
    lemma_eqv_term(t1, t2, pos);
    match sp_term(t1, pos) {
        Ok((e, p)) => {
            lemma_eqv_comparison_more(t1, t2, bounded(t1, pos, p), e);
        },
        Err(_) => {},
    }
}

proof fn lemma_eqv_equality_more(t1: Seq<Token>, t2: Seq<Token>, pos: int, acc: SpecAst)
    requires
        tokens_equiv(t1, t2),
    ensures
        sp_equality_more(t1, pos, acc) == sp_equality_more(t2, pos, acc),
    decreases rem(t1, pos), 8int,
{
    lemma_eqv_check(t1, t2, pos, TokenType::Operator, "=="@);
    lemma_eqv_check(t1, t2, pos, TokenType::Operator, "!="@);
    if tok_check(t1, pos, TokenType::Operator, "=="@) || tok_check(
        t1,
        pos,
        TokenType::Operator,
        "!="@,
    ) {
        lemma_eqv_comparison(t1, t2, pos + 1);
        match sp_comparison(t1, pos + 1) {
            Ok((right, p)) => {
                lemma_eqv_equality_more(
                    t1,
                    t2,
                    stepped(t1, pos, p),
                    SpecAst::BinaryOperation {
                        left: Box::new(acc),
                        operator: t1[pos].value@,
                        right: Box::new(right),
                    },
                );
            },
            Err(_) => {},
        }
    }
}

proof fn lemma_eqv_equality(t1: Seq<Token>, t2: Seq<Token>, pos: int)
    requires
        tokens_equiv(t1, t2),
    ensures
        sp_equality(t1, pos) == sp_equality(t2, pos),
    decreases rem(t1, pos), 9int,
{
    lemma_eqv_comparison(t1, t2, pos);
    match sp_comparison(t1, pos) {
        Ok((e, p)) => {
            lemma_eqv_equality_more(t1, t2, bounded(t1, pos, p), e);
        },
        Err(_) => {},
    }
}

proof fn lemma_eqv_assignment(t1: Seq<Token>, t2: Seq<Token>, pos: int)
    requires
        tokens_equiv(t1, t2),
    ensures
        sp_assignment(t1, pos) == sp_assignment(t2, pos),
    decreases rem(t1, pos), 10int,
{
    lemma_eqv_equality(t1, t2, pos);
    match sp_equality(t1, pos) {
        Ok((expr, p)) => {
            let p1 = bounded(t1, pos, p);
            lemma_eqv_check(t1, t2, p1, TokenType::Operator, "="@);
            if tok_check(t1, p1, TokenType::Operator, "="@) {
                lemma_eqv_assignment(t1, t2, p1 + 1);
            }
        },
        Err(_) => {},
    }
}

proof fn lemma_eqv_expression(t1: Seq<Token>, t2: Seq<Token>, pos: int)
    requires
        tokens_equiv(t1, t2),
    ensures
        sp_expression(t1, pos) == sp_expression(t2, pos),
    decreases rem(t1, pos), 11int,
{
    lemma_eqv_assignment(t1, t2, pos);
}

proof fn lemma_eqv_expression_statement(t1: Seq<Token>, t2: Seq<Token>, pos: int)
    requires
        tokens_equiv(t1, t2),
    ensures
        sp_expression_statement(t1, pos) == sp_expression_statement(t2, pos),
    decreases rem(t1, pos), 12int,
{
    lemma_eqv_expression(t1, t2, pos);
    match sp_expression(t1, pos) {
        Ok((e, p)) => {
            lemma_eqv_check(t1, t2, p, TokenType::Separator, ";"@);
        },
        Err(_) => {},
    }
}

proof fn lemma_eqv_variable_declaration(t1: Seq<Token>, t2: Seq<Token>, pos: int)
    requires
        tokens_equiv(t1, t2),
    ensures
        sp_variable_declaration(t1, pos) == sp_variable_declaration(t2, pos),
    decreases rem(t1, pos), 13int,
{
    lemma_eqv_check(t1, t2, pos, TokenType::Identifier, Seq::empty());
    lemma_eqv_check(t1, t2, pos + 1, TokenType::Separator, ":"@);
    lemma_eqv_type(t1, t2, pos + 2);
    match sp_type(t1, pos + 2) {
        Ok((vt, p3)) => {
            let p3b = bounded(t1, pos, p3);
            lemma_eqv_check(t1, t2, p3b, TokenType::Operator, "="@);
            if tok_check(t1, p3b, TokenType::Operator, "="@) {
                lemma_eqv_expression(t1, t2, p3b + 1);
                match sp_expression(t1, p3b + 1) {
                    Ok((init, p4)) => {
                        lemma_eqv_check(t1, t2, p4, TokenType::Separator, ";"@);
                    },
                    Err(_) => {},
                }
            } else {
                lemma_eqv_check(t1, t2, p3, TokenType::Separator, ";"@);
            }
        },
        Err(_) => {},
    }
}

proof fn lemma_eqv_statement(t1: Seq<Token>, t2: Seq<Token>, pos: int)
    requires
        tokens_equiv(t1, t2),
    ensures
        sp_statement(t1, pos) == sp_statement(t2, pos),
    decreases rem(t1, pos), 14int,
{
    lemma_eqv_check(t1, t2, pos, TokenType::Keyword, "let"@);
    if tok_check(t1, pos, TokenType::Keyword, "let"@) {
        lemma_eqv_variable_declaration(t1, t2, pos + 1);
    } else {
        lemma_eqv_expression_statement(t1, t2, pos);
    }
}

proof fn lemma_eqv_block_items(t1: Seq<Token>, t2: Seq<Token>, pos: int, acc: Seq<SpecAst>)
    requires
        tokens_equiv(t1, t2),
    ensures
        sp_block_items(t1, pos, acc) == sp_block_items(t2, pos, acc),
    decreases rem(t1, pos), 15int,
{
    lemma_eqv_check(t1, t2, pos, TokenType::Separator, "}"@);
    if !tok_check(t1, pos, TokenType::Separator, "}"@) && pos < t1.len() {
        lemma_eqv_statement(t1, t2, pos);
        match sp_statement(t1, pos) {
            Ok((st, p)) => {
                lemma_eqv_block_items(t1, t2, stepped(t1, pos, p), acc.push(st));
            },
            Err(_) => {},
        }
    }
}

proof fn lemma_eqv_block(t1: Seq<Token>, t2: Seq<Token>, pos: int)
    requires
        tokens_equiv(t1, t2),
    ensures
        sp_block(t1, pos) == sp_block(t2, pos),
    decreases rem(t1, pos), 16int,
{
    lemma_eqv_check(t1, t2, pos, TokenType::Separator, "{"@);
    if tok_check(t1, pos, TokenType::Separator, "{"@) {
        lemma_eqv_block_items(t1, t2, pos + 1, Seq::empty());
    }
}

proof fn lemma_eqv_param_items(t1: Seq<Token>, t2: Seq<Token>, pos: int, acc: Seq<SpecAst>)
    requires
        tokens_equiv(t1, t2),
    ensures
        sp_param_items(t1, pos, acc) == sp_param_items(t2, pos, acc),
    decreases rem(t1, pos), 17int,
{
    lemma_eqv_check(t1, t2, pos, TokenType::Identifier, Seq::empty());
    lemma_eqv_check(t1, t2, pos + 1, TokenType::Separator, ":"@);
    lemma_eqv_type(t1, t2, pos + 2);
    if tok_check(t1, pos, TokenType::Identifier, Seq::empty()) && tok_check(
        t1,
        pos + 1,
        TokenType::Separator,
        ":"@,
    ) {
        match sp_type(t1, pos + 2) {
            Ok((vt, p3)) => {
                let p3b = bounded(t1, pos, p3);
                lemma_eqv_check(t1, t2, p3b, TokenType::Separator, ","@);
                if tok_check(t1, p3b, TokenType::Separator, ","@) {
                    lemma_eqv_param_items(
                        t1,
                        t2,
                        p3b + 1,
                        acc.push(
                            SpecAst::VariableDeclaration {
                                name: t1[pos].value@,
                                var_type: Box::new(vt),
                                initializer: None,
                            },
                        ),
                    );
                }
            },
            Err(_) => {},
        }
    }
}

proof fn lemma_eqv_parameters(t1: Seq<Token>, t2: Seq<Token>, pos: int)
    requires
        tokens_equiv(t1, t2),
    ensures
        sp_parameters(t1, pos) == sp_parameters(t2, pos),
    decreases rem(t1, pos), 18int,
{
    lemma_eqv_check(t1, t2, pos, TokenType::Separator, ")"@);
    if !tok_check(t1, pos, TokenType::Separator, ")"@) {
        lemma_eqv_param_items(t1, t2, pos, Seq::empty());
    }
}

proof fn lemma_eqv_function_declaration(t1: Seq<Token>, t2: Seq<Token>, pos: int)
    requires
        tokens_equiv(t1, t2),
    ensures
        sp_function_declaration(t1, pos) == sp_function_declaration(t2, pos),
    decreases rem(t1, pos), 19int,
{
    lemma_eqv_check(t1, t2, pos, TokenType::Identifier, Seq::empty());
    lemma_eqv_check(t1, t2, pos + 1, TokenType::Separator, "("@);
    if tok_check(t1, pos, TokenType::Identifier, Seq::empty()) && tok_check(
        t1,
        pos + 1,
        TokenType::Separator,
        "("@,
    ) {
        lemma_eqv_parameters(t1, t2, pos + 2);
        match sp_parameters(t1, pos + 2) {
            Ok((params, p)) => {
                let pb = bounded(t1, pos, p);
                lemma_eqv_check(t1, t2, pb, TokenType::Separator, ")"@);
                lemma_eqv_check(t1, t2, pb + 1, TokenType::Separator, "->"@);
                lemma_eqv_type(t1, t2, pb + 2);
                match sp_type(t1, pb + 2) {
                    Ok((rt, p4)) => {
                        lemma_eqv_block(t1, t2, bounded(t1, pos, p4));
                    },
                    Err(_) => {},
                }
            },
            Err(_) => {},
        }
    }
}

proof fn lemma_eqv_declaration(t1: Seq<Token>, t2: Seq<Token>, pos: int)
    requires
        tokens_equiv(t1, t2),
    ensures
        sp_declaration(t1, pos) == sp_declaration(t2, pos),
    decreases rem(t1, pos), 20int,
{
    lemma_eqv_check(t1, t2, pos, TokenType::Keyword, "fn"@);
    lemma_eqv_check(t1, t2, pos, TokenType::Keyword, "let"@);
    if tok_check(t1, pos, TokenType::Keyword, "fn"@) {
        lemma_eqv_function_declaration(t1, t2, pos + 1);
    } else if tok_check(t1, pos, TokenType::Keyword, "let"@) {
        lemma_eqv_variable_declaration(t1, t2, pos + 1);
    }
}

proof fn lemma_eqv_program_items(t1: Seq<Token>, t2: Seq<Token>, pos: int, acc: Seq<SpecAst>)
    requires
        tokens_equiv(t1, t2),
    ensures
        sp_program_items(t1, pos, acc) == sp_program_items(t2, pos, acc),
    decreases rem(t1, pos), 21int,
{
    lemma_eqv_check(t1, t2, pos, TokenType::Separator, "EOF"@);
    if pos < t1.len() && !tok_check(t1, pos, TokenType::Separator, "EOF"@) {
        lemma_eqv_declaration(t1, t2, pos);
        match sp_declaration(t1, pos) {
            Ok((d, p)) => {
                lemma_eqv_program_items(t1, t2, stepped(t1, pos, p), acc.push(d));
            },
            Err(_) => {},
        }
    }
}

/// Parsing is deterministic and depends only on each token's kind and
/// text: two token sequences that agree token for token in kind and text
/// (their line and column positions free to differ) parse to the same
/// tree, or to the same failure.
pub proof fn lemma_parse_deterministic(t1: Seq<Token>, t2: Seq<Token>)
    requires
        tokens_equiv(t1, t2),
    ensures
        sp_parse(t1) == sp_parse(t2),
{
    lemma_eqv_program_items(t1, t2, 0, Seq::empty());
}


/// A proof that the empty string literal denotes the empty sequence.
proof fn lemma_empty_text()
    ensures
        ""@ == Seq::<char>::empty(),
{
    reveal_strlit("");
    assert(""@ =~= Seq::<char>::empty());
}

/// The parser state: the token sequence and the cursor.
pub struct Parser {
    pub tokens: Vec<Token>,
    pub current: usize,
}

impl Parser {
    /// The cursor never passes the end of the tokens.
    pub open spec fn wf(self) -> bool {
        self.current <= self.tokens@.len()
    }

    pub fn new(tokens: Vec<Token>) -> (r: Parser)
        ensures
            r.tokens@ == tokens@,
            r.current == 0,
            r.wf(),
    {
        Parser { tokens, current: 0 }
    }

    pub fn is_at_end(&self) -> (r: bool)
        ensures
            r == (self.current as int >= self.tokens@.len()),
    {
        self.current >= self.tokens.len()
    }

    /// The most recently consumed token.
    pub fn previous(&self) -> (r: &Token)
        requires
            1 <= self.current <= self.tokens@.len(),
        ensures
            *r == self.tokens@[self.current as int - 1],
    {
        &self.tokens[self.current - 1]
    }

    /// Moves the cursor past the current token, if any remains.
    pub fn advance(&mut self)
        requires
            old(self).wf(),
        ensures
            final(self).tokens@ == old(self).tokens@,
            final(self).wf(),
            final(self).current == old(self).current + (if (old(self).current as int) < old(
                self,
            ).tokens@.len() {
                1int
            } else {
                0int
            }),
    {
        if self.current < self.tokens.len() {
            self.current = self.current + 1;
        }
    }

    /// Whether the current token has the given kind and, unless `value` is
    /// empty, the given text; consumes nothing.
    pub fn check(&self, token_type: TokenType, value: &str) -> (r: bool)
        ensures
            r == tok_check(self.tokens@, self.current as int, token_type, value@),
    {
        if self.is_at_end() {
            false
        } else {
            let token = &self.tokens[self.current];
            token.token_type == token_type && (value.is_empty() || token.value == value.to_owned())
        }
    }

    /// Consumes the current token if `check` accepts it.
    pub fn match_token(&mut self, token_type: TokenType, value: &str) -> (r: bool)
        requires
            old(self).wf(),
        ensures
            final(self).tokens@ == old(self).tokens@,
            final(self).wf(),
            r == tok_check(old(self).tokens@, old(self).current as int, token_type, value@),
            final(self).current == old(self).current + (if r {
                1int
            } else {
                0int
            }),
    {
        if self.check(token_type, value) {
            self.advance();
            true
        } else {
            false
        }
    }

    /// Consumes the current token if any of the kind-and-text candidates
    /// accepts it.
    pub fn match_any(&mut self, candidates: &[(TokenType, &str)]) -> (r: bool)
        requires
            old(self).wf(),
        ensures
            final(self).tokens@ == old(self).tokens@,
            final(self).wf(),
            r == (exists|k: int|
                0 <= k < candidates@.len() && tok_check(
                    old(self).tokens@,
                    old(self).current as int,
                    candidates@[k].0,
                    candidates@[k].1@,
                )),
            final(self).current == old(self).current + (if r {
                1int
            } else {
                0int
            }),
    {
        let mut idx: usize = 0;
        while idx < candidates.len()
            invariant
                old(self).wf(),
                *self == *old(self),
                idx <= candidates@.len(),
                forall|k: int|
                    0 <= k < idx ==> !tok_check(
                        old(self).tokens@,
                        old(self).current as int,
                        candidates@[k].0,
                        candidates@[k].1@,
                    ),
            decreases candidates@.len() - idx,
        {
            let pair = &candidates[idx];
            if self.check(pair.0, pair.1) {
                proof {
                    assert(tok_check(
                        old(self).tokens@,
                        old(self).current as int,
                        candidates@[idx as int].0,
                        candidates@[idx as int].1@,
                    ));
                }
                self.advance();
                return true;
            }
            idx = idx + 1;
        }
        false
    }

    /// Consumes one required token or fails naming it.
    pub fn expect_token(&mut self, token_type: TokenType, value: &str) -> (r: Result<
        (),
        ParseError,
    >)
        requires
            old(self).wf(),
        ensures
            final(self).tokens@ == old(self).tokens@,
            final(self).wf(),
            match r {
                Ok(()) => tok_check(
                    old(self).tokens@,
                    old(self).current as int,
                    token_type,
                    value@,
                ) && final(self).current == old(self).current + 1,
                Err(e) => {
                    &&& !tok_check(old(self).tokens@, old(self).current as int, token_type, value@)
                    &&& e@ == (SpecParseError::Expected { kind: token_type, text: value@ })
                    &&& final(self).current == old(self).current
                },
            },
    {
        if self.check(token_type, value) {
            self.advance();
            Ok(())
        } else {
            Err(ParseError::Expected { token_type, value: value.to_owned() })
        }
    }

    /// Consumes one identifier token and returns its text, or fails.
    pub fn expect_identifier(&mut self) -> (r: Result<String, ParseError>)
        requires
            old(self).wf(),
        ensures
            final(self).tokens@ == old(self).tokens@,
            final(self).wf(),
            match r {
                Ok(name) => sp_expect_ident(old(self).tokens@, old(self).current as int) == Ok::<
                    (Seq<char>, int),
                    SpecParseError,
                >((name@, final(self).current as int)) && final(self).current == old(self).current
                    + 1,
                Err(e) => sp_expect_ident(old(self).tokens@, old(self).current as int) == Err::<
                    (Seq<char>, int),
                    SpecParseError,
                >(e@) && final(self).current == old(self).current,
            },
    {
        proof {
            lemma_empty_text();
        }
        if self.match_token(TokenType::Identifier, "") {
            Ok(self.previous().value.clone())
        } else {
            Err(ParseError::ExpectedIdentifier)
        }
    }

    /// Parses a type reference: a bare identifier.
    pub fn parse_type(&mut self) -> (r: Result<ASTNode, ParseError>)
        requires
            old(self).wf(),
        ensures
            final(self).tokens@ == old(self).tokens@,
            final(self).wf(),
            match r {
                Ok(node) => sp_type(old(self).tokens@, old(self).current as int) == Ok::<
                    (SpecAst, int),
                    SpecParseError,
                >((node@, final(self).current as int)) && final(self).current == old(self).current
                    + 1,
                Err(e) => sp_type(old(self).tokens@, old(self).current as int) == Err::<
                    (SpecAst, int),
                    SpecParseError,
                >(e@) && final(self).current == old(self).current,
            },
    {
        match self.expect_identifier() {
            Ok(tname) => Ok(ASTNode::Type(tname)),
            Err(e) => Err(e),
        }
    }

    /// Parses a primary: a literal, an identifier, or a parenthesized
    /// expression.
    pub fn parse_primary(&mut self) -> (r: Result<ASTNode, ParseError>)
        requires
            old(self).wf(),
        ensures
            final(self).tokens@ == old(self).tokens@,
            final(self).wf(),
            final(self).current >= old(self).current,
            match r {
                Ok(node) => sp_primary(old(self).tokens@, old(self).current as int) == Ok::<
                    (SpecAst, int),
                    SpecParseError,
                >((node@, final(self).current as int)) && final(self).current > old(self).current,
                Err(e) => sp_primary(old(self).tokens@, old(self).current as int) == Err::<
                    (SpecAst, int),
                    SpecParseError,
                >(e@),
            },
            (!tok_check(
                old(self).tokens@,
                old(self).current as int,
                TokenType::Literal,
                Seq::empty(),
            ) && !tok_check(
                old(self).tokens@,
                old(self).current as int,
                TokenType::Identifier,
                Seq::empty(),
            ) && !tok_check(
                old(self).tokens@,
                old(self).current as int,
                TokenType::Separator,
                "("@,
            )) ==> final(self).current == old(self).current,
        decreases old(self).tokens@.len() - old(self).current, 0int,
    {
        proof {
            lemma_empty_text();
        }
        let ghost toks = self.tokens@;
        let ghost pos0 = self.current as int;
        if self.match_token(TokenType::Literal, "") {
            Ok(ASTNode::Literal(self.previous().value.clone()))
        } else if self.match_token(TokenType::Identifier, "") {
            Ok(ASTNode::Identifier(self.previous().value.clone()))
        } else if self.match_token(TokenType::Separator, "(") {
            let expr: ASTNode;
            match self.parse_expression() {
                Ok(node) => {
                    expr = node;
                },
                Err(e) => {
                    return Err(e);
                },
            }
            match self.expect_token(TokenType::Separator, ")") {
                Ok(()) => Ok(expr),
                Err(e) => Err(e),
            }
        } else {
            Err(ParseError::ExpectedExpression)
        }
    }

    /// Parses a unary chain: `!` or `-` applied to a unary, else a primary.
    pub fn parse_unary(&mut self) -> (r: Result<ASTNode, ParseError>)
        requires
            old(self).wf(),
        ensures
            final(self).tokens@ == old(self).tokens@,
            final(self).wf(),
            final(self).current >= old(self).current,
            match r {
                Ok(node) => sp_unary(old(self).tokens@, old(self).current as int) == Ok::<
                    (SpecAst, int),
                    SpecParseError,
                >((node@, final(self).current as int)) && final(self).current > old(self).current,
                Err(e) => sp_unary(old(self).tokens@, old(self).current as int) == Err::<
                    (SpecAst, int),
                    SpecParseError,
                >(e@),
            },
        decreases old(self).tokens@.len() - old(self).current, 1int,
    {
        let ghost toks = self.tokens@;
        let ghost pos0 = self.current as int;
        if self.match_any(&[(TokenType::Operator, "!"), (TokenType::Operator, "-")]) {
            let operator = self.previous().value.clone();
            match self.parse_unary() {
                Ok(node) => Ok(ASTNode::UnaryOperation { operator, operand: Box::new(node) }),
                Err(e) => Err(e),
            }
        } else {
            self.parse_primary()
        }
    }
}


impl Parser {
    /// Parses a multiplicative chain, left-associatively.
    #[verifier::loop_isolation(false)]
    pub fn parse_factor(&mut self) -> (r: Result<ASTNode, ParseError>)
        requires
            old(self).wf(),
        ensures
            final(self).tokens@ == old(self).tokens@,
            final(self).wf(),
            final(self).current >= old(self).current,
            match r {
                Ok(node) => sp_factor(old(self).tokens@, old(self).current as int) == Ok::<
                    (SpecAst, int),
                    SpecParseError,
                >((node@, final(self).current as int)) && final(self).current > old(self).current,
                Err(e) => sp_factor(old(self).tokens@, old(self).current as int) == Err::<
                    (SpecAst, int),
                    SpecParseError,
                >(e@),
            },
        decreases old(self).tokens@.len() - old(self).current, 3int,
    {
        let ghost toks = self.tokens@;
        let ghost pos0 = self.current as int;
        let mut expr: ASTNode;
        match self.parse_unary() {
            Ok(node) => {
                expr = node;
            },
            Err(e) => {
                return Err(e);
            },
        }
        proof {
            assert(bounded(toks, pos0, self.current as int) == self.current as int);
            assert(sp_factor(toks, pos0) == sp_factor_more(toks, self.current as int, expr@));
        }
        let candidates: &[(TokenType, &str)] = &[(TokenType::Operator, "*"), (TokenType::Operator, "/")];
        while self.match_any(candidates)
            invariant
                self.wf(),
                self.tokens@ == toks,
                pos0 < self.current as int,
                sp_factor_more(toks, self.current as int, expr@) == sp_factor(toks, pos0),
            decreases toks.len() - self.current as int,
        {
            let ghost oppos = self.current as int - 1;
            let ghost acc0 = expr@;
            proof {
                assert(tok_check(toks, oppos, TokenType::Operator, "*"@) || tok_check(toks, oppos, TokenType::Operator, "/"@));
            }
            let operator = self.previous().value.clone();
            let right: ASTNode;
            match self.parse_unary() {
                Ok(node) => {
                    right = node;
                },
                Err(e) => {
                    return Err(e);
                },
            }
            let ghost rightv = right@;
            proof {
                assert(stepped(toks, oppos, self.current as int) == self.current as int);
            }
            expr = ASTNode::BinaryOperation {
                left: Box::new(expr),
                operator,
                right: Box::new(right),
            };
            proof {
                assert(expr@ == (SpecAst::BinaryOperation {
                    left: Box::new(acc0),
                    operator: toks[oppos].value@,
                    right: Box::new(rightv),
                }));
                assert(sp_factor_more(toks, self.current as int, expr@) == sp_factor(toks, pos0));
            }
        }
        Ok(expr)
    }

    /// Parses an additive chain, left-associatively.
    #[verifier::loop_isolation(false)]
    pub fn parse_term(&mut self) -> (r: Result<ASTNode, ParseError>)
        requires
            old(self).wf(),
        ensures
            final(self).tokens@ == old(self).tokens@,
            final(self).wf(),
            final(self).current >= old(self).current,
            match r {
                Ok(node) => sp_term(old(self).tokens@, old(self).current as int) == Ok::<
                    (SpecAst, int),
                    SpecParseError,
                >((node@, final(self).current as int)) && final(self).current > old(self).current,
                Err(e) => sp_term(old(self).tokens@, old(self).current as int) == Err::<
                    (SpecAst, int),
                    SpecParseError,
                >(e@),
            },
        decreases old(self).tokens@.len() - old(self).current, 5int,
    {
        let ghost toks = self.tokens@;
        let ghost pos0 = self.current as int;
        let mut expr: ASTNode;
        match self.parse_factor() {
            Ok(node) => {
                expr = node;
            },
            Err(e) => {
                return Err(e);
            },
        }
        proof {
            assert(bounded(toks, pos0, self.current as int) == self.current as int);
            assert(sp_term(toks, pos0) == sp_term_more(toks, self.current as int, expr@));
        }
        let candidates: &[(TokenType, &str)] = &[(TokenType::Operator, "+"), (TokenType::Operator, "-")];
        while self.match_any(candidates)
            invariant
                self.wf(),
                self.tokens@ == toks,
                pos0 < self.current as int,
                sp_term_more(toks, self.current as int, expr@) == sp_term(toks, pos0),
            decreases toks.len() - self.current as int,
        {
            let ghost oppos = self.current as int - 1;
            let ghost acc0 = expr@;
            proof {
                assert(tok_check(toks, oppos, TokenType::Operator, "+"@) || tok_check(toks, oppos, TokenType::Operator, "-"@));
            }
            let operator = self.previous().value.clone();
            let right: ASTNode;
            match self.parse_factor() {
                Ok(node) => {
                    right = node;
                },
                Err(e) => {
                    return Err(e);
                },
            }
            let ghost rightv = right@;
            proof {
                assert(stepped(toks, oppos, self.current as int) == self.current as int);
            }
            expr = ASTNode::BinaryOperation {
                left: Box::new(expr),
                operator,
                right: Box::new(right),
            };
            proof {
                assert(expr@ == (SpecAst::BinaryOperation {
                    left: Box::new(acc0),
                    operator: toks[oppos].value@,
                    right: Box::new(rightv),
                }));
                assert(sp_term_more(toks, self.current as int, expr@) == sp_term(toks, pos0));
            }
        }
        Ok(expr)
    }

    /// Parses a comparison chain, left-associatively.
    #[verifier::loop_isolation(false)]
    pub fn parse_comparison(&mut self) -> (r: Result<ASTNode, ParseError>)
        requires
            old(self).wf(),
        ensures
            final(self).tokens@ == old(self).tokens@,
            final(self).wf(),
            final(self).current >= old(self).current,
            match r {
                Ok(node) => sp_comparison(old(self).tokens@, old(self).current as int) == Ok::<
                    (SpecAst, int),
                    SpecParseError,
                >((node@, final(self).current as int)) && final(self).current > old(self).current,
                Err(e) => sp_comparison(old(self).tokens@, old(self).current as int) == Err::<
                    (SpecAst, int),
                    SpecParseError,
                >(e@),
            },
        decreases old(self).tokens@.len() - old(self).current, 7int,
    {
        let ghost toks = self.tokens@;
        let ghost pos0 = self.current as int;
        let mut expr: ASTNode;
        match self.parse_term() {
            Ok(node) => {
                expr = node;
            },
            Err(e) => {
                return Err(e);
            },
        }
        proof {
            assert(bounded(toks, pos0, self.current as int) == self.current as int);
            assert(sp_comparison(toks, pos0) == sp_comparison_more(toks, self.current as int, expr@));
        }
        let candidates: &[(TokenType, &str)] = &[(TokenType::Operator, ">"), (TokenType::Operator, ">="), (TokenType::Operator, "<"), (TokenType::Operator, "<=")];
        while self.match_any(candidates)
            invariant
                self.wf(),
                self.tokens@ == toks,
                pos0 < self.current as int,
                sp_comparison_more(toks, self.current as int, expr@) == sp_comparison(toks, pos0),
            decreases toks.len() - self.current as int,
        {
            let ghost oppos = self.current as int - 1;
            let ghost acc0 = expr@;
            proof {
                assert(tok_check(toks, oppos, TokenType::Operator, ">"@) || tok_check(toks, oppos, TokenType::Operator, ">="@) || tok_check(toks, oppos, TokenType::Operator, "<"@) || tok_check(toks, oppos, TokenType::Operator, "<="@));
            }
            let operator = self.previous().value.clone();
            let right: ASTNode;
            match self.parse_term() {
                Ok(node) => {
                    right = node;
                },
                Err(e) => {
                    return Err(e);
                },
            }
            let ghost rightv = right@;
            proof {
                assert(stepped(toks, oppos, self.current as int) == self.current as int);
            }
            expr = ASTNode::BinaryOperation {
                left: Box::new(expr),
                operator,
                right: Box::new(right),
            };
            proof {
                assert(expr@ == (SpecAst::BinaryOperation {
                    left: Box::new(acc0),
                    operator: toks[oppos].value@,
                    right: Box::new(rightv),
                }));
                assert(sp_comparison_more(toks, self.current as int, expr@) == sp_comparison(toks, pos0));
            }
        }
        Ok(expr)
    }

    /// Parses an equality chain, left-associatively.
    #[verifier::loop_isolation(false)]
    pub fn parse_equality(&mut self) -> (r: Result<ASTNode, ParseError>)
        requires
            old(self).wf(),
        ensures
            final(self).tokens@ == old(self).tokens@,
            final(self).wf(),
            final(self).current >= old(self).current,
            match r {
                Ok(node) => sp_equality(old(self).tokens@, old(self).current as int) == Ok::<
                    (SpecAst, int),
                    SpecParseError,
                >((node@, final(self).current as int)) && final(self).current > old(self).current,
                Err(e) => sp_equality(old(self).tokens@, old(self).current as int) == Err::<
                    (SpecAst, int),
                    SpecParseError,
                >(e@),
            },
        decreases old(self).tokens@.len() - old(self).current, 9int,
    {
        let ghost toks = self.tokens@;
        let ghost pos0 = self.current as int;
        let mut expr: ASTNode;
        match self.parse_comparison() {
            Ok(node) => {
                expr = node;
            },
            Err(e) => {
                return Err(e);
            },
        }
        proof {
            assert(bounded(toks, pos0, self.current as int) == self.current as int);
            assert(sp_equality(toks, pos0) == sp_equality_more(toks, self.current as int, expr@));
        }
        let candidates: &[(TokenType, &str)] = &[(TokenType::Operator, "=="), (TokenType::Operator, "!=")];
        while self.match_any(candidates)
            invariant
                self.wf(),
                self.tokens@ == toks,
                pos0 < self.current as int,
                sp_equality_more(toks, self.current as int, expr@) == sp_equality(toks, pos0),
            decreases toks.len() - self.current as int,
        {
            let ghost oppos = self.current as int - 1;
            let ghost acc0 = expr@;
            proof {
                assert(tok_check(toks, oppos, TokenType::Operator, "=="@) || tok_check(toks, oppos, TokenType::Operator, "!="@));
            }
            let operator = self.previous().value.clone();
            let right: ASTNode;
            match self.parse_comparison() {
                Ok(node) => {
                    right = node;
                },
                Err(e) => {
                    return Err(e);
                },
            }
            let ghost rightv = right@;
            proof {
                assert(stepped(toks, oppos, self.current as int) == self.current as int);
            }
            expr = ASTNode::BinaryOperation {
                left: Box::new(expr),
                operator,
                right: Box::new(right),
            };
            proof {
                assert(expr@ == (SpecAst::BinaryOperation {
                    left: Box::new(acc0),
                    operator: toks[oppos].value@,
                    right: Box::new(rightv),
                }));
                assert(sp_equality_more(toks, self.current as int, expr@) == sp_equality(toks, pos0));
            }
        }
        Ok(expr)
    }
}


impl Parser {
    /// Parses an assignment: right-associative, and the left side must be
    /// a bare identifier.
    pub fn parse_assignment(&mut self) -> (r: Result<ASTNode, ParseError>)
        requires
            old(self).wf(),
        ensures
            final(self).tokens@ == old(self).tokens@,
            final(self).wf(),
            final(self).current >= old(self).current,
            match r {
                Ok(node) => sp_assignment(old(self).tokens@, old(self).current as int) == Ok::<
                    (SpecAst, int),
                    SpecParseError,
                >((node@, final(self).current as int)) && final(self).current > old(self).current,
                Err(e) => sp_assignment(old(self).tokens@, old(self).current as int) == Err::<
                    (SpecAst, int),
                    SpecParseError,
                >(e@),
            },
        decreases old(self).tokens@.len() - old(self).current, 10int,
    {
        let ghost toks = self.tokens@;
        let ghost pos0 = self.current as int;
        let expr: ASTNode;
        match self.parse_equality() {
            Ok(node) => {
                expr = node;
            },
            Err(e) => {
                return Err(e);
            },
        }
        let ghost p = self.current as int;
        let ghost exprv = expr@;
        if self.match_token(TokenType::Operator, "=") {
            proof {
                assert(bounded(toks, pos0, p) == p);
            }
            let value: ASTNode;
            match self.parse_assignment() {
                Ok(node) => {
                    value = node;
                },
                Err(e) => {
                    return Err(e);
                },
            }
            let ghost valuev = value@;
            match expr {
                ASTNode::Identifier(name) => {
                    let lhs = ASTNode::Identifier(name);
                    proof {
                        assert(lhs@ == exprv);
                    }
                    let node = ASTNode::BinaryOperation {
                        left: Box::new(lhs),
                        operator: String::from_str("="),
                        right: Box::new(value),
                    };
                    proof {
                        assert(node@ == (SpecAst::BinaryOperation {
                            left: Box::new(exprv),
                            operator: "="@,
                            right: Box::new(valuev),
                        }));
                    }
                    Ok(node)
                },
                _ => {
                    proof {
                        assert(!(exprv is Identifier));
                    }
                    Err(ParseError::InvalidAssignmentTarget)
                },
            }
        } else {
            Ok(expr)
        }
    }

    /// Parses an expression: an assignment.
    pub fn parse_expression(&mut self) -> (r: Result<ASTNode, ParseError>)
        requires
            old(self).wf(),
        ensures
            final(self).tokens@ == old(self).tokens@,
            final(self).wf(),
            final(self).current >= old(self).current,
            match r {
                Ok(node) => sp_expression(old(self).tokens@, old(self).current as int) == Ok::<
                    (SpecAst, int),
                    SpecParseError,
                >((node@, final(self).current as int)) && final(self).current > old(self).current,
                Err(e) => sp_expression(old(self).tokens@, old(self).current as int) == Err::<
                    (SpecAst, int),
                    SpecParseError,
                >(e@),
            },
        decreases old(self).tokens@.len() - old(self).current, 11int,
    {
        self.parse_assignment()
    }

    /// Parses an expression statement: an expression closed by `;`.
    pub fn parse_expression_statement(&mut self) -> (r: Result<ASTNode, ParseError>)
        requires
            old(self).wf(),
        ensures
            final(self).tokens@ == old(self).tokens@,
            final(self).wf(),
            final(self).current >= old(self).current,
            match r {
                Ok(node) => sp_expression_statement(old(self).tokens@, old(self).current as int)
                    == Ok::<(SpecAst, int), SpecParseError>((node@, final(self).current as int))
                    && final(self).current > old(self).current,
                Err(e) => sp_expression_statement(old(self).tokens@, old(self).current as int)
                    == Err::<(SpecAst, int), SpecParseError>(e@),
            },
        decreases old(self).tokens@.len() - old(self).current, 12int,
    {
        let ghost toks = self.tokens@;
        let ghost pos0 = self.current as int;
        let expr: ASTNode;
        match self.parse_expression() {
            Ok(node) => {
                expr = node;
            },
            Err(e) => {
                return Err(e);
            },
        }
        let ghost exprv = expr@;
        match self.expect_token(TokenType::Separator, ";") {
            Ok(()) => {
                let node = ASTNode::Expression(Box::new(expr));
                proof {
                    assert(node@ == (SpecAst::Expression { inner: Box::new(exprv) }));
                }
                Ok(node)
            },
            Err(e) => Err(e),
        }
    }

    /// Parses a variable declaration after its `let`: name, `:`, type, an
    /// optional `=` initializer, and `;`.
    pub fn parse_variable_declaration(&mut self) -> (r: Result<ASTNode, ParseError>)
        requires
            old(self).wf(),
        ensures
            final(self).tokens@ == old(self).tokens@,
            final(self).wf(),
            final(self).current >= old(self).current,
            match r {
                Ok(node) => sp_variable_declaration(old(self).tokens@, old(self).current as int)
                    == Ok::<(SpecAst, int), SpecParseError>((node@, final(self).current as int))
                    && final(self).current > old(self).current,
                Err(e) => sp_variable_declaration(old(self).tokens@, old(self).current as int)
                    == Err::<(SpecAst, int), SpecParseError>(e@),
            },
            !tok_check(
                old(self).tokens@,
                old(self).current as int,
                TokenType::Identifier,
                Seq::empty(),
            ) ==> final(self).current == old(self).current,
        decreases old(self).tokens@.len() - old(self).current, 13int,
    {
        let ghost toks = self.tokens@;
        let ghost pos0 = self.current as int;
        let name: String;
        match self.expect_identifier() {
            Ok(n) => {
                name = n;
            },
            Err(e) => {
                return Err(e);
            },
        }
        let ghost namev = name@;
        match self.expect_token(TokenType::Separator, ":") {
            Ok(()) => {},
            Err(e) => {
                return Err(e);
            },
        }
        let var_type_node: ASTNode;
        match self.parse_type() {
            Ok(n) => {
                var_type_node = n;
            },
            Err(e) => {
                return Err(e);
            },
        }
        let ghost vtv = var_type_node@;
        let ghost p3 = self.current as int;
        let initializer: Option<Box<ASTNode>>;
        let ghost initv: Option<Box<SpecAst>>;
        if self.match_token(TokenType::Operator, "=") {
            proof {
                assert(bounded(toks, pos0, p3) == p3);
            }
            let init: ASTNode;
            match self.parse_expression() {
                Ok(n) => {
                    init = n;
                },
                Err(e) => {
                    return Err(e);
                },
            }
            proof {
                initv = Some(Box::new(init@));
            }
            initializer = Some(Box::new(init));
        } else {
            proof {
                initv = None;
            }
            initializer = None;
        }
        match self.expect_token(TokenType::Separator, ";") {
            Ok(()) => {},
            Err(e) => {
                return Err(e);
            },
        }
        let node = ASTNode::VariableDeclaration {
            name,
            var_type: Box::new(var_type_node),
            initializer,
        };
        proof {
            assert(node@ == (SpecAst::VariableDeclaration {
                name: namev,
                var_type: Box::new(vtv),
                initializer: initv,
            }));
        }
        Ok(node)
    }

    /// Parses a statement: a `let` declaration or an expression statement.
    pub fn parse_statement(&mut self) -> (r: Result<ASTNode, ParseError>)
        requires
            old(self).wf(),
        ensures
            final(self).tokens@ == old(self).tokens@,
            final(self).wf(),
            final(self).current >= old(self).current,
            match r {
                Ok(node) => sp_statement(old(self).tokens@, old(self).current as int) == Ok::<
                    (SpecAst, int),
                    SpecParseError,
                >((node@, final(self).current as int)) && final(self).current > old(self).current,
                Err(e) => sp_statement(old(self).tokens@, old(self).current as int) == Err::<
                    (SpecAst, int),
                    SpecParseError,
                >(e@),
            },
        decreases old(self).tokens@.len() - old(self).current, 14int,
    {
        if self.match_token(TokenType::Keyword, "let") {
            self.parse_variable_declaration()
        } else {
            self.parse_expression_statement()
        }
    }

    /// Parses a block: `{`, statements, `}`.
    #[verifier::loop_isolation(false)]
    pub fn parse_block(&mut self) -> (r: Result<ASTNode, ParseError>)
        requires
            old(self).wf(),
        ensures
            final(self).tokens@ == old(self).tokens@,
            final(self).wf(),
            final(self).current >= old(self).current,
            match r {
                Ok(node) => sp_block(old(self).tokens@, old(self).current as int) == Ok::<
                    (SpecAst, int),
                    SpecParseError,
                >((node@, final(self).current as int)) && final(self).current > old(self).current,
                Err(e) => sp_block(old(self).tokens@, old(self).current as int) == Err::<
                    (SpecAst, int),
                    SpecParseError,
                >(e@),
            },
        decreases old(self).tokens@.len() - old(self).current, 16int,
    {
        let ghost toks = self.tokens@;
        let ghost pos0 = self.current as int;
        match self.expect_token(TokenType::Separator, "{") {
            Ok(()) => {},
            Err(e) => {
                return Err(e);
            },
        }
        let mut statements: Vec<ASTNode> = Vec::new();
        proof {
            assert(view_nodes(statements@) =~= Seq::<SpecAst>::empty());
            assert(sp_block(toks, pos0) == sp_block_items(
                toks,
                self.current as int,
                view_nodes(statements@),
            ));
        }
        while !self.check(TokenType::Separator, "}") && !self.is_at_end()
            invariant
                self.wf(),
                self.tokens@ == toks,
                pos0 < self.current as int,
                sp_block_items(toks, self.current as int, view_nodes(statements@)) == sp_block(
                    toks,
                    pos0,
                ),
            decreases toks.len() - self.current as int,
        {
            let ghost itpos = self.current as int;
            let ghost acc0 = view_nodes(statements@);
            let st: ASTNode;
            match self.parse_statement() {
                Ok(node) => {
                    st = node;
                },
                Err(e) => {
                    return Err(e);
                },
            }
            proof {
                lemma_view_nodes_push(statements@, st);
                assert(stepped(toks, itpos, self.current as int) == self.current as int);
            }
            statements.push(st);
            proof {
                assert(sp_block_items(toks, self.current as int, view_nodes(statements@))
                    == sp_block(toks, pos0));
            }
        }
        let ghost stv = view_nodes(statements@);
        match self.expect_token(TokenType::Separator, "}") {
            Ok(()) => {
                let node = ASTNode::Block(statements);
                proof {
                    assert(node@ == (SpecAst::Block { statements: stv }));
                }
                Ok(node)
            },
            Err(e) => Err(e),
        }
    }

    /// Parses a parameter list: empty when `)` follows at once, else one
    /// or more comma-separated `name : type` parameters. The closing `)`
    /// is left for the caller.
    #[verifier::loop_isolation(false)]
    pub fn parse_parameters(&mut self) -> (r: Result<Vec<ASTNode>, ParseError>)
        requires
            old(self).wf(),
        ensures
            final(self).tokens@ == old(self).tokens@,
            final(self).wf(),
            final(self).current >= old(self).current,
            match r {
                Ok(params) => sp_parameters(old(self).tokens@, old(self).current as int) == Ok::<
                    (Seq<SpecAst>, int),
                    SpecParseError,
                >((view_nodes(params@), final(self).current as int)),
                Err(e) => sp_parameters(old(self).tokens@, old(self).current as int) == Err::<
                    (Seq<SpecAst>, int),
                    SpecParseError,
                >(e@),
            },
        decreases old(self).tokens@.len() - old(self).current, 18int,
    {
        let ghost toks = self.tokens@;
        let ghost pos0 = self.current as int;
        let mut parameters: Vec<ASTNode> = Vec::new();
        proof {
            assert(view_nodes(parameters@) =~= Seq::<SpecAst>::empty());
        }
        if !self.check(TokenType::Separator, ")") {
            let mut more = true;
            while more
                invariant
                    self.wf(),
                    self.tokens@ == toks,
                    pos0 <= self.current as int,
                    more ==> sp_param_items(toks, self.current as int, view_nodes(parameters@))
                        == sp_parameters(toks, pos0),
                    !more ==> sp_parameters(toks, pos0) == Ok::<
                        (Seq<SpecAst>, int),
                        SpecParseError,
                    >((view_nodes(parameters@), self.current as int)),
                decreases toks.len() - self.current as int,
            {
                let ghost itpos = self.current as int;
                let ghost acc0 = view_nodes(parameters@);
                let name: String;
                match self.expect_identifier() {
                    Ok(n) => {
                        name = n;
                    },
                    Err(e) => {
                        return Err(e);
                    },
                }
                let ghost namev = name@;
                match self.expect_token(TokenType::Separator, ":") {
                    Ok(()) => {},
                    Err(e) => {
                        return Err(e);
                    },
                }
                let param_type: ASTNode;
                match self.parse_type() {
                    Ok(n) => {
                        param_type = n;
                    },
                    Err(e) => {
                        return Err(e);
                    },
                }
                let ghost vtv = param_type@;
                let ghost p3 = self.current as int;
                let pnode = ASTNode::VariableDeclaration {
                    name,
                    var_type: Box::new(param_type),
                    initializer: None,
                };
                proof {
                    assert(pnode@ == (SpecAst::VariableDeclaration {
                        name: namev,
                        var_type: Box::new(vtv),
                        initializer: None,
                    }));
                    lemma_view_nodes_push(parameters@, pnode);
                    assert(bounded(toks, itpos, p3) == p3);
                }
                parameters.push(pnode);
                if !self.match_token(TokenType::Separator, ",") {
                    more = false;
                }
            }
        }
        Ok(parameters)
    }

    /// Parses a function declaration after its `fn`: name, parenthesized
    /// parameters, `->`, return type, body.
    pub fn parse_function_declaration(&mut self) -> (r: Result<ASTNode, ParseError>)
        requires
            old(self).wf(),
        ensures
            final(self).tokens@ == old(self).tokens@,
            final(self).wf(),
            final(self).current >= old(self).current,
            match r {
                Ok(node) => sp_function_declaration(old(self).tokens@, old(self).current as int)
                    == Ok::<(SpecAst, int), SpecParseError>((node@, final(self).current as int))
                    && final(self).current > old(self).current,
                Err(e) => sp_function_declaration(old(self).tokens@, old(self).current as int)
                    == Err::<(SpecAst, int), SpecParseError>(e@),
            },
            !tok_check(
                old(self).tokens@,
                old(self).current as int,
                TokenType::Identifier,
                Seq::empty(),
            ) ==> final(self).current == old(self).current,
        decreases old(self).tokens@.len() - old(self).current, 19int,
    {
        let ghost toks = self.tokens@;
        let ghost pos0 = self.current as int;
        let name: String;
        match self.expect_identifier() {
            Ok(n) => {
                name = n;
            },
            Err(e) => {
                return Err(e);
            },
        }
        let ghost namev = name@;
        match self.expect_token(TokenType::Separator, "(") {
            Ok(()) => {},
            Err(e) => {
                return Err(e);
            },
        }
        let parameters: Vec<ASTNode>;
        match self.parse_parameters() {
            Ok(ps) => {
                parameters = ps;
            },
            Err(e) => {
                return Err(e);
            },
        }
        let ghost paramsv = view_nodes(parameters@);
        let ghost p = self.current as int;
        proof {
            assert(bounded(toks, pos0, p) == p);
        }
        match self.expect_token(TokenType::Separator, ")") {
            Ok(()) => {},
            Err(e) => {
                return Err(e);
            },
        }
        match self.expect_token(TokenType::Separator, "->") {
            Ok(()) => {},
            Err(e) => {
                return Err(e);
            },
        }
        let return_type_node: ASTNode;
        match self.parse_type() {
            Ok(n) => {
                return_type_node = n;
            },
            Err(e) => {
                return Err(e);
            },
        }
        let ghost rtv = return_type_node@;
        let ghost p4 = self.current as int;
        proof {
            assert(bounded(toks, pos0, p4) == p4);
        }
        let body: ASTNode;
        match self.parse_block() {
            Ok(n) => {
                body = n;
            },
            Err(e) => {
                return Err(e);
            },
        }
        let ghost bodyv = body@;
        let node = ASTNode::FunctionDeclaration {
            name,
            parameters,
            return_type: Box::new(return_type_node),
            body: Box::new(body),
        };
        proof {
            assert(node@ == (SpecAst::FunctionDeclaration {
                name: namev,
                parameters: paramsv,
                return_type: Box::new(rtv),
                body: Box::new(bodyv),
            }));
        }
        Ok(node)
    }

    /// Parses a declaration: a `fn` function declaration or a `let`
    /// variable declaration.
    pub fn parse_declaration(&mut self) -> (r: Result<ASTNode, ParseError>)
        requires
            old(self).wf(),
        ensures
            final(self).tokens@ == old(self).tokens@,
            final(self).wf(),
            final(self).current >= old(self).current,
            match r {
                Ok(node) => sp_declaration(old(self).tokens@, old(self).current as int) == Ok::<
                    (SpecAst, int),
                    SpecParseError,
                >((node@, final(self).current as int)) && final(self).current > old(self).current,
                Err(e) => sp_declaration(old(self).tokens@, old(self).current as int) == Err::<
                    (SpecAst, int),
                    SpecParseError,
                >(e@),
            },
            (!tok_check(old(self).tokens@, old(self).current as int, TokenType::Keyword, "fn"@)
                && !tok_check(
                old(self).tokens@,
                old(self).current as int,
                TokenType::Keyword,
                "let"@,
            )) ==> final(self).current == old(self).current,
        decreases old(self).tokens@.len() - old(self).current, 20int,
    {
        if self.match_token(TokenType::Keyword, "fn") {
            self.parse_function_declaration()
        } else if self.match_token(TokenType::Keyword, "let") {
            self.parse_variable_declaration()
        } else {
            Err(ParseError::ExpectedDeclaration)
        }
    }

    /// Parses a whole program: declarations until the tokens run out or
    /// the synthetic `EOF` separator is reached, so a lexed token sequence
    /// parses to completion and stops at the marker.
    #[verifier::loop_isolation(false)]
    pub fn parse(&mut self) -> (r: Result<ASTNode, ParseError>)
        requires
            old(self).wf(),
        ensures
            final(self).tokens@ == old(self).tokens@,
            final(self).wf(),
            final(self).current >= old(self).current,
            match r {
                Ok(node) => sp_program_items(
                    old(self).tokens@,
                    old(self).current as int,
                    Seq::empty(),
                ) == Ok::<(SpecAst, int), SpecParseError>((node@, final(self).current as int)),
                Err(e) => sp_program_items(
                    old(self).tokens@,
                    old(self).current as int,
                    Seq::empty(),
                ) == Err::<(SpecAst, int), SpecParseError>(e@),
            },
    {
        let ghost toks = self.tokens@;
        let ghost pos0 = self.current as int;
        let mut program_nodes: Vec<ASTNode> = Vec::new();
        proof {
            assert(view_nodes(program_nodes@) =~= Seq::<SpecAst>::empty());
        }
        while !self.is_at_end() && !self.check(TokenType::Separator, "EOF")
            invariant
                self.wf(),
                self.tokens@ == toks,
                pos0 <= self.current as int,
                sp_program_items(toks, self.current as int, view_nodes(program_nodes@))
                    == sp_program_items(toks, pos0, Seq::empty()),
            decreases toks.len() - self.current as int,
        {
            let ghost itpos = self.current as int;
            let node: ASTNode;
            match self.parse_declaration() {
                Ok(n) => {
                    node = n;
                },
                Err(e) => {
                    return Err(e);
                },
            }
            proof {
                lemma_view_nodes_push(program_nodes@, node);
                assert(stepped(toks, itpos, self.current as int) == self.current as int);
            }
            program_nodes.push(node);
        }
        let ghost declsv = view_nodes(program_nodes@);
        let node = ASTNode::Program(program_nodes);
        proof {
            assert(node@ == (SpecAst::Program { decls: declsv }));
        }
        Ok(node)
    }
}

} // verus!
