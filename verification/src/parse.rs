use vstd::prelude::*;

use crate::ast::{
    BinaryExpression, BinaryExpressionV, BinaryOperator, CallExpression, CallExpressionV,
    Expression, ExprV, ForStatement, ForStatementV, FunctionDefinition, FunctionDefinitionV,
    IfStatement, IfStatementV, InitDeclaration, InitDeclarationV, Program, ProgramV, Statement,
    StmtV, Type, TypeEnum, TypeV, UnaryExpression, UnaryExpressionV, WhileStatement,
    WhileStatementV, spec_expr_view, spec_size_of, spec_stmt_view, spec_type_view, stmts_view,
};
use crate::lex::{lex_all, Lexer};
use crate::token::{Token, TokenV};

verus! {

broadcast use vstd::seq::group_seq_axioms, vstd::std_specs::vec::group_vec_axioms;

// ---------------------------------------------------------------------------
// Errors
// ---------------------------------------------------------------------------

/// Everything that can make a parse fail, with the token (or name) that was
/// seen at the point of failure.
#[derive(Debug, PartialEq, Eq)]
pub enum ParseError {
    ExpectedAssignOrParen(Token),
    ExpectedIdentifier(Token),
    ExpectedLParen(Token),
    ExpectedRParen(Token),
    ExpectedSemiColon(Token),
    ExpectedSemiColonOrRParen(Token),
    ExpectedBinaryOperator(Token),
    ExpectedType(Token),
    InvalidToken(Token),
    UndefinedVariable(String),
    TooManyLocals,
}

pub enum ParseErrorV {
    ExpectedAssignOrParen(TokenV),
    ExpectedIdentifier(TokenV),
    ExpectedLParen(TokenV),
    ExpectedRParen(TokenV),
    ExpectedSemiColon(TokenV),
    ExpectedSemiColonOrRParen(TokenV),
    ExpectedBinaryOperator(TokenV),
    ExpectedType(TokenV),
    InvalidToken(TokenV),
    UndefinedVariable(Seq<char>),
    TooManyLocals,
}

impl View for ParseError {
    type V = ParseErrorV;

    open spec fn view(&self) -> ParseErrorV {
        match self {
            ParseError::ExpectedAssignOrParen(t) => ParseErrorV::ExpectedAssignOrParen(t@),
            ParseError::ExpectedIdentifier(t) => ParseErrorV::ExpectedIdentifier(t@),
            ParseError::ExpectedLParen(t) => ParseErrorV::ExpectedLParen(t@),
            ParseError::ExpectedRParen(t) => ParseErrorV::ExpectedRParen(t@),
            ParseError::ExpectedSemiColon(t) => ParseErrorV::ExpectedSemiColon(t@),
            ParseError::ExpectedSemiColonOrRParen(t) => ParseErrorV::ExpectedSemiColonOrRParen(t@),
            ParseError::ExpectedBinaryOperator(t) => ParseErrorV::ExpectedBinaryOperator(t@),
            ParseError::ExpectedType(t) => ParseErrorV::ExpectedType(t@),
            ParseError::InvalidToken(t) => ParseErrorV::InvalidToken(t@),
            ParseError::UndefinedVariable(s) => ParseErrorV::UndefinedVariable(s@),
            ParseError::TooManyLocals => ParseErrorV::TooManyLocals,
        }
    }
}

/// What `message` returns for each error.
pub open spec fn sp_message(e: ParseErrorV) -> Seq<char> {
    match e {
        ParseErrorV::ExpectedAssignOrParen(_) => "expected token '=' or '('"@,
        ParseErrorV::ExpectedIdentifier(_) => "expected identifier"@,
        ParseErrorV::ExpectedLParen(_) => "expected token '('"@,
        ParseErrorV::ExpectedRParen(_) => "expected token ')'"@,
        ParseErrorV::ExpectedSemiColon(_) => "expected token ';'"@,
        ParseErrorV::ExpectedSemiColonOrRParen(_) => "expected token ';' or ')'"@,
        ParseErrorV::ExpectedBinaryOperator(_) => "expected binary operator"@,
        ParseErrorV::ExpectedType(_) => "expected type"@,
        ParseErrorV::InvalidToken(_) => "invalid token"@,
        ParseErrorV::UndefinedVariable(s) => "Undefined variable: "@ + s,
        ParseErrorV::TooManyLocals => "too many local variables"@,
    }
}

impl ParseError {
    /// The error as one line of text, as the driver prints it.
    pub fn message(&self) -> (r: String)
        ensures
            r@ == sp_message(self@),
    {
        match self {
            ParseError::ExpectedAssignOrParen(_) => String::from_str("expected token '=' or '('"),
            ParseError::ExpectedIdentifier(_) => String::from_str("expected identifier"),
            ParseError::ExpectedLParen(_) => String::from_str("expected token '('"),
            ParseError::ExpectedRParen(_) => String::from_str("expected token ')'"),
            ParseError::ExpectedSemiColon(_) => String::from_str("expected token ';'"),
            ParseError::ExpectedSemiColonOrRParen(_) => String::from_str(
                "expected token ';' or ')'",
            ),
            ParseError::ExpectedBinaryOperator(_) => String::from_str("expected binary operator"),
            ParseError::ExpectedType(_) => String::from_str("expected type"),
            ParseError::InvalidToken(_) => String::from_str("invalid token"),
            ParseError::UndefinedVariable(s) => String::from_str("Undefined variable: ").concat(
                s.as_str(),
            ),
            ParseError::TooManyLocals => String::from_str("too many local variables"),
        }
    }
}

/// Result of one parsing step: the parsed value (with positions and, for
/// statements, the symbol table) or the error that stopped the parse.
pub enum PRes<T> {
    POk(T),
    PFail(ParseErrorV),
}

// ---------------------------------------------------------------------------
// Symbol table, mathematically
// ---------------------------------------------------------------------------

pub struct LVarV {
    pub name: Seq<char>,
    pub offset: int,
    pub type_: TypeV,
}

/// Allocate a new local after the previous ones: its offset is the previous
/// top offset plus the size of its own type. Fails only when the offset
/// would no longer fit in `usize`.
pub open spec fn sp_new_local(locs: Seq<LVarV>, ty: TypeV, name: Seq<char>) -> Option<
    (ExprV, Seq<LVarV>),
> {
    let prev = if locs.len() == 0 {
        0
    } else {
        locs.last().offset
    };
    let off = prev + spec_size_of(ty);
    if off <= usize::MAX {
        Option::Some(
            (
                ExprV::LocalVariable { name: name, offset: off, type_: ty },
                locs.push(LVarV { name: name, offset: off, type_: ty }),
            ),
        )
    } else {
        Option::None
    }
}

/// Front-to-back lookup; the first binding of a name wins.
pub open spec fn sp_find_local(locs: Seq<LVarV>, name: Seq<char>) -> Option<LVarV>
    decreases locs.len(),
{
    if locs.len() == 0 {
        Option::None
    } else if locs[0].name == name {
        Option::Some(locs[0])
    } else {
        sp_find_local(locs.skip(1), name)
    }
}

/// Allocate every parameter of a function, in order, as a fresh local.
pub open spec fn sp_alloc_params(ps: Seq<(TypeV, Seq<char>)>, locs: Seq<LVarV>) -> Option<
    (Seq<ExprV>, Seq<LVarV>),
>
    decreases ps.len(),
{
    if ps.len() == 0 {
        Option::Some((Seq::empty(), locs))
    } else {
        match sp_new_local(locs, ps[0].0, ps[0].1) {
            Option::Some((lv, locs2)) => match sp_alloc_params(ps.skip(1), locs2) {
                Option::Some((rest, locs3)) => Option::Some((seq![lv] + rest, locs3)),
                Option::None => Option::None,
            },
            Option::None => Option::None,
        }
    }
}

// ---------------------------------------------------------------------------
// The grammar, mathematically
// ---------------------------------------------------------------------------

/// The token at a position; reading past the end gives `Eof`.
pub open spec fn tok_at(toks: Seq<TokenV>, i: int) -> TokenV {
    if 0 <= i < toks.len() {
        toks[i]
    } else {
        TokenV::Eof
    }
}

/// Binding power of an infix token; 0 for anything that is no binary
/// operator.
pub open spec fn prec_of(t: TokenV) -> int {
    match t {
        TokenV::Assignment => 1,
        TokenV::Eq | TokenV::NotEq => 2,
        TokenV::Lt | TokenV::LtEq | TokenV::Gt | TokenV::GtEq => 3,
        TokenV::Plus | TokenV::Minus => 4,
        TokenV::Slash | TokenV::Asterisk => 5,
        _ => 0,
    }
}

/// The binary operator a token stands for, and whether its operands are
/// swapped: `>` and `>=` become `<` and `<=` with the operands exchanged.
pub open spec fn binop_of(t: TokenV) -> Option<(BinaryOperator, bool)> {
    match t {
        TokenV::Assignment => Option::Some((BinaryOperator::Assignment, false)),
        TokenV::Plus => Option::Some((BinaryOperator::Plus, false)),
        TokenV::Minus => Option::Some((BinaryOperator::Minus, false)),
        TokenV::Asterisk => Option::Some((BinaryOperator::Asterisk, false)),
        TokenV::Slash => Option::Some((BinaryOperator::Slash, false)),
        TokenV::Lt => Option::Some((BinaryOperator::Lt, false)),
        TokenV::Gt => Option::Some((BinaryOperator::Lt, true)),
        TokenV::LtEq => Option::Some((BinaryOperator::LtEq, false)),
        TokenV::GtEq => Option::Some((BinaryOperator::LtEq, true)),
        TokenV::Eq => Option::Some((BinaryOperator::Eq, false)),
        TokenV::NotEq => Option::Some((BinaryOperator::NotEq, false)),
        _ => Option::None,
    }
}

/// Clamp for the termination measure; in every reachable state `p >= lo`
/// already holds and the clamp changes nothing.
pub open spec fn at_least(p: int, lo: int) -> int {
    if p >= lo {
        p
    } else {
        lo
    }
}

/// Tokens not yet consumed; the termination measure of the parser.
pub open spec fn rem(toks: Seq<TokenV>, pos: int) -> int {
    if pos <= toks.len() {
        toks.len() - pos
    } else {
        0
    }
}

// In every `sp_parse_*` function, `pos` is the index of the first token of
// the construct, and a successful result carries the index of its last
// token; `sp_parse_type` alone returns the index one past the type.

pub open spec fn sp_parse_type(toks: Seq<TokenV>, pos: int) -> PRes<(TypeV, int)>
    decreases rem(toks, pos), 2int,
{
    match tok_at(toks, pos) {
        TokenV::Void => sp_stars(toks, pos + 1, TypeV::Primitive(TypeEnum::Void)),
        TokenV::Char => sp_stars(toks, pos + 1, TypeV::Primitive(TypeEnum::Char)),
        TokenV::Short => sp_stars(toks, pos + 1, TypeV::Primitive(TypeEnum::Short)),
        TokenV::Int => sp_stars(toks, pos + 1, TypeV::Primitive(TypeEnum::Int)),
        TokenV::Long => sp_stars(toks, pos + 1, TypeV::Primitive(TypeEnum::Long)),
        TokenV::Float => sp_stars(toks, pos + 1, TypeV::Primitive(TypeEnum::Float)),
        TokenV::Double => sp_stars(toks, pos + 1, TypeV::Primitive(TypeEnum::Double)),
        t => PRes::PFail(ParseErrorV::ExpectedType(t)),
    }
}

/// Wrap the base type in one `Pointer` per `*` that follows it.
pub open spec fn sp_stars(toks: Seq<TokenV>, pos: int, base: TypeV) -> PRes<(TypeV, int)>
    decreases rem(toks, pos), 1int,
{
    if tok_at(toks, pos) == TokenV::Asterisk {
        sp_stars(toks, pos + 1, TypeV::Pointer(Box::new(base)))
    } else {
        PRes::POk((base, pos))
    }
}

pub open spec fn sp_parse_expression(
    toks: Seq<TokenV>,
    pos: int,
    prec: int,
    locs: Seq<LVarV>,
) -> PRes<(ExprV, int)>
    decreases rem(toks, pos), 5int,
{
    let prefix = match tok_at(toks, pos) {
        TokenV::Integer(n) => PRes::POk((ExprV::Integer(n), pos)),
        TokenV::LParen => sp_parse_grouped(toks, pos, locs),
        TokenV::Minus => sp_parse_unary(toks, pos, locs),
        TokenV::Identifier(name) => if tok_at(toks, pos + 1) == TokenV::LParen {
            sp_parse_call(toks, pos + 1, name, locs)
        } else {
            match sp_find_local(locs, name) {
                Option::Some(v) => PRes::POk(
                    (
                        ExprV::LocalVariable { name: name, offset: v.offset, type_: v.type_ },
                        pos,
                    ),
                ),
                Option::None => PRes::PFail(ParseErrorV::UndefinedVariable(name)),
            }
        },
        t => PRes::PFail(ParseErrorV::InvalidToken(t)),
    };
    match prefix {
        PRes::POk(t) => sp_parse_infix(toks, at_least(t.1, pos), t.0, prec, locs),
        PRes::PFail(e) => PRes::PFail(e),
    }
}

/// The precedence-climbing loop: as long as the token after the expression
/// binds tighter than `prec`, extend the expression with one more binary
/// operation.
pub open spec fn sp_parse_infix(
    toks: Seq<TokenV>,
    lpos: int,
    left: ExprV,
    prec: int,
    locs: Seq<LVarV>,
) -> PRes<(ExprV, int)>
    decreases rem(toks, lpos), 4int,
{
    let nt = tok_at(toks, lpos + 1);
    if nt != TokenV::Eof && prec < prec_of(nt) {
        match binop_of(nt) {
            Option::Some((op, swap)) => match sp_parse_expression(toks, lpos + 2, prec_of(nt), locs) {
                PRes::POk(t) => {
                    let node = if swap {
                        ExprV::Binary(
                            BinaryExpressionV {
                                lhs: Box::new(t.0),
                                op: op,
                                rhs: Box::new(left),
                            },
                        )
                    } else {
                        ExprV::Binary(
                            BinaryExpressionV {
                                lhs: Box::new(left),
                                op: op,
                                rhs: Box::new(t.0),
                            },
                        )
                    };
                    sp_parse_infix(toks, at_least(t.1, lpos + 1), node, prec, locs)
                },
                PRes::PFail(e) => PRes::PFail(e),
            },
            Option::None => PRes::PFail(ParseErrorV::ExpectedBinaryOperator(nt)),
        }
    } else {
        PRes::POk((left, lpos))
    }
}

pub open spec fn sp_parse_grouped(toks: Seq<TokenV>, pos: int, locs: Seq<LVarV>) -> PRes<
    (ExprV, int),
>
    decreases rem(toks, pos), 4int,
{
    if tok_at(toks, pos) != TokenV::LParen {
        PRes::PFail(ParseErrorV::InvalidToken(tok_at(toks, pos)))
    } else {
        match sp_parse_expression(toks, pos + 1, 0, locs) {
            PRes::POk(t) => if tok_at(toks, t.1 + 1) == TokenV::RParen {
                PRes::POk((t.0, t.1 + 1))
            } else {
                PRes::PFail(ParseErrorV::ExpectedRParen(tok_at(toks, t.1 + 1)))
            },
            PRes::PFail(e) => PRes::PFail(e),
        }
    }
}

pub open spec fn sp_parse_unary(toks: Seq<TokenV>, pos: int, locs: Seq<LVarV>) -> PRes<
    (ExprV, int),
>
    decreases rem(toks, pos), 4int,
{
    if tok_at(toks, pos) != TokenV::Minus {
        PRes::PFail(ParseErrorV::InvalidToken(tok_at(toks, pos)))
    } else {
        match sp_parse_expression(toks, pos + 1, 5, locs) {
            PRes::POk(t) => PRes::POk(
                (
                    ExprV::Unary(
                        UnaryExpressionV {
                            expr: Box::new(t.0),
                            op: crate::ast::UnaryOperator::Minus,
                        },
                    ),
                    t.1,
                ),
            ),
            PRes::PFail(e) => PRes::PFail(e),
        }
    }
}

/// A call expression; `pos` is the position of the opening parenthesis, and
/// the result position that of the closing one.
pub open spec fn sp_parse_call(
    toks: Seq<TokenV>,
    pos: int,
    callee: Seq<char>,
    locs: Seq<LVarV>,
) -> PRes<(ExprV, int)>
    decreases rem(toks, pos), 4int,
{
    if tok_at(toks, pos) != TokenV::LParen {
        PRes::PFail(ParseErrorV::InvalidToken(tok_at(toks, pos)))
    } else {
        match sp_parse_args(toks, pos, locs) {
            PRes::POk(t) => PRes::POk(
                (ExprV::Call(CallExpressionV { callee_name: callee, arguments: t.0 }), t.1),
            ),
            PRes::PFail(e) => PRes::PFail(e),
        }
    }
}

/// Comma-separated call arguments; `pos` is the last consumed position, and
/// on success the returned position is that of the closing parenthesis.
pub open spec fn sp_parse_args(toks: Seq<TokenV>, pos: int, locs: Seq<LVarV>) -> PRes<
    (Seq<ExprV>, int),
>
    decreases rem(toks, pos), 3int,
{
    if tok_at(toks, pos + 1) == TokenV::RParen {
        PRes::POk((Seq::empty(), pos + 1))
    } else if tok_at(toks, pos + 1) == TokenV::Eof {
        PRes::PFail(ParseErrorV::InvalidToken(TokenV::Eof))
    } else {
        match sp_parse_expression(toks, pos + 1, 0, locs) {
            PRes::POk(t) => {
                let nxt = if tok_at(toks, t.1 + 1) == TokenV::Comma {
                    t.1 + 1
                } else {
                    t.1
                };
                match sp_parse_args(toks, at_least(nxt, pos + 1), locs) {
                    PRes::POk(r) => PRes::POk((seq![t.0] + r.0, r.1)),
                    PRes::PFail(e) => PRes::PFail(e),
                }
            },
            PRes::PFail(e) => PRes::PFail(e),
        }
    }
}

pub open spec fn sp_parse_statement(toks: Seq<TokenV>, pos: int, locs: Seq<LVarV>) -> PRes<
    (StmtV, int, Seq<LVarV>),
>
    decreases rem(toks, pos), 10int,
{
    match tok_at(toks, pos) {
        TokenV::If => sp_parse_if(toks, pos, locs),
        TokenV::While => sp_parse_while(toks, pos, locs),
        TokenV::For => sp_parse_for(toks, pos, locs),
        TokenV::Return => sp_parse_return(toks, pos, locs),
        TokenV::LBrace => sp_parse_block(toks, pos, locs),
        TokenV::Void
        | TokenV::Char
        | TokenV::Short
        | TokenV::Int
        | TokenV::Long
        | TokenV::Float
        | TokenV::Double => match sp_parse_type(toks, pos) {
            PRes::POk(t) => match tok_at(toks, t.1) {
                TokenV::Identifier(name) => match tok_at(toks, t.1 + 1) {
                    TokenV::Assignment | TokenV::SemiColon => sp_parse_var_decl(
                        toks,
                        at_least(t.1 + 1, pos + 1),
                        t.0,
                        name,
                        locs,
                    ),
                    TokenV::LParen => sp_parse_fn_decl(
                        toks,
                        at_least(t.1 + 1, pos + 1),
                        name,
                        locs,
                    ),
                    _ => PRes::PFail(ParseErrorV::ExpectedAssignOrParen(tok_at(toks, t.1))),
                },
                t2 => PRes::PFail(ParseErrorV::ExpectedIdentifier(t2)),
            },
            PRes::PFail(e) => PRes::PFail(e),
        },
        _ => sp_parse_expr_statement(toks, pos, locs),
    }
}

pub open spec fn sp_parse_if(toks: Seq<TokenV>, pos: int, locs: Seq<LVarV>) -> PRes<
    (StmtV, int, Seq<LVarV>),
>
    decreases rem(toks, pos), 9int,
{
    if tok_at(toks, pos + 1) != TokenV::LParen {
        PRes::PFail(ParseErrorV::ExpectedLParen(tok_at(toks, pos + 1)))
    } else {
        match sp_parse_expression(toks, pos + 2, 0, locs) {
            PRes::POk(c) => if tok_at(toks, c.1 + 1) != TokenV::RParen {
                PRes::PFail(ParseErrorV::ExpectedRParen(tok_at(toks, c.1 + 1)))
            } else {
                match sp_parse_statement(toks, at_least(c.1 + 2, pos + 2), locs) {
                    PRes::POk(s1) => if tok_at(toks, s1.1 + 1) == TokenV::Else {
                        match sp_parse_statement(toks, at_least(s1.1 + 2, pos + 2), s1.2) {
                            PRes::POk(s2) => PRes::POk(
                                (
                                    StmtV::If(
                                        IfStatementV {
                                            condition: c.0,
                                            consequence: Box::new(s1.0),
                                            alternative: Option::Some(Box::new(s2.0)),
                                        },
                                    ),
                                    s2.1,
                                    s2.2,
                                ),
                            ),
                            PRes::PFail(e) => PRes::PFail(e),
                        }
                    } else {
                        PRes::POk(
                            (
                                StmtV::If(
                                    IfStatementV {
                                        condition: c.0,
                                        consequence: Box::new(s1.0),
                                        alternative: Option::None,
                                    },
                                ),
                                s1.1,
                                s1.2,
                            ),
                        )
                    },
                    PRes::PFail(e) => PRes::PFail(e),
                }
            },
            PRes::PFail(e) => PRes::PFail(e),
        }
    }
}

pub open spec fn sp_parse_while(toks: Seq<TokenV>, pos: int, locs: Seq<LVarV>) -> PRes<
    (StmtV, int, Seq<LVarV>),
>
    decreases rem(toks, pos), 9int,
{
    if tok_at(toks, pos + 1) != TokenV::LParen {
        PRes::PFail(ParseErrorV::ExpectedLParen(tok_at(toks, pos + 1)))
    } else {
        match sp_parse_expression(toks, pos + 2, 0, locs) {
            PRes::POk(c) => if tok_at(toks, c.1 + 1) != TokenV::RParen {
                PRes::PFail(ParseErrorV::ExpectedRParen(tok_at(toks, c.1 + 1)))
            } else {
                match sp_parse_statement(toks, at_least(c.1 + 2, pos + 2), locs) {
                    PRes::POk(b) => PRes::POk(
                        (
                            StmtV::While(
                                WhileStatementV { condition: c.0, body: Box::new(b.0) },
                            ),
                            b.1,
                            b.2,
                        ),
                    ),
                    PRes::PFail(e) => PRes::PFail(e),
                }
            },
            PRes::PFail(e) => PRes::PFail(e),
        }
    }
}

pub open spec fn sp_parse_for(toks: Seq<TokenV>, pos: int, locs: Seq<LVarV>) -> PRes<
    (StmtV, int, Seq<LVarV>),
>
    decreases rem(toks, pos), 9int,
{
    if tok_at(toks, pos + 1) != TokenV::LParen {
        PRes::PFail(ParseErrorV::ExpectedLParen(tok_at(toks, pos + 1)))
    } else {
        // the three header slots, each either absent or parsed
        let initr = if tok_at(toks, pos + 2) == TokenV::SemiColon {
            PRes::POk((Option::None, pos + 2, locs))
        } else {
            match sp_parse_expr_statement(toks, at_least(pos + 2, pos + 2), locs) {
                PRes::POk(s) => PRes::POk((Option::Some(s.0), s.1, s.2)),
                PRes::PFail(e) => PRes::PFail(e),
            }
        };
        match initr {
            PRes::POk(i) => {
                let c1 = at_least(i.1 + 1, pos + 2);
                let condr = if tok_at(toks, c1) == TokenV::SemiColon {
                    PRes::POk((Option::None, c1 + 1))
                } else {
                    match sp_parse_expression(toks, c1, 0, i.2) {
                        PRes::POk(e) => if tok_at(toks, e.1 + 1) == TokenV::SemiColon {
                            PRes::POk((Option::Some(e.0), e.1 + 2))
                        } else {
                            PRes::PFail(ParseErrorV::ExpectedSemiColon(tok_at(toks, e.1 + 1)))
                        },
                        PRes::PFail(e) => PRes::PFail(e),
                    }
                };
                match condr {
                    PRes::POk(c) => {
                        let c2 = at_least(c.1, pos + 2);
                        let postr = if tok_at(toks, c2) == TokenV::RParen {
                            PRes::POk((Option::None, c2 + 1, i.2))
                        } else {
                            match sp_parse_statement(toks, c2, i.2) {
                                PRes::POk(p) => if tok_at(toks, p.1) == TokenV::RParen {
                                    PRes::POk((Option::Some(p.0), p.1 + 1, p.2))
                                } else {
                                    PRes::PFail(
                                        ParseErrorV::ExpectedRParen(tok_at(toks, p.1)),
                                    )
                                },
                                PRes::PFail(e) => PRes::PFail(e),
                            }
                        };
                        match postr {
                            PRes::POk(p) => match sp_parse_statement(
                                toks,
                                at_least(p.1, pos + 2),
                                p.2,
                            ) {
                                PRes::POk(b) => PRes::POk(
                                    (
                                        StmtV::For(
                                            ForStatementV {
                                                init: match i.0 {
                                                    Option::Some(s) => Option::Some(Box::new(s)),
                                                    Option::None => Option::None,
                                                },
                                                condition: c.0,
                                                post: match p.0 {
                                                    Option::Some(s) => Option::Some(Box::new(s)),
                                                    Option::None => Option::None,
                                                },
                                                body: Box::new(b.0),
                                            },
                                        ),
                                        b.1,
                                        b.2,
                                    ),
                                ),
                                PRes::PFail(e) => PRes::PFail(e),
                            },
                            PRes::PFail(e) => PRes::PFail(e),
                        }
                    },
                    PRes::PFail(e) => PRes::PFail(e),
                }
            },
            PRes::PFail(e) => PRes::PFail(e),
        }
    }
}

pub open spec fn sp_parse_return(toks: Seq<TokenV>, pos: int, locs: Seq<LVarV>) -> PRes<
    (StmtV, int, Seq<LVarV>),
>
    decreases rem(toks, pos), 9int,
{
    if tok_at(toks, pos) != TokenV::Return {
        PRes::PFail(ParseErrorV::InvalidToken(tok_at(toks, pos)))
    } else {
        match sp_parse_expression(toks, pos + 1, 0, locs) {
            PRes::POk(t) => if tok_at(toks, t.1 + 1) == TokenV::SemiColon {
                PRes::POk((StmtV::Return(t.0), t.1 + 1, locs))
            } else {
                PRes::PFail(ParseErrorV::ExpectedSemiColon(tok_at(toks, t.1 + 1)))
            },
            PRes::PFail(e) => PRes::PFail(e),
        }
    }
}

pub open spec fn sp_parse_block(toks: Seq<TokenV>, pos: int, locs: Seq<LVarV>) -> PRes<
    (StmtV, int, Seq<LVarV>),
>
    decreases rem(toks, pos), 9int,
{
    if tok_at(toks, pos) == TokenV::Eof {
        PRes::PFail(ParseErrorV::InvalidToken(TokenV::Eof))
    } else {
        match sp_parse_block_items(toks, pos + 1, locs) {
            PRes::POk(t) => PRes::POk((StmtV::Block(t.0), t.1, t.2)),
            PRes::PFail(e) => PRes::PFail(e),
        }
    }
}

/// Statements of a block, up to the closing brace.
pub open spec fn sp_parse_block_items(toks: Seq<TokenV>, pos: int, locs: Seq<LVarV>) -> PRes<
    (Seq<StmtV>, int, Seq<LVarV>),
>
    decreases rem(toks, pos), 11int,
{
    if tok_at(toks, pos) == TokenV::RBrace {
        PRes::POk((Seq::empty(), pos, locs))
    } else if tok_at(toks, pos) == TokenV::Eof {
        PRes::PFail(ParseErrorV::InvalidToken(TokenV::Eof))
    } else {
        match sp_parse_statement(toks, pos, locs) {
            PRes::POk(s) => match sp_parse_block_items(toks, at_least(s.1 + 1, pos + 1), s.2) {
                PRes::POk(r) => PRes::POk((seq![s.0] + r.0, r.1, r.2)),
                PRes::PFail(e) => PRes::PFail(e),
            },
            PRes::PFail(e) => PRes::PFail(e),
        }
    }
}

pub open spec fn sp_parse_expr_statement(toks: Seq<TokenV>, pos: int, locs: Seq<LVarV>) -> PRes<
    (StmtV, int, Seq<LVarV>),
>
    decreases rem(toks, pos), 6int,
{
    match sp_parse_expression(toks, pos, 0, locs) {
        PRes::POk(t) => if tok_at(toks, t.1 + 1) == TokenV::SemiColon || tok_at(toks, t.1 + 1)
            == TokenV::RParen {
            PRes::POk((StmtV::Expression(t.0), t.1 + 1, locs))
        } else {
            PRes::PFail(ParseErrorV::ExpectedSemiColonOrRParen(tok_at(toks, t.1 + 1)))
        },
        PRes::PFail(e) => PRes::PFail(e),
    }
}

/// A variable declaration after its type and name; `pos` is the position of
/// the `=` or `;` that follows the name. The new local is allocated before
/// the initialiser is parsed.
pub open spec fn sp_parse_var_decl(
    toks: Seq<TokenV>,
    pos: int,
    ty: TypeV,
    name: Seq<char>,
    locs: Seq<LVarV>,
) -> PRes<(StmtV, int, Seq<LVarV>)>
    decreases rem(toks, pos), 9int,
{
    match sp_new_local(locs, ty, name) {
        Option::None => PRes::PFail(ParseErrorV::TooManyLocals),
        Option::Some((lv, locs2)) => {
            let off = locs2.last().offset;
            match tok_at(toks, pos) {
                TokenV::SemiColon => PRes::POk(
                    (
                        StmtV::InitDeclaration(
                            InitDeclarationV {
                                name: name,
                                offset: off,
                                type_: ty,
                                init: Option::None,
                            },
                        ),
                        pos,
                        locs2,
                    ),
                ),
                TokenV::Assignment => match sp_parse_expression(toks, pos + 1, 0, locs2) {
                    PRes::POk(t) => PRes::POk(
                        (
                            StmtV::InitDeclaration(
                                InitDeclarationV {
                                    name: name,
                                    offset: off,
                                    type_: ty,
                                    init: Option::Some(t.0),
                                },
                            ),
                            t.1 + 1,
                            locs2,
                        ),
                    ),
                    PRes::PFail(e) => PRes::PFail(e),
                },
                t => PRes::PFail(ParseErrorV::ExpectedSemiColon(t)),
            }
        },
    }
}

/// A function definition after its name; `pos` is the position of the
/// opening parenthesis of the parameter list. The symbol table is reset at
/// the start of the definition, so parameters and locals start at offset 0.
pub open spec fn sp_parse_fn_decl(
    toks: Seq<TokenV>,
    pos: int,
    name: Seq<char>,
    locs: Seq<LVarV>,
) -> PRes<(StmtV, int, Seq<LVarV>)>
    decreases rem(toks, pos), 9int,
{
    match sp_parse_params(toks, pos) {
        PRes::POk(ps) => if tok_at(toks, ps.1 + 1) != TokenV::RParen {
            PRes::PFail(ParseErrorV::ExpectedRParen(tok_at(toks, ps.1 + 1)))
        } else {
            match sp_alloc_params(ps.0, Seq::empty()) {
                Option::None => PRes::PFail(ParseErrorV::TooManyLocals),
                Option::Some((args, locs1)) => match sp_parse_block(
                    toks,
                    at_least(ps.1 + 2, pos + 1),
                    locs1,
                ) {
                    PRes::POk(b) => match b.0 {
                        StmtV::Block(body) => PRes::POk(
                            (
                                StmtV::FunctionDefinition(
                                    FunctionDefinitionV { name: name, arguments: args, body: body },
                                ),
                                b.1,
                                b.2,
                            ),
                        ),
                        _ => PRes::PFail(ParseErrorV::InvalidToken(TokenV::Eof)),
                    },
                    PRes::PFail(e) => PRes::PFail(e),
                },
            }
        },
        PRes::PFail(e) => PRes::PFail(e),
    }
}

/// The parameter list of a function definition; `pos` is the last consumed
/// position, on success the result position is that of the token before the
/// closing parenthesis.
pub open spec fn sp_parse_params(toks: Seq<TokenV>, pos: int) -> PRes<
    (Seq<(TypeV, Seq<char>)>, int),
>
    decreases rem(toks, pos), 8int,
{
    if tok_at(toks, pos + 1) == TokenV::RParen {
        PRes::POk((Seq::empty(), pos))
    } else if tok_at(toks, pos + 1) == TokenV::Eof {
        PRes::PFail(ParseErrorV::ExpectedType(TokenV::Eof))
    } else {
        match sp_parse_type(toks, pos + 1) {
            PRes::POk(t) => match tok_at(toks, t.1) {
                TokenV::Identifier(nm) => {
                    let nxt = if tok_at(toks, t.1 + 1) == TokenV::Comma {
                        t.1 + 1
                    } else {
                        t.1
                    };
                    match sp_parse_params(toks, at_least(nxt, pos + 1)) {
                        PRes::POk(r) => PRes::POk((seq![(t.0, nm)] + r.0, r.1)),
                        PRes::PFail(e) => PRes::PFail(e),
                    }
                },
                _ => PRes::PFail(ParseErrorV::ExpectedIdentifier(tok_at(toks, t.1 + 1))),
            },
            PRes::PFail(e) => PRes::PFail(e),
        }
    }
}

pub open spec fn sp_parse_program(toks: Seq<TokenV>, pos: int, locs: Seq<LVarV>) -> PRes<
    (Seq<StmtV>, Seq<LVarV>),
>
    decreases rem(toks, pos), 12int,
{
    if tok_at(toks, pos) == TokenV::Eof {
        PRes::POk((Seq::empty(), locs))
    } else {
        match sp_parse_statement(toks, pos, locs) {
            PRes::POk(s) => match sp_parse_program(toks, at_least(s.1 + 1, pos + 1), s.2) {
                PRes::POk(r) => PRes::POk((seq![s.0] + r.0, r.1)),
                PRes::PFail(e) => PRes::PFail(e),
            },
            PRes::PFail(e) => PRes::PFail(e),
        }
    }
}

/// What `parse` returns on any input: the tokens of the input, parsed as a
/// program starting from an empty symbol table.
pub open spec fn sp_parse(s: Seq<char>) -> PRes<ProgramV> {
    match sp_parse_program(lex_all(s), 0, Seq::empty()) {
        PRes::POk(t) => PRes::POk(ProgramV { statements: t.0 }),
        PRes::PFail(e) => PRes::PFail(e),
    }
}

// ---------------------------------------------------------------------------
// The executable parser
// ---------------------------------------------------------------------------

/// Binding powers of the expression grammar, weakest first.
#[derive(Debug, PartialEq, Eq, Clone, Copy)]
pub enum Precedence {
    Lowest,
    Assignment,
    Equals,
    LessGreater,
    Sum,
    Product,
}

pub open spec fn spec_prec_level(p: Precedence) -> int {
    match p {
        Precedence::Lowest => 0,
        Precedence::Assignment => 1,
        Precedence::Equals => 2,
        Precedence::LessGreater => 3,
        Precedence::Sum => 4,
        Precedence::Product => 5,
    }
}

impl Precedence {
    fn level(&self) -> (r: u8)
        ensures
            r as int == spec_prec_level(*self),
    {
        match self {
            Precedence::Lowest => 0,
            Precedence::Assignment => 1,
            Precedence::Equals => 2,
            Precedence::LessGreater => 3,
            Precedence::Sum => 4,
            Precedence::Product => 5,
        }
    }
}

impl Clone for Token {
    fn clone(&self) -> (r: Self)
        ensures
            r@ == self@,
    {
        match self {
            Token::Integer(n) => Token::Integer(*n),
            Token::Identifier(s) => Token::Identifier(s.clone()),
            Token::If => Token::If,
            Token::Else => Token::Else,
            Token::While => Token::While,
            Token::For => Token::For,
            Token::Return => Token::Return,
            Token::Void => Token::Void,
            Token::Char => Token::Char,
            Token::Short => Token::Short,
            Token::Int => Token::Int,
            Token::Long => Token::Long,
            Token::Float => Token::Float,
            Token::Double => Token::Double,
            Token::Plus => Token::Plus,
            Token::Minus => Token::Minus,
            Token::Asterisk => Token::Asterisk,
            Token::Slash => Token::Slash,
            Token::LParen => Token::LParen,
            Token::RParen => Token::RParen,
            Token::LBrace => Token::LBrace,
            Token::RBrace => Token::RBrace,
            Token::SemiColon => Token::SemiColon,
            Token::Comma => Token::Comma,
            Token::Assignment => Token::Assignment,
            Token::Eq => Token::Eq,
            Token::NotEq => Token::NotEq,
            Token::Lt => Token::Lt,
            Token::LtEq => Token::LtEq,
            Token::Gt => Token::Gt,
            Token::GtEq => Token::GtEq,
            Token::Illegal(c) => Token::Illegal(*c),
            Token::Eof => Token::Eof,
        }
    }
}

/// One record of the symbol table.
#[derive(Debug)]
pub struct LVar {
    pub name: String,
    pub offset: usize,
    pub type_: Type,
}

pub open spec fn lvar_view(v: LVar) -> LVarV {
    LVarV { name: v.name@, offset: v.offset as int, type_: spec_type_view(v.type_) }
}

pub open spec fn locals_view(v: Seq<LVar>) -> Seq<LVarV> {
    Seq::new(
        v.len(),
        |i: int|
            if 0 <= i < v.len() {
                lvar_view(v[i])
            } else {
                LVarV { name: Seq::empty(), offset: 0, type_: TypeV::Primitive(TypeEnum::Void) }
            },
    )
}

/// No `Eof` token ever stands inside a lexed token sequence: `Eof` only
/// marks the end.
pub open spec fn no_eof(toks: Seq<TokenV>) -> bool {
    forall|i: int| 0 <= i < toks.len() ==> toks[i] != TokenV::Eof
}

pub proof fn lemma_lex_all_no_eof(s: Seq<char>)
    ensures
        no_eof(lex_all(s)),
    decreases s.len(),
{
    if s.len() == 0 {
    } else if crate::lex::is_ws(s[0]) {
        lemma_lex_all_no_eof(s.skip(1));
    } else {
        crate::lex::lemma_scan_len_bounds(s);
        lemma_lex_all_no_eof(s.skip(crate::lex::scan_len(s)));
        assert(crate::lex::scan_tok(s) != TokenV::Eof);
    }
}

/// The suffix of the token sequence from position `i` on; empty once `i`
/// runs past the end.
pub open spec fn tail_from(toks: Seq<TokenV>, i: int) -> Seq<TokenV> {
    if 0 <= i <= toks.len() {
        toks.skip(i)
    } else {
        Seq::empty()
    }
}

/// Recursive-descent parser with one token of lookahead. The ghost fields
/// carry the full token sequence of the input and the position of
/// `current_token` in it.
pub struct Parser {
    pub lexer: Lexer,
    pub current_token: Token,
    pub peeked_token: Token,
    pub locals: Vec<LVar>,
    pub toks: Ghost<Seq<TokenV>>,
    pub pos: Ghost<int>,
}

impl Parser {
    /// Everything except the placement of `current_token`: what `next_token`
    /// needs to restore full well-formedness.
    pub open spec fn wf_core(&self) -> bool {
        &&& self.lexer.wf()
        &&& 0 <= self.pos@
        &&& no_eof(self.toks@)
        &&& self.peeked_token@ == tok_at(self.toks@, self.pos@ + 1)
        &&& lex_all(self.lexer.rest()) == tail_from(self.toks@, self.pos@ + 2)
    }

    pub open spec fn wf(&self) -> bool {
        &&& self.wf_core()
        &&& self.current_token@ == tok_at(self.toks@, self.pos@)
    }

    /// The symbol table as the specification sees it.
    pub open spec fn locs(&self) -> Seq<LVarV> {
        locals_view(self.locals@)
    }

    pub fn new(lexer: Lexer) -> (r: Self)
        requires
            lexer.wf(),
        ensures
            r.wf(),
            r.toks@ == lex_all(lexer.rest()),
            r.pos@ == 0,
            r.locs() == Seq::<LVarV>::empty(),
    {
        let mut lexer = lexer;
        let ghost r0 = lexer.rest();
        let ghost toks = lex_all(r0);
        let current_token = lexer.next();
        let ghost r1 = lexer.rest();
        let peeked_token = lexer.next();
        proof {
            lemma_lex_all_no_eof(r0);
            if toks.len() == 0 {
                assert(tail_from(toks, 2) =~= Seq::<TokenV>::empty());
                assert(lex_all(lexer.rest()) =~= Seq::<TokenV>::empty());
            } else if toks.len() == 1 {
                assert(lex_all(r1) == toks.skip(1));
                assert(lex_all(r1).len() == 0);
                assert(tail_from(toks, 2) =~= Seq::<TokenV>::empty());
                assert(lex_all(lexer.rest()) =~= Seq::<TokenV>::empty());
            } else {
                assert(lex_all(r1) == toks.skip(1));
                assert(lex_all(r1).len() > 0);
                assert(toks.skip(1)[0] == toks[1]);
                assert(lex_all(lexer.rest()) == toks.skip(1).skip(1));
                assert(toks.skip(1).skip(1) =~= toks.skip(2));
            }
            assert(locals_view(Seq::<LVar>::empty()) =~= Seq::<LVarV>::empty());
        }
        let r = Parser {
            lexer,
            current_token,
            peeked_token,
            locals: Vec::new(),
            toks: Ghost(toks),
            pos: Ghost(0int),
        };
        proof {
            assert(r.locals@ =~= Seq::<LVar>::empty());
            assert(r.locs() =~= Seq::<LVarV>::empty());
        }
        r
    }

    /// Advance: `current` takes the peeked token, the lexer supplies a new
    /// peeked one.
    fn next_token(&mut self)
        requires
            old(self).wf_core(),
        ensures
            final(self).wf(),
            final(self).toks@ == old(self).toks@,
            final(self).pos@ == old(self).pos@ + 1,
            final(self).locals == old(self).locals,
    {
        let t = self.lexer.next();
        core::mem::swap(&mut self.current_token, &mut self.peeked_token);
        self.peeked_token = t;
        self.pos = Ghost(self.pos@ + 1);
        proof {
            let toks = self.toks@;
            let p = old(self).pos@;
            if p + 2 <= toks.len() {
                assert(tail_from(toks, p + 2) == toks.skip(p + 2));
                if p + 2 == toks.len() {
                    assert(tail_from(toks, p + 3) =~= Seq::<TokenV>::empty());
                } else {
                    assert(toks.skip(p + 2)[0] == toks[p + 2]);
                    assert(toks.skip(p + 2).skip(1) =~= toks.skip(p + 3));
                }
            } else {
                assert(tail_from(toks, p + 2) =~= Seq::<TokenV>::empty());
                assert(tail_from(toks, p + 3) =~= Seq::<TokenV>::empty());
            }
            assert(self.lexer.wf());
            assert(self.current_token@ == tok_at(self.toks@, self.pos@));
            assert(self.peeked_token@ == tok_at(self.toks@, self.pos@ + 1));
            assert(lex_all(self.lexer.rest()) == tail_from(self.toks@, self.pos@ + 2));
        }
    }

    fn sizeof(&self, t: &Type) -> (r: usize)
        ensures
            r as int == spec_size_of(spec_type_view(*t)),
    {
        t.size()
    }

    fn get_precedence(&self, token: &Token) -> (p: Precedence)
        ensures
            spec_prec_level(p) == prec_of(token@),
    {
        match token {
            Token::Assignment => Precedence::Assignment,
            Token::Eq | Token::NotEq => Precedence::Equals,
            Token::Lt | Token::LtEq | Token::Gt | Token::GtEq => Precedence::LessGreater,
            Token::Plus | Token::Minus => Precedence::Sum,
            Token::Slash | Token::Asterisk => Precedence::Product,
            _ => Precedence::Lowest,
        }
    }

    fn peek_precedence(&self) -> (p: Precedence)
        ensures
            spec_prec_level(p) == prec_of(self.peeked_token@),
    {
        self.get_precedence(&self.peeked_token)
    }

    /// Front-to-back scan of the symbol table.
    fn find_local_var(&self, name: &String) -> (r: Option<(usize, Type)>)
        ensures
            match sp_find_local(self.locs(), name@) {
                Option::Some(v) => r matches Option::Some(p) && p.0 as int == v.offset
                    && spec_type_view(p.1) == v.type_,
                Option::None => r matches Option::None,
            },
    {
        let ghost all = self.locs();
        proof {
            assert(all.skip(0) =~= all);
        }
        let mut i: usize = 0;
        loop
            invariant
                0 <= i <= self.locals.len(),
                all == self.locs(),
                all.len() == self.locals.len(),
                sp_find_local(all, name@) == sp_find_local(all.skip(i as int), name@),
            ensures
                i == self.locals.len(),
                sp_find_local(all, name@) == sp_find_local(all.skip(i as int), name@),
            decreases self.locals.len() - i,
        {
            if i == self.locals.len() {
                break ;
            }
            let lv = &self.locals[i];
            if lv.name == *name {
                let r = Some((lv.offset, lv.type_.clone()));
                proof {
                    assert(all.skip(i as int)[0] == lvar_view(self.locals@[i as int]));
                }
                return r;
            }
            proof {
                assert(all.skip(i as int)[0] == lvar_view(self.locals@[i as int]));
                assert(all.skip(i as int).skip(1) =~= all.skip(i + 1));
            }
            i = i + 1;
        }
        proof {
            assert(all.skip(i as int) =~= Seq::<LVarV>::empty());
        }
        None
    }

    /// Append a new local after the previous ones and hand back the
    /// expression node that refers to it.
    fn new_local_var(&mut self, type_: Type, name: String) -> (r: Result<Expression, ParseError>)
        requires
            old(self).wf(),
        ensures
            final(self).wf(),
            final(self).toks@ == old(self).toks@,
            final(self).pos@ == old(self).pos@,
            match sp_new_local(old(self).locs(), spec_type_view(type_), name@) {
                Option::Some(t) => r matches Result::Ok(e) && spec_expr_view(e) == t.0 && final(self).locs() == t.1,
                Option::None => r matches Result::Err(er) && er@ == ParseErrorV::TooManyLocals
                    && final(self).locs() == old(self).locs(),
            },
    {
        let alloca = self.sizeof(&type_);
        let last: usize = if self.locals.len() == 0 {
            0
        } else {
            self.locals[self.locals.len() - 1].offset
        };
        proof {
            if self.locals.len() > 0 {
                assert(self.locs().last() == lvar_view(self.locals@.last()));
            }
        }
        if last > usize::MAX - alloca {
            return Err(ParseError::TooManyLocals);
        }
        let offset = last + alloca;
        self.locals.push(LVar { name: name.clone(), offset, type_: type_.clone() });
        proof {
            assert(self.locs() =~= old(self).locs().push(
                LVarV {
                    name: name@,
                    offset: offset as int,
                    type_: spec_type_view(type_),
                },
            ));
        }
        Ok(Expression::LocalVariable { name, offset, type_ })
    }

    fn parse_type(&mut self) -> (r: Result<Type, ParseError>)
        requires
            old(self).wf(),
        ensures
            final(self).wf(),
            final(self).toks@ == old(self).toks@,
            final(self).locals == old(self).locals,
            old(self).pos@ <= final(self).pos@,
            match sp_parse_type(old(self).toks@, old(self).pos@) {
                PRes::POk(t) => r matches Result::Ok(ty) && spec_type_view(ty) == t.0 && final(self).pos@ == t.1 && old(self).pos@ < final(self).pos@,
                PRes::PFail(f) => r matches Result::Err(e) && e@ == f,
            },
    {
        let ghost toks = self.toks@;
        let ghost pos0 = self.pos@;
        let base = match &self.current_token {
            Token::Void => TypeEnum::Void,
            Token::Char => TypeEnum::Char,
            Token::Short => TypeEnum::Short,
            Token::Int => TypeEnum::Int,
            Token::Long => TypeEnum::Long,
            Token::Float => TypeEnum::Float,
            Token::Double => TypeEnum::Double,
            _ => {
                return Err(ParseError::ExpectedType(self.current_token.clone()));
            },
        };
        self.next_token();
        let mut t = Type::Primitive(base);
        loop
            invariant
                self.wf(),
                self.toks@ == toks,
                self.locals == old(self).locals,
                pos0 < self.pos@,
                sp_parse_type(toks, pos0) == sp_stars(toks, self.pos@, spec_type_view(t)),
            ensures
                self.wf(),
                self.toks@ == toks,
                self.locals == old(self).locals,
                pos0 < self.pos@,
                sp_parse_type(toks, pos0) == sp_stars(toks, self.pos@, spec_type_view(t)),
                self.current_token@ != TokenV::Asterisk,
            decreases rem(toks, self.pos@),
        {
            if matches!(self.current_token, Token::Asterisk) {
                t = Type::Pointer(Box::new(t));
                self.next_token();
            } else {
                break ;
            }
        }
        Ok(t)
    }

    /// An identifier in expression position: resolve it in the symbol table.
    fn parse_identifier_expression(&self, name: String) -> (r: Result<Expression, ParseError>)
        ensures
            match sp_find_local(self.locs(), name@) {
                Option::Some(v) => r matches Result::Ok(e) && spec_expr_view(e)
                    == (ExprV::LocalVariable { name: name@, offset: v.offset, type_: v.type_ }),
                Option::None => r matches Result::Err(er) && er@ == ParseErrorV::UndefinedVariable(
                    name@,
                ),
            },
    {
        match self.find_local_var(&name) {
            Some((offset, type_)) => Ok(Expression::LocalVariable { name, offset, type_ }),
            None => Err(ParseError::UndefinedVariable(name)),
        }
    }

    pub fn parse_expression(&mut self, precedence: Precedence) -> (r: Result<
        Expression,
        ParseError,
    >)
        requires
            old(self).wf(),
        ensures
            final(self).wf(),
            final(self).toks@ == old(self).toks@,
            final(self).locals == old(self).locals,
            old(self).pos@ <= final(self).pos@,
            match sp_parse_expression(
                old(self).toks@,
                old(self).pos@,
                spec_prec_level(precedence),
                old(self).locs(),
            ) {
                PRes::POk(t) => r matches Result::Ok(e) && spec_expr_view(e) == t.0 && final(self).pos@ == t.1,
                PRes::PFail(f) => r matches Result::Err(er) && er@ == f,
            },
        decreases rem(self.toks@, self.pos@), 5int,
    {
        let ghost toks = self.toks@;
        let ghost pos0 = self.pos@;
        let ghost locs0 = self.locs();
        let ghost precl = spec_prec_level(precedence);
        let cur = self.current_token.clone();
        let prefix: Result<Expression, ParseError> = match cur {
            Token::Integer(n) => Ok(Expression::Integer(n)),
            Token::LParen => self.parse_grouped_expression(),
            Token::Minus => self.parse_unary_expression(),
            Token::Identifier(name) => {
                if matches!(self.peeked_token, Token::LParen) {
                    self.next_token();
                    self.parse_call_expression(name)
                } else {
                    self.parse_identifier_expression(name)
                }
            },
            _ => Err(ParseError::InvalidToken(self.current_token.clone())),
        };
        let mut expr = match prefix {
            Ok(e) => e,
            Err(er) => {
                return Err(er);
            },
        };
        loop
            invariant
                self.wf(),
                self.toks@ == toks,
                toks == old(self).toks@,
                pos0 == old(self).pos@,
                locs0 == old(self).locs(),
                self.locals == old(self).locals,
                locs0 == self.locs(),
                pos0 <= self.pos@,
                precl == spec_prec_level(precedence),
                sp_parse_expression(toks, pos0, precl, locs0) == sp_parse_infix(
                    toks,
                    self.pos@,
                    spec_expr_view(expr),
                    precl,
                    locs0,
                ),
            ensures
                self.wf(),
                self.toks@ == toks,
                self.locals == old(self).locals,
                pos0 <= self.pos@,
                sp_parse_expression(toks, pos0, precl, locs0) == sp_parse_infix(
                    toks,
                    self.pos@,
                    spec_expr_view(expr),
                    precl,
                    locs0,
                ),
                self.peeked_token@ == TokenV::Eof || !(precl < prec_of(self.peeked_token@)),
            decreases rem(toks, self.pos@),
        {
            let eof_peek = matches!(self.peeked_token, Token::Eof);
            let go: bool = if eof_peek {
                false
            } else {
                let pl = precedence.level();
                let kl = self.peek_precedence().level();
                proof {
                    assert(spec_prec_level(precedence) == precl);
                    assert(pl as int == spec_prec_level(precedence));
                    assert(kl as int == prec_of(self.peeked_token@));
                }
                pl < kl
            };
            proof {
                assert(eof_peek == (self.peeked_token@ == TokenV::Eof));
                assert(go == (self.peeked_token@ != TokenV::Eof && precl < prec_of(
                    self.peeked_token@,
                )));
            }
            if !go {
                break ;
            }
            let ghost lpos = self.pos@;
            let ghost left0 = spec_expr_view(expr);
            proof {
                assert(self.peeked_token@ != TokenV::Eof);
                assert(tok_at(toks, lpos + 1) != TokenV::Eof);
                assert(lpos + 1 < toks.len());
                assert(pos0 <= lpos < toks.len());
                assert(rem(toks, lpos + 1) < rem(toks, pos0));
            }
            match &self.peeked_token {
                Token::Assignment | Token::Plus | Token::Minus | Token::Asterisk | Token::Slash
                    | Token::Eq | Token::NotEq | Token::Lt | Token::Gt | Token::LtEq
                    | Token::GtEq => {},
                _ => {
                    proof {
                        assert(false);
                    }
                    return Err(ParseError::ExpectedBinaryOperator(self.peeked_token.clone()));
                },
            }
            self.next_token();
            let e2 = match self.parse_binary_expression(expr) {
                Ok(e) => e,
                Err(er) => {
                    proof {
                        assert(sp_parse_infix(toks, lpos, left0, precl, locs0) matches PRes::PFail(
                            f,
                        ) && er@ == f);
                    }
                    return Err(er);
                },
            };
            expr = e2;
            proof {
                assert(sp_parse_infix(toks, lpos, left0, precl, locs0) == sp_parse_infix(
                    toks,
                    self.pos@,
                    spec_expr_view(expr),
                    precl,
                    locs0,
                ));
            }
        }
        Ok(expr)
    }

    fn parse_unary_expression(&mut self) -> (r: Result<Expression, ParseError>)
        requires
            old(self).wf(),
            old(self).current_token@ == TokenV::Minus,
        ensures
            final(self).wf(),
            final(self).toks@ == old(self).toks@,
            final(self).locals == old(self).locals,
            old(self).pos@ <= final(self).pos@,
            match sp_parse_unary(old(self).toks@, old(self).pos@, old(self).locs()) {
                PRes::POk(t) => r matches Result::Ok(e) && spec_expr_view(e) == t.0 && final(self).pos@ == t.1,
                PRes::PFail(f) => r matches Result::Err(er) && er@ == f,
            },
        decreases rem(self.toks@, self.pos@), 4int,
    {
        self.next_token();
        let expr = match self.parse_expression(Precedence::Product) {
            Ok(e) => e,
            Err(er) => {
                return Err(er);
            },
        };
        Ok(Expression::Unary(UnaryExpression::new(expr, crate::ast::UnaryOperator::Minus)))
    }

    fn parse_grouped_expression(&mut self) -> (r: Result<Expression, ParseError>)
        requires
            old(self).wf(),
            old(self).current_token@ == TokenV::LParen,
        ensures
            final(self).wf(),
            final(self).toks@ == old(self).toks@,
            final(self).locals == old(self).locals,
            old(self).pos@ <= final(self).pos@,
            match sp_parse_grouped(old(self).toks@, old(self).pos@, old(self).locs()) {
                PRes::POk(t) => r matches Result::Ok(e) && spec_expr_view(e) == t.0 && final(self).pos@ == t.1,
                PRes::PFail(f) => r matches Result::Err(er) && er@ == f,
            },
        decreases rem(self.toks@, self.pos@), 4int,
    {
        self.next_token();
        let expr = match self.parse_expression(Precedence::Lowest) {
            Ok(e) => e,
            Err(er) => {
                return Err(er);
            },
        };
        if !matches!(self.peeked_token, Token::RParen) {
            return Err(ParseError::ExpectedRParen(self.peeked_token.clone()));
        }
        self.next_token();
        Ok(expr)
    }

    fn parse_binary_expression(&mut self, left: Expression) -> (r: Result<Expression, ParseError>)
        requires
            old(self).wf(),
            binop_of(old(self).current_token@) matches Option::Some(_),
        ensures
            final(self).wf(),
            final(self).toks@ == old(self).toks@,
            final(self).locals == old(self).locals,
            old(self).pos@ + 1 <= final(self).pos@,
            ({
                let nt = old(self).current_token@;
                match binop_of(nt) {
                    Option::Some(os) => match sp_parse_expression(
                        old(self).toks@,
                        old(self).pos@ + 1,
                        prec_of(nt),
                        old(self).locs(),
                    ) {
                        PRes::POk(t) => r matches Result::Ok(e) && final(self).pos@ == t.1
                            && spec_expr_view(e) == (if os.1 {
                            ExprV::Binary(
                                BinaryExpressionV {
                                    lhs: Box::new(t.0),
                                    op: os.0,
                                    rhs: Box::new(spec_expr_view(left)),
                                },
                            )
                        } else {
                            ExprV::Binary(
                                BinaryExpressionV {
                                    lhs: Box::new(spec_expr_view(left)),
                                    op: os.0,
                                    rhs: Box::new(t.0),
                                },
                            )
                        }),
                        PRes::PFail(f) => r matches Result::Err(er) && er@ == f,
                    },
                    Option::None => false,
                }
            }),
        decreases rem(self.toks@, self.pos@), 4int,
    {
        let (op, swap) = match &self.current_token {
            Token::Assignment => (BinaryOperator::Assignment, false),
            Token::Plus => (BinaryOperator::Plus, false),
            Token::Minus => (BinaryOperator::Minus, false),
            Token::Asterisk => (BinaryOperator::Asterisk, false),
            Token::Slash => (BinaryOperator::Slash, false),
            Token::Lt => (BinaryOperator::Lt, false),
            Token::Gt => (BinaryOperator::Lt, true),
            Token::LtEq => (BinaryOperator::LtEq, false),
            Token::GtEq => (BinaryOperator::LtEq, true),
            Token::Eq => (BinaryOperator::Eq, false),
            Token::NotEq => (BinaryOperator::NotEq, false),
            _ => {
                proof {
                    assert(false);
                }
                return Err(ParseError::ExpectedBinaryOperator(self.current_token.clone()));
            },
        };
        let precedence = self.get_precedence(&self.current_token);
        self.next_token();
        let right = match self.parse_expression(precedence) {
            Ok(e) => e,
            Err(er) => {
                return Err(er);
            },
        };
        if swap {
            Ok(Expression::Binary(BinaryExpression::new(right, op, left)))
        } else {
            Ok(Expression::Binary(BinaryExpression::new(left, op, right)))
        }
    }

    fn parse_call_expression(&mut self, callee_name: String) -> (r: Result<Expression, ParseError>)
        requires
            old(self).wf(),
            old(self).current_token@ == TokenV::LParen,
        ensures
            final(self).wf(),
            final(self).toks@ == old(self).toks@,
            final(self).locals == old(self).locals,
            old(self).pos@ <= final(self).pos@,
            match sp_parse_call(old(self).toks@, old(self).pos@, callee_name@, old(self).locs()) {
                PRes::POk(t) => r matches Result::Ok(e) && spec_expr_view(e) == t.0 && final(self).pos@ == t.1,
                PRes::PFail(f) => r matches Result::Err(er) && er@ == f,
            },
        decreases rem(self.toks@, self.pos@), 4int,
    {
        let ghost toks = self.toks@;
        let ghost pos0 = self.pos@;
        let ghost locs0 = self.locs();
        let mut arguments: Vec<Expression> = Vec::new();
        proof {
            assert(crate::ast::exprs_view(arguments@) =~= Seq::<ExprV>::empty());
        }
        loop
            invariant
                self.wf(),
                self.toks@ == toks,
                toks == old(self).toks@,
                pos0 == old(self).pos@,
                locs0 == old(self).locs(),
                self.locals == old(self).locals,
                locs0 == self.locs(),
                pos0 <= self.pos@,
                pos0 < toks.len(),
                tok_at(toks, pos0) == TokenV::LParen,
                match sp_parse_args(toks, self.pos@, locs0) {
                    PRes::POk(t) => sp_parse_args(toks, pos0, locs0) == PRes::POk(
                        (crate::ast::exprs_view(arguments@) + t.0, t.1),
                    ),
                    PRes::PFail(f) => sp_parse_args(toks, pos0, locs0) == PRes::<
                        (Seq<ExprV>, int),
                    >::PFail(f),
                },
            ensures
                self.wf(),
                self.toks@ == toks,
                self.locals == old(self).locals,
                locs0 == self.locs(),
                pos0 <= self.pos@,
                self.peeked_token@ == TokenV::RParen,
                match sp_parse_args(toks, self.pos@, locs0) {
                    PRes::POk(t) => sp_parse_args(toks, pos0, locs0) == PRes::POk(
                        (crate::ast::exprs_view(arguments@) + t.0, t.1),
                    ),
                    PRes::PFail(f) => sp_parse_args(toks, pos0, locs0) == PRes::<
                        (Seq<ExprV>, int),
                    >::PFail(f),
                },
            decreases rem(toks, self.pos@),
        {
            if matches!(self.peeked_token, Token::RParen) {
                break ;
            }
            let ghost piter = self.pos@;
            let ghost args_before = arguments@;
            self.next_token();
            let e = match self.parse_expression(Precedence::Lowest) {
                Ok(e) => e,
                Err(er) => {
                    proof {
                        assert(tok_at(toks, piter + 1) != TokenV::RParen);
                        assert(sp_parse_args(toks, piter, locs0) == PRes::<
                            (Seq<ExprV>, int),
                        >::PFail(er@));
                    }
                    return Err(er);
                },
            };
            arguments.push(e);
            if matches!(self.peeked_token, Token::Comma) {
                self.next_token();
            }
            proof {
                assert(crate::ast::exprs_view(arguments@) =~= crate::ast::exprs_view(
                    args_before,
                ).push(spec_expr_view(e)));
                assert(crate::ast::exprs_view(args_before).push(spec_expr_view(e))
                    =~= crate::ast::exprs_view(args_before) + seq![spec_expr_view(e)]);
                match sp_parse_args(toks, self.pos@, locs0) {
                    PRes::POk(t) => {
                        assert(crate::ast::exprs_view(args_before) + (seq![spec_expr_view(e)]
                            + t.0) =~= crate::ast::exprs_view(arguments@) + t.0);
                    },
                    PRes::PFail(_) => {},
                }
            }
        }
        self.next_token();
        proof {
            assert(crate::ast::exprs_view(arguments@) + Seq::<ExprV>::empty()
                =~= crate::ast::exprs_view(arguments@));
        }
        Ok(Expression::Call(CallExpression::new(callee_name, arguments)))
    }

    pub fn parse_statement(&mut self) -> (r: Result<Statement, ParseError>)
        requires
            old(self).wf(),
        ensures
            final(self).wf(),
            final(self).toks@ == old(self).toks@,
            old(self).pos@ <= final(self).pos@,
            match sp_parse_statement(old(self).toks@, old(self).pos@, old(self).locs()) {
                PRes::POk(t) => r matches Result::Ok(s) && spec_stmt_view(s) == t.0 && final(self).pos@ == t.1 && final(self).locs() == t.2,
                PRes::PFail(f) => r matches Result::Err(er) && er@ == f,
            },
        decreases rem(self.toks@, self.pos@), 10int,
    {
        if matches!(self.current_token, Token::If) {
            return self.parse_if_statement();
        }
        if matches!(self.current_token, Token::While) {
            return self.parse_while_statement();
        }
        if matches!(self.current_token, Token::For) {
            return self.parse_for_statement();
        }
        if matches!(self.current_token, Token::Return) {
            return self.parse_return_statement();
        }
        if matches!(self.current_token, Token::LBrace) {
            return self.parse_block_statement();
        }
        if self.current_token.is_type_keyword() {
            let ty = match self.parse_type() {
                Ok(t) => t,
                Err(e) => {
                    return Err(e);
                },
            };
            let name = match &self.current_token {
                Token::Identifier(s) => s.clone(),
                _ => {
                    return Err(ParseError::ExpectedIdentifier(self.current_token.clone()));
                },
            };
            if matches!(self.peeked_token, Token::Assignment) || matches!(
                self.peeked_token,
                Token::SemiColon,
            ) {
                self.next_token();
                return self.parse_variable_declaration(ty, name);
            }
            if matches!(self.peeked_token, Token::LParen) {
                self.next_token();
                return self.parse_function_declaration(name);
            }
            return Err(ParseError::ExpectedAssignOrParen(self.current_token.clone()));
        }
        self.parse_expression_statement()
    }

    fn parse_if_statement(&mut self) -> (r: Result<Statement, ParseError>)
        requires
            old(self).wf(),
        ensures
            final(self).wf(),
            final(self).toks@ == old(self).toks@,
            old(self).pos@ <= final(self).pos@,
            match sp_parse_if(old(self).toks@, old(self).pos@, old(self).locs()) {
                PRes::POk(t) => r matches Result::Ok(s) && spec_stmt_view(s) == t.0 && final(self).pos@ == t.1 && final(self).locs() == t.2,
                PRes::PFail(f) => r matches Result::Err(er) && er@ == f,
            },
        decreases rem(self.toks@, self.pos@), 9int,
    {
        self.next_token();
        if !matches!(self.current_token, Token::LParen) {
            return Err(ParseError::ExpectedLParen(self.current_token.clone()));
        }
        self.next_token();
        let condition = match self.parse_expression(Precedence::Lowest) {
            Ok(e) => e,
            Err(e) => {
                return Err(e);
            },
        };
        if !matches!(self.peeked_token, Token::RParen) {
            return Err(ParseError::ExpectedRParen(self.peeked_token.clone()));
        }
        self.next_token();
        self.next_token();
        let consequence = match self.parse_statement() {
            Ok(s) => s,
            Err(e) => {
                return Err(e);
            },
        };
        let alternative = if matches!(self.peeked_token, Token::Else) {
            self.next_token();
            self.next_token();
            match self.parse_statement() {
                Ok(s) => Some(s),
                Err(e) => {
                    return Err(e);
                },
            }
        } else {
            None
        };
        Ok(Statement::If(IfStatement::new(condition, consequence, alternative)))
    }

    fn parse_while_statement(&mut self) -> (r: Result<Statement, ParseError>)
        requires
            old(self).wf(),
        ensures
            final(self).wf(),
            final(self).toks@ == old(self).toks@,
            old(self).pos@ <= final(self).pos@,
            match sp_parse_while(old(self).toks@, old(self).pos@, old(self).locs()) {
                PRes::POk(t) => r matches Result::Ok(s) && spec_stmt_view(s) == t.0 && final(self).pos@ == t.1 && final(self).locs() == t.2,
                PRes::PFail(f) => r matches Result::Err(er) && er@ == f,
            },
        decreases rem(self.toks@, self.pos@), 9int,
    {
        self.next_token();
        if !matches!(self.current_token, Token::LParen) {
            return Err(ParseError::ExpectedLParen(self.current_token.clone()));
        }
        self.next_token();
        let condition = match self.parse_expression(Precedence::Lowest) {
            Ok(e) => e,
            Err(e) => {
                return Err(e);
            },
        };
        if !matches!(self.peeked_token, Token::RParen) {
            return Err(ParseError::ExpectedRParen(self.peeked_token.clone()));
        }
        self.next_token();
        self.next_token();
        let body = match self.parse_statement() {
            Ok(s) => s,
            Err(e) => {
                return Err(e);
            },
        };
        Ok(Statement::While(WhileStatement::new(condition, body)))
    }

    #[verifier::rlimit(100)]
    fn parse_for_statement(&mut self) -> (r: Result<Statement, ParseError>)
        requires
            old(self).wf(),
        ensures
            final(self).wf(),
            final(self).toks@ == old(self).toks@,
            old(self).pos@ <= final(self).pos@,
            match sp_parse_for(old(self).toks@, old(self).pos@, old(self).locs()) {
                PRes::POk(t) => r matches Result::Ok(s) && spec_stmt_view(s) == t.0 && final(self).pos@ == t.1 && final(self).locs() == t.2,
                PRes::PFail(f) => r matches Result::Err(er) && er@ == f,
            },
        decreases rem(self.toks@, self.pos@), 9int,
    {
        self.next_token();
        if !matches!(self.current_token, Token::LParen) {
            return Err(ParseError::ExpectedLParen(self.current_token.clone()));
        }
        self.next_token();
        let init = if matches!(self.current_token, Token::SemiColon) {
            None
        } else {
            match self.parse_expression_statement() {
                Ok(s) => Some(s),
                Err(e) => {
                    return Err(e);
                },
            }
        };
        self.next_token();
        let condition = if matches!(self.current_token, Token::SemiColon) {
            self.next_token();
            None
        } else {
            let e = match self.parse_expression(Precedence::Lowest) {
                Ok(e) => e,
                Err(er) => {
                    return Err(er);
                },
            };
            self.next_token();
            if matches!(self.current_token, Token::SemiColon) {
                self.next_token();
                Some(e)
            } else {
                return Err(ParseError::ExpectedSemiColon(self.current_token.clone()));
            }
        };
        let post = if matches!(self.current_token, Token::RParen) {
            self.next_token();
            None
        } else {
            let s = match self.parse_statement() {
                Ok(s) => s,
                Err(e) => {
                    return Err(e);
                },
            };
            if matches!(self.current_token, Token::RParen) {
                self.next_token();
                Some(s)
            } else {
                return Err(ParseError::ExpectedRParen(self.current_token.clone()));
            }
        };
        let body = match self.parse_statement() {
            Ok(s) => s,
            Err(e) => {
                return Err(e);
            },
        };
        Ok(Statement::For(ForStatement::new(init, condition, post, body)))
    }

    fn parse_return_statement(&mut self) -> (r: Result<Statement, ParseError>)
        requires
            old(self).wf(),
            old(self).current_token@ == TokenV::Return,
        ensures
            final(self).wf(),
            final(self).toks@ == old(self).toks@,
            old(self).pos@ <= final(self).pos@,
            match sp_parse_return(old(self).toks@, old(self).pos@, old(self).locs()) {
                PRes::POk(t) => r matches Result::Ok(s) && spec_stmt_view(s) == t.0 && final(self).pos@ == t.1 && final(self).locs() == t.2,
                PRes::PFail(f) => r matches Result::Err(er) && er@ == f,
            },
        decreases rem(self.toks@, self.pos@), 9int,
    {
        self.next_token();
        let expr = match self.parse_expression(Precedence::Lowest) {
            Ok(e) => e,
            Err(e) => {
                return Err(e);
            },
        };
        if !matches!(self.peeked_token, Token::SemiColon) {
            return Err(ParseError::ExpectedSemiColon(self.peeked_token.clone()));
        }
        self.next_token();
        Ok(Statement::Return(expr))
    }

    fn parse_block_statement(&mut self) -> (r: Result<Statement, ParseError>)
        requires
            old(self).wf(),
        ensures
            final(self).wf(),
            final(self).toks@ == old(self).toks@,
            old(self).pos@ <= final(self).pos@,
            match sp_parse_block(old(self).toks@, old(self).pos@, old(self).locs()) {
                PRes::POk(t) => r matches Result::Ok(s) && spec_stmt_view(s) == t.0 && final(self).pos@ == t.1 && final(self).locs() == t.2,
                PRes::PFail(f) => r matches Result::Err(er) && er@ == f,
            },
        decreases rem(self.toks@, self.pos@), 9int,
    {
        if matches!(self.current_token, Token::Eof) {
            return Err(ParseError::InvalidToken(Token::Eof));
        }
        let ghost toks = self.toks@;
        let ghost pos0 = self.pos@;
        let ghost locs0 = self.locs();
        self.next_token();
        let mut statements: Vec<Statement> = Vec::new();
        proof {
            assert(stmts_view(statements@) =~= Seq::<StmtV>::empty());
        }
        loop
            invariant
                self.wf(),
                self.toks@ == toks,
                toks == old(self).toks@,
                pos0 == old(self).pos@,
                locs0 == old(self).locs(),
                0 <= pos0 < toks.len(),
                pos0 < self.pos@,
                match sp_parse_block_items(toks, self.pos@, self.locs()) {
                    PRes::POk(t) => sp_parse_block_items(toks, pos0 + 1, locs0) == PRes::POk(
                        (stmts_view(statements@) + t.0, t.1, t.2),
                    ),
                    PRes::PFail(f) => sp_parse_block_items(toks, pos0 + 1, locs0) == PRes::<
                        (Seq<StmtV>, int, Seq<LVarV>),
                    >::PFail(f),
                },
            ensures
                self.wf(),
                self.toks@ == toks,
                pos0 < self.pos@,
                self.current_token@ == TokenV::RBrace,
                match sp_parse_block_items(toks, self.pos@, self.locs()) {
                    PRes::POk(t) => sp_parse_block_items(toks, pos0 + 1, locs0) == PRes::POk(
                        (stmts_view(statements@) + t.0, t.1, t.2),
                    ),
                    PRes::PFail(f) => sp_parse_block_items(toks, pos0 + 1, locs0) == PRes::<
                        (Seq<StmtV>, int, Seq<LVarV>),
                    >::PFail(f),
                },
            decreases rem(toks, self.pos@),
        {
            if matches!(self.current_token, Token::RBrace) {
                break ;
            }
            let ghost piter = self.pos@;
            let ghost stmts_before = statements@;
            let ghost locs_iter = self.locs();
            let s = match self.parse_statement() {
                Ok(s) => s,
                Err(e) => {
                    proof {
                        assert(sp_parse_block_items(toks, piter, locs_iter) == PRes::<
                            (Seq<StmtV>, int, Seq<LVarV>),
                        >::PFail(e@));
                    }
                    return Err(e);
                },
            };
            statements.push(s);
            self.next_token();
            proof {
                assert(stmts_view(statements@) =~= stmts_view(stmts_before).push(
                    spec_stmt_view(s),
                ));
                assert(stmts_view(stmts_before).push(spec_stmt_view(s)) =~= stmts_view(
                    stmts_before,
                ) + seq![spec_stmt_view(s)]);
                match sp_parse_block_items(toks, self.pos@, self.locs()) {
                    PRes::POk(t) => {
                        assert(stmts_view(stmts_before) + (seq![spec_stmt_view(s)] + t.0)
                            =~= stmts_view(statements@) + t.0);
                    },
                    PRes::PFail(_) => {},
                }
            }
        }
        proof {
            assert(sp_parse_block_items(toks, self.pos@, self.locs()) == PRes::<
                (Seq<StmtV>, int, Seq<LVarV>),
            >::POk((Seq::empty(), self.pos@, self.locs())));
            assert(stmts_view(statements@) + Seq::<StmtV>::empty() =~= stmts_view(statements@));
        }
        Ok(Statement::Block(statements))
    }

    fn parse_expression_statement(&mut self) -> (r: Result<Statement, ParseError>)
        requires
            old(self).wf(),
        ensures
            final(self).wf(),
            final(self).toks@ == old(self).toks@,
            old(self).pos@ <= final(self).pos@,
            match sp_parse_expr_statement(old(self).toks@, old(self).pos@, old(self).locs()) {
                PRes::POk(t) => r matches Result::Ok(s) && spec_stmt_view(s) == t.0 && final(self).pos@ == t.1 && final(self).locs() == t.2,
                PRes::PFail(f) => r matches Result::Err(er) && er@ == f,
            },
        decreases rem(self.toks@, self.pos@), 6int,
    {
        let expr = match self.parse_expression(Precedence::Lowest) {
            Ok(e) => e,
            Err(e) => {
                return Err(e);
            },
        };
        if matches!(self.peeked_token, Token::SemiColon) || matches!(
            self.peeked_token,
            Token::RParen,
        ) {
            self.next_token();
        } else {
            return Err(ParseError::ExpectedSemiColonOrRParen(self.peeked_token.clone()));
        }
        Ok(Statement::Expression(expr))
    }

    fn parse_variable_declaration(&mut self, type_: Type, name: String) -> (r: Result<
        Statement,
        ParseError,
    >)
        requires
            old(self).wf(),
        ensures
            final(self).wf(),
            final(self).toks@ == old(self).toks@,
            old(self).pos@ <= final(self).pos@,
            match sp_parse_var_decl(
                old(self).toks@,
                old(self).pos@,
                spec_type_view(type_),
                name@,
                old(self).locs(),
            ) {
                PRes::POk(t) => r matches Result::Ok(s) && spec_stmt_view(s) == t.0 && final(self).pos@ == t.1 && final(self).locs() == t.2,
                PRes::PFail(f) => r matches Result::Err(er) && er@ == f,
            },
        decreases rem(self.toks@, self.pos@), 9int,
    {
        let e = match self.new_local_var(type_.clone(), name.clone()) {
            Ok(e) => e,
            Err(er) => {
                return Err(er);
            },
        };
        let offset = match &e {
            Expression::LocalVariable { offset, .. } => *offset,
            _ => {
                proof {
                    assert(false);
                }
                return Err(ParseError::TooManyLocals);
            },
        };
        let init_expr = if matches!(self.current_token, Token::SemiColon) {
            None
        } else if matches!(self.current_token, Token::Assignment) {
            self.next_token();
            match self.parse_expression(Precedence::Lowest) {
                Ok(e2) => {
                    self.next_token();
                    Some(e2)
                },
                Err(er) => {
                    return Err(er);
                },
            }
        } else {
            return Err(ParseError::ExpectedSemiColon(self.current_token.clone()));
        };
        Ok(Statement::InitDeclaration(InitDeclaration::new(name, offset, type_, init_expr)))
    }

    fn parse_function_declaration(&mut self, name: String) -> (r: Result<Statement, ParseError>)
        requires
            old(self).wf(),
            old(self).current_token@ == TokenV::LParen,
        ensures
            final(self).wf(),
            final(self).toks@ == old(self).toks@,
            old(self).pos@ <= final(self).pos@,
            match sp_parse_fn_decl(old(self).toks@, old(self).pos@, name@, old(self).locs()) {
                PRes::POk(t) => r matches Result::Ok(s) && spec_stmt_view(s) == t.0 && final(self).pos@ == t.1 && final(self).locs() == t.2,
                PRes::PFail(f) => r matches Result::Err(er) && er@ == f,
            },
        decreases rem(self.toks@, self.pos@), 9int,
    {
        let ghost toks = self.toks@;
        let ghost pos0 = self.pos@;
        let ghost locs0 = self.locs();
        let mut params: Vec<(Type, String)> = Vec::new();
        proof {
            assert(params_view(params@) =~= Seq::<(TypeV, Seq<char>)>::empty());
        }
        loop
            invariant
                self.wf(),
                self.toks@ == toks,
                toks == old(self).toks@,
                pos0 == old(self).pos@,
                locs0 == old(self).locs(),
                self.locals == old(self).locals,
                pos0 <= self.pos@,
                0 <= pos0 < toks.len(),
                match sp_parse_params(toks, self.pos@) {
                    PRes::POk(t) => sp_parse_params(toks, pos0) == PRes::POk(
                        (params_view(params@) + t.0, t.1),
                    ),
                    PRes::PFail(f) => sp_parse_params(toks, pos0) == PRes::<
                        (Seq<(TypeV, Seq<char>)>, int),
                    >::PFail(f),
                },
            ensures
                self.wf(),
                self.toks@ == toks,
                self.locals == old(self).locals,
                pos0 <= self.pos@,
                self.peeked_token@ == TokenV::RParen,
                match sp_parse_params(toks, self.pos@) {
                    PRes::POk(t) => sp_parse_params(toks, pos0) == PRes::POk(
                        (params_view(params@) + t.0, t.1),
                    ),
                    PRes::PFail(f) => sp_parse_params(toks, pos0) == PRes::<
                        (Seq<(TypeV, Seq<char>)>, int),
                    >::PFail(f),
                },
            decreases rem(toks, self.pos@),
        {
            if matches!(self.peeked_token, Token::RParen) {
                break ;
            }
            let ghost piter = self.pos@;
            let ghost params_before = params@;
            self.next_token();
            let ty = match self.parse_type() {
                Ok(t) => t,
                Err(e) => {
                    proof {
                        assert(sp_parse_params(toks, piter) == PRes::<
                            (Seq<(TypeV, Seq<char>)>, int),
                        >::PFail(e@));
                    }
                    return Err(e);
                },
            };
            let pname = match &self.current_token {
                Token::Identifier(s) => s.clone(),
                _ => {
                    return Err(ParseError::ExpectedIdentifier(self.peeked_token.clone()));
                },
            };
            if matches!(self.peeked_token, Token::Comma) {
                self.next_token();
            }
            params.push((ty, pname));
            proof {
                assert(params_view(params@) =~= params_view(params_before).push(
                    (spec_type_view(ty), pname@),
                ));
                assert(params_view(params_before).push((spec_type_view(ty), pname@))
                    =~= params_view(params_before) + seq![(spec_type_view(ty), pname@)]);
                match sp_parse_params(toks, self.pos@) {
                    PRes::POk(t) => {
                        assert(params_view(params_before) + (seq![(spec_type_view(ty), pname@)]
                            + t.0) =~= params_view(params@) + t.0);
                    },
                    PRes::PFail(_) => {},
                }
            }
        }
        self.next_token();
        self.next_token();
        let ghost k = self.pos@ - 2;
        let ghost psv = params_view(params@);
        proof {
            assert(params_view(params@) + Seq::<(TypeV, Seq<char>)>::empty() =~= psv);
            assert(sp_parse_params(toks, pos0) == PRes::<(Seq<(TypeV, Seq<char>)>, int)>::POk(
                (psv, k),
            ));
            assert(tok_at(toks, k + 1) == TokenV::RParen);
        }
        // a function definition starts its own scope: reset the symbol table
        self.locals = Vec::new();
        proof {
            assert(self.locs() =~= Seq::<LVarV>::empty());
        }
        let mut arguments: Vec<Expression> = Vec::new();
        let mut i: usize = 0;
        proof {
            assert(crate::ast::exprs_view(arguments@) =~= Seq::<ExprV>::empty());
            assert(psv.skip(0) =~= psv);
        }
        loop
            invariant
                0 <= i <= params.len(),
                psv == params_view(params@),
                psv.len() == params.len(),
                self.wf(),
                self.toks@ == toks,
                toks == old(self).toks@,
                pos0 == old(self).pos@,
                locs0 == old(self).locs(),
                pos0 <= self.pos@,
                self.pos@ == k + 2,
                sp_parse_params(toks, pos0) == PRes::<(Seq<(TypeV, Seq<char>)>, int)>::POk(
                    (psv, k),
                ),
                tok_at(toks, k + 1) == TokenV::RParen,
                match sp_alloc_params(psv.skip(i as int), self.locs()) {
                    Option::Some(t) => sp_alloc_params(psv, Seq::empty()) == Option::Some(
                        (crate::ast::exprs_view(arguments@) + t.0, t.1),
                    ),
                    Option::None => sp_alloc_params(psv, Seq::empty())
                        == Option::<(Seq<ExprV>, Seq<LVarV>)>::None,
                },
            ensures
                i == params.len(),
                self.wf(),
                self.toks@ == toks,
                self.pos@ == k + 2,
                match sp_alloc_params(psv.skip(i as int), self.locs()) {
                    Option::Some(t) => sp_alloc_params(psv, Seq::empty()) == Option::Some(
                        (crate::ast::exprs_view(arguments@) + t.0, t.1),
                    ),
                    Option::None => sp_alloc_params(psv, Seq::empty())
                        == Option::<(Seq<ExprV>, Seq<LVarV>)>::None,
                },
            decreases params.len() - i,
        {
            if i == params.len() {
                break ;
            }
            let ghost args_before = arguments@;
            let p = &params[i];
            let ty = p.0.clone();
            let pname = p.1.clone();
            proof {
                assert(psv.skip(i as int)[0] == psv[i as int]);
                assert(psv[i as int] == (spec_type_view(params@[i as int].0),
                params@[i as int].1@));
            }
            let e = match self.new_local_var(ty, pname) {
                Ok(e) => e,
                Err(er) => {
                    return Err(er);
                },
            };
            arguments.push(e);
            i = i + 1;
            proof {
                assert(psv.skip(i - 1).skip(1) =~= psv.skip(i as int));
                assert(crate::ast::exprs_view(arguments@) =~= crate::ast::exprs_view(
                    args_before,
                ).push(spec_expr_view(e)));
                assert(crate::ast::exprs_view(args_before).push(spec_expr_view(e))
                    =~= crate::ast::exprs_view(args_before) + seq![spec_expr_view(e)]);
                match sp_alloc_params(psv.skip(i as int), self.locs()) {
                    Option::Some(t) => {
                        assert(crate::ast::exprs_view(args_before) + (seq![spec_expr_view(e)]
                            + t.0) =~= crate::ast::exprs_view(arguments@) + t.0);
                    },
                    Option::None => {},
                }
            }
        }
        proof {
            assert(psv.skip(params@.len() as int) =~= Seq::<(TypeV, Seq<char>)>::empty());
            assert(crate::ast::exprs_view(arguments@) + Seq::<ExprV>::empty()
                =~= crate::ast::exprs_view(arguments@));
        }
        let body_stmt = match self.parse_block_statement() {
            Ok(s) => s,
            Err(e) => {
                return Err(e);
            },
        };
        let body = match body_stmt {
            Statement::Block(ss) => ss,
            _ => {
                proof {
                    assert(false);
                }
                return Err(ParseError::TooManyLocals);
            },
        };
        Ok(Statement::FunctionDefinition(FunctionDefinition::new(name, arguments, body)))
    }

    pub fn parse(&mut self) -> (r: Result<Program, ParseError>)
        requires
            old(self).wf(),
        ensures
            final(self).wf(),
            match sp_parse_program(old(self).toks@, old(self).pos@, old(self).locs()) {
                PRes::POk(t) => r matches Result::Ok(p) && p@ == (ProgramV { statements: t.0 })
                    && final(self).locs() == t.1,
                PRes::PFail(f) => r matches Result::Err(er) && er@ == f,
            },
        decreases rem(self.toks@, self.pos@), 12int,
    {
        let ghost toks = self.toks@;
        let ghost pos0 = self.pos@;
        let ghost locs0 = self.locs();
        let mut statements: Vec<Statement> = Vec::new();
        proof {
            assert(stmts_view(statements@) =~= Seq::<StmtV>::empty());
        }
        loop
            invariant
                self.wf(),
                self.toks@ == toks,
                toks == old(self).toks@,
                pos0 == old(self).pos@,
                locs0 == old(self).locs(),
                pos0 <= self.pos@,
                match sp_parse_program(toks, self.pos@, self.locs()) {
                    PRes::POk(t) => sp_parse_program(toks, pos0, locs0) == PRes::POk(
                        (stmts_view(statements@) + t.0, t.1),
                    ),
                    PRes::PFail(f) => sp_parse_program(toks, pos0, locs0) == PRes::<
                        (Seq<StmtV>, Seq<LVarV>),
                    >::PFail(f),
                },
            ensures
                self.wf(),
                self.toks@ == toks,
                self.current_token@ == TokenV::Eof,
                match sp_parse_program(toks, self.pos@, self.locs()) {
                    PRes::POk(t) => sp_parse_program(toks, pos0, locs0) == PRes::POk(
                        (stmts_view(statements@) + t.0, t.1),
                    ),
                    PRes::PFail(f) => sp_parse_program(toks, pos0, locs0) == PRes::<
                        (Seq<StmtV>, Seq<LVarV>),
                    >::PFail(f),
                },
            decreases rem(toks, self.pos@),
        {
            if matches!(self.current_token, Token::Eof) {
                break ;
            }
            let ghost piter = self.pos@;
            let ghost stmts_before = statements@;
            let ghost locs_iter = self.locs();
            let s = match self.parse_statement() {
                Ok(s) => s,
                Err(e) => {
                    proof {
                        assert(sp_parse_program(toks, piter, locs_iter) == PRes::<
                            (Seq<StmtV>, Seq<LVarV>),
                        >::PFail(e@));
                    }
                    return Err(e);
                },
            };
            statements.push(s);
            self.next_token();
            proof {
                assert(stmts_view(statements@) =~= stmts_view(stmts_before).push(
                    spec_stmt_view(s),
                ));
                assert(stmts_view(stmts_before).push(spec_stmt_view(s)) =~= stmts_view(
                    stmts_before,
                ) + seq![spec_stmt_view(s)]);
                match sp_parse_program(toks, self.pos@, self.locs()) {
                    PRes::POk(t) => {
                        assert(stmts_view(stmts_before) + (seq![spec_stmt_view(s)] + t.0)
                            =~= stmts_view(statements@) + t.0);
                    },
                    PRes::PFail(_) => {},
                }
            }
        }
        proof {
            assert(stmts_view(statements@) + Seq::<StmtV>::empty() =~= stmts_view(statements@));
        }
        Ok(Program::new(statements))
    }
}

pub open spec fn params_view(v: Seq<(Type, String)>) -> Seq<(TypeV, Seq<char>)> {
    Seq::new(
        v.len(),
        |i: int|
            if 0 <= i < v.len() {
                (spec_type_view(v[i].0), v[i].1@)
            } else {
                (TypeV::Primitive(TypeEnum::Void), Seq::empty())
            },
    )
}

/// Parse a whole source string: lex it and parse the token stream as a
/// program.
pub fn parse(input: String) -> (r: Result<Program, ParseError>)
    ensures
        match sp_parse(input@) {
            PRes::POk(p) => r matches Result::Ok(prog) && prog@ == p,
            PRes::PFail(e) => r matches Result::Err(er) && er@ == e,
        },
{
    let ghost chars = input@;
    let lexer = Lexer::new(input);
    let mut parser = Parser::new(lexer);
    parser.parse()
}

} // verus!
