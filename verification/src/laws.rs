use vstd::prelude::*;

use crate::ast::{BinaryExpressionV, BinaryOperator, ExprV, TypeV, spec_size_of};
use crate::lex::{
    digits_acc, int_of_digits, is_digit_ch, is_ws, lex_all, lemma_digit_run_is,
    scan_len, scan_tok, wrap_step,
};
use crate::parse::{
    sp_alloc_params,
    sp_new_local, sp_parse, sp_parse_expression, sp_parse_grouped, sp_parse_infix, tok_at,
    LVarV, PRes, prec_of,
};
use crate::token::TokenV;

verus! {

broadcast use vstd::seq::group_seq_axioms;

// ---------------------------------------------------------------------------
// Integer literals
// ---------------------------------------------------------------------------

pub open spec fn all_digits(s: Seq<char>) -> bool {
    forall|i: int| 0 <= i < s.len() ==> is_digit_ch(s[i])
}

/// The exact numeric value of a digit string, read left to right without
/// any wrapping.
pub open spec fn plain_acc(s: Seq<char>, a: int) -> int
    decreases s.len(),
{
    if s.len() == 0 {
        a
    } else {
        plain_acc(s.skip(1), a * 10 + (s[0] as u32 - 48))
    }
}

pub open spec fn digits_value(s: Seq<char>) -> int {
    plain_acc(s, 0)
}

proof fn lemma_plain_acc_monotone(s: Seq<char>, a: int)
    requires
        0 <= a,
        all_digits(s),
    ensures
        plain_acc(s, a) >= a,
    decreases s.len(),
{
    if s.len() > 0 {
        assert(is_digit_ch(s[0]));
        lemma_plain_acc_monotone(s.skip(1), a * 10 + (s[0] as u32 - 48));
    }
}

/// While the value stays below 2^32, the wrapping accumulator computes the
/// exact value.
proof fn lemma_digits_acc_exact(s: Seq<char>, a: int)
    requires
        0 <= a,
        all_digits(s),
        plain_acc(s, a) < 0x1_0000_0000,
    ensures
        digits_acc(s, a) == plain_acc(s, a),
    decreases s.len(),
{
    if s.len() > 0 {
        assert(is_digit_ch(s[0]));
        let a2 = a * 10 + (s[0] as u32 - 48);
        lemma_plain_acc_monotone(s.skip(1), a2);
        assert(a2 < 0x1_0000_0000);
        assert(wrap_step(a, s[0]) == a2);
        lemma_digits_acc_exact(s.skip(1), a2);
    }
}

/// A string of decimal digits lexes to the one integer token holding its
/// value, as long as that value fits in 32-bit signed range.
pub proof fn lemma_lex_integer(s: Seq<char>)
    requires
        s.len() >= 1,
        all_digits(s),
        digits_value(s) <= 0x7fff_ffff,
    ensures
        lex_all(s) == seq![TokenV::Integer(digits_value(s))],
{
    assert(is_digit_ch(s[0]));
    assert(!is_ws(s[0]));
    lemma_digit_run_is(s, s.len() as int);
    assert(scan_len(s) == s.len());
    assert(s.take(s.len() as int) =~= s);
    lemma_plain_acc_monotone(s, 0);
    lemma_digits_acc_exact(s, 0);
    assert(int_of_digits(s) == digits_value(s));
    assert(scan_tok(s) == TokenV::Integer(digits_value(s)));
    assert(s.skip(s.len() as int) =~= Seq::<char>::empty());
    assert(lex_all(Seq::<char>::empty()) =~= Seq::<TokenV>::empty());
    assert(lex_all(s) =~= seq![TokenV::Integer(digits_value(s))]);
}

/// Lexing a digit string and parsing it as an expression at lowest
/// precedence yields exactly the integer node with its value.
pub proof fn lemma_parse_integer_literal(s: Seq<char>, locs: Seq<LVarV>)
    requires
        s.len() >= 1,
        all_digits(s),
        digits_value(s) <= 0x7fff_ffff,
    ensures
        sp_parse_expression(lex_all(s), 0, 0, locs) == PRes::<(ExprV, int)>::POk(
            (ExprV::Integer(digits_value(s)), 0),
        ),
{
    lemma_lex_integer(s);
    let toks = lex_all(s);
    reveal_with_fuel(sp_parse_infix, 2);
    assert(tok_at(toks, 1) == TokenV::Eof);
    assert(sp_parse_expression(toks, 0, 0, locs) == PRes::<(ExprV, int)>::POk(
        (ExprV::Integer(digits_value(s)), 0),
    ));
}

// ---------------------------------------------------------------------------
// Parentheses
// ---------------------------------------------------------------------------

/// Wrapping an expression in one pair of parentheses parses to exactly the
/// AST of its contents: if the tokens after the opening parenthesis parse
/// to `e` up to position `p1`, a closing parenthesis follows, and the token
/// after it does not bind above `prec`, the whole parses to `e`.
pub proof fn lemma_paren_wrap(
    toks: Seq<TokenV>,
    pos: int,
    prec: int,
    locs: Seq<LVarV>,
    e: ExprV,
    p1: int,
)
    requires
        tok_at(toks, pos) == TokenV::LParen,
        p1 >= pos,
        sp_parse_expression(toks, pos + 1, 0, locs) == PRes::<(ExprV, int)>::POk((e, p1)),
        tok_at(toks, p1 + 1) == TokenV::RParen,
        prec_of(tok_at(toks, p1 + 2)) <= prec,
    ensures
        sp_parse_expression(toks, pos, prec, locs) == PRes::<(ExprV, int)>::POk((e, p1 + 1)),
{
    reveal_with_fuel(sp_parse_infix, 2);
    assert(sp_parse_grouped(toks, pos, locs) == PRes::<(ExprV, int)>::POk((e, p1 + 1)));
    assert(sp_parse_infix(toks, p1 + 1, e, prec, locs) == PRes::<(ExprV, int)>::POk(
        (e, p1 + 1),
    ));
}

/// Any number of matched parentheses around an expression parses to the
/// same AST: `n` opening parentheses, the expression's tokens, then `n`
/// closing ones.
pub proof fn lemma_paren_wrap_n(
    toks: Seq<TokenV>,
    pos: int,
    n: int,
    prec: int,
    locs: Seq<LVarV>,
    e: ExprV,
    p1: int,
)
    requires
        n >= 1,
        p1 >= pos + n,
        forall|k: int| pos <= k < pos + n ==> tok_at(toks, k) == TokenV::LParen,
        sp_parse_expression(toks, pos + n, 0, locs) == PRes::<(ExprV, int)>::POk((e, p1)),
        forall|k: int| p1 + 1 <= k <= p1 + n ==> tok_at(toks, k) == TokenV::RParen,
        prec_of(tok_at(toks, p1 + n + 1)) <= prec,
    ensures
        sp_parse_expression(toks, pos, prec, locs) == PRes::<(ExprV, int)>::POk((e, p1 + n)),
    decreases n,
{
    if n == 1 {
        lemma_paren_wrap(toks, pos, prec, locs, e, p1);
    } else {
        assert(prec_of(TokenV::RParen) == 0);
        assert(tok_at(toks, p1 + n) == TokenV::RParen);
        lemma_paren_wrap_n(toks, pos + 1, n - 1, 0, locs, e, p1);
        lemma_paren_wrap(toks, pos, prec, locs, e, p1 + n - 1);
    }
}

// ---------------------------------------------------------------------------
// Comparison normalisation
// ---------------------------------------------------------------------------

/// `a > b` parses to the very tree of `b < a`, and `a >= b` to that of
/// `b <= a`: the parser keeps no greater-than operators.
pub proof fn lemma_gt_normalised(a: int, b: int, locs: Seq<LVarV>)
    ensures
        sp_parse_expression(
            seq![TokenV::Integer(a), TokenV::Gt, TokenV::Integer(b)],
            0,
            0,
            locs,
        ) == sp_parse_expression(
            seq![TokenV::Integer(b), TokenV::Lt, TokenV::Integer(a)],
            0,
            0,
            locs,
        ),
        sp_parse_expression(
            seq![TokenV::Integer(a), TokenV::GtEq, TokenV::Integer(b)],
            0,
            0,
            locs,
        ) == sp_parse_expression(
            seq![TokenV::Integer(b), TokenV::LtEq, TokenV::Integer(a)],
            0,
            0,
            locs,
        ),
        sp_parse_expression(
            seq![TokenV::Integer(a), TokenV::Gt, TokenV::Integer(b)],
            0,
            0,
            locs,
        ) == PRes::<(ExprV, int)>::POk(
            (
                ExprV::Binary(
                    BinaryExpressionV {
                        lhs: Box::new(ExprV::Integer(b)),
                        op: BinaryOperator::Lt,
                        rhs: Box::new(ExprV::Integer(a)),
                    },
                ),
                2,
            ),
        ),
{
    reveal_with_fuel(sp_parse_expression, 3);
    reveal_with_fuel(sp_parse_infix, 4);
}

// ---------------------------------------------------------------------------
// Precedence
// ---------------------------------------------------------------------------

/// Multiplication binds above addition: `a * b + c * d` parses as
/// `(a*b) + (c*d)`, whatever the operand values.
pub proof fn lemma_product_binds_above_sum(a: int, b: int, c: int, d: int, locs: Seq<LVarV>)
    ensures
        sp_parse_expression(
            seq![
                TokenV::Integer(a),
                TokenV::Asterisk,
                TokenV::Integer(b),
                TokenV::Plus,
                TokenV::Integer(c),
                TokenV::Asterisk,
                TokenV::Integer(d),
            ],
            0,
            0,
            locs,
        ) == PRes::<(ExprV, int)>::POk(
            (
                ExprV::Binary(
                    BinaryExpressionV {
                        lhs: Box::new(
                            ExprV::Binary(
                                BinaryExpressionV {
                                    lhs: Box::new(ExprV::Integer(a)),
                                    op: BinaryOperator::Asterisk,
                                    rhs: Box::new(ExprV::Integer(b)),
                                },
                            ),
                        ),
                        op: BinaryOperator::Plus,
                        rhs: Box::new(
                            ExprV::Binary(
                                BinaryExpressionV {
                                    lhs: Box::new(ExprV::Integer(c)),
                                    op: BinaryOperator::Asterisk,
                                    rhs: Box::new(ExprV::Integer(d)),
                                },
                            ),
                        ),
                    },
                ),
                6,
            ),
        ),
{
    reveal_with_fuel(sp_parse_expression, 5);
    reveal_with_fuel(sp_parse_infix, 8);
    let toks = seq![
        TokenV::Integer(a),
        TokenV::Asterisk,
        TokenV::Integer(b),
        TokenV::Plus,
        TokenV::Integer(c),
        TokenV::Asterisk,
        TokenV::Integer(d),
    ];
    let ab = ExprV::Binary(
        BinaryExpressionV {
            lhs: Box::new(ExprV::Integer(a)),
            op: BinaryOperator::Asterisk,
            rhs: Box::new(ExprV::Integer(b)),
        },
    );
    let cd = ExprV::Binary(
        BinaryExpressionV {
            lhs: Box::new(ExprV::Integer(c)),
            op: BinaryOperator::Asterisk,
            rhs: Box::new(ExprV::Integer(d)),
        },
    );
    assert(tok_at(toks, 7) == TokenV::Eof);
    assert(sp_parse_expression(toks, 6, 5, locs) == PRes::<(ExprV, int)>::POk(
        (ExprV::Integer(d), 6),
    ));
    assert(sp_parse_expression(toks, 4, 4, locs) == PRes::<(ExprV, int)>::POk((cd, 6)));
    assert(sp_parse_expression(toks, 2, 5, locs) == PRes::<(ExprV, int)>::POk(
        (ExprV::Integer(b), 2),
    ));
    assert(sp_parse_infix(toks, 2, ab, 0, locs) == PRes::<(ExprV, int)>::POk(
        (
            ExprV::Binary(
                BinaryExpressionV {
                    lhs: Box::new(ab),
                    op: BinaryOperator::Plus,
                    rhs: Box::new(cd),
                },
            ),
            6,
        ),
    ));
}

// ---------------------------------------------------------------------------
// Offsets
// ---------------------------------------------------------------------------

/// Each new local sits directly above the previous one: its offset is the
/// previous top offset plus the size of its own type.
pub proof fn lemma_offset_allocation(locs: Seq<LVarV>, ty: TypeV, name: Seq<char>)
    requires
        sp_new_local(locs, ty, name) matches Option::Some(_),
        locs.len() > 0,
    ensures
        sp_new_local(locs, ty, name) matches Option::Some(t) && t.1.last().offset
            == locs.last().offset + spec_size_of(ty),
{
}

/// For two consecutive declarations of equally sized types, the later
/// offset also equals the earlier offset plus the size of the earlier
/// type. (With unequal sizes only the new type's size counts: `int` then
/// `char` gives offsets 8 and 9, not 8 and 16.)
pub proof fn lemma_offset_monotone(
    locs: Seq<LVarV>,
    ty1: TypeV,
    n1: Seq<char>,
    ty2: TypeV,
    n2: Seq<char>,
)
    requires
        spec_size_of(ty1) == spec_size_of(ty2),
        sp_new_local(locs, ty1, n1) matches Option::Some(_),
    ensures
        sp_new_local(locs, ty1, n1) matches Option::Some(t1) ==> (sp_new_local(t1.1, ty2, n2)
            matches Option::Some(t2) ==> t2.1.last().offset == t1.1.last().offset + spec_size_of(
            ty1,
        )),
{
}

pub open spec fn is_local_node(e: ExprV) -> bool {
    e matches ExprV::LocalVariable { .. }
}

pub open spec fn node_offset(e: ExprV) -> int {
    match e {
        ExprV::LocalVariable { offset, .. } => offset,
        _ => 0,
    }
}

pub open spec fn base_offset(locs: Seq<LVarV>) -> int {
    if locs.len() == 0 {
        0
    } else {
        locs.last().offset
    }
}

pub proof fn lemma_size_nonneg(t: TypeV)
    ensures
        spec_size_of(t) >= 0,
{
}

/// A function's parameter list allocates one local-variable node per
/// parameter, in source order, with offsets that never decrease.
pub proof fn lemma_param_allocation(ps: Seq<(TypeV, Seq<char>)>, locs: Seq<LVarV>)
    ensures
        sp_alloc_params(ps, locs) matches Option::Some(t) ==> {
            &&& forall|i: int| 0 <= i < t.0.len() ==> is_local_node(#[trigger] t.0[i])
            &&& forall|i: int|
                0 <= i < t.0.len() ==> node_offset(#[trigger] t.0[i]) >= base_offset(locs)
            &&& forall|i: int, j: int|
                0 <= i <= j < t.0.len() ==> node_offset(t.0[i]) <= node_offset(t.0[j])
        },
    decreases ps.len(),
{
    if ps.len() > 0 {
        match sp_new_local(locs, ps[0].0, ps[0].1) {
            Option::Some((lv, locs2)) => {
                lemma_size_nonneg(ps[0].0);
                lemma_param_allocation(ps.skip(1), locs2);
                match sp_alloc_params(ps.skip(1), locs2) {
                    Option::Some(rest) => {
                        let whole = seq![lv] + rest.0;
                        assert(whole[0] == lv);
                        assert(forall|i: int|
                            1 <= i < whole.len() ==> #[trigger] whole[i] == rest.0[i - 1]);
                        assert(base_offset(locs2) == node_offset(lv));
                        assert(node_offset(lv) >= base_offset(locs));
                    },
                    Option::None => {},
                }
            },
            Option::None => {},
        }
    }
}

// ---------------------------------------------------------------------------
// Determinism
// ---------------------------------------------------------------------------

/// Parsing is a function of the source text alone: equal inputs give equal
/// results, so repeated parses of one string yield structurally equal
/// trees.
pub proof fn lemma_parse_deterministic(s1: Seq<char>, s2: Seq<char>)
    requires
        s1 == s2,
    ensures
        sp_parse(s1) == sp_parse(s2),
{
}

} // verus!

