use vstd::prelude::*;

use crate::ast::{
    BinaryOperator, Expression, ExprV, FunctionDefinitionV, Program, ProgramV, Statement, StmtV,
    UnaryOperator, spec_expr_view, spec_stmt_view,
};

verus! {

broadcast use vstd::seq::group_seq_axioms, vstd::std_specs::vec::group_vec_axioms;

// ---------------------------------------------------------------------------
// Decimal rendering
// ---------------------------------------------------------------------------

pub open spec fn digit_char(d: int) -> char {
    if d == 0 {
        '0'
    } else if d == 1 {
        '1'
    } else if d == 2 {
        '2'
    } else if d == 3 {
        '3'
    } else if d == 4 {
        '4'
    } else if d == 5 {
        '5'
    } else if d == 6 {
        '6'
    } else if d == 7 {
        '7'
    } else if d == 8 {
        '8'
    } else {
        '9'
    }
}

/// Decimal digits of a nonnegative integer, most significant first.
pub open spec fn dec_str(n: int) -> Seq<char>
    decreases n,
{
    if n < 0 {
        Seq::empty()
    } else if n < 10 {
        seq![digit_char(n)]
    } else {
        dec_str(n / 10).push(digit_char(n % 10))
    }
}

/// Decimal rendering of a signed integer: a minus sign for negatives, then
/// the digits.
pub open spec fn dec_str_i64(n: int) -> Seq<char> {
    if n < 0 {
        seq!['-'] + dec_str(-n)
    } else {
        dec_str(n)
    }
}

/// Relies on std's `u64::to_string`: the decimal digits of the value,
/// without sign or leading zeros.
#[verifier::external_body]
fn u64_str(n: u64) -> (r: String)
    ensures
        r@ == dec_str(n as int),
{
    n.to_string()
}

/// Relies on std's `i64::to_string`: a minus sign for negatives, then the
/// decimal digits of the absolute value.
#[verifier::external_body]
fn i64_str(n: i64) -> (r: String)
    ensures
        r@ == dec_str_i64(n as int),
{
    n.to_string()
}

// ---------------------------------------------------------------------------
// The emitted text, mathematically
// ---------------------------------------------------------------------------

/// The System-V integer argument registers, in order.
pub open spec fn reg_arg(i: int) -> Seq<char> {
    if i == 0 {
        "rdi"@
    } else if i == 1 {
        "rsi"@
    } else if i == 2 {
        "rdx"@
    } else if i == 3 {
        "rcx"@
    } else if i == 4 {
        "r8"@
    } else {
        "r9"@
    }
}

/// Address of an lvalue pushed on the stack. Only a local variable is an
/// lvalue; anything else emits nothing.
pub open spec fn sp_lval_lines(e: ExprV) -> Seq<Seq<char>> {
    match e {
        ExprV::LocalVariable { offset, .. } => seq![
            "  mov rax, rbp"@,
            "  sub rax, "@ + dec_str(offset),
            "  push rax"@,
        ],
        _ => Seq::empty(),
    }
}

/// The instructions that combine `rax` (left) and `rdi` (right) for one
/// binary operator, leaving the result in `rax`. Assignment is handled
/// separately.
pub open spec fn sp_binop_lines(op: BinaryOperator) -> Seq<Seq<char>> {
    match op {
        BinaryOperator::Assignment => Seq::empty(),
        BinaryOperator::Plus => seq!["  add rax, rdi"@],
        BinaryOperator::Minus => seq!["  sub rax, rdi"@],
        BinaryOperator::Asterisk => seq!["  imul rax, rdi"@],
        BinaryOperator::Slash => seq!["  cqo"@, "  idiv rdi"@],
        BinaryOperator::Lt => seq!["  cmp rax, rdi"@, "  setl al"@, "  movzb rax, al"@],
        BinaryOperator::LtEq => seq!["  cmp rax, rdi"@, "  setle al"@, "  movzb rax, al"@],
        BinaryOperator::Eq => seq!["  cmp rax, rdi"@, "  sete al"@, "  movzb rax, al"@],
        BinaryOperator::NotEq => seq!["  cmp rax, rdi"@, "  setne al"@, "  movzb rax, al"@],
    }
}

/// Code that leaves the value of an expression on top of the stack.
pub open spec fn sp_gen_expr(e: ExprV) -> Seq<Seq<char>>
    decreases e,
{
    match e {
        ExprV::Integer(n) => seq!["  push "@ + dec_str_i64(n)],
        ExprV::LocalVariable { .. } => sp_lval_lines(e) + seq![
            "  pop rax"@,
            "  mov rax, [rax]"@,
            "  push rax"@,
        ],
        ExprV::Unary(u) => match u.op {
            UnaryOperator::Minus => sp_gen_expr(*u.expr) + seq![
                "  pop rax"@,
                "  neg rax"@,
                "  push rax"@,
            ],
            UnaryOperator::Dereference => sp_gen_expr(*u.expr) + seq![
                "  pop rax"@,
                "  mov rax, [rax]"@,
                "  push rax"@,
            ],
            UnaryOperator::Reference => sp_lval_lines(*u.expr),
        },
        ExprV::Binary(b) => if b.op == BinaryOperator::Assignment {
            sp_lval_lines(*b.lhs) + sp_gen_expr(*b.rhs) + seq![
                "  pop rdi"@,
                "  pop rax"@,
                "  mov [rax], rdi"@,
                "  push rdi"@,
            ]
        } else {
            sp_gen_expr(*b.lhs) + sp_gen_expr(*b.rhs) + seq!["  pop rdi"@, "  pop rax"@]
                + sp_binop_lines(b.op) + seq!["  push rax"@]
        },
        ExprV::Call(c) => sp_gen_args(c.arguments, 0) + sp_pop_args(c.arguments.len() as int)
            + seq!["  call "@ + c.callee_name, "  push rax"@],
    }
}

/// Code of the call arguments, each pushed in source order.
pub open spec fn sp_gen_args(args: Seq<ExprV>, i: int) -> Seq<Seq<char>>
    decreases args, args.len() - i,
{
    if 0 <= i < args.len() {
        sp_gen_expr(args[i]) + sp_gen_args(args, i + 1)
    } else {
        Seq::empty()
    }
}

/// Pop `n` pushed arguments into the argument registers, last argument
/// first, so the first argument ends in `rdi`. Arguments beyond the sixth
/// are out of scope and stay on the stack.
pub open spec fn sp_pop_args(n: int) -> Seq<Seq<char>>
    decreases n,
{
    if n <= 0 {
        Seq::empty()
    } else {
        (if n <= 6 {
            seq!["  pop "@ + reg_arg(n - 1)]
        } else {
            Seq::empty()
        }) + sp_pop_args(n - 1)
    }
}

/// The label counter; it never wraps, it saturates (no output of realistic
/// size gets near the bound).
pub open spec fn bump(c: int) -> int {
    if c >= u64::MAX {
        c
    } else {
        c + 1
    }
}

pub open spec fn max2(a: int, b: int) -> int {
    if a >= b {
        a
    } else {
        b
    }
}

/// The largest stack offset a statement assigns to.
pub open spec fn sp_stmt_max_off(s: StmtV) -> int
    decreases s,
{
    match s {
        StmtV::InitDeclaration(d) => d.offset,
        StmtV::Block(ss) => sp_stmts_max_off(ss, 0),
        StmtV::If(i) => max2(
            sp_stmt_max_off(*i.consequence),
            match i.alternative {
                Option::Some(a) => sp_stmt_max_off(*a),
                Option::None => 0,
            },
        ),
        StmtV::While(w) => sp_stmt_max_off(*w.body),
        StmtV::For(f) => max2(
            max2(
                match f.init {
                    Option::Some(s0) => sp_stmt_max_off(*s0),
                    Option::None => 0,
                },
                match f.post {
                    Option::Some(p) => sp_stmt_max_off(*p),
                    Option::None => 0,
                },
            ),
            sp_stmt_max_off(*f.body),
        ),
        _ => 0,
    }
}

pub open spec fn sp_stmts_max_off(ss: Seq<StmtV>, i: int) -> int
    decreases ss, ss.len() - i,
{
    if 0 <= i < ss.len() {
        max2(sp_stmt_max_off(ss[i]), sp_stmts_max_off(ss, i + 1))
    } else {
        0
    }
}

/// The largest offset among a function's parameters.
pub open spec fn sp_args_max_off(args: Seq<ExprV>, i: int) -> int
    decreases args.len() - i,
{
    if 0 <= i < args.len() {
        max2(
            match args[i] {
                ExprV::LocalVariable { offset, .. } => offset,
                _ => 0,
            },
            sp_args_max_off(args, i + 1),
        )
    } else {
        0
    }
}

pub open spec fn sp_fn_max_off(f: FunctionDefinitionV) -> int {
    max2(sp_args_max_off(f.arguments, 0), sp_stmts_max_off(f.body, 0))
}

/// Frame sizes are rounded up to a multiple of 16; near the top of `usize`
/// the rounding is skipped rather than overflowing.
pub open spec fn round16(x: int) -> int {
    if x > usize::MAX - 15 {
        x
    } else {
        x + ((16 - (x % 16)) % 16)
    }
}

/// Copy each parameter from its register into its stack slot.
pub open spec fn sp_param_moves(args: Seq<ExprV>, i: int) -> Seq<Seq<char>>
    decreases args.len() - i,
{
    if 0 <= i < args.len() && i < 6 {
        (match args[i] {
            ExprV::LocalVariable { offset, .. } => seq![
                "  mov ["@ + "rbp-"@ + dec_str(offset) + "], "@ + reg_arg(i),
            ],
            _ => Seq::empty(),
        }) + sp_param_moves(args, i + 1)
    } else {
        Seq::empty()
    }
}

/// Code of one statement, given the next free label number; returns the
/// lines and the label number left for what follows.
pub open spec fn sp_gen_stmt(s: StmtV, c: int) -> (Seq<Seq<char>>, int)
    decreases s,
{
    match s {
        StmtV::Expression(e) => (sp_gen_expr(e) + seq!["  pop rax"@], c),
        StmtV::Return(e) => (
            sp_gen_expr(e) + seq!["  pop rax"@, "  mov rsp, rbp"@, "  pop rbp"@, "  ret"@],
            c,
        ),
        StmtV::Block(ss) => sp_gen_stmts(ss, 0, c),
        StmtV::If(i) => {
            let n = c;
            let r1 = sp_gen_stmt(*i.consequence, bump(c));
            match i.alternative {
                Option::Some(alt) => {
                    let r2 = sp_gen_stmt(*alt, r1.1);
                    (
                        sp_gen_expr(i.condition) + seq![
                            "  pop rax"@,
                            "  cmp rax, 0"@,
                            "  je .Lelse_"@ + dec_str(n),
                        ] + r1.0 + seq![
                            "  jmp .Lend_"@ + dec_str(n),
                            ".Lelse_"@ + dec_str(n) + ":"@,
                        ] + r2.0 + seq![".Lend_"@ + dec_str(n) + ":"@],
                        r2.1,
                    )
                },
                Option::None => (
                    sp_gen_expr(i.condition) + seq![
                        "  pop rax"@,
                        "  cmp rax, 0"@,
                        "  je .Lelse_"@ + dec_str(n),
                    ] + r1.0 + seq![
                        "  jmp .Lend_"@ + dec_str(n),
                        ".Lelse_"@ + dec_str(n) + ":"@,
                        ".Lend_"@ + dec_str(n) + ":"@,
                    ],
                    r1.1,
                ),
            }
        },
        StmtV::While(w) => {
            let n = c;
            let r = sp_gen_stmt(*w.body, bump(c));
            (
                seq![".Lbegin_"@ + dec_str(n) + ":"@] + sp_gen_expr(w.condition) + seq![
                    "  pop rax"@,
                    "  cmp rax, 0"@,
                    "  je .Lend_"@ + dec_str(n),
                ] + r.0 + seq![
                    "  jmp .Lbegin_"@ + dec_str(n),
                    ".Lend_"@ + dec_str(n) + ":"@,
                ],
                r.1,
            )
        },
        StmtV::For(f) => {
            let n = c;
            let ri = match f.init {
                Option::Some(s0) => sp_gen_stmt(*s0, bump(c)),
                Option::None => (Seq::empty(), bump(c)),
            };
            let condl = match f.condition {
                Option::Some(e) => sp_gen_expr(e) + seq![
                    "  pop rax"@,
                    "  cmp rax, 0"@,
                    "  je .Lend_"@ + dec_str(n),
                ],
                Option::None => Seq::empty(),
            };
            let rb = sp_gen_stmt(*f.body, ri.1);
            let rp = match f.post {
                Option::Some(p) => sp_gen_stmt(*p, rb.1),
                Option::None => (Seq::empty(), rb.1),
            };
            (
                ri.0 + seq![".Lbegin_"@ + dec_str(n) + ":"@] + condl + rb.0 + rp.0 + seq![
                    "  jmp .Lbegin_"@ + dec_str(n),
                    ".Lend_"@ + dec_str(n) + ":"@,
                ],
                rp.1,
            )
        },
        StmtV::InitDeclaration(d) => match d.init {
            Option::Some(e) => (
                seq!["  mov rax, rbp"@, "  sub rax, "@ + dec_str(d.offset), "  push rax"@]
                    + sp_gen_expr(e) + seq![
                    "  pop rdi"@,
                    "  pop rax"@,
                    "  mov [rax], rdi"@,
                    "  push rdi"@,
                    "  pop rax"@,
                ],
                c,
            ),
            Option::None => (Seq::empty(), c),
        },
        StmtV::FunctionDefinition(f) => {
            let frame = round16(sp_fn_max_off(f));
            let rb = sp_gen_stmts(f.body, 0, c);
            (
                seq![
                    f.name + ":"@,
                    "  push rbp"@,
                    "  mov rbp, rsp"@,
                    "  sub rsp, "@ + dec_str(frame),
                ] + sp_param_moves(f.arguments, 0) + rb.0 + seq![
                    "  mov rsp, rbp"@,
                    "  pop rbp"@,
                    "  ret"@,
                ],
                rb.1,
            )
        },
    }
}

pub open spec fn sp_gen_stmts(ss: Seq<StmtV>, i: int, c: int) -> (Seq<Seq<char>>, int)
    decreases ss, ss.len() - i,
{
    if 0 <= i < ss.len() {
        let r = sp_gen_stmt(ss[i], c);
        let rest = sp_gen_stmts(ss, i + 1, r.1);
        (r.0 + rest.0, rest.1)
    } else {
        (Seq::empty(), c)
    }
}

/// What `gen` emits for a program: its statements in order, labels counted
/// from zero.
pub open spec fn sp_gen_program(p: ProgramV) -> Seq<Seq<char>> {
    sp_gen_stmts(p.statements, 0, 0).0
}

// ---------------------------------------------------------------------------
// The executable code generator
// ---------------------------------------------------------------------------

pub open spec fn lines_view(v: Seq<String>) -> Seq<Seq<char>> {
    Seq::new(
        v.len(),
        |i: int|
            if 0 <= i < v.len() {
                v[i]@
            } else {
                Seq::empty()
            },
    )
}

/// Walks the tree and collects assembly lines; `counter` numbers the labels.
pub struct Codegen {
    pub lines: Vec<String>,
    pub counter: u64,
}

impl Codegen {
    fn emit(&mut self, s: String)
        ensures
            final(self).counter == old(self).counter,
            lines_view(final(self).lines@) == lines_view(old(self).lines@) + seq![s@],
    {
        self.lines.push(s);
        proof {
            assert(lines_view(self.lines@) =~= lines_view(old(self).lines@) + seq![
                self.lines@.last()@,
            ]);
        }
    }

    /// Hand out the next label number; the counter saturates instead of
    /// wrapping.
    fn next_label(&mut self) -> (n: u64)
        ensures
            n == old(self).counter,
            final(self).counter as int == bump(old(self).counter as int),
            final(self).lines == old(self).lines,
    {
        let n = self.counter;
        if self.counter < u64::MAX {
            self.counter = self.counter + 1;
        }
        n
    }

    fn reg_name(&self, i: usize) -> (r: String)
        ensures
            r@ == reg_arg(i as int),
    {
        if i == 0 {
            String::from_str("rdi")
        } else if i == 1 {
            String::from_str("rsi")
        } else if i == 2 {
            String::from_str("rdx")
        } else if i == 3 {
            String::from_str("rcx")
        } else if i == 4 {
            String::from_str("r8")
        } else {
            String::from_str("r9")
        }
    }

    /// Push the address of an lvalue; a non-lvalue emits nothing.
    fn gen_lval(&mut self, e: &Expression)
        ensures
            final(self).counter == old(self).counter,
            lines_view(final(self).lines@) == lines_view(old(self).lines@) + sp_lval_lines(
                spec_expr_view(*e),
            ),
    {
        match e {
            Expression::LocalVariable { offset, .. } => {
                self.emit(String::from_str("  mov rax, rbp"));
                self.emit(String::from_str("  sub rax, ").concat(u64_str(*offset as u64).as_str()));
                self.emit(String::from_str("  push rax"));
                proof {
                    assert(lines_view(self.lines@) =~= lines_view(old(self).lines@)
                        + sp_lval_lines(spec_expr_view(*e)));
                }
            },
            _ => {
                proof {
                    assert(lines_view(self.lines@) =~= lines_view(old(self).lines@) + Seq::<
                        Seq<char>,
                    >::empty());
                }
            },
        }
    }

    fn emit_binop(&mut self, op: BinaryOperator)
        requires
            op != BinaryOperator::Assignment,
        ensures
            final(self).counter == old(self).counter,
            lines_view(final(self).lines@) == lines_view(old(self).lines@) + sp_binop_lines(op),
    {
        match op {
            BinaryOperator::Assignment => {},
            BinaryOperator::Plus => self.emit(String::from_str("  add rax, rdi")),
            BinaryOperator::Minus => self.emit(String::from_str("  sub rax, rdi")),
            BinaryOperator::Asterisk => self.emit(String::from_str("  imul rax, rdi")),
            BinaryOperator::Slash => {
                self.emit(String::from_str("  cqo"));
                self.emit(String::from_str("  idiv rdi"));
            },
            BinaryOperator::Lt => {
                self.emit(String::from_str("  cmp rax, rdi"));
                self.emit(String::from_str("  setl al"));
                self.emit(String::from_str("  movzb rax, al"));
            },
            BinaryOperator::LtEq => {
                self.emit(String::from_str("  cmp rax, rdi"));
                self.emit(String::from_str("  setle al"));
                self.emit(String::from_str("  movzb rax, al"));
            },
            BinaryOperator::Eq => {
                self.emit(String::from_str("  cmp rax, rdi"));
                self.emit(String::from_str("  sete al"));
                self.emit(String::from_str("  movzb rax, al"));
            },
            BinaryOperator::NotEq => {
                self.emit(String::from_str("  cmp rax, rdi"));
                self.emit(String::from_str("  setne al"));
                self.emit(String::from_str("  movzb rax, al"));
            },
        }
        proof {
            assert(lines_view(self.lines@) =~= lines_view(old(self).lines@) + sp_binop_lines(op));
        }
    }

    /// Emit every call argument in source order.
    fn gen_args(&mut self, args: &Vec<Expression>)
        ensures
            final(self).counter == old(self).counter,
            lines_view(final(self).lines@) == lines_view(old(self).lines@) + sp_gen_args(
                crate::ast::exprs_view(args@),
                0,
            ),
        decreases *args,
    {
        let ghost l0 = lines_view(self.lines@);
        let ghost argsv = crate::ast::exprs_view(args@);
        let mut i: usize = 0;
        let ghost mut seg: Seq<Seq<char>> = Seq::empty();
        proof {
            assert(l0 + seg =~= l0);
        }
        loop
            invariant
                0 <= i <= args.len(),
                argsv.len() == args.len(),
                argsv == crate::ast::exprs_view(args@),
                l0 == lines_view(old(self).lines@),
                self.counter == old(self).counter,
                lines_view(self.lines@) == l0 + seg,
                sp_gen_args(argsv, 0) == seg + sp_gen_args(argsv, i as int),
            ensures
                self.counter == old(self).counter,
                lines_view(self.lines@) == l0 + sp_gen_args(argsv, 0),
            decreases args.len() - i,
        {
            if i == args.len() {
                proof {
                    assert(sp_gen_args(argsv, i as int) =~= Seq::<Seq<char>>::empty());
                    assert(seg + sp_gen_args(argsv, i as int) =~= seg);
                    assert(lines_view(self.lines@) =~= l0 + sp_gen_args(argsv, 0));
                }
                break ;
            }
            let ghost segb = seg;
            proof {
                assert(argsv[i as int] == spec_expr_view(args@[i as int]));
            }
            self.gen_expr(&args[i]);
            proof {
                seg = segb + sp_gen_expr(argsv[i as int]);
                assert(lines_view(self.lines@) =~= l0 + seg);
                assert(segb + (sp_gen_expr(argsv[i as int]) + sp_gen_args(argsv, i + 1)) =~= seg
                    + sp_gen_args(argsv, i + 1));
            }
            i = i + 1;
        }
    }

    /// Emit code that leaves the value of `e` on top of the stack.
    fn gen_expr(&mut self, e: &Expression)
        ensures
            final(self).counter == old(self).counter,
            lines_view(final(self).lines@) == lines_view(old(self).lines@) + sp_gen_expr(
                spec_expr_view(*e),
            ),
        decreases *e,
    {
        let ghost l0 = lines_view(self.lines@);
        match e {
            Expression::Integer(n) => {
                self.emit(String::from_str("  push ").concat(i64_str(*n as i64).as_str()));
                proof {
                    assert(lines_view(self.lines@) =~= l0 + sp_gen_expr(spec_expr_view(*e)));
                }
            },
            Expression::LocalVariable { .. } => {
                self.gen_lval(e);
                self.emit(String::from_str("  pop rax"));
                self.emit(String::from_str("  mov rax, [rax]"));
                self.emit(String::from_str("  push rax"));
                proof {
                    assert(lines_view(self.lines@) =~= l0 + sp_gen_expr(spec_expr_view(*e)));
                }
            },
            Expression::Unary(u) => {
                match u.op {
                    UnaryOperator::Minus => {
                        self.gen_expr(&u.expr);
                        self.emit(String::from_str("  pop rax"));
                        self.emit(String::from_str("  neg rax"));
                        self.emit(String::from_str("  push rax"));
                    },
                    UnaryOperator::Dereference => {
                        self.gen_expr(&u.expr);
                        self.emit(String::from_str("  pop rax"));
                        self.emit(String::from_str("  mov rax, [rax]"));
                        self.emit(String::from_str("  push rax"));
                    },
                    UnaryOperator::Reference => {
                        self.gen_lval(&u.expr);
                    },
                }
                proof {
                    assert(lines_view(self.lines@) =~= l0 + sp_gen_expr(spec_expr_view(*e)));
                }
            },
            Expression::Binary(b) => {
                if matches!(b.op, BinaryOperator::Assignment) {
                    self.gen_lval(&b.lhs);
                    self.gen_expr(&b.rhs);
                    self.emit(String::from_str("  pop rdi"));
                    self.emit(String::from_str("  pop rax"));
                    self.emit(String::from_str("  mov [rax], rdi"));
                    self.emit(String::from_str("  push rdi"));
                } else {
                    self.gen_expr(&b.lhs);
                    self.gen_expr(&b.rhs);
                    self.emit(String::from_str("  pop rdi"));
                    self.emit(String::from_str("  pop rax"));
                    self.emit_binop(b.op);
                    self.emit(String::from_str("  push rax"));
                }
                proof {
                    assert(lines_view(self.lines@) =~= l0 + sp_gen_expr(spec_expr_view(*e)));
                }
            },
            Expression::Call(c) => {
                self.gen_args(&c.arguments);
                // pop the pushed arguments into the argument registers
                let ghost l1 = lines_view(self.lines@);
                let mut k: usize = c.arguments.len();
                let ghost mut seg2: Seq<Seq<char>> = Seq::empty();
                proof {
                    assert(l1 + seg2 =~= l1);
                }
                loop
                    invariant
                        0 <= k <= c.arguments.len(),
                        self.counter == old(self).counter,
                        lines_view(self.lines@) == l1 + seg2,
                        sp_pop_args(c.arguments@.len() as int) == seg2 + sp_pop_args(k as int),
                    ensures
                        self.counter == old(self).counter,
                        lines_view(self.lines@) == l1 + sp_pop_args(c.arguments@.len() as int),
                    decreases k,
                {
                    if k == 0 {
                        proof {
                            assert(sp_pop_args(0) =~= Seq::<Seq<char>>::empty());
                            assert(seg2 + sp_pop_args(0) =~= seg2);
                        }
                        break ;
                    }
                    let ghost segb = seg2;
                    if k <= 6 {
                        let r = self.reg_name(k - 1);
                        self.emit(String::from_str("  pop ").concat(r.as_str()));
                        proof {
                            seg2 = segb + seq!["  pop "@ + reg_arg(k - 1)];
                        }
                    } else {
                        proof {
                            seg2 = segb + Seq::<Seq<char>>::empty();
                            assert(lines_view(self.lines@) =~= l1 + seg2);
                        }
                    }
                    proof {
                        assert(segb + ((if k <= 6 {
                            seq!["  pop "@ + reg_arg(k - 1)]
                        } else {
                            Seq::<Seq<char>>::empty()
                        }) + sp_pop_args(k - 1)) =~= seg2 + sp_pop_args(k - 1));
                    }
                    k = k - 1;
                }
                self.emit(String::from_str("  call ").concat(c.callee_name.as_str()));
                self.emit(String::from_str("  push rax"));
                proof {
                    assert(lines_view(self.lines@) =~= l0 + sp_gen_expr(spec_expr_view(*e)));
                }
            },
        }
    }

    /// Emit one statement; label numbers are drawn from the counter.
    #[verifier::rlimit(100)]
    fn gen_stmt(&mut self, s: &Statement)
        ensures
            ({
                let r = sp_gen_stmt(spec_stmt_view(*s), old(self).counter as int);
                lines_view(final(self).lines@) == lines_view(old(self).lines@) + r.0 && final(self).counter as int == r.1
            }),
        decreases *s,
    {
        let ghost l0 = lines_view(self.lines@);
        match s {
            Statement::Expression(e) => {
                self.gen_expr(e);
                self.emit(String::from_str("  pop rax"));
                proof {
                    assert(lines_view(self.lines@) =~= l0 + sp_gen_stmt(
                        spec_stmt_view(*s),
                        old(self).counter as int,
                    ).0);
                }
            },
            Statement::Return(e) => {
                self.gen_expr(e);
                self.emit(String::from_str("  pop rax"));
                self.emit(String::from_str("  mov rsp, rbp"));
                self.emit(String::from_str("  pop rbp"));
                self.emit(String::from_str("  ret"));
                proof {
                    assert(lines_view(self.lines@) =~= l0 + sp_gen_stmt(
                        spec_stmt_view(*s),
                        old(self).counter as int,
                    ).0);
                }
            },
            Statement::Block(ss) => {
                self.gen_stmts(ss);
            },
            Statement::If(i) => {
                let n = self.next_label();
                let nstr = u64_str(n);
                self.gen_expr(&i.condition);
                self.emit(String::from_str("  pop rax"));
                self.emit(String::from_str("  cmp rax, 0"));
                self.emit(String::from_str("  je .Lelse_").concat(nstr.as_str()));
                self.gen_stmt(&i.consequence);
                self.emit(String::from_str("  jmp .Lend_").concat(nstr.as_str()));
                self.emit(String::from_str(".Lelse_").concat(nstr.as_str()).concat(":"));
                match &i.alternative {
                    Some(a) => self.gen_stmt(a),
                    None => {},
                }
                self.emit(String::from_str(".Lend_").concat(nstr.as_str()).concat(":"));
                proof {
                    assert(lines_view(self.lines@) =~= l0 + sp_gen_stmt(
                        spec_stmt_view(*s),
                        old(self).counter as int,
                    ).0);
                }
            },
            Statement::While(w) => {
                let n = self.next_label();
                let nstr = u64_str(n);
                self.emit(String::from_str(".Lbegin_").concat(nstr.as_str()).concat(":"));
                self.gen_expr(&w.condition);
                self.emit(String::from_str("  pop rax"));
                self.emit(String::from_str("  cmp rax, 0"));
                self.emit(String::from_str("  je .Lend_").concat(nstr.as_str()));
                self.gen_stmt(&w.body);
                self.emit(String::from_str("  jmp .Lbegin_").concat(nstr.as_str()));
                self.emit(String::from_str(".Lend_").concat(nstr.as_str()).concat(":"));
                proof {
                    assert(lines_view(self.lines@) =~= l0 + sp_gen_stmt(
                        spec_stmt_view(*s),
                        old(self).counter as int,
                    ).0);
                }
            },
            Statement::For(f) => {
                let n = self.next_label();
                let nstr = u64_str(n);
                match &f.init {
                    Some(s0) => self.gen_stmt(s0),
                    None => {},
                }
                self.emit(String::from_str(".Lbegin_").concat(nstr.as_str()).concat(":"));
                match &f.condition {
                    Some(e) => {
                        self.gen_expr(e);
                        self.emit(String::from_str("  pop rax"));
                        self.emit(String::from_str("  cmp rax, 0"));
                        self.emit(String::from_str("  je .Lend_").concat(nstr.as_str()));
                    },
                    None => {},
                }
                self.gen_stmt(&f.body);
                match &f.post {
                    Some(p) => self.gen_stmt(p),
                    None => {},
                }
                self.emit(String::from_str("  jmp .Lbegin_").concat(nstr.as_str()));
                self.emit(String::from_str(".Lend_").concat(nstr.as_str()).concat(":"));
                proof {
                    assert(lines_view(self.lines@) =~= l0 + sp_gen_stmt(
                        spec_stmt_view(*s),
                        old(self).counter as int,
                    ).0);
                }
            },
            Statement::InitDeclaration(d) => {
                match &d.init {
                    Some(e) => {
                        self.emit(String::from_str("  mov rax, rbp"));
                        self.emit(
                            String::from_str("  sub rax, ").concat(
                                u64_str(d.offset as u64).as_str(),
                            ),
                        );
                        self.emit(String::from_str("  push rax"));
                        self.gen_expr(e);
                        self.emit(String::from_str("  pop rdi"));
                        self.emit(String::from_str("  pop rax"));
                        self.emit(String::from_str("  mov [rax], rdi"));
                        self.emit(String::from_str("  push rdi"));
                        self.emit(String::from_str("  pop rax"));
                    },
                    None => {},
                }
                proof {
                    assert(lines_view(self.lines@) =~= l0 + sp_gen_stmt(
                        spec_stmt_view(*s),
                        old(self).counter as int,
                    ).0);
                }
            },
            Statement::FunctionDefinition(f) => {
                let m1 = args_max_off(&f.arguments);
                let m2 = stmts_max_off(&f.body);
                let m = if m1 >= m2 {
                    m1
                } else {
                    m2
                };
                let frame = if m > usize::MAX - 15 {
                    m
                } else {
                    m + (16 - m % 16) % 16
                };
                self.emit(f.name.clone().concat(":"));
                self.emit(String::from_str("  push rbp"));
                self.emit(String::from_str("  mov rbp, rsp"));
                self.emit(String::from_str("  sub rsp, ").concat(u64_str(frame as u64).as_str()));
                self.param_moves(&f.arguments);
                self.gen_stmts(&f.body);
                self.emit(String::from_str("  mov rsp, rbp"));
                self.emit(String::from_str("  pop rbp"));
                self.emit(String::from_str("  ret"));
                proof {
                    assert(lines_view(self.lines@) =~= l0 + sp_gen_stmt(
                        spec_stmt_view(*s),
                        old(self).counter as int,
                    ).0);
                }
            },
        }
    }

    /// Copy each of the first six parameters from its register to its slot.
    fn param_moves(&mut self, args: &Vec<Expression>)
        ensures
            final(self).counter == old(self).counter,
            lines_view(final(self).lines@) == lines_view(old(self).lines@) + sp_param_moves(
                crate::ast::exprs_view(args@),
                0,
            ),
    {
        let ghost l0 = lines_view(self.lines@);
        let ghost argsv = crate::ast::exprs_view(args@);
        let mut i: usize = 0;
        let ghost mut seg: Seq<Seq<char>> = Seq::empty();
        proof {
            assert(l0 + seg =~= l0);
        }
        loop
            invariant
                0 <= i <= args.len(),
                argsv.len() == args.len(),
                argsv == crate::ast::exprs_view(args@),
                l0 == lines_view(old(self).lines@),
                self.counter == old(self).counter,
                lines_view(self.lines@) == l0 + seg,
                sp_param_moves(argsv, 0) == seg + sp_param_moves(argsv, i as int),
            ensures
                self.counter == old(self).counter,
                lines_view(self.lines@) == l0 + sp_param_moves(argsv, 0),
            decreases args.len() - i,
        {
            if i == args.len() || i >= 6 {
                proof {
                    assert(sp_param_moves(argsv, i as int) =~= Seq::<Seq<char>>::empty());
                    assert(seg + sp_param_moves(argsv, i as int) =~= seg);
                }
                break ;
            }
            let ghost segb = seg;
            proof {
                assert(argsv[i as int] == spec_expr_view(args@[i as int]));
            }
            match &args[i] {
                Expression::LocalVariable { offset, .. } => {
                    let r = self.reg_name(i);
                    self.emit(
                        String::from_str("  mov [").concat("rbp-").concat(
                            u64_str(*offset as u64).as_str(),
                        ).concat("], ").concat(r.as_str()),
                    );
                    proof {
                        seg = segb + seq![
                            "  mov ["@ + "rbp-"@ + dec_str(*offset as int) + "], "@ + reg_arg(
                                i as int,
                            ),
                        ];
                        assert(lines_view(self.lines@) =~= l0 + seg);
                    }
                },
                _ => {
                    proof {
                        seg = segb + Seq::<Seq<char>>::empty();
                        assert(lines_view(self.lines@) =~= l0 + seg);
                    }
                },
            }
            proof {
                match argsv[i as int] {
                    ExprV::LocalVariable { offset, .. } => {
                        assert(segb + (seq![
                            "  mov ["@ + "rbp-"@ + dec_str(offset) + "], "@ + reg_arg(i as int),
                        ] + sp_param_moves(argsv, i + 1)) =~= seg + sp_param_moves(
                            argsv,
                            i + 1,
                        ));
                    },
                    _ => {
                        assert(segb + (Seq::<Seq<char>>::empty() + sp_param_moves(argsv, i + 1))
                            =~= seg + sp_param_moves(argsv, i + 1));
                    },
                }
            }
            i = i + 1;
        }
    }

    /// Emit a run of statements in order, threading the label counter.
    fn gen_stmts(&mut self, ss: &Vec<Statement>)
        ensures
            ({
                let r = sp_gen_stmts(crate::ast::stmts_view(ss@), 0, old(self).counter as int);
                lines_view(final(self).lines@) == lines_view(old(self).lines@) + r.0 && final(self).counter as int == r.1
            }),
        decreases *ss,
    {
        let ghost l0 = lines_view(self.lines@);
        let ghost c0 = self.counter as int;
        let ghost ssv = crate::ast::stmts_view(ss@);
        let mut i: usize = 0;
        let ghost mut seg: Seq<Seq<char>> = Seq::empty();
        proof {
            assert(l0 + seg =~= l0);
        }
        loop
            invariant
                0 <= i <= ss.len(),
                ssv.len() == ss.len(),
                ssv == crate::ast::stmts_view(ss@),
                l0 == lines_view(old(self).lines@),
                c0 == old(self).counter as int,
                lines_view(self.lines@) == l0 + seg,
                ({
                    let full = sp_gen_stmts(ssv, 0, c0);
                    let rest = sp_gen_stmts(ssv, i as int, self.counter as int);
                    full.0 == seg + rest.0 && full.1 == rest.1
                }),
            ensures
                ({
                    let full = sp_gen_stmts(ssv, 0, c0);
                    lines_view(self.lines@) == l0 + full.0 && self.counter as int == full.1
                }),
            decreases ss.len() - i,
        {
            if i == ss.len() {
                proof {
                    assert(sp_gen_stmts(ssv, i as int, self.counter as int).0 =~= Seq::<
                        Seq<char>,
                    >::empty());
                    assert(seg + sp_gen_stmts(ssv, i as int, self.counter as int).0 =~= seg);
                }
                break ;
            }
            let ghost segb = seg;
            let ghost ct = self.counter as int;
            proof {
                assert(ssv[i as int] == spec_stmt_view(ss@[i as int]));
            }
            self.gen_stmt(&ss[i]);
            proof {
                let r = sp_gen_stmt(ssv[i as int], ct);
                seg = segb + r.0;
                assert(lines_view(self.lines@) =~= l0 + seg);
                let rest = sp_gen_stmts(ssv, i + 1, r.1);
                assert(sp_gen_stmts(ssv, i as int, ct) == (r.0 + rest.0, rest.1));
                assert(segb + (r.0 + rest.0) =~= seg + rest.0);
            }
            i = i + 1;
        }
    }
}

/// The largest offset a statement assigns to.
fn stmt_max_off(s: &Statement) -> (r: usize)
    ensures
        r as int == sp_stmt_max_off(spec_stmt_view(*s)),
    decreases *s,
{
    match s {
        Statement::InitDeclaration(d) => d.offset,
        Statement::Block(ss) => stmts_max_off(ss),
        Statement::If(i) => {
            let a = stmt_max_off(&i.consequence);
            let b = match &i.alternative {
                Some(alt) => stmt_max_off(alt),
                None => 0,
            };
            if a >= b {
                a
            } else {
                b
            }
        },
        Statement::While(w) => stmt_max_off(&w.body),
        Statement::For(f) => {
            let a = match &f.init {
                Some(s0) => stmt_max_off(s0),
                None => 0,
            };
            let b = match &f.post {
                Some(p) => stmt_max_off(p),
                None => 0,
            };
            let ab = if a >= b {
                a
            } else {
                b
            };
            let c = stmt_max_off(&f.body);
            if ab >= c {
                ab
            } else {
                c
            }
        },
        _ => 0,
    }
}

fn stmts_max_off(ss: &Vec<Statement>) -> (r: usize)
    ensures
        r as int == sp_stmts_max_off(crate::ast::stmts_view(ss@), 0),
    decreases *ss,
{
    let ghost ssv = crate::ast::stmts_view(ss@);
    let mut acc: usize = 0;
    let mut i: usize = ss.len();
    loop
        invariant
            0 <= i <= ss.len(),
            ssv == crate::ast::stmts_view(ss@),
            ssv.len() == ss.len(),
            acc as int == sp_stmts_max_off(ssv, i as int),
        ensures
            i == 0,
            acc as int == sp_stmts_max_off(ssv, 0),
        decreases i,
    {
        if i == 0 {
            break ;
        }
        i = i - 1;
        proof {
            assert(ssv[i as int] == spec_stmt_view(ss@[i as int]));
        }
        let m = stmt_max_off(&ss[i]);
        acc = if m >= acc {
            m
        } else {
            acc
        };
    }
    acc
}

/// The largest offset among a function's parameters.
fn args_max_off(args: &Vec<Expression>) -> (r: usize)
    ensures
        r as int == sp_args_max_off(crate::ast::exprs_view(args@), 0),
{
    let ghost argsv = crate::ast::exprs_view(args@);
    let mut acc: usize = 0;
    let mut i: usize = args.len();
    loop
        invariant
            0 <= i <= args.len(),
            argsv == crate::ast::exprs_view(args@),
            argsv.len() == args.len(),
            acc as int == sp_args_max_off(argsv, i as int),
        ensures
            acc as int == sp_args_max_off(argsv, 0),
        decreases i,
    {
        if i == 0 {
            break ;
        }
        i = i - 1;
        proof {
            assert(argsv[i as int] == spec_expr_view(args@[i as int]));
        }
        let m = match &args[i] {
            Expression::LocalVariable { offset, .. } => *offset,
            _ => 0,
        };
        acc = if m >= acc {
            m
        } else {
            acc
        };
    }
    acc
}

/// Generate the assembly of a whole program as a list of lines, one
/// instruction or label each.
pub fn gen(program: &Program) -> (lines: Vec<String>)
    ensures
        lines_view(lines@) == sp_gen_program(program@),
{
    let mut cg = Codegen { lines: Vec::new(), counter: 0 };
    proof {
        assert(lines_view(cg.lines@) =~= Seq::<Seq<char>>::empty());
    }
    cg.gen_stmts(&program.statements);
    proof {
        assert(lines_view(cg.lines@) =~= sp_gen_program(program@));
    }
    cg.lines
}

} // verus!
