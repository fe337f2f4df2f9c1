use vstd::prelude::*;

verus! {

broadcast use vstd::seq::group_seq_axioms, vstd::std_specs::vec::group_vec_axioms;

// ---------------------------------------------------------------------------
// Executable AST
// ---------------------------------------------------------------------------

#[derive(Debug, PartialEq, Eq)]
pub struct Program {
    pub statements: Vec<Statement>,
}

#[derive(Debug, PartialEq, Eq)]
pub enum Statement {
    Expression(Expression),
    If(IfStatement),
    While(WhileStatement),
    For(ForStatement),
    Block(Vec<Statement>),
    Return(Expression),
    FunctionDefinition(FunctionDefinition),
    InitDeclaration(InitDeclaration),
}

#[derive(Debug, PartialEq, Eq)]
pub struct IfStatement {
    pub condition: Expression,
    pub consequence: Box<Statement>,
    pub alternative: Option<Box<Statement>>,
}

#[derive(Debug, PartialEq, Eq)]
pub struct WhileStatement {
    pub condition: Expression,
    pub body: Box<Statement>,
}

#[derive(Debug, PartialEq, Eq)]
pub struct ForStatement {
    pub init: Option<Box<Statement>>,
    pub condition: Option<Expression>,
    pub post: Option<Box<Statement>>,
    pub body: Box<Statement>,
}

#[derive(Debug, PartialEq, Eq)]
pub struct FunctionDefinition {
    pub name: String,
    pub arguments: Vec<Expression>,
    pub body: Vec<Statement>,
}

#[derive(Debug, PartialEq, Eq)]
pub struct InitDeclaration {
    pub name: String,
    pub offset: usize,
    pub type_: Type,
    pub init: Option<Expression>,
}

#[derive(Debug, PartialEq, Eq)]
pub enum Type {
    Primitive(TypeEnum),
    Array { type_: Box<Type>, size: i32 },
    Pointer(Box<Type>),
}

#[derive(Debug, PartialEq, Eq, Clone, Copy)]
pub enum TypeEnum {
    Void,
    Char,
    Short,
    Int,
    Long,
    Float,
    Double,
}

#[derive(Debug, PartialEq, Eq)]
pub enum Expression {
    LocalVariable { name: String, offset: usize, type_: Type },
    Integer(i32),
    Binary(BinaryExpression),
    Unary(UnaryExpression),
    Call(CallExpression),
}

#[derive(Debug, PartialEq, Eq)]
pub struct BinaryExpression {
    pub lhs: Box<Expression>,
    pub op: BinaryOperator,
    pub rhs: Box<Expression>,
}

#[derive(Debug, PartialEq, Eq, Clone, Copy)]
pub enum BinaryOperator {
    Assignment,
    Plus,
    Minus,
    Slash,
    Asterisk,
    Lt,
    LtEq,
    Eq,
    NotEq,
}

#[derive(Debug, PartialEq, Eq)]
pub struct UnaryExpression {
    pub expr: Box<Expression>,
    pub op: UnaryOperator,
}

#[derive(Debug, PartialEq, Eq, Clone, Copy)]
pub enum UnaryOperator {
    Minus,
    Dereference,
    Reference,
}

#[derive(Debug, PartialEq, Eq)]
pub struct CallExpression {
    pub callee_name: String,
    pub arguments: Vec<Expression>,
}

// ---------------------------------------------------------------------------
// Mathematical model of the AST
// ---------------------------------------------------------------------------

pub struct ProgramV {
    pub statements: Seq<StmtV>,
}

pub enum StmtV {
    Expression(ExprV),
    If(IfStatementV),
    While(WhileStatementV),
    For(ForStatementV),
    Block(Seq<StmtV>),
    Return(ExprV),
    FunctionDefinition(FunctionDefinitionV),
    InitDeclaration(InitDeclarationV),
}

pub struct IfStatementV {
    pub condition: ExprV,
    pub consequence: Box<StmtV>,
    pub alternative: Option<Box<StmtV>>,
}

pub struct WhileStatementV {
    pub condition: ExprV,
    pub body: Box<StmtV>,
}

pub struct ForStatementV {
    pub init: Option<Box<StmtV>>,
    pub condition: Option<ExprV>,
    pub post: Option<Box<StmtV>>,
    pub body: Box<StmtV>,
}

pub struct FunctionDefinitionV {
    pub name: Seq<char>,
    pub arguments: Seq<ExprV>,
    pub body: Seq<StmtV>,
}

pub struct InitDeclarationV {
    pub name: Seq<char>,
    pub offset: int,
    pub type_: TypeV,
    pub init: Option<ExprV>,
}

pub enum TypeV {
    Primitive(TypeEnum),
    Array { type_: Box<TypeV>, size: int },
    Pointer(Box<TypeV>),
}

pub enum ExprV {
    LocalVariable { name: Seq<char>, offset: int, type_: TypeV },
    Integer(int),
    Binary(BinaryExpressionV),
    Unary(UnaryExpressionV),
    Call(CallExpressionV),
}

pub struct BinaryExpressionV {
    pub lhs: Box<ExprV>,
    pub op: BinaryOperator,
    pub rhs: Box<ExprV>,
}

pub struct UnaryExpressionV {
    pub expr: Box<ExprV>,
    pub op: UnaryOperator,
}

pub struct CallExpressionV {
    pub callee_name: Seq<char>,
    pub arguments: Seq<ExprV>,
}

// ---------------------------------------------------------------------------
// Views
// ---------------------------------------------------------------------------

pub open spec fn spec_type_view(t: Type) -> TypeV
    decreases t,
{
    match t {
        Type::Primitive(p) => TypeV::Primitive(p),
        Type::Array { type_, size } => TypeV::Array {
            type_: Box::new(spec_type_view(*type_)),
            size: size as int,
        },
        Type::Pointer(inner) => TypeV::Pointer(Box::new(spec_type_view(*inner))),
    }
}

pub open spec fn spec_expr_view(e: Expression) -> ExprV
    decreases e,
{
    match e {
        Expression::LocalVariable { name, offset, type_ } => ExprV::LocalVariable {
            name: name@,
            offset: offset as int,
            type_: spec_type_view(type_),
        },
        Expression::Integer(n) => ExprV::Integer(n as int),
        Expression::Binary(b) => ExprV::Binary(
            BinaryExpressionV {
                lhs: Box::new(spec_expr_view(*b.lhs)),
                op: b.op,
                rhs: Box::new(spec_expr_view(*b.rhs)),
            },
        ),
        Expression::Unary(u) => ExprV::Unary(
            UnaryExpressionV { expr: Box::new(spec_expr_view(*u.expr)), op: u.op },
        ),
        Expression::Call(c) => ExprV::Call(
            CallExpressionV { callee_name: c.callee_name@, arguments: exprs_view(c.arguments@) },
        ),
    }
}

pub open spec fn exprs_view(v: Seq<Expression>) -> Seq<ExprV>
    decreases v,
{
    Seq::new(
        v.len(),
        |i: int|
            if 0 <= i < v.len() {
                spec_expr_view(v[i])
            } else {
                ExprV::Integer(0)
            },
    )
}

pub open spec fn spec_stmt_view(s: Statement) -> StmtV
    decreases s,
{
    match s {
        Statement::Expression(e) => StmtV::Expression(spec_expr_view(e)),
        Statement::If(i) => StmtV::If(
            IfStatementV {
                condition: spec_expr_view(i.condition),
                consequence: Box::new(spec_stmt_view(*i.consequence)),
                alternative: match i.alternative {
                    Option::Some(a) => Option::Some(Box::new(spec_stmt_view(*a))),
                    Option::None => Option::None,
                },
            },
        ),
        Statement::While(w) => StmtV::While(
            WhileStatementV {
                condition: spec_expr_view(w.condition),
                body: Box::new(spec_stmt_view(*w.body)),
            },
        ),
        Statement::For(f) => StmtV::For(
            ForStatementV {
                init: match f.init {
                    Option::Some(s0) => Option::Some(Box::new(spec_stmt_view(*s0))),
                    Option::None => Option::None,
                },
                condition: match f.condition {
                    Option::Some(c) => Option::Some(spec_expr_view(c)),
                    Option::None => Option::None,
                },
                post: match f.post {
                    Option::Some(p) => Option::Some(Box::new(spec_stmt_view(*p))),
                    Option::None => Option::None,
                },
                body: Box::new(spec_stmt_view(*f.body)),
            },
        ),
        Statement::Block(ss) => StmtV::Block(stmts_view(ss@)),
        Statement::Return(e) => StmtV::Return(spec_expr_view(e)),
        Statement::FunctionDefinition(f) => StmtV::FunctionDefinition(
            FunctionDefinitionV {
                name: f.name@,
                arguments: exprs_view(f.arguments@),
                body: stmts_view(f.body@),
            },
        ),
        Statement::InitDeclaration(d) => StmtV::InitDeclaration(
            InitDeclarationV {
                name: d.name@,
                offset: d.offset as int,
                type_: spec_type_view(d.type_),
                init: match d.init {
                    Option::Some(e) => Option::Some(spec_expr_view(e)),
                    Option::None => Option::None,
                },
            },
        ),
    }
}

pub open spec fn stmts_view(v: Seq<Statement>) -> Seq<StmtV>
    decreases v,
{
    Seq::new(
        v.len(),
        |i: int|
            if 0 <= i < v.len() {
                spec_stmt_view(v[i])
            } else {
                StmtV::Block(Seq::empty())
            },
    )
}

impl View for Type {
    type V = TypeV;

    open spec fn view(&self) -> TypeV {
        spec_type_view(*self)
    }
}

impl View for Expression {
    type V = ExprV;

    open spec fn view(&self) -> ExprV {
        spec_expr_view(*self)
    }
}

impl View for Statement {
    type V = StmtV;

    open spec fn view(&self) -> StmtV {
        spec_stmt_view(*self)
    }
}

impl View for Program {
    type V = ProgramV;

    open spec fn view(&self) -> ProgramV {
        ProgramV { statements: stmts_view(self.statements@) }
    }
}

// ---------------------------------------------------------------------------
// Constructors
// ---------------------------------------------------------------------------

impl Program {
    pub fn new(statements: Vec<Statement>) -> (r: Self)
        ensures
            r@ == (ProgramV { statements: stmts_view(statements@) }),
    {
        Self { statements }
    }
}

impl IfStatement {
    pub fn new(condition: Expression, consequence: Statement, alternative: Option<Statement>) -> (r:
        Self)
        ensures
            r.condition@ == condition@,
            *r.consequence == consequence,
            r.alternative matches Option::Some(a) <==> alternative matches Option::Some(_),
            alternative matches Option::Some(s) ==> r.alternative matches Option::Some(a) && *a
                == s,
            spec_stmt_view(Statement::If(r)) == StmtV::If(
                IfStatementV {
                    condition: spec_expr_view(condition),
                    consequence: Box::new(spec_stmt_view(consequence)),
                    alternative: match alternative {
                        Option::Some(s) => Option::Some(Box::new(spec_stmt_view(s))),
                        Option::None => Option::None,
                    },
                },
            ),
    {
        Self {
            condition,
            consequence: Box::new(consequence),
            alternative: match alternative {
                Option::Some(s) => Option::Some(Box::new(s)),
                Option::None => Option::None,
            },
        }
    }
}

impl WhileStatement {
    pub fn new(condition: Expression, body: Statement) -> (r: Self)
        ensures
            spec_stmt_view(Statement::While(r)) == StmtV::While(
                WhileStatementV {
                    condition: spec_expr_view(condition),
                    body: Box::new(spec_stmt_view(body)),
                },
            ),
    {
        Self { condition, body: Box::new(body) }
    }
}

impl ForStatement {
    pub fn new(
        init: Option<Statement>,
        condition: Option<Expression>,
        post: Option<Statement>,
        body: Statement,
    ) -> (r: Self)
        ensures
            spec_stmt_view(Statement::For(r)) == StmtV::For(
                ForStatementV {
                    init: match init {
                        Option::Some(s) => Option::Some(Box::new(spec_stmt_view(s))),
                        Option::None => Option::None,
                    },
                    condition: match condition {
                        Option::Some(c) => Option::Some(spec_expr_view(c)),
                        Option::None => Option::None,
                    },
                    post: match post {
                        Option::Some(p) => Option::Some(Box::new(spec_stmt_view(p))),
                        Option::None => Option::None,
                    },
                    body: Box::new(spec_stmt_view(body)),
                },
            ),
    {
        Self {
            init: match init {
                Option::Some(s) => Option::Some(Box::new(s)),
                Option::None => Option::None,
            },
            condition,
            post: match post {
                Option::Some(p) => Option::Some(Box::new(p)),
                Option::None => Option::None,
            },
            body: Box::new(body),
        }
    }
}

impl FunctionDefinition {
    pub fn new(name: String, arguments: Vec<Expression>, body: Vec<Statement>) -> (r: Self)
        ensures
            spec_stmt_view(Statement::FunctionDefinition(r)) == StmtV::FunctionDefinition(
                FunctionDefinitionV {
                    name: name@,
                    arguments: exprs_view(arguments@),
                    body: stmts_view(body@),
                },
            ),
    {
        Self { name, arguments, body }
    }
}

impl InitDeclaration {
    pub fn new(name: String, offset: usize, type_: Type, init: Option<Expression>) -> (r: Self)
        ensures
            spec_stmt_view(Statement::InitDeclaration(r)) == StmtV::InitDeclaration(
                InitDeclarationV {
                    name: name@,
                    offset: offset as int,
                    type_: spec_type_view(type_),
                    init: match init {
                        Option::Some(e) => Option::Some(spec_expr_view(e)),
                        Option::None => Option::None,
                    },
                },
            ),
    {
        Self { name, offset, type_, init }
    }
}

impl BinaryExpression {
    pub fn new(lhs: Expression, op: BinaryOperator, rhs: Expression) -> (r: Self)
        ensures
            spec_expr_view(Expression::Binary(r)) == ExprV::Binary(
                BinaryExpressionV {
                    lhs: Box::new(spec_expr_view(lhs)),
                    op: op,
                    rhs: Box::new(spec_expr_view(rhs)),
                },
            ),
    {
        Self { lhs: Box::new(lhs), op, rhs: Box::new(rhs) }
    }
}

impl UnaryExpression {
    pub fn new(expr: Expression, op: UnaryOperator) -> (r: Self)
        ensures
            spec_expr_view(Expression::Unary(r)) == ExprV::Unary(
                UnaryExpressionV { expr: Box::new(spec_expr_view(expr)), op: op },
            ),
    {
        Self { expr: Box::new(expr), op }
    }
}

impl CallExpression {
    pub fn new(callee_name: String, arguments: Vec<Expression>) -> (r: Self)
        ensures
            spec_expr_view(Expression::Call(r)) == ExprV::Call(
                CallExpressionV { callee_name: callee_name@, arguments: exprs_view(arguments@) },
            ),
    {
        Self { callee_name, arguments }
    }
}

// ---------------------------------------------------------------------------
// Sizes
// ---------------------------------------------------------------------------

/// Size in bytes of a type. `int` is deliberately 8 bytes: every stack slot
/// of the generated code is one 64-bit word. An array whose byte size would
/// not fit in `usize` is given size 0 rather than wrapping.
pub open spec fn spec_size_of(t: TypeV) -> int
    decreases t,
{
    match t {
        TypeV::Primitive(TypeEnum::Void) => 0,
        TypeV::Primitive(TypeEnum::Char) => 1,
        TypeV::Primitive(TypeEnum::Short) => 2,
        TypeV::Primitive(TypeEnum::Int) => 8,
        TypeV::Primitive(TypeEnum::Long) => 8,
        TypeV::Primitive(TypeEnum::Float) => 4,
        TypeV::Primitive(TypeEnum::Double) => 8,
        TypeV::Pointer(_) => 8,
        TypeV::Array { size, .. } => if 0 <= size * 8 <= usize::MAX {
            size * 8
        } else {
            0
        },
    }
}

impl Type {
    pub fn size(&self) -> (r: usize)
        ensures
            r as int == spec_size_of(self@),
    {
        match self {
            Type::Primitive(TypeEnum::Void) => 0,
            Type::Primitive(TypeEnum::Char) => 1,
            Type::Primitive(TypeEnum::Short) => 2,
            Type::Primitive(TypeEnum::Int) => 8,
            Type::Primitive(TypeEnum::Long) => 8,
            Type::Primitive(TypeEnum::Float) => 4,
            Type::Primitive(TypeEnum::Double) => 8,
            Type::Pointer(_) => 8,
            Type::Array { size, .. } => {
                if 0 <= *size && (*size as usize) <= usize::MAX / 8 {
                    (*size as usize) * 8
                } else {
                    0
                }
            },
        }
    }
}

impl Clone for Type {
    fn clone(&self) -> (r: Self)
        ensures
            r@ == self@,
        decreases *self,
    {
        match self {
            Type::Primitive(p) => Type::Primitive(*p),
            Type::Array { type_, size } => Type::Array {
                type_: Box::new((**type_).clone()),
                size: *size,
            },
            Type::Pointer(inner) => Type::Pointer(Box::new((**inner).clone())),
        }
    }
}

} // verus!
