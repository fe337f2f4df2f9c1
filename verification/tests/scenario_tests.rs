use minicc::ast::{
    BinaryExpression, BinaryOperator, Expression, ForStatement, Statement, Type, TypeEnum,
};
use minicc::codegen::gen;
use minicc::lex::Lexer;
use minicc::parse::{parse, ParseError, Parser, Precedence};

#[test]
fn empty_block() {
    let lexer = Lexer::new(String::from("{}"));
    let mut parser = Parser::new(lexer);
    assert_eq!(parser.parse_statement().unwrap(), Statement::Block(vec![]));
}

#[test]
fn for_with_empty_header() {
    let lexer = Lexer::new(String::from("for (;;) return 0;"));
    let mut parser = Parser::new(lexer);
    assert_eq!(
        parser.parse_statement().unwrap(),
        Statement::For(ForStatement::new(
            None,
            None,
            None,
            Statement::Return(Expression::Integer(0)),
        ))
    );
}

#[test]
fn return_requires_semicolon() {
    assert!(parse(String::from("return 5;")).is_ok());
    assert!(parse(String::from("return 5")).is_err());
}

#[test]
fn two_expression_statements() {
    let prog = parse(String::from("5;1+2*3;")).unwrap();
    assert_eq!(
        prog.statements,
        vec![
            Statement::Expression(Expression::Integer(5)),
            Statement::Expression(Expression::Binary(BinaryExpression::new(
                Expression::Integer(1),
                BinaryOperator::Plus,
                Expression::Binary(BinaryExpression::new(
                    Expression::Integer(2),
                    BinaryOperator::Asterisk,
                    Expression::Integer(3),
                )),
            ))),
        ]
    );
}

#[test]
fn call_of_undeclared_function_parses() {
    let prog = parse(String::from("bar(1, 2); return 0;")).unwrap();
    assert_eq!(prog.statements.len(), 2);
    assert!(matches!(prog.statements[0], Statement::Expression(Expression::Call(_))));
    assert!(matches!(prog.statements[1], Statement::Return(_)));
}

#[test]
fn undefined_variable_fails() {
    let err = parse(String::from("a;")).unwrap_err();
    assert!(matches!(err, ParseError::UndefinedVariable(_)));
    assert_eq!(err.message(), "Undefined variable: a");
}

#[test]
fn greater_than_normalises_to_less_than() {
    let lexer = Lexer::new(String::from("1 > 2"));
    let mut parser = Parser::new(lexer);
    let swapped = parser.parse_expression(Precedence::Lowest).unwrap();
    let lexer = Lexer::new(String::from("2 < 1"));
    let mut parser = Parser::new(lexer);
    let direct = parser.parse_expression(Precedence::Lowest).unwrap();
    assert_eq!(swapped, direct);

    let lexer = Lexer::new(String::from("1 >= 2"));
    let mut parser = Parser::new(lexer);
    let swapped = parser.parse_expression(Precedence::Lowest).unwrap();
    let lexer = Lexer::new(String::from("2 <= 1"));
    let mut parser = Parser::new(lexer);
    let direct = parser.parse_expression(Precedence::Lowest).unwrap();
    assert_eq!(swapped, direct);
}

#[test]
fn assignment_chain_is_left_associative() {
    let prog = parse(String::from("int a = 0; int b = 0; int c = 0; a = b = c;")).unwrap();
    // (a = b) = c, a documented limitation of the grammar
    match &prog.statements[3] {
        Statement::Expression(Expression::Binary(outer)) => {
            assert_eq!(outer.op, BinaryOperator::Assignment);
            match &*outer.lhs {
                Expression::Binary(inner) => {
                    assert_eq!(inner.op, BinaryOperator::Assignment);
                    assert!(matches!(*inner.lhs, Expression::LocalVariable { .. }));
                    assert!(matches!(*inner.rhs, Expression::LocalVariable { .. }));
                }
                other => panic!("expected inner assignment, got {:?}", other),
            }
            assert!(matches!(*outer.rhs, Expression::LocalVariable { .. }));
        }
        other => panic!("expected assignment chain, got {:?}", other),
    }
}

#[test]
fn nested_parens_keep_the_tree() {
    let lexer = Lexer::new(String::from("5 + 5 * 5"));
    let mut parser = Parser::new(lexer);
    let plain = parser.parse_expression(Precedence::Lowest).unwrap();
    let lexer = Lexer::new(String::from("(((5 + 5 * 5)))"));
    let mut parser = Parser::new(lexer);
    let wrapped = parser.parse_expression(Precedence::Lowest).unwrap();
    assert_eq!(plain, wrapped);
}

#[test]
fn parse_is_deterministic() {
    let src = "int foo(int i) { return i; } int main() { int a = foo(10); return a; }";
    let first = parse(String::from(src)).unwrap();
    let second = parse(String::from(src)).unwrap();
    assert_eq!(first, second);
}

#[test]
fn offsets_follow_declared_sizes() {
    // offsets grow by the size of each declared type: int 8, char 1
    let prog = parse(String::from(
        "int main() { int a = 0; char b; int c = 0; return 0; }",
    ))
    .unwrap();
    match &prog.statements[0] {
        Statement::FunctionDefinition(f) => {
            let offsets: Vec<usize> = f
                .body
                .iter()
                .filter_map(|s| match s {
                    Statement::InitDeclaration(d) => Some(d.offset),
                    _ => None,
                })
                .collect();
            assert_eq!(offsets, vec![8, 9, 17]);
        }
        other => panic!("expected a function definition, got {:?}", other),
    }
}

#[test]
fn symbol_table_resets_per_function() {
    let prog = parse(String::from(
        "int foo(int i) { return i; } int main() { int a = 0; return a; }",
    ))
    .unwrap();
    match (&prog.statements[0], &prog.statements[1]) {
        (Statement::FunctionDefinition(foo), Statement::FunctionDefinition(main)) => {
            match &foo.arguments[0] {
                Expression::LocalVariable { offset, .. } => assert_eq!(*offset, 8),
                other => panic!("expected a parameter, got {:?}", other),
            }
            match &main.body[0] {
                Statement::InitDeclaration(d) => assert_eq!(d.offset, 8),
                other => panic!("expected a declaration, got {:?}", other),
            }
        }
        other => panic!("expected two function definitions, got {:?}", other),
    }
}

#[test]
fn pointer_types_have_size_eight() {
    assert_eq!(Type::Primitive(TypeEnum::Void).size(), 0);
    assert_eq!(Type::Primitive(TypeEnum::Char).size(), 1);
    assert_eq!(Type::Primitive(TypeEnum::Short).size(), 2);
    assert_eq!(Type::Primitive(TypeEnum::Int).size(), 8);
    assert_eq!(Type::Primitive(TypeEnum::Long).size(), 8);
    assert_eq!(Type::Primitive(TypeEnum::Float).size(), 4);
    assert_eq!(Type::Primitive(TypeEnum::Double).size(), 8);
    assert_eq!(
        Type::Pointer(Box::new(Type::Primitive(TypeEnum::Char))).size(),
        8
    );
    assert_eq!(
        Type::Array {
            type_: Box::new(Type::Primitive(TypeEnum::Int)),
            size: 3,
        }
        .size(),
        24
    );
}

#[test]
fn error_variants_by_input() {
    assert!(matches!(
        parse(String::from("if 1) return 0;")).unwrap_err(),
        ParseError::ExpectedLParen(_)
    ));
    assert!(matches!(
        parse(String::from("if (1 return 0;")).unwrap_err(),
        ParseError::ExpectedRParen(_)
    ));
    assert!(matches!(
        parse(String::from("return 5")).unwrap_err(),
        ParseError::ExpectedSemiColon(_)
    ));
    assert!(matches!(
        parse(String::from("5 5")).unwrap_err(),
        ParseError::ExpectedSemiColonOrRParen(_)
    ));
    assert!(matches!(
        parse(String::from("int 5;")).unwrap_err(),
        ParseError::ExpectedIdentifier(_)
    ));
    assert!(matches!(
        parse(String::from("int a + 1;")).unwrap_err(),
        ParseError::ExpectedAssignOrParen(_)
    ));
    assert!(matches!(
        parse(String::from("int f(5) { return 0; }")).unwrap_err(),
        ParseError::ExpectedType(_)
    ));
    assert!(matches!(
        parse(String::from("+;")).unwrap_err(),
        ParseError::InvalidToken(_)
    ));
    assert!(matches!(
        parse(String::from("@;")).unwrap_err(),
        ParseError::InvalidToken(_)
    ));
    assert!(matches!(
        parse(String::from("5 @ 3;")).unwrap_err(),
        ParseError::ExpectedSemiColonOrRParen(_)
    ));
}

#[test]
fn integer_literals_wrap_like_i32() {
    let prog = parse(String::from("return 2147483647;")).unwrap();
    assert_eq!(
        prog.statements[0],
        Statement::Return(Expression::Integer(2147483647))
    );
    let prog = parse(String::from("return 2147483648;")).unwrap();
    assert_eq!(
        prog.statements[0],
        Statement::Return(Expression::Integer(-2147483648))
    );
}

/// The positions of `needles` must appear in `haystack` in order.
fn assert_ordered_subsequence(haystack: &[String], needles: &[&str]) {
    let mut from = 0;
    for needle in needles {
        let mut found = None;
        for (i, line) in haystack.iter().enumerate().skip(from) {
            if line == needle {
                found = Some(i);
                break;
            }
        }
        match found {
            Some(i) => from = i + 1,
            None => panic!(
                "line {:?} not found after index {} in {:?}",
                needle, from, haystack
            ),
        }
    }
}

#[test]
fn codegen_of_return_sum() {
    let prog = parse(String::from("int main() { return 1+2; }")).unwrap();
    let lines = gen(&prog);
    assert_ordered_subsequence(
        &lines,
        &[
            "main:",
            "  push rbp",
            "  mov rbp, rsp",
            "  push 1",
            "  push 2",
            "  pop rdi",
            "  pop rax",
            "  add rax, rdi",
            "  push rax",
            "  pop rax",
            "  pop rbp",
            "  ret",
        ],
    );
}

#[test]
fn codegen_labels_and_locals() {
    let prog = parse(String::from(
        "int main() { int a = 0; if (a == 0) return 1; return 2; }",
    ))
    .unwrap();
    let lines = gen(&prog);
    // the frame holds one 8-byte local, rounded to 16
    assert_ordered_subsequence(
        &lines,
        &[
            "main:",
            "  push rbp",
            "  mov rbp, rsp",
            "  sub rsp, 16",
            "  sub rax, 8",
            "  cmp rax, rdi",
            "  sete al",
            "  je .Lelse_0",
            "  push 1",
            ".Lelse_0:",
            ".Lend_0:",
            "  push 2",
            "  ret",
        ],
    );
}

#[test]
fn codegen_call_pops_arguments_into_registers() {
    let prog = parse(String::from("int main() { return bar(1, 2); }")).unwrap();
    let lines = gen(&prog);
    assert_ordered_subsequence(
        &lines,
        &[
            "  push 1",
            "  push 2",
            "  pop rsi",
            "  pop rdi",
            "  call bar",
            "  push rax",
        ],
    );
}

#[test]
fn codegen_while_loop_labels() {
    let prog = parse(String::from(
        "int main() { int a = 0; while (a < 10) a = a + 1; return a; }",
    ))
    .unwrap();
    let lines = gen(&prog);
    assert_ordered_subsequence(
        &lines,
        &[
            ".Lbegin_0:",
            "  cmp rax, rdi",
            "  setl al",
            "  je .Lend_0",
            "  jmp .Lbegin_0",
            ".Lend_0:",
        ],
    );
}

#[test]
fn parameters_are_copied_from_registers() {
    let prog = parse(String::from("int foo(int a, int b) { return a; }")).unwrap();
    let lines = gen(&prog);
    assert_ordered_subsequence(
        &lines,
        &[
            "foo:",
            "  push rbp",
            "  mov [rbp-8], rdi",
            "  mov [rbp-16], rsi",
            "  ret",
        ],
    );
}
