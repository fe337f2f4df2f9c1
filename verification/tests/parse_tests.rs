use minicc::ast::{
    BinaryExpression, BinaryOperator, CallExpression, Expression, ForStatement,
    FunctionDefinition, IfStatement, InitDeclaration, Program, Statement, Type, TypeEnum,
    UnaryExpression, UnaryOperator, WhileStatement,
};
use minicc::lex::Lexer;
use minicc::parse::{Parser, Precedence};

#[test]
fn test_parse_integer() {
    let cases = vec![
        (String::from("5"), Expression::Integer(5)),
        (String::from("10"), Expression::Integer(10)),
        (
            String::from("-10"),
            Expression::Unary(UnaryExpression::new(
                Expression::Integer(10),
                UnaryOperator::Minus,
            )),
        ),
    ];

    for (input, expected) in cases {
        let lexer = Lexer::new(input);
        let mut parser = Parser::new(lexer);
        assert_eq!(
            parser.parse_expression(Precedence::Lowest).unwrap(),
            expected
        );
    }
}

#[test]
fn test_binary_expression() {
    let case = vec![
        (
            String::from("5 + 5"),
            Expression::Binary(BinaryExpression::new(
                Expression::Integer(5),
                BinaryOperator::Plus,
                Expression::Integer(5),
            )),
        ),
        (
            String::from("5 - 5"),
            Expression::Binary(BinaryExpression::new(
                Expression::Integer(5),
                BinaryOperator::Minus,
                Expression::Integer(5),
            )),
        ),
        (
            String::from("5 * 5"),
            Expression::Binary(BinaryExpression::new(
                Expression::Integer(5),
                BinaryOperator::Asterisk,
                Expression::Integer(5),
            )),
        ),
        (
            String::from("5 / 5"),
            Expression::Binary(BinaryExpression::new(
                Expression::Integer(5),
                BinaryOperator::Slash,
                Expression::Integer(5),
            )),
        ),
        (
            String::from("-5 + 5"),
            Expression::Binary(BinaryExpression::new(
                Expression::Unary(UnaryExpression::new(
                    Expression::Integer(5),
                    UnaryOperator::Minus,
                )),
                BinaryOperator::Plus,
                Expression::Integer(5),
            )),
        ),
        (
            String::from("5 + -5"),
            Expression::Binary(BinaryExpression::new(
                Expression::Integer(5),
                BinaryOperator::Plus,
                Expression::Unary(UnaryExpression::new(
                    Expression::Integer(5),
                    UnaryOperator::Minus,
                )),
            )),
        ),
    ];

    for (input, expected) in case {
        let lexer = Lexer::new(input);
        let mut parser = Parser::new(lexer);
        assert_eq!(
            parser.parse_expression(Precedence::Lowest).unwrap(),
            expected
        );
    }
}

#[test]
fn test_binary_expression_with_precedence() {
    let cases = vec![
        (
            String::from("5 + 5 * 5"),
            Expression::Binary(BinaryExpression::new(
                Expression::Integer(5),
                BinaryOperator::Plus,
                Expression::Binary(BinaryExpression::new(
                    Expression::Integer(5),
                    BinaryOperator::Asterisk,
                    Expression::Integer(5),
                )),
            )),
        ),
        (
            String::from("1 * 2 + 3 * 4"),
            Expression::Binary(BinaryExpression::new(
                Expression::Binary(BinaryExpression::new(
                    Expression::Integer(1),
                    BinaryOperator::Asterisk,
                    Expression::Integer(2),
                )),
                BinaryOperator::Plus,
                Expression::Binary(BinaryExpression::new(
                    Expression::Integer(3),
                    BinaryOperator::Asterisk,
                    Expression::Integer(4),
                )),
            )),
        ),
        (
            String::from("1 * 2 >= 3 * 4 == 0"),
            Expression::Binary(BinaryExpression::new(
                Expression::Binary(BinaryExpression::new(
                    Expression::Binary(BinaryExpression::new(
                        Expression::Integer(3),
                        BinaryOperator::Asterisk,
                        Expression::Integer(4),
                    )),
                    BinaryOperator::LtEq,
                    Expression::Binary(BinaryExpression::new(
                        Expression::Integer(1),
                        BinaryOperator::Asterisk,
                        Expression::Integer(2),
                    )),
                )),
                BinaryOperator::Eq,
                Expression::Integer(0),
            )),
        ),
    ];

    for (input, expected) in cases {
        let lexer = Lexer::new(input);
        let mut parser = Parser::new(lexer);
        assert_eq!(
            parser.parse_expression(Precedence::Lowest).unwrap(),
            expected
        );
    }
}

#[test]
fn test_binary_expression_with_paren() {
    let cases = vec![
        (
            String::from("(5 + 5) * 5"),
            Expression::Binary(BinaryExpression::new(
                Expression::Binary(BinaryExpression::new(
                    Expression::Integer(5),
                    BinaryOperator::Plus,
                    Expression::Integer(5),
                )),
                BinaryOperator::Asterisk,
                Expression::Integer(5),
            )),
        ),
        (
            String::from("1 * (2 + 3) * 4"),
            Expression::Binary(BinaryExpression::new(
                Expression::Binary(BinaryExpression::new(
                    Expression::Integer(1),
                    BinaryOperator::Asterisk,
                    Expression::Binary(BinaryExpression::new(
                        Expression::Integer(2),
                        BinaryOperator::Plus,
                        Expression::Integer(3),
                    )),
                )),
                BinaryOperator::Asterisk,
                Expression::Integer(4),
            )),
        ),
        (
            String::from("1 * (2 * (3 + 4)) * 5"),
            Expression::Binary(BinaryExpression::new(
                Expression::Binary(BinaryExpression::new(
                    Expression::Integer(1),
                    BinaryOperator::Asterisk,
                    Expression::Binary(BinaryExpression::new(
                        Expression::Integer(2),
                        BinaryOperator::Asterisk,
                        Expression::Binary(BinaryExpression::new(
                            Expression::Integer(3),
                            BinaryOperator::Plus,
                            Expression::Integer(4),
                        )),
                    )),
                )),
                BinaryOperator::Asterisk,
                Expression::Integer(5),
            )),
        ),
    ];

    for (input, expected) in cases {
        let lexer = Lexer::new(input);
        let mut parser = Parser::new(lexer);
        assert_eq!(
            parser.parse_expression(Precedence::Lowest).unwrap(),
            expected
        );
    }
}

#[test]
fn test_parse_return_statement() {
    let cases = vec![
        (
            String::from("return 5;"),
            Statement::Return(Expression::Integer(5)),
        ),
        (
            String::from("return 5 + 5;"),
            Statement::Return(Expression::Binary(BinaryExpression::new(
                Expression::Integer(5),
                BinaryOperator::Plus,
                Expression::Integer(5),
            ))),
        ),
    ];

    for (input, expected) in cases {
        let lexer = Lexer::new(input);
        let mut parser = Parser::new(lexer);
        assert_eq!(parser.parse_statement().unwrap(), expected);
    }
}

#[test]
fn test_parse_if_statement() {
    let cases = vec![
        (
            String::from("int a = 0; if (a == 0) return 0; "),
            vec![
                Statement::InitDeclaration(InitDeclaration::new(
                    String::from("a"),
                    8,
                    Type::Primitive(TypeEnum::Int),
                    Some(Expression::Integer(0)),
                )),
                Statement::If(IfStatement::new(
                    Expression::Binary(BinaryExpression::new(
                        Expression::LocalVariable {
                            name: String::from("a"),
                            offset: 8,
                            type_: Type::Primitive(TypeEnum::Int),
                        },
                        BinaryOperator::Eq,
                        Expression::Integer(0),
                    )),
                    Statement::Return(Expression::Integer(0)),
                    None,
                )),
            ],
        ),
        (
            String::from("int a = 0; if (a == 0) return 0; else return 1;"),
            vec![
                Statement::InitDeclaration(InitDeclaration::new(
                    String::from("a"),
                    8,
                    Type::Primitive(TypeEnum::Int),
                    Some(Expression::Integer(0)),
                )),
                Statement::If(IfStatement::new(
                    Expression::Binary(BinaryExpression::new(
                        Expression::LocalVariable {
                            name: String::from("a"),
                            offset: 8,
                            type_: Type::Primitive(TypeEnum::Int),
                        },
                        BinaryOperator::Eq,
                        Expression::Integer(0),
                    )),
                    Statement::Return(Expression::Integer(0)),
                    Some(Statement::Return(Expression::Integer(1))),
                )),
            ],
        ),
    ];

    for (input, expected) in cases {
        let lexer = Lexer::new(input);
        let mut parser = Parser::new(lexer);
        assert_eq!(parser.parse().unwrap().statements, expected);
    }
}

#[test]
fn test_parse_while_statement() {
    let cases = vec![(
        String::from("int a = 0; while (a == 0) return 0;"),
        vec![
            Statement::InitDeclaration(InitDeclaration::new(
                String::from("a"),
                8,
                Type::Primitive(TypeEnum::Int),
                Some(Expression::Integer(0)),
            )),
            Statement::While(WhileStatement::new(
                Expression::Binary(BinaryExpression::new(
                    Expression::LocalVariable {
                        name: String::from("a"),
                        offset: 8,
                        type_: Type::Primitive(TypeEnum::Int),
                    },
                    BinaryOperator::Eq,
                    Expression::Integer(0),
                )),
                Statement::Return(Expression::Integer(0)),
            )),
        ],
    )];

    for (input, expected) in cases {
        let lexer = Lexer::new(input);
        let mut parser = Parser::new(lexer);
        assert_eq!(parser.parse().unwrap().statements, expected);
    }
}

#[test]
fn test_parse_for_statement() {
    let cases = vec![(
        String::from("int i = 0; for (i = 0; i < 10; i = i + 1) return 0;"),
        vec![
            Statement::InitDeclaration(InitDeclaration::new(
                String::from("i"),
                8,
                Type::Primitive(TypeEnum::Int),
                Some(Expression::Integer(0)),
            )),
            Statement::For(ForStatement::new(
                Some(Statement::Expression(Expression::Binary(
                    BinaryExpression::new(
                        Expression::LocalVariable {
                            name: String::from("i"),
                            offset: 8,
                            type_: Type::Primitive(TypeEnum::Int),
                        },
                        BinaryOperator::Assignment,
                        Expression::Integer(0),
                    ),
                ))),
                Some(Expression::Binary(BinaryExpression::new(
                    Expression::LocalVariable {
                        name: String::from("i"),
                        offset: 8,
                        type_: Type::Primitive(TypeEnum::Int),
                    },
                    BinaryOperator::Lt,
                    Expression::Integer(10),
                ))),
                Some(Statement::Expression(Expression::Binary(
                    BinaryExpression::new(
                        Expression::LocalVariable {
                            name: String::from("i"),
                            offset: 8,
                            type_: Type::Primitive(TypeEnum::Int),
                        },
                        BinaryOperator::Assignment,
                        Expression::Binary(BinaryExpression::new(
                            Expression::LocalVariable {
                                name: String::from("i"),
                                offset: 8,
                                type_: Type::Primitive(TypeEnum::Int),
                            },
                            BinaryOperator::Plus,
                            Expression::Integer(1),
                        )),
                    ),
                ))),
                Statement::Return(Expression::Integer(0)),
            )),
        ],
    )];

    for (input, expected) in cases {
        let lexer = Lexer::new(input);
        let mut parser = Parser::new(lexer);
        assert_eq!(parser.parse().unwrap().statements, expected);
    }
}

#[test]
fn test_parse_block_statement() {
    let cases = vec![
        (String::from("{}"), Statement::Block(vec![])),
        (
            String::from("{ return 0; }"),
            Statement::Block(vec![Statement::Return(Expression::Integer(0))]),
        ),
        (
            String::from("{ int i = 0; i = i + 1; return 0; }"),
            Statement::Block(vec![
                Statement::InitDeclaration(InitDeclaration::new(
                    String::from("i"),
                    8,
                    Type::Primitive(TypeEnum::Int),
                    Some(Expression::Integer(0)),
                )),
                Statement::Expression(Expression::Binary(BinaryExpression::new(
                    Expression::LocalVariable {
                        name: String::from("i"),
                        offset: 8,
                        type_: Type::Primitive(TypeEnum::Int),
                    },
                    BinaryOperator::Assignment,
                    Expression::Binary(BinaryExpression::new(
                        Expression::LocalVariable {
                            name: String::from("i"),
                            offset: 8,
                            type_: Type::Primitive(TypeEnum::Int),
                        },
                        BinaryOperator::Plus,
                        Expression::Integer(1),
                    )),
                ))),
                Statement::Return(Expression::Integer(0)),
            ]),
        ),
    ];

    for (input, expected) in cases {
        let lexer = Lexer::new(input);
        let mut parser = Parser::new(lexer);
        assert_eq!(parser.parse_statement().unwrap(), expected);
    }
}

#[test]
fn parse_call_expression() {
    let cases = vec![
        (
            String::from("foo();"),
            Expression::Call(CallExpression::new(String::from("foo"), vec![])),
        ),
        (
            String::from("bar(1, 2);"),
            Expression::Call(CallExpression::new(
                String::from("bar"),
                vec![Expression::Integer(1), Expression::Integer(2)],
            )),
        ),
    ];

    for (input, expected) in cases {
        let lexer = Lexer::new(input);
        let mut parser = Parser::new(lexer);
        assert_eq!(
            parser.parse_expression(Precedence::Lowest).unwrap(),
            expected
        );
    }
}

#[test]
fn test_parse_init_declaration() {
    let cases = vec![
        (
            String::from("int a = 0;"),
            Statement::InitDeclaration(InitDeclaration::new(
                String::from("a"),
                8,
                Type::Primitive(TypeEnum::Int),
                Some(Expression::Integer(0)),
            )),
        ),
        (
            String::from("int i;"),
            Statement::InitDeclaration(InitDeclaration::new(
                String::from("i"),
                8,
                Type::Primitive(TypeEnum::Int),
                None,
            )),
        ),
        (
            String::from("int *i;"),
            Statement::InitDeclaration(InitDeclaration::new(
                String::from("i"),
                8,
                Type::Pointer(Box::new(Type::Primitive(TypeEnum::Int))),
                None,
            )),
        ),
        (
            String::from("int **i;"),
            Statement::InitDeclaration(InitDeclaration::new(
                String::from("i"),
                8,
                Type::Pointer(Box::new(Type::Pointer(Box::new(Type::Primitive(
                    TypeEnum::Int,
                ))))),
                None,
            )),
        ),
    ];

    for (input, expected) in cases {
        let lexer = Lexer::new(input);
        let mut parser = Parser::new(lexer);
        assert_eq!(parser.parse_statement().unwrap(), expected);
    }
}

#[test]
fn test_parse_function_definition() {
    let cases = vec![
        (
            String::from("int foo() { return 0; }"),
            Statement::FunctionDefinition(FunctionDefinition::new(
                String::from("foo"),
                vec![],
                vec![Statement::Return(Expression::Integer(0))],
            )),
        ),
        (
            String::from("int foo(int a, int b) { return 0; }"),
            Statement::FunctionDefinition(FunctionDefinition::new(
                String::from("foo"),
                vec![
                    Expression::LocalVariable {
                        name: String::from("a"),
                        offset: 8,
                        type_: Type::Primitive(TypeEnum::Int),
                    },
                    Expression::LocalVariable {
                        name: String::from("b"),
                        offset: 16,
                        type_: Type::Primitive(TypeEnum::Int),
                    },
                ],
                vec![Statement::Return(Expression::Integer(0))],
            )),
        ),
    ];
    for (input, expected) in cases {
        let lexer = Lexer::new(input);
        let mut parser = Parser::new(lexer);
        assert_eq!(parser.parse_statement().unwrap(), expected);
    }
}

#[test]
fn test_parse() {
    let cases = vec![
        (
            String::from("5;1+2*3;"),
            Program::new(vec![
                Statement::Expression(Expression::Integer(5)),
                Statement::Expression(Expression::Binary(BinaryExpression::new(
                    Expression::Integer(1),
                    BinaryOperator::Plus,
                    Expression::Binary(BinaryExpression::new(
                        Expression::Integer(2),
                        BinaryOperator::Asterisk,
                        Expression::Integer(3),
                    )),
                ))),
            ]),
        ),
        (
            String::from("bar(1, 2); return 0;"),
            Program::new(vec![
                Statement::Expression(Expression::Call(CallExpression::new(
                    String::from("bar"),
                    vec![Expression::Integer(1), Expression::Integer(2)],
                ))),
                Statement::Return(Expression::Integer(0)),
            ]),
        ),
        (
            String::from(
                r#"
                    int foo(int i) {
                        return i;
                    }
                    int main() {
                        int a = foo(10);
                        return 10;
                    }"#,
            ),
            Program::new(vec![
                Statement::FunctionDefinition(FunctionDefinition::new(
                    String::from("foo"),
                    vec![Expression::LocalVariable {
                        name: String::from("i"),
                        offset: 8,
                        type_: Type::Primitive(TypeEnum::Int),
                    }],
                    vec![Statement::Return(Expression::LocalVariable {
                        name: String::from("i"),
                        offset: 8,
                        type_: Type::Primitive(TypeEnum::Int),
                    })],
                )),
                Statement::FunctionDefinition(FunctionDefinition::new(
                    String::from("main"),
                    vec![],
                    vec![
                        Statement::InitDeclaration(InitDeclaration::new(
                            String::from("a"),
                            8,
                            Type::Primitive(TypeEnum::Int),
                            Some(Expression::Call(CallExpression::new(
                                String::from("foo"),
                                vec![Expression::Integer(10)],
                            ))),
                        )),
                        Statement::Return(Expression::Integer(10)),
                    ],
                )),
            ]),
        ),
    ];

    for (input, expected) in cases {
        let lexer = Lexer::new(input);
        let mut parser = Parser::new(lexer);
        assert_eq!(parser.parse().unwrap(), expected);
    }
}
