use vstd::prelude::*;

verus! {

/// Tokens produced by the lexer. `Eof` is returned once the input is
/// exhausted; a character that starts no token becomes `Illegal`, which the
/// parser rejects as an invalid token.
#[derive(Debug, PartialEq, Eq)]
pub enum Token {
    Integer(i32),
    Identifier(String),
    If,
    Else,
    While,
    For,
    Return,
    Void,
    Char,
    Short,
    Int,
    Long,
    Float,
    Double,
    Plus,
    Minus,
    Asterisk,
    Slash,
    LParen,
    RParen,
    LBrace,
    RBrace,
    SemiColon,
    Comma,
    Assignment,
    Eq,
    NotEq,
    Lt,
    LtEq,
    Gt,
    GtEq,
    Illegal(char),
    Eof,
}

/// Mathematical model of a token: integer literals as unbounded integers,
/// identifier names as character sequences.
pub enum TokenV {
    Integer(int),
    Identifier(Seq<char>),
    If,
    Else,
    While,
    For,
    Return,
    Void,
    Char,
    Short,
    Int,
    Long,
    Float,
    Double,
    Plus,
    Minus,
    Asterisk,
    Slash,
    LParen,
    RParen,
    LBrace,
    RBrace,
    SemiColon,
    Comma,
    Assignment,
    Eq,
    NotEq,
    Lt,
    LtEq,
    Gt,
    GtEq,
    Illegal(char),
    Eof,
}

pub open spec fn spec_token_view(t: Token) -> TokenV {
    match t {
        Token::Integer(n) => TokenV::Integer(n as int),
        Token::Identifier(s) => TokenV::Identifier(s@),
        Token::If => TokenV::If,
        Token::Else => TokenV::Else,
        Token::While => TokenV::While,
        Token::For => TokenV::For,
        Token::Return => TokenV::Return,
        Token::Void => TokenV::Void,
        Token::Char => TokenV::Char,
        Token::Short => TokenV::Short,
        Token::Int => TokenV::Int,
        Token::Long => TokenV::Long,
        Token::Float => TokenV::Float,
        Token::Double => TokenV::Double,
        Token::Plus => TokenV::Plus,
        Token::Minus => TokenV::Minus,
        Token::Asterisk => TokenV::Asterisk,
        Token::Slash => TokenV::Slash,
        Token::LParen => TokenV::LParen,
        Token::RParen => TokenV::RParen,
        Token::LBrace => TokenV::LBrace,
        Token::RBrace => TokenV::RBrace,
        Token::SemiColon => TokenV::SemiColon,
        Token::Comma => TokenV::Comma,
        Token::Assignment => TokenV::Assignment,
        Token::Eq => TokenV::Eq,
        Token::NotEq => TokenV::NotEq,
        Token::Lt => TokenV::Lt,
        Token::LtEq => TokenV::LtEq,
        Token::Gt => TokenV::Gt,
        Token::GtEq => TokenV::GtEq,
        Token::Illegal(c) => TokenV::Illegal(c),
        Token::Eof => TokenV::Eof,
    }
}

impl View for Token {
    type V = TokenV;

    open spec fn view(&self) -> TokenV {
        spec_token_view(*self)
    }
}

impl Token {
    /// Whether this token is one of the type keywords that may start a
    /// declaration or function definition.
    pub fn is_type_keyword(&self) -> (r: bool)
        ensures
            r == spec_is_type_keyword(self@),
    {
        match self {
            Token::Void
            | Token::Char
            | Token::Short
            | Token::Int
            | Token::Long
            | Token::Float
            | Token::Double => true,
            _ => false,
        }
    }
}

pub open spec fn spec_is_type_keyword(t: TokenV) -> bool {
    match t {
        TokenV::Void
        | TokenV::Char
        | TokenV::Short
        | TokenV::Int
        | TokenV::Long
        | TokenV::Float
        | TokenV::Double => true,
        _ => false,
    }
}

} // verus!
