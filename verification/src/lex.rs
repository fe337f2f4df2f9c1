use vstd::prelude::*;

use crate::token::{Token, TokenV};

verus! {

broadcast use vstd::seq::group_seq_axioms;

// ---------------------------------------------------------------------------
// Character classes
// ---------------------------------------------------------------------------

pub open spec fn is_ws(c: char) -> bool {
    c == ' ' || c == '\t' || c == '\n' || c == '\r'
}

pub open spec fn is_digit_ch(c: char) -> bool {
    48 <= c as u32 <= 57
}

pub open spec fn is_ident_start(c: char) -> bool {
    (97 <= c as u32 <= 122) || (65 <= c as u32 <= 90) || c == '_'
}

pub open spec fn is_ident_ch(c: char) -> bool {
    is_ident_start(c) || is_digit_ch(c)
}

// ---------------------------------------------------------------------------
// Token scanning, mathematically
// ---------------------------------------------------------------------------

/// Length of the leading run of decimal digits.
pub open spec fn digit_run(s: Seq<char>) -> int
    decreases s.len(),
{
    if s.len() > 0 && is_digit_ch(s[0]) {
        1 + digit_run(s.skip(1))
    } else {
        0
    }
}

/// Length of the leading run of identifier characters.
pub open spec fn ident_run(s: Seq<char>) -> int
    decreases s.len(),
{
    if s.len() > 0 && is_ident_ch(s[0]) {
        1 + ident_run(s.skip(1))
    } else {
        0
    }
}

/// One step of reading a decimal literal, wrapping at 2^32 as the lexer's
/// 32-bit accumulator does.
pub open spec fn wrap_step(acc: int, c: char) -> int {
    (acc * 10 + (c as u32 - 48)) % 0x1_0000_0000
}

pub open spec fn digits_acc(s: Seq<char>, acc: int) -> int
    decreases s.len(),
{
    if s.len() == 0 {
        acc
    } else {
        digits_acc(s.skip(1), wrap_step(acc, s[0]))
    }
}

/// Value of a digit string as the `i32` the lexer stores: accumulated with
/// 32-bit wrapping, then reinterpreted as a signed 32-bit integer.
pub open spec fn int_of_digits(s: Seq<char>) -> int {
    let v = digits_acc(s, 0);
    if v >= 0x8000_0000 {
        v - 0x1_0000_0000
    } else {
        v
    }
}

/// Keyword lookup: a reserved word maps to its keyword token, any other name
/// to an identifier token.
pub open spec fn keyword_of(s: Seq<char>) -> TokenV {
    if s == "if"@ {
        TokenV::If
    } else if s == "else"@ {
        TokenV::Else
    } else if s == "while"@ {
        TokenV::While
    } else if s == "for"@ {
        TokenV::For
    } else if s == "return"@ {
        TokenV::Return
    } else if s == "void"@ {
        TokenV::Void
    } else if s == "char"@ {
        TokenV::Char
    } else if s == "short"@ {
        TokenV::Short
    } else if s == "int"@ {
        TokenV::Int
    } else if s == "long"@ {
        TokenV::Long
    } else if s == "float"@ {
        TokenV::Float
    } else if s == "double"@ {
        TokenV::Double
    } else {
        TokenV::Identifier(s)
    }
}

/// How many characters the token starting at `s[0]` spans.
/// Meaningful when `s` is nonempty and does not start with whitespace.
pub open spec fn scan_len(s: Seq<char>) -> int {
    let c = s[0];
    if is_digit_ch(c) {
        1 + digit_run(s.skip(1))
    } else if is_ident_start(c) {
        1 + ident_run(s.skip(1))
    } else if (c == '=' || c == '!' || c == '<' || c == '>') && s.len() >= 2 && s[1] == '=' {
        2
    } else {
        1
    }
}

/// The token starting at `s[0]`.
/// Meaningful when `s` is nonempty and does not start with whitespace.
pub open spec fn scan_tok(s: Seq<char>) -> TokenV {
    let c = s[0];
    if is_digit_ch(c) {
        TokenV::Integer(int_of_digits(s.take(scan_len(s))))
    } else if is_ident_start(c) {
        keyword_of(s.take(scan_len(s)))
    } else if c == '=' {
        if s.len() >= 2 && s[1] == '=' {
            TokenV::Eq
        } else {
            TokenV::Assignment
        }
    } else if c == '!' {
        if s.len() >= 2 && s[1] == '=' {
            TokenV::NotEq
        } else {
            TokenV::Illegal('!')
        }
    } else if c == '<' {
        if s.len() >= 2 && s[1] == '=' {
            TokenV::LtEq
        } else {
            TokenV::Lt
        }
    } else if c == '>' {
        if s.len() >= 2 && s[1] == '=' {
            TokenV::GtEq
        } else {
            TokenV::Gt
        }
    } else if c == '+' {
        TokenV::Plus
    } else if c == '-' {
        TokenV::Minus
    } else if c == '*' {
        TokenV::Asterisk
    } else if c == '/' {
        TokenV::Slash
    } else if c == '(' {
        TokenV::LParen
    } else if c == ')' {
        TokenV::RParen
    } else if c == '{' {
        TokenV::LBrace
    } else if c == '}' {
        TokenV::RBrace
    } else if c == ';' {
        TokenV::SemiColon
    } else if c == ',' {
        TokenV::Comma
    } else {
        TokenV::Illegal(c)
    }
}

/// The whole token sequence of an input. The trailing `Eof` is not part of
/// the sequence: a lexer that has run past the end keeps returning `Eof`.
pub open spec fn lex_all(s: Seq<char>) -> Seq<TokenV>
    decreases s.len(),
    via lex_all_dec
{
    if s.len() == 0 {
        Seq::empty()
    } else if is_ws(s[0]) {
        lex_all(s.skip(1))
    } else {
        seq![scan_tok(s)] + lex_all(s.skip(scan_len(s)))
    }
}

#[via_fn]
proof fn lex_all_dec(s: Seq<char>) {
    if s.len() > 0 && !is_ws(s[0]) {
        lemma_digit_run_bounds(s.skip(1));
        lemma_ident_run_bounds(s.skip(1));
    }
}

pub proof fn lemma_digit_run_bounds(s: Seq<char>)
    ensures
        0 <= digit_run(s) <= s.len(),
    decreases s.len(),
{
    if s.len() > 0 && is_digit_ch(s[0]) {
        lemma_digit_run_bounds(s.skip(1));
    }
}

pub proof fn lemma_ident_run_bounds(s: Seq<char>)
    ensures
        0 <= ident_run(s) <= s.len(),
    decreases s.len(),
{
    if s.len() > 0 && is_ident_ch(s[0]) {
        lemma_ident_run_bounds(s.skip(1));
    }
}

pub proof fn lemma_scan_len_bounds(s: Seq<char>)
    requires
        s.len() > 0,
        !is_ws(s[0]),
    ensures
        1 <= scan_len(s) <= s.len(),
{
    lemma_digit_run_bounds(s.skip(1));
    lemma_ident_run_bounds(s.skip(1));
}

/// A run of digits is exactly `k` long when the first `k` characters are
/// digits and the next one (if any) is not.
pub proof fn lemma_digit_run_is(s: Seq<char>, k: int)
    requires
        0 <= k <= s.len(),
        forall|j: int| 0 <= j < k ==> is_digit_ch(s[j]),
        k < s.len() ==> !is_digit_ch(s[k]),
    ensures
        digit_run(s) == k,
    decreases k,
{
    if k == 0 {
    } else {
        assert(is_digit_ch(s[0]));
        lemma_digit_run_is(s.skip(1), k - 1);
    }
}

pub proof fn lemma_ident_run_is(s: Seq<char>, k: int)
    requires
        0 <= k <= s.len(),
        forall|j: int| 0 <= j < k ==> is_ident_ch(s[j]),
        k < s.len() ==> !is_ident_ch(s[k]),
    ensures
        ident_run(s) == k,
    decreases k,
{
    if k == 0 {
    } else {
        assert(is_ident_ch(s[0]));
        lemma_ident_run_is(s.skip(1), k - 1);
    }
}

/// Reading one more digit on the right applies one more accumulator step.
pub proof fn lemma_digits_acc_push(u: Seq<char>, c: char, a: int)
    ensures
        digits_acc(u.push(c), a) == wrap_step(digits_acc(u, a), c),
    decreases u.len(),
{
    if u.len() == 0 {
        assert(u.push(c).skip(1) =~= Seq::<char>::empty());
        assert(u.push(c)[0] == c);
        assert(digits_acc(Seq::<char>::empty(), wrap_step(a, c)) == wrap_step(a, c));
    } else {
        assert(u.push(c).skip(1) =~= u.skip(1).push(c));
        assert(u.push(c)[0] == u[0]);
        lemma_digits_acc_push(u.skip(1), c, wrap_step(a, u[0]));
        assert(digits_acc(u.push(c), a) == digits_acc(u.skip(1).push(c), wrap_step(a, u[0])));
        assert(digits_acc(u, a) == digits_acc(u.skip(1), wrap_step(a, u[0])));
    }
}

/// The wrapped accumulator stays a 32-bit value.
pub proof fn lemma_digits_acc_range(s: Seq<char>, a: int)
    requires
        0 <= a < 0x1_0000_0000,
    ensures
        0 <= digits_acc(s, a) < 0x1_0000_0000,
    decreases s.len(),
{
    if s.len() > 0 {
        lemma_digits_acc_range(s.skip(1), wrap_step(a, s[0]));
    }
}

// ---------------------------------------------------------------------------
// The executable lexer
// ---------------------------------------------------------------------------

/// Pull-based lexer over one input string. `next` returns the next token and
/// advances; once the input is exhausted it returns `Eof` forever.
pub struct Lexer {
    input: String,
    n: usize,
    pos: usize,
}

impl Lexer {
    /// The characters not yet consumed.
    pub closed spec fn rest(&self) -> Seq<char> {
        self.input@.skip(self.pos as int)
    }

    pub closed spec fn wf(&self) -> bool {
        self.pos <= self.n && self.n == self.input@.len()
    }

    pub fn new(input: String) -> (r: Self)
        ensures
            r.wf(),
            r.rest() == input@,
    {
        let n = input.as_str().unicode_len();
        let r = Lexer { input, n, pos: 0 };
        proof {
            assert(r.rest() =~= r.input@);
        }
        r
    }

    fn char_at(&self, i: usize) -> (c: char)
        requires
            self.wf(),
            i < self.n,
        ensures
            c == self.input@[i as int],
    {
        self.input.as_str().get_char(i)
    }

    /// Advance past the leading run of digits, returning its wrapped value.
    fn read_int(&mut self) -> (v: u32)
        requires
            old(self).wf(),
            old(self).pos < old(self).n,
            is_digit_ch(old(self).rest()[0]),
        ensures
            final(self).wf(),
            final(self).input == old(self).input,
            final(self).pos == old(self).pos + digit_run(old(self).rest()),
            v as int == digits_acc(old(self).rest().take(digit_run(old(self).rest())), 0),
    {
        let ghost s = old(self).rest();
        let start = self.pos;
        let mut acc: u32 = 0;
        loop
            invariant
                self.wf(),
                self.input == old(self).input,
                s == self.input@.skip(start as int),
                start <= self.pos <= self.n,
                forall|j: int| start <= j < self.pos ==> is_digit_ch(self.input@[j]),
                acc as int == digits_acc(s.take(self.pos - start), 0),
            ensures
                self.pos == self.n || !is_digit_ch(self.input@[self.pos as int]),
            decreases self.n - self.pos,
        {
            if self.pos == self.n {
                break ;
            }
            let c = self.char_at(self.pos);
            let u = c as u32;
            if !(48 <= u && u <= 57) {
                break ;
            }
            proof {
                let m = self.pos - start;
                assert(s.take(m + 1) =~= s.take(m).push(s[m]));
                lemma_digits_acc_push(s.take(m), s[m], 0);
            }
            let t: u64 = (acc as u64) * 10 + ((u - 48) as u64);
            acc = (t % 0x1_0000_0000) as u32;
            self.pos = self.pos + 1;
        }
        proof {
            let k = self.pos - start;
            assert(forall|j: int| 0 <= j < k ==> is_digit_ch(s[j]));
            if k < s.len() {
                assert(s[k] == self.input@[self.pos as int]);
            }
            lemma_digit_run_is(s, k);
        }
        acc
    }

    /// Advance past the leading run of identifier characters, returning them.
    fn read_ident(&mut self) -> (id: String)
        requires
            old(self).wf(),
            old(self).pos < old(self).n,
            is_ident_start(old(self).rest()[0]),
        ensures
            final(self).wf(),
            final(self).input == old(self).input,
            final(self).pos == old(self).pos + ident_run(old(self).rest()),
            id@ == old(self).rest().take(ident_run(old(self).rest())),
    {
        let ghost s = old(self).rest();
        let start = self.pos;
        loop
            invariant
                self.wf(),
                self.input == old(self).input,
                s == self.input@.skip(start as int),
                start <= self.pos <= self.n,
                forall|j: int| start <= j < self.pos ==> is_ident_ch(self.input@[j]),
            ensures
                self.pos == self.n || !is_ident_ch(self.input@[self.pos as int]),
            decreases self.n - self.pos,
        {
            if self.pos == self.n {
                break ;
            }
            let c = self.char_at(self.pos);
            let u = c as u32;
            if !((97 <= u && u <= 122) || (65 <= u && u <= 90) || c == '_' || (48 <= u && u
                <= 57)) {
                break ;
            }
            self.pos = self.pos + 1;
        }
        proof {
            let k = self.pos - start;
            assert(forall|j: int| 0 <= j < k ==> is_ident_ch(s[j]));
            if k < s.len() {
                assert(s[k] == self.input@[self.pos as int]);
            }
            lemma_ident_run_is(s, k);
        }
        let id = self.input.as_str().substring_char(start, self.pos).to_owned();
        proof {
            assert(id@ =~= s.take(self.pos - start));
        }
        id
    }

    /// The next token. Returns `Eof` once the input is exhausted and on every
    /// call thereafter.
    pub fn next(&mut self) -> (t: Token)
        requires
            old(self).wf(),
        ensures
            final(self).wf(),
            lex_all(old(self).rest()).len() == 0 ==> t@ == TokenV::Eof && lex_all(
                final(self).rest(),
            ).len() == 0,
            lex_all(old(self).rest()).len() > 0 ==> t@ == lex_all(old(self).rest())[0] && lex_all(
                final(self).rest(),
            ) == lex_all(old(self).rest()).skip(1),
    {
        let ghost r0 = old(self).rest();
        // Skip whitespace.
        loop
            invariant
                self.wf(),
                self.input == old(self).input,
                old(self).pos <= self.pos,
                lex_all(self.rest()) == lex_all(r0),
            ensures
                self.pos == self.n || !is_ws(self.input@[self.pos as int]),
            decreases self.n - self.pos,
        {
            if self.pos == self.n {
                break ;
            }
            let c = self.char_at(self.pos);
            if c == ' ' || c == '\t' || c == '\n' || c == '\r' {
                proof {
                    assert(self.rest().skip(1) =~= self.input@.skip(self.pos + 1));
                }
                self.pos = self.pos + 1;
            } else {
                break ;
            }
        }
        if self.pos == self.n {
            proof {
                assert(self.rest() =~= Seq::<char>::empty());
            }
            return Token::Eof;
        }
        let ghost s = self.rest();
        proof {
            lemma_scan_len_bounds(s);
        }
        let start = self.pos;
        let c = self.char_at(self.pos);
        let u = c as u32;
        let tok: Token;
        if 48 <= u && u <= 57 {
            let v = self.read_int();
            let w = #[verifier::truncate] (v as i32);
            proof {
                assert(digit_run(s) == 1 + digit_run(s.skip(1)));
                assert(scan_len(s) == digit_run(s));
                lemma_digits_acc_range(s.take(scan_len(s)), 0);
                assert((v < 0x8000_0000u32 ==> (v as i32) as int == v as int) && (v
                    >= 0x8000_0000u32 ==> (v as i32) as int == v as int - 0x1_0000_0000)) by (bit_vector);
                assert(w as int == int_of_digits(s.take(scan_len(s))));
            }
            tok = Token::Integer(w);
        } else if (97 <= u && u <= 122) || (65 <= u && u <= 90) || c == '_' {
            let id = self.read_ident();
            proof {
                assert(ident_run(s) == 1 + ident_run(s.skip(1)));
                assert(scan_len(s) == ident_run(s));
            }
            tok = keyword_token(id);
        } else {
            let two = if (c == '=' || c == '!' || c == '<' || c == '>') && self.pos + 1 < self.n {
                let c2 = self.char_at(self.pos + 1);
                c2 == '='
            } else {
                false
            };
            if two {
                self.pos = self.pos + 2;
                tok = if c == '=' {
                    Token::Eq
                } else if c == '!' {
                    Token::NotEq
                } else if c == '<' {
                    Token::LtEq
                } else {
                    Token::GtEq
                };
            } else {
                self.pos = self.pos + 1;
                tok = if c == '=' {
                    Token::Assignment
                } else if c == '+' {
                    Token::Plus
                } else if c == '-' {
                    Token::Minus
                } else if c == '*' {
                    Token::Asterisk
                } else if c == '/' {
                    Token::Slash
                } else if c == '(' {
                    Token::LParen
                } else if c == ')' {
                    Token::RParen
                } else if c == '{' {
                    Token::LBrace
                } else if c == '}' {
                    Token::RBrace
                } else if c == ';' {
                    Token::SemiColon
                } else if c == ',' {
                    Token::Comma
                } else if c == '<' {
                    Token::Lt
                } else if c == '>' {
                    Token::Gt
                } else {
                    Token::Illegal(c)
                };
            }
        }
        proof {
            assert(self.pos == start + scan_len(s));
            assert(tok@ == scan_tok(s));
            assert(self.rest() =~= s.skip(scan_len(s)));
            assert(lex_all(s) == seq![scan_tok(s)] + lex_all(s.skip(scan_len(s))));
            assert(lex_all(r0)[0] == scan_tok(s));
            assert(lex_all(r0).skip(1) =~= lex_all(s.skip(scan_len(s))));
        }
        tok
    }
}

/// Map a scanned name to its keyword token, or keep it as an identifier.
fn keyword_token(id: String) -> (t: Token)
    ensures
        t@ == keyword_of(id@),
{
    if id == String::from_str("if") {
        Token::If
    } else if id == String::from_str("else") {
        Token::Else
    } else if id == String::from_str("while") {
        Token::While
    } else if id == String::from_str("for") {
        Token::For
    } else if id == String::from_str("return") {
        Token::Return
    } else if id == String::from_str("void") {
        Token::Void
    } else if id == String::from_str("char") {
        Token::Char
    } else if id == String::from_str("short") {
        Token::Short
    } else if id == String::from_str("int") {
        Token::Int
    } else if id == String::from_str("long") {
        Token::Long
    } else if id == String::from_str("float") {
        Token::Float
    } else if id == String::from_str("double") {
        Token::Double
    } else {
        Token::Identifier(id)
    }
}

} // verus!
