//! The lexer: turns source text into a token stream, each token carrying
//! the line and column it started at.  The token stream always ends with
//! an end-of-input token, and every integer literal it carries is small
//! enough for the code generator's number encoder.

use vstd::prelude::*;
use vstd::string::*;
use crate::util::str_eq;

verus! {

/// A token of the source language.
#[derive(Debug)]
pub enum Token {
    Func,
    Return,
    Const,
    Int,
    String,
    While,
    CurlyL,
    CurlyR,
    Identifier(String),
    Assign,
    Integer(i32),
    Semicolon,
    Print,
    LParen,
    RParen,
    LSquare,
    RSquare,
    Comma,
    Plus,
    Minus,
    Star,
    Slash,
    Percent,
    Equals,
    Less,
    LessOrEqual,
    Literal(String),
    Procedure,
    Exit,
    EOF,
}

/// A token together with the line and column where it started.
#[derive(Debug)]
pub struct SourceToken {
    pub token: Token,
    pub position: (usize, usize),
}

impl SourceToken {
    pub fn get(token: Token, position: (usize, usize)) -> (r: SourceToken)
        ensures
            r.token == token,
            r.position == position,
    {
        SourceToken { token, position }
    }
}

pub open spec fn is_digit(c: char) -> bool {
    48 <= c as u32 <= 57
}

pub open spec fn digit_val(c: char) -> int {
    c as u32 - 48
}

pub open spec fn is_ident_char(c: char) -> bool {
    (65 <= c as u32 <= 90) || (97 <= c as u32 <= 122) || is_digit(c) || c == '_'
}

/// The value of the digits `s[start..end)` read as a decimal number.
pub open spec fn run_value(s: Seq<char>, start: int, end: int) -> int
    decreases end - start,
{
    if start >= end {
        0
    } else {
        run_value(s, start, end - 1) * 10 + digit_val(s[end - 1])
    }
}

pub open spec fn all_digits(s: Seq<char>, start: int, end: int) -> bool {
    forall|k: int| start <= k < end ==> is_digit(s[k])
}

/// Every run of digits in the text names a value the machine's integers
/// can hold; longer texts of digits cannot be tokenized.
pub open spec fn integers_fit(s: Seq<char>) -> bool {
    forall|i: int, j: int|
        0 <= i <= j <= s.len() && #[trigger] all_digits(s, i, j) ==> #[trigger] run_value(s, i, j)
            <= i32::MAX
}

/// Every integer token's value can be rendered by the number encoder.
pub open spec fn token_values_renderable(tokens: Seq<SourceToken>) -> bool {
    forall|k: int|
        0 <= k < tokens.len() ==> match #[trigger] tokens[k].token {
            Token::Integer(v) => v != i32::MIN,
            _ => true,
        }
}

/// A cursor over the source text.
pub struct Lexer<'a> {
    input: &'a str,
    position: usize,
}

impl<'a> Lexer<'a> {
    pub closed spec fn spec_input(self) -> Seq<char> {
        self.input@
    }

    pub closed spec fn spec_position(self) -> int {
        self.position as int
    }

    pub fn new(input: &'a str) -> (r: Lexer<'a>)
        ensures
            r.spec_input() == input@,
            r.spec_position() == 0,
    {
        Lexer { input, position: 0 }
    }

    /// The character under the cursor, or `None` past the end.
    pub fn peek(&self) -> (r: Option<char>)
        ensures
            r == if self.spec_position() < self.spec_input().len() {
                Some(self.spec_input()[self.spec_position()])
            } else {
                None::<char>
            },
    {
        if self.position < self.input.unicode_len() {
            Some(self.input.get_char(self.position))
        } else {
            None
        }
    }

    /// Moves the cursor one character on.
    pub fn advance(&mut self)
        requires
            old(self).spec_position() < usize::MAX,
        ensures
            final(self).spec_input() == old(self).spec_input(),
            final(self).spec_position() == old(self).spec_position() + 1,
    {
        self.position = self.position + 1;
    }

    /// Reads the digit run under the cursor and leaves the cursor on the
    /// first character after it.
    #[verifier::loop_isolation(false)]
    fn read_integer(&mut self) -> (r: i32)
        requires
            integers_fit(old(self).spec_input()),
            old(self).spec_position() <= old(self).spec_input().len(),
        ensures
            final(self).spec_input() == old(self).spec_input(),
            old(self).spec_position() <= final(self).spec_position() <= old(
                self,
            ).spec_input().len(),
            0 <= r <= i32::MAX,
            old(self).spec_position() < old(self).spec_input().len() && is_digit(
                old(self).spec_input()[old(self).spec_position()],
            ) ==> final(self).spec_position() > old(self).spec_position(),
    {
        let len = self.input.unicode_len();
        let start = self.position;
        let mut value: i32 = 0;
        let mut scanning = true;
        while scanning && self.position < len
            invariant
                self.input@ == old(self).input@,
                len == self.input@.len(),
                integers_fit(self.input@),
                start <= self.position <= len,
                all_digits(self.input@, start as int, self.position as int),
                value == run_value(self.input@, start as int, self.position as int),
                0 <= value <= i32::MAX,
                !scanning ==> (self.position < len && !is_digit(self.input@[
                    self.position as int
                ])),
            decreases len - self.position + (if scanning { 1int } else { 0int }),
        {
            let c = self.input.get_char(self.position);
            if (c as u32) >= 48 && (c as u32) <= 57 {
                proof {
                    assert(all_digits(self.input@, start as int, self.position + 1));
                    assert(run_value(self.input@, start as int, self.position + 1) <= i32::MAX);
                    lemma_run_value_nonneg(self.input@, start as int, self.position as int);
                }
                let d: i32 = ((c as u32) - 48) as i32;
                let wide: i64 = (value as i64) * 10 + (d as i64);
                value = wide as i32;
                self.position = self.position + 1;
            } else {
                scanning = false;
            }
        }
        value
    }

    /// The line and column of the cursor, counting from one.
    fn get_file_location(&self) -> (r: (usize, usize))
        requires
            self.spec_input().len() < usize::MAX,
    {
        let len = self.input.unicode_len();
        let mut line: usize = 1;
        let mut column: usize = 1;
        let mut i: usize = 0;
        while i < len && i < self.position
            invariant
                0 <= i <= len,
                len == self.input@.len(),
                len < usize::MAX,
                1 <= line <= i + 1,
                1 <= column <= i + 1,
            decreases len - i,
        {
            let ch = self.input.get_char(i);
            if ch == '\n' {
                line = line + 1;
                column = 1;
            } else {
                column = column + 1;
            }
            i = i + 1;
        }
        (line, column)
    }

    /// Tokenizes the whole text.  The result always ends with the
    /// end-of-input token, and every integer token holds a renderable
    /// value.
    #[verifier::loop_isolation(false)]
    pub fn tokenize(&mut self) -> (r: Vec<SourceToken>)
        requires
            integers_fit(old(self).spec_input()),
            old(self).spec_input().len() < usize::MAX,
            old(self).spec_position() <= old(self).spec_input().len(),
        ensures
            r@.len() >= 1,
            r@.last().token is EOF,
            token_values_renderable(r@),
    {
        let mut tokens: Vec<SourceToken> = Vec::new();
        let len = self.input.unicode_len();
        while self.position < len
            invariant
                self.input@ == old(self).input@,
                integers_fit(self.input@),
                len == self.input@.len(),
                len < usize::MAX,
                self.position <= len + 1,
                token_values_renderable(tokens@),
            decreases len + 1 - self.position,
        {
            let ch = self.input.get_char(self.position);
            let ghost tokens_before = tokens@;
            if ch == '"' {
                let start_pos = self.get_file_location();
                self.advance();
                let lit_start = self.position;
                while self.position < len
                    invariant
                        self.input@ == old(self).input@,
                        lit_start <= self.position <= len,
                        len == self.input@.len(),
                    decreases len - self.position,
                {
                    if self.input.get_char(self.position) == '"' {
                        break;
                    }
                    self.position = self.position + 1;
                }
                let value = self.input.substring_char(lit_start, self.position).to_owned();
                self.advance();
                tokens.push(SourceToken::get(Token::Literal(value), start_pos));
            } else if ch == '[' {
                tokens.push(SourceToken::get(Token::LSquare, self.get_file_location()));
                self.advance();
            } else if ch == ']' {
                tokens.push(SourceToken::get(Token::RSquare, self.get_file_location()));
                self.advance();
            } else if ((ch as u32) >= 97 && (ch as u32) <= 122) || ((ch as u32) >= 65 && (ch
                as u32) <= 90) {
                let start_pos = self.get_file_location();
                let ident_start = self.position;
                self.position = self.position + 1;
                while self.position < len
                    invariant
                        self.input@ == old(self).input@,
                        ident_start < self.position <= len,
                        len == self.input@.len(),
                    decreases len - self.position,
                {
                    let c = self.input.get_char(self.position);
                    let code = c as u32;
                    if !((code >= 97 && code <= 122) || (code >= 65 && code <= 90) || (code >= 48
                        && code <= 57) || c == '_') {
                        break;
                    }
                    self.position = self.position + 1;
                }
                let ident = self.input.substring_char(ident_start, self.position);
                let token: Token = if str_eq(ident, "func") {
                    Token::Func
                } else if str_eq(ident, "return") {
                    Token::Return
                } else if str_eq(ident, "const") {
                    Token::Const
                } else if str_eq(ident, "string") {
                    Token::String
                } else if str_eq(ident, "int") {
                    Token::Int
                } else if str_eq(ident, "print") {
                    Token::Print
                } else if str_eq(ident, "exit") {
                    Token::Exit
                } else if str_eq(ident, "while") {
                    Token::While
                } else {
                    Token::Identifier(ident.to_owned())
                };
                tokens.push(SourceToken::get(token, start_pos));
            } else if (ch as u32) >= 48 && (ch as u32) <= 57 {
                let start_pos = self.get_file_location();
                let value = self.read_integer();
                tokens.push(SourceToken::get(Token::Integer(value), start_pos));
            } else if ch == '-' {
                let start_pos = self.get_file_location();
                self.advance();
                if self.position < len {
                    let next = self.input.get_char(self.position);
                    if (next as u32) >= 48 && (next as u32) <= 57 {
                        let value = self.read_integer();
                        tokens.push(SourceToken::get(Token::Integer(-value), start_pos));
                    } else {
                        tokens.push(SourceToken::get(Token::Minus, start_pos));
                    }
                }
            } else if ch == ',' {
                tokens.push(SourceToken::get(Token::Comma, self.get_file_location()));
                self.advance();
            } else if ch == '+' {
                let start_pos = self.get_file_location();
                self.advance();
                if self.position < len {
                    let next = self.input.get_char(self.position);
                    if (next as u32) >= 48 && (next as u32) <= 57 {
                        let value = self.read_integer();
                        tokens.push(SourceToken::get(Token::Integer(value), start_pos));
                    } else {
                        tokens.push(SourceToken::get(Token::Plus, start_pos));
                    }
                }
            } else if ch == '*' {
                tokens.push(SourceToken::get(Token::Star, self.get_file_location()));
                self.advance();
            } else if ch == '/' {
                tokens.push(SourceToken::get(Token::Slash, self.get_file_location()));
                self.advance();
            } else if ch == '%' {
                tokens.push(SourceToken::get(Token::Percent, self.get_file_location()));
                self.advance();
            } else if ch == '(' {
                tokens.push(SourceToken::get(Token::LParen, self.get_file_location()));
                self.advance();
            } else if ch == ')' {
                tokens.push(SourceToken::get(Token::RParen, self.get_file_location()));
                self.advance();
            } else if ch == '{' {
                tokens.push(SourceToken::get(Token::CurlyL, self.get_file_location()));
                self.advance();
            } else if ch == '}' {
                tokens.push(SourceToken::get(Token::CurlyR, self.get_file_location()));
                self.advance();
            } else if ch == ';' {
                tokens.push(SourceToken::get(Token::Semicolon, self.get_file_location()));
                self.advance();
            } else if ch == '=' {
                let start_pos = self.get_file_location();
                self.advance();
                let is_double = match self.peek() {
                    Some(c) => c == '=',
                    None => false,
                };
                if is_double {
                    tokens.push(SourceToken::get(Token::Equals, start_pos));
                    self.advance();
                } else {
                    tokens.push(SourceToken::get(Token::Assign, start_pos));
                }
            } else if ch == '<' {
                let start_pos = self.get_file_location();
                self.advance();
                let is_or_equal = match self.peek() {
                    Some(c) => c == '=',
                    None => false,
                };
                if is_or_equal {
                    tokens.push(SourceToken::get(Token::LessOrEqual, start_pos));
                    self.advance();
                } else {
                    tokens.push(SourceToken::get(Token::Less, start_pos));
                }
            } else {
                self.advance();
            }
        }
        let ghost before_eof = tokens@;
        tokens.push(SourceToken::get(Token::EOF, self.get_file_location()));
        proof {
            assert forall|k: int| 0 <= k < tokens@.len() implies match (#[trigger] tokens@[k]).token {
                Token::Integer(v) => v != i32::MIN,
                _ => true,
            } by {
                if k < before_eof.len() {
                    assert(tokens@[k] == before_eof[k]);
                }
            }
        }
        tokens
    }
}

proof fn lemma_run_value_nonneg(s: Seq<char>, start: int, end: int)
    requires
        all_digits(s, start, end),
    ensures
        run_value(s, start, end) >= 0,
    decreases end - start,
{
    if start < end {
        assert(all_digits(s, start, end - 1));
        lemma_run_value_nonneg(s, start, end - 1);
        assert(is_digit(s[end - 1]));
    }
}

} // verus!
