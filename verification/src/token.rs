//! Tokens of the textual assembly front-end: the closed set of token kinds
//! and the token value the lexer produces, a kind with the matched text and
//! the scanner position it was recorded at.

use vstd::prelude::*;

verus! {

/// The kind of a token.
#[derive(Clone, Copy, Debug, PartialEq, Eq, Structural)]
pub enum TokenType {
    DOLLAR,  // $
    MOVE,  // move
    ADD,  // add
    SUB,  // sub
    MUL,  // mul
    DIV,  // div
    REM,  // rem
    SET,  // set
    JMP,  // jmp
    JMC,  // jmc
    FUNCDEF,  // funcdef
    PARAMS,  // params
    VARDEF,  // vardef
    RET,  // ret
    CALL,  // call
    HALT,  // halt
    EXIT,  // exit/quit
    I8KW,  // i8
    I16KW,  // i16
    I32KW,  // i32
    I64KW,  // i64
    AT,  // @
    EQ,  // =
    UNSIGNEDKW,  // unsigned/u
    FLOATKW,  // float
    DOUBLEKW,  // double
    INTEGER { unsigned: bool, size: usize },
    ADDRESS,
    FLOATING { is_double: bool },
    IDENT,
    LPAREN,  // (
    RPAREN,  // )
    LBRACE,  // {
    RBRACE,  // }
    COMMA,  // ,
    PERIOD,  // .
    UNDER,  // _
    COLON,  // :
    PLUS,  // +
    STAR,  // *
    MINUS,  // -
    SLASH,  // /
    PERCENT,  // %
    EOF,
}

/// The mathematical content of a token: its kind, the text it was read
/// from, and the scanner position recorded with it.
#[verifier::ext_equal]
pub ghost struct TokenModel {
    pub kind: TokenType,
    pub text: Seq<char>,
    pub pos: int,
}

/// One token: a kind, the matched text, and the position it was recorded at.
#[derive(Clone)]
pub struct Token {
    kind: TokenType,
    value: String,
    pos: usize,
}

impl View for Token {
    type V = TokenModel;

    closed spec fn view(&self) -> TokenModel {
        TokenModel { kind: self.kind, text: self.value@, pos: self.pos as int }
    }
}

impl Token {
    /// Builds a token from its parts.
    pub fn new(kind: TokenType, value: String, pos: usize) -> (t: Token)
        ensures
            t@.kind == kind,
            t@.text == value@,
            t@.pos == pos,
    {
        Token { kind, value, pos }
    }

    /// The token's kind.
    pub fn kind(&self) -> (k: TokenType)
        ensures
            k == self@.kind,
    {
        self.kind
    }

    /// The matched text.
    pub fn value(&self) -> (v: &String)
        ensures
            v@ == self@.text,
    {
        &self.value
    }

    /// The position the token was recorded at.
    pub fn pos(&self) -> (p: usize)
        ensures
            p == self@.pos,
    {
        self.pos
    }

    /// A copy with the same content.
    pub fn duplicate(&self) -> (t: Token)
        ensures
            t@ == self@,
    {
        Token { kind: self.kind, value: self.value.clone(), pos: self.pos }
    }
}

} // verus!
