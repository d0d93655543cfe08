//! The lexer of the textual assembly front-end. It walks the input string
//! one character at a time, with a NUL sentinel past the end, and produces
//! the token stream: keywords introduced by `$`, punctuation, decimal and
//! hexadecimal numbers, identifiers and an end-of-input token.
//!
//! The scan is specified by `lex_from`, a recursive model of the walk; it
//! yields `None` on the inputs the scanner cannot accept (an unknown
//! keyword, an unexpected character, a second dot inside one number, and the
//! `@` address introducer, on which the scanner never makes progress).

use vstd::prelude::*;
use vstd::string::StrSliceExecFns;
use vstd::string::StringExecFns;

use crate::stringutils::StringBuilder;
use crate::token::{Token, TokenModel, TokenType};

verus! {

/// The character the scanner sees at position `p`: the character itself
/// inside the input, the NUL sentinel anywhere past it.
pub open spec fn char_at(s: Seq<char>, p: int) -> char {
    if 0 <= p < s.len() {
        s[p]
    } else {
        '\0'
    }
}

/// A decimal digit.
pub open spec fn is_digit10(c: char) -> bool {
    48 <= c as u32 <= 57
}

/// A hexadecimal digit, either case.
pub open spec fn is_digit16(c: char) -> bool {
    (48 <= c as u32 <= 57) || (97 <= c as u32 <= 102) || (65 <= c as u32 <= 70)
}

/// Whether `char::is_alphabetic` holds of `c`.
pub uninterp spec fn is_alphabetic_char(c: char) -> bool;

/// Whether `char::is_whitespace` holds of `c`.
pub uninterp spec fn is_whitespace_char(c: char) -> bool;

/// Relies on `char::is_alphabetic`: the Unicode letter classification, a
/// pure function of the character; the NUL sentinel is not a letter.
#[verifier::external_body]
fn char_is_alphabetic(c: char) -> (r: bool)
    ensures
        r == is_alphabetic_char(c),
        c == '\0' ==> !r,
{
    c.is_alphabetic()
}

/// Relies on `char::is_whitespace`: the Unicode white-space classification,
/// a pure function of the character; the NUL sentinel is not white space.
#[verifier::external_body]
fn char_is_whitespace(c: char) -> (r: bool)
    ensures
        r == is_whitespace_char(c),
        c == '\0' ==> !r,
{
    c.is_whitespace()
}

/// A decimal digit, decided directly.
fn char_is_digit10(c: char) -> (r: bool)
    ensures
        r == is_digit10(c),
{
    let u = c as u32;
    48 <= u && u <= 57
}

/// A hexadecimal digit, decided directly.
fn char_is_digit16(c: char) -> (r: bool)
    ensures
        r == is_digit16(c),
{
    let u = c as u32;
    (48 <= u && u <= 57) || (97 <= u && u <= 102) || (65 <= u && u <= 70)
}

/// The token a single punctuation character makes, if any.
pub open spec fn punct_token(c: char) -> Option<TokenType> {
    if c == '.' {
        Some(TokenType::PERIOD)
    } else if c == ',' {
        Some(TokenType::COMMA)
    } else if c == '_' {
        Some(TokenType::UNDER)
    } else if c == ':' {
        Some(TokenType::COLON)
    } else if c == '(' {
        Some(TokenType::LPAREN)
    } else if c == ')' {
        Some(TokenType::RPAREN)
    } else if c == '{' {
        Some(TokenType::LBRACE)
    } else if c == '}' {
        Some(TokenType::RBRACE)
    } else if c == '=' {
        Some(TokenType::EQ)
    } else if c == '+' {
        Some(TokenType::PLUS)
    } else if c == '-' {
        Some(TokenType::MINUS)
    } else if c == '*' {
        Some(TokenType::STAR)
    } else if c == '/' {
        Some(TokenType::SLASH)
    } else if c == '%' {
        Some(TokenType::PERCENT)
    } else {
        None
    }
}

/// The keyword table: the token kind a `$`-introduced word maps to, if any.
pub open spec fn keyword_token(s: Seq<char>) -> Option<TokenType> {
    if s == "$add"@ {
        Some(TokenType::ADD)
    } else if s == "$sub"@ {
        Some(TokenType::SUB)
    } else if s == "$mul"@ {
        Some(TokenType::MUL)
    } else if s == "$div"@ {
        Some(TokenType::DIV)
    } else if s == "$rem"@ {
        Some(TokenType::REM)
    } else if s == "$move"@ {
        Some(TokenType::MOVE)
    } else if s == "$set"@ {
        Some(TokenType::SET)
    } else if s == "$jmp"@ {
        Some(TokenType::JMP)
    } else if s == "$jmc"@ {
        Some(TokenType::JMC)
    } else if s == "$funcdef"@ {
        Some(TokenType::FUNCDEF)
    } else if s == "$params"@ {
        Some(TokenType::PARAMS)
    } else if s == "$vardef"@ {
        Some(TokenType::VARDEF)
    } else if s == "$ret"@ {
        Some(TokenType::RET)
    } else if s == "$call"@ {
        Some(TokenType::CALL)
    } else if s == "$halt"@ {
        Some(TokenType::HALT)
    } else if s == "$exit"@ {
        Some(TokenType::EXIT)
    } else if s == "$quit"@ {
        Some(TokenType::EXIT)
    } else if s == "$i8"@ {
        Some(TokenType::I8KW)
    } else if s == "$i16"@ {
        Some(TokenType::I16KW)
    } else if s == "$i32"@ {
        Some(TokenType::I32KW)
    } else if s == "$i64"@ {
        Some(TokenType::I64KW)
    } else if s == "$unsigned"@ {
        Some(TokenType::UNSIGNEDKW)
    } else if s == "$u"@ {
        Some(TokenType::UNSIGNEDKW)
    } else if s == "$float"@ {
        Some(TokenType::FLOATKW)
    } else if s == "$double"@ {
        Some(TokenType::DOUBLEKW)
    } else {
        None
    }
}

/// How many keyword-tail characters (letters or decimal digits) stand at `i`.
pub open spec fn scan_alnum_len(s: Seq<char>, i: int) -> nat
    decreases s.len() - i,
{
    if 0 <= i < s.len() && (is_alphabetic_char(s[i]) || is_digit10(s[i])) {
        1 + scan_alnum_len(s, i + 1)
    } else {
        0
    }
}

/// How many hexadecimal digits stand at `i`.
pub open spec fn scan_hex_len(s: Seq<char>, i: int) -> nat
    decreases s.len() - i,
{
    if 0 <= i < s.len() && is_digit16(s[i]) {
        1 + scan_hex_len(s, i + 1)
    } else {
        0
    }
}

/// How many identifier characters (letters or underscores) stand at `i`.
pub open spec fn scan_ident_len(s: Seq<char>, i: int) -> nat
    decreases s.len() - i,
{
    if 0 <= i < s.len() && (is_alphabetic_char(s[i]) || s[i] == '_') {
        1 + scan_ident_len(s, i + 1)
    } else {
        0
    }
}

/// The number scan from `i` with `seen_dot` dots consumed so far: how many
/// text characters follow, whether a trailing `f` is consumed, and whether
/// the number is floating (holds a dot). `None` where a second dot stops the
/// scanner.
pub open spec fn scan_number(s: Seq<char>, i: int, seen_dot: bool) -> Option<(nat, bool, bool)>
    decreases s.len() - i,
{
    let c = char_at(s, i);
    if is_digit10(c) {
        match scan_number(s, i + 1, seen_dot) {
            Some((n, f, d)) => Some((n + 1, f, d)),
            None => None,
        }
    } else if c == '.' {
        if seen_dot {
            None
        } else {
            match scan_number(s, i + 1, true) {
                Some((n, f, d)) => Some((n + 1, f, d)),
                None => None,
            }
        }
    } else if c == 'f' {
        Some((0, true, seen_dot))
    } else {
        Some((0, false, seen_dot))
    }
}

/// Shorthand for one token of the model.
pub open spec fn tok(kind: TokenType, text: Seq<char>, pos: int) -> TokenModel {
    TokenModel { kind, text, pos }
}

/// The token stream the scanner produces from position `pos` on, walking
/// while `pos < size`; `None` where it stops with an error or can make no
/// progress. Mirrors the scanner's arms in their order: keyword, single
/// punctuation, skipped line breaks and tabs, the address introducer (on
/// which the scanner loops without advancing), the end sentinel, and then
/// hexadecimal numbers, decimal numbers, identifiers and white space.
pub open spec fn lex_from(s: Seq<char>, size: int, pos: int) -> Option<Seq<TokenModel>>
    decreases (if pos < size {
        size - pos
    } else {
        0
    }),
{
    if pos >= size {
        Some(Seq::<TokenModel>::empty())
    } else {
        let c = char_at(s, pos);
        if c == '$' {
            let j = pos + 1 + scan_alnum_len(s, pos + 1);
            let kw = seq!['$'] + s.subrange(pos + 1, j);
            if keyword_token(kw) is Some {
                match lex_from(s, size, j) {
                    Some(rest) => Some(seq![tok(keyword_token(kw)->Some_0, kw, j)] + rest),
                    None => None,
                }
            } else {
                None
            }
        } else if punct_token(c) is Some {
            match lex_from(s, size, pos + 1) {
                Some(rest) => Some(seq![tok(punct_token(c)->Some_0, seq![c], pos)] + rest),
                None => None,
            }
        } else if c == '\n' || c == '\t' {
            lex_from(s, size, pos + 1)
        } else if c == '@' {
            None
        } else if c == '\0' {
            Some(seq![tok(TokenType::EOF, seq!['\0'], 999999)])
        } else if c == '0' && char_at(s, pos + 1) == 'x' {
            let j = pos + 2 + scan_hex_len(s, pos + 2);
            match lex_from(s, size, j) {
                Some(rest) => Some(
                    seq![
                        tok(
                            TokenType::INTEGER { unsigned: true, size: 32 },
                            s.subrange(pos + 2, j),
                            j,
                        ),
                    ] + rest,
                ),
                None => None,
            }
        } else if is_digit10(c) {
            match scan_number(s, pos, false) {
                Some((ntext, got_f, dotted)) => {
                    let tend = pos + ntext;
                    let j = if got_f {
                        tend + 1
                    } else {
                        tend
                    };
                    let kind = if dotted {
                        TokenType::FLOATING { is_double: !got_f }
                    } else {
                        TokenType::INTEGER { unsigned: false, size: 32 }
                    };
                    match lex_from(s, size, j) {
                        Some(rest) => Some(seq![tok(kind, s.subrange(pos, tend), j)] + rest),
                        None => None,
                    }
                },
                None => None,
            }
        } else if is_alphabetic_char(c) {
            let j = pos + scan_ident_len(s, pos);
            match lex_from(s, size, j) {
                Some(rest) => Some(seq![tok(TokenType::IDENT, s.subrange(pos, j), j)] + rest),
                None => None,
            }
        } else if is_whitespace_char(c) {
            lex_from(s, size, pos + 1)
        } else {
            None
        }
    }
}

/// The mathematical state of the scanner.
#[verifier::ext_equal]
pub ghost struct LexerModel {
    pub pos: int,
    pub chars: Seq<char>,
    pub cur: char,
    pub size: int,
    pub toks: Seq<TokenModel>,
    pub buf: Seq<char>,
}

/// The lexer: a cursor over the input, the tokens produced so far, and a
/// text buffer for the token being scanned.
pub struct Lexer {
    pos: usize,
    input: String,
    cur: char,
    size: usize,
    output: Vec<Token>,
    buffer: StringBuilder,
}

impl View for Lexer {
    type V = LexerModel;

    closed spec fn view(&self) -> LexerModel {
        LexerModel {
            pos: self.pos as int,
            chars: self.input@,
            cur: self.cur,
            size: self.size as int,
            toks: self.output@.map_values(|t: Token| t@),
            buf: self.buffer@,
        }
    }
}

impl Lexer {
    /// The cursor always caches the character at the current position.
    pub open spec fn wf(&self) -> bool {
        self@.cur == char_at(self@.chars, self@.pos)
    }

    /// A fresh scanner over `input`, at its first character. The byte length
    /// of the input bounds the walk.
    pub fn new(input: String) -> (l: Lexer)
        requires
            input@.len() > 0,
        ensures
            l.wf(),
            l@.pos == 0,
            l@.chars == input@,
            l@.cur == input@[0],
            l@.toks == Seq::<TokenModel>::empty(),
            l@.buf == Seq::<char>::empty(),
    {
        let pos: usize = 0;
        let cur = input.as_str().get_char(0);
        let size = input.as_str().len();
        let l = Lexer { pos, input, cur, size, output: Vec::new(), buffer: StringBuilder::new() };
        proof {
            assert(l@.toks =~= Seq::<TokenModel>::empty());
        }
        l
    }

    /// Whether the cursor still stands before the end of the walk.
    fn has_next(&self) -> (r: bool)
        ensures
            r == (self@.pos < self@.size),
    {
        self.pos < self.size
    }

    /// Advances the cursor one character and re-caches the character under
    /// it, the NUL sentinel past the end of the input.
    fn next(&mut self)
        requires
            old(self).wf(),
            char_at(old(self)@.chars, old(self)@.pos) != '\0',
        ensures
            final(self).wf(),
            final(self)@ == (LexerModel {
                pos: old(self)@.pos + 1,
                cur: char_at(old(self)@.chars, old(self)@.pos + 1),
                ..old(self)@
            }),
    {
        let n = self.input.as_str().unicode_len();
        self.pos = self.pos + 1;
        if self.pos < n {
            self.cur = self.input.as_str().get_char(self.pos);
        } else {
            self.cur = '\0';
        }
    }

    /// The character `offset` places ahead of the cursor, the NUL sentinel
    /// where the input ends first.
    fn peek(&self, offset: usize) -> (c: char)
        ensures
            c == char_at(self@.chars, self@.pos + offset),
    {
        let n = self.input.as_str().unicode_len();
        if self.pos < n && offset < n - self.pos {
            self.input.as_str().get_char(self.pos + offset)
        } else {
            '\0'
        }
    }

    /// Whether the cursor stands on a keyword-tail character; such a
    /// character is never the NUL sentinel.
    fn cur_is_alnum(&self) -> (r: bool)
        ensures
            r == (is_alphabetic_char(self@.cur) || is_digit10(self@.cur)),
            r ==> self@.cur != '\0',
    {
        char_is_alphabetic(self.cur) || char_is_digit10(self.cur)
    }

    /// Whether the cursor stands on an identifier character; such a
    /// character is never the NUL sentinel.
    fn cur_is_ident_char(&self) -> (r: bool)
        ensures
            r == (is_alphabetic_char(self@.cur) || self@.cur == '_'),
            r ==> self@.cur != '\0',
    {
        char_is_alphabetic(self.cur) || self.cur == '_'
    }

    /// Whether the cursor stands on a hexadecimal digit; such a character is
    /// never the NUL sentinel.
    fn cur_is_digit16(&self) -> (r: bool)
        ensures
            r == is_digit16(self@.cur),
            r ==> self@.cur != '\0',
    {
        char_is_digit16(self.cur)
    }

    /// Scans the hexadecimal digits under the cursor into an ADDRESS token,
    /// empty where none stand there.
    fn tokenize_address(&mut self)
        requires
            old(self).wf(),
            old(self)@.pos <= old(self)@.chars.len(),
        ensures
            final(self).wf(),
            final(self)@.chars == old(self)@.chars,
            final(self)@.size == old(self)@.size,
            ({
                let s = old(self)@.chars;
                let p = old(self)@.pos;
                let j = p + scan_hex_len(s, p);
                &&& final(self)@.pos == j
                &&& final(self)@.toks == old(self)@.toks.push(
                    tok(TokenType::ADDRESS, s.subrange(p, j), j),
                )
            }),
    {
        let ghost s = self@.chars;
        let ghost p = self@.pos;
        let ghost sz = self@.size;
        let ghost toks0 = self@.toks;
        self.buffer.clear();
        proof {
            assert(self@.buf =~= s.subrange(p, p));
        }
        while self.cur_is_digit16()
            invariant
                self.wf(),
                self@.chars == s,
                self@.size == sz,
                self@.toks == toks0,
                p <= self@.pos,
                self@.pos <= s.len(),
                self@.buf == s.subrange(p, self@.pos),
                scan_hex_len(s, p) == self@.pos - p + scan_hex_len(s, self@.pos),
            decreases s.len() - self@.pos,
        {
            self.buffer.push(self.cur);
            self.next();
            proof {
                assert(self@.buf =~= s.subrange(p, self@.pos));
            }
        }
        let address = self.buffer.pack();
        let t = Token::new(TokenType::ADDRESS, address, self.pos);
        let ghost before = self@.toks;
        self.output.push(t);
        proof {
            assert(self@.toks =~~= before.push(t@));
        }
    }

    /// Scans a `$`-introduced keyword into its token; the word must stand in
    /// the keyword table.
    fn tokenize_keyword(&mut self)
        requires
            old(self).wf(),
            old(self)@.cur == '$',
            ({
                let s = old(self)@.chars;
                let p = old(self)@.pos;
                let j = p + 1 + scan_alnum_len(s, p + 1);
                keyword_token(seq!['$'] + s.subrange(p + 1, j)) is Some
            }),
        ensures
            final(self).wf(),
            final(self)@.chars == old(self)@.chars,
            final(self)@.size == old(self)@.size,
            ({
                let s = old(self)@.chars;
                let p = old(self)@.pos;
                let j = p + 1 + scan_alnum_len(s, p + 1);
                let kw = seq!['$'] + s.subrange(p + 1, j);
                &&& final(self)@.pos == j
                &&& final(self)@.toks == old(self)@.toks.push(
                    tok(keyword_token(kw)->Some_0, kw, j),
                )
            }),
    {
        let ghost s = self@.chars;
        let ghost p = self@.pos;
        let ghost sz = self@.size;
        let ghost toks0 = self@.toks;
        self.buffer.clear();
        self.buffer.push(self.cur);
        self.next();
        proof {
            assert(self@.buf =~= seq!['$'] + s.subrange(p + 1, self@.pos));
        }
        while self.cur_is_alnum()
            invariant
                self.wf(),
                self@.chars == s,
                self@.size == sz,
                self@.toks == toks0,
                p + 1 <= self@.pos,
                self@.pos <= s.len(),
                self@.buf == seq!['$'] + s.subrange(p + 1, self@.pos),
                scan_alnum_len(s, p + 1) == self@.pos - (p + 1) + scan_alnum_len(s, self@.pos),
            decreases s.len() - self@.pos,
        {
            self.buffer.push(self.cur);
            self.next();
            proof {
                assert(self@.buf =~= seq!['$'] + s.subrange(p + 1, self@.pos));
            }
        }
        let keyword = self.buffer.pack();
        proof {
            assert(keyword@ == seq!['$'] + s.subrange(p + 1, self@.pos));
        }
        if let Some(kind) = lookup_keyword(keyword.as_str()) {
            let t = Token::new(kind, keyword, self.pos);
            let ghost before = self@.toks;
            self.output.push(t);
            proof {
                assert(self@.toks =~~= before.push(t@));
            }
        } else {
            proof {
                assert(false);
            }
        }
    }

    /// Scans an identifier (letters and underscores) into an IDENT token.
    fn tokenize_ident(&mut self)
        requires
            old(self).wf(),
            is_alphabetic_char(old(self)@.cur),
            old(self)@.cur != '\0',
        ensures
            final(self).wf(),
            final(self)@.chars == old(self)@.chars,
            final(self)@.size == old(self)@.size,
            ({
                let s = old(self)@.chars;
                let p = old(self)@.pos;
                let j = p + scan_ident_len(s, p);
                &&& final(self)@.pos == j
                &&& final(self)@.toks == old(self)@.toks.push(
                    tok(TokenType::IDENT, s.subrange(p, j), j),
                )
            }),
    {
        let ghost s = self@.chars;
        let ghost p = self@.pos;
        let ghost sz = self@.size;
        let ghost toks0 = self@.toks;
        self.buffer.clear();
        proof {
            assert(self@.buf =~= s.subrange(p, p));
        }
        while self.cur_is_ident_char()
            invariant
                self.wf(),
                self@.chars == s,
                self@.size == sz,
                self@.toks == toks0,
                p <= self@.pos,
                self@.pos <= s.len(),
                self@.buf == s.subrange(p, self@.pos),
                scan_ident_len(s, p) == self@.pos - p + scan_ident_len(s, self@.pos),
            decreases s.len() - self@.pos,
        {
            self.buffer.push(self.cur);
            self.next();
            proof {
                assert(self@.buf =~= s.subrange(p, self@.pos));
            }
        }
        let ident = self.buffer.pack();
        let t = Token::new(TokenType::IDENT, ident, self.pos);
        let ghost before = self@.toks;
        self.output.push(t);
        proof {
            assert(self@.toks =~~= before.push(t@));
        }
    }

    /// Scans a hexadecimal number: the cursor stands on the `0` of a `0x`
    /// prefix; the digits after the prefix make an unsigned INTEGER token.
    fn tokenize_hexnum(&mut self)
        requires
            old(self).wf(),
            old(self)@.cur == '0',
            char_at(old(self)@.chars, old(self)@.pos + 1) == 'x',
        ensures
            final(self).wf(),
            final(self)@.chars == old(self)@.chars,
            final(self)@.size == old(self)@.size,
            ({
                let s = old(self)@.chars;
                let p = old(self)@.pos;
                let j = p + 2 + scan_hex_len(s, p + 2);
                &&& final(self)@.pos == j
                &&& final(self)@.toks == old(self)@.toks.push(
                    tok(
                        TokenType::INTEGER { unsigned: true, size: 32 },
                        s.subrange(p + 2, j),
                        j,
                    ),
                )
            }),
    {
        let ghost s = self@.chars;
        let ghost p = self@.pos;
        let ghost sz = self@.size;
        let ghost toks0 = self@.toks;
        self.buffer.clear();
        self.next();
        self.next();
        proof {
            assert(self@.buf =~= s.subrange(p + 2, self@.pos));
        }
        while self.cur_is_digit16()
            invariant
                self.wf(),
                self@.chars == s,
                self@.size == sz,
                self@.toks == toks0,
                p + 2 <= self@.pos,
                self@.pos <= s.len(),
                self@.buf == s.subrange(p + 2, self@.pos),
                scan_hex_len(s, p + 2) == self@.pos - (p + 2) + scan_hex_len(s, self@.pos),
            decreases s.len() - self@.pos,
        {
            self.buffer.push(self.cur);
            self.next();
            proof {
                assert(self@.buf =~= s.subrange(p + 2, self@.pos));
            }
        }
        let number = self.buffer.pack();
        let t = Token::new(TokenType::INTEGER { unsigned: true, size: 32 }, number, self.pos);
        let ghost before = self@.toks;
        self.output.push(t);
        proof {
            assert(self@.toks =~~= before.push(t@));
        }
    }

    /// Scans a decimal number: digits with at most one dot, optionally ended
    /// by a consumed `f`. A dotted number is FLOATING (double unless the `f`
    /// stood there); an undotted one is a signed 32-bit INTEGER.
    fn tokenize_num(&mut self)
        requires
            old(self).wf(),
            is_digit10(old(self)@.cur),
            scan_number(old(self)@.chars, old(self)@.pos, false) is Some,
        ensures
            final(self).wf(),
            final(self)@.chars == old(self)@.chars,
            final(self)@.size == old(self)@.size,
            ({
                let s = old(self)@.chars;
                let p = old(self)@.pos;
                let (ntext, got_f, dotted) = scan_number(s, p, false)->Some_0;
                let tend = p + ntext;
                let j = if got_f {
                    tend + 1
                } else {
                    tend
                };
                let kind = if dotted {
                    TokenType::FLOATING { is_double: !got_f }
                } else {
                    TokenType::INTEGER { unsigned: false, size: 32 }
                };
                &&& final(self)@.pos == j
                &&& final(self)@.toks == old(self)@.toks.push(tok(kind, s.subrange(p, tend), j))
            }),
    {
        let ghost s = self@.chars;
        let ghost p = self@.pos;
        let ghost sz = self@.size;
        let ghost toks0 = self@.toks;
        let mut is_floating = false;
        let mut is_float = false;
        self.buffer.clear();
        proof {
            assert(self@.buf =~= s.subrange(p, p));
        }
        loop
            invariant_except_break
                self.wf(),
                self@.chars == s,
                self@.size == sz,
                self@.toks == toks0,
                p <= self@.pos,
                self@.pos <= s.len(),
                self@.buf == s.subrange(p, self@.pos),
                !is_float,
                scan_number(s, p, false) is Some,
                scan_number(s, p, false) == (match scan_number(s, self@.pos, is_floating) {
                    Some((n, f, d)) => Some::<(nat, bool, bool)>(
                        ((self@.pos - p + n) as nat, f, d),
                    ),
                    None => None::<(nat, bool, bool)>,
                }),
            ensures
                self.wf(),
                self@.chars == s,
                self@.size == sz,
                self@.toks == toks0,
                ({
                    let (ntext, got_f, dotted) = scan_number(s, p, false)->Some_0;
                    &&& self@.pos == p + ntext + (if got_f {
                        1int
                    } else {
                        0int
                    })
                    &&& self@.buf == s.subrange(p, p + ntext)
                    &&& is_floating == dotted
                    &&& is_float == got_f
                }),
            decreases s.len() - self@.pos,
        {
            if char_is_digit10(self.cur) {
                self.buffer.push(self.cur);
                self.next();
                proof {
                    assert(self@.buf =~= s.subrange(p, self@.pos));
                }
            } else if self.cur == '.' && !is_floating {
                is_floating = true;
                self.buffer.push(self.cur);
                self.next();
                proof {
                    assert(self@.buf =~= s.subrange(p, self@.pos));
                }
            } else if self.cur == '.' && is_floating {
                // the scan stops here; the callers' precondition rules it out
                proof {
                    assert(false);
                }
                break ;
            } else if self.cur == 'f' {
                is_float = true;
                self.next();
                break ;
            } else {
                break ;
            }
        }
        let number = self.buffer.pack();
        let t = if is_floating {
            if is_float {
                Token::new(TokenType::FLOATING { is_double: false }, number, self.pos)
            } else {
                Token::new(TokenType::FLOATING { is_double: true }, number, self.pos)
            }
        } else {
            Token::new(TokenType::INTEGER { unsigned: false, size: 32 }, number, self.pos)
        };
        let ghost before = self@.toks;
        self.output.push(t);
        proof {
            assert(self@.toks =~~= before.push(t@));
        }
    }
}

/// One punctuation step of the walk: where the cursor stands on a
/// punctuation character, the stream is that character's token followed by
/// the walk from the next position.
proof fn lemma_punct_arm(s: Seq<char>, sz: int, pos: int, c: char)
    requires
        pos < sz,
        c == char_at(s, pos),
        punct_token(c) is Some,
        lex_from(s, sz, pos) is Some,
    ensures
        lex_from(s, sz, pos + 1) is Some,
        lex_from(s, sz, pos)->Some_0 == seq![tok(punct_token(c)->Some_0, seq![c], pos)]
            + lex_from(s, sz, pos + 1)->Some_0,
{
}

/// Seq algebra of one step: appending one token and keeping the rest of the
/// stream preserves the walk's total.
proof fn lemma_cons_step(
    toks0: Seq<TokenModel>,
    lex0: Seq<TokenModel>,
    prev: Seq<TokenModel>,
    cur_toks: Seq<TokenModel>,
    tm: TokenModel,
    lexp: Seq<TokenModel>,
    rest: Seq<TokenModel>,
)
    requires
        toks0 + lex0 == prev + lexp,
        lexp == seq![tm] + rest,
        cur_toks == prev.push(tm),
    ensures
        toks0 + lex0 == cur_toks + rest,
{
    assert(prev + (seq![tm] + rest) =~~= prev.push(tm) + rest);
}

impl Lexer {
    /// Scans the whole input into its token stream and returns a copy of
    /// every token produced, the ones of this call after any earlier ones.
    /// The walk must be one the scanner accepts: `lex_from` names its
    /// outcome, and every produced token is exactly the model's.
    pub fn tokenize(&mut self) -> (r: Vec<Token>)
        requires
            old(self).wf(),
            lex_from(old(self)@.chars, old(self)@.size, old(self)@.pos) is Some,
        ensures
            final(self).wf(),
            final(self)@.chars == old(self)@.chars,
            final(self)@.size == old(self)@.size,
            final(self)@.toks == old(self)@.toks + lex_from(
                old(self)@.chars,
                old(self)@.size,
                old(self)@.pos,
            )->Some_0,
            r@.map_values(|t: Token| t@) == final(self)@.toks,
    {
        let ghost s = self@.chars;
        let ghost sz = self@.size;
        let ghost toks0 = self@.toks;
        let ghost lex0 = lex_from(s, sz, self@.pos)->Some_0;
        while self.has_next()
            invariant_except_break
                self.wf(),
                self@.chars == s,
                self@.size == sz,
                lex_from(s, sz, self@.pos) is Some,
                toks0 + lex0 == self@.toks + lex_from(s, sz, self@.pos)->Some_0,
            ensures
                self.wf(),
                self@.chars == s,
                self@.size == sz,
                self@.toks == toks0 + lex0 || (lex_from(s, sz, self@.pos) is Some && toks0 + lex0
                    == self@.toks + lex_from(s, sz, self@.pos)->Some_0 && self@.pos >= sz),
            decreases (if self@.pos < sz {
                sz - self@.pos
            } else {
                0int
            }),
        {
            let ghost pos = self@.pos;
            let ghost prev = self@.toks;
            let ghost lexp = lex_from(s, sz, pos)->Some_0;
            match self.cur {
                '$' => {
                    let ghost j = pos + 1 + scan_alnum_len(s, pos + 1);
                    let ghost kw = seq!['$'] + s.subrange(pos + 1, j);
                    proof {
                        assert(keyword_token(kw) is Some);
                    }
                    self.tokenize_keyword();
                    proof {
                        lemma_cons_step(
                            toks0,
                            lex0,
                            prev,
                            self@.toks,
                            tok(keyword_token(kw)->Some_0, kw, j),
                            lexp,
                            lex_from(s, sz, j)->Some_0,
                        );
                    }
                },
                '.' => {
                    proof {
                        reveal_strlit(".");
                        lemma_punct_arm(s, sz, pos, '.');
                    }
                    let t = Token::new(TokenType::PERIOD, String::from_str("."), self.pos);
                    self.output.push(t);
                    self.next();
                    proof {
                        assert("."@ =~= seq!['.']);
                        assert(self@.toks =~~= prev.push(t@));
                        lemma_cons_step(
                            toks0,
                            lex0,
                            prev,
                            self@.toks,
                            t@,
                            lexp,
                            lex_from(s, sz, pos + 1)->Some_0,
                        );
                    }
                },
                ',' => {
                    proof {
                        reveal_strlit(",");
                        lemma_punct_arm(s, sz, pos, ',');
                    }
                    let t = Token::new(TokenType::COMMA, String::from_str(","), self.pos);
                    self.output.push(t);
                    self.next();
                    proof {
                        assert(","@ =~= seq![',']);
                        assert(self@.toks =~~= prev.push(t@));
                        lemma_cons_step(
                            toks0,
                            lex0,
                            prev,
                            self@.toks,
                            t@,
                            lexp,
                            lex_from(s, sz, pos + 1)->Some_0,
                        );
                    }
                },
                '_' => {
                    proof {
                        reveal_strlit("_");
                        lemma_punct_arm(s, sz, pos, '_');
                    }
                    let t = Token::new(TokenType::UNDER, String::from_str("_"), self.pos);
                    self.output.push(t);
                    self.next();
                    proof {
                        assert("_"@ =~= seq!['_']);
                        assert(self@.toks =~~= prev.push(t@));
                        lemma_cons_step(
                            toks0,
                            lex0,
                            prev,
                            self@.toks,
                            t@,
                            lexp,
                            lex_from(s, sz, pos + 1)->Some_0,
                        );
                    }
                },
                ':' => {
                    proof {
                        reveal_strlit(":");
                        lemma_punct_arm(s, sz, pos, ':');
                    }
                    let t = Token::new(TokenType::COLON, String::from_str(":"), self.pos);
                    self.output.push(t);
                    self.next();
                    proof {
                        assert(":"@ =~= seq![':']);
                        assert(self@.toks =~~= prev.push(t@));
                        lemma_cons_step(
                            toks0,
                            lex0,
                            prev,
                            self@.toks,
                            t@,
                            lexp,
                            lex_from(s, sz, pos + 1)->Some_0,
                        );
                    }
                },
                '(' => {
                    proof {
                        reveal_strlit("(");
                        lemma_punct_arm(s, sz, pos, '(');
                    }
                    let t = Token::new(TokenType::LPAREN, String::from_str("("), self.pos);
                    self.output.push(t);
                    self.next();
                    proof {
                        assert("("@ =~= seq!['(']);
                        assert(self@.toks =~~= prev.push(t@));
                        lemma_cons_step(
                            toks0,
                            lex0,
                            prev,
                            self@.toks,
                            t@,
                            lexp,
                            lex_from(s, sz, pos + 1)->Some_0,
                        );
                    }
                },
                ')' => {
                    proof {
                        reveal_strlit(")");
                        lemma_punct_arm(s, sz, pos, ')');
                    }
                    let t = Token::new(TokenType::RPAREN, String::from_str(")"), self.pos);
                    self.output.push(t);
                    self.next();
                    proof {
                        assert(")"@ =~= seq![')']);
                        assert(self@.toks =~~= prev.push(t@));
                        lemma_cons_step(
                            toks0,
                            lex0,
                            prev,
                            self@.toks,
                            t@,
                            lexp,
                            lex_from(s, sz, pos + 1)->Some_0,
                        );
                    }
                },
                '{' => {
                    proof {
                        reveal_strlit("{");
                        lemma_punct_arm(s, sz, pos, '{');
                    }
                    let t = Token::new(TokenType::LBRACE, String::from_str("{"), self.pos);
                    self.output.push(t);
                    self.next();
                    proof {
                        assert("{"@ =~= seq!['{']);
                        assert(self@.toks =~~= prev.push(t@));
                        lemma_cons_step(
                            toks0,
                            lex0,
                            prev,
                            self@.toks,
                            t@,
                            lexp,
                            lex_from(s, sz, pos + 1)->Some_0,
                        );
                    }
                },
                '}' => {
                    proof {
                        reveal_strlit("}");
                        lemma_punct_arm(s, sz, pos, '}');
                    }
                    let t = Token::new(TokenType::RBRACE, String::from_str("}"), self.pos);
                    self.output.push(t);
                    self.next();
                    proof {
                        assert("}"@ =~= seq!['}']);
                        assert(self@.toks =~~= prev.push(t@));
                        lemma_cons_step(
                            toks0,
                            lex0,
                            prev,
                            self@.toks,
                            t@,
                            lexp,
                            lex_from(s, sz, pos + 1)->Some_0,
                        );
                    }
                },
                '=' => {
                    proof {
                        reveal_strlit("=");
                        lemma_punct_arm(s, sz, pos, '=');
                    }
                    let t = Token::new(TokenType::EQ, String::from_str("="), self.pos);
                    self.output.push(t);
                    self.next();
                    proof {
                        assert("="@ =~= seq!['=']);
                        assert(self@.toks =~~= prev.push(t@));
                        lemma_cons_step(
                            toks0,
                            lex0,
                            prev,
                            self@.toks,
                            t@,
                            lexp,
                            lex_from(s, sz, pos + 1)->Some_0,
                        );
                    }
                },
                '+' => {
                    proof {
                        reveal_strlit("+");
                        lemma_punct_arm(s, sz, pos, '+');
                    }
                    let t = Token::new(TokenType::PLUS, String::from_str("+"), self.pos);
                    self.output.push(t);
                    self.next();
                    proof {
                        assert("+"@ =~= seq!['+']);
                        assert(self@.toks =~~= prev.push(t@));
                        lemma_cons_step(
                            toks0,
                            lex0,
                            prev,
                            self@.toks,
                            t@,
                            lexp,
                            lex_from(s, sz, pos + 1)->Some_0,
                        );
                    }
                },
                '-' => {
                    proof {
                        reveal_strlit("-");
                        lemma_punct_arm(s, sz, pos, '-');
                    }
                    let t = Token::new(TokenType::MINUS, String::from_str("-"), self.pos);
                    self.output.push(t);
                    self.next();
                    proof {
                        assert("-"@ =~= seq!['-']);
                        assert(self@.toks =~~= prev.push(t@));
                        lemma_cons_step(
                            toks0,
                            lex0,
                            prev,
                            self@.toks,
                            t@,
                            lexp,
                            lex_from(s, sz, pos + 1)->Some_0,
                        );
                    }
                },
                '*' => {
                    proof {
                        reveal_strlit("*");
                        lemma_punct_arm(s, sz, pos, '*');
                    }
                    let t = Token::new(TokenType::STAR, String::from_str("*"), self.pos);
                    self.output.push(t);
                    self.next();
                    proof {
                        assert("*"@ =~= seq!['*']);
                        assert(self@.toks =~~= prev.push(t@));
                        lemma_cons_step(
                            toks0,
                            lex0,
                            prev,
                            self@.toks,
                            t@,
                            lexp,
                            lex_from(s, sz, pos + 1)->Some_0,
                        );
                    }
                },
                '/' => {
                    proof {
                        reveal_strlit("/");
                        lemma_punct_arm(s, sz, pos, '/');
                    }
                    let t = Token::new(TokenType::SLASH, String::from_str("/"), self.pos);
                    self.output.push(t);
                    self.next();
                    proof {
                        assert("/"@ =~= seq!['/']);
                        assert(self@.toks =~~= prev.push(t@));
                        lemma_cons_step(
                            toks0,
                            lex0,
                            prev,
                            self@.toks,
                            t@,
                            lexp,
                            lex_from(s, sz, pos + 1)->Some_0,
                        );
                    }
                },
                '%' => {
                    proof {
                        reveal_strlit("%");
                        lemma_punct_arm(s, sz, pos, '%');
                    }
                    let t = Token::new(TokenType::PERCENT, String::from_str("%"), self.pos);
                    self.output.push(t);
                    self.next();
                    proof {
                        assert("%"@ =~= seq!['%']);
                        assert(self@.toks =~~= prev.push(t@));
                        lemma_cons_step(
                            toks0,
                            lex0,
                            prev,
                            self@.toks,
                            t@,
                            lexp,
                            lex_from(s, sz, pos + 1)->Some_0,
                        );
                    }
                },
                '\n' | '\t' => {
                    self.next();
                    proof {
                        assert(lex_from(s, sz, pos) == lex_from(s, sz, pos + 1));
                    }
                },
                '@' => {
                    // the walk makes no progress on the address introducer,
                    // so an accepted input never reaches it
                    proof {
                        assert(false);
                    }
                    let t = Token::new(TokenType::AT, String::from_str("@"), self.pos);
                    self.output.push(t);
                    self.tokenize_address();
                },
                '\0' => {
                    proof {
                        reveal_strlit("\0");
                    }
                    let t = Token::new(TokenType::EOF, String::from_str("\0"), 999999);
                    self.output.push(t);
                    proof {
                        assert("\0"@ =~= seq!['\0']);
                        assert(self@.toks =~~= prev.push(t@));
                        assert(lexp =~~= seq![t@]);
                        assert(prev.push(t@) =~~= prev + seq![t@]);
                        assert(self@.toks =~~= toks0 + lex0);
                    }
                    break ;
                },
                _ => {
                    if self.cur == '0' && self.peek(1) == 'x' {
                        let ghost j = pos + 2 + scan_hex_len(s, pos + 2);
                        self.tokenize_hexnum();
                        proof {
                            lemma_cons_step(
                                toks0,
                                lex0,
                                prev,
                                self@.toks,
                                tok(
                                    TokenType::INTEGER { unsigned: true, size: 32 },
                                    s.subrange(pos + 2, j),
                                    j,
                                ),
                                lexp,
                                lex_from(s, sz, j)->Some_0,
                            );
                        }
                    } else if char_is_digit10(self.cur) {
                        proof {
                            assert(scan_number(s, pos, false) is Some);
                            assert(scan_number(s, pos, false)->Some_0.0 >= 1);
                        }
                        let ghost (ntext, got_f, dotted) = scan_number(s, pos, false)->Some_0;
                        let ghost tend = pos + ntext;
                        let ghost j = if got_f {
                            tend + 1
                        } else {
                            tend
                        };
                        let ghost kind = if dotted {
                            TokenType::FLOATING { is_double: !got_f }
                        } else {
                            TokenType::INTEGER { unsigned: false, size: 32 }
                        };
                        self.tokenize_num();
                        proof {
                            lemma_cons_step(
                                toks0,
                                lex0,
                                prev,
                                self@.toks,
                                tok(kind, s.subrange(pos, tend), j),
                                lexp,
                                lex_from(s, sz, j)->Some_0,
                            );
                        }
                    } else if char_is_alphabetic(self.cur) {
                        let ghost j = pos + scan_ident_len(s, pos);
                        proof {
                            assert(scan_ident_len(s, pos) >= 1);
                        }
                        self.tokenize_ident();
                        proof {
                            lemma_cons_step(
                                toks0,
                                lex0,
                                prev,
                                self@.toks,
                                tok(TokenType::IDENT, s.subrange(pos, j), j),
                                lexp,
                                lex_from(s, sz, j)->Some_0,
                            );
                        }
                    } else if char_is_whitespace(self.cur) {
                        self.next();
                        proof {
                            assert(lex_from(s, sz, pos) == lex_from(s, sz, pos + 1));
                        }
                    } else {
                        // the walk rejects this character; an accepted input
                        // never reaches it
                        proof {
                            assert(false);
                        }
                    }
                },
            }
        }
        proof {
            if self@.toks != toks0 + lex0 {
                assert(lex_from(s, sz, self@.pos) == Some(Seq::<TokenModel>::empty()));
                assert(self@.toks + Seq::<TokenModel>::empty() =~~= self@.toks);
            }
        }
        let mut res: Vec<Token> = Vec::new();
        let mut i: usize = 0;
        while i < self.output.len()
            invariant
                i <= self.output.len(),
                self.wf(),
                self@.chars == s,
                self@.size == sz,
                self@.toks == toks0 + lex0,
                res@.len() == i,
                forall|j: int| 0 <= j < i ==> res@[j]@ == self@.toks[j],
            decreases self.output.len() - i,
        {
            let t = self.output[i].duplicate();
            res.push(t);
            i = i + 1;
        }
        proof {
            assert(res@.map_values(|t: Token| t@) =~~= self@.toks);
        }
        res
    }
}

/// Whether two strings hold the same characters.
fn str_eq(a: &str, b: &str) -> (r: bool)
    ensures
        r == (a@ == b@),
{
    let na = a.unicode_len();
    let nb = b.unicode_len();
    if na != nb {
        return false;
    }
    let mut i: usize = 0;
    while i < na
        invariant
            i <= na,
            na == a@.len(),
            na == b@.len(),
            forall|j: int| 0 <= j < i ==> a@[j] == b@[j],
        decreases na - i,
    {
        if a.get_char(i) != b.get_char(i) {
            return false;
        }
        i = i + 1;
    }
    proof {
        assert(a@ =~= b@);
    }
    true
}

/// Looks a scanned word up in the keyword table.
fn lookup_keyword(kw: &str) -> (r: Option<TokenType>)
    ensures
        r == keyword_token(kw@),
{
    if str_eq(kw, "$add") {
        Some(TokenType::ADD)
    } else if str_eq(kw, "$sub") {
        Some(TokenType::SUB)
    } else if str_eq(kw, "$mul") {
        Some(TokenType::MUL)
    } else if str_eq(kw, "$div") {
        Some(TokenType::DIV)
    } else if str_eq(kw, "$rem") {
        Some(TokenType::REM)
    } else if str_eq(kw, "$move") {
        Some(TokenType::MOVE)
    } else if str_eq(kw, "$set") {
        Some(TokenType::SET)
    } else if str_eq(kw, "$jmp") {
        Some(TokenType::JMP)
    } else if str_eq(kw, "$jmc") {
        Some(TokenType::JMC)
    } else if str_eq(kw, "$funcdef") {
        Some(TokenType::FUNCDEF)
    } else if str_eq(kw, "$params") {
        Some(TokenType::PARAMS)
    } else if str_eq(kw, "$vardef") {
        Some(TokenType::VARDEF)
    } else if str_eq(kw, "$ret") {
        Some(TokenType::RET)
    } else if str_eq(kw, "$call") {
        Some(TokenType::CALL)
    } else if str_eq(kw, "$halt") {
        Some(TokenType::HALT)
    } else if str_eq(kw, "$exit") {
        Some(TokenType::EXIT)
    } else if str_eq(kw, "$quit") {
        Some(TokenType::EXIT)
    } else if str_eq(kw, "$i8") {
        Some(TokenType::I8KW)
    } else if str_eq(kw, "$i16") {
        Some(TokenType::I16KW)
    } else if str_eq(kw, "$i32") {
        Some(TokenType::I32KW)
    } else if str_eq(kw, "$i64") {
        Some(TokenType::I64KW)
    } else if str_eq(kw, "$unsigned") {
        Some(TokenType::UNSIGNEDKW)
    } else if str_eq(kw, "$u") {
        Some(TokenType::UNSIGNEDKW)
    } else if str_eq(kw, "$float") {
        Some(TokenType::FLOATKW)
    } else if str_eq(kw, "$double") {
        Some(TokenType::DOUBLEKW)
    } else {
        None
    }
}

} // verus!
