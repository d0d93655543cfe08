use aethervm::lexer::Lexer;
use aethervm::stringutils::StringBuilder;
use aethervm::token::{Token, TokenType};

#[test]
fn it_works() {
    let input = String::from("$funcdef entry {\n\t$vardef res = 1.0f + 2.0f\n\t}");
    let mut lexer = Lexer::new(input);
    lexer.tokenize().iter().for_each(|_x| {});

    assert_eq!(1, 1)
}

#[test]
fn keywords_map_to_their_kinds() {
    let toks = Lexer::new(String::from("$add")).tokenize();
    assert_eq!(toks.len(), 1);
    assert_eq!(toks[0].kind(), TokenType::ADD);
    assert_eq!(toks[0].value(), "$add");
    assert_eq!(toks[0].pos(), 4);

    let toks = Lexer::new(String::from("$quit")).tokenize();
    assert_eq!(toks[0].kind(), TokenType::EXIT);
    let toks = Lexer::new(String::from("$u")).tokenize();
    assert_eq!(toks[0].kind(), TokenType::UNSIGNEDKW);
    let toks = Lexer::new(String::from("$i16")).tokenize();
    assert_eq!(toks[0].kind(), TokenType::I16KW);
}

#[test]
fn punctuation_becomes_single_tokens() {
    let toks = Lexer::new(String::from("( ) { } = + - * / % , . : _")).tokenize();
    let kinds: Vec<TokenType> = toks.iter().map(|t| t.kind()).collect();
    assert_eq!(
        kinds,
        vec![
            TokenType::LPAREN,
            TokenType::RPAREN,
            TokenType::LBRACE,
            TokenType::RBRACE,
            TokenType::EQ,
            TokenType::PLUS,
            TokenType::MINUS,
            TokenType::STAR,
            TokenType::SLASH,
            TokenType::PERCENT,
            TokenType::COMMA,
            TokenType::PERIOD,
            TokenType::COLON,
            TokenType::UNDER,
        ]
    );
}

#[test]
fn integers_and_floats() {
    let toks = Lexer::new(String::from("42")).tokenize();
    assert_eq!(toks[0].kind(), TokenType::INTEGER { unsigned: false, size: 32 });
    assert_eq!(toks[0].value(), "42");

    // a trailing f marks a float; the dot makes it floating at all
    let toks = Lexer::new(String::from("1.5f")).tokenize();
    assert_eq!(toks[0].kind(), TokenType::FLOATING { is_double: false });
    assert_eq!(toks[0].value(), "1.5");
    assert_eq!(toks[0].pos(), 4);

    // without the f a dotted number is a double
    let toks = Lexer::new(String::from("1.5,")).tokenize();
    assert_eq!(toks[0].kind(), TokenType::FLOATING { is_double: true });
    assert_eq!(toks[0].value(), "1.5");

    // an undotted number stays an integer even with a trailing f
    let toks = Lexer::new(String::from("5f")).tokenize();
    assert_eq!(toks[0].kind(), TokenType::INTEGER { unsigned: false, size: 32 });
    assert_eq!(toks[0].value(), "5");
}

#[test]
fn hex_numbers_are_unsigned_integers() {
    let toks = Lexer::new(String::from("0x1F")).tokenize();
    assert_eq!(toks.len(), 1);
    assert_eq!(toks[0].kind(), TokenType::INTEGER { unsigned: true, size: 32 });
    assert_eq!(toks[0].value(), "1F");
    assert_eq!(toks[0].pos(), 4);
}

#[test]
fn identifiers_take_letters_and_underscores() {
    let toks = Lexer::new(String::from("entry_point 9")).tokenize();
    assert_eq!(toks[0].kind(), TokenType::IDENT);
    assert_eq!(toks[0].value(), "entry_point");
    assert_eq!(toks[1].kind(), TokenType::INTEGER { unsigned: false, size: 32 });
}

#[test]
fn the_sample_program_token_stream() {
    let toks = Lexer::new(String::from("$funcdef entry {\n\t$vardef res = 1.0f + 2.0f\n\t}"))
        .tokenize();
    let kinds: Vec<TokenType> = toks.iter().map(|t| t.kind()).collect();
    assert_eq!(
        kinds,
        vec![
            TokenType::FUNCDEF,
            TokenType::IDENT,
            TokenType::LBRACE,
            TokenType::VARDEF,
            TokenType::IDENT,
            TokenType::EQ,
            TokenType::FLOATING { is_double: false },
            TokenType::PLUS,
            TokenType::FLOATING { is_double: false },
            TokenType::RBRACE,
        ]
    );
    assert_eq!(toks[1].value(), "entry");
    assert_eq!(toks[6].value(), "1.0");
}

#[test]
fn string_builder_collects_characters() {
    let mut sb = StringBuilder::new();
    sb.push('a');
    sb.push_str("bc");
    assert_eq!(sb.pack(), "abc");
    // pack leaves the buffer in place
    assert_eq!(sb.pack(), "abc");
    sb.clear();
    sb.push('z');
    assert_eq!(sb.pack(), "z");
}

#[test]
fn tokens_carry_their_parts() {
    let t = Token::new(TokenType::IDENT, String::from("abc"), 3);
    assert_eq!(t.kind(), TokenType::IDENT);
    assert_eq!(t.value(), "abc");
    assert_eq!(t.pos(), 3);
    let d = t.duplicate();
    assert_eq!(d.kind(), TokenType::IDENT);
    assert_eq!(d.value(), "abc");
    assert_eq!(d.pos(), 3);
}
