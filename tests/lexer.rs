use runkey::lexer::Lexer;
use runkey::token::{lookup_ident, TokenKind};

fn kinds_and_literals(input: &str) -> Vec<(TokenKind, String)> {
    let mut l = Lexer::new(input.to_string());
    let mut out = Vec::new();
    loop {
        let tok = l.next_token();
        let done = tok.kind == TokenKind::EndOfInput;
        out.push((tok.kind, tok.literal));
        if done {
            return out;
        }
    }
}

#[test]
fn next_token() {
    let input = String::from("let five = 5;
let ten = 10;
let add = fn(x, y) {
x + y;
};
let result = add(five, ten);
!-/*5;
5 < 10 > 5;
if (5 < 10) {
    return true;
} else {
    return false;
}
10 == 10;
10 != 9;
");
    let tests = vec![
        (TokenKind::Let, "let"),
        (TokenKind::Identifier, "five"),
        (TokenKind::Assign, "="),
        (TokenKind::IntegerLiteral, "5"),
        (TokenKind::Semicolon, ";"),
        (TokenKind::Let, "let"),
        (TokenKind::Identifier, "ten"),
        (TokenKind::Assign, "="),
        (TokenKind::IntegerLiteral, "10"),
        (TokenKind::Semicolon, ";"),
        (TokenKind::Let, "let"),
        (TokenKind::Identifier, "add"),
        (TokenKind::Assign, "="),
        (TokenKind::Function, "fn"),
        (TokenKind::LParen, "("),
        (TokenKind::Identifier, "x"),
        (TokenKind::Comma, ","),
        (TokenKind::Identifier, "y"),
        (TokenKind::RParen, ")"),
        (TokenKind::LBrace, "{"),
        (TokenKind::Identifier, "x"),
        (TokenKind::Plus, "+"),
        (TokenKind::Identifier, "y"),
        (TokenKind::Semicolon, ";"),
        (TokenKind::RBrace, "}"),
        (TokenKind::Semicolon, ";"),
        (TokenKind::Let, "let"),
        (TokenKind::Identifier, "result"),
        (TokenKind::Assign, "="),
        (TokenKind::Identifier, "add"),
        (TokenKind::LParen, "("),
        (TokenKind::Identifier, "five"),
        (TokenKind::Comma, ","),
        (TokenKind::Identifier, "ten"),
        (TokenKind::RParen, ")"),
        (TokenKind::Semicolon, ";"),
        (TokenKind::Bang, "!"),
        (TokenKind::Minus, "-"),
        (TokenKind::Slash, "/"),
        (TokenKind::Asterisk, "*"),
        (TokenKind::IntegerLiteral, "5"),
        (TokenKind::Semicolon, ";"),
        (TokenKind::IntegerLiteral, "5"),
        (TokenKind::LessThan, "<"),
        (TokenKind::IntegerLiteral, "10"),
        (TokenKind::GreaterThan, ">"),
        (TokenKind::IntegerLiteral, "5"),
        (TokenKind::Semicolon, ";"),
        (TokenKind::If, "if"),
        (TokenKind::LParen, "("),
        (TokenKind::IntegerLiteral, "5"),
        (TokenKind::LessThan, "<"),
        (TokenKind::IntegerLiteral, "10"),
        (TokenKind::RParen, ")"),
        (TokenKind::LBrace, "{"),
        (TokenKind::Return, "return"),
        (TokenKind::True, "true"),
        (TokenKind::Semicolon, ";"),
        (TokenKind::RBrace, "}"),
        (TokenKind::Else, "else"),
        (TokenKind::LBrace, "{"),
        (TokenKind::Return, "return"),
        (TokenKind::False, "false"),
        (TokenKind::Semicolon, ";"),
        (TokenKind::RBrace, "}"),
        (TokenKind::IntegerLiteral, "10"),
        (TokenKind::Equal, "=="),
        (TokenKind::IntegerLiteral, "10"),
        (TokenKind::Semicolon, ";"),
        (TokenKind::IntegerLiteral, "10"),
        (TokenKind::NotEqual, "!="),
        (TokenKind::IntegerLiteral, "9"),
        (TokenKind::Semicolon, ";"),
        (TokenKind::EndOfInput, ""),
    ];
    let mut l = Lexer::new(input);
    for tt in tests {
        let tok = l.next_token();
        assert_eq!(tok.kind, tt.0);
        assert_eq!(tok.literal, tt.1);
    }
}

#[test]
fn whitespace_only_input_ends_at_once() {
    for input in [" ", "\t", "\n", "\r", " \t\r\n  \n"] {
        let mut l = Lexer::new(input.to_string());
        let tok = l.next_token();
        assert_eq!(tok.kind, TokenKind::EndOfInput);
        assert_eq!(tok.literal, "");
    }
}

#[test]
fn empty_input_ends_at_once() {
    let mut l = Lexer::new(String::new());
    let tok = l.next_token();
    assert_eq!(tok.kind, TokenKind::EndOfInput);
    assert_eq!(tok.literal, "");
}

#[test]
fn two_char_operators_are_one_token() {
    assert_eq!(
        kinds_and_literals("=="),
        vec![(TokenKind::Equal, "==".to_string()), (TokenKind::EndOfInput, String::new())]
    );
    assert_eq!(
        kinds_and_literals("!="),
        vec![(TokenKind::NotEqual, "!=".to_string()), (TokenKind::EndOfInput, String::new())]
    );
    assert_eq!(
        kinds_and_literals("= !"),
        vec![
            (TokenKind::Assign, "=".to_string()),
            (TokenKind::Bang, "!".to_string()),
            (TokenKind::EndOfInput, String::new()),
        ]
    );
    assert_eq!(
        kinds_and_literals("==="),
        vec![
            (TokenKind::Equal, "==".to_string()),
            (TokenKind::Assign, "=".to_string()),
            (TokenKind::EndOfInput, String::new()),
        ]
    );
}

#[test]
fn keywords_get_their_own_kind() {
    let cases = [
        ("let", TokenKind::Let),
        ("fn", TokenKind::Function),
        ("true", TokenKind::True),
        ("false", TokenKind::False),
        ("if", TokenKind::If),
        ("else", TokenKind::Else),
        ("return", TokenKind::Return),
    ];
    for (word, kind) in cases {
        assert_eq!(
            kinds_and_literals(word),
            vec![(kind, word.to_string()), (TokenKind::EndOfInput, String::new())]
        );
        assert_eq!(lookup_ident(word.to_string()), kind);
    }
}

#[test]
fn other_words_are_identifiers() {
    for word in ["lets", "le", "Let", "_", "foo_bar", "returnValue", "x"] {
        assert_eq!(
            kinds_and_literals(word),
            vec![(TokenKind::Identifier, word.to_string()), (TokenKind::EndOfInput, String::new())]
        );
        assert_eq!(lookup_ident(word.to_string()), TokenKind::Identifier);
    }
}

#[test]
fn digits_are_not_part_of_identifiers() {
    assert_eq!(
        kinds_and_literals("x1"),
        vec![
            (TokenKind::Identifier, "x".to_string()),
            (TokenKind::IntegerLiteral, "1".to_string()),
            (TokenKind::EndOfInput, String::new()),
        ]
    );
}

#[test]
fn long_digit_run_is_one_integer() {
    let digits = "1234567890".repeat(8);
    assert_eq!(
        kinds_and_literals(&digits),
        vec![(TokenKind::IntegerLiteral, digits.clone()), (TokenKind::EndOfInput, String::new())]
    );
}

#[test]
fn end_of_input_repeats() {
    let mut l = Lexer::new("5 ".to_string());
    assert_eq!(l.next_token().kind, TokenKind::IntegerLiteral);
    for _ in 0..5 {
        let tok = l.next_token();
        assert_eq!(tok.kind, TokenKind::EndOfInput);
        assert_eq!(tok.literal, "");
    }
}

#[test]
fn unknown_characters_are_illegal() {
    assert_eq!(
        kinds_and_literals("a ? b"),
        vec![
            (TokenKind::Identifier, "a".to_string()),
            (TokenKind::Illegal, "?".to_string()),
            (TokenKind::Identifier, "b".to_string()),
            (TokenKind::EndOfInput, String::new()),
        ]
    );
    assert_eq!(
        kinds_and_literals("\0"),
        vec![(TokenKind::Illegal, "\0".to_string()), (TokenKind::EndOfInput, String::new())]
    );
}

#[test]
fn multibyte_characters_are_read_whole() {
    assert_eq!(
        kinds_and_literals("\u{e9}=\u{1F600};"),
        vec![
            (TokenKind::Illegal, "\u{e9}".to_string()),
            (TokenKind::Assign, "=".to_string()),
            (TokenKind::Illegal, "\u{1F600}".to_string()),
            (TokenKind::Semicolon, ";".to_string()),
            (TokenKind::EndOfInput, String::new()),
        ]
    );
}

#[test]
fn new_token_holds_the_character() {
    let l = Lexer::new(String::new());
    let tok = l.new_token(TokenKind::Plus, '+');
    assert_eq!(tok.kind, TokenKind::Plus);
    assert_eq!(tok.literal, "+");
}

#[test]
fn kind_names() {
    assert_eq!(TokenKind::Identifier.name(), "IDENT");
    assert_eq!(TokenKind::IntegerLiteral.name(), "INT");
    assert_eq!(TokenKind::EndOfInput.name(), "EOF");
    assert_eq!(TokenKind::NotEqual.name(), "!=");
    assert_eq!(TokenKind::Function.name(), "FUNCTION");
}
