use vstd::prelude::*;

verus! {

/// The closed set of lexical categories.
#[derive(Clone, Copy, Debug, PartialEq, Eq, Structural)]
pub enum TokenKind {
    Illegal,
    EndOfInput,
    Identifier,
    IntegerLiteral,
    Assign,
    Plus,
    Minus,
    Bang,
    Asterisk,
    Slash,
    LessThan,
    GreaterThan,
    Equal,
    NotEqual,
    Comma,
    Semicolon,
    LParen,
    RParen,
    LBrace,
    RBrace,
    Function,
    Let,
    True,
    False,
    If,
    Else,
    Return,
}

/// The text by which a token kind is named in diagnostics.
pub open spec fn kind_name(k: TokenKind) -> Seq<char> {
    match k {
        TokenKind::Illegal => "ILLEGAL"@,
        TokenKind::EndOfInput => "EOF"@,
        TokenKind::Identifier => "IDENT"@,
        TokenKind::IntegerLiteral => "INT"@,
        TokenKind::Assign => "="@,
        TokenKind::Plus => "+"@,
        TokenKind::Minus => "-"@,
        TokenKind::Bang => "!"@,
        TokenKind::Asterisk => "*"@,
        TokenKind::Slash => "/"@,
        TokenKind::LessThan => "<"@,
        TokenKind::GreaterThan => ">"@,
        TokenKind::Equal => "=="@,
        TokenKind::NotEqual => "!="@,
        TokenKind::Comma => ","@,
        TokenKind::Semicolon => ";"@,
        TokenKind::LParen => "("@,
        TokenKind::RParen => ")"@,
        TokenKind::LBrace => "{"@,
        TokenKind::RBrace => "}"@,
        TokenKind::Function => "FUNCTION"@,
        TokenKind::Let => "LET"@,
        TokenKind::True => "TRUE"@,
        TokenKind::False => "FALSE"@,
        TokenKind::If => "IF"@,
        TokenKind::Else => "ELSE"@,
        TokenKind::Return => "RETURN"@,
    }
}

impl TokenKind {
    /// The name of this kind, as diagnostics print it.
    pub fn name(&self) -> (r: &'static str)
        ensures
            r@ == kind_name(*self),
    {
        match self {
            TokenKind::Illegal => "ILLEGAL",
            TokenKind::EndOfInput => "EOF",
            TokenKind::Identifier => "IDENT",
            TokenKind::IntegerLiteral => "INT",
            TokenKind::Assign => "=",
            TokenKind::Plus => "+",
            TokenKind::Minus => "-",
            TokenKind::Bang => "!",
            TokenKind::Asterisk => "*",
            TokenKind::Slash => "/",
            TokenKind::LessThan => "<",
            TokenKind::GreaterThan => ">",
            TokenKind::Equal => "==",
            TokenKind::NotEqual => "!=",
            TokenKind::Comma => ",",
            TokenKind::Semicolon => ";",
            TokenKind::LParen => "(",
            TokenKind::RParen => ")",
            TokenKind::LBrace => "{",
            TokenKind::RBrace => "}",
            TokenKind::Function => "FUNCTION",
            TokenKind::Let => "LET",
            TokenKind::True => "TRUE",
            TokenKind::False => "FALSE",
            TokenKind::If => "IF",
            TokenKind::Else => "ELSE",
            TokenKind::Return => "RETURN",
        }
    }
}

/// What a word made of letters is: the kind of the keyword it spells,
/// or `Identifier` when it spells none.
pub open spec fn keyword_kind(w: Seq<char>) -> TokenKind {
    if w == "fn"@ {
        TokenKind::Function
    } else if w == "let"@ {
        TokenKind::Let
    } else if w == "true"@ {
        TokenKind::True
    } else if w == "false"@ {
        TokenKind::False
    } else if w == "if"@ {
        TokenKind::If
    } else if w == "else"@ {
        TokenKind::Else
    } else if w == "return"@ {
        TokenKind::Return
    } else {
        TokenKind::Identifier
    }
}

/// A classified piece of source text: its kind and the characters it was built from.
#[derive(Clone, Debug)]
pub struct Token {
    pub kind: TokenKind,
    pub literal: String,
}

impl View for Token {
    type V = (TokenKind, Seq<char>);

    open spec fn view(&self) -> (TokenKind, Seq<char>) {
        (self.kind, self.literal@)
    }
}

/// Whether two strings hold the same characters.
fn same_text(a: &str, b: &str) -> (r: bool)
    ensures
        r == (a@ == b@),
{
    let n = a.unicode_len();
    if n != b.unicode_len() {
        return false;
    }
    let mut i: usize = 0;
    while i < n
        invariant
            n == a@.len(),
            n == b@.len(),
            i <= n,
            a@.subrange(0, i as int) == b@.subrange(0, i as int),
        decreases n - i,
    {
        if a.get_char(i) != b.get_char(i) {
            return false;
        }
        assert(a@.subrange(0, i + 1) == a@.subrange(0, i as int).push(a@[i as int]));
        assert(b@.subrange(0, i + 1) == b@.subrange(0, i as int).push(b@[i as int]));
        i = i + 1;
    }
    assert(a@ == a@.subrange(0, n as int));
    assert(b@ == b@.subrange(0, n as int));
    true
}

/// Classifies a word made of letters: a keyword gets its own kind, any other
/// word is an identifier.
pub fn lookup_ident(ident: String) -> (r: TokenKind)
    ensures
        r == keyword_kind(ident@),
{
    let w = ident.as_str();
    if same_text(w, "fn") {
        TokenKind::Function
    } else if same_text(w, "let") {
        TokenKind::Let
    } else if same_text(w, "true") {
        TokenKind::True
    } else if same_text(w, "false") {
        TokenKind::False
    } else if same_text(w, "if") {
        TokenKind::If
    } else if same_text(w, "else") {
        TokenKind::Else
    } else if same_text(w, "return") {
        TokenKind::Return
    } else {
        TokenKind::Identifier
    }
}

/// A string of the one character `c`.
///
/// Relies on `ToString` for `char`, which writes the character alone.
#[verifier::external_body]
pub(crate) fn char_text(c: char) -> (r: String)
    ensures
        r@ == seq![c],
{
    c.to_string()
}

} // verus!
