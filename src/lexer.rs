use vstd::prelude::*;

use crate::token::{char_text, keyword_kind, lookup_ident, Token, TokenKind};

verus! {

/// The characters skipped between tokens.
pub open spec fn is_whitespace(c: char) -> bool {
    c == ' ' || c == '\t' || c == '\n' || c == '\r'
}

/// The characters that make up identifiers and keywords.
pub open spec fn is_letter(c: char) -> bool {
    ('a' <= c && c <= 'z') || ('A' <= c && c <= 'Z') || c == '_'
}

/// The characters that make up integer literals.
pub open spec fn is_digit(c: char) -> bool {
    '0' <= c && c <= '9'
}

/// The index of the first character at or after `i` that is not whitespace.
pub open spec fn skip_whitespace_from(s: Seq<char>, i: int) -> int
    decreases s.len() - i,
{
    if 0 <= i < s.len() && is_whitespace(s[i]) {
        skip_whitespace_from(s, i + 1)
    } else {
        i
    }
}

/// The end of the run of letters that starts at `i`.
pub open spec fn letter_run_end(s: Seq<char>, i: int) -> int
    decreases s.len() - i,
{
    if 0 <= i < s.len() && is_letter(s[i]) {
        letter_run_end(s, i + 1)
    } else {
        i
    }
}

/// The end of the run of digits that starts at `i`.
pub open spec fn digit_run_end(s: Seq<char>, i: int) -> int
    decreases s.len() - i,
{
    if 0 <= i < s.len() && is_digit(s[i]) {
        digit_run_end(s, i + 1)
    } else {
        i
    }
}

/// The kind of a token made of the one character `c`: punctuation, or `Illegal`.
pub open spec fn char_kind(c: char) -> TokenKind {
    if c == '=' {
        TokenKind::Assign
    } else if c == ';' {
        TokenKind::Semicolon
    } else if c == '(' {
        TokenKind::LParen
    } else if c == ')' {
        TokenKind::RParen
    } else if c == ',' {
        TokenKind::Comma
    } else if c == '+' {
        TokenKind::Plus
    } else if c == '-' {
        TokenKind::Minus
    } else if c == '!' {
        TokenKind::Bang
    } else if c == '*' {
        TokenKind::Asterisk
    } else if c == '/' {
        TokenKind::Slash
    } else if c == '<' {
        TokenKind::LessThan
    } else if c == '>' {
        TokenKind::GreaterThan
    } else if c == '{' {
        TokenKind::LBrace
    } else if c == '}' {
        TokenKind::RBrace
    } else {
        TokenKind::Illegal
    }
}

/// Whether the characters at `i` and `i + 1` form `==` or `!=`.
pub open spec fn two_char_operator_at(s: Seq<char>, i: int) -> bool {
    0 <= i && i + 1 < s.len() && (s[i] == '=' || s[i] == '!') && s[i + 1] == '='
}

/// The kind of the token that starts at index `i`, which holds no whitespace.
pub open spec fn kind_at(s: Seq<char>, i: int) -> TokenKind {
    if !(0 <= i < s.len()) {
        TokenKind::EndOfInput
    } else if two_char_operator_at(s, i) {
        if s[i] == '=' {
            TokenKind::Equal
        } else {
            TokenKind::NotEqual
        }
    } else if is_letter(s[i]) {
        keyword_kind(s.subrange(i, letter_run_end(s, i)))
    } else if is_digit(s[i]) {
        TokenKind::IntegerLiteral
    } else {
        char_kind(s[i])
    }
}

/// The index just past the token that starts at index `i`.
pub open spec fn end_at(s: Seq<char>, i: int) -> int {
    if !(0 <= i < s.len()) {
        i
    } else if two_char_operator_at(s, i) {
        i + 2
    } else if is_letter(s[i]) {
        letter_run_end(s, i)
    } else if is_digit(s[i]) {
        digit_run_end(s, i)
    } else {
        i + 1
    }
}

/// Where the next token read from position `p` of `s` starts.
pub open spec fn token_start(s: Seq<char>, p: int) -> int {
    skip_whitespace_from(s, p)
}

/// The position of the scanner after it has read the token at position `p`.
pub open spec fn position_after(s: Seq<char>, p: int) -> int {
    end_at(s, token_start(s, p))
}

/// The token read from position `p` of `s`: its kind and its literal text.
/// At the end of the input it is `EndOfInput` with an empty literal.
pub open spec fn token_at(s: Seq<char>, p: int) -> (TokenKind, Seq<char>) {
    let st = token_start(s, p);
    (kind_at(s, st), s.subrange(st, end_at(s, st)))
}

/// Skipping whitespace stays within the text and never moves back.
pub proof fn lemma_skip_whitespace_bounds(s: Seq<char>, i: int)
    requires
        0 <= i <= s.len(),
    ensures
        i <= skip_whitespace_from(s, i) <= s.len(),
        skip_whitespace_from(s, i) < s.len() ==> !is_whitespace(s[skip_whitespace_from(s, i)]),
    decreases s.len() - i,
{
    if i < s.len() && is_whitespace(s[i]) {
        lemma_skip_whitespace_bounds(s, i + 1);
    }
}

/// A run of letters ends within the text, and just past its last letter.
pub proof fn lemma_letter_run_bounds(s: Seq<char>, i: int)
    requires
        0 <= i <= s.len(),
    ensures
        i <= letter_run_end(s, i) <= s.len(),
        forall|j: int| i <= j < letter_run_end(s, i) ==> is_letter(#[trigger] s[j]),
    decreases s.len() - i,
{
    if i < s.len() && is_letter(s[i]) {
        lemma_letter_run_bounds(s, i + 1);
    }
}

/// A run of digits ends within the text, and just past its last digit.
pub proof fn lemma_digit_run_bounds(s: Seq<char>, i: int)
    requires
        0 <= i <= s.len(),
    ensures
        i <= digit_run_end(s, i) <= s.len(),
        forall|j: int| i <= j < digit_run_end(s, i) ==> is_digit(#[trigger] s[j]),
    decreases s.len() - i,
{
    if i < s.len() && is_digit(s[i]) {
        lemma_digit_run_bounds(s, i + 1);
    }
}

/// Reading a token keeps the cursor within the text, and every token but
/// `EndOfInput` moves it on by at least one character.
pub proof fn lemma_read_advances(s: Seq<char>, p: int)
    requires
        0 <= p <= s.len(),
    ensures
        p <= position_after(s, p) <= s.len(),
        token_at(s, p).0 != TokenKind::EndOfInput ==> p < position_after(s, p),
        token_at(s, p).0 == TokenKind::EndOfInput <==> token_start(s, p) == s.len(),
{
    let st = token_start(s, p);
    lemma_skip_whitespace_bounds(s, p);
    if st < s.len() {
        lemma_letter_run_bounds(s, st + 1);
        lemma_digit_run_bounds(s, st + 1);
    }
}

/// Input made of whitespace alone holds no token: the first read gives
/// `EndOfInput`, with an empty literal.
pub proof fn lemma_whitespace_only_is_end(s: Seq<char>)
    requires
        forall|i: int| 0 <= i < s.len() ==> is_whitespace(#[trigger] s[i]),
    ensures
        token_at(s, 0) == (TokenKind::EndOfInput, Seq::<char>::empty()),
{
    lemma_skip_whitespace_bounds(s, 0);
    assert(token_start(s, 0) == s.len());
}

/// `==` and `!=` are read as one token whose literal is both characters,
/// never as two tokens of one character each.
pub proof fn lemma_two_char_operator(s: Seq<char>, p: int)
    requires
        0 <= p <= s.len(),
        two_char_operator_at(s, token_start(s, p)),
    ensures
        token_at(s, p).0 == if s[token_start(s, p)] == '=' {
            TokenKind::Equal
        } else {
            TokenKind::NotEqual
        },
        token_at(s, p).1 == s.subrange(token_start(s, p), token_start(s, p) + 2),
        token_at(s, p).1.len() == 2,
        position_after(s, p) == token_start(s, p) + 2,
{
}

/// A word of letters alone reads as one token whose literal is the whole
/// word: a keyword's kind where it spells one, `Identifier` otherwise.
pub proof fn lemma_word_is_one_token(s: Seq<char>)
    requires
        s.len() > 0,
        forall|i: int| 0 <= i < s.len() ==> is_letter(#[trigger] s[i]),
    ensures
        token_at(s, 0) == (keyword_kind(s), s),
        position_after(s, 0) == s.len(),
        keyword_kind(s) == TokenKind::Identifier || keyword_kind(s) == TokenKind::Function
            || keyword_kind(s) == TokenKind::Let || keyword_kind(s) == TokenKind::True
            || keyword_kind(s) == TokenKind::False || keyword_kind(s) == TokenKind::If
            || keyword_kind(s) == TokenKind::Else || keyword_kind(s) == TokenKind::Return,
{
    lemma_run_reaches_end(s, 0, true);
    assert(s.subrange(0, s.len() as int) == s);
}

/// A run of digits of any length reads as one `IntegerLiteral` whose
/// literal is the whole run.
pub proof fn lemma_digits_are_one_token(s: Seq<char>)
    requires
        s.len() > 0,
        forall|i: int| 0 <= i < s.len() ==> is_digit(#[trigger] s[i]),
    ensures
        token_at(s, 0) == (TokenKind::IntegerLiteral, s),
        position_after(s, 0) == s.len(),
{
    lemma_run_reaches_end(s, 0, false);
    assert(s.subrange(0, s.len() as int) == s);
}

/// A run that is not interrupted before the end of the text reaches it.
proof fn lemma_run_reaches_end(s: Seq<char>, i: int, letters: bool)
    requires
        0 <= i <= s.len(),
        letters ==> forall|j: int| 0 <= j < s.len() ==> is_letter(#[trigger] s[j]),
        !letters ==> forall|j: int| 0 <= j < s.len() ==> is_digit(#[trigger] s[j]),
    ensures
        letters ==> letter_run_end(s, i) == s.len(),
        !letters ==> digit_run_end(s, i) == s.len(),
    decreases s.len() - i,
{
    if i < s.len() {
        lemma_run_reaches_end(s, i + 1, letters);
    }
}

/// Once the input is used up, every further read gives `EndOfInput` again
/// and leaves the cursor where it is.
pub proof fn lemma_end_of_input_repeats(s: Seq<char>, p: int)
    requires
        0 <= p <= s.len(),
        token_at(s, p).0 == TokenKind::EndOfInput,
    ensures
        position_after(s, p) == s.len(),
        token_at(s, position_after(s, p)) == (TokenKind::EndOfInput, Seq::<char>::empty()),
        position_after(s, position_after(s, p)) == position_after(s, p),
{
    lemma_read_advances(s, p);
}

/// A scanner over a source text, read one token at a time.
pub struct Lexer {
    /// The source text.
    pub input: String,
    /// The characters of `input`, so that each is reached by its index.
    pub chars: Vec<char>,
    /// The index of the current character.
    pub position: usize,
    /// The index of the character after it.
    pub read_position: usize,
    /// The current character, or `'\0'` at the end of the input.
    pub ch: char,
}

impl Lexer {
    /// The source text.
    pub open spec fn text(&self) -> Seq<char> {
        self.chars@
    }

    /// The cursor fields agree with the text: `ch` is the character at
    /// `position`, or `'\0'` once the cursor has reached the end.
    pub open spec fn wf(&self) -> bool {
        &&& self.chars@ == self.input@
        &&& self.chars.len() < usize::MAX
        &&& self.position <= self.chars.len()
        &&& self.read_position == self.position + 1
        &&& self.ch == if self.position < self.chars.len() {
            self.chars@[self.position as int]
        } else {
            '\0'
        }
    }

    /// A scanner positioned at the first character of `input`.
    pub fn new(input: String) -> (l: Lexer)
        requires
            input@.len() < usize::MAX,
        ensures
            l.wf(),
            l.text() == input@,
            l.position == 0,
    {
        let mut chars: Vec<char> = Vec::new();
        let n = input.as_str().unicode_len();
        let mut i: usize = 0;
        while i < n
            invariant
                n == input@.len(),
                i <= n,
                chars@ == input@.subrange(0, i as int),
            decreases n - i,
        {
            chars.push(input.as_str().get_char(i));
            i = i + 1;
        }
        assert(chars@ == input@);
        let mut l = Lexer { input, chars, position: 0, read_position: 0, ch: '\0' };
        if n > 0 {
            l.ch = l.chars[0];
        }
        l.read_position = 1;
        l
    }

    /// Moves the cursor one character on.
    fn read_char(&mut self)
        requires
            old(self).wf(),
            old(self).position < old(self).chars.len(),
        ensures
            final(self).wf(),
            final(self).chars@ == old(self).chars@,
            final(self).input@ == old(self).input@,
            final(self).position == old(self).position + 1,
    {
        if self.read_position >= self.chars.len() {
            self.ch = '\0';
        } else {
            self.ch = self.chars[self.read_position];
        }
        self.position = self.read_position;
        self.read_position = self.read_position + 1;
    }

    /// The character after the current one, or `'\0'` past the end.
    fn peek_char(&self) -> (c: char)
        requires
            self.wf(),
        ensures
            c == if self.position + 1 < self.chars.len() {
                self.chars@[self.position + 1]
            } else {
                '\0'
            },
    {
        if self.read_position >= self.chars.len() {
            '\0'
        } else {
            self.chars[self.read_position]
        }
    }

    /// A token of kind `kind` whose literal is the one character `ch`.
    pub fn new_token(&self, kind: TokenKind, ch: char) -> (t: Token)
        ensures
            t@ == (kind, seq![ch]),
    {
        Token { kind, literal: char_text(ch) }
    }

    /// Reads the next token and moves the cursor past it. Whitespace before
    /// it is skipped; at the end of the input the token is `EndOfInput`, and
    /// the cursor stays where it is.
    pub fn next_token(&mut self) -> (t: Token)
        requires
            old(self).wf(),
        ensures
            final(self).wf(),
            final(self).chars@ == old(self).chars@,
            final(self).input@ == old(self).input@,
            t@ == token_at(old(self).chars@, old(self).position as int),
            final(self).position == position_after(old(self).chars@, old(self).position as int),
    {
        self.skip_whitespace();
        if self.position >= self.chars.len() {
            return Token { kind: TokenKind::EndOfInput, literal: String::new() };
        }
        let ghost s = self.chars@;
        let ghost p = self.position as int;
        let tok = match self.ch {
            '=' => {
                if self.peek_char() == '=' {
                    return self.read_two_char_operator(TokenKind::Equal);
                } else {
                    self.new_token(TokenKind::Assign, self.ch)
                }
            },
            ';' => self.new_token(TokenKind::Semicolon, self.ch),
            '(' => self.new_token(TokenKind::LParen, self.ch),
            ')' => self.new_token(TokenKind::RParen, self.ch),
            ',' => self.new_token(TokenKind::Comma, self.ch),
            '+' => self.new_token(TokenKind::Plus, self.ch),
            '-' => self.new_token(TokenKind::Minus, self.ch),
            '!' => {
                if self.peek_char() == '=' {
                    return self.read_two_char_operator(TokenKind::NotEqual);
                } else {
                    self.new_token(TokenKind::Bang, self.ch)
                }
            },
            '*' => self.new_token(TokenKind::Asterisk, self.ch),
            '/' => self.new_token(TokenKind::Slash, self.ch),
            '<' => self.new_token(TokenKind::LessThan, self.ch),
            '>' => self.new_token(TokenKind::GreaterThan, self.ch),
            '{' => self.new_token(TokenKind::LBrace, self.ch),
            '}' => self.new_token(TokenKind::RBrace, self.ch),
            _ => {
                if self.is_letter(self.ch) {
                    let literal = self.read_identifier();
                    let kind = lookup_ident(literal.clone());
                    return Token { kind, literal };
                } else if self.is_digit(self.ch) {
                    let literal = self.read_number();
                    return Token { kind: TokenKind::IntegerLiteral, literal };
                } else {
                    self.new_token(TokenKind::Illegal, self.ch)
                }
            },
        };
        assert(seq![s[p]] == s.subrange(p, p + 1));
        self.read_char();
        tok
    }

    /// Reads `==` or `!=` at the cursor as one token of kind `kind`.
    fn read_two_char_operator(&mut self, kind: TokenKind) -> (t: Token)
        requires
            old(self).wf(),
            two_char_operator_at(old(self).chars@, old(self).position as int),
        ensures
            final(self).wf(),
            final(self).chars@ == old(self).chars@,
            final(self).input@ == old(self).input@,
            final(self).position == old(self).position + 2,
            t@ == (kind, old(self).chars@.subrange(old(self).position as int, old(self).position + 2)),
    {
        let start = self.position;
        self.read_char();
        self.read_char();
        Token { kind, literal: self.input.as_str().substring_char(start, self.position).to_owned() }
    }

    /// Moves the cursor past the whitespace at it.
    fn skip_whitespace(&mut self)
        requires
            old(self).wf(),
        ensures
            final(self).wf(),
            final(self).chars@ == old(self).chars@,
            final(self).input@ == old(self).input@,
            final(self).position == skip_whitespace_from(old(self).chars@, old(self).position as int),
    {
        while self.ch == ' ' || self.ch == '\t' || self.ch == '\n' || self.ch == '\r'
            invariant
                self.wf(),
                self.chars@ == old(self).chars@,
                self.input@ == old(self).input@,
                skip_whitespace_from(self.chars@, self.position as int)
                    == skip_whitespace_from(old(self).chars@, old(self).position as int),
            decreases self.chars.len() - self.position,
        {
            self.read_char();
        }
    }

    /// Reads the run of letters at the cursor and moves past it.
    fn read_identifier(&mut self) -> (r: String)
        requires
            old(self).wf(),
        ensures
            final(self).wf(),
            final(self).chars@ == old(self).chars@,
            final(self).input@ == old(self).input@,
            final(self).position == letter_run_end(old(self).chars@, old(self).position as int),
            r@ == old(self).chars@.subrange(old(self).position as int, final(self).position as int),
    {
        let position = self.position;
        while self.is_letter(self.ch)
            invariant
                self.wf(),
                self.chars@ == old(self).chars@,
                self.input@ == old(self).input@,
                position <= self.position,
                letter_run_end(self.chars@, self.position as int)
                    == letter_run_end(old(self).chars@, position as int),
            decreases self.chars.len() - self.position,
        {
            self.read_char();
        }
        self.input.as_str().substring_char(position, self.position).to_owned()
    }

    /// Reads the run of digits at the cursor and moves past it.
    fn read_number(&mut self) -> (r: String)
        requires
            old(self).wf(),
        ensures
            final(self).wf(),
            final(self).chars@ == old(self).chars@,
            final(self).input@ == old(self).input@,
            final(self).position == digit_run_end(old(self).chars@, old(self).position as int),
            r@ == old(self).chars@.subrange(old(self).position as int, final(self).position as int),
    {
        let position = self.position;
        while self.is_digit(self.ch)
            invariant
                self.wf(),
                self.chars@ == old(self).chars@,
                self.input@ == old(self).input@,
                position <= self.position,
                digit_run_end(self.chars@, self.position as int)
                    == digit_run_end(old(self).chars@, position as int),
            decreases self.chars.len() - self.position,
        {
            self.read_char();
        }
        self.input.as_str().substring_char(position, self.position).to_owned()
    }

    /// Whether `ch` may stand in an identifier.
    fn is_letter(&self, ch: char) -> (r: bool)
        ensures
            r == is_letter(ch),
    {
        'a' <= ch && ch <= 'z' || 'A' <= ch && ch <= 'Z' || ch == '_'
    }

    /// Whether `ch` may stand in an integer literal.
    fn is_digit(&self, ch: char) -> (r: bool)
        ensures
            r == is_digit(ch),
    {
        '0' <= ch && ch <= '9'
    }
}

} // verus!
