use vstd::prelude::*;

use crate::ast::{Expression, Identifier, Program, Statement, StatementModel};
use crate::lexer::{lemma_read_advances, position_after, token_at, Lexer};
use crate::token::{kind_name, Token, TokenKind};

verus! {

/// What the parser's behaviour depends on: the source text, the lexer's
/// position in it, the current and the next token, and the diagnostics so far.
pub struct ParseState {
    pub text: Seq<char>,
    pub pos: int,
    pub cur: (TokenKind, Seq<char>),
    pub peek: (TokenKind, Seq<char>),
    pub errors: Seq<Seq<char>>,
}

/// The state after one token more has been read: the next token becomes
/// the current one.
pub open spec fn advanced(st: ParseState) -> ParseState {
    ParseState {
        cur: st.peek,
        peek: token_at(st.text, st.pos),
        pos: position_after(st.text, st.pos),
        ..st
    }
}

/// The diagnostic recorded when the next token is not of the expected kind.
pub open spec fn peek_error_message(expected: TokenKind, got: TokenKind) -> Seq<char> {
    "expected next token to be "@ + kind_name(expected) + ", got "@ + kind_name(got) + " instead"@
}

/// The state with a diagnostic for an unexpected next token appended.
pub open spec fn with_peek_error(st: ParseState, expected: TokenKind) -> ParseState {
    ParseState { errors: st.errors.push(peek_error_message(expected, st.peek.0)), ..st }
}

/// Consumes the next token if it is of kind `k`; records a diagnostic otherwise.
pub open spec fn expect_peek_result(st: ParseState, k: TokenKind) -> (bool, ParseState) {
    if st.peek.0 == k {
        (true, advanced(st))
    } else {
        (false, with_peek_error(st, k))
    }
}

/// How much reading is left: the characters not yet scanned, and one for
/// each of the two buffered tokens that is not `EndOfInput`.
pub open spec fn remaining_work(st: ParseState) -> nat {
    let rest: int = if 0 <= st.pos <= st.text.len() {
        st.text.len() - st.pos
    } else {
        0
    };
    (rest + (if st.cur.0 != TokenKind::EndOfInput {
        1int
    } else {
        0int
    }) + (if st.peek.0 != TokenKind::EndOfInput {
        1int
    } else {
        0int
    })) as nat
}

/// Reading a token never adds work, and reading past a current token that
/// is not `EndOfInput` takes some away.
pub proof fn lemma_advanced_work(st: ParseState)
    ensures
        remaining_work(advanced(st)) <= remaining_work(st),
        st.cur.0 != TokenKind::EndOfInput ==> remaining_work(advanced(st)) < remaining_work(st),
{
    if 0 <= st.pos <= st.text.len() {
        lemma_read_advances(st.text, st.pos);
    }
}

/// Advances until the current token ends a statement: a `Semicolon`, or
/// `EndOfInput` where the statement has none. The tokens of the expression
/// in between are not parsed yet, only stepped over.
pub open spec fn skip_to_terminator(st: ParseState) -> ParseState
    decreases remaining_work(st),
{
    if st.cur.0 == TokenKind::Semicolon || st.cur.0 == TokenKind::EndOfInput {
        st
    } else {
        proof {
            lemma_advanced_work(st);
        }
        skip_to_terminator(advanced(st))
    }
}

/// Skipping to the terminator only reads tokens: the text and the
/// diagnostics stay, and no work is added.
pub proof fn lemma_skip_to_terminator(st: ParseState)
    ensures
        remaining_work(skip_to_terminator(st)) <= remaining_work(st),
        skip_to_terminator(st).text == st.text,
        skip_to_terminator(st).errors == st.errors,
    decreases remaining_work(st),
{
    if !(st.cur.0 == TokenKind::Semicolon || st.cur.0 == TokenKind::EndOfInput) {
        lemma_advanced_work(st);
        lemma_skip_to_terminator(advanced(st));
    }
}

/// `let <identifier> = ... ;`, with the current token `Let`. Where the
/// identifier or the `=` is missing, a diagnostic is recorded and the
/// statement is the placeholder.
pub open spec fn parse_let_result(st: ParseState) -> (StatementModel, ParseState) {
    let (has_name, st1) = expect_peek_result(st, TokenKind::Identifier);
    if !has_name {
        (StatementModel::Empty, st1)
    } else {
        let name = st1.cur.1;
        let (has_assign, st2) = expect_peek_result(st1, TokenKind::Assign);
        if !has_assign {
            (StatementModel::Empty, st2)
        } else {
            (StatementModel::Let(name, Expression::EmptyExpression), skip_to_terminator(st2))
        }
    }
}

/// `return ... ;`, with the current token `Return`.
pub open spec fn parse_return_result(st: ParseState) -> (StatementModel, ParseState) {
    (StatementModel::Return(Expression::EmptyExpression), skip_to_terminator(advanced(st)))
}

/// One statement, chosen by the current token; none where that token
/// starts no statement.
pub open spec fn parse_statement_result(st: ParseState) -> (Option<StatementModel>, ParseState) {
    if st.cur.0 == TokenKind::Let {
        let (s, st1) = parse_let_result(st);
        (Some(s), st1)
    } else if st.cur.0 == TokenKind::Return {
        let (s, st1) = parse_return_result(st);
        (Some(s), st1)
    } else {
        (None, st)
    }
}

/// Parsing one statement and then stepping one token on always leaves less
/// work, so the parser cannot stall on a token.
pub proof fn lemma_statement_progress(st: ParseState)
    requires
        st.cur.0 != TokenKind::EndOfInput,
    ensures
        remaining_work(advanced(parse_statement_result(st).1)) < remaining_work(st),
        parse_statement_result(st).1.text == st.text,
{
    lemma_advanced_work(st);
    let st1 = parse_statement_result(st).1;
    lemma_advanced_work(st1);
    if st.cur.0 == TokenKind::Let {
        let (ok, a) = expect_peek_result(st, TokenKind::Identifier);
        if ok {
            lemma_advanced_work(a);
            let (ok2, b) = expect_peek_result(a, TokenKind::Assign);
            if ok2 {
                lemma_skip_to_terminator(b);
            }
        }
    } else if st.cur.0 == TokenKind::Return {
        lemma_skip_to_terminator(advanced(st));
    }
}

/// The statements parsed from `st` up to the end of the input, and the
/// state in which parsing stops.
pub open spec fn parse_program_result(st: ParseState) -> (Seq<StatementModel>, ParseState)
    decreases remaining_work(st),
{
    if st.cur.0 == TokenKind::EndOfInput {
        (Seq::empty(), st)
    } else {
        proof {
            lemma_statement_progress(st);
        }
        let (s, st1) = parse_statement_result(st);
        let (rest, last) = parse_program_result(advanced(st1));
        match s {
            Some(x) => (seq![x] + rest, last),
            None => (rest, last),
        }
    }
}

/// A recursive-descent parser over the tokens of one lexer, with one token
/// of lookahead beyond the current one.
pub struct Parser {
    pub l: Lexer,
    pub cur_token: Token,
    pub peek_token: Token,
    pub errors: Vec<String>,
}

impl Parser {
    /// The lexer underneath is well formed.
    pub open spec fn wf(&self) -> bool {
        self.l.wf()
    }

    /// What the parser's behaviour depends on, in mathematical form.
    pub open spec fn state(&self) -> ParseState {
        ParseState {
            text: self.l.text(),
            pos: self.l.position as int,
            cur: self.cur_token@,
            peek: self.peek_token@,
            errors: self.errors@.map_values(|e: String| e@),
        }
    }

    /// A parser over the tokens of `l`, with the first two of them read
    /// into the lookahead.
    pub fn new(l: Lexer) -> (p: Parser)
        requires
            l.wf(),
        ensures
            p.wf(),
            p.state() == advanced(
                advanced(
                    ParseState {
                        text: l.text(),
                        pos: l.position as int,
                        cur: (TokenKind::Illegal, Seq::empty()),
                        peek: (TokenKind::Illegal, Seq::empty()),
                        errors: Seq::empty(),
                    },
                ),
            ),
    {
        let mut p = Parser {
            l,
            cur_token: Token { kind: TokenKind::Illegal, literal: String::new() },
            peek_token: Token { kind: TokenKind::Illegal, literal: String::new() },
            errors: Vec::new(),
        };
        assert(p.state().errors =~= Seq::empty());
        p.next_token();
        p.next_token();
        p
    }

    /// Moves the lookahead one token on.
    pub fn next_token(&mut self)
        requires
            old(self).wf(),
        ensures
            final(self).wf(),
            final(self).state() == advanced(old(self).state()),
    {
        let mut t = self.l.next_token();
        std::mem::swap(&mut self.peek_token, &mut t);
        self.cur_token = t;
    }

    /// Parses the statements up to the end of the input. Statements that
    /// fail are kept as placeholders, with their diagnostics in `errors`;
    /// tokens that start no statement are stepped over.
    pub fn parse_program(&mut self) -> (prog: Program)
        requires
            old(self).wf(),
        ensures
            final(self).wf(),
            prog@ == parse_program_result(old(self).state()).0,
            final(self).state() == parse_program_result(old(self).state()).1,
    {
        let mut program = Program { statements: Vec::new() };
        while self.cur_token.kind != TokenKind::EndOfInput
            invariant
                self.wf(),
                program@ + parse_program_result(self.state()).0 == parse_program_result(
                    old(self).state(),
                ).0,
                parse_program_result(self.state()).1 == parse_program_result(old(self).state()).1,
            decreases remaining_work(self.state()),
        {
            proof {
                lemma_statement_progress(self.state());
            }
            let stmt = self.parse_statement();
            let ghost before = program@;
            if let Some(s) = stmt {
                program.statements.push(s);
                assert(program@ =~= before.push(s@));
                assert(program@ + parse_program_result(advanced(self.state())).0 =~= before + (seq![s@]
                    + parse_program_result(advanced(self.state())).0));
            } else {
                assert(program@ =~= before);
            }
            self.next_token();
        }
        assert(parse_program_result(self.state()).0 =~= Seq::empty());
        assert(program@ =~= program@ + parse_program_result(self.state()).0);
        program
    }

    /// Parses the statement that the current token starts, if it starts one.
    pub fn parse_statement(&mut self) -> (r: Option<Statement>)
        requires
            old(self).wf(),
        ensures
            final(self).wf(),
            parse_statement_result(old(self).state()).0 == match r {
                Some(x) => Some(x@),
                None => None::<StatementModel>,
            },
            final(self).state() == parse_statement_result(old(self).state()).1,
    {
        match self.cur_token.kind {
            TokenKind::Let => Some(self.parse_let_statement()),
            TokenKind::Return => Some(self.parse_return_statement()),
            _ => None,
        }
    }

    /// Parses `let <identifier> = ... ;` with the current token `Let`.
    pub fn parse_let_statement(&mut self) -> (r: Statement)
        requires
            old(self).wf(),
        ensures
            final(self).wf(),
            (r@, final(self).state()) == parse_let_result(old(self).state()),
    {
        if !self.expect_peek(TokenKind::Identifier) {
            return Statement::EmptyStatement;
        }
        let ident = Identifier { value: self.cur_token.literal.clone() };
        if !self.expect_peek(TokenKind::Assign) {
            return Statement::EmptyStatement;
        }
        self.skip_to_terminator();
        Statement::LetStatement(ident, Expression::EmptyExpression)
    }

    /// Parses `return ... ;` with the current token `Return`.
    pub fn parse_return_statement(&mut self) -> (r: Statement)
        requires
            old(self).wf(),
        ensures
            final(self).wf(),
            (r@, final(self).state()) == parse_return_result(old(self).state()),
    {
        self.next_token();
        self.skip_to_terminator();
        Statement::ReturnStatement(Expression::EmptyExpression)
    }

    /// Steps on until the current token is a `Semicolon` or `EndOfInput`.
    /// The expression before it is not parsed yet.
    fn skip_to_terminator(&mut self)
        requires
            old(self).wf(),
        ensures
            final(self).wf(),
            final(self).state() == skip_to_terminator(old(self).state()),
    {
        while !self.cur_token_is(TokenKind::Semicolon) && !self.cur_token_is(TokenKind::EndOfInput)
            invariant
                self.wf(),
                skip_to_terminator(self.state()) == skip_to_terminator(old(self).state()),
            decreases remaining_work(self.state()),
        {
            proof {
                lemma_advanced_work(self.state());
            }
            self.next_token();
        }
    }

    /// Whether the current token is of kind `t`.
    pub fn cur_token_is(&self, t: TokenKind) -> (r: bool)
        ensures
            r == (self.cur_token.kind == t),
    {
        self.cur_token.kind == t
    }

    /// Whether the next token is of kind `t`.
    pub fn peek_token_is(&self, t: TokenKind) -> (r: bool)
        ensures
            r == (self.peek_token.kind == t),
    {
        self.peek_token.kind == t
    }

    /// Consumes the next token if it is of kind `t`; otherwise records a
    /// diagnostic and leaves the lookahead as it is.
    pub fn expect_peek(&mut self, t: TokenKind) -> (r: bool)
        requires
            old(self).wf(),
        ensures
            final(self).wf(),
            (r, final(self).state()) == expect_peek_result(old(self).state(), t),
    {
        if self.peek_token_is(t) {
            self.next_token();
            true
        } else {
            self.peek_error(t);
            false
        }
    }

    /// The diagnostics recorded so far, oldest first.
    pub fn errors(&self) -> (r: Vec<String>)
        ensures
            r@.map_values(|e: String| e@) == self.state().errors,
    {
        let mut r: Vec<String> = Vec::new();
        let mut i: usize = 0;
        while i < self.errors.len()
            invariant
                i <= self.errors.len(),
                r@.len() == i,
                forall|j: int| 0 <= j < i ==> (#[trigger] r@[j])@ == self.errors@[j]@,
            decreases self.errors.len() - i,
        {
            r.push(self.errors[i].clone());
            i = i + 1;
        }
        assert(r@.map_values(|e: String| e@) =~= self.state().errors);
        r
    }

    /// Records that the next token is not of the expected kind `t`.
    pub fn peek_error(&mut self, t: TokenKind)
        requires
            old(self).wf(),
        ensures
            final(self).wf(),
            final(self).state() == with_peek_error(old(self).state(), t),
    {
        let mut msg = String::from_str("expected next token to be ");
        msg.append(t.name());
        msg.append(", got ");
        msg.append(self.peek_token.kind.name());
        msg.append(" instead");
        let ghost before = self.errors@;
        self.errors.push(msg);
        assert(self.errors@.map_values(|e: String| e@) =~= before.map_values(|e: String| e@).push(
            msg@,
        ));
    }
}

} // verus!
