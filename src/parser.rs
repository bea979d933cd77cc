use vstd::prelude::*;
use crate::ast::{op_prec, Identifier, IntLiteral, LExp, Program, RExp, Stmt, Term};
use crate::error::CompileError;
use crate::grammar::{
    carried, err_v, expect_block, has_text, initial_state, kind_of, kind_op, kind_tt,
    list_v, measure, next_state, p_block, p_close, p_decl, p_exit, p_assign, p_if, p_items, p_newlines,
    p_program, p_rexp, p_climb, p_skip, p_stmt, p_term, rexp_v, state_of, step, stmt_v, stmts_v,
    term_v, ErrV, PState, RExpV, StmtV, TermV,
};
use crate::lexer::{token_is, Lexer, TokenType};

verus! {

/// Whether `l` can go on parsing: well formed, its current token the latest
/// it has made.
pub open spec fn ready(l: Lexer) -> bool {
    &&& l.wf()
    &&& l.token_cursor() + 1 == l.tokens().len()
    &&& 0 <= lm(l)
}

/// What is left for lexer `l` to read.
pub open spec fn lm(l: Lexer) -> int {
    measure(l.source(), state_of(l))
}

/// The grammar's token for what the lexer made from `text`.
proof fn lemma_token_view(tt: TokenType, text: Seq<char>, illegal: bool)
    requires
        token_is(tt, text, illegal),
    ensures
        kind_tt(tt) == kind_of(text, illegal),
        carried(tt) == if has_text(kind_of(text, illegal)) {
            text
        } else {
            Seq::<char>::empty()
        },
{
}

/// The lexer's own measure is the grammar's.
proof fn lemma_measure(l: Lexer)
    requires
        l.wf(),
        l.token_cursor() + 1 == l.tokens().len(),
    ensures
        l.measure() as int == lm(l),
        0 <= lm(l),
{
    l.lemma_cursor_in_range();
}

/// `r`, with the inner signal that a construct was not found replaced by `err`.
fn handle_not_found<T>(r: Result<T, CompileError>, err: CompileError) -> (o: Result<T, CompileError>)
    ensures
        (r matches Err(CompileError::NotFound)) ==> o == Err::<T, CompileError>(err),
        !(r matches Err(CompileError::NotFound)) ==> o == r,
{
    match r {
        Err(CompileError::NotFound) => Err(err),
        r => r,
    }
}

/// Whether `tt` is a binary operator.
fn is_op(tt: &TokenType) -> (r: bool)
    ensures
        r == kind_op(kind_tt(*tt)) is Some,
{
    match tt {
        TokenType::Minus | TokenType::Plus | TokenType::Asterisk | TokenType::ForwardSlash
        | TokenType::Equal | TokenType::NotEqual | TokenType::Less | TokenType::LessEqual
        | TokenType::Greater | TokenType::GreaterEqual => true,
        _ => false,
    }
}

/// The precedence of operator `tt`, and whether it groups to the left.
fn op_prec_and_assoc(tt: &TokenType) -> (r: (usize, bool))
    requires
        kind_op(kind_tt(*tt)) is Some,
    ensures
        r.0 as nat == op_prec(kind_op(kind_tt(*tt))->0),
        r.1 == (r.0 >= 2),
{
    match tt {
        TokenType::Plus | TokenType::Minus => (2, true),
        TokenType::Asterisk | TokenType::ForwardSlash => (3, true),
        _ => (1, false),
    }
}

impl RExp {
    /// The binary expression of operator `operator` over `lhs` and `rhs`.
    pub fn combine(operator: &TokenType, lhs: RExp, rhs: RExp) -> (r: RExp)
        requires
            kind_op(kind_tt(*operator)) is Some,
        ensures
            rexp_v(r) == RExpV::Bin(
                kind_op(kind_tt(*operator))->0,
                Box::new(rexp_v(lhs)),
                Box::new(rexp_v(rhs)),
            ),
    {
        let l = Box::new(lhs);
        let r = Box::new(rhs);
        match operator {
            TokenType::Plus => RExp::Add(l, r),
            TokenType::Minus => RExp::Sub(l, r),
            TokenType::Asterisk => RExp::Mul(l, r),
            TokenType::ForwardSlash => RExp::Div(l, r),
            TokenType::Equal => RExp::Equal(l, r),
            TokenType::NotEqual => RExp::NotEqual(l, r),
            TokenType::Less => RExp::Less(l, r),
            TokenType::LessEqual => RExp::LessEqual(l, r),
            TokenType::Greater => RExp::Greater(l, r),
            _ => RExp::GreaterEqual(l, r),
        }
    }
}

/// Turns a program's text into its statements.
pub struct Parser {
    lexer: Lexer,
    pub program: Program,
}

impl Parser {
    /// The statements parsed so far.
    pub closed spec fn statements(&self) -> Seq<Stmt> {
        self.program.stmts@
    }

    /// The lexer, as the contracts speak of it.
    pub closed spec fn lexer_state(&self) -> Lexer {
        self.lexer
    }

    pub closed spec fn wf(&self) -> bool {
        ready(self.lexer)
    }

    /// A parser at the start of `source`, with no statement yet.
    pub fn new(source: String) -> (r: Self)
        requires
            source@.len() < usize::MAX,
        ensures
            r.wf(),
            r.statements().len() == 0,
            r.lexer_state().source() == source@,
            state_of(r.lexer_state()) == initial_state(),
    {
        let lexer = Lexer::new(source);
        proof { lemma_measure(lexer); }
        Parser { lexer, program: Program { stmts: Vec::new() } }
    }

    /// A parser at the start of `source`, whose locations name `file`.
    pub fn with_file(source: String, file: String) -> (r: Self)
        requires
            source@.len() < usize::MAX,
        ensures
            r.wf(),
            r.statements().len() == 0,
            r.lexer_state().source() == source@,
            state_of(r.lexer_state()) == initial_state(),
    {
        let lexer = Lexer::with_file(source, Some(file));
        proof { lemma_measure(lexer); }
        Parser { lexer, program: Program { stmts: Vec::new() } }
    }

    /// Moves to the next token.
    fn next(&mut self) -> (r: Result<(), CompileError>)
        requires
            ready(old(self).lexer),
            !(old(self).lexer.current().tokentype is EndOfFile),
        ensures
            ready(final(self).lexer),
            final(self).lexer.source() == old(self).lexer.source(),
            lm(final(self).lexer) < lm(old(self).lexer),
            match step(old(self).lexer.source(), state_of(old(self).lexer)) {
                Ok(st) => r is Ok && state_of(final(self).lexer) == st,
                Err(e) => r matches Err(x) && err_v(x) == e,
            },
            r matches Err(e) ==> e is IllegalToken,
            final(self).program == old(self).program,
    {
        proof { lemma_measure(self.lexer); }
        let r = self.lexer.consume();
        proof {
            reveal(next_state);
            lemma_measure(self.lexer);
            let src = old(self).lexer.source();
            let ls = lex_step_of(old(self).lexer);
            lemma_token_view(
                self.lexer.tokens().last().tokentype,
                src.subrange(ls.start as int, ls.end as int),
                ls.illegal,
            );
            assert(self.lexer.current() == self.lexer.tokens().last());
        }
        r
    }
}

impl Parser {
    /// term := IDENT | INT | '-' term | '(' expr ')'
    fn term(&mut self) -> (r: Result<Term, CompileError>)
        requires
            ready(old(self).lexer),
        ensures
            ready(final(self).lexer),
            final(self).lexer.source() == old(self).lexer.source(),
            lm(final(self).lexer) <= lm(old(self).lexer),
            r is Ok ==> lm(final(self).lexer) < lm(old(self).lexer),
            match p_term(old(self).lexer.source(), state_of(old(self).lexer)) {
                Ok((t, st)) => r matches Ok(x) && term_v(x) == t && state_of(final(self).lexer)
                    == st,
                Err(e) => r matches Err(x) && err_v(x) == e,
            },
            final(self).program == old(self).program,
        decreases lm(old(self).lexer), 1int,
    {
        let token = self.lexer.peek();
        match token.tokentype {
            TokenType::Ident(lexeme) => {
                match self.next() {
                    Err(e) => return Err(e),
                    Ok(()) => {},
                }
                Ok(
                    Term::LExp(
                        LExp::Ident(
                            Identifier { file: token.file, start: token.start, end: token.end, lexeme },
                        ),
                    ),
                )
            },
            TokenType::IntLiteral(lexeme) => {
                match self.next() {
                    Err(e) => return Err(e),
                    Ok(()) => {},
                }
                Ok(
                    Term::IntLit(
                        IntLiteral { file: token.file, start: token.start, end: token.end, lexeme },
                    ),
                )
            },
            TokenType::Minus => {
                match self.next() {
                    Err(e) => return Err(e),
                    Ok(()) => {},
                }
                match self.term() {
                    Err(e) => Err(e),
                    Ok(t) => Ok(Term::Neg(Box::new(t))),
                }
            },
            TokenType::SBrace => self.bracketed(),
            _ => Err(CompileError::NotFound),
        }
    }

    /// '(' expr ')', with newlines passed over inside.
    fn bracketed(&mut self) -> (r: Result<Term, CompileError>)
        requires
            ready(old(self).lexer),
            old(self).lexer.current().tokentype is SBrace,
        ensures
            ready(final(self).lexer),
            final(self).lexer.source() == old(self).lexer.source(),
            lm(final(self).lexer) <= lm(old(self).lexer),
            r is Ok ==> lm(final(self).lexer) < lm(old(self).lexer),
            !(r matches Err(CompileError::NotFound)),
            match p_term(old(self).lexer.source(), state_of(old(self).lexer)) {
                Ok((t, st)) => r matches Ok(x) && term_v(x) == t && state_of(final(self).lexer)
                    == st,
                Err(e) => r matches Err(x) && err_v(x) == e,
            },
            final(self).program == old(self).program,
        decreases lm(old(self).lexer), 0int,
    {
        let ghost st = state_of(self.lexer);
        let saved = self.lexer.emit_newline();
        self.lexer.set_emit_newline(false);
        proof { lemma_measure(self.lexer); }
        assert(state_of(self.lexer) == PState { enl: false, ..st });
        match self.next() {
            Err(e) => return Err(e),
            Ok(()) => {},
        }
        let at = self.lexer.peek().start;
        let e = match handle_not_found(self.rexp(), CompileError::ExpectedExpression(at)) {
            Err(e) => return Err(e),
            Ok(e) => e,
        };
        let close = self.lexer.peek();
        match close.tokentype {
            TokenType::EBrace => {
                self.lexer.set_emit_newline(saved);
                proof { lemma_measure(self.lexer); }
                match self.next() {
                    Err(e) => return Err(e),
                    Ok(()) => {},
                }
            },
            _ => return Err(CompileError::UnexpectedToken(close)),
        }
        Ok(Term::Bracketed(Box::new(e)))
    }

    /// Parses an expression whose operators, outside parentheses, bind at
    /// least as tightly as `min_prec`, by precedence climbing.
    fn rexp_min_prec(&mut self, min_prec: usize) -> (r: Result<RExp, CompileError>)
        requires
            ready(old(self).lexer),
        ensures
            ready(final(self).lexer),
            final(self).lexer.source() == old(self).lexer.source(),
            lm(final(self).lexer) <= lm(old(self).lexer),
            r is Ok ==> lm(final(self).lexer) < lm(old(self).lexer),
            match p_rexp(old(self).lexer.source(), state_of(old(self).lexer), min_prec as nat) {
                Ok((t, st)) => r matches Ok(x) && rexp_v(x) == t && state_of(final(self).lexer)
                    == st,
                Err(e) => r matches Err(x) && err_v(x) == e,
            },
            final(self).program == old(self).program,
        decreases lm(old(self).lexer), 2int,
    {
        let ghost src = self.lexer.source();
        let ghost st0 = state_of(self.lexer);
        let first = match self.term() {
            Err(e) => return Err(e),
            Ok(t) => t,
        };
        let mut rexp = RExp::Term(first);
        loop
            invariant
                ready(self.lexer),
                self.lexer.source() == src,
                src == old(self).lexer.source(),
                st0 == state_of(old(self).lexer),
                lm(self.lexer) < lm(old(self).lexer),
                p_rexp(src, st0, min_prec as nat) == p_climb(
                    src,
                    state_of(self.lexer),
                    rexp_v(rexp),
                    min_prec as nat,
                ),
                self.program == old(self).program,
            decreases lm(self.lexer),
        {
            let op = self.lexer.peek();
            if !is_op(&op.tokentype) {
                return Ok(rexp);
            }
            let (prec, left) = op_prec_and_assoc(&op.tokentype);
            if prec < min_prec {
                return Ok(rexp);
            }
            let ghost sta = state_of(self.lexer);
            match self.next() {
                Err(e) => return Err(e),
                Ok(()) => {},
            }
            let next_min = if left {
                prec + 1
            } else {
                prec
            };
            let rhs = match handle_not_found(
                self.rexp_min_prec(next_min),
                CompileError::ExpectedExpression(op.end),
            ) {
                Err(e) => return Err(e),
                Ok(e) => e,
            };
            rexp = RExp::combine(&op.tokentype, rexp, rhs);
        }
    }

    fn rexp(&mut self) -> (r: Result<RExp, CompileError>)
        requires
            ready(old(self).lexer),
        ensures
            ready(final(self).lexer),
            final(self).lexer.source() == old(self).lexer.source(),
            lm(final(self).lexer) <= lm(old(self).lexer),
            r is Ok ==> lm(final(self).lexer) < lm(old(self).lexer),
            match p_rexp(old(self).lexer.source(), state_of(old(self).lexer), 0) {
                Ok((t, st)) => r matches Ok(x) && rexp_v(x) == t && state_of(final(self).lexer)
                    == st,
                Err(e) => r matches Err(x) && err_v(x) == e,
            },
            final(self).program == old(self).program,
        decreases lm(old(self).lexer), 3int,
    {
        self.rexp_min_prec(0)
    }
}

/// Appending a statement appends its view.
proof fn lemma_list_v_push(ss: Seq<Stmt>, s: Stmt)
    ensures
        list_v(ss.push(s), ss.len() + 1) == list_v(ss, ss.len() as nat).push(stmt_v(s)),
{
    lemma_list_v_prefix(ss, s, ss.len() as nat);
}

/// Appending leaves the view of every prefix as it was.
proof fn lemma_list_v_prefix(ss: Seq<Stmt>, s: Stmt, n: nat)
    requires
        n <= ss.len(),
    ensures
        list_v(ss.push(s), n) == list_v(ss, n),
    decreases n,
{
    if n > 0 {
        lemma_list_v_prefix(ss, s, (n - 1) as nat);
        assert(ss.push(s)[n - 1] == ss[n - 1]);
    }
}

impl Parser {
    /// Whether the current token is a newline.
    fn at_newline(&self) -> (r: bool)
        requires
            self.lexer.wf(),
        ensures
            r == (self.lexer.current().tokentype is NewLine),
    {
        match self.lexer.peek().tokentype {
            TokenType::NewLine => true,
            _ => false,
        }
    }

    /// Passes over newlines and the start-of-file marker.
    fn skip_newlines(&mut self) -> (r: Result<bool, CompileError>)
        requires
            ready(old(self).lexer),
        ensures
            ready(final(self).lexer),
            final(self).lexer.source() == old(self).lexer.source(),
            lm(final(self).lexer) <= lm(old(self).lexer),
            match p_skip(old(self).lexer.source(), state_of(old(self).lexer)) {
                Ok(st) => r is Ok && state_of(final(self).lexer) == st,
                Err(e) => r matches Err(x) && err_v(x) == e,
            },
            r matches Err(e) ==> e is IllegalToken,
            final(self).program == old(self).program,
    {
        let ghost src = self.lexer.source();
        let mut skipped = false;
        loop
            invariant
                ready(self.lexer),
                self.lexer.source() == src,
                src == old(self).lexer.source(),
                lm(self.lexer) <= lm(old(self).lexer),
                p_skip(src, state_of(old(self).lexer)) == p_skip(src, state_of(self.lexer)),
                self.program == old(self).program,
            decreases lm(self.lexer),
        {
            let go = match self.lexer.peek().tokentype {
                TokenType::NewLine | TokenType::StartOfFile => true,
                _ => false,
            };
            if !go {
                return Ok(skipped);
            }
            match self.next() {
                Err(e) => return Err(e),
                Ok(()) => {},
            }
            skipped = true;
        }
    }

    fn stmt(&mut self) -> (r: Result<Stmt, CompileError>)
        requires
            ready(old(self).lexer),
        ensures
            ready(final(self).lexer),
            final(self).lexer.source() == old(self).lexer.source(),
            lm(final(self).lexer) <= lm(old(self).lexer),
            r is Ok ==> lm(final(self).lexer) < lm(old(self).lexer),
            r matches Err(CompileError::NotFound) ==> final(self).lexer == old(self).lexer,
            match p_stmt(old(self).lexer.source(), state_of(old(self).lexer)) {
                Ok((t, st)) => r matches Ok(x) && stmt_v(x) == t && state_of(final(self).lexer)
                    == st,
                Err(e) => r matches Err(x) && err_v(x) == e,
            },
            final(self).program == old(self).program,
        decreases lm(old(self).lexer), 2int,
    {
        let token = self.lexer.peek();
        match token.tokentype {
            TokenType::Let => self.decl_or_init(),
            TokenType::Ident(_) | TokenType::IntLiteral(_) | TokenType::SBrace
            | TokenType::Minus => self.assign_stmt_or_rexp(),
            TokenType::Exit => self.exit(),
            TokenType::SCurly => match self.block() {
                Ok(b) => Ok(Stmt::Block(b)),
                Err(e) => Err(e),
            },
            TokenType::If => self.if_(),
            _ => Err(CompileError::NotFound),
        }
    }

    /// ifStmt := 'if' expr block ('else' (ifStmt | block))?
    fn if_(&mut self) -> (r: Result<Stmt, CompileError>)
        requires
            ready(old(self).lexer),
        ensures
            ready(final(self).lexer),
            final(self).lexer.source() == old(self).lexer.source(),
            lm(final(self).lexer) <= lm(old(self).lexer),
            r is Ok ==> lm(final(self).lexer) < lm(old(self).lexer),
            r matches Err(CompileError::NotFound) ==> final(self).lexer == old(self).lexer,
            match p_if(old(self).lexer.source(), state_of(old(self).lexer)) {
                Ok((t, st)) => r matches Ok(x) && stmt_v(x) == t && state_of(final(self).lexer)
                    == st,
                Err(e) => r matches Err(x) && err_v(x) == e,
            },
            final(self).program == old(self).program,
        decreases lm(old(self).lexer), 1int,
    {
        let ghost src = self.lexer.source();
        let ghost st = state_of(self.lexer);
        match self.lexer.peek().tokentype {
            TokenType::If => {},
            _ => return Err(CompileError::NotFound),
        }
        match self.next() {
            Err(e) => return Err(e),
            Ok(()) => {},
        }
        let at = self.lexer.peek().start;
        let cond = match handle_not_found(self.rexp(), CompileError::ExpectedExpression(at)) {
            Err(e) => return Err(e),
            Ok(e) => e,
        };
        let at = self.lexer.peek().start;
        let if_block = match handle_not_found(self.block(), CompileError::ExpectedBlock(at)) {
            Err(e) => return Err(e),
            Ok(b) => b,
        };
        let ghost st3 = state_of(self.lexer);
        let ghost b = stmts_v(if_block@);
        let ghost c = rexp_v(cond);
        assert(0 <= lm(self.lexer) < lm(old(self).lexer));
        match self.lexer.peek().tokentype {
            TokenType::Else => {},
            _ => return Ok(Stmt::If(cond, if_block, None)),
        }
        match self.next() {
            Err(e) => return Err(e),
            Ok(()) => {},
        }
        match self.if_() {
            Ok(else_if) => return Ok(Stmt::If(cond, if_block, Some(Box::new(else_if)))),
            Err(CompileError::NotFound) => {},
            Err(e) => return Err(e),
        }
        let ghost st4 = state_of(self.lexer);
        assert(p_if(src, st4) == Err::<(StmtV, PState), ErrV>(ErrV::NotFound));
        let at = self.lexer.peek().start;
        match handle_not_found(self.block(), CompileError::ExpectedBlock(at)) {
            Ok(else_block) => {
                let ghost eb = stmts_v(else_block@);
                let ghost st5 = state_of(self.lexer);
                assert(expect_block(p_block(src, st4), ErrV::ExpectedBlock(st4.cur.start)) == Ok::<
                    (Seq<StmtV>, PState),
                    ErrV,
                >((eb, st5)));
                let alt = Stmt::Block(else_block);
                assert(stmt_v(alt) == StmtV::Block(eb));
                let r = Stmt::If(cond, if_block, Some(Box::new(alt)));
                assert(stmt_v(r) == StmtV::If(c, b, Some(Box::new(StmtV::Block(eb)))));
                Ok(r)
            },
            Err(e) => Err(e),
        }
    }

    /// block := '{' statement* '}', one statement per line.
    fn block(&mut self) -> (r: Result<Vec<Stmt>, CompileError>)
        requires
            ready(old(self).lexer),
        ensures
            ready(final(self).lexer),
            final(self).lexer.source() == old(self).lexer.source(),
            lm(final(self).lexer) <= lm(old(self).lexer),
            r is Ok ==> lm(final(self).lexer) < lm(old(self).lexer),
            r matches Err(CompileError::NotFound) ==> final(self).lexer == old(self).lexer,
            match p_block(old(self).lexer.source(), state_of(old(self).lexer)) {
                Ok((b, st)) => r matches Ok(x) && stmts_v(x@) == b && state_of(final(self).lexer)
                    == st,
                Err(e) => r matches Err(x) && err_v(x) == e,
            },
            final(self).program == old(self).program,
        decreases lm(old(self).lexer), 1int,
    {
        let ghost src = self.lexer.source();
        let ghost st0 = state_of(self.lexer);
        match self.lexer.peek().tokentype {
            TokenType::SCurly => {},
            _ => return Err(CompileError::NotFound),
        }
        match self.next() {
            Err(e) => return Err(e),
            Ok(()) => {},
        }
        let mut stmts: Vec<Stmt> = Vec::new();
        loop
            invariant_except_break
                p_block(src, st0) == p_items(src, state_of(self.lexer), stmts_v(stmts@)),
            invariant
                ready(self.lexer),
                self.lexer.source() == src,
                src == old(self).lexer.source(),
                st0 == state_of(old(self).lexer),
                lm(self.lexer) < lm(old(self).lexer),
                self.program == old(self).program,
            ensures
                ready(self.lexer),
                self.lexer.source() == src,
                lm(self.lexer) < lm(old(self).lexer),
                p_block(src, st0) == p_close(src, state_of(self.lexer), stmts_v(stmts@)),
                self.program == old(self).program,
            decreases lm(self.lexer),
        {
            let ghost sti = state_of(self.lexer);
            let ghost li = self.lexer;
            loop
                invariant
                    ready(self.lexer),
                    self.lexer.source() == src,
                    lm(self.lexer) <= lm(li),
                    lm(li) < lm(old(self).lexer),
                    sti == state_of(li),
                    src == old(self).lexer.source(),
                    st0 == state_of(old(self).lexer),
                    p_block(src, st0) == p_items(src, sti, stmts_v(stmts@)),
                    p_newlines(src, sti) == p_newlines(src, state_of(self.lexer)),
                    self.program == old(self).program,
                ensures
                    ready(self.lexer),
                    self.lexer.source() == src,
                    lm(self.lexer) <= lm(li),
                    p_newlines(src, sti) == Ok::<PState, ErrV>(state_of(self.lexer)),
                    self.program == old(self).program,
                decreases lm(self.lexer),
            {
                if !self.at_newline() {
                    break ;
                }
                match self.next() {
                    Err(e) => return Err(e),
                    Ok(()) => {},
                }
            }
            match self.stmt() {
                Ok(s) => {
                    proof { lemma_list_v_push(stmts@, s); }
                    stmts.push(s);
                },
                Err(CompileError::NotFound) => break ,
                Err(e) => return Err(e),
            }
            if !self.at_newline() {
                break ;
            }
            match self.next() {
                Err(e) => return Err(e),
                Ok(()) => {},
            }
        }
        let close = self.lexer.peek();
        match close.tokentype {
            TokenType::ECurly => {},
            _ => return Err(CompileError::ExpectedECurly(close.start)),
        }
        match self.next() {
            Err(e) => return Err(e),
            Ok(()) => {},
        }
        Ok(stmts)
    }

    /// exitStmt := 'exit' expr
    fn exit(&mut self) -> (r: Result<Stmt, CompileError>)
        requires
            ready(old(self).lexer),
        ensures
            ready(final(self).lexer),
            final(self).lexer.source() == old(self).lexer.source(),
            lm(final(self).lexer) <= lm(old(self).lexer),
            r is Ok ==> lm(final(self).lexer) < lm(old(self).lexer),
            r matches Err(CompileError::NotFound) ==> final(self).lexer == old(self).lexer,
            match p_exit(old(self).lexer.source(), state_of(old(self).lexer)) {
                Ok((t, st)) => r matches Ok(x) && stmt_v(x) == t && state_of(final(self).lexer)
                    == st,
                Err(e) => r matches Err(x) && err_v(x) == e,
            },
            final(self).program == old(self).program,
    {
        let token = self.lexer.peek();
        match token.tokentype {
            TokenType::Exit => {},
            _ => return Err(CompileError::NotFound),
        }
        match self.next() {
            Err(e) => return Err(e),
            Ok(()) => {},
        }
        match handle_not_found(self.rexp(), CompileError::ExpectedExpression(token.end)) {
            Err(e) => Err(e),
            Ok(e) => Ok(Stmt::Exit(e)),
        }
    }

    /// assignOrExprStmt := expr ('=' expr)?, where the target must be a bare name.
    fn assign_stmt_or_rexp(&mut self) -> (r: Result<Stmt, CompileError>)
        requires
            ready(old(self).lexer),
        ensures
            ready(final(self).lexer),
            final(self).lexer.source() == old(self).lexer.source(),
            lm(final(self).lexer) <= lm(old(self).lexer),
            r is Ok ==> lm(final(self).lexer) < lm(old(self).lexer),
            !(r matches Err(CompileError::NotFound)),
            match p_assign(old(self).lexer.source(), state_of(old(self).lexer)) {
                Ok((t, st)) => r matches Ok(x) && stmt_v(x) == t && state_of(final(self).lexer)
                    == st,
                Err(e) => r matches Err(x) && err_v(x) == e,
            },
            final(self).program == old(self).program,
    {
        let at = self.lexer.peek().start;
        let exp = match handle_not_found(self.rexp(), CompileError::ExpectedExpression(at)) {
            Err(e) => return Err(e),
            Ok(e) => e,
        };
        let assign = self.lexer.peek();
        match assign.tokentype {
            TokenType::Assign => {},
            _ => return Ok(Stmt::RExp(exp)),
        }
        match self.next() {
            Err(e) => return Err(e),
            Ok(()) => {},
        }
        let ghost target = exp;
        let lexp = match exp {
            RExp::Term(Term::LExp(lexp)) => lexp,
            other => {
                assert(!(rexp_v(other) matches RExpV::Term(TermV::Name(_)))) by {
                    match other {
                        RExp::Term(t) => {
                            assert(!(t is LExp));
                            assert(rexp_v(other) == RExpV::Term(term_v(t)));
                        },
                        _ => {},
                    }
                }
                return Err(CompileError::RExpOnLHS(other));
            },
        };
        assert(target == RExp::Term(Term::LExp(lexp)));
        assert(term_v(Term::LExp(lexp)) == TermV::Name(lexp->Ident_0.lexeme@));
        assert(rexp_v(target) == RExpV::Term(TermV::Name(lexp->Ident_0.lexeme@)));
        match handle_not_found(self.rexp(), CompileError::ExpectedExpression(assign.end)) {
            Err(e) => Err(e),
            Ok(rhs) => Ok(Stmt::Assign(lexp, rhs)),
        }
    }

    /// declOrInit := 'let' IDENT ('=' expr)?
    fn decl_or_init(&mut self) -> (r: Result<Stmt, CompileError>)
        requires
            ready(old(self).lexer),
        ensures
            ready(final(self).lexer),
            final(self).lexer.source() == old(self).lexer.source(),
            lm(final(self).lexer) <= lm(old(self).lexer),
            r is Ok ==> lm(final(self).lexer) < lm(old(self).lexer),
            r matches Err(CompileError::NotFound) ==> final(self).lexer == old(self).lexer,
            match p_decl(old(self).lexer.source(), state_of(old(self).lexer)) {
                Ok((t, st)) => r matches Ok(x) && stmt_v(x) == t && state_of(final(self).lexer)
                    == st,
                Err(e) => r matches Err(x) && err_v(x) == e,
            },
            final(self).program == old(self).program,
    {
        match self.lexer.peek().tokentype {
            TokenType::Let => {},
            _ => return Err(CompileError::NotFound),
        }
        match self.next() {
            Err(e) => return Err(e),
            Ok(()) => {},
        }
        let token = self.lexer.peek();
        let ident = match token.tokentype {
            TokenType::Ident(lexeme) => Identifier {
                file: token.file,
                start: token.start,
                end: token.end,
                lexeme,
            },
            _ => return Err(CompileError::ExpectedIdent(token.start)),
        };
        match self.next() {
            Err(e) => return Err(e),
            Ok(()) => {},
        }
        match self.lexer.peek().tokentype {
            TokenType::Assign => {},
            _ => return Ok(Stmt::Declare(ident)),
        }
        match self.next() {
            Err(e) => return Err(e),
            Ok(()) => {},
        }
        let at = self.lexer.peek().start;
        match handle_not_found(self.rexp(), CompileError::ExpectedExpression(at)) {
            Err(e) => Err(e),
            Ok(e) => Ok(Stmt::Initialize(ident, e)),
        }
    }

    /// Parses the whole source, statement by statement, appending each to
    /// the program: program := (newline | statement)* EOF. A statement ends
    /// at a newline or at the end of the file; a token that starts no
    /// statement is unexpected. The outcome is the grammar's, exactly.
    pub fn parse_program(&mut self) -> (r: Result<(), CompileError>)
        requires
            old(self).wf(),
        ensures
            final(self).wf(),
            !(r matches Err(CompileError::NotFound)),
            old(self).statements().is_prefix_of(final(self).statements()),
            match p_program(
                old(self).lexer_state().source(),
                state_of(old(self).lexer_state()),
                stmts_v(old(self).statements()),
            ) {
                Ok(ss) => r is Ok && stmts_v(final(self).statements()) == ss,
                Err(e) => r matches Err(x) && err_v(x) == e,
            },
    {
        let ghost src = self.lexer.source();
        let ghost st0 = state_of(self.lexer);
        loop
            invariant
                ready(self.lexer),
                self.lexer.source() == src,
                src == old(self).lexer.source(),
                st0 == state_of(old(self).lexer),
                old(self).statements().is_prefix_of(self.statements()),
                p_program(src, st0, stmts_v(old(self).statements())) == p_program(
                    src,
                    state_of(self.lexer),
                    stmts_v(self.statements()),
                ),
            decreases lm(self.lexer),
        {
            match self.skip_newlines() {
                Err(e) => return Err(e),
                Ok(_) => {},
            }
            match self.stmt() {
                Ok(s) => {
                    proof { lemma_list_v_push(self.program.stmts@, s); }
                    self.program.stmts.push(s);
                },
                Err(CompileError::NotFound) => {
                    let token = self.lexer.peek();
                    match token.tokentype {
                        TokenType::EndOfFile => return Ok(()),
                        _ => return Err(CompileError::UnexpectedToken(token)),
                    }
                },
                Err(e) => return Err(e),
            }
            let token = self.lexer.peek();
            match token.tokentype {
                TokenType::NewLine => {
                    match self.next() {
                        Err(e) => return Err(e),
                        Ok(()) => {},
                    }
                },
                TokenType::EndOfFile => return Ok(()),
                _ => return Err(CompileError::ExpectedNewline(token.start)),
            }
        }
    }
}

/// The lexing step a lexer takes next.
pub open spec fn lex_step_of(l: Lexer) -> crate::lexer::LexStep {
    crate::lexer::lex_step(l.source(), l.ch_cursor(), l.newline_mode())
}

} // verus!
