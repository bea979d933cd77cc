use vstd::prelude::*;
use crate::ast::{op_prec, BinOp, LExp, RExp, Stmt, Term};
use crate::error::CompileError;
use crate::lexer::{
    advance, is_alpha, is_digit, lex_step, token_is, Lexer, Location, Token, TokenType,
};

verus! {

/// The kinds of tokens, without what they carry.
pub enum Kind {
    StartOfFile,
    EndOfFile,
    Ident,
    IntLiteral,
    Illegal,
    Let,
    Exit,
    If,
    Else,
    NewLine,
    Assign,
    Plus,
    Minus,
    Asterisk,
    ForwardSlash,
    Equal,
    NotEqual,
    Less,
    LessEqual,
    Greater,
    GreaterEqual,
    SCurly,
    ECurly,
    SBrace,
    EBrace,
}

/// The kind of the token spelled `text` (illegal if `illegal`).
pub open spec fn kind_of(text: Seq<char>, illegal: bool) -> Kind {
    if illegal {
        Kind::Illegal
    } else if text.len() == 0 {
        Kind::EndOfFile
    } else if is_alpha(text[0]) || text[0] == '_' {
        if text == "let"@ {
            Kind::Let
        } else if text == "exit"@ {
            Kind::Exit
        } else if text == "if"@ {
            Kind::If
        } else if text == "else"@ {
            Kind::Else
        } else {
            Kind::Ident
        }
    } else if is_digit(text[0]) {
        Kind::IntLiteral
    } else if text.len() == 2 {
        match text[0] {
            '=' => Kind::Equal,
            '!' => Kind::NotEqual,
            '<' => Kind::LessEqual,
            _ => Kind::GreaterEqual,
        }
    } else {
        match text[0] {
            '+' => Kind::Plus,
            '-' => Kind::Minus,
            '*' => Kind::Asterisk,
            '/' => Kind::ForwardSlash,
            '=' => Kind::Assign,
            '<' => Kind::Less,
            '>' => Kind::Greater,
            '{' => Kind::SCurly,
            '}' => Kind::ECurly,
            '(' => Kind::SBrace,
            ')' => Kind::EBrace,
            _ => Kind::NewLine,
        }
    }
}

/// The kind of a token.
pub open spec fn kind_tt(tt: TokenType) -> Kind {
    match tt {
        TokenType::StartOfFile => Kind::StartOfFile,
        TokenType::EndOfFile => Kind::EndOfFile,
        TokenType::Ident(_) => Kind::Ident,
        TokenType::IntLiteral(_) => Kind::IntLiteral,
        TokenType::Illegal(_) => Kind::Illegal,
        TokenType::Let => Kind::Let,
        TokenType::Exit => Kind::Exit,
        TokenType::If => Kind::If,
        TokenType::Else => Kind::Else,
        TokenType::NewLine => Kind::NewLine,
        TokenType::Assign => Kind::Assign,
        TokenType::Plus => Kind::Plus,
        TokenType::Minus => Kind::Minus,
        TokenType::Asterisk => Kind::Asterisk,
        TokenType::ForwardSlash => Kind::ForwardSlash,
        TokenType::Equal => Kind::Equal,
        TokenType::NotEqual => Kind::NotEqual,
        TokenType::Less => Kind::Less,
        TokenType::LessEqual => Kind::LessEqual,
        TokenType::Greater => Kind::Greater,
        TokenType::GreaterEqual => Kind::GreaterEqual,
        TokenType::SCurly => Kind::SCurly,
        TokenType::ECurly => Kind::ECurly,
        TokenType::SBrace => Kind::SBrace,
        TokenType::EBrace => Kind::EBrace,
    }
}

/// Whether tokens of kind `k` carry their text.
pub open spec fn has_text(k: Kind) -> bool {
    k is Ident || k is IntLiteral || k is Illegal
}

/// The text that a token carries, empty for the others.
pub open spec fn carried(tt: TokenType) -> Seq<char> {
    match tt {
        TokenType::Ident(s) | TokenType::IntLiteral(s) | TokenType::Illegal(s) => s@,
        _ => Seq::empty(),
    }
}

/// The binary operator of a token kind, if any.
pub open spec fn kind_op(k: Kind) -> Option<BinOp> {
    match k {
        Kind::Plus => Some(BinOp::Add),
        Kind::Minus => Some(BinOp::Sub),
        Kind::Asterisk => Some(BinOp::Mul),
        Kind::ForwardSlash => Some(BinOp::Div),
        Kind::Equal => Some(BinOp::Equal),
        Kind::NotEqual => Some(BinOp::NotEqual),
        Kind::Less => Some(BinOp::Less),
        Kind::LessEqual => Some(BinOp::LessEqual),
        Kind::Greater => Some(BinOp::Greater),
        Kind::GreaterEqual => Some(BinOp::GreaterEqual),
        _ => None,
    }
}

/// A token as the grammar sees it: its kind, the text it carries, and where it lies.
pub struct Tok {
    pub kind: Kind,
    pub text: Seq<char>,
    pub start: Location,
    pub end: Location,
}

pub open spec fn tok_view(t: Token) -> Tok {
    Tok { kind: kind_tt(t.tokentype), text: carried(t.tokentype), start: t.start, end: t.end }
}

/// The parser's position: the current token, how far the source has been
/// read, whether newlines are tokens, and the place reached.
pub struct PState {
    pub cur: Tok,
    pub pos: nat,
    pub enl: bool,
    pub loc: Location,
}

/// The position of a lexer whose current token is its latest.
pub open spec fn state_of(l: Lexer) -> PState {
    PState {
        cur: tok_view(l.current()),
        pos: l.ch_cursor(),
        enl: l.newline_mode(),
        loc: l.location(),
    }
}

/// The position at the start of a source: on the start-of-file marker, newlines on.
pub open spec fn initial_state() -> PState {
    PState {
        cur: Tok {
            kind: Kind::StartOfFile,
            text: Seq::empty(),
            start: Location { row: 1, col: 1 },
            end: Location { row: 1, col: 1 },
        },
        pos: 0,
        enl: true,
        loc: Location { row: 1, col: 1 },
    }
}

/// What is left to read from `st`: twice the characters unread, and one more
/// while the current token is not the end of file.
pub open spec fn measure(src: Seq<char>, st: PState) -> int {
    2 * (src.len() - st.pos) + if st.cur.kind is EndOfFile {
        0int
    } else {
        1int
    }
}

/// Syntax trees without locations.
pub enum TermV {
    Name(Seq<char>),
    Int(Seq<char>),
    Neg(Box<TermV>),
    Paren(Box<RExpV>),
}

pub enum RExpV {
    Term(TermV),
    Bin(BinOp, Box<RExpV>, Box<RExpV>),
}

pub enum StmtV {
    Declare(Seq<char>),
    Initialize(Seq<char>, RExpV),
    Assign(Seq<char>, RExpV),
    Expr(RExpV),
    Block(Seq<StmtV>),
    If(RExpV, Seq<StmtV>, Option<Box<StmtV>>),
    Exit(RExpV),
}

/// Errors without the file names their tokens carry.
pub enum ErrV {
    Illegal(Tok),
    Unexpected(Tok),
    RExpOnLHS(RExpV),
    ExpectedExpression(Location),
    ExpectedIdent(Location),
    ExpectedEBrace(Location),
    ExpectedECurly(Location),
    ExpectedBlock(Location),
    ExpectedNewline(Location),
    NotFound,
    UndeclaredIdent(Seq<char>),
    UninitializedIdent(Seq<char>),
    LimitExceeded,
}

pub open spec fn term_v(t: Term) -> TermV
    decreases t,
{
    match t {
        Term::LExp(LExp::Ident(id)) => TermV::Name(id.lexeme@),
        Term::IntLit(lit) => TermV::Int(lit.lexeme@),
        Term::Neg(inner) => TermV::Neg(Box::new(term_v(*inner))),
        Term::Bracketed(e) => TermV::Paren(Box::new(rexp_v(*e))),
    }
}

pub open spec fn rexp_v(e: RExp) -> RExpV
    decreases e,
{
    match e {
        RExp::Term(t) => RExpV::Term(term_v(t)),
        RExp::Add(l, r) => RExpV::Bin(BinOp::Add, Box::new(rexp_v(*l)), Box::new(rexp_v(*r))),
        RExp::Sub(l, r) => RExpV::Bin(BinOp::Sub, Box::new(rexp_v(*l)), Box::new(rexp_v(*r))),
        RExp::Mul(l, r) => RExpV::Bin(BinOp::Mul, Box::new(rexp_v(*l)), Box::new(rexp_v(*r))),
        RExp::Div(l, r) => RExpV::Bin(BinOp::Div, Box::new(rexp_v(*l)), Box::new(rexp_v(*r))),
        RExp::Equal(l, r) => RExpV::Bin(BinOp::Equal, Box::new(rexp_v(*l)), Box::new(rexp_v(*r))),
        RExp::NotEqual(l, r) => RExpV::Bin(
            BinOp::NotEqual,
            Box::new(rexp_v(*l)),
            Box::new(rexp_v(*r)),
        ),
        RExp::Less(l, r) => RExpV::Bin(BinOp::Less, Box::new(rexp_v(*l)), Box::new(rexp_v(*r))),
        RExp::LessEqual(l, r) => RExpV::Bin(
            BinOp::LessEqual,
            Box::new(rexp_v(*l)),
            Box::new(rexp_v(*r)),
        ),
        RExp::Greater(l, r) => RExpV::Bin(
            BinOp::Greater,
            Box::new(rexp_v(*l)),
            Box::new(rexp_v(*r)),
        ),
        RExp::GreaterEqual(l, r) => RExpV::Bin(
            BinOp::GreaterEqual,
            Box::new(rexp_v(*l)),
            Box::new(rexp_v(*r)),
        ),
    }
}

pub open spec fn stmt_v(s: Stmt) -> StmtV
    decreases s, 0nat,
{
    match s {
        Stmt::Declare(id) => StmtV::Declare(id.lexeme@),
        Stmt::Initialize(id, e) => StmtV::Initialize(id.lexeme@, rexp_v(e)),
        Stmt::Assign(LExp::Ident(id), e) => StmtV::Assign(id.lexeme@, rexp_v(e)),
        Stmt::RExp(e) => StmtV::Expr(rexp_v(e)),
        Stmt::Block(b) => StmtV::Block(list_v(b@, b@.len() as nat)),
        Stmt::If(c, b, None) => StmtV::If(rexp_v(c), list_v(b@, b@.len() as nat), None),
        Stmt::If(c, b, Some(a)) => StmtV::If(
            rexp_v(c),
            list_v(b@, b@.len() as nat),
            Some(Box::new(stmt_v(*a))),
        ),
        Stmt::Exit(e) => StmtV::Exit(rexp_v(e)),
    }
}

/// The first `n` statements of `ss`, without locations.
pub open spec fn list_v(ss: Seq<Stmt>, n: nat) -> Seq<StmtV>
    decreases ss, n,
{
    if n == 0 || n > ss.len() {
        Seq::empty()
    } else {
        list_v(ss, (n - 1) as nat).push(stmt_v(ss[n - 1]))
    }
}

pub open spec fn stmts_v(ss: Seq<Stmt>) -> Seq<StmtV> {
    list_v(ss, ss.len() as nat)
}

pub open spec fn err_v(e: CompileError) -> ErrV {
    match e {
        CompileError::IllegalToken(t) => ErrV::Illegal(tok_view(t)),
        CompileError::UnexpectedToken(t) => ErrV::Unexpected(tok_view(t)),
        CompileError::RExpOnLHS(x) => ErrV::RExpOnLHS(rexp_v(x)),
        CompileError::ExpectedExpression(l) => ErrV::ExpectedExpression(l),
        CompileError::ExpectedIdent(l) => ErrV::ExpectedIdent(l),
        CompileError::ExpectedEBrace(l) => ErrV::ExpectedEBrace(l),
        CompileError::ExpectedECurly(l) => ErrV::ExpectedECurly(l),
        CompileError::ExpectedBlock(l) => ErrV::ExpectedBlock(l),
        CompileError::ExpectedNewline(l) => ErrV::ExpectedNewline(l),
        CompileError::NotFound => ErrV::NotFound,
        CompileError::UndeclaredIdent(id) => ErrV::UndeclaredIdent(id.lexeme@),
        CompileError::UninitializedIdent(id) => ErrV::UninitializedIdent(id.lexeme@),
        CompileError::LimitExceeded => ErrV::LimitExceeded,
    }
}

/// The position after the next token, the one `lex_step` finds, placed
/// where it lies; and whether that token is illegal.
#[verifier::opaque]
pub open spec fn next_state(src: Seq<char>, st: PState) -> (PState, bool) {
    let ls = lex_step(src, st.pos, st.enl);
    let text = src.subrange(ls.start as int, ls.end as int);
    let k = kind_of(text, ls.illegal);
    let tok = Tok {
        kind: k,
        text: if has_text(k) {
            text
        } else {
            Seq::empty()
        },
        start: advance(st.loc, src, st.pos, ls.start),
        end: advance(st.loc, src, st.pos, ls.end),
    };
    (PState { cur: tok, pos: ls.end, enl: st.enl, loc: tok.end }, ls.illegal)
}

/// Moving to the next token; an illegal one is an error.
pub open spec fn step(src: Seq<char>, st: PState) -> Result<PState, ErrV> {
    let (next, illegal) = next_state(src, st);
    if illegal {
        Err(ErrV::Illegal(next.cur))
    } else if 0 <= measure(src, next) < measure(src, st) {
        Ok(next)
    } else {
        Err(ErrV::NotFound)
    }
}

/// `r`, with "not found" replaced by `err`.
pub open spec fn expect_rexp(r: Result<(RExpV, PState), ErrV>, err: ErrV) -> Result<
    (RExpV, PState),
    ErrV,
> {
    match r {
        Err(ErrV::NotFound) => Err(err),
        _ => r,
    }
}

pub open spec fn expect_block(r: Result<(Seq<StmtV>, PState), ErrV>, err: ErrV) -> Result<
    (Seq<StmtV>, PState),
    ErrV,
> {
    match r {
        Err(ErrV::NotFound) => Err(err),
        _ => r,
    }
}

/// term := IDENT | INT | '-' term | '(' expr ')', where newlines are no tokens
/// inside the parentheses and the mode before them is back after them.
pub open spec fn p_term(src: Seq<char>, st: PState) -> Result<(TermV, PState), ErrV>
    decreases measure(src, st), 0int,
{
    match st.cur.kind {
        Kind::Ident => match step(src, st) {
            Err(e) => Err(e),
            Ok(st1) => Ok((TermV::Name(st.cur.text), st1)),
        },
        Kind::IntLiteral => match step(src, st) {
            Err(e) => Err(e),
            Ok(st1) => Ok((TermV::Int(st.cur.text), st1)),
        },
        Kind::Minus => match step(src, st) {
            Err(e) => Err(e),
            Ok(st1) => match p_term(src, st1) {
                Err(e) => Err(e),
                Ok((t, st2)) => Ok((TermV::Neg(Box::new(t)), st2)),
            },
        },
        Kind::SBrace => match step(src, PState { enl: false, ..st }) {
            Err(e) => Err(e),
            Ok(st1) => match expect_rexp(
                p_rexp(src, st1, 0),
                ErrV::ExpectedExpression(st1.cur.start),
            ) {
                Err(e) => Err(e),
                Ok((e, st2)) => if !(st2.cur.kind is EBrace) {
                    Err(ErrV::Unexpected(st2.cur))
                } else if measure(src, st2) < measure(src, st) {
                    match step(src, PState { enl: st.enl, ..st2 }) {
                        Err(e) => Err(e),
                        Ok(st3) => Ok((TermV::Paren(Box::new(e)), st3)),
                    }
                } else {
                    Err(ErrV::NotFound)
                },
            },
        },
        _ => Err(ErrV::NotFound),
    }
}

/// expr, with operators binding at least as tightly as `min`: a term, then
/// operators by precedence climbing.
pub open spec fn p_rexp(src: Seq<char>, st: PState, min: nat) -> Result<(RExpV, PState), ErrV>
    decreases measure(src, st), 1int,
{
    match p_term(src, st) {
        Err(e) => Err(e),
        Ok((t, st1)) => if 0 <= measure(src, st1) < measure(src, st) {
            p_climb(src, st1, RExpV::Term(t), min)
        } else {
            Err(ErrV::NotFound)
        },
    }
}

/// Extends `lhs` while the current token is an operator binding at least as
/// tightly as `min`; `+ - * /` group to the left, comparisons to the right.
pub open spec fn p_climb(src: Seq<char>, st: PState, lhs: RExpV, min: nat) -> Result<
    (RExpV, PState),
    ErrV,
>
    decreases measure(src, st), 2int,
{
    match kind_op(st.cur.kind) {
        None => Ok((lhs, st)),
        Some(op) => if op_prec(op) < min {
            Ok((lhs, st))
        } else {
            match step(src, st) {
                Err(e) => Err(e),
                Ok(st1) => {
                    let next_min = if op_prec(op) >= 2 {
                        op_prec(op) + 1
                    } else {
                        op_prec(op)
                    };
                    match expect_rexp(
                        p_rexp(src, st1, next_min),
                        ErrV::ExpectedExpression(st.cur.end),
                    ) {
                        Err(e) => Err(e),
                        Ok((rhs, st2)) => if 0 <= measure(src, st2) < measure(src, st) {
                            p_climb(src, st2, RExpV::Bin(op, Box::new(lhs), Box::new(rhs)), min)
                        } else {
                            Err(ErrV::NotFound)
                        },
                    }
                },
            }
        },
    }
}

/// Passes over newlines and the start-of-file marker.
pub open spec fn p_skip(src: Seq<char>, st: PState) -> Result<PState, ErrV>
    decreases measure(src, st),
{
    if st.cur.kind is NewLine || st.cur.kind is StartOfFile {
        match step(src, st) {
            Err(e) => Err(e),
            Ok(st1) => p_skip(src, st1),
        }
    } else {
        Ok(st)
    }
}

/// Passes over newlines.
pub open spec fn p_newlines(src: Seq<char>, st: PState) -> Result<PState, ErrV>
    decreases measure(src, st),
{
    if st.cur.kind is NewLine {
        match step(src, st) {
            Err(e) => Err(e),
            Ok(st1) => p_newlines(src, st1),
        }
    } else {
        Ok(st)
    }
}

/// declOrInit := 'let' IDENT ('=' expr)?
pub open spec fn p_decl(src: Seq<char>, st: PState) -> Result<(StmtV, PState), ErrV> {
    if !(st.cur.kind is Let) {
        Err(ErrV::NotFound)
    } else {
        match step(src, st) {
            Err(e) => Err(e),
            Ok(st1) => if !(st1.cur.kind is Ident) {
                Err(ErrV::ExpectedIdent(st1.cur.start))
            } else {
                match step(src, st1) {
                    Err(e) => Err(e),
                    Ok(st2) => if !(st2.cur.kind is Assign) {
                        Ok((StmtV::Declare(st1.cur.text), st2))
                    } else {
                        match step(src, st2) {
                            Err(e) => Err(e),
                            Ok(st3) => match expect_rexp(
                                p_rexp(src, st3, 0),
                                ErrV::ExpectedExpression(st3.cur.start),
                            ) {
                                Err(e) => Err(e),
                                Ok((x, st4)) => Ok((StmtV::Initialize(st1.cur.text, x), st4)),
                            },
                        }
                    },
                }
            },
        }
    }
}

/// exitStmt := 'exit' expr
pub open spec fn p_exit(src: Seq<char>, st: PState) -> Result<(StmtV, PState), ErrV> {
    if !(st.cur.kind is Exit) {
        Err(ErrV::NotFound)
    } else {
        match step(src, st) {
            Err(e) => Err(e),
            Ok(st1) => match expect_rexp(p_rexp(src, st1, 0), ErrV::ExpectedExpression(st.cur.end)) {
                Err(e) => Err(e),
                Ok((x, st2)) => Ok((StmtV::Exit(x), st2)),
            },
        }
    }
}

/// assignOrExprStmt := expr ('=' expr)?, where the target must be a bare name.
pub open spec fn p_assign(src: Seq<char>, st: PState) -> Result<(StmtV, PState), ErrV> {
    match expect_rexp(p_rexp(src, st, 0), ErrV::ExpectedExpression(st.cur.start)) {
        Err(e) => Err(e),
        Ok((x, st1)) => if !(st1.cur.kind is Assign) {
            Ok((StmtV::Expr(x), st1))
        } else {
            match step(src, st1) {
                Err(e) => Err(e),
                Ok(st2) => match x {
                    RExpV::Term(TermV::Name(n)) => match expect_rexp(
                        p_rexp(src, st2, 0),
                        ErrV::ExpectedExpression(st1.cur.end),
                    ) {
                        Err(e) => Err(e),
                        Ok((y, st3)) => Ok((StmtV::Assign(n, y), st3)),
                    },
                    _ => Err(ErrV::RExpOnLHS(x)),
                },
            }
        },
    }
}

/// statement := declOrInit | block | ifStmt | exitStmt | assignOrExprStmt
pub open spec fn p_stmt(src: Seq<char>, st: PState) -> Result<(StmtV, PState), ErrV>
    decreases measure(src, st), 2int,
{
    match st.cur.kind {
        Kind::Let => p_decl(src, st),
        Kind::Ident | Kind::IntLiteral | Kind::SBrace | Kind::Minus => p_assign(src, st),
        Kind::Exit => p_exit(src, st),
        Kind::SCurly => match p_block(src, st) {
            Err(e) => Err(e),
            Ok((b, st1)) => Ok((StmtV::Block(b), st1)),
        },
        Kind::If => p_if(src, st),
        _ => Err(ErrV::NotFound),
    }
}

/// block := '{' statement* '}', one statement per line.
pub open spec fn p_block(src: Seq<char>, st: PState) -> Result<(Seq<StmtV>, PState), ErrV>
    decreases measure(src, st), 1int,
{
    if !(st.cur.kind is SCurly) {
        Err(ErrV::NotFound)
    } else {
        match step(src, st) {
            Err(e) => Err(e),
            Ok(st1) => p_items(src, st1, Seq::empty()),
        }
    }
}

/// The statements of a block after `acc`, up to and including its `}`.
pub open spec fn p_items(src: Seq<char>, st: PState, acc: Seq<StmtV>) -> Result<
    (Seq<StmtV>, PState),
    ErrV,
>
    decreases measure(src, st), 3int,
{
    match p_newlines(src, st) {
        Err(e) => Err(e),
        Ok(st1) => if !(0 <= measure(src, st1) <= measure(src, st)) {
            Err(ErrV::NotFound)
        } else {
            match p_stmt(src, st1) {
                Ok((s, st2)) => if st2.cur.kind is NewLine {
                    match step(src, st2) {
                        Err(e) => Err(e),
                        Ok(st3) => if 0 <= measure(src, st3) < measure(src, st) {
                            p_items(src, st3, acc.push(s))
                        } else {
                            Err(ErrV::NotFound)
                        },
                    }
                } else {
                    p_close(src, st2, acc.push(s))
                },
                Err(ErrV::NotFound) => p_close(src, st1, acc),
                Err(e) => Err(e),
            }
        },
    }
}

/// The `}` that ends a block of `acc`.
pub open spec fn p_close(src: Seq<char>, st: PState, acc: Seq<StmtV>) -> Result<
    (Seq<StmtV>, PState),
    ErrV,
> {
    if st.cur.kind is ECurly {
        match step(src, st) {
            Err(e) => Err(e),
            Ok(st1) => Ok((acc, st1)),
        }
    } else {
        Err(ErrV::ExpectedECurly(st.cur.start))
    }
}

/// ifStmt := 'if' expr block ('else' (ifStmt | block))?
pub open spec fn p_if(src: Seq<char>, st: PState) -> Result<(StmtV, PState), ErrV>
    decreases measure(src, st), 1int,
{
    if !(st.cur.kind is If) {
        Err(ErrV::NotFound)
    } else {
        match step(src, st) {
            Err(e) => Err(e),
            Ok(st1) => match expect_rexp(p_rexp(src, st1, 0), ErrV::ExpectedExpression(st1.cur.start)) {
                Err(e) => Err(e),
                Ok((c, st2)) => if !(0 <= measure(src, st2) < measure(src, st)) {
                    Err(ErrV::NotFound)
                } else {
                    match expect_block(p_block(src, st2), ErrV::ExpectedBlock(st2.cur.start)) {
                        Err(e) => Err(e),
                        Ok((b, st3)) => if !(st3.cur.kind is Else) {
                            Ok((StmtV::If(c, b, None), st3))
                        } else if !(0 <= measure(src, st3) < measure(src, st)) {
                            Err(ErrV::NotFound)
                        } else {
                            match step(src, st3) {
                                Err(e) => Err(e),
                                Ok(st4) => match p_if(src, st4) {
                                    Ok((s, st5)) => Ok((StmtV::If(c, b, Some(Box::new(s))), st5)),
                                    Err(ErrV::NotFound) => match expect_block(
                                        p_block(src, st4),
                                        ErrV::ExpectedBlock(st4.cur.start),
                                    ) {
                                        Err(e) => Err(e),
                                        Ok((eb, st5)) => Ok(
                                            (
                                                StmtV::If(c, b, Some(Box::new(StmtV::Block(eb)))),
                                                st5,
                                            ),
                                        ),
                                    },
                                    Err(e) => Err(e),
                                },
                            }
                        },
                    }
                },
            },
        }
    }
}

/// program := (newline | statement)* EOF, statements after `acc`; a token
/// that starts no statement is unexpected.
pub open spec fn p_program(src: Seq<char>, st: PState, acc: Seq<StmtV>) -> Result<
    Seq<StmtV>,
    ErrV,
>
    decreases measure(src, st),
{
    match p_skip(src, st) {
        Err(e) => Err(e),
        Ok(st1) => if !(0 <= measure(src, st1) <= measure(src, st)) {
            Err(ErrV::NotFound)
        } else {
            match p_stmt(src, st1) {
                Ok((s, st2)) => match st2.cur.kind {
                    Kind::NewLine => match step(src, st2) {
                        Err(e) => Err(e),
                        Ok(st3) => if 0 <= measure(src, st3) < measure(src, st) {
                            p_program(src, st3, acc.push(s))
                        } else {
                            Err(ErrV::NotFound)
                        },
                    },
                    Kind::EndOfFile => Ok(acc.push(s)),
                    _ => Err(ErrV::ExpectedNewline(st2.cur.start)),
                },
                Err(ErrV::NotFound) => if st1.cur.kind is EndOfFile {
                    Ok(acc)
                } else {
                    Err(ErrV::Unexpected(st1.cur))
                },
                Err(e) => Err(e),
            }
        },
    }
}

/// The statements of a whole source, or the first error met.
pub open spec fn program_parse(src: Seq<char>) -> Result<Seq<StmtV>, ErrV> {
    p_program(src, initial_state(), Seq::empty())
}

} // verus!
