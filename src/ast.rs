use vstd::prelude::*;
use vstd::string::*;
use crate::lexer::Location;

verus! {

/// An integer literal as it stands in the source.
#[derive(Debug)]
pub struct IntLiteral {
    pub file: Option<String>,
    pub start: Location,
    pub end: Location,
    pub lexeme: String,
}

/// A name as it stands in the source.
#[derive(Debug)]
pub struct Identifier {
    pub file: Option<String>,
    pub start: Location,
    pub end: Location,
    pub lexeme: String,
}

impl Clone for Identifier {
    fn clone(&self) -> (r: Self)
        ensures
            r == *self,
    {
        let file = match &self.file {
            Some(f) => Some(f.clone()),
            None => None,
        };
        Identifier { file, start: self.start, end: self.end, lexeme: self.lexeme.clone() }
    }
}

/// An expression that can be assigned to.
#[derive(Debug)]
pub enum LExp {
    Ident(Identifier),
}

/// An operand: a name, a literal, a negation or an expression in parentheses.
#[derive(Debug)]
pub enum Term {
    LExp(LExp),
    IntLit(IntLiteral),
    Neg(Box<Term>),
    Bracketed(Box<RExp>),
}

/// An expression that yields a value.
#[derive(Debug)]
pub enum RExp {
    Term(Term),
    Add(Box<RExp>, Box<RExp>),
    Sub(Box<RExp>, Box<RExp>),
    Mul(Box<RExp>, Box<RExp>),
    Div(Box<RExp>, Box<RExp>),
    Equal(Box<RExp>, Box<RExp>),
    NotEqual(Box<RExp>, Box<RExp>),
    Less(Box<RExp>, Box<RExp>),
    LessEqual(Box<RExp>, Box<RExp>),
    Greater(Box<RExp>, Box<RExp>),
    GreaterEqual(Box<RExp>, Box<RExp>),
}

/// A statement.
#[derive(Debug)]
pub enum Stmt {
    Declare(Identifier),
    Initialize(Identifier, RExp),
    Assign(LExp, RExp),
    RExp(RExp),
    Block(Vec<Stmt>),
    If(RExp, Vec<Stmt>, Option<Box<Stmt>>),
    Exit(RExp),
}

/// A whole program: its top-level statements in order.
#[derive(Debug)]
pub struct Program {
    pub stmts: Vec<Stmt>,
}

/// The binary operators.
#[derive(Debug, Clone, Copy, PartialEq, Eq, Structural)]
pub enum BinOp {
    Add,
    Sub,
    Mul,
    Div,
    Equal,
    NotEqual,
    Less,
    LessEqual,
    Greater,
    GreaterEqual,
}

/// The operator of a binary expression, with its two operands.
pub open spec fn binary_parts(e: RExp) -> Option<(BinOp, RExp, RExp)> {
    match e {
        RExp::Term(_) => None,
        RExp::Add(l, r) => Some((BinOp::Add, *l, *r)),
        RExp::Sub(l, r) => Some((BinOp::Sub, *l, *r)),
        RExp::Mul(l, r) => Some((BinOp::Mul, *l, *r)),
        RExp::Div(l, r) => Some((BinOp::Div, *l, *r)),
        RExp::Equal(l, r) => Some((BinOp::Equal, *l, *r)),
        RExp::NotEqual(l, r) => Some((BinOp::NotEqual, *l, *r)),
        RExp::Less(l, r) => Some((BinOp::Less, *l, *r)),
        RExp::LessEqual(l, r) => Some((BinOp::LessEqual, *l, *r)),
        RExp::Greater(l, r) => Some((BinOp::Greater, *l, *r)),
        RExp::GreaterEqual(l, r) => Some((BinOp::GreaterEqual, *l, *r)),
    }
}

/// How tightly an operator binds: comparisons 1, `+ -` 2, `* /` 3.
pub open spec fn op_prec(op: BinOp) -> nat {
    match op {
        BinOp::Add | BinOp::Sub => 2,
        BinOp::Mul | BinOp::Div => 3,
        _ => 1,
    }
}

/// The source spelling of an operator.
pub open spec fn op_text(op: BinOp) -> Seq<char> {
    match op {
        BinOp::Add => seq!['+'],
        BinOp::Sub => seq!['-'],
        BinOp::Mul => seq!['*'],
        BinOp::Div => seq!['/'],
        BinOp::Equal => seq!['=', '='],
        BinOp::NotEqual => seq!['!', '='],
        BinOp::Less => seq!['<'],
        BinOp::LessEqual => seq!['<', '='],
        BinOp::Greater => seq!['>'],
        BinOp::GreaterEqual => seq!['>', '='],
    }
}

/// The source text of an operand.
pub open spec fn term_text(t: Term) -> Seq<char>
    decreases t,
{
    match t {
        Term::LExp(LExp::Ident(id)) => id.lexeme@,
        Term::IntLit(lit) => lit.lexeme@,
        Term::Neg(inner) => seq!['-'] + term_text(*inner),
        Term::Bracketed(e) => seq!['('] + rexp_text(*e) + seq![')'],
    }
}

/// The source text of an expression: operands and operators separated by
/// single spaces, with parentheses exactly where the tree has them.
pub open spec fn rexp_text(e: RExp) -> Seq<char>
    decreases e,
{
    match e {
        RExp::Term(t) => term_text(t),
        RExp::Add(l, r) => rexp_text(*l) + seq![' ', '+', ' '] + rexp_text(*r),
        RExp::Sub(l, r) => rexp_text(*l) + seq![' ', '-', ' '] + rexp_text(*r),
        RExp::Mul(l, r) => rexp_text(*l) + seq![' ', '*', ' '] + rexp_text(*r),
        RExp::Div(l, r) => rexp_text(*l) + seq![' ', '/', ' '] + rexp_text(*r),
        RExp::Equal(l, r) => rexp_text(*l) + seq![' ', '=', '=', ' '] + rexp_text(*r),
        RExp::NotEqual(l, r) => rexp_text(*l) + seq![' ', '!', '=', ' '] + rexp_text(*r),
        RExp::Less(l, r) => rexp_text(*l) + seq![' ', '<', ' '] + rexp_text(*r),
        RExp::LessEqual(l, r) => rexp_text(*l) + seq![' ', '<', '=', ' '] + rexp_text(*r),
        RExp::Greater(l, r) => rexp_text(*l) + seq![' ', '>', ' '] + rexp_text(*r),
        RExp::GreaterEqual(l, r) => rexp_text(*l) + seq![' ', '>', '=', ' '] + rexp_text(*r),
    }
}


/// The source text of a statement.
pub open spec fn stmt_text(s: Stmt) -> Seq<char>
    decreases s, 0nat,
{
    match s {
        Stmt::Declare(id) => seq!['l', 'e', 't', ' '] + id.lexeme@,
        Stmt::Initialize(id, e) => seq!['l', 'e', 't', ' '] + id.lexeme@ + seq![' ', '=', ' ']
            + rexp_text(e),
        Stmt::Assign(LExp::Ident(id), e) => id.lexeme@ + seq![' ', '=', ' '] + rexp_text(e),
        Stmt::RExp(e) => rexp_text(e),
        Stmt::Block(b) => seq!['{', '\n'] + lines_text(b@, b@.len() as nat) + seq!['}'],
        Stmt::If(c, b, None) => seq!['i', 'f', ' '] + rexp_text(c) + seq![' ', '{', '\n']
            + lines_text(b@, b@.len() as nat) + seq!['}'],
        Stmt::If(c, b, Some(alt)) => seq!['i', 'f', ' '] + rexp_text(c) + seq![' ', '{', '\n']
            + lines_text(b@, b@.len() as nat) + seq!['}', ' ', 'e', 'l', 's', 'e', ' ']
            + stmt_text(*alt),
        Stmt::Exit(e) => seq!['e', 'x', 'i', 't', ' '] + rexp_text(e),
    }
}

/// The source text of the first `n` statements of `ss`, each followed by a newline.
pub open spec fn lines_text(ss: Seq<Stmt>, n: nat) -> Seq<char>
    decreases ss, n,
{
    if n == 0 || n > ss.len() {
        Seq::empty()
    } else {
        lines_text(ss, (n - 1) as nat) + stmt_text(ss[n - 1]) + seq!['\n']
    }
}

/// The source text of a program: each statement on a line of its own.
pub open spec fn program_text(p: Program) -> Seq<char> {
    lines_text(p.stmts@, p.stmts@.len() as nat)
}

fn push_op(out: &mut String, text: &str)
    ensures
        final(out)@ == old(out)@ + seq![' '] + text@ + seq![' '],
{
    out.append(" ");
    out.append(text);
    out.append(" ");
    proof { reveal_strlit(" "); }
}

impl Term {
    /// Appends the source text of this operand to `out`.
    pub fn write_source(&self, out: &mut String)
        ensures
            final(out)@ == old(out)@ + term_text(*self),
        decreases self,
    {
        proof { reveal_strlit("-"); reveal_strlit("("); reveal_strlit(")"); }
        match self {
            Term::LExp(LExp::Ident(id)) => out.append(id.lexeme.as_str()),
            Term::IntLit(lit) => out.append(lit.lexeme.as_str()),
            Term::Neg(inner) => {
                out.append("-");
                inner.write_source(out);
            },
            Term::Bracketed(e) => {
                out.append("(");
                e.write_source(out);
                out.append(")");
            },
        }
    }
}

impl RExp {
    /// Appends the source text of this expression to `out`.
    pub fn write_source(&self, out: &mut String)
        ensures
            final(out)@ == old(out)@ + rexp_text(*self),
        decreases self,
    {
        proof {
            reveal_strlit("+"); reveal_strlit("-"); reveal_strlit("*"); reveal_strlit("/");
            reveal_strlit("=="); reveal_strlit("!="); reveal_strlit("<"); reveal_strlit("<=");
            reveal_strlit(">"); reveal_strlit(">=");
        }
        match self {
            RExp::Term(t) => t.write_source(out),
            RExp::Add(l, r) => { l.write_source(out); push_op(out, "+"); r.write_source(out); },
            RExp::Sub(l, r) => { l.write_source(out); push_op(out, "-"); r.write_source(out); },
            RExp::Mul(l, r) => { l.write_source(out); push_op(out, "*"); r.write_source(out); },
            RExp::Div(l, r) => { l.write_source(out); push_op(out, "/"); r.write_source(out); },
            RExp::Equal(l, r) => { l.write_source(out); push_op(out, "=="); r.write_source(out); },
            RExp::NotEqual(l, r) => { l.write_source(out); push_op(out, "!="); r.write_source(out); },
            RExp::Less(l, r) => { l.write_source(out); push_op(out, "<"); r.write_source(out); },
            RExp::LessEqual(l, r) => { l.write_source(out); push_op(out, "<="); r.write_source(out); },
            RExp::Greater(l, r) => { l.write_source(out); push_op(out, ">"); r.write_source(out); },
            RExp::GreaterEqual(l, r) => { l.write_source(out); push_op(out, ">="); r.write_source(out); },
        }
    }

    /// The source text of this expression.
    pub fn source_text(&self) -> (r: String)
        ensures
            r@ == rexp_text(*self),
    {
        let mut out = String::new();
        self.write_source(&mut out);
        out
    }
}

impl Stmt {
    /// Whether this is an `if` statement.
    pub fn is_if(&self) -> (r: bool)
        ensures
            r == (*self is If),
    {
        match self {
            Stmt::If(_, _, _) => true,
            _ => false,
        }
    }

    /// Appends the source text of this statement to `out`.
    pub fn write_source(&self, out: &mut String)
        ensures
            final(out)@ == old(out)@ + stmt_text(*self),
        decreases self, 0nat,
    {
        proof {
            reveal_strlit("let "); reveal_strlit(" = "); reveal_strlit("{\n"); reveal_strlit("}");
            reveal_strlit("if "); reveal_strlit(" {\n"); reveal_strlit("} else ");
            reveal_strlit("exit ");
        }
        match self {
            Stmt::Declare(id) => {
                out.append("let ");
                out.append(id.lexeme.as_str());
            },
            Stmt::Initialize(id, e) => {
                out.append("let ");
                out.append(id.lexeme.as_str());
                out.append(" = ");
                e.write_source(out);
            },
            Stmt::Assign(LExp::Ident(id), e) => {
                out.append(id.lexeme.as_str());
                out.append(" = ");
                e.write_source(out);
            },
            Stmt::RExp(e) => e.write_source(out),
            Stmt::Block(b) => {
                out.append("{\n");
                write_lines(b, out);
                out.append("}");
            },
            Stmt::If(c, b, alt) => {
                out.append("if ");
                c.write_source(out);
                out.append(" {\n");
                write_lines(b, out);
                match alt {
                    None => out.append("}"),
                    Some(a) => {
                        out.append("} else ");
                        a.write_source(out);
                    },
                }
            },
            Stmt::Exit(e) => {
                out.append("exit ");
                e.write_source(out);
            },
        }
    }
}

/// Appends the source text of `stmts`, each followed by a newline, to `out`.
pub fn write_lines(stmts: &Vec<Stmt>, out: &mut String)
    ensures
        final(out)@ == old(out)@ + lines_text(stmts@, stmts@.len() as nat),
    decreases stmts@, 1nat,
{
    let mut i: usize = 0;
    while i < stmts.len()
        invariant
            i <= stmts@.len(),
            out@ == old(out)@ + lines_text(stmts@, i as nat),
        decreases stmts@.len() - i,
    {
        proof { reveal_strlit("\n"); }
        let ghost before = out@;
        assert(decreases_to!(stmts@ => stmts@[i as int]));
        stmts[i].write_source(out);
        out.append("\n");
        i = i + 1;
        assert(out@ =~= old(out)@ + lines_text(stmts@, i as nat));
    }
}

impl Program {
    /// The source text of the program: each statement on a line of its own.
    pub fn source_text(&self) -> (r: String)
        ensures
            r@ == program_text(*self),
    {
        let mut out = String::new();
        write_lines(&self.stmts, &mut out);
        out
    }
}

} // verus!
