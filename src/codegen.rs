use vstd::prelude::*;
use vstd::string::*;
use crate::ast::{rexp_text, term_text, BinOp, Identifier, IntLiteral, LExp, RExp, Stmt, Term};
use crate::decorator::{decorated, StringDecorator};
use crate::error::CompileError;
use crate::scope::{
    can_allocate, closed, declared, find_slot, lemma_find_slot_range, opened, top_level, Env,
    EnvView, SLOT_BYTES,
};
use crate::text::{decimal, push_decimal};

verus! {

/// An instruction line: indented, then a newline.
pub open spec fn line(s: Seq<char>) -> Seq<char> {
    "    "@ + s + "\n"@
}

/// A comment line.
pub open spec fn comment_line(s: Seq<char>) -> Seq<char> {
    "    ; "@ + s + "\n"@
}

/// A label line.
pub open spec fn label_line(s: Seq<char>) -> Seq<char> {
    s + ":\n"@
}

/// The code of a read of `id`: push the value in its slot.
pub open spec fn ident_asm(id: Identifier, e: EnvView) -> Result<Seq<char>, CompileError> {
    let i = find_slot(e.slots, id.lexeme@);
    if i < 0 {
        Err(CompileError::UndeclaredIdent(id))
    } else {
        let s = e.slots[i];
        Ok(line(""@) + comment_line(decorated(s.name, s.generation)) + line(
            "push qword [rbp-"@ + decimal(s.offset) + "]"@,
        ))
    }
}

/// The code of a literal: load it into the accumulator and push it.
pub open spec fn intlit_asm(lit: IntLiteral) -> Seq<char> {
    line(""@) + comment_line(lit.lexeme@) + line("mov rax, "@ + lit.lexeme@) + line("push rax"@)
}

/// The instructions that combine `rax` (left) and `rbx` (right) into `rax`.
pub open spec fn op_asm(op: BinOp) -> Seq<char> {
    match op {
        BinOp::Add => line("add rax, rbx"@),
        BinOp::Sub => line("sub rax, rbx"@),
        BinOp::Mul => line("mul rbx"@),
        BinOp::Div => line("xor rdx, rdx"@) + line("div rbx"@),
        BinOp::Equal => line("cmp rax, rbx"@) + line("sete al"@) + line("and rax, 255"@),
        BinOp::NotEqual => line("cmp rax, rbx"@) + line("setne al"@) + line("and rax, 255"@),
        BinOp::Less => line("cmp rax, rbx"@) + line("setl al"@) + line("and rax, 255"@),
        BinOp::LessEqual => line("cmp rax, rbx"@) + line("setle al"@) + line("and rax, 255"@),
        BinOp::Greater => line("cmp rax, rbx"@) + line("setg al"@) + line("and rax, 255"@),
        BinOp::GreaterEqual => line("cmp rax, rbx"@) + line("setge al"@) + line("and rax, 255"@),
    }
}

/// The code of binary expression `x` from the code of its operands: evaluate
/// both, pop them into `rbx` and `rax`, combine, push the result.
pub open spec fn bin_asm(
    op: BinOp,
    lhs: Result<Seq<char>, CompileError>,
    rhs: Result<Seq<char>, CompileError>,
    x: RExp,
) -> Result<Seq<char>, CompileError> {
    match lhs {
        Err(err) => Err(err),
        Ok(a) => match rhs {
            Err(err) => Err(err),
            Ok(b) => Ok(a + b + line(""@) + comment_line(rexp_text(x)) + line("pop rbx"@) + line(
                "pop rax"@,
            ) + op_asm(op) + line("push rax"@)),
        },
    }
}

/// The code of operand `t`, which leaves its value on the stack, or the error met.
pub open spec fn term_asm(t: Term, e: EnvView) -> Result<Seq<char>, CompileError>
    decreases t,
{
    match t {
        Term::LExp(LExp::Ident(id)) => ident_asm(id, e),
        Term::IntLit(lit) => Ok(intlit_asm(lit)),
        Term::Neg(inner) => match term_asm(*inner, e) {
            Err(err) => Err(err),
            Ok(c) => Ok(c + line("pop rax"@) + line(""@) + comment_line(term_text(t)) + line(
                "neg rax"@,
            ) + line("push rax"@)),
        },
        Term::Bracketed(x) => rexp_asm(*x, e),
    }
}

/// The code of expression `x`, which leaves its value on the stack, or the error met.
pub open spec fn rexp_asm(x: RExp, e: EnvView) -> Result<Seq<char>, CompileError>
    decreases x,
{
    match x {
        RExp::Term(t) => term_asm(t, e),
        RExp::Add(l, r) => bin_asm(BinOp::Add, rexp_asm(*l, e), rexp_asm(*r, e), x),
        RExp::Sub(l, r) => bin_asm(BinOp::Sub, rexp_asm(*l, e), rexp_asm(*r, e), x),
        RExp::Mul(l, r) => bin_asm(BinOp::Mul, rexp_asm(*l, e), rexp_asm(*r, e), x),
        RExp::Div(l, r) => bin_asm(BinOp::Div, rexp_asm(*l, e), rexp_asm(*r, e), x),
        RExp::Equal(l, r) => bin_asm(BinOp::Equal, rexp_asm(*l, e), rexp_asm(*r, e), x),
        RExp::NotEqual(l, r) => bin_asm(BinOp::NotEqual, rexp_asm(*l, e), rexp_asm(*r, e), x),
        RExp::Less(l, r) => bin_asm(BinOp::Less, rexp_asm(*l, e), rexp_asm(*r, e), x),
        RExp::LessEqual(l, r) => bin_asm(BinOp::LessEqual, rexp_asm(*l, e), rexp_asm(*r, e), x),
        RExp::Greater(l, r) => bin_asm(BinOp::Greater, rexp_asm(*l, e), rexp_asm(*r, e), x),
        RExp::GreaterEqual(l, r) => bin_asm(
            BinOp::GreaterEqual,
            rexp_asm(*l, e),
            rexp_asm(*r, e),
            x,
        ),
    }
}

/// The generator's state between statements: the text so far, the scopes,
/// and the counters of the three label names.
pub struct GenView {
    pub text: Seq<char>,
    pub env: EnvView,
    pub end_if: nat,
    pub else_start: nat,
    pub else_end: nat,
}

/// `g` with `t` appended to its text.
pub open spec fn emit(g: GenView, t: Seq<char>) -> GenView {
    GenView { text: g.text + t, ..g }
}

/// The lines that pop a condition and jump to `target` when it is zero.
pub open spec fn branch_asm(c: RExp, code: Seq<char>, target: Seq<char>) -> Seq<char> {
    code + comment_line(rexp_text(c) + " == 0"@) + line("pop rax"@) + line("test rax, rax"@)
        + line("jz "@ + target) + comment_line("if"@)
}

/// Generating `let id`: a new slot, reserved on the stack.
#[verifier::opaque]
pub open spec fn declare_gen(id: Identifier, g: GenView) -> Result<GenView, CompileError> {
    if !can_allocate(g.env) {
        Err(CompileError::LimitExceeded)
    } else {
        let e1 = declared(g.env, id.lexeme@, false);
        let slot = e1.slots.last();
        Ok(
            GenView {
                env: e1,
                ..emit(
                    g,
                    line(""@) + comment_line("let "@ + decorated(slot.name, slot.generation)) + line(
                        "sub rsp, "@ + decimal(SLOT_BYTES as nat),
                    ),
                )
            },
        )
    }
}

/// Generating `let id = x`: the value of `x`, evaluated before the new
/// binding exists, stored in a new slot.
#[verifier::opaque]
pub open spec fn initialize_gen(id: Identifier, x: RExp, g: GenView) -> Result<GenView, CompileError> {
    match rexp_asm(x, g.env) {
        Err(err) => Err(err),
        Ok(c) => if !can_allocate(g.env) {
            Err(CompileError::LimitExceeded)
        } else {
            let e1 = declared(g.env, id.lexeme@, true);
            let slot = e1.slots.last();
            let xt = rexp_text(x);
            Ok(
                GenView {
                    env: e1,
                    ..emit(
                        g,
                        line(""@) + comment_line("let "@ + id.lexeme@ + " = "@ + xt) + line(""@) + c
                            + line(""@) + comment_line(
                            "let "@ + decorated(slot.name, slot.generation) + " = "@ + xt,
                        ) + line("pop rax"@) + line("sub rsp, "@ + decimal(SLOT_BYTES as nat))
                            + line("mov qword [rbp-"@ + decimal(slot.offset) + "], rax"@),
                    )
                },
            )
        },
    }
}

/// Generating `id = x`: the value of `x` stored in the slot of the binding of `id` in sight.
#[verifier::opaque]
pub open spec fn assign_gen(id: Identifier, x: RExp, g: GenView) -> Result<GenView, CompileError> {
    let i = find_slot(g.env.slots, id.lexeme@);
    if i < 0 {
        Err(CompileError::UndeclaredIdent(id))
    } else {
        match rexp_asm(x, g.env) {
            Err(err) => Err(err),
            Ok(c) => {
                let slot = g.env.slots[i];
                let head = decorated(slot.name, slot.generation) + " = "@ + rexp_text(x);
                Ok(
                    emit(
                        g,
                        line(""@) + comment_line(head) + c + line(""@) + comment_line(head) + line(
                            "pop rax"@,
                        ) + line("mov qword [rbp-"@ + decimal(slot.offset) + "], rax"@),
                    ),
                )
            },
        }
    }
}

/// Generating an expression statement: its value is computed and dropped.
#[verifier::opaque]
pub open spec fn expr_gen(x: RExp, g: GenView) -> Result<GenView, CompileError> {
    match rexp_asm(x, g.env) {
        Err(err) => Err(err),
        Ok(c) => Ok(emit(g, comment_line(rexp_text(x)) + c + line("pop rax"@))),
    }
}

/// Generating `exit x`: the value of `x` handed to the process-termination call.
#[verifier::opaque]
pub open spec fn exit_gen(x: RExp, g: GenView) -> Result<GenView, CompileError> {
    match rexp_asm(x, g.env) {
        Err(err) => Err(err),
        Ok(c) => Ok(
            emit(
                g,
                c + line(""@) + comment_line("exit "@ + rexp_text(x)) + line("pop rax"@) + line(
                    "mov rcx, rax"@,
                ) + line("call ExitProcess"@),
            ),
        ),
    }
}

/// The state after generating statement `s` from `g`, or the first error met.
pub open spec fn stmt_gen(s: Stmt, g: GenView) -> Result<GenView, CompileError>
    decreases s, 2nat,
{
    match s {
        Stmt::Declare(id) => declare_gen(id, g),
        Stmt::Initialize(id, x) => initialize_gen(id, x, g),
        Stmt::Assign(LExp::Ident(id), x) => assign_gen(id, x, g),
        Stmt::RExp(x) => expr_gen(x, g),
        Stmt::Exit(x) => exit_gen(x, g),
        Stmt::Block(b) => block_gen(b@, g),
        Stmt::If(_, _, None) => if_gen(s, g),
        Stmt::If(_, _, Some(_)) => if_else_gen(s, g),
    }
}

/// Generating `if c { .. }`: the condition, a jump past the block when it
/// is zero, the block, and the label jumped to.
pub open spec fn if_gen(s: Stmt, g: GenView) -> Result<GenView, CompileError>
    decreases s, 1nat,
{
    match s {
        Stmt::If(c, b, None) => if g.end_if >= u32::MAX {
            Err(CompileError::LimitExceeded)
        } else {
            let end = decorated("end_if"@, g.end_if);
            let g0 = GenView { end_if: g.end_if + 1, ..g };
            match rexp_asm(c, g.env) {
                Err(err) => Err(err),
                Ok(code) => match block_gen(b@, emit(g0, branch_asm(c, code, end))) {
                    Err(err) => Err(err),
                    Ok(g1) => Ok(emit(g1, label_line(end))),
                },
            }
        },
        _ => Err(CompileError::NotFound),
    }
}

/// Generating the else branch `alt` of an `if`: a block, or another `if`.
pub open spec fn else_gen(alt: Stmt, g: GenView) -> Result<GenView, CompileError>
    decreases alt, 3nat,
{
    match alt {
        Stmt::Block(ab) => block_gen(ab@, emit(g, comment_line("else {"@))),
        _ => stmt_gen(alt, emit(g, comment_line("else if {"@))),
    }
}

/// Generating `if c { .. } else ..`: the condition, a jump to the else
/// branch when it is zero, the block, a jump past the else branch, then the
/// else branch between its two labels.
pub open spec fn if_else_gen(s: Stmt, g: GenView) -> Result<GenView, CompileError>
    decreases s, 1nat,
{
    match s {
        Stmt::If(c, b, Some(alt)) => if g.else_start >= u32::MAX || g.else_end >= u32::MAX {
            Err(CompileError::LimitExceeded)
        } else {
            let start = decorated("else_start"@, g.else_start);
            let end = decorated("else_end"@, g.else_end);
            let g0 = GenView { else_start: g.else_start + 1, else_end: g.else_end + 1, ..g };
            match rexp_asm(c, g.env) {
                Err(err) => Err(err),
                Ok(code) => match block_gen(b@, emit(g0, branch_asm(c, code, start))) {
                    Err(err) => Err(err),
                    Ok(g1) => {
                        let g2 = emit(g1, line("jmp "@ + end) + label_line(start));
                        match else_gen(*alt, g2) {
                            Err(err) => Err(err),
                            Ok(g4) => Ok(emit(g4, comment_line("}"@) + label_line(end))),
                        }
                    },
                }
            }
        },
        _ => Err(CompileError::NotFound),
    }
}

/// The state after generating `ss` as a block from `g`: in a scope of its
/// own, between comment lines that mark it.
pub open spec fn block_gen(ss: Seq<Stmt>, g: GenView) -> Result<GenView, CompileError>
    decreases ss, ss.len() + 1,
{
    match stmts_gen(ss, ss.len() as nat, GenView { env: opened(g.env), ..emit(g, comment_line("{"@)) }) {
        Err(err) => Err(err),
        Ok(g1) => Ok(GenView { env: closed(g1.env), ..emit(g1, comment_line("}"@)) }),
    }
}

/// The state after generating the first `n` statements of `ss` in order from `g`.
pub open spec fn stmts_gen(ss: Seq<Stmt>, n: nat, g: GenView) -> Result<GenView, CompileError>
    decreases ss, n,
{
    if n == 0 || n > ss.len() {
        Ok(g)
    } else {
        match stmts_gen(ss, (n - 1) as nat, g) {
            Ok(g1) => stmt_gen(ss[n - 1], g1),
            Err(err) => Err(err),
        }
    }
}

/// The text of a whole program: the entry label and frame set-up, the
/// statements in the top-level scope, and an exit with code 0 for when
/// control falls off the end. Label counters start at 0.
pub open spec fn program_asm(ss: Seq<Stmt>) -> Result<Seq<char>, CompileError> {
    let g0 = GenView {
        text: label_line("_start"@) + line("mov rbp, rsp"@) + comment_line("{"@),
        env: top_level(),
        end_if: 0,
        else_start: 0,
        else_end: 0,
    };
    match stmts_gen(ss, ss.len() as nat, g0) {
        Err(err) => Err(err),
        Ok(g) => Ok(g.text + comment_line("}"@) + line(""@) + comment_line("exit 0"@) + line(
            "xor rcx, rcx"@,
        ) + line("call ExitProcess"@)),
    }
}

/// What precedes the instructions in an assembly file: the entry symbol, the
/// external symbol of process termination, the text section.
pub open spec fn listing_header() -> Seq<char> {
    "default rel\nglobal _start\nextern ExitProcess\nsection .text\n"@
}

/// `a` followed by `b`.
fn cat(a: &str, b: &str) -> (r: String)
    ensures
        r@ == a@ + b@,
{
    let mut r = String::from_str(a);
    r.append(b);
    r
}

/// The instruction text of a program, built statement by statement.
pub struct Asm {
    label_decorator: StringDecorator,
    text: String,
}

impl Default for Asm {
    fn default() -> (r: Self)
        ensures
            r.text() == Seq::<char>::empty(),
    {
        Asm::new()
    }
}

impl Asm {
    /// The instruction text generated so far.
    pub closed spec fn text(&self) -> Seq<char> {
        self.text@
    }

    spec fn state(&self, env: EnvView) -> GenView {
        GenView {
            text: self.text@,
            env,
            end_if: self.label_decorator.counter("end_if"@),
            else_start: self.label_decorator.counter("else_start"@),
            else_end: self.label_decorator.counter("else_end"@),
        }
    }

    /// A generator with no text yet.
    pub fn new() -> (r: Self)
        ensures
            r.text() == Seq::<char>::empty(),
    {
        Asm { label_decorator: StringDecorator::new(), text: String::new() }
    }

    fn stmt(&mut self, s: &str)
        ensures
            final(self).text@ == old(self).text@ + line(s@),
            final(self).label_decorator == old(self).label_decorator,
    {
        self.text.append("    ");
        self.text.append(s);
        self.text.append("\n");
        assert(self.text@ =~= old(self).text@ + line(s@));
    }

    fn label(&mut self, s: &str)
        ensures
            final(self).text@ == old(self).text@ + label_line(s@),
            final(self).label_decorator == old(self).label_decorator,
    {
        self.text.append(s);
        self.text.append(":\n");
        assert(self.text@ =~= old(self).text@ + label_line(s@));
    }

    fn comment(&mut self, s: &str)
        ensures
            final(self).text@ == old(self).text@ + comment_line(s@),
            final(self).label_decorator == old(self).label_decorator,
    {
        self.text.append("    ; ");
        self.text.append(s);
        self.text.append("\n");
        assert(self.text@ =~= old(self).text@ + comment_line(s@));
    }

    /// An instruction line made of `pre`, the decimal notation of `n`, and `post`.
    fn stmt_num(&mut self, pre: &str, n: usize, post: &str)
        ensures
            final(self).text@ == old(self).text@ + line(pre@ + decimal(n as nat) + post@),
            final(self).label_decorator == old(self).label_decorator,
    {
        let mut l = String::from_str(pre);
        push_decimal(&mut l, n);
        l.append(post);
        self.stmt(l.as_str());
    }

    fn ident(&mut self, ident: &Identifier, env: &Env) -> (r: Result<(), CompileError>)
        requires
            env.wf(),
        ensures
            final(self).label_decorator == old(self).label_decorator,
            match ident_asm(*ident, env@) {
                Ok(c) => r is Ok && final(self).text@ == old(self).text@ + c,
                Err(err) => r == Err::<(), CompileError>(err),
            },
    {
        let sym = match env.get_symbol(&ident.lexeme) {
            Some(sym) => sym,
            None => return Err(CompileError::UndeclaredIdent(ident.clone())),
        };
        let ghost t0 = self.text@;
        self.stmt("");
        self.comment(sym.decorated_lexeme.as_str());
        self.stmt_num("push qword [rbp-", sym.rbp_offset, "]");
        proof {
            let c = ident_asm(*ident, env@)->Ok_0;
            assert(self.text@ =~= t0 + c);
        }
        Ok(())
    }

    fn intlit(&mut self, intlit: &IntLiteral)
        ensures
            final(self).label_decorator == old(self).label_decorator,
            final(self).text@ == old(self).text@ + intlit_asm(*intlit),
    {
        let ghost t0 = self.text@;
        self.stmt("");
        self.comment(intlit.lexeme.as_str());
        let l = cat("mov rax, ", intlit.lexeme.as_str());
        self.stmt(l.as_str());
        self.stmt("push rax");
        assert(self.text@ =~= t0 + intlit_asm(*intlit));
    }

    fn term(&mut self, term: &Term, env: &Env) -> (r: Result<(), CompileError>)
        requires
            env.wf(),
        ensures
            final(self).label_decorator == old(self).label_decorator,
            match term_asm(*term, env@) {
                Ok(c) => r is Ok && final(self).text@ == old(self).text@ + c,
                Err(err) => r == Err::<(), CompileError>(err),
            },
        decreases term,
    {
        match term {
            Term::LExp(LExp::Ident(ident)) => self.ident(ident, env),
            Term::IntLit(intlit) => {
                self.intlit(intlit);
                Ok(())
            },
            Term::Neg(inner) => {
                let ghost t0 = self.text@;
                match self.term(inner, env) {
                    Err(e) => return Err(e),
                    Ok(()) => {},
                }
                self.stmt("pop rax");
                self.stmt("");
                let mut t = String::new();
                term.write_source(&mut t);
                self.comment(t.as_str());
                self.stmt("neg rax");
                self.stmt("push rax");
                proof {
                    let c = term_asm(*term, env@)->Ok_0;
                    assert(self.text@ =~= t0 + c);
                }
                Ok(())
            },
            Term::Bracketed(x) => self.rexp(x, env),
        }
    }

    fn op_lines(&mut self, op: BinOp)
        ensures
            final(self).text@ == old(self).text@ + op_asm(op),
            final(self).label_decorator == old(self).label_decorator,
    {
        let ghost t0 = self.text@;
        match op {
            BinOp::Add => self.stmt("add rax, rbx"),
            BinOp::Sub => self.stmt("sub rax, rbx"),
            BinOp::Mul => self.stmt("mul rbx"),
            BinOp::Div => {
                self.stmt("xor rdx, rdx");
                self.stmt("div rbx");
            },
            _ => {
                self.stmt("cmp rax, rbx");
                match op {
                    BinOp::Equal => self.stmt("sete al"),
                    BinOp::NotEqual => self.stmt("setne al"),
                    BinOp::Less => self.stmt("setl al"),
                    BinOp::LessEqual => self.stmt("setle al"),
                    BinOp::Greater => self.stmt("setg al"),
                    _ => self.stmt("setge al"),
                }
                self.stmt("and rax, 255");
            },
        }
        assert(self.text@ =~= t0 + op_asm(op));
    }

    fn binary_operator(&mut self, bin_exp: &RExp, op: BinOp, lhs: &RExp, rhs: &RExp, env: &Env) -> (r:
        Result<(), CompileError>)
        requires
            env.wf(),
            decreases_to!(*bin_exp => *lhs),
            decreases_to!(*bin_exp => *rhs),
        ensures
            final(self).label_decorator == old(self).label_decorator,
            match bin_asm(op, rexp_asm(*lhs, env@), rexp_asm(*rhs, env@), *bin_exp) {
                Ok(c) => r is Ok && final(self).text@ == old(self).text@ + c,
                Err(err) => r == Err::<(), CompileError>(err),
            },
        decreases bin_exp, 0nat,
    {
        let ghost t0 = self.text@;
        match self.rexp(lhs, env) {
            Err(e) => return Err(e),
            Ok(()) => {},
        }
        let ghost t1 = self.text@;
        match self.rexp(rhs, env) {
            Err(e) => return Err(e),
            Ok(()) => {},
        }
        self.stmt("");
        let t = bin_exp.source_text();
        self.comment(t.as_str());
        self.stmt("pop rbx");
        self.stmt("pop rax");
        self.op_lines(op);
        self.stmt("push rax");
        proof {
            let c = bin_asm(op, rexp_asm(*lhs, env@), rexp_asm(*rhs, env@), *bin_exp)->Ok_0;
            assert(self.text@ =~= t0 + c);
        }
        Ok(())
    }

    fn rexp(&mut self, rexp: &RExp, env: &Env) -> (r: Result<(), CompileError>)
        requires
            env.wf(),
        ensures
            final(self).label_decorator == old(self).label_decorator,
            match rexp_asm(*rexp, env@) {
                Ok(c) => r is Ok && final(self).text@ == old(self).text@ + c,
                Err(err) => r == Err::<(), CompileError>(err),
            },
        decreases rexp, 1nat,
    {
        match rexp {
            RExp::Term(t) => self.term(t, env),
            RExp::Add(l, r) => self.binary_operator(rexp, BinOp::Add, l, r, env),
            RExp::Sub(l, r) => self.binary_operator(rexp, BinOp::Sub, l, r, env),
            RExp::Mul(l, r) => self.binary_operator(rexp, BinOp::Mul, l, r, env),
            RExp::Div(l, r) => self.binary_operator(rexp, BinOp::Div, l, r, env),
            RExp::Equal(l, r) => self.binary_operator(rexp, BinOp::Equal, l, r, env),
            RExp::NotEqual(l, r) => self.binary_operator(rexp, BinOp::NotEqual, l, r, env),
            RExp::Less(l, r) => self.binary_operator(rexp, BinOp::Less, l, r, env),
            RExp::LessEqual(l, r) => self.binary_operator(rexp, BinOp::LessEqual, l, r, env),
            RExp::Greater(l, r) => self.binary_operator(rexp, BinOp::Greater, l, r, env),
            RExp::GreaterEqual(l, r) => self.binary_operator(rexp, BinOp::GreaterEqual, l, r, env),
        }
    }
}

impl Asm {
    fn gen_stmt(&mut self, stmt: &Stmt, env: &mut Env) -> (r: Result<(), CompileError>)
        requires
            old(env).wf(),
        ensures
            final(env).wf(),
            r is Ok ==> final(env)@.starts == old(env)@.starts,
            match stmt_gen(*stmt, old(self).state(old(env)@)) {
                Ok(g) => r is Ok && final(self).state(final(env)@) == g,
                Err(err) => r == Err::<(), CompileError>(err),
            },
        decreases stmt, 2nat,
    {
        match stmt {
            Stmt::Declare(ident) => self.gen_declare(ident, env),
            Stmt::Initialize(ident, x) => self.gen_initialize(ident, x, env),
            Stmt::Assign(LExp::Ident(ident), x) => self.gen_assign(ident, x, env),
            Stmt::RExp(x) => self.gen_expr(x, env),
            Stmt::Exit(x) => self.gen_exit(x, env),
            Stmt::Block(b) => self.gen_block(b, env),
            Stmt::If(_, _, None) => self.gen_if(stmt, env),
            Stmt::If(_, _, Some(_)) => self.gen_if_else(stmt, env),
        }
    }

    fn gen_if(&mut self, stmt: &Stmt, env: &mut Env) -> (r: Result<(), CompileError>)
        requires
            old(env).wf(),
            *stmt matches Stmt::If(_, _, None),
        ensures
            final(env).wf(),
            r is Ok ==> final(env)@.starts == old(env)@.starts,
            match if_gen(*stmt, old(self).state(old(env)@)) {
                Ok(g) => r is Ok && final(self).state(final(env)@) == g,
                Err(err) => r == Err::<(), CompileError>(err),
            },
        decreases stmt, 1nat,
    {
        let ghost g = old(self).state(old(env)@);
        proof {
            reveal_strlit("end_if");
            reveal_strlit("else_start");
            reveal_strlit("else_end");
        }
        let Stmt::If(c, if_block, None) = stmt else {
            return Err(CompileError::NotFound);
        };
        if self.label_decorator.index("end_if") == u32::MAX {
            return Err(CompileError::LimitExceeded);
        }
        assert(g.end_if < u32::MAX);
        assert(*stmt == Stmt::If(*c, *if_block, None));
        let end = self.label_decorator.decorate_and_increment(String::from_str("end_if"));
        let ghost g0 = GenView { end_if: g.end_if + 1, ..g };
        assert(self.state(env@) == g0);
        assert(end@ == decorated("end_if"@, g.end_if));
        match self.rexp(c, env) {
            Err(e) => {
                assert(rexp_asm(*c, g.env) == Err::<Seq<char>, CompileError>(e));
                return Err(e);
            },
            Ok(()) => {},
        }
        let ghost code = rexp_asm(*c, g.env)->Ok_0;
        self.branch(c, end.as_str());
        let ghost g1 = emit(g0, branch_asm(*c, code, end@));
        assert(self.text@ =~= g1.text);
        match self.gen_block(if_block, env) {
            Err(e) => {
                assert(block_gen(if_block@, g1) == Err::<GenView, CompileError>(e));
                assert(rexp_asm(*c, g.env) == Ok::<Seq<char>, CompileError>(code));
                assert(if_gen(*stmt, g) == Err::<GenView, CompileError>(e)) by {
                        }
                return Err(e);
            },
            Ok(()) => {},
        }
        self.label(end.as_str());
        Ok(())
    }

    #[verifier::rlimit(40)]
    fn gen_if_else(&mut self, stmt: &Stmt, env: &mut Env) -> (r: Result<(), CompileError>)
        requires
            old(env).wf(),
            *stmt matches Stmt::If(_, _, Some(_)),
        ensures
            final(env).wf(),
            r is Ok ==> final(env)@.starts == old(env)@.starts,
            match if_else_gen(*stmt, old(self).state(old(env)@)) {
                Ok(g) => r is Ok && final(self).state(final(env)@) == g,
                Err(err) => r == Err::<(), CompileError>(err),
            },
        decreases stmt, 1nat,
    {
        let ghost g = old(self).state(old(env)@);
        proof {
            reveal_strlit("end_if");
            reveal_strlit("else_start");
            reveal_strlit("else_end");
        }
        let Stmt::If(c, if_block, Some(alt)) = stmt else {
            return Err(CompileError::NotFound);
        };
        if self.label_decorator.index("else_start") == u32::MAX
            || self.label_decorator.index("else_end") == u32::MAX {
            return Err(CompileError::LimitExceeded);
        }
        assert(g.else_start < u32::MAX && g.else_end < u32::MAX);
        assert(*stmt == Stmt::If(*c, *if_block, Some(*alt)));
        let start = self.label_decorator.decorate_and_increment(
            String::from_str("else_start"),
        );
        let end = self.label_decorator.decorate_and_increment(String::from_str("else_end"));
        let ghost g0 = GenView { else_start: g.else_start + 1, else_end: g.else_end + 1, ..g };
        assert(self.state(env@) == g0);
        assert(start@ == decorated("else_start"@, g.else_start));
        assert(end@ == decorated("else_end"@, g.else_end));
        match self.rexp(c, env) {
            Err(e) => {
                assert(rexp_asm(*c, g.env) == Err::<Seq<char>, CompileError>(e));
                return Err(e);
            },
            Ok(()) => {},
        }
        let ghost code = rexp_asm(*c, g.env)->Ok_0;
        self.branch(c, start.as_str());
        let ghost g1 = emit(g0, branch_asm(*c, code, start@));
        assert(self.text@ =~= g1.text);
        match self.gen_block(if_block, env) {
            Err(e) => {
                assert(block_gen(if_block@, g1) == Err::<GenView, CompileError>(e));
                return Err(e);
            },
            Ok(()) => {},
        }
        let ghost g2 = block_gen(if_block@, g1)->Ok_0;
        let jump = cat("jmp ", end.as_str());
        self.stmt(jump.as_str());
        self.label(start.as_str());
        let ghost g3 = emit(g2, line("jmp "@ + end@) + label_line(start@));
        assert(self.text@ =~= g3.text);
        let inner = match &**alt {
            Stmt::Block(alt_block) => {
                self.comment("else {");
                assert(self.text@ =~= emit(g3, comment_line("else {"@)).text);
                self.gen_block(alt_block, env)
            },
            _ => {
                self.comment("else if {");
                assert(self.text@ =~= emit(g3, comment_line("else if {"@)).text);
                self.gen_stmt(alt, env)
            },
        };
        let ghost g4 = else_gen(**alt, g3);
        match inner {
            Err(e) => {
                assert(g4 == Err::<GenView, CompileError>(e));
                return Err(e);
            },
            Ok(()) => {},
        }
        self.comment("}");
        self.label(end.as_str());
        assert(self.text@ =~= emit(g4->Ok_0, comment_line("}"@) + label_line(end@)).text);
        Ok(())
    }

    fn gen_declare(&mut self, ident: &Identifier, env: &mut Env) -> (r: Result<(), CompileError>)
        requires
            old(env).wf(),
        ensures
            final(env).wf(),
            r is Ok ==> final(env)@.starts == old(env)@.starts,
            match declare_gen(*ident, old(self).state(old(env)@)) {
                Ok(g) => r is Ok && final(self).state(final(env)@) == g,
                Err(err) => r == Err::<(), CompileError>(err),
            },
    {
        let ghost g = old(self).state(old(env)@);
        proof { reveal(declare_gen); }
        proof { reveal_strlit(""); }
        if !env.can_allocate() {
            return Err(CompileError::LimitExceeded);
        }
        env.declare(ident);
        assert(find_slot(env@.slots, ident.lexeme@) == env@.slots.len() - 1);
        let sym = env.get_symbol(&ident.lexeme).unwrap();
        self.stmt("");
        let c = cat("let ", sym.decorated_lexeme.as_str());
        self.comment(c.as_str());
        self.stmt_num("sub rsp, ", sym.size_bytes, "");
        proof {
            let g1 = declare_gen(*ident, g)->Ok_0;
            assert(self.text@ =~= g1.text);
        }
        Ok(())
    }

    #[verifier::rlimit(40)]
    fn gen_initialize(&mut self, ident: &Identifier, x: &RExp, env: &mut Env) -> (r: Result<(), CompileError>)
        requires
            old(env).wf(),
        ensures
            final(env).wf(),
            r is Ok ==> final(env)@.starts == old(env)@.starts,
            match initialize_gen(*ident, *x, old(self).state(old(env)@)) {
                Ok(g) => r is Ok && final(self).state(final(env)@) == g,
                Err(err) => r == Err::<(), CompileError>(err),
            },
    {
        let ghost g = old(self).state(old(env)@);
        proof { reveal(initialize_gen); }
        proof { reveal_strlit(""); }
        let xt = x.source_text();
        self.stmt("");
        let head = cat("let ", ident.lexeme.as_str());
        let head = cat(head.as_str(), " = ");
        let head = cat(head.as_str(), xt.as_str());
        self.comment(head.as_str());
        self.stmt("");
        let ghost t1 = self.text@;
        match self.rexp(x, env) {
            Err(e) => return Err(e),
            Ok(()) => {},
        }
        let ghost t2 = self.text@;
        if !env.can_allocate() {
            return Err(CompileError::LimitExceeded);
        }
        env.initialize(ident);
        assert(find_slot(env@.slots, ident.lexeme@) == env@.slots.len() - 1);
        let sym = env.get_symbol(&ident.lexeme).unwrap();
        self.stmt("");
        let done = cat("let ", sym.decorated_lexeme.as_str());
        let done = cat(done.as_str(), " = ");
        let done = cat(done.as_str(), xt.as_str());
        self.comment(done.as_str());
        self.stmt("pop rax");
        self.stmt_num("sub rsp, ", sym.size_bytes, "");
        self.stmt_num("mov qword [rbp-", sym.rbp_offset, "], rax");
        proof {
            let g1 = initialize_gen(*ident, *x, g)->Ok_0;
            assert(self.text@ =~= g1.text);
        }
        Ok(())
    }

    fn gen_assign(&mut self, ident: &Identifier, x: &RExp, env: &mut Env) -> (r: Result<(), CompileError>)
        requires
            old(env).wf(),
        ensures
            final(env).wf(),
            r is Ok ==> final(env)@.starts == old(env)@.starts,
            match assign_gen(*ident, *x, old(self).state(old(env)@)) {
                Ok(g) => r is Ok && final(self).state(final(env)@) == g,
                Err(err) => r == Err::<(), CompileError>(err),
            },
    {
        let ghost g = old(self).state(old(env)@);
        proof { reveal(assign_gen); }
        let sym = match env.get_symbol(&ident.lexeme) {
            Some(sym) => sym,
            None => return Err(CompileError::UndeclaredIdent(ident.clone())),
        };
        let xt = x.source_text();
        let head = cat(sym.decorated_lexeme.as_str(), " = ");
        let head = cat(head.as_str(), xt.as_str());
        self.stmt("");
        self.comment(head.as_str());
        match self.rexp(x, env) {
            Err(e) => return Err(e),
            Ok(()) => {},
        }
        self.stmt("");
        self.comment(head.as_str());
        self.stmt("pop rax");
        self.stmt_num("mov qword [rbp-", sym.rbp_offset, "], rax");
        proof {
            let g1 = assign_gen(*ident, *x, g)->Ok_0;
            assert(self.text@ =~= g1.text);
        }
        Ok(())
    }

    fn gen_expr(&mut self, x: &RExp, env: &mut Env) -> (r: Result<(), CompileError>)
        requires
            old(env).wf(),
        ensures
            final(env).wf(),
            r is Ok ==> final(env)@.starts == old(env)@.starts,
            match expr_gen(*x, old(self).state(old(env)@)) {
                Ok(g) => r is Ok && final(self).state(final(env)@) == g,
                Err(err) => r == Err::<(), CompileError>(err),
            },
    {
        let ghost g = old(self).state(old(env)@);
        proof { reveal(expr_gen); }
        let xt = x.source_text();
        self.comment(xt.as_str());
        match self.rexp(x, env) {
            Err(e) => return Err(e),
            Ok(()) => {},
        }
        self.stmt("pop rax");
        proof {
            let g1 = expr_gen(*x, g)->Ok_0;
            assert(self.text@ =~= g1.text);
        }
        Ok(())
    }

    fn gen_exit(&mut self, x: &RExp, env: &mut Env) -> (r: Result<(), CompileError>)
        requires
            old(env).wf(),
        ensures
            final(env).wf(),
            r is Ok ==> final(env)@.starts == old(env)@.starts,
            match exit_gen(*x, old(self).state(old(env)@)) {
                Ok(g) => r is Ok && final(self).state(final(env)@) == g,
                Err(err) => r == Err::<(), CompileError>(err),
            },
    {
        let ghost g = old(self).state(old(env)@);
        proof { reveal(exit_gen); }
        match self.rexp(x, env) {
            Err(e) => return Err(e),
            Ok(()) => {},
        }
        self.stmt("");
        let xt = x.source_text();
        let c = cat("exit ", xt.as_str());
        self.comment(c.as_str());
        self.stmt("pop rax");
        self.stmt("mov rcx, rax");
        self.stmt("call ExitProcess");
        proof {
            let g1 = exit_gen(*x, g)->Ok_0;
            assert(self.text@ =~= g1.text);
        }
        Ok(())
    }

    /// Pops the condition `c` and jumps to `target` when it is zero.
    fn branch(&mut self, c: &RExp, target: &str)
        ensures
            final(self).label_decorator == old(self).label_decorator,
            final(self).text@ == old(self).text@ + branch_asm(*c, Seq::empty(), target@),
    {
        let ghost t0 = self.text@;
        let xt = c.source_text();
        let cmp = cat(xt.as_str(), " == 0");
        self.comment(cmp.as_str());
        self.stmt("pop rax");
        self.stmt("test rax, rax");
        let jz = cat("jz ", target);
        self.stmt(jz.as_str());
        self.comment("if");
        assert(self.text@ =~= t0 + branch_asm(*c, Seq::empty(), target@));
    }

    /// Generates `stmts` as a block: in a scope of its own inside the innermost one of `env`.
    fn gen_block(&mut self, stmts: &Vec<Stmt>, env: &mut Env) -> (r: Result<(), CompileError>)
        requires
            old(env).wf(),
        ensures
            final(env).wf(),
            r is Ok ==> final(env)@.starts == old(env)@.starts,
            match block_gen(stmts@, old(self).state(old(env)@)) {
                Ok(g) => r is Ok && final(self).state(final(env)@) == g,
                Err(err) => r == Err::<(), CompileError>(err),
            },
        decreases stmts@, stmts@.len() + 1,
    {
        self.comment("{");
        env.open_scope();
        match self.gen_stmts(stmts.as_slice(), env) {
            Err(e) => return Err(e),
            Ok(()) => {},
        }
        self.comment("}");
        env.close_scope();
        Ok(())
    }

    fn gen_stmts(&mut self, stmts: &[Stmt], env: &mut Env) -> (r: Result<(), CompileError>)
        requires
            old(env).wf(),
        ensures
            final(env).wf(),
            r is Ok ==> final(env)@.starts == old(env)@.starts,
            match stmts_gen(stmts@, stmts@.len() as nat, old(self).state(old(env)@)) {
                Ok(g) => r is Ok && final(self).state(final(env)@) == g,
                Err(err) => r == Err::<(), CompileError>(err),
            },
        decreases stmts@, stmts@.len(),
    {
        let ghost g0 = old(self).state(old(env)@);
        let mut i: usize = 0;
        while i < stmts.len()
            invariant
                i <= stmts@.len(),
                env.wf(),
                env@.starts == old(env)@.starts,
                g0 == old(self).state(old(env)@),
                stmts_gen(stmts@, i as nat, g0) == Ok::<GenView, CompileError>(self.state(env@)),
            decreases stmts@.len() - i,
        {
            assert(decreases_to!(stmts@ => stmts@[i as int]));
            let ghost before = self.state(env@);
            let stmt = &stmts[i];
            assert(*stmt == stmts@[i as int]);
            match self.gen_stmt(stmt, env) {
                Err(e) => {
                    proof {
                        assert(stmt_gen(stmts@[i as int], before) == Err::<GenView, CompileError>(e));
                        reveal_with_fuel(stmts_gen, 2);
                        assert(stmts_gen(stmts@, (i + 1) as nat, g0) == stmt_gen(
                            stmts@[i as int],
                            before,
                        ));
                        lemma_gen_error_sticks(stmts@, (i + 1) as nat, stmts@.len() as nat, g0);
                    }
                    return Err(e);
                },
                Ok(()) => {},
            }
            i = i + 1;
        }
        Ok(())
    }

    /// Generates the instruction text of a whole program, in place of any
    /// text generated before; label counters start again at 0. On an error
    /// no text is left, so the outcome depends on the statements alone.
    pub fn gen(&mut self, stmts: &[Stmt]) -> (r: Result<(), CompileError>)
        ensures
            match program_asm(stmts@) {
                Ok(t) => r is Ok && final(self).text() == t,
                Err(err) => r == Err::<(), CompileError>(err) && final(self).text()
                    == Seq::<char>::empty(),
            },
    {
        self.label_decorator = StringDecorator::new();
        self.text = String::new();
        self.label("_start");
        self.stmt("mov rbp, rsp");
        self.comment("{");
        let mut env = Env::new();
        match self.gen_stmts(stmts, &mut env) {
            Err(e) => {
                self.text = String::new();
                return Err(e);
            },
            Ok(()) => {},
        }
        let ghost t1 = self.text@;
        self.comment("}");
        self.stmt("");
        self.comment("exit 0");
        self.stmt("xor rcx, rcx");
        self.stmt("call ExitProcess");
        Ok(())
    }

    /// The instruction text generated so far.
    pub fn instructions(&self) -> (r: String)
        ensures
            r@ == self.text(),
    {
        self.text.clone()
    }

    /// The assembly file: the header, then the instruction text.
    pub fn listing(&self) -> (r: String)
        ensures
            r@ == listing_header() + self.text(),
    {
        let mut r = String::from_str("default rel\nglobal _start\nextern ExitProcess\nsection .text\n");
        r.append(self.text.as_str());
        r
    }
}

/// Once a prefix of the statements fails, every longer prefix fails the same way.
proof fn lemma_gen_error_sticks(ss: Seq<Stmt>, n: nat, m: nat, g: GenView)
    requires
        n <= m <= ss.len(),
        stmts_gen(ss, n, g) is Err,
    ensures
        stmts_gen(ss, m, g) == stmts_gen(ss, n, g),
    decreases m - n,
{
    if m > n {
        lemma_gen_error_sticks(ss, n, (m - 1) as nat, g);
    }
}

} // verus!
