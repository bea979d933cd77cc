use vstd::prelude::*;
use crate::ast::{Identifier, LExp, Program, RExp, Stmt, Term};
use crate::error::CompileError;
use crate::scope::{EnvView, Env, find_slot, can_allocate, declared, opened, closed, marked, top_level};

verus! {

/// The error that a read of `id` meets in `e`, if any.
pub open spec fn use_error(id: Identifier, e: EnvView) -> Option<CompileError> {
    let i = find_slot(e.slots, id.lexeme@);
    if i < 0 {
        Some(CompileError::UndeclaredIdent(id))
    } else if !e.slots[i].initialized {
        Some(CompileError::UninitializedIdent(id))
    } else {
        None
    }
}

/// The first error that reading the names of operand `t` meets in `e`, if any.
pub open spec fn term_error(t: Term, e: EnvView) -> Option<CompileError>
    decreases t,
{
    match t {
        Term::LExp(LExp::Ident(id)) => use_error(id, e),
        Term::IntLit(_) => None,
        Term::Neg(inner) => term_error(*inner, e),
        Term::Bracketed(x) => rexp_error(*x, e),
    }
}

/// The first error, from left to right, that reading the names of `x` meets in `e`, if any.
pub open spec fn rexp_error(x: RExp, e: EnvView) -> Option<CompileError>
    decreases x,
{
    match x {
        RExp::Term(t) => term_error(t, e),
        RExp::Add(l, r) | RExp::Sub(l, r) | RExp::Mul(l, r) | RExp::Div(l, r) | RExp::Equal(l, r)
        | RExp::NotEqual(l, r) | RExp::Less(l, r) | RExp::LessEqual(l, r) | RExp::Greater(l, r)
        | RExp::GreaterEqual(l, r) => match rexp_error(*l, e) {
            Some(err) => Some(err),
            None => rexp_error(*r, e),
        },
    }
}

/// `e` with a new binding of `id`, or the error when the frame is full.
pub open spec fn bind(e: EnvView, id: Identifier, initialized: bool) -> Result<EnvView, CompileError> {
    if can_allocate(e) {
        Ok(declared(e, id.lexeme@, initialized))
    } else {
        Err(CompileError::LimitExceeded)
    }
}

/// The scopes after resolving `s` in `e`, or the first error met.
pub open spec fn stmt_resolve(s: Stmt, e: EnvView) -> Result<EnvView, CompileError>
    decreases s, 0nat,
{
    match s {
        Stmt::Declare(id) => bind(e, id, false),
        Stmt::Initialize(id, x) => match rexp_error(x, e) {
            Some(err) => Err(err),
            None => bind(e, id, true),
        },
        Stmt::Assign(LExp::Ident(id), x) => match rexp_error(x, e) {
            Some(err) => Err(err),
            None => {
                let i = find_slot(e.slots, id.lexeme@);
                if i < 0 {
                    Err(CompileError::UndeclaredIdent(id))
                } else {
                    Ok(marked(e, i))
                }
            },
        },
        Stmt::RExp(x) | Stmt::Exit(x) => match rexp_error(x, e) {
            Some(err) => Err(err),
            None => Ok(e),
        },
        Stmt::Block(b) => match stmts_resolve(b@, b@.len() as nat, opened(e)) {
            Ok(inner) => Ok(closed(inner)),
            Err(err) => Err(err),
        },
        Stmt::If(c, b, alt) => match rexp_error(c, e) {
            Some(err) => Err(err),
            None => match stmts_resolve(b@, b@.len() as nat, opened(e)) {
                Err(err) => Err(err),
                Ok(inner) => match alt {
                    None => Ok(closed(inner)),
                    Some(a) => stmt_resolve(*a, closed(inner)),
                },
            },
        },
    }
}

/// The scopes after resolving the first `n` statements of `ss` in order, or the first error met.
pub open spec fn stmts_resolve(ss: Seq<Stmt>, n: nat, e: EnvView) -> Result<EnvView, CompileError>
    decreases ss, n,
{
    if n == 0 || n > ss.len() {
        Ok(e)
    } else {
        match stmts_resolve(ss, (n - 1) as nat, e) {
            Ok(e1) => stmt_resolve(ss[n - 1], e1),
            Err(err) => Err(err),
        }
    }
}

/// The outcome of resolving a program: its top-level scope after the last
/// statement, or the first error met.
pub open spec fn program_resolve(p: Program) -> Result<EnvView, CompileError> {
    stmts_resolve(p.stmts@, p.stmts@.len() as nat, top_level())
}

/// `Ok` when there is no error, else the error.
pub open spec fn spec_as_result(err: Option<CompileError>) -> Result<(), CompileError> {
    match err {
        Some(e) => Err(e),
        None => Ok(()),
    }
}

fn analyze_ident(id: &Identifier, env: &Env) -> (r: Result<(), CompileError>)
    requires
        env.wf(),
    ensures
        r == spec_as_result(use_error(*id, env@)),
{
    match env.get_symbol(&id.lexeme) {
        None => Err(CompileError::UndeclaredIdent(id.clone())),
        Some(sym) => {
            if sym.initialized {
                Ok(())
            } else {
                Err(CompileError::UninitializedIdent(id.clone()))
            }
        },
    }
}

fn analyze_term(term: &Term, env: &Env) -> (r: Result<(), CompileError>)
    requires
        env.wf(),
    ensures
        r == spec_as_result(term_error(*term, env@)),
    decreases term,
{
    match term {
        Term::LExp(LExp::Ident(id)) => analyze_ident(id, env),
        Term::IntLit(_) => Ok(()),
        Term::Neg(inner) => analyze_term(inner, env),
        Term::Bracketed(x) => analyze_rexp(x, env),
    }
}

fn analyze_rexp(rexp: &RExp, env: &Env) -> (r: Result<(), CompileError>)
    requires
        env.wf(),
    ensures
        r == spec_as_result(rexp_error(*rexp, env@)),
    decreases rexp,
{
    match rexp {
        RExp::Term(t) => analyze_term(t, env),
        RExp::Add(l, r) | RExp::Sub(l, r) | RExp::Mul(l, r) | RExp::Div(l, r) | RExp::Equal(l, r)
        | RExp::NotEqual(l, r) | RExp::Less(l, r) | RExp::LessEqual(l, r) | RExp::Greater(l, r)
        | RExp::GreaterEqual(l, r) => {
            match analyze_rexp(l, env) {
                Err(e) => Err(e),
                Ok(()) => analyze_rexp(r, env),
            }
        },
    }
}

fn analyze_bind(id: &Identifier, initialized: bool, env: &mut Env) -> (r: Result<(), CompileError>)
    requires
        old(env).wf(),
    ensures
        final(env).wf(),
        r is Ok ==> final(env)@.starts == old(env)@.starts,
        match bind(old(env)@, *id, initialized) {
            Ok(e1) => r is Ok && final(env)@ == e1,
            Err(err) => r == Err::<(), CompileError>(err),
        },
{
    if !env.can_allocate() {
        return Err(CompileError::LimitExceeded);
    }
    if initialized {
        env.initialize(id);
    } else {
        env.declare(id);
    }
    Ok(())
}

fn analyze_stmt(stmt: &Stmt, env: &mut Env) -> (r: Result<(), CompileError>)
    requires
        old(env).wf(),
    ensures
        final(env).wf(),
        r is Ok ==> final(env)@.starts == old(env)@.starts,
        match stmt_resolve(*stmt, old(env)@) {
            Ok(e1) => r is Ok && final(env)@ == e1,
            Err(err) => r == Err::<(), CompileError>(err),
        },
    decreases stmt, 0nat,
{
    match stmt {
        Stmt::Declare(id) => analyze_bind(id, false, env),
        Stmt::Initialize(id, x) => {
            match analyze_rexp(x, env) {
                Err(e) => Err(e),
                Ok(()) => analyze_bind(id, true, env),
            }
        },
        Stmt::Assign(LExp::Ident(id), x) => {
            match analyze_rexp(x, env) {
                Err(e) => Err(e),
                Ok(()) => match env.find(&id.lexeme) {
                    None => Err(CompileError::UndeclaredIdent(id.clone())),
                    Some(i) => {
                        env.mark_initialized(i);
                        Ok(())
                    },
                },
            }
        },
        Stmt::RExp(x) | Stmt::Exit(x) => analyze_rexp(x, env),
        Stmt::Block(b) => analyze_block(b, env),
        Stmt::If(c, b, alt) => {
            match analyze_rexp(c, env) {
                Err(e) => Err(e),
                Ok(()) => match analyze_block(b, env) {
                    Err(e) => Err(e),
                    Ok(()) => match alt {
                        None => Ok(()),
                        Some(a) => analyze_stmt(a, env),
                    },
                },
            }
        },
    }
}

/// Resolves `stmts` in a scope of their own inside the innermost one of `env`.
fn analyze_block(stmts: &Vec<Stmt>, env: &mut Env) -> (r: Result<(), CompileError>)
    requires
        old(env).wf(),
    ensures
        final(env).wf(),
        r is Ok ==> final(env)@.starts == old(env)@.starts,
        match stmts_resolve(stmts@, stmts@.len() as nat, opened(old(env)@)) {
            Ok(inner) => r is Ok && final(env)@ == closed(inner),
            Err(err) => r == Err::<(), CompileError>(err),
        },
    decreases stmts@, 1nat,
{
    env.open_scope();
    match analyze_stmts(stmts, env) {
        Err(e) => Err(e),
        Ok(()) => {
            env.close_scope();
            Ok(())
        },
    }
}

fn analyze_stmts(stmts: &Vec<Stmt>, env: &mut Env) -> (r: Result<(), CompileError>)
    requires
        old(env).wf(),
    ensures
        final(env).wf(),
        r is Ok ==> final(env)@.starts == old(env)@.starts,
        match stmts_resolve(stmts@, stmts@.len() as nat, old(env)@) {
            Ok(e1) => r is Ok && final(env)@ == e1,
            Err(err) => r == Err::<(), CompileError>(err),
        },
    decreases stmts@, 0nat,
{
    let mut i: usize = 0;
    while i < stmts.len()
        invariant
            i <= stmts@.len(),
            env.wf(),
            env@.starts == old(env)@.starts,
            stmts_resolve(stmts@, i as nat, old(env)@) == Ok::<EnvView, CompileError>(env@),
        decreases stmts@.len() - i,
    {
        assert(decreases_to!(stmts@ => stmts@[i as int]));
        match analyze_stmt(&stmts[i], env) {
            Err(e) => {
                proof { lemma_stmts_error_sticks(stmts@, (i + 1) as nat, stmts@.len() as nat, old(env)@); }
                return Err(e);
            },
            Ok(()) => {},
        }
        i = i + 1;
    }
    Ok(())
}

/// Once a prefix of the statements fails, every longer prefix fails the same way.
proof fn lemma_stmts_error_sticks(ss: Seq<Stmt>, n: nat, m: nat, e: EnvView)
    requires
        n <= m <= ss.len(),
        stmts_resolve(ss, n, e) is Err,
    ensures
        stmts_resolve(ss, m, e) == stmts_resolve(ss, n, e),
    decreases m - n,
{
    if m > n {
        lemma_stmts_error_sticks(ss, n, (m - 1) as nat, e);
    }
}

/// Resolves the names of `program` in order, and gives back its top-level
/// scope after the last statement, or the first error met.
pub fn analyze(program: &Program) -> (r: Result<Env, CompileError>)
    ensures
        match program_resolve(*program) {
            Ok(e) => r matches Ok(env) && env@ == e && env.wf(),
            Err(err) => r matches Err(x) && x == err,
        },
{
    let mut env = Env::new();
    match analyze_stmts(&program.stmts, &mut env) {
        Ok(()) => Ok(env),
        Err(e) => Err(e),
    }
}

} // verus!
