//! The laws of the interpreter, stated over the specification-level
//! semantics and proved once and for all.

use vstd::prelude::*;
use crate::ast::{AtomV, SExprV, FunctionV, FunDefV, atom_equal, sexpr_equal, fun_arity,
    atom_size, sexpr_size};
use crate::error::ErrV;
use crate::evaluator::{EnvV, env_with_stack};
use crate::num::is_nan_bits;
use crate::semantics::{spec_eval, spec_eval_args, spec_eval_element, spec_call, spec_make_fun,
    spec_norm_args, fun_desc_of, lemma_eval_preserves, lemma_call_preserves,
    lemma_norm_preserves, env_preserved, frame_bind_all};

verus! {

// ---------------------------------------------------------------------
// Arity: a call with the wrong operand count always fails with an
// arity error, and the function's body or routine never runs.
// ---------------------------------------------------------------------

/// Calling any function with other than its declared arity fails with
/// an arity error citing both counts and the function; the body or
/// native routine never runs: the environment is exactly as operand
/// and head evaluation left it, output included.
pub proof fn lemma_arity_mismatch(f: AtomV, t: AtomV, env: EnvV, fuel: nat)
    requires
        ({
            spec_eval_args(t, env) matches Ok(args) && {
                let fout = spec_eval_element(f, env, fuel);
                fout.r matches Ok(fv) && fv matches AtomV::Function(fun) && fun_arity(*fun)
                    != args.len()
            }
        }),
    ensures
        ({
            let args = spec_eval_args(t, env)->Ok_0;
            let fout = spec_eval_element(f, env, fuel);
            let fun = fout.r->Ok_0->Function_0;
            let out = spec_eval(SExprV::Cons(Box::new(f), Box::new(t)), env, fuel);
            &&& out.r == Err::<AtomV, ErrV>(
                ErrV::ArityMismatch {
                    expected: fun_arity(*fun),
                    got: args.len() as usize,
                    fun: fun_desc_of(*fun),
                },
            )
            &&& out.env == fout.env
        }),
{
}

// ---------------------------------------------------------------------
// Scope hygiene: bindings made inside a user-defined call body are
// invisible once the call returns, success or failure.
// ---------------------------------------------------------------------

/// A binding introduced inside a user-defined call body is invisible
/// after that call returns, even on an internal error: the frame the
/// call pushed, and every binding made in it, is gone, and the
/// caller's scopes stand exactly as operand evaluation left them.
/// (Operand expressions evaluate in the caller's scope, so a `let`
/// inside an operand belongs to the caller, not to the call.)
pub proof fn lemma_scope_hygiene(fun: FunctionV, env: EnvV, fuel: nat)
    requires
        fun.def is UserDefined,
        env.stack.len() >= fun_arity(fun),
        env.frames.len() >= 1,
    ensures
        ({
            let out = spec_call(fun, env, fuel);
            let popped = env_with_stack(env, env.stack.take(env.stack.len() - fun_arity(fun)));
            if fuel == 0 {
                out.env.frames == env.frames
            } else {
                let nout = spec_norm_args(
                    env.stack.skip(env.stack.len() - fun_arity(fun)),
                    popped,
                    (fuel - 1) as nat,
                );
                out.env.frames == nout.env.frames
            }
        }),
{
    lemma_call_preserves(fun, env, fuel);
    let n = fun_arity(fun) as int;
    let popped = env_with_stack(env, env.stack.take(env.stack.len() - n));
    let out = spec_call(fun, env, fuel);
    match fun.def {
        FunDefV::UserDefined { arg_names, body } => {
            if fuel == 0 {
            } else {
                let raw = env.stack.skip(env.stack.len() - n);
                lemma_norm_preserves(raw, popped, (fuel - 1) as nat);
                let nout = spec_norm_args(raw, popped, (fuel - 1) as nat);
                match nout.r {
                    Err(_) => {},
                    Ok(args) => {
                        let frame = frame_bind_all(Seq::empty(), arg_names, args);
                        let benv = crate::evaluator::env_with_frames(
                            nout.env,
                            nout.env.frames.push(frame),
                        );
                        lemma_eval_preserves(body, benv, (fuel - 1) as nat);
                        let bout = spec_eval(body, benv, (fuel - 1) as nat);
                        assert forall|i: int| 0 <= i < nout.env.frames.len() implies
                            out.env.frames[i] == nout.env.frames[i] by {
                            assert(bout.env.frames[i] == benv.frames[i]);
                        }
                        assert(out.env.frames =~= nout.env.frames);
                    },
                }
            }
        },
        FunDefV::Lib { .. } => {},
    }
}

// ---------------------------------------------------------------------
// Stack balance: evaluation leaves the value stack as it found it, so
// after each top-level form it is empty again, success or error.
// ---------------------------------------------------------------------

/// Evaluating any expression returns the value stack to exactly the
/// state it had before, whether evaluation succeeded or failed; in
/// particular a top-level form that starts with an empty stack ends
/// with an empty stack.
pub proof fn lemma_stack_balance(e: SExprV, env: EnvV, fuel: nat)
    requires
        env.frames.len() >= 1,
    ensures
        spec_eval(e, env, fuel).env.stack == env.stack,
        env.stack.len() == 0 ==> spec_eval(e, env, fuel).env.stack.len() == 0,
{
    lemma_eval_preserves(e, env, fuel);
}

/// Across a whole program, the value stack is empty after each
/// top-level form finishes, success or error, and the global frame
/// structure survives every form.
pub proof fn lemma_program_stack_balance(forms: Seq<SExprV>, env: EnvV, fuel: nat)
    requires
        env.frames.len() >= 1,
        env.stack.len() == 0,
    ensures
        crate::run::spec_eval_forms(forms, env, fuel).1.stack.len() == 0,
        crate::run::spec_eval_forms(forms, env, fuel).1.frames.len() == env.frames.len(),
    decreases forms.len(),
{
    if forms.len() == 0 {
    } else {
        lemma_eval_preserves(forms[0], env, fuel);
        let out = spec_eval(forms[0], env, fuel);
        match out.r {
            Err(_) => {},
            Ok(_) => {
                lemma_program_stack_balance(forms.skip(1), out.env, fuel);
            },
        }
    }
}

// ---------------------------------------------------------------------
// Equality laws.
// ---------------------------------------------------------------------

/// Whether a tree holds no NaN number anywhere.
pub open spec fn atom_no_nan(a: AtomV) -> bool
    decreases atom_size(a), 0int,
{
    match a {
        AtomV::Num(n) => !is_nan_bits(n.bits),
        AtomV::Quote(e) => sexpr_no_nan(*e),
        _ => true,
    }
}

pub open spec fn sexpr_no_nan(e: SExprV) -> bool
    decreases sexpr_size(e), 1int,
{
    match e {
        SExprV::Atom(a) => atom_no_nan(a),
        SExprV::Cons(h, t) => atom_no_nan(*h) && atom_no_nan(*t),
    }
}

/// The language's equality is reflexive on every value that holds no
/// NaN number: numbers, strings, and structurally equal quotes all
/// equal themselves.  A NaN equals nothing, itself included.
pub proof fn lemma_eq_reflexive(a: AtomV)
    requires
        atom_no_nan(a),
    ensures
        atom_equal(a, a),
    decreases atom_size(a), 0int,
{
    match a {
        AtomV::Quote(e) => lemma_sexpr_eq_reflexive(*e),
        _ => {},
    }
}

pub proof fn lemma_sexpr_eq_reflexive(e: SExprV)
    requires
        sexpr_no_nan(e),
    ensures
        sexpr_equal(e, e),
    decreases sexpr_size(e), 1int,
{
    match e {
        SExprV::Atom(a) => lemma_eq_reflexive(a),
        SExprV::Cons(h, t) => {
            lemma_eq_reflexive(*h);
            lemma_eq_reflexive(*t);
        },
    }
}

/// The language's equality is symmetric.
pub proof fn lemma_eq_symmetric(a: AtomV, b: AtomV)
    ensures
        atom_equal(a, b) == atom_equal(b, a),
    decreases atom_size(a), 0int,
{
    match (a, b) {
        (AtomV::Quote(x), AtomV::Quote(y)) => lemma_sexpr_eq_symmetric(*x, *y),
        _ => {},
    }
}

pub proof fn lemma_sexpr_eq_symmetric(x: SExprV, y: SExprV)
    ensures
        sexpr_equal(x, y) == sexpr_equal(y, x),
    decreases sexpr_size(x), 1int,
{
    match (x, y) {
        (SExprV::Atom(a), SExprV::Atom(b)) => lemma_eq_symmetric(a, b),
        (SExprV::Cons(h1, t1), SExprV::Cons(h2, t2)) => {
            lemma_eq_symmetric(*h1, *h2);
            lemma_eq_symmetric(*t1, *t2);
        },
        _ => {},
    }
}

/// Two function values built independently are never equal, even from
/// identical source: each build draws a fresh identity, and equality
/// of functions goes by identity alone.  The counter never moves
/// backwards through any amount of evaluation in between.
pub proof fn lemma_function_identity(
    argsl1: AtomV,
    body1: AtomV,
    env1: EnvV,
    argsl2: AtomV,
    body2: AtomV,
    env2: EnvV,
)
    requires
        spec_make_fun(argsl1, body1, env1).r is Ok,
        spec_make_fun(argsl2, body2, env2).r is Ok,
        env2.next_fun_id >= spec_make_fun(argsl1, body1, env1).env.next_fun_id,
    ensures
        ({
            let f1 = spec_make_fun(argsl1, body1, env1).r->Ok_0;
            let f2 = spec_make_fun(argsl2, body2, env2).r->Ok_0;
            !atom_equal(f1, f2)
        }),
{
}

} // verus!
