//! The built-in routines.  Each pops its declared operand count of
//! still-quoted operands from the value stack, evaluates those it
//! treats as values, and is proved equal to its specification in
//! `semantics`.

use vstd::prelude::*;
use crate::ast::{Atom, AtomV, SExpr, SExprV, Function, FunDef, Text, ValueKind, LibFn, clone_text,
    atom_eq, sexpr_size};
use crate::error::RuntimeError;
use crate::evaluator::{Environment, env_with_next_id, env_with_stack, BindingV, evaluate,
    evaluate_element, norm_args};
use crate::num::{num_add, num_sub, num_mul, num_div, num_text};
use crate::render::render_atom;
use crate::semantics::{spec_let, spec_fn, spec_letfn, spec_make_fun, spec_cons, spec_car,
    spec_cdr, spec_eq, spec_arith, spec_print, spec_dbg, spec_if, spec_eval_builtin, param_names,
    res_matches, true_atom};

verus! {

/// The parameter names of a `fn` argument list, if it is well formed.
pub fn parse_params(e: &SExpr) -> (r: Option<Vec<Text>>)
    ensures
        match r {
            Some(v) => param_names(e@) == Some(v@.map_values(|t: Text| t@)),
            None => param_names(e@) is None,
        },
    decreases sexpr_size(e@),
{
    proof {
        reveal_with_fuel(crate::ast::sexpr_view, 3);
        reveal_with_fuel(crate::ast::atom_view, 3);
    }
    match e {
        SExpr::Atom(Atom::Nil) => {
            let names: Vec<Text> = Vec::new();
            proof {
                assert(names@.map_values(|t: Text| t@) =~= Seq::<Seq<char>>::empty());
            }
            Some(names)
        },
        SExpr::Cons(h, t) => match (h, t) {
            (Atom::Quote(hp), Atom::Quote(tp)) => match &**hp {
                SExpr::Atom(Atom::Ident(nm)) => match parse_params(tp) {
                    Some(rest) => {
                        let mut names = rest;
                        names.insert(0, clone_text(nm));
                        proof {
                            assert(names@.map_values(|t: Text| t@) =~= Seq::<Seq<char>>::empty()
                                .push(nm@) + names@.skip(1).map_values(|t: Text| t@));
                        }
                        Some(names)
                    },
                    None => None,
                },
                _ => None,
            },
            _ => None,
        },
        _ => None,
    }
}

/// Build a user-defined function value from a quoted parameter list
/// and a quoted body, drawing a fresh identity from the environment.
pub fn make_fun(argsl: Atom, body: Atom, env: &mut Environment) -> (r: Result<Atom, RuntimeError>)
    ensures
        ({
            let out = spec_make_fun(argsl@, body@, old(env)@);
            final(env)@ == out.env && res_matches(r, out.r)
        }),
{
    proof {
        reveal_with_fuel(crate::ast::atom_view, 2);
    }
    match argsl {
        Atom::Quote(al) => match parse_params(&al) {
            Some(names) => match body {
                Atom::Quote(b) => {
                    if env.next_fun_id == u64::MAX {
                        Err(RuntimeError::TooManyFunctions)
                    } else {
                        let id = env.next_fun_id;
                        env.next_fun_id = id + 1;
                        proof {
                            assert(env@ =~~= env_with_next_id(old(env)@, (id + 1) as u64));
                        }
                        Ok(
                            Atom::Function(
                                Box::new(
                                    Function {
                                        id,
                                        def: FunDef::UserDefined { arg_names: names, body: *b },
                                    },
                                ),
                            ),
                        )
                    }
                },
                other => Err(RuntimeError::NotQuoted(other.get_type())),
            },
            None => Err(RuntimeError::MalformedArgList),
        },
        _ => Err(RuntimeError::MalformedArgList),
    }
}

/// `let`: bind operand one, a quoted symbol taken as syntax, to the
/// evaluated operand two in the current scope; the value is returned.
pub fn let_impl(env: &mut Environment, fuel: u64) -> (r: Result<Atom, RuntimeError>)
    requires
        old(env)@.stack.len() >= 2,
        old(env)@.frames.len() >= 1,
    ensures
        ({
            let out = spec_let(old(env)@, fuel as nat);
            final(env)@ == out.env && res_matches(r, out.r)
        }),
    decreases fuel, 0int, 0int,
{
    let rawv = env.pop_stack();
    let namev = env.pop_stack();
    proof {
        reveal_with_fuel(crate::ast::sexpr_view, 2);
        reveal_with_fuel(crate::ast::atom_view, 3);
        assert(env@.stack =~= old(env)@.stack.take(old(env)@.stack.len() - 2));
    }
    match &namev {
        Atom::Quote(b) => match &**b {
            SExpr::Atom(Atom::Ident(nm)) => {
                if fuel == 0 {
                    return Err(RuntimeError::DepthLimit);
                }
                proof {
                    crate::semantics::lemma_element_preserves(rawv@, env@, (fuel - 1) as nat);
                }
                let val = match evaluate_element(&rawv, env, fuel - 1) {
                    Ok(v) => v,
                    Err(e) => {
                        return Err(e);
                    },
                };
                env.bind_var(clone_text(nm), val.deep_clone());
                proof {
                    assert(final(env)@ =~~= spec_let(old(env)@, fuel as nat).env);
                }
                Ok(val)
            },
            _ => Err(RuntimeError::NotASymbol(ValueKind::Quote)),
        },
        _ => Err(RuntimeError::NotASymbol(namev.get_type())),
    }
}

/// `fn`: build a function from a quoted parameter list and body, both
/// taken as syntax.
pub fn fn_impl(env: &mut Environment) -> (r: Result<Atom, RuntimeError>)
    requires
        old(env)@.stack.len() >= 2,
    ensures
        ({
            let out = spec_fn(old(env)@);
            final(env)@ == out.env && res_matches(r, out.r)
        }),
{
    let body = env.pop_stack();
    let argsl = env.pop_stack();
    proof {
        assert(env@.stack =~= old(env)@.stack.take(old(env)@.stack.len() - 2));
    }
    make_fun(argsl, body, env)
}

/// `letfn`: build a function from operands two and three and bind it
/// to operand one, a quoted symbol; the function is returned.
pub fn letfn_impl(env: &mut Environment) -> (r: Result<Atom, RuntimeError>)
    requires
        old(env)@.stack.len() >= 3,
        old(env)@.frames.len() >= 1,
    ensures
        ({
            let out = spec_letfn(old(env)@);
            final(env)@ == out.env && res_matches(r, out.r)
        }),
{
    let body = env.pop_stack();
    let argsl = env.pop_stack();
    let namev = env.pop_stack();
    proof {
        reveal_with_fuel(crate::ast::sexpr_view, 2);
        reveal_with_fuel(crate::ast::atom_view, 3);
        assert(env@.stack =~= old(env)@.stack.take(old(env)@.stack.len() - 3));
    }
    let built = make_fun(argsl, body, env);
    match built {
        Err(e) => Err(e),
        Ok(f) => match &namev {
            Atom::Quote(b) => match &**b {
                SExpr::Atom(Atom::Ident(nm)) => {
                    env.bind_var(clone_text(nm), f.deep_clone());
                    proof {
                        assert(final(env)@ =~~= spec_letfn(old(env)@).env);
                    }
                    Ok(f)
                },
                _ => Err(RuntimeError::NotASymbol(ValueKind::Quote)),
            },
            _ => Err(RuntimeError::NotASymbol(namev.get_type())),
        },
    }
}

/// `if`: operands two and three must be quoted and are taken as
/// syntax; the evaluated condition picks which one's expression is
/// evaluated and returned.
pub fn if_impl(env: &mut Environment, fuel: u64) -> (r: Result<Atom, RuntimeError>)
    requires
        old(env)@.stack.len() >= 3,
        old(env)@.frames.len() >= 1,
    ensures
        ({
            let out = spec_if(old(env)@, fuel as nat);
            final(env)@ == out.env && res_matches(r, out.r)
        }),
    decreases fuel, 0int, 0int,
{
    let else_b = env.pop_stack();
    let then_b = env.pop_stack();
    let cond = env.pop_stack();
    proof {
        reveal_with_fuel(crate::ast::atom_view, 2);
        assert(env@.stack =~= old(env)@.stack.take(old(env)@.stack.len() - 3));
    }
    let tb = match then_b {
        Atom::Quote(tb) => tb,
        other => {
            return Err(RuntimeError::NotQuoted(other.get_type()));
        },
    };
    let eb = match else_b {
        Atom::Quote(eb) => eb,
        other => {
            return Err(RuntimeError::NotQuoted(other.get_type()));
        },
    };
    if fuel == 0 {
        return Err(RuntimeError::DepthLimit);
    }
    proof {
        crate::semantics::lemma_element_preserves(cond@, env@, (fuel - 1) as nat);
    }
    let cv = match evaluate_element(&cond, env, fuel - 1) {
        Ok(v) => v,
        Err(e) => {
            return Err(e);
        },
    };
    if let Atom::Nil = cv {
        evaluate(&eb, env, fuel - 1)
    } else {
        evaluate(&tb, env, fuel - 1)
    }
}

/// `eval`: evaluate the operand into a value, which must be a quoted
/// expression, then evaluate that expression as code.
pub fn eval_impl(env: &mut Environment, fuel: u64) -> (r: Result<Atom, RuntimeError>)
    requires
        old(env)@.stack.len() >= 1,
        old(env)@.frames.len() >= 1,
    ensures
        ({
            let out = spec_eval_builtin(old(env)@, fuel as nat);
            final(env)@ == out.env && res_matches(r, out.r)
        }),
    decreases fuel, 0int, 0int,
{
    let raw = env.pop_stack();
    proof {
        reveal_with_fuel(crate::ast::atom_view, 2);
    }
    if fuel == 0 {
        return Err(RuntimeError::DepthLimit);
    }
    proof {
        crate::semantics::lemma_element_preserves(raw@, env@, (fuel - 1) as nat);
    }
    let v = match evaluate_element(&raw, env, fuel - 1) {
        Ok(v) => v,
        Err(e) => {
            return Err(e);
        },
    };
    match v {
        Atom::Quote(p) => evaluate(&p, env, fuel - 1),
        other => Err(RuntimeError::NotQuoted(other.get_type())),
    }
}

/// Pop the two operands of a binary routine, newest first.
fn pop_two(env: &mut Environment) -> (r: Vec<Atom>)
    requires
        old(env)@.stack.len() >= 2,
    ensures
        final(env)@ == env_with_stack(old(env)@, old(env)@.stack.take(old(env)@.stack.len() - 2)),
        r@.map_values(|x: Atom| x@) == old(env)@.stack.skip(old(env)@.stack.len() - 2),
{
    let at = env.stack.len() - 2;
    let r = env.stack.split_off(at);
    proof {
        assert(env@ =~~= env_with_stack(old(env)@, old(env)@.stack.take(old(env)@.stack.len()
            - 2)));
        assert(r@.map_values(|x: Atom| x@) =~= old(env)@.stack.skip(old(env)@.stack.len() - 2));
    }
    r
}

/// `cons`: build a quoted cons pair of the two evaluated operands.
pub fn cons_impl(env: &mut Environment, fuel: u64) -> (r: Result<Atom, RuntimeError>)
    requires
        old(env)@.stack.len() >= 2,
        old(env)@.frames.len() >= 1,
    ensures
        ({
            let out = spec_cons(old(env)@, fuel as nat);
            final(env)@ == out.env && res_matches(r, out.r)
        }),
    decreases fuel, 0int, 0int,
{
    let raw = pop_two(env);
    if fuel == 0 {
        return Err(RuntimeError::DepthLimit);
    }
    proof {
        crate::semantics::lemma_norm_args_len(
            raw@.map_values(|x: Atom| x@),
            env@,
            (fuel - 1) as nat,
        );
    }
    let mut vs = match norm_args(&raw, env, fuel - 1) {
        Ok(v) => v,
        Err(e) => {
            return Err(e);
        },
    };
    let tail = vs.pop().unwrap();
    let head = vs.pop().unwrap();
    Ok(Atom::Quote(Box::new(SExpr::Cons(head, tail))))
}

/// `car`: the head of the evaluated operand, a quoted cons.
pub fn car_impl(env: &mut Environment, fuel: u64) -> (r: Result<Atom, RuntimeError>)
    requires
        old(env)@.stack.len() >= 1,
        old(env)@.frames.len() >= 1,
    ensures
        ({
            let out = spec_car(old(env)@, fuel as nat);
            final(env)@ == out.env && res_matches(r, out.r)
        }),
    decreases fuel, 0int, 0int,
{
    let raw = env.pop_stack();
    proof {
        reveal_with_fuel(crate::ast::sexpr_view, 2);
        reveal_with_fuel(crate::ast::atom_view, 2);
    }
    if fuel == 0 {
        return Err(RuntimeError::DepthLimit);
    }
    let v = match evaluate_element(&raw, env, fuel - 1) {
        Ok(v) => v,
        Err(e) => {
            return Err(e);
        },
    };
    match v {
        Atom::Quote(c) => match *c {
            SExpr::Cons(h, _) => Ok(h),
            _ => Err(RuntimeError::NotACons(ValueKind::Quote)),
        },
        other => Err(RuntimeError::NotACons(other.get_type())),
    }
}

/// `cdr`: the tail of the evaluated operand, a quoted cons.
pub fn cdr_impl(env: &mut Environment, fuel: u64) -> (r: Result<Atom, RuntimeError>)
    requires
        old(env)@.stack.len() >= 1,
        old(env)@.frames.len() >= 1,
    ensures
        ({
            let out = spec_cdr(old(env)@, fuel as nat);
            final(env)@ == out.env && res_matches(r, out.r)
        }),
    decreases fuel, 0int, 0int,
{
    let raw = env.pop_stack();
    proof {
        reveal_with_fuel(crate::ast::sexpr_view, 2);
        reveal_with_fuel(crate::ast::atom_view, 2);
    }
    if fuel == 0 {
        return Err(RuntimeError::DepthLimit);
    }
    let v = match evaluate_element(&raw, env, fuel - 1) {
        Ok(v) => v,
        Err(e) => {
            return Err(e);
        },
    };
    match v {
        Atom::Quote(c) => match *c {
            SExpr::Cons(_, t) => Ok(t),
            _ => Err(RuntimeError::NotACons(ValueKind::Quote)),
        },
        other => Err(RuntimeError::NotACons(other.get_type())),
    }
}

/// `eq`: the canonical true symbol if the evaluated operands are
/// equal per the language's equality, else nil.
pub fn eq(env: &mut Environment, fuel: u64) -> (r: Result<Atom, RuntimeError>)
    requires
        old(env)@.stack.len() >= 2,
        old(env)@.frames.len() >= 1,
    ensures
        ({
            let out = spec_eq(old(env)@, fuel as nat);
            final(env)@ == out.env && res_matches(r, out.r)
        }),
    decreases fuel, 0int, 0int,
{
    let raw = pop_two(env);
    if fuel == 0 {
        return Err(RuntimeError::DepthLimit);
    }
    proof {
        crate::semantics::lemma_norm_args_len(
            raw@.map_values(|x: Atom| x@),
            env@,
            (fuel - 1) as nat,
        );
    }
    let vs = match norm_args(&raw, env, fuel - 1) {
        Ok(v) => v,
        Err(e) => {
            return Err(e);
        },
    };
    if atom_eq(&vs[0], &vs[1]) {
        let mut name: Text = Vec::new();
        name.push('t');
        proof {
            assert(name@ =~= seq!['t']);
        }
        let t = Atom::Quote(Box::new(SExpr::Atom(Atom::Ident(name))));
        proof {
            reveal_with_fuel(crate::ast::sexpr_view, 2);
            reveal_with_fuel(crate::ast::atom_view, 3);
            assert(t@ == true_atom());
        }
        Ok(t)
    } else {
        Ok(Atom::Nil)
    }
}

/// One of the four arithmetic built-ins; both evaluated operands must
/// be numbers.
pub fn arith_impl(which: LibFn, env: &mut Environment, fuel: u64) -> (r: Result<
    Atom,
    RuntimeError,
>)
    requires
        old(env)@.stack.len() >= 2,
        old(env)@.frames.len() >= 1,
    ensures
        ({
            let out = spec_arith(which, old(env)@, fuel as nat);
            final(env)@ == out.env && res_matches(r, out.r)
        }),
    decreases fuel, 0int, 0int,
{
    let raw = pop_two(env);
    if fuel == 0 {
        return Err(RuntimeError::DepthLimit);
    }
    proof {
        crate::semantics::lemma_norm_args_len(
            raw@.map_values(|x: Atom| x@),
            env@,
            (fuel - 1) as nat,
        );
    }
    let vs = match norm_args(&raw, env, fuel - 1) {
        Ok(v) => v,
        Err(e) => {
            return Err(e);
        },
    };
    match (&vs[0], &vs[1]) {
        (Atom::Num(a), Atom::Num(b)) => {
            let bits = match which {
                LibFn::Sub => num_sub(a.bits, b.bits),
                LibFn::Mul => num_mul(a.bits, b.bits),
                LibFn::Div => num_div(a.bits, b.bits),
                _ => num_add(a.bits, b.bits),
            };
            let text = num_text(bits);
            Ok(Atom::Num(crate::ast::Number { bits, text }))
        },
        _ => Err(
            RuntimeError::NotANumber { op: which, lhs: vs[0].get_type(), rhs: vs[1].get_type() },
        ),
    }
}

/// `+`.
pub fn add(env: &mut Environment, fuel: u64) -> (r: Result<Atom, RuntimeError>)
    requires
        old(env)@.stack.len() >= 2,
        old(env)@.frames.len() >= 1,
    ensures
        ({
            let out = spec_arith(LibFn::Add, old(env)@, fuel as nat);
            final(env)@ == out.env && res_matches(r, out.r)
        }),
    decreases fuel, 0int, 1int,
{
    arith_impl(LibFn::Add, env, fuel)
}

/// `-`.
pub fn sub(env: &mut Environment, fuel: u64) -> (r: Result<Atom, RuntimeError>)
    requires
        old(env)@.stack.len() >= 2,
        old(env)@.frames.len() >= 1,
    ensures
        ({
            let out = spec_arith(LibFn::Sub, old(env)@, fuel as nat);
            final(env)@ == out.env && res_matches(r, out.r)
        }),
    decreases fuel, 0int, 1int,
{
    arith_impl(LibFn::Sub, env, fuel)
}

/// `*`.
pub fn mul(env: &mut Environment, fuel: u64) -> (r: Result<Atom, RuntimeError>)
    requires
        old(env)@.stack.len() >= 2,
        old(env)@.frames.len() >= 1,
    ensures
        ({
            let out = spec_arith(LibFn::Mul, old(env)@, fuel as nat);
            final(env)@ == out.env && res_matches(r, out.r)
        }),
    decreases fuel, 0int, 1int,
{
    arith_impl(LibFn::Mul, env, fuel)
}

/// `/`.
pub fn div(env: &mut Environment, fuel: u64) -> (r: Result<Atom, RuntimeError>)
    requires
        old(env)@.stack.len() >= 2,
        old(env)@.frames.len() >= 1,
    ensures
        ({
            let out = spec_arith(LibFn::Div, old(env)@, fuel as nat);
            final(env)@ == out.env && res_matches(r, out.r)
        }),
    decreases fuel, 0int, 1int,
{
    arith_impl(LibFn::Div, env, fuel)
}

/// `print`: buffer the rendered evaluated operand as one output
/// line; nil.
pub fn print_impl(env: &mut Environment, fuel: u64) -> (r: Result<Atom, RuntimeError>)
    requires
        old(env)@.stack.len() >= 1,
        old(env)@.frames.len() >= 1,
    ensures
        ({
            let out = spec_print(old(env)@, fuel as nat);
            final(env)@ == out.env && res_matches(r, out.r)
        }),
    decreases fuel, 0int, 0int,
{
    let raw = env.pop_stack();
    if fuel == 0 {
        return Err(RuntimeError::DepthLimit);
    }
    let v = match evaluate_element(&raw, env, fuel - 1) {
        Ok(v) => v,
        Err(e) => {
            return Err(e);
        },
    };
    let line = render_atom(&v);
    env.out.push(line);
    proof {
        assert(final(env)@ =~~= spec_print(old(env)@, fuel as nat).env);
    }
    Ok(Atom::Nil)
}

/// `dbg`: buffer the rendered evaluated operand as one diagnostic
/// line; nil.
pub fn dbg_impl(env: &mut Environment, fuel: u64) -> (r: Result<Atom, RuntimeError>)
    requires
        old(env)@.stack.len() >= 1,
        old(env)@.frames.len() >= 1,
    ensures
        ({
            let out = spec_dbg(old(env)@, fuel as nat);
            final(env)@ == out.env && res_matches(r, out.r)
        }),
    decreases fuel, 0int, 0int,
{
    let raw = env.pop_stack();
    if fuel == 0 {
        return Err(RuntimeError::DepthLimit);
    }
    let v = match evaluate_element(&raw, env, fuel - 1) {
        Ok(v) => v,
        Err(e) => {
            return Err(e);
        },
    };
    let line = render_atom(&v);
    env.diag.push(line);
    proof {
        assert(final(env)@ =~~= spec_dbg(old(env)@, fuel as nat).env);
    }
    Ok(Atom::Nil)
}

} // verus!
