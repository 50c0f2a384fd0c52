//! The meaning of evaluation, as a specification-level interpreter.
//! The executable evaluator is proved equal to these functions.

use vstd::prelude::*;
use crate::ast::{AtomV, SExprV, FunctionV, FunDefV, LibFn, atom_size, sexpr_size, atom_kind,
    atom_equal, fun_arity, lib_arity, ValueKind};
use crate::error::{ErrV, FunDescV, RuntimeError};
use crate::ast::Atom;
use crate::evaluator::{EnvV, BindingV, env_lookup, env_with_frames, env_with_stack,
    env_with_out_line, env_with_diag_line, env_with_next_id};
use crate::num::{dbl_add, dbl_sub, dbl_mul, dbl_div, text_of_dbl};
use crate::render::spec_render_atom;
use crate::ast::NumberV;

verus! {

/// The outcome of evaluating one expression: a value or an error, and
/// the environment as evaluation left it.
#[verifier::ext_equal]
pub struct EvalOut {
    pub r: Result<AtomV, ErrV>,
    pub env: EnvV,
}

/// The outcome of normalizing popped operands into values.
#[verifier::ext_equal]
pub struct ArgsOut {
    pub r: Result<Seq<AtomV>, ErrV>,
    pub env: EnvV,
}

/// Whether an executable result agrees with a specification result.
pub open spec fn res_matches(r: Result<Atom, RuntimeError>, s: Result<AtomV, ErrV>) -> bool {
    match (r, s) {
        (Ok(a), Ok(v)) => a@ == v,
        (Err(e), Err(ev)) => e@ == ev,
        _ => false,
    }
}

/// The canonical true symbol, as returned by `eq`.
pub open spec fn true_atom() -> AtomV {
    AtomV::Quote(Box::new(SExprV::Atom(AtomV::Ident(seq!['t']))))
}

/// How an arity error cites the offending function.
pub open spec fn fun_desc_of(f: FunctionV) -> FunDescV {
    match f.def {
        FunDefV::UserDefined { .. } => FunDescV::User,
        FunDefV::Lib { name, .. } => FunDescV::Lib(name),
    }
}

/// The parameter names of a `fn` argument list: a quote-wrapped chain
/// whose every element is a quoted symbol.
pub open spec fn param_names(e: SExprV) -> Option<Seq<Seq<char>>>
    decreases sexpr_size(e),
{
    match e {
        SExprV::Atom(AtomV::Nil) => Some(Seq::empty()),
        SExprV::Cons(h, t) => match (*h, *t) {
            (AtomV::Quote(hp), AtomV::Quote(tp)) => match *hp {
                SExprV::Atom(AtomV::Ident(nm)) => match param_names(*tp) {
                    Some(rest) => Some(Seq::empty().push(nm) + rest),
                    None => None,
                },
                _ => None,
            },
            _ => None,
        },
        _ => None,
    }
}

/// A frame extended with parameters bound to operands, in order.
pub open spec fn frame_bind_all(
    f: Seq<BindingV>,
    names: Seq<Seq<char>>,
    args: Seq<AtomV>,
) -> Seq<BindingV>
    decreases names.len(),
{
    if names.len() == 0 || args.len() == 0 {
        f
    } else {
        frame_bind_all(
            f.push(BindingV { name: names[0], val: args[0] }),
            names.skip(1),
            args.skip(1),
        )
    }
}

/// The arithmetic result of one of the four numeric built-ins.
pub open spec fn dbl_op(which: LibFn, a: u64, b: u64) -> u64 {
    match which {
        LibFn::Sub => dbl_sub(a, b),
        LibFn::Mul => dbl_mul(a, b),
        LibFn::Div => dbl_div(a, b),
        _ => dbl_add(a, b),
    }
}

/// Evaluate one atom as an expression, without touching the
/// environment: a symbol resolves through the frames; a quote, like
/// every other atom, evaluates to itself.  An operand the parser
/// quote-wrapped therefore reaches the invoked routine still quoted.
pub open spec fn spec_eval_atom(a: AtomV, env: EnvV) -> Result<AtomV, ErrV> {
    match a {
        AtomV::Ident(name) => match env_lookup(env.frames, name) {
            Some(v) => Ok(v),
            None => Err(ErrV::UnboundName(name)),
        },
        _ => Ok(a),
    }
}

/// Evaluate one expression.  Atoms evaluate as above; a cons is an
/// application: the operand chain is evaluated (each element to
/// itself, still quoted), then the head, which must be a function of
/// matching arity, and the function is applied with the operands on
/// the value stack.
pub open spec fn spec_eval(e: SExprV, env: EnvV, fuel: nat) -> EvalOut
    decreases fuel, sexpr_size(e), 1int,
{
    match e {
        SExprV::Atom(a) => match spec_eval_atom(a, env) {
            Ok(v) => EvalOut { r: Ok(v), env },
            Err(err) => EvalOut { r: Err(err), env },
        },
        SExprV::Cons(f, t) => {
            match spec_eval_args(*t, env) {
                Err(err) => EvalOut { r: Err(err), env },
                Ok(args) => {
                    let fout = spec_eval_element(*f, env, fuel);
                    match fout.r {
                        Err(err) => EvalOut { r: Err(err), env: fout.env },
                        Ok(fv) => match fv {
                            AtomV::Function(fun) => if fun_arity(*fun) == args.len() {
                                spec_call(
                                    *fun,
                                    env_with_stack(fout.env, fout.env.stack + args),
                                    fuel,
                                )
                            } else {
                                EvalOut {
                                    r: Err(
                                        ErrV::ArityMismatch {
                                            expected: fun_arity(*fun),
                                            got: args.len() as usize,
                                            fun: fun_desc_of(*fun),
                                        },
                                    ),
                                    env: fout.env,
                                }
                            },
                            other => EvalOut {
                                r: Err(ErrV::NotAFunction(atom_kind(other))),
                                env: fout.env,
                            },
                        },
                    }
                },
            }
        },
    }
}

/// Evaluate the head of an application, or normalize one popped
/// operand into a value: the quote the parser wraps around each
/// element marks the expression to evaluate.
pub open spec fn spec_eval_element(a: AtomV, env: EnvV, fuel: nat) -> EvalOut
    decreases fuel, atom_size(a), 1int,
{
    match a {
        AtomV::Quote(p) => spec_eval(*p, env, fuel),
        AtomV::Ident(name) => match env_lookup(env.frames, name) {
            Some(v) => EvalOut { r: Ok(v), env },
            None => EvalOut { r: Err(ErrV::UnboundName(name)), env },
        },
        _ => EvalOut { r: Ok(a), env },
    }
}

/// Evaluate an operand chain, in order, collecting the still-quoted
/// operands.  The environment is not touched: real evaluation of an
/// operand happens in the routine that receives it.
pub open spec fn spec_eval_args(t: AtomV, env: EnvV) -> Result<Seq<AtomV>, ErrV>
    decreases atom_size(t),
{
    match t {
        AtomV::Quote(inner) => match *inner {
            SExprV::Atom(AtomV::Nil) => Ok(Seq::empty()),
            SExprV::Cons(h, t2) => match spec_eval_atom(*h, env) {
                Err(err) => Err(err),
                Ok(v) => match spec_eval_args(*t2, env) {
                    Err(err) => Err(err),
                    Ok(vs) => Ok(Seq::empty().push(v) + vs),
                },
            },
            _ => Err(ErrV::MalformedApplication),
        },
        _ => Err(ErrV::MalformedApplication),
    }
}

/// The combined size of a sequence of atoms.
pub open spec fn atoms_size(s: Seq<AtomV>) -> nat
    decreases s.len(),
{
    if s.len() == 0 {
        0
    } else {
        1 + atom_size(s[0]) + atoms_size(s.skip(1))
    }
}

/// Normalize popped operands into values, left to right, threading
/// the environment through each evaluation.
pub open spec fn spec_norm_args(raw: Seq<AtomV>, env: EnvV, fuel: nat) -> ArgsOut
    decreases fuel, atoms_size(raw), 2int,
{
    if raw.len() == 0 {
        ArgsOut { r: Ok(Seq::empty()), env }
    } else {
        let hout = spec_eval_element(raw[0], env, fuel);
        match hout.r {
            Err(err) => ArgsOut { r: Err(err), env: hout.env },
            Ok(v) => {
                let rout = spec_norm_args(raw.skip(1), hout.env, fuel);
                match rout.r {
                    Err(err) => ArgsOut { r: Err(err), env: rout.env },
                    Ok(vs) => ArgsOut { r: Ok(Seq::empty().push(v) + vs), env: rout.env },
                }
            },
        }
    }
}

/// Apply a function whose still-quoted operands sit on top of the
/// value stack: the caller pushed exactly `fun_arity` of them, the
/// callee pops them and evaluates those it treats as values.
pub open spec fn spec_call(fun: FunctionV, env: EnvV, fuel: nat) -> EvalOut
    decreases fuel, 0int, 1int,
{
    let n = fun_arity(fun) as int;
    if env.stack.len() < n {
        EvalOut { r: Err(ErrV::MalformedApplication), env }
    } else {
        match fun.def {
            FunDefV::UserDefined { arg_names, body } => {
                let raw = env.stack.skip(env.stack.len() - n);
                let env1 = env_with_stack(env, env.stack.take(env.stack.len() - n));
                if fuel == 0 {
                    EvalOut { r: Err(ErrV::DepthLimit), env: env1 }
                } else {
                    let nout = spec_norm_args(raw, env1, (fuel - 1) as nat);
                    match nout.r {
                        Err(err) => EvalOut { r: Err(err), env: nout.env },
                        Ok(args) => {
                            let frame = frame_bind_all(Seq::empty(), arg_names, args);
                            let benv = env_with_frames(nout.env, nout.env.frames.push(frame));
                            let bout = spec_eval(body, benv, (fuel - 1) as nat);
                            EvalOut {
                                r: bout.r,
                                env: env_with_frames(bout.env, bout.env.frames.drop_last()),
                            }
                        },
                    }
                }
            },
            FunDefV::Lib { which, .. } => match which {
                LibFn::Let => spec_let(env, fuel),
                LibFn::Fn => spec_fn(env),
                LibFn::LetFn => spec_letfn(env),
                LibFn::If => spec_if(env, fuel),
                LibFn::Eval => spec_eval_builtin(env, fuel),
                LibFn::Cons => spec_cons(env, fuel),
                LibFn::Car => spec_car(env, fuel),
                LibFn::Cdr => spec_cdr(env, fuel),
                LibFn::Eq => spec_eq(env, fuel),
                LibFn::Add => spec_arith(LibFn::Add, env, fuel),
                LibFn::Sub => spec_arith(LibFn::Sub, env, fuel),
                LibFn::Mul => spec_arith(LibFn::Mul, env, fuel),
                LibFn::Div => spec_arith(LibFn::Div, env, fuel),
                LibFn::Print => spec_print(env, fuel),
                LibFn::Dbg => spec_dbg(env, fuel),
            },
        }
    }
}

/// `let`: bind operand one, a quoted symbol taken as syntax, to the
/// evaluated operand two in the current scope; the value is returned.
pub open spec fn spec_let(env: EnvV, fuel: nat) -> EvalOut
    decreases fuel, 0int, 0int,
{
    if env.stack.len() < 2 || env.frames.len() < 1 {
        EvalOut { r: Err(ErrV::MalformedApplication), env }
    } else {
        let rawv = env.stack.last();
        let namev = env.stack[env.stack.len() - 2];
        let env1 = env_with_stack(env, env.stack.take(env.stack.len() - 2));
        match namev {
            AtomV::Quote(b) => match *b {
                SExprV::Atom(AtomV::Ident(nm)) => if fuel == 0 {
                    EvalOut { r: Err(ErrV::DepthLimit), env: env1 }
                } else {
                    let vout = spec_eval_element(rawv, env1, (fuel - 1) as nat);
                    match vout.r {
                        Err(err) => EvalOut { r: Err(err), env: vout.env },
                        Ok(v) => {
                            let env2 = env_with_frames(
                                vout.env,
                                vout.env.frames.update(
                                    vout.env.frames.len() - 1,
                                    vout.env.frames.last().push(BindingV { name: nm, val: v }),
                                ),
                            );
                            EvalOut { r: Ok(v), env: env2 }
                        },
                    }
                },
                _ => EvalOut { r: Err(ErrV::NotASymbol(ValueKind::Quote)), env: env1 },
            },
            _ => EvalOut { r: Err(ErrV::NotASymbol(atom_kind(namev))), env: env1 },
        }
    }
}

/// The function value `fn` builds from a quoted parameter list and a
/// quoted body, with a fresh identity, or the error it fails with.
pub open spec fn spec_make_fun(argsl: AtomV, body: AtomV, env: EnvV) -> EvalOut {
    match argsl {
        AtomV::Quote(al) => match param_names(*al) {
            Some(names) => match body {
                AtomV::Quote(b) => if env.next_fun_id == u64::MAX {
                    EvalOut { r: Err(ErrV::TooManyFunctions), env }
                } else {
                    let f = FunctionV {
                        id: env.next_fun_id,
                        def: FunDefV::UserDefined { arg_names: names, body: *b },
                    };
                    EvalOut {
                        r: Ok(AtomV::Function(Box::new(f))),
                        env: env_with_next_id(env, (env.next_fun_id + 1) as u64),
                    }
                },
                _ => EvalOut { r: Err(ErrV::NotQuoted(atom_kind(body))), env },
            },
            None => EvalOut { r: Err(ErrV::MalformedArgList), env },
        },
        _ => EvalOut { r: Err(ErrV::MalformedArgList), env },
    }
}

/// `fn`: build a user-defined function from a quoted parameter list
/// and a quoted body.
pub open spec fn spec_fn(env: EnvV) -> EvalOut {
    if env.stack.len() < 2 {
        EvalOut { r: Err(ErrV::MalformedApplication), env }
    } else {
        let body = env.stack.last();
        let argsl = env.stack[env.stack.len() - 2];
        let env1 = env_with_stack(env, env.stack.take(env.stack.len() - 2));
        spec_make_fun(argsl, body, env1)
    }
}

/// `letfn`: build a function from operands two and three and bind it
/// to the quoted symbol given as operand one.
pub open spec fn spec_letfn(env: EnvV) -> EvalOut {
    if env.stack.len() < 3 || env.frames.len() < 1 {
        EvalOut { r: Err(ErrV::MalformedApplication), env }
    } else {
        let body = env.stack.last();
        let argsl = env.stack[env.stack.len() - 2];
        let namev = env.stack[env.stack.len() - 3];
        let env1 = env_with_stack(env, env.stack.take(env.stack.len() - 3));
        let built = spec_make_fun(argsl, body, env1);
        match built.r {
            Err(err) => EvalOut { r: Err(err), env: built.env },
            Ok(f) => match namev {
                AtomV::Quote(b) => match *b {
                    SExprV::Atom(AtomV::Ident(nm)) => {
                        let env2 = env_with_frames(
                            built.env,
                            built.env.frames.update(
                                built.env.frames.len() - 1,
                                built.env.frames.last().push(BindingV { name: nm, val: f }),
                            ),
                        );
                        EvalOut { r: Ok(f), env: env2 }
                    },
                    _ => EvalOut { r: Err(ErrV::NotASymbol(ValueKind::Quote)), env: built.env },
                },
                _ => EvalOut { r: Err(ErrV::NotASymbol(atom_kind(namev))), env: built.env },
            },
        }
    }
}

/// `if`: operands two and three must be quoted and are taken as
/// syntax; the condition is evaluated, and the third operand's
/// expression is evaluated and returned if it was nil, else the
/// second's.
pub open spec fn spec_if(env: EnvV, fuel: nat) -> EvalOut
    decreases fuel, 0int, 0int,
{
    if env.stack.len() < 3 {
        EvalOut { r: Err(ErrV::MalformedApplication), env }
    } else {
        let else_b = env.stack.last();
        let then_b = env.stack[env.stack.len() - 2];
        let cond = env.stack[env.stack.len() - 3];
        let env1 = env_with_stack(env, env.stack.take(env.stack.len() - 3));
        match then_b {
            AtomV::Quote(tb) => match else_b {
                AtomV::Quote(eb) => if fuel == 0 {
                    EvalOut { r: Err(ErrV::DepthLimit), env: env1 }
                } else {
                    let cout = spec_eval_element(cond, env1, (fuel - 1) as nat);
                    match cout.r {
                        Err(err) => EvalOut { r: Err(err), env: cout.env },
                        Ok(cv) => if cv is Nil {
                            spec_eval(*eb, cout.env, (fuel - 1) as nat)
                        } else {
                            spec_eval(*tb, cout.env, (fuel - 1) as nat)
                        },
                    }
                },
                _ => EvalOut { r: Err(ErrV::NotQuoted(atom_kind(else_b))), env: env1 },
            },
            _ => EvalOut { r: Err(ErrV::NotQuoted(atom_kind(then_b))), env: env1 },
        }
    }
}

/// `eval`: evaluate the operand into a value, which must be a quoted
/// expression, then evaluate that expression as code.
pub open spec fn spec_eval_builtin(env: EnvV, fuel: nat) -> EvalOut
    decreases fuel, 0int, 0int,
{
    if env.stack.len() < 1 {
        EvalOut { r: Err(ErrV::MalformedApplication), env }
    } else {
        let raw = env.stack.last();
        let env1 = env_with_stack(env, env.stack.drop_last());
        if fuel == 0 {
            EvalOut { r: Err(ErrV::DepthLimit), env: env1 }
        } else {
            let vout = spec_eval_element(raw, env1, (fuel - 1) as nat);
            match vout.r {
                Err(err) => EvalOut { r: Err(err), env: vout.env },
                Ok(v) => match v {
                    AtomV::Quote(p) => spec_eval(*p, vout.env, (fuel - 1) as nat),
                    _ => EvalOut { r: Err(ErrV::NotQuoted(atom_kind(v))), env: vout.env },
                },
            }
        }
    }
}

/// `cons`: build a quoted cons pair of the two evaluated operands.
pub open spec fn spec_cons(env: EnvV, fuel: nat) -> EvalOut
    decreases fuel, 0int, 0int,
{
    if env.stack.len() < 2 {
        EvalOut { r: Err(ErrV::MalformedApplication), env }
    } else {
        let env1 = env_with_stack(env, env.stack.take(env.stack.len() - 2));
        if fuel == 0 {
            EvalOut { r: Err(ErrV::DepthLimit), env: env1 }
        } else {
            let nout = spec_norm_args(env.stack.skip(env.stack.len() - 2), env1, (fuel - 1) as nat);
            match nout.r {
                Err(err) => EvalOut { r: Err(err), env: nout.env },
                Ok(vs) => EvalOut {
                    r: Ok(AtomV::Quote(Box::new(SExprV::Cons(Box::new(vs[0]), Box::new(vs[1]))))),
                    env: nout.env,
                },
            }
        }
    }
}

/// `car`: the head of the evaluated operand, a quoted cons.
pub open spec fn spec_car(env: EnvV, fuel: nat) -> EvalOut
    decreases fuel, 0int, 0int,
{
    if env.stack.len() < 1 {
        EvalOut { r: Err(ErrV::MalformedApplication), env }
    } else {
        let raw = env.stack.last();
        let env1 = env_with_stack(env, env.stack.drop_last());
        if fuel == 0 {
            EvalOut { r: Err(ErrV::DepthLimit), env: env1 }
        } else {
            let vout = spec_eval_element(raw, env1, (fuel - 1) as nat);
            match vout.r {
                Err(err) => EvalOut { r: Err(err), env: vout.env },
                Ok(v) => match v {
                    AtomV::Quote(c) => match *c {
                        SExprV::Cons(h, _) => EvalOut { r: Ok(*h), env: vout.env },
                        _ => EvalOut { r: Err(ErrV::NotACons(ValueKind::Quote)), env: vout.env },
                    },
                    _ => EvalOut { r: Err(ErrV::NotACons(atom_kind(v))), env: vout.env },
                },
            }
        }
    }
}

/// `cdr`: the tail of the evaluated operand, a quoted cons.
pub open spec fn spec_cdr(env: EnvV, fuel: nat) -> EvalOut
    decreases fuel, 0int, 0int,
{
    if env.stack.len() < 1 {
        EvalOut { r: Err(ErrV::MalformedApplication), env }
    } else {
        let raw = env.stack.last();
        let env1 = env_with_stack(env, env.stack.drop_last());
        if fuel == 0 {
            EvalOut { r: Err(ErrV::DepthLimit), env: env1 }
        } else {
            let vout = spec_eval_element(raw, env1, (fuel - 1) as nat);
            match vout.r {
                Err(err) => EvalOut { r: Err(err), env: vout.env },
                Ok(v) => match v {
                    AtomV::Quote(c) => match *c {
                        SExprV::Cons(_, t) => EvalOut { r: Ok(*t), env: vout.env },
                        _ => EvalOut { r: Err(ErrV::NotACons(ValueKind::Quote)), env: vout.env },
                    },
                    _ => EvalOut { r: Err(ErrV::NotACons(atom_kind(v))), env: vout.env },
                },
            }
        }
    }
}

/// `eq`: the canonical true symbol if the evaluated operands are
/// equal per the language's equality, else nil.
pub open spec fn spec_eq(env: EnvV, fuel: nat) -> EvalOut
    decreases fuel, 0int, 0int,
{
    if env.stack.len() < 2 {
        EvalOut { r: Err(ErrV::MalformedApplication), env }
    } else {
        let env1 = env_with_stack(env, env.stack.take(env.stack.len() - 2));
        if fuel == 0 {
            EvalOut { r: Err(ErrV::DepthLimit), env: env1 }
        } else {
            let nout = spec_norm_args(env.stack.skip(env.stack.len() - 2), env1, (fuel - 1) as nat);
            match nout.r {
                Err(err) => EvalOut { r: Err(err), env: nout.env },
                Ok(vs) => {
                    let v = if atom_equal(vs[0], vs[1]) {
                        true_atom()
                    } else {
                        AtomV::Nil
                    };
                    EvalOut { r: Ok(v), env: nout.env }
                },
            }
        }
    }
}

/// Arithmetic: both evaluated operands must be numbers.
pub open spec fn spec_arith(which: LibFn, env: EnvV, fuel: nat) -> EvalOut
    decreases fuel, 0int, 0int,
{
    if env.stack.len() < 2 {
        EvalOut { r: Err(ErrV::MalformedApplication), env }
    } else {
        let env1 = env_with_stack(env, env.stack.take(env.stack.len() - 2));
        if fuel == 0 {
            EvalOut { r: Err(ErrV::DepthLimit), env: env1 }
        } else {
            let nout = spec_norm_args(env.stack.skip(env.stack.len() - 2), env1, (fuel - 1) as nat);
            match nout.r {
                Err(err) => EvalOut { r: Err(err), env: nout.env },
                Ok(vs) => match (vs[0], vs[1]) {
                    (AtomV::Num(a), AtomV::Num(b)) => {
                        let bits = dbl_op(which, a.bits, b.bits);
                        EvalOut {
                            r: Ok(AtomV::Num(NumberV { bits, text: text_of_dbl(bits) })),
                            env: nout.env,
                        }
                    },
                    _ => EvalOut {
                        r: Err(
                            ErrV::NotANumber {
                                op: which,
                                lhs: atom_kind(vs[0]),
                                rhs: atom_kind(vs[1]),
                            },
                        ),
                        env: nout.env,
                    },
                },
            }
        }
    }
}

/// `print`: buffer the rendered evaluated operand as one output
/// line; nil.
pub open spec fn spec_print(env: EnvV, fuel: nat) -> EvalOut
    decreases fuel, 0int, 0int,
{
    if env.stack.len() < 1 {
        EvalOut { r: Err(ErrV::MalformedApplication), env }
    } else {
        let raw = env.stack.last();
        let env1 = env_with_stack(env, env.stack.drop_last());
        if fuel == 0 {
            EvalOut { r: Err(ErrV::DepthLimit), env: env1 }
        } else {
            let vout = spec_eval_element(raw, env1, (fuel - 1) as nat);
            match vout.r {
                Err(err) => EvalOut { r: Err(err), env: vout.env },
                Ok(v) => EvalOut {
                    r: Ok(AtomV::Nil),
                    env: env_with_out_line(vout.env, spec_render_atom(v)),
                },
            }
        }
    }
}

/// `dbg`: buffer the rendered evaluated operand as one diagnostic
/// line; nil.
pub open spec fn spec_dbg(env: EnvV, fuel: nat) -> EvalOut
    decreases fuel, 0int, 0int,
{
    if env.stack.len() < 1 {
        EvalOut { r: Err(ErrV::MalformedApplication), env }
    } else {
        let raw = env.stack.last();
        let env1 = env_with_stack(env, env.stack.drop_last());
        if fuel == 0 {
            EvalOut { r: Err(ErrV::DepthLimit), env: env1 }
        } else {
            let vout = spec_eval_element(raw, env1, (fuel - 1) as nat);
            match vout.r {
                Err(err) => EvalOut { r: Err(err), env: vout.env },
                Ok(v) => EvalOut {
                    r: Ok(AtomV::Nil),
                    env: env_with_diag_line(vout.env, spec_render_atom(v)),
                },
            }
        }
    }
}

} // verus!

verus! {

/// What every evaluation step preserves of the environment: the value
/// stack, the number of frames, every frame but the innermost, and the
/// monotonicity of the function-identity counter.
pub open spec fn env_preserved(a: EnvV, b: EnvV) -> bool {
    &&& b.stack == a.stack
    &&& b.frames.len() == a.frames.len()
    &&& (forall|i: int| 0 <= i < a.frames.len() - 1 ==> b.frames[i] == a.frames[i])
    &&& b.next_fun_id >= a.next_fun_id
}

pub proof fn lemma_preserved_trans(a: EnvV, b: EnvV, c: EnvV)
    requires
        env_preserved(a, b),
        env_preserved(b, c),
    ensures
        env_preserved(a, c),
{
}

/// Evaluating an expression leaves the value stack as it found it, on
/// success and on error; it keeps the frame count, touches no frame
/// but the innermost, and never lowers the identity counter.
pub proof fn lemma_eval_preserves(e: SExprV, env: EnvV, fuel: nat)
    requires
        env.frames.len() >= 1,
    ensures
        env_preserved(env, spec_eval(e, env, fuel).env),
    decreases fuel, sexpr_size(e), 1int,
{
    match e {
        SExprV::Atom(_) => {},
        SExprV::Cons(f, t) => {
            match spec_eval_args(*t, env) {
                Err(_) => {},
                Ok(args) => {
                    lemma_element_preserves(*f, env, fuel);
                    let fout = spec_eval_element(*f, env, fuel);
                    match fout.r {
                        Err(_) => {},
                        Ok(fv) => match fv {
                            AtomV::Function(fun) => {
                                if fun_arity(*fun) == args.len() {
                                    let env2 = env_with_stack(fout.env, fout.env.stack + args);
                                    lemma_call_preserves(*fun, env2, fuel);
                                    let out = spec_call(*fun, env2, fuel);
                                    assert(env2.stack.take(
                                        env2.stack.len() - fun_arity(*fun),
                                    ) =~= fout.env.stack);
                                    assert(env_preserved(env, out.env));
                                }
                            },
                            _ => {},
                        },
                    }
                },
            }
        },
    }
}

pub proof fn lemma_element_preserves(a: AtomV, env: EnvV, fuel: nat)
    requires
        env.frames.len() >= 1,
    ensures
        env_preserved(env, spec_eval_element(a, env, fuel).env),
    decreases fuel, atom_size(a), 1int,
{
    match a {
        AtomV::Quote(p) => {
            lemma_eval_preserves(*p, env, fuel);
        },
        _ => {},
    }
}

/// Every element weighs less than the whole sequence.
pub proof fn lemma_atoms_size_bound(s: Seq<AtomV>, i: int)
    requires
        0 <= i < s.len(),
    ensures
        atom_size(s[i]) < atoms_size(s),
    decreases s.len(),
{
    if i == 0 {
    } else {
        lemma_atoms_size_bound(s.skip(1), i - 1);
        assert(s.skip(1)[i - 1] == s[i]);
    }
}

/// A successful normalization yields one value per operand.
pub proof fn lemma_norm_args_len(raw: Seq<AtomV>, env: EnvV, fuel: nat)
    ensures
        ({
            let out = spec_norm_args(raw, env, fuel);
            out.r matches Ok(vs) ==> vs.len() == raw.len()
        }),
    decreases fuel, atoms_size(raw), 3int,
{
    if raw.len() == 0 {
    } else {
        let hout = spec_eval_element(raw[0], env, fuel);
        match hout.r {
            Err(_) => {},
            Ok(_) => {
                lemma_norm_args_len(raw.skip(1), hout.env, fuel);
            },
        }
    }
}

/// Normalizing operands preserves the environment's shape.
pub proof fn lemma_norm_preserves(raw: Seq<AtomV>, env: EnvV, fuel: nat)
    requires
        env.frames.len() >= 1,
    ensures
        env_preserved(env, spec_norm_args(raw, env, fuel).env),
    decreases fuel, atoms_size(raw), 2int,
{
    if raw.len() == 0 {
    } else {
        lemma_element_preserves(raw[0], env, fuel);
        let hout = spec_eval_element(raw[0], env, fuel);
        match hout.r {
            Err(_) => {},
            Ok(_) => {
                lemma_norm_preserves(raw.skip(1), hout.env, fuel);
                lemma_preserved_trans(env, hout.env, spec_norm_args(raw.skip(1), hout.env, fuel).env);
            },
        }
    }
}

/// Applying a function pops exactly its declared operand count from
/// the value stack and otherwise preserves the environment's shape.
pub proof fn lemma_call_preserves(fun: FunctionV, env: EnvV, fuel: nat)
    requires
        env.stack.len() >= fun_arity(fun),
        env.frames.len() >= 1,
    ensures
        ({
            let out = spec_call(fun, env, fuel);
            let popped = env_with_stack(env, env.stack.take(env.stack.len() - fun_arity(fun)));
            env_preserved(popped, out.env)
        }),
    decreases fuel, 0int, 1int,
{
    let n = fun_arity(fun) as int;
    let popped = env_with_stack(env, env.stack.take(env.stack.len() - n));
    let out0 = spec_call(fun, env, fuel);
    match fun.def {
        FunDefV::UserDefined { arg_names, body } => {
            if fuel == 0 {
                assert(env_preserved(popped, out0.env));
            } else {
                let raw = env.stack.skip(env.stack.len() - n);
                lemma_norm_preserves(raw, popped, (fuel - 1) as nat);
                let nout = spec_norm_args(raw, popped, (fuel - 1) as nat);
                match nout.r {
                    Err(_) => {},
                    Ok(args) => {
                        let frame = frame_bind_all(Seq::empty(), arg_names, args);
                        let benv = env_with_frames(nout.env, nout.env.frames.push(frame));
                        lemma_eval_preserves(body, benv, (fuel - 1) as nat);
                        let bout = spec_eval(body, benv, (fuel - 1) as nat);
                        assert(bout.env.frames.drop_last() =~= nout.env.frames);
                        assert(env_preserved(popped, out0.env));
                    },
                }
            }
        },
        FunDefV::Lib { which, .. } => {
            lemma_lib_preserves(which, env, fuel);
            assert(env.stack.drop_last() =~= env.stack.take(env.stack.len() - 1));
        },
    }
}

/// Each built-in routine pops its declared operand count and
/// otherwise preserves the environment's shape.
pub proof fn lemma_lib_preserves(which: LibFn, env: EnvV, fuel: nat)
    requires
        env.stack.len() >= lib_arity(which),
        env.frames.len() >= 1,
    ensures
        ({
            let out = spec_call(
                FunctionV { id: 0, def: FunDefV::Lib { name: Seq::empty(), which } },
                env,
                fuel,
            );
            let popped = env_with_stack(env, env.stack.take(env.stack.len() - lib_arity(which)));
            env_preserved(popped, out.env)
        }),
    decreases fuel, 0int, 0int,
{
    let n = lib_arity(which) as int;
    let popped = env_with_stack(env, env.stack.take(env.stack.len() - n));
    assert(env.stack.drop_last() =~= env.stack.take(env.stack.len() - 1));
    if fuel == 0 {
    } else {
        let fuel1 = (fuel - 1) as nat;
        match which {
            LibFn::Let => {
                let rawv = env.stack.last();
                lemma_element_preserves(rawv, popped, fuel1);
            },
            LibFn::If => {
                let cond = env.stack[env.stack.len() - 3];
                lemma_element_preserves(cond, popped, fuel1);
                let cout = spec_eval_element(cond, popped, fuel1);
                match cout.r {
                    Err(_) => {},
                    Ok(cv) => {
                        let else_b = env.stack.last();
                        let then_b = env.stack[env.stack.len() - 2];
                        match then_b {
                            AtomV::Quote(tb) => match else_b {
                                AtomV::Quote(eb) => {
                                    if cv is Nil {
                                        lemma_eval_preserves(*eb, cout.env, fuel1);
                                        lemma_preserved_trans(
                                            popped,
                                            cout.env,
                                            spec_eval(*eb, cout.env, fuel1).env,
                                        );
                                    } else {
                                        lemma_eval_preserves(*tb, cout.env, fuel1);
                                        lemma_preserved_trans(
                                            popped,
                                            cout.env,
                                            spec_eval(*tb, cout.env, fuel1).env,
                                        );
                                    }
                                },
                                _ => {},
                            },
                            _ => {},
                        }
                    },
                }
            },
            LibFn::Eval => {
                let raw = env.stack.last();
                lemma_element_preserves(raw, popped, fuel1);
                let vout = spec_eval_element(raw, popped, fuel1);
                match vout.r {
                    Err(_) => {},
                    Ok(v) => match v {
                        AtomV::Quote(p) => {
                            lemma_eval_preserves(*p, vout.env, fuel1);
                            lemma_preserved_trans(
                                popped,
                                vout.env,
                                spec_eval(*p, vout.env, fuel1).env,
                            );
                        },
                        _ => {},
                    },
                }
            },
            LibFn::Car => {
                lemma_element_preserves(env.stack.last(), popped, fuel1);
            },
            LibFn::Cdr => {
                lemma_element_preserves(env.stack.last(), popped, fuel1);
            },
            LibFn::Print => {
                lemma_element_preserves(env.stack.last(), popped, fuel1);
            },
            LibFn::Dbg => {
                lemma_element_preserves(env.stack.last(), popped, fuel1);
            },
            LibFn::Cons => {
                lemma_norm_preserves(env.stack.skip(env.stack.len() - 2), popped, fuel1);
            },
            LibFn::Eq => {
                lemma_norm_preserves(env.stack.skip(env.stack.len() - 2), popped, fuel1);
            },
            LibFn::Add => {
                lemma_norm_preserves(env.stack.skip(env.stack.len() - 2), popped, fuel1);
            },
            LibFn::Sub => {
                lemma_norm_preserves(env.stack.skip(env.stack.len() - 2), popped, fuel1);
            },
            LibFn::Mul => {
                lemma_norm_preserves(env.stack.skip(env.stack.len() - 2), popped, fuel1);
            },
            LibFn::Div => {
                lemma_norm_preserves(env.stack.skip(env.stack.len() - 2), popped, fuel1);
            },
            LibFn::Fn => {},
            LibFn::LetFn => {},
        }
    }
}

} // verus!

verus! {

/// Whether an executable operand list agrees with a specification one.
pub open spec fn args_match(r: Result<Vec<Atom>, RuntimeError>, s: Result<Seq<AtomV>, ErrV>) -> bool {
    match (r, s) {
        (Ok(v), Ok(vs)) => v@.map_values(|a: Atom| a@) == vs,
        (Err(e), Err(ev)) => e@ == ev,
        _ => false,
    }
}

/// Binding one more parameter appends one more binding to the frame.
pub proof fn lemma_bind_all_snoc(
    f: Seq<BindingV>,
    names: Seq<Seq<char>>,
    args: Seq<AtomV>,
    nm: Seq<char>,
    a: AtomV,
)
    requires
        names.len() == args.len(),
    ensures
        frame_bind_all(f, names.push(nm), args.push(a)) == frame_bind_all(f, names, args).push(
            BindingV { name: nm, val: a },
        ),
    decreases names.len(),
{
    reveal_with_fuel(frame_bind_all, 3);
    if names.len() == 0 {
        assert(names.push(nm).skip(1) =~= Seq::<Seq<char>>::empty());
        assert(args.push(a).skip(1) =~= Seq::<AtomV>::empty());
    } else {
        assert(names.push(nm).skip(1) =~= names.skip(1).push(nm));
        assert(args.push(a).skip(1) =~= args.skip(1).push(a));
        lemma_bind_all_snoc(
            f.push(BindingV { name: names[0], val: args[0] }),
            names.skip(1),
            args.skip(1),
            nm,
            a,
        );
    }
}

} // verus!
