//! The environment: a stack of scope frames, the shared value stack
//! that passes operands between a call site and the invoked routine,
//! the buffered output streams, and the function-identity counter.

use vstd::prelude::*;
use crate::ast::{Atom, AtomV, SExpr, Text, Function, FunDef, LibFn};

verus! {

/// One name-to-value binding inside a frame.
pub struct Binding {
    pub name: Text,
    pub val: Atom,
}

#[verifier::ext_equal]
pub struct BindingV {
    pub name: Seq<char>,
    pub val: AtomV,
}

impl View for Binding {
    type V = BindingV;

    open spec fn view(&self) -> BindingV {
        BindingV { name: self.name@, val: self.val@ }
    }
}

/// One lexical-scope layer.  Later entries shadow earlier ones.
pub struct Frame {
    pub binds: Vec<Binding>,
}

impl View for Frame {
    type V = Seq<BindingV>;

    open spec fn view(&self) -> Seq<BindingV> {
        self.binds@.map_values(|b: Binding| b@)
    }
}

/// The evaluation state.
pub struct Environment {
    /// Scope frames, innermost last.  At least the global frame is
    /// always present.
    pub frames: Vec<Frame>,
    /// The shared value stack for operand passing.
    pub stack: Vec<Atom>,
    /// Lines written by `print`, oldest first.
    pub out: Vec<Text>,
    /// Lines written by `dbg`, oldest first.
    pub diag: Vec<Text>,
    /// The next unused function identity.
    pub next_fun_id: u64,
}

#[verifier::ext_equal]
pub struct EnvV {
    pub frames: Seq<Seq<BindingV>>,
    pub stack: Seq<AtomV>,
    pub out: Seq<Seq<char>>,
    pub diag: Seq<Seq<char>>,
    pub next_fun_id: u64,
}


/// The global frame after installing a built-in `name`/`arity`/`which`
/// with identity `id`.
pub open spec fn frame_with_lib_fun(
    f: Seq<BindingV>,
    name: Seq<char>,
    which: crate::ast::LibFn,
    id: u64,
) -> Seq<BindingV> {
    f.push(
        BindingV {
            name,
            val: AtomV::Function(
                Box::new(
                    crate::ast::FunctionV { id, def: crate::ast::FunDefV::Lib { name, which } },
                ),
            ),
        },
    )
}

/// `e` after installing a built-in into its single global frame.
pub open spec fn env_with_lib_fun(e: EnvV, name: Seq<char>, which: crate::ast::LibFn) -> EnvV {
    EnvV {
        frames: seq![frame_with_lib_fun(e.frames[0], name, which, e.next_fun_id)],
        next_fun_id: (e.next_fun_id + 1) as u64,
        ..e
    }
}

/// `e` with one more buffered `print` line.
pub open spec fn env_with_out_line(e: EnvV, line: Seq<char>) -> EnvV {
    EnvV { out: e.out.push(line), ..e }
}

/// `e` with one more buffered `dbg` line.
pub open spec fn env_with_diag_line(e: EnvV, line: Seq<char>) -> EnvV {
    EnvV { diag: e.diag.push(line), ..e }
}

/// `e` with its function-identity counter replaced.
pub open spec fn env_with_next_id(e: EnvV, next_fun_id: u64) -> EnvV {
    EnvV { next_fun_id, ..e }
}

impl View for Environment {
    type V = EnvV;

    open spec fn view(&self) -> EnvV {
        EnvV {
            frames: self.frames@.map_values(|f: Frame| f@),
            stack: self.stack@.map_values(|a: Atom| a@),
            out: self.out@.map_values(|t: Text| t@),
            diag: self.diag@.map_values(|t: Text| t@),
            next_fun_id: self.next_fun_id,
        }
    }
}

/// The innermost binding of `name` in one frame.
pub open spec fn frame_lookup(f: Seq<BindingV>, name: Seq<char>) -> Option<AtomV>
    decreases f.len(),
{
    if f.len() == 0 {
        None
    } else if f.last().name == name {
        Some(f.last().val)
    } else {
        frame_lookup(f.drop_last(), name)
    }
}

/// The binding of `name`, searching frames innermost to outermost.
pub open spec fn env_lookup(frames: Seq<Seq<BindingV>>, name: Seq<char>) -> Option<AtomV>
    decreases frames.len(),
{
    if frames.len() == 0 {
        None
    } else {
        match frame_lookup(frames.last(), name) {
            Some(v) => Some(v),
            None => env_lookup(frames.drop_last(), name),
        }
    }
}


/// `e` with its frames replaced.
pub open spec fn env_with_frames(e: EnvV, frames: Seq<Seq<BindingV>>) -> EnvV {
    EnvV { frames, ..e }
}

/// `e` with its value stack replaced.
pub open spec fn env_with_stack(e: EnvV, stack: Seq<AtomV>) -> EnvV {
    EnvV { stack, ..e }
}

impl Environment {
    /// A fresh environment: one empty global frame, an empty value
    /// stack, no buffered output.
    pub fn new() -> (env: Environment)
        ensures
            env@.frames == seq![Seq::<BindingV>::empty()],
            env@.stack == Seq::<AtomV>::empty(),
            env@.out == Seq::<Seq<char>>::empty(),
            env@.diag == Seq::<Seq<char>>::empty(),
            env@.next_fun_id == 0,
    {
        let mut frames: Vec<Frame> = Vec::new();
        frames.push(Frame { binds: Vec::new() });
        let env = Environment {
            frames,
            stack: Vec::new(),
            out: Vec::new(),
            diag: Vec::new(),
            next_fun_id: 0,
        };
        proof {
            assert(env@.frames =~~= seq![Seq::<BindingV>::empty()]);
            assert(env@.stack =~= Seq::<AtomV>::empty());
            assert(env@.out =~= Seq::<Seq<char>>::empty());
            assert(env@.diag =~= Seq::<Seq<char>>::empty());
        }
        env
    }

    /// Enter one lexical scope.
    pub fn push_frame(&mut self)
        ensures
            final(self)@ == env_with_frames(
                old(self)@,
                old(self)@.frames.push(Seq::<BindingV>::empty()),
            ),
    {
        self.frames.push(Frame { binds: Vec::new() });
        proof {
            assert(final(self)@.frames =~~= old(self)@.frames.push(Seq::<BindingV>::empty()));
        }
    }

    /// Leave the innermost lexical scope.
    pub fn pop_frame(&mut self)
        requires
            old(self)@.frames.len() >= 1,
        ensures
            final(self)@ == env_with_frames(old(self)@, old(self)@.frames.drop_last()),
    {
        let _ = self.frames.pop();
        proof {
            assert(final(self)@.frames =~= old(self)@.frames.drop_last());
        }
    }

    /// Pop the value that was pushed last.
    pub fn pop_stack(&mut self) -> (r: Atom)
        requires
            old(self)@.stack.len() >= 1,
        ensures
            r@ == old(self)@.stack.last(),
            final(self)@ == env_with_stack(old(self)@, old(self)@.stack.drop_last()),
    {
        let r = self.stack.pop().unwrap();
        proof {
            assert(final(self)@.stack =~= old(self)@.stack.drop_last());
        }
        r
    }

    /// Push one value for the routine about to be invoked.
    pub fn push_stack(&mut self, val: Atom)
        ensures
            final(self)@ == env_with_stack(old(self)@, old(self)@.stack.push(val@)),
    {
        self.stack.push(val);
        proof {
            assert(final(self)@.stack =~= old(self)@.stack.push(val@));
        }
    }

    /// Bind `name` in the innermost frame, shadowing any earlier
    /// binding of the same name there.
    pub fn bind_var(&mut self, name: Text, val: Atom)
        requires
            old(self)@.frames.len() >= 1,
        ensures
            final(self)@ == env_with_frames(
                old(self)@,
                old(self)@.frames.update(
                    old(self)@.frames.len() - 1,
                    old(self)@.frames.last().push(BindingV { name: name@, val: val@ }),
                ),
            ),
    {
        let ghost gname = name@;
        let ghost gval = val@;
        let mut top = self.frames.pop().unwrap();
        top.binds.push(Binding { name, val });
        self.frames.push(top);
        proof {
            assert(final(self)@.frames =~~= old(self)@.frames.update(
                old(self)@.frames.len() - 1,
                old(self)@.frames.last().push(BindingV { name: gname, val: gval }),
            ));
        }
    }

    /// The value bound to `name`, innermost frame first.
    #[verifier::loop_isolation(false)]
    pub fn lookup_var(&self, name: &Text) -> (r: Option<&Atom>)
        ensures
            match r {
                Some(a) => env_lookup(self@.frames, name@) == Some(a@),
                None => env_lookup(self@.frames, name@) is None,
            },
    {
        let nframes = self.frames.len();
        let mut fi: usize = nframes;
        proof {
            assert(self@.frames.take(nframes as int) =~= self@.frames);
        }
        while fi > 0
            invariant
                nframes == self@.frames.len(),
                fi <= nframes,
                env_lookup(self@.frames, name@) == env_lookup(
                    self@.frames.take(fi as int),
                    name@,
                ),
            decreases fi,
        {
            fi -= 1;
            let frame = &self.frames[fi];
            let nb = frame.binds.len();
            let mut bi: usize = nb;
            proof {
                assert(self@.frames.take(fi + 1 as int).last() =~= frame@);
                assert(self@.frames.take(fi + 1 as int).drop_last() =~= self@.frames.take(
                    fi as int,
                ));
                assert(frame@.take(bi as int) =~= frame@);
            }
            while bi > 0
                invariant
                    nb == frame.binds.len(),
                    bi <= nb,
                    frame_lookup(frame@, name@) == frame_lookup(frame@.take(bi as int), name@),
                decreases bi,
            {
                bi -= 1;
                proof {
                    assert(frame@.take(bi + 1 as int).last() == frame@[bi as int]);
                    assert(frame@.take(bi + 1 as int).drop_last() =~= frame@.take(bi as int));
                }
                if crate::ast::text_eq(&frame.binds[bi].name, name) {
                    return Some(&frame.binds[bi].val);
                }
            }
        }
        proof {
            assert(self@.frames.take(0) =~= Seq::<Seq<BindingV>>::empty());
        }
        None
    }

    /// Install a built-in routine under `name` in the global frame,
    /// giving it a fresh identity.  Used only at startup, before any
    /// further frame is pushed.
    pub fn register_external_fun(&mut self, name: Text, arity: usize, which: crate::ast::LibFn)
        requires
            old(self)@.frames.len() == 1,
            old(self)@.next_fun_id < u64::MAX,
            arity == crate::ast::lib_arity(which),
        ensures
            final(self)@ == env_with_lib_fun(old(self)@, name@, which),
    {
        let id = self.next_fun_id;
        self.next_fun_id = id + 1;
        let lib_name = crate::ast::clone_text(&name);
        let def = crate::ast::FunDef::Lib { name: lib_name, which };
        proof {
            assert(crate::ast::fundef_view(def) == (crate::ast::FunDefV::Lib {
                name: name@,
                which,
            }));
        }
        let fun = crate::ast::Function { id, def };
        let val = Atom::Function(Box::new(fun));
        proof {
            assert(val@ == AtomV::Function(
                Box::new(
                    crate::ast::FunctionV {
                        id: old(self)@.next_fun_id,
                        def: crate::ast::FunDefV::Lib { name: name@, which },
                    },
                ),
            ));
        }
        self.bind_var(name, val);
        proof {
            assert(final(self)@.frames =~~= env_with_lib_fun(old(self)@, name@, which).frames);
            assert(final(self)@ =~~= env_with_lib_fun(old(self)@, name@, which));
        }
    }
}

} // verus!

verus! {

/// Evaluate one atom as an expression: a symbol resolves through the
/// frames; every other atom, a quote included, is already a value.
pub fn evaluate_atom(a: &Atom, env: &Environment) -> (r: Result<Atom, crate::error::RuntimeError>)
    ensures
        crate::semantics::res_matches(r, crate::semantics::spec_eval_atom(a@, env@)),
{
    proof {
        reveal_with_fuel(crate::ast::atom_view, 2);
    }
    match a {
        Atom::Ident(name) => match env.lookup_var(name) {
            Some(v) => Ok(v.deep_clone()),
            None => Err(crate::error::RuntimeError::UnboundName(crate::ast::clone_text(name))),
        },
        other => Ok(other.deep_clone()),
    }
}

/// Evaluate an operand chain in order, collecting the still-quoted
/// operands; the environment is only read.
pub fn evaluate_args(tail: &Atom, env: &Environment) -> (r: Result<
    Vec<Atom>,
    crate::error::RuntimeError,
>)
    ensures
        crate::semantics::args_match(r, crate::semantics::spec_eval_args(tail@, env@)),
    decreases crate::ast::atom_size(tail@),
{
    proof {
        reveal_with_fuel(crate::ast::atom_view, 2);
        reveal_with_fuel(crate::ast::sexpr_view, 2);
    }
    match tail {
        Atom::Quote(inner) => match &**inner {
            SExpr::Atom(Atom::Nil) => {
                let vs: Vec<Atom> = Vec::new();
                proof {
                    assert(vs@.map_values(|x: Atom| x@) =~= Seq::<AtomV>::empty());
                }
                Ok(vs)
            },
            SExpr::Cons(h, t2) => {
                let v = match evaluate_atom(h, env) {
                    Ok(v) => v,
                    Err(e) => {
                        return Err(e);
                    },
                };
                let rest = match evaluate_args(t2, env) {
                    Ok(vs) => vs,
                    Err(e) => {
                        return Err(e);
                    },
                };
                let mut vs = rest;
                let ghost restv = vs@.map_values(|x: Atom| x@);
                vs.insert(0, v);
                proof {
                    assert(vs@.map_values(|x: Atom| x@) =~= Seq::<AtomV>::empty().push(v@)
                        + restv);
                }
                Ok(vs)
            },
            _ => Err(crate::error::RuntimeError::MalformedApplication),
        },
        _ => Err(crate::error::RuntimeError::MalformedApplication),
    }
}

/// Evaluate one expression against the environment.  A cons is an
/// application: the still-quoted operands are pushed on the value
/// stack, the head is evaluated and must be a function of matching
/// arity, and the function is applied.
#[verifier::loop_isolation(false)]
pub fn evaluate(expr: &SExpr, env: &mut Environment, fuel: u64) -> (r: Result<
    Atom,
    crate::error::RuntimeError,
>)
    requires
        old(env)@.frames.len() >= 1,
    ensures
        ({
            let out = crate::semantics::spec_eval(expr@, old(env)@, fuel as nat);
            final(env)@ == out.env && crate::semantics::res_matches(r, out.r)
        }),
    decreases fuel, crate::ast::sexpr_size(expr@), 1int,
{
    proof {
        reveal_with_fuel(crate::ast::atom_view, 2);
        reveal_with_fuel(crate::ast::sexpr_view, 2);
    }
    match expr {
        SExpr::Atom(a) => evaluate_atom(a, env),
        SExpr::Cons(f, t) => {
            let args = match evaluate_args(t, env) {
                Ok(a) => a,
                Err(e) => {
                    return Err(e);
                },
            };
            proof {
                crate::semantics::lemma_element_preserves(f@, env@, fuel as nat);
            }
            let fv = match evaluate_element(f, env, fuel) {
                Ok(v) => v,
                Err(e) => {
                    return Err(e);
                },
            };
            match fv {
                Atom::Function(fun) => {
                    let n = fun.arity();
                    if n == args.len() {
                        let ghost fenv = env@;
                        let ghost argsv = args@.map_values(|x: Atom| x@);
                        let m = args.len();
                        let mut i: usize = 0;
                        while i < m
                            invariant
                                m == args.len(),
                                i <= m,
                                argsv == args@.map_values(|x: Atom| x@),
                                env@ == env_with_stack(fenv, fenv.stack + argsv.take(i as int)),
                            decreases m - i,
                        {
                            env.push_stack(args[i].deep_clone());
                            proof {
                                assert(fenv.stack + argsv.take(i + 1 as int) =~= (fenv.stack
                                    + argsv.take(i as int)).push(argsv[i as int]));
                                assert(env@ =~~= env_with_stack(
                                    fenv,
                                    fenv.stack + argsv.take(i + 1 as int),
                                ));
                            }
                            i += 1;
                        }
                        proof {
                            assert(fenv.stack + argsv.take(m as int) =~= fenv.stack + argsv);
                            assert(env@ =~~= env_with_stack(fenv, fenv.stack + argsv));
                        }
                        call(&fun, env, fuel)
                    } else {
                        let desc = match &fun.def {
                            FunDef::UserDefined { .. } => crate::error::FunDesc::User,
                            FunDef::Lib { name, .. } => crate::error::FunDesc::Lib(
                                crate::ast::clone_text(name),
                            ),
                        };
                        Err(
                            crate::error::RuntimeError::ArityMismatch {
                                expected: n,
                                got: args.len(),
                                fun: desc,
                            },
                        )
                    }
                },
                other => Err(crate::error::RuntimeError::NotAFunction(other.get_type())),
            }
        },
    }
}

/// Evaluate the head of an application, or normalize one popped
/// operand into a value: the quote the parser wraps around each
/// element marks the expression to evaluate.
pub fn evaluate_element(a: &Atom, env: &mut Environment, fuel: u64) -> (r: Result<
    Atom,
    crate::error::RuntimeError,
>)
    requires
        old(env)@.frames.len() >= 1,
    ensures
        ({
            let out = crate::semantics::spec_eval_element(a@, old(env)@, fuel as nat);
            final(env)@ == out.env && crate::semantics::res_matches(r, out.r)
        }),
    decreases fuel, crate::ast::atom_size(a@), 1int,
{
    proof {
        reveal_with_fuel(crate::ast::atom_view, 2);
    }
    match a {
        Atom::Quote(p) => evaluate(p, env, fuel),
        Atom::Ident(name) => match env.lookup_var(name) {
            Some(v) => Ok(v.deep_clone()),
            None => Err(crate::error::RuntimeError::UnboundName(crate::ast::clone_text(name))),
        },
        other => Ok(other.deep_clone()),
    }
}

/// Normalize popped operands into values, left to right.
#[verifier::loop_isolation(false)]
pub fn norm_args(raw: &Vec<Atom>, env: &mut Environment, fuel: u64) -> (r: Result<
    Vec<Atom>,
    crate::error::RuntimeError,
>)
    requires
        old(env)@.frames.len() >= 1,
    ensures
        ({
            let out = crate::semantics::spec_norm_args(
                raw@.map_values(|x: Atom| x@),
                old(env)@,
                fuel as nat,
            );
            final(env)@ == out.env && crate::semantics::args_match(r, out.r)
        }),
    decreases fuel, crate::semantics::atoms_size(raw@.map_values(|x: Atom| x@)), 2int,
{
    let ghost rawv = raw@.map_values(|x: Atom| x@);
    let n = raw.len();
    let mut vals: Vec<Atom> = Vec::new();
    let mut i: usize = 0;
    proof {
        assert(rawv.skip(0) =~= rawv);
        assert(vals@.map_values(|x: Atom| x@) =~= Seq::<AtomV>::empty());
    }
    while i < n
        invariant
            n == raw.len(),
            i <= n,
            rawv == raw@.map_values(|x: Atom| x@),
            env@.frames.len() >= 1,
            ({
                let rest = crate::semantics::spec_norm_args(
                    rawv.skip(i as int),
                    env@,
                    fuel as nat,
                );
                let whole = crate::semantics::spec_norm_args(rawv, old(env)@, fuel as nat);
                match rest.r {
                    Ok(vs) => whole == (crate::semantics::ArgsOut {
                        r: Ok(vals@.map_values(|x: Atom| x@) + vs),
                        env: rest.env,
                    }),
                    Err(er) => whole == (crate::semantics::ArgsOut { r: Err(er), env: rest.env }),
                }
            }),
        decreases n - i,
    {
        proof {
            crate::semantics::lemma_element_preserves(rawv[i as int], env@, fuel as nat);
            crate::semantics::lemma_atoms_size_bound(rawv, i as int);
            assert(rawv.skip(i as int)[0] == rawv[i as int]);
            assert(rawv.skip(i as int).skip(1) =~= rawv.skip(i + 1 as int));
        }
        let ghost valsv = vals@.map_values(|x: Atom| x@);
        let v = match evaluate_element(&raw[i], env, fuel) {
            Ok(v) => v,
            Err(e) => {
                return Err(e);
            },
        };
        vals.push(v);
        proof {
            assert(vals@.map_values(|x: Atom| x@) =~= valsv.push(v@));
            assert forall|vs: Seq<AtomV>| true implies valsv.push(v@) + vs =~= valsv + (
            Seq::<AtomV>::empty().push(v@) + vs) by {}
        }
        i += 1;
    }
    proof {
        assert(rawv.skip(n as int) =~= Seq::<AtomV>::empty());
        assert(vals@.map_values(|x: Atom| x@) + Seq::<AtomV>::empty() =~= vals@.map_values(
            |x: Atom| x@,
        ));
    }
    Ok(vals)
}

/// Apply a function whose still-quoted operands sit on top of the
/// value stack.  A user-defined call evaluates the popped operands,
/// binds them to the parameters in a fresh frame, evaluates the body
/// there, and drops the frame whether the body succeeded or failed.
#[verifier::loop_isolation(false)]
pub fn call(func: &Function, env: &mut Environment, fuel: u64) -> (r: Result<
    Atom,
    crate::error::RuntimeError,
>)
    requires
        old(env)@.stack.len() >= crate::ast::fun_arity(func@),
        old(env)@.frames.len() >= 1,
    ensures
        ({
            let out = crate::semantics::spec_call(func@, old(env)@, fuel as nat);
            final(env)@ == out.env && crate::semantics::res_matches(r, out.r)
        }),
    decreases fuel, 0int, 1int,
{
    match &func.def {
        FunDef::UserDefined { arg_names, body } => {
            let n = arg_names.len();
            let at = env.stack.len() - n;
            let raw = env.stack.split_off(at);
            let ghost popped = env_with_stack(old(env)@, old(env)@.stack.take(at as int));
            let ghost namesv = arg_names@.map_values(|x: Text| x@);
            let ghost rawv = old(env)@.stack.skip(at as int);
            proof {
                assert(env@ =~~= popped);
                assert(raw@.map_values(|x: Atom| x@) =~= rawv);
            }
            if fuel == 0 {
                return Err(crate::error::RuntimeError::DepthLimit);
            }
            proof {
                crate::semantics::lemma_norm_args_len(rawv, popped, (fuel - 1) as nat);
            }
            let args = match norm_args(&raw, env, fuel - 1) {
                Ok(v) => v,
                Err(e) => {
                    return Err(e);
                },
            };
            let ghost argsv = args@.map_values(|x: Atom| x@);
            proof {
                assert(args@.len() == argsv.len());
            }
            let ghost nenv = env@;
            env.push_frame();
            let mut i: usize = 0;
            while i < n
                invariant
                    n == arg_names.len(),
                    n == args.len(),
                    i <= n,
                    argsv.len() == n,
                    env@ == env_with_frames(
                        nenv,
                        nenv.frames.push(
                            crate::semantics::frame_bind_all(
                                Seq::<BindingV>::empty(),
                                namesv.take(i as int),
                                argsv.take(i as int),
                            ),
                        ),
                    ),
                decreases n - i,
            {
                env.bind_var(crate::ast::clone_text(&arg_names[i]), args[i].deep_clone());
                proof {
                    crate::semantics::lemma_bind_all_snoc(
                        Seq::<BindingV>::empty(),
                        namesv.take(i as int),
                        argsv.take(i as int),
                        namesv[i as int],
                        argsv[i as int],
                    );
                    assert(namesv.take(i + 1 as int) =~= namesv.take(i as int).push(
                        namesv[i as int],
                    ));
                    assert(argsv.take(i + 1 as int) =~= argsv.take(i as int).push(
                        argsv[i as int],
                    ));
                    assert(env@ =~~= env_with_frames(
                        nenv,
                        nenv.frames.push(
                            crate::semantics::frame_bind_all(
                                Seq::<BindingV>::empty(),
                                namesv.take(i + 1 as int),
                                argsv.take(i + 1 as int),
                            ),
                        ),
                    ));
                }
                i += 1;
            }
            let ghost benv = env_with_frames(
                nenv,
                nenv.frames.push(
                    crate::semantics::frame_bind_all(Seq::<BindingV>::empty(), namesv, argsv),
                ),
            );
            proof {
                assert(namesv.take(n as int) =~= namesv);
                assert(argsv.take(n as int) =~= argsv);
                assert(env@ =~~= benv);
            }
            let ret = evaluate(body, env, fuel - 1);
            proof {
                crate::semantics::lemma_eval_preserves(body@, benv, (fuel - 1) as nat);
            }
            env.pop_frame();
            proof {
                assert(final(env)@ =~~= crate::semantics::spec_call(
                    func@,
                    old(env)@,
                    fuel as nat,
                ).env);
            }
            ret
        },
        FunDef::Lib { which, .. } => match which {
            LibFn::Let => crate::std_lib::let_impl(env, fuel),
            LibFn::Fn => crate::std_lib::fn_impl(env),
            LibFn::LetFn => crate::std_lib::letfn_impl(env),
            LibFn::If => crate::std_lib::if_impl(env, fuel),
            LibFn::Eval => crate::std_lib::eval_impl(env, fuel),
            LibFn::Cons => crate::std_lib::cons_impl(env, fuel),
            LibFn::Car => crate::std_lib::car_impl(env, fuel),
            LibFn::Cdr => crate::std_lib::cdr_impl(env, fuel),
            LibFn::Eq => crate::std_lib::eq(env, fuel),
            LibFn::Add => crate::std_lib::arith_impl(LibFn::Add, env, fuel),
            LibFn::Sub => crate::std_lib::arith_impl(LibFn::Sub, env, fuel),
            LibFn::Mul => crate::std_lib::arith_impl(LibFn::Mul, env, fuel),
            LibFn::Div => crate::std_lib::arith_impl(LibFn::Div, env, fuel),
            LibFn::Print => crate::std_lib::print_impl(env, fuel),
            LibFn::Dbg => crate::std_lib::dbg_impl(env, fuel),
        },
    }
}

} // verus!
