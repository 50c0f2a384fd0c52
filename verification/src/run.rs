//! Running a program: parse every top-level form, evaluate each in
//! order against one environment seeded with the standard library,
//! and stop at the first error.

use vstd::prelude::*;
use vstd::string::StrSliceExecFns;
use crate::ast::{Atom, AtomV, SExpr, SExprV, Text, LibFn};
use crate::error::{Error, RuntimeError, ErrV, PErrV};
use crate::evaluator::{Environment, EnvV, BindingV, env_with_lib_fun, evaluate};
use crate::reader::{Reader, ScanV, spec_parse_program};
use crate::semantics::{spec_eval, true_atom};

verus! {

/// A copy of a string literal's characters.
pub fn str_to_text(s: &str) -> (r: Text)
    ensures
        r@ == s@,
{
    let n = s.unicode_len();
    let mut v: Text = Vec::new();
    let mut i: usize = 0;
    while i < n
        invariant
            n == s@.len(),
            i <= n,
            v@ == s@.take(i as int),
        decreases n - i,
    {
        let c = s.get_char(i);
        v.push(c);
        proof {
            assert(s@.take(i + 1 as int) =~= s@.take(i as int).push(s@[i as int]));
        }
        i += 1;
    }
    proof {
        assert(s@.take(n as int) =~= s@);
    }
    v
}

/// The environment after the standard library is installed: the
/// built-in routines in registration order, then the global `t` and
/// `nil` values.
pub open spec fn spec_setup(e: EnvV) -> EnvV {
    let e1 = env_with_lib_fun(e, "let"@, LibFn::Let);
    let e2 = env_with_lib_fun(e1, "fn"@, LibFn::Fn);
    let e3 = env_with_lib_fun(e2, "letfn"@, LibFn::LetFn);
    let e4 = env_with_lib_fun(e3, "if"@, LibFn::If);
    let e5 = env_with_lib_fun(e4, "eval"@, LibFn::Eval);
    let e6 = env_with_lib_fun(e5, "cons"@, LibFn::Cons);
    let e7 = env_with_lib_fun(e6, "car"@, LibFn::Car);
    let e8 = env_with_lib_fun(e7, "cdr"@, LibFn::Cdr);
    let e9 = env_with_lib_fun(e8, "eq"@, LibFn::Eq);
    let e10 = env_with_lib_fun(e9, "="@, LibFn::Eq);
    let e11 = env_with_lib_fun(e10, "+"@, LibFn::Add);
    let e12 = env_with_lib_fun(e11, "-"@, LibFn::Sub);
    let e13 = env_with_lib_fun(e12, "*"@, LibFn::Mul);
    let e14 = env_with_lib_fun(e13, "/"@, LibFn::Div);
    let e15 = env_with_lib_fun(e14, "print"@, LibFn::Print);
    let e16 = env_with_lib_fun(e15, "dbg"@, LibFn::Dbg);
    let f1 = e16.frames[0].push(BindingV { name: "t"@, val: true_atom() });
    let f2 = f1.push(BindingV { name: "nil"@, val: AtomV::Nil });
    EnvV { frames: seq![f2], ..e16 }
}

/// Install the standard library and the global `t` and `nil` values.
pub fn install_std_lib(env: &mut Environment)
    requires
        old(env)@.frames.len() == 1,
        old(env)@.next_fun_id < u64::MAX - 20,
    ensures
        final(env)@ == spec_setup(old(env)@),
{
    env.register_external_fun(str_to_text("let"), 2, LibFn::Let);
    env.register_external_fun(str_to_text("fn"), 2, LibFn::Fn);
    env.register_external_fun(str_to_text("letfn"), 3, LibFn::LetFn);
    env.register_external_fun(str_to_text("if"), 3, LibFn::If);
    env.register_external_fun(str_to_text("eval"), 1, LibFn::Eval);
    env.register_external_fun(str_to_text("cons"), 2, LibFn::Cons);
    env.register_external_fun(str_to_text("car"), 1, LibFn::Car);
    env.register_external_fun(str_to_text("cdr"), 1, LibFn::Cdr);
    env.register_external_fun(str_to_text("eq"), 2, LibFn::Eq);
    env.register_external_fun(str_to_text("="), 2, LibFn::Eq);
    env.register_external_fun(str_to_text("+"), 2, LibFn::Add);
    env.register_external_fun(str_to_text("-"), 2, LibFn::Sub);
    env.register_external_fun(str_to_text("*"), 2, LibFn::Mul);
    env.register_external_fun(str_to_text("/"), 2, LibFn::Div);
    env.register_external_fun(str_to_text("print"), 1, LibFn::Print);
    env.register_external_fun(str_to_text("dbg"), 1, LibFn::Dbg);
    let mut tname: Text = Vec::new();
    tname.push('t');
    let mut tval: Text = Vec::new();
    tval.push('t');
    proof {
        assert(tval@ =~= seq!['t']);
        reveal_strlit("t");
        assert(tname@ =~= "t"@);
    }
    let tv = Atom::Quote(Box::new(SExpr::Atom(Atom::Ident(tval))));
    proof {
        reveal_with_fuel(crate::ast::atom_view, 3);
        reveal_with_fuel(crate::ast::sexpr_view, 2);
        assert(tv@ == true_atom());
    }
    env.bind_var(tname, tv);
    env.bind_var(str_to_text("nil"), Atom::Nil);
    proof {
        assert(final(env)@ =~~= spec_setup(old(env)@));
    }
}

/// How a run ends early.
#[derive(Debug)]
pub enum RunError {
    Parse(Error),
    Runtime(RuntimeError),
}

pub enum RunErrV {
    Parse(PErrV),
    Runtime(ErrV),
}

pub open spec fn run_err_view(e: RunError) -> RunErrV {
    match e {
        RunError::Parse(p) => RunErrV::Parse(p@),
        RunError::Runtime(r) => RunErrV::Runtime(r@),
    }
}

impl View for RunError {
    type V = RunErrV;

    open spec fn view(&self) -> RunErrV {
        run_err_view(*self)
    }
}

/// What a run produced: the buffered output and diagnostic lines, and
/// the error that stopped it, if one did.
pub struct RunResult {
    pub out: Vec<Text>,
    pub diag: Vec<Text>,
    pub err: Option<RunError>,
}

#[verifier::ext_equal]
pub struct RunV {
    pub out: Seq<Seq<char>>,
    pub diag: Seq<Seq<char>>,
    pub err: Option<RunErrV>,
}

pub open spec fn run_result_view(r: RunResult) -> RunV {
    RunV {
        out: r.out@.map_values(|t: Text| t@),
        diag: r.diag@.map_values(|t: Text| t@),
        err: match r.err {
            Some(e) => Some(run_err_view(e)),
            None => None,
        },
    }
}

/// Evaluate forms in order; the first error ends the run.
pub open spec fn spec_eval_forms(forms: Seq<SExprV>, env: EnvV, fuel: nat) -> (Option<ErrV>, EnvV)
    decreases forms.len(),
{
    if forms.len() == 0 {
        (None, env)
    } else {
        let out = spec_eval(forms[0], env, fuel);
        match out.r {
            Err(e) => (Some(e), out.env),
            Ok(_) => spec_eval_forms(forms.skip(1), out.env, fuel),
        }
    }
}

/// What running `src` with the given evaluation depth budget yields.
pub open spec fn spec_run(src: Seq<char>, fuel: nat) -> RunV {
    let s0 = ScanV { src, idx: 0, level: 0, in_str: false, in_escape: false };
    let pout = spec_parse_program(s0);
    match pout.r {
        Err(pe) => RunV {
            out: Seq::empty(),
            diag: Seq::empty(),
            err: Some(RunErrV::Parse(pe)),
        },
        Ok(forms) => {
            let env0 = spec_setup(
                EnvV {
                    frames: seq![Seq::<BindingV>::empty()],
                    stack: Seq::empty(),
                    out: Seq::empty(),
                    diag: Seq::empty(),
                    next_fun_id: 0,
                },
            );
            let (err, env1) = spec_eval_forms(forms, env0, fuel);
            RunV {
                out: env1.out,
                diag: env1.diag,
                err: match err {
                    Some(e) => Some(RunErrV::Runtime(e)),
                    None => None,
                },
            }
        },
    }
}

/// Evaluate each form in order against `env`; the first error ends
/// the run and is returned.
#[verifier::loop_isolation(false)]
pub fn evaluate_forms(forms: &Vec<SExpr>, env: &mut Environment, fuel: u64) -> (r: Option<
    RuntimeError,
>)
    requires
        old(env)@.frames.len() >= 1,
    ensures
        ({
            let (err, env1) = spec_eval_forms(
                forms@.map_values(|e: SExpr| e@),
                old(env)@,
                fuel as nat,
            );
            final(env)@ == env1 && match r {
                Some(e) => err == Some(e@),
                None => err is None,
            }
        }),
{
    let ghost formsv = forms@.map_values(|e: SExpr| e@);
    let n = forms.len();
    let mut i: usize = 0;
    proof {
        assert(formsv.skip(0) =~= formsv);
    }
    while i < n
        invariant
            n == forms.len(),
            i <= n,
            env@.frames.len() >= 1,
            spec_eval_forms(formsv, old(env)@, fuel as nat) == spec_eval_forms(
                formsv.skip(i as int),
                env@,
                fuel as nat,
            ),
        decreases n - i,
    {
        proof {
            crate::semantics::lemma_eval_preserves(forms@[i as int]@, env@, fuel as nat);
            assert(formsv.skip(i as int)[0] == formsv[i as int]);
            assert(formsv.skip(i as int).skip(1) =~= formsv.skip(i + 1 as int));
        }
        match evaluate(&forms[i], env, fuel) {
            Ok(_) => {},
            Err(e) => {
                return Some(e);
            },
        }
        i += 1;
    }
    proof {
        assert(formsv.skip(n as int) =~= Seq::<SExprV>::empty());
    }
    None
}

/// Parse and run a whole program: each top-level form evaluates in
/// source order against one environment pre-seeded with the standard
/// library; the first error, parse or runtime, stops the run.
pub fn run_source(source: &str, fuel: u64) -> (r: RunResult)
    ensures
        run_result_view(r) == spec_run(source@, fuel as nat),
{
    let mut reader = Reader::new(source);
    let forms = match reader.parse_sexprs() {
        Ok(v) => v,
        Err(e) => {
            let rr = RunResult { out: Vec::new(), diag: Vec::new(), err: Some(RunError::Parse(e)) };
            proof {
                assert(run_result_view(rr) =~~= spec_run(source@, fuel as nat));
            }
            return rr;
        },
    };
    let mut env = Environment::new();
    install_std_lib(&mut env);
    let err = evaluate_forms(&forms, &mut env, fuel);
    let rr = RunResult {
        out: env.out,
        diag: env.diag,
        err: match err {
            Some(e) => Some(RunError::Runtime(e)),
            None => None,
        },
    };
    proof {
        assert(run_result_view(rr) =~~= spec_run(source@, fuel as nat));
    }
    rr
}

} // verus!
