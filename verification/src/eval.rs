//! The evaluator: special-form dispatch and function application over a
//! lexically scoped environment.  The meaning of evaluation is given by
//! a spec-level interpreter with an explicit nesting budget; the
//! executable evaluator is proved to agree with it, step for step.

use vstd::prelude::*;
use crate::builtins::native_apply_v;
use crate::env::{
    env_pop_v, env_push_v, env_set_v, frame_ext_v, has_marker_v, lookup_v, lemma_frame_has_marker,
    lemma_frame_push_pop, lemma_frame_refl, lemma_frame_set, lemma_frame_trans, Env,
};
use crate::errors::{ErrV, FailV, Failure, MalError};
use crate::types::{
    type_err_v, view_mal_seq, view_sym_seq, EnvV, FuncV, KeyV, Mal, MalArr, MalFunc, MalList,
    MalMap, MalV, Symbol,
};

verus! {

broadcast use vstd::string::group_string_axioms;

// ------------------------------------------------------------------
// What evaluation means.
// ------------------------------------------------------------------

/// The outcome of one evaluation: its result, the environment it
/// leaves behind, and the lines it printed.
#[verifier::ext_equal]
pub struct EvalOut {
    pub res: Result<MalV, FailV>,
    pub env: EnvV,
    pub out: Seq<Seq<char>>,
}

/// The outcome of applying a function: ambient scope is unaffected, so
/// only result and output remain.
#[verifier::ext_equal]
pub struct ApplyOut {
    pub res: Result<MalV, FailV>,
    pub out: Seq<Seq<char>>,
}

/// The names the evaluator handles itself rather than resolving.
pub open spec fn is_special_v(s: Seq<char>) -> bool {
    s == "def!"@ || s == "let*"@ || s == "fn*"@ || s == "do"@ || s == "if"@
}

/// A parameter list is well formed when the variadic marker can only
/// stand right before a single trailing collector.
pub open spec fn valid_params_v(ps: Seq<Seq<char>>) -> bool {
    forall|i: int| 0 <= i < ps.len() && #[trigger] ps[i] == "&"@ ==> i == ps.len() - 2
}

/// Whether a parameter list collects trailing arguments.
pub open spec fn is_variadic_v(ps: Seq<Seq<char>>) -> bool {
    ps.len() >= 2 && ps[ps.len() - 2] == "&"@
}

/// The parameter symbols of a `fn*` parameter list, if every element
/// is a symbol.
pub open spec fn syms_of_v(ps: Seq<MalV>, i: int) -> Option<Seq<Seq<char>>>
    decreases ps.len() - i,
{
    if 0 <= i < ps.len() {
        match ps[i] {
            MalV::Sym(s) => match syms_of_v(ps, i + 1) {
                Option::Some(rest) => Option::Some(seq![s] + rest),
                Option::None => Option::None,
            },
            _ => Option::None,
        }
    } else {
        Option::Some(Seq::empty())
    }
}

/// The first non-symbol in a parameter list, for the typed fault.
pub open spec fn first_non_sym_v(ps: Seq<MalV>, i: int) -> MalV
    decreases ps.len() - i,
{
    if 0 <= i < ps.len() {
        match ps[i] {
            MalV::Sym(_) => first_non_sym_v(ps, i + 1),
            other => other,
        }
    } else {
        MalV::Nil
    }
}

/// Binds fixed parameters positionally, then the collector (if any) to
/// the list of remaining arguments.
pub open spec fn bind_params_v(
    ps: Seq<Seq<char>>,
    args: Seq<MalV>,
    i: int,
    ai: int,
    env: EnvV,
) -> EnvV
    decreases ps.len() - i,
{
    if 0 <= i < ps.len() {
        if ps[i] == "&"@ {
            if i + 1 < ps.len() {
                env_set_v(env, ps[i + 1], MalV::List(args.subrange(ai, args.len() as int)))
            } else {
                env
            }
        } else {
            bind_params_v(
                ps,
                args,
                i + 1,
                ai + 1,
                env_set_v(
                    env,
                    ps[i],
                    if 0 <= ai < args.len() {
                        args[ai]
                    } else {
                        MalV::Nil
                    },
                ),
            )
        }
    } else {
        env
    }
}

/// The arity fault of a closure call.
pub open spec fn closure_arity_err_v(name: Seq<char>, ps: Seq<Seq<char>>, got: nat) -> ErrV {
    if is_variadic_v(ps) {
        ErrV::Arity(name, (ps.len() - 2) as nat, true, got)
    } else {
        ErrV::Arity(name, ps.len(), false, got)
    }
}

/// One evaluation step of the spec interpreter.  `fuel` bounds the
/// nesting depth, standing in for the host call stack; running out of
/// it is the unrecoverable fault.
pub open spec fn eval_spec(e: MalV, env: EnvV, fuel: nat) -> EvalOut
    decreases fuel, 0int,
{
    if fuel == 0 {
        EvalOut { res: Result::Err(FailV::DepthExceeded), env, out: Seq::empty() }
    } else {
        match e {
            MalV::Sym(s) => match lookup_v(env.map, s) {
                Option::Some(v) => EvalOut { res: Result::Ok(v), env, out: Seq::empty() },
                Option::None => EvalOut {
                    res: Result::Err(FailV::Error(ErrV::Unbound(s))),
                    env,
                    out: Seq::empty(),
                },
            },
            MalV::Arr(items) => {
                let o = eval_elems_spec(items, 0, env, (fuel - 1) as nat);
                match o.res {
                    Result::Ok(vs) => EvalOut {
                        res: Result::Ok(MalV::Arr(vs->Arr_0)),
                        env: o.env,
                        out: o.out,
                    },
                    Result::Err(f) => EvalOut { res: Result::Err(f), env: o.env, out: o.out },
                }
            },
            MalV::Dict(entries) => eval_vals_spec(entries, 0, env, (fuel - 1) as nat),
            MalV::List(items) => if items.len() == 0 {
                EvalOut { res: Result::Ok(e), env, out: Seq::empty() }
            } else {
                eval_list_spec(items, env, (fuel - 1) as nat)
            },
            _ => EvalOut { res: Result::Ok(e), env, out: Seq::empty() },
        }
    }
}

/// Evaluates the elements of a vector, or of an argument list, from
/// `i` on, each inside its own checkpointed scope.  The result carries
/// the evaluated tail as an `Arr`.
pub open spec fn eval_elems_spec(items: Seq<MalV>, i: int, env: EnvV, fuel: nat) -> EvalOut
    decreases fuel, items.len() - i,
{
    if 0 <= i < items.len() {
        let o1 = eval_spec(items[i], env_push_v(env), fuel);
        let env1 = env_pop_v(o1.env);
        match o1.res {
            Result::Ok(v) => {
                let o2 = eval_elems_spec(items, i + 1, env1, fuel);
                match o2.res {
                    Result::Ok(vs) => EvalOut {
                        res: Result::Ok(MalV::Arr(seq![v] + vs->Arr_0)),
                        env: o2.env,
                        out: o1.out + o2.out,
                    },
                    Result::Err(f) => EvalOut {
                        res: Result::Err(f),
                        env: o2.env,
                        out: o1.out + o2.out,
                    },
                }
            },
            Result::Err(f) => EvalOut { res: Result::Err(f), env: env1, out: o1.out },
        }
    } else {
        EvalOut { res: Result::Ok(MalV::Arr(Seq::empty())), env, out: Seq::empty() }
    }
}

/// Evaluates the values of a map literal in place, each inside its own
/// checkpointed scope; keys are kept as they are.
pub open spec fn eval_vals_spec(entries: Seq<(KeyV, MalV)>, i: int, env: EnvV, fuel: nat) -> EvalOut
    decreases fuel, entries.len() - i,
{
    if 0 <= i < entries.len() {
        let o1 = eval_spec(entries[i].1, env_push_v(env), fuel);
        let env1 = env_pop_v(o1.env);
        match o1.res {
            Result::Ok(v) => {
                let o2 = eval_vals_spec(entries, i + 1, env1, fuel);
                match o2.res {
                    Result::Ok(d) => EvalOut {
                        res: Result::Ok(
                            MalV::Dict(seq![(entries[i].0, v)] + d->Dict_0),
                        ),
                        env: o2.env,
                        out: o1.out + o2.out,
                    },
                    Result::Err(f) => EvalOut {
                        res: Result::Err(f),
                        env: o2.env,
                        out: o1.out + o2.out,
                    },
                }
            },
            Result::Err(f) => EvalOut { res: Result::Err(f), env: env1, out: o1.out },
        }
    } else {
        EvalOut { res: Result::Ok(MalV::Dict(Seq::empty())), env, out: Seq::empty() }
    }
}

/// A non-empty list form: a special form, or an application.
pub open spec fn eval_list_spec(items: Seq<MalV>, env: EnvV, fuel: nat) -> EvalOut
    decreases fuel, 2int,
{
    if fuel == 0 {
        EvalOut { res: Result::Err(FailV::DepthExceeded), env, out: Seq::empty() }
    } else {
        match items[0] {
            MalV::Sym(s) => if s == "def!"@ {
                def_spec(items, env, fuel)
            } else if s == "let*"@ {
                let_spec(items, env, fuel)
            } else if s == "fn*"@ {
                fn_spec(items, env)
            } else if s == "do"@ {
                do_spec(items, 1, env, (fuel - 1) as nat)
            } else if s == "if"@ {
                if_spec(items, env, fuel)
            } else {
                apply_form_spec(items, env, fuel)
            },
            _ => apply_form_spec(items, env, fuel),
        }
    }
}

/// `def!`: evaluate the value, name a plain closure after its binding,
/// and bind the symbol so that it escapes the current scope.
pub open spec fn def_spec(items: Seq<MalV>, env: EnvV, fuel: nat) -> EvalOut
    decreases fuel, 1int,
{
    if fuel == 0 {
        EvalOut { res: Result::Err(FailV::DepthExceeded), env, out: Seq::empty() }
    } else {
    if items.len() != 3 {
        EvalOut {
            res: Result::Err(
                FailV::Error(ErrV::Arity("def!"@, 2, false, (items.len() - 1) as nat)),
            ),
            env,
            out: Seq::empty(),
        }
    } else {
        match items[1] {
            MalV::Sym(name) => {
                let o = eval_spec(items[2], env, (fuel - 1) as nat);
                match o.res {
                    Result::Ok(v) => {
                        let bound = match v {
                            MalV::Func(FuncV::Closure(ps, cenv, body)) => MalV::Func(
                                FuncV::NamedClosure(name, ps, cenv, body),
                            ),
                            other => other,
                        };
                        EvalOut {
                            res: Result::Ok(bound),
                            env: env_set_v(o.env, name, bound),
                            out: o.out,
                        }
                    },
                    Result::Err(f) => o,
                }
            },
            other => EvalOut {
                res: Result::Err(FailV::Error(type_err_v("symbol"@, other))),
                env,
                out: Seq::empty(),
            },
        }
    }
    }
}

/// `let*`: bind pairs sequentially inside one checkpoint, evaluate the
/// body there, and discard the scope on every exit path.
pub open spec fn let_spec(items: Seq<MalV>, env: EnvV, fuel: nat) -> EvalOut
    decreases fuel, 1int,
{
    if fuel == 0 {
        EvalOut { res: Result::Err(FailV::DepthExceeded), env, out: Seq::empty() }
    } else {
    if items.len() != 3 {
        EvalOut {
            res: Result::Err(
                FailV::Error(ErrV::Arity("let*"@, 2, false, (items.len() - 1) as nat)),
            ),
            env,
            out: Seq::empty(),
        }
    } else {
        let bs = match items[1] {
            MalV::List(bs) => Option::Some(bs),
            MalV::Arr(bs) => Option::Some(bs),
            _ => Option::None,
        };
        match bs {
            Option::None => EvalOut {
                res: Result::Err(FailV::Error(type_err_v("array or list"@, items[1]))),
                env,
                out: Seq::empty(),
            },
            Option::Some(bs) => if bs.len() % 2 != 0 {
                EvalOut {
                    res: Result::Err(FailV::Error(ErrV::Arity("let*"@, 2, true, bs.len()))),
                    env,
                    out: Seq::empty(),
                }
            } else {
                let o1 = let_pairs_spec(bs, 0, env_push_v(env), (fuel - 1) as nat);
                match o1.res {
                    Result::Ok(_ignored) => {
                        let o2 = eval_spec(items[2], o1.env, (fuel - 1) as nat);
                        EvalOut { res: o2.res, env: env_pop_v(o2.env), out: o1.out + o2.out }
                    },
                    Result::Err(f) => EvalOut {
                        res: Result::Err(f),
                        env: env_pop_v(o1.env),
                        out: o1.out,
                    },
                }
            },
        }
    }
    }
}

/// Binds `let*` pairs from `i` on: each right-hand side sees all the
/// earlier pairs of the same form.
pub open spec fn let_pairs_spec(bs: Seq<MalV>, i: int, env: EnvV, fuel: nat) -> EvalOut
    decreases fuel, bs.len() - i,
{
    if 0 <= i && i + 1 < bs.len() {
        match bs[i] {
            MalV::Sym(name) => {
                let o1 = eval_spec(bs[i + 1], env, fuel);
                match o1.res {
                    Result::Ok(v) => {
                        let o2 = let_pairs_spec(bs, i + 2, env_set_v(o1.env, name, v), fuel);
                        EvalOut { res: o2.res, env: o2.env, out: o1.out + o2.out }
                    },
                    Result::Err(f) => o1,
                }
            },
            other => EvalOut {
                res: Result::Err(FailV::Error(type_err_v("symbol"@, other))),
                env,
                out: Seq::empty(),
            },
        }
    } else {
        EvalOut { res: Result::Ok(MalV::Nil), env, out: Seq::empty() }
    }
}

/// `fn*`: validate the parameter list and capture the environment by
/// snapshot; the body is stored unevaluated.
pub open spec fn fn_spec(items: Seq<MalV>, env: EnvV) -> EvalOut {
    if items.len() != 3 {
        EvalOut {
            res: Result::Err(
                FailV::Error(ErrV::Arity("fn*"@, 2, false, (items.len() - 1) as nat)),
            ),
            env,
            out: Seq::empty(),
        }
    } else {
        let ps = match items[1] {
            MalV::List(ps) => Option::Some(ps),
            MalV::Arr(ps) => Option::Some(ps),
            _ => Option::None,
        };
        match ps {
            Option::None => EvalOut {
                res: Result::Err(FailV::Error(type_err_v("array or list"@, items[1]))),
                env,
                out: Seq::empty(),
            },
            Option::Some(ps) => match syms_of_v(ps, 0) {
                Option::None => EvalOut {
                    res: Result::Err(
                        FailV::Error(type_err_v("symbol"@, first_non_sym_v(ps, 0))),
                    ),
                    env,
                    out: Seq::empty(),
                },
                Option::Some(names) => if !valid_params_v(names) {
                    EvalOut {
                        res: Result::Err(FailV::Error(ErrV::BadForm("fn*"@))),
                        env,
                        out: Seq::empty(),
                    }
                } else {
                    EvalOut {
                        res: Result::Ok(
                            MalV::Func(FuncV::Closure(names, env, Box::new(items[2]))),
                        ),
                        env,
                        out: Seq::empty(),
                    }
                },
            },
        }
    }
}

/// `do`: evaluate each argument in order in the current scope; the
/// value is the last one's, or nil with no arguments.
pub open spec fn do_spec(items: Seq<MalV>, i: int, env: EnvV, fuel: nat) -> EvalOut
    decreases fuel, items.len() - i,
{
    if 0 <= i < items.len() {
        let o1 = eval_spec(items[i], env, fuel);
        match o1.res {
            Result::Ok(v) => if i + 1 == items.len() {
                o1
            } else {
                let o2 = do_spec(items, i + 1, o1.env, fuel);
                EvalOut { res: o2.res, env: o2.env, out: o1.out + o2.out }
            },
            Result::Err(f) => o1,
        }
    } else {
        EvalOut { res: Result::Ok(MalV::Nil), env, out: Seq::empty() }
    }
}

/// `if`: any value but false and nil is truthy; exactly the taken
/// branch is evaluated.
pub open spec fn if_spec(items: Seq<MalV>, env: EnvV, fuel: nat) -> EvalOut
    decreases fuel, 1int,
{
    if fuel == 0 {
        EvalOut { res: Result::Err(FailV::DepthExceeded), env, out: Seq::empty() }
    } else {
    if items.len() != 3 && items.len() != 4 {
        EvalOut {
            res: Result::Err(
                FailV::Error(ErrV::Arity("if"@, 2, true, (items.len() - 1) as nat)),
            ),
            env,
            out: Seq::empty(),
        }
    } else {
        let o1 = eval_spec(items[1], env, (fuel - 1) as nat);
        match o1.res {
            Result::Ok(c) => if crate::types::is_truesy_v(c) {
                let o2 = eval_spec(items[2], o1.env, (fuel - 1) as nat);
                EvalOut { res: o2.res, env: o2.env, out: o1.out + o2.out }
            } else if items.len() == 4 {
                let o2 = eval_spec(items[3], o1.env, (fuel - 1) as nat);
                EvalOut { res: o2.res, env: o2.env, out: o1.out + o2.out }
            } else {
                EvalOut { res: Result::Ok(MalV::Nil), env: o1.env, out: o1.out }
            },
            Result::Err(f) => o1,
        }
    }
    }
}

/// An application: evaluate the head to a function, evaluate the tail
/// as arguments inside one checkpointed scope, then apply.
pub open spec fn apply_form_spec(items: Seq<MalV>, env: EnvV, fuel: nat) -> EvalOut
    decreases fuel, 1int,
{
    if fuel == 0 {
        EvalOut { res: Result::Err(FailV::DepthExceeded), env, out: Seq::empty() }
    } else {
    let o1 = eval_spec(items[0], env, (fuel - 1) as nat);
    match o1.res {
        Result::Ok(fv) => match fv {
            MalV::Func(f) => {
                let o2 = eval_elems_spec(items, 1, env_push_v(o1.env), (fuel - 1) as nat);
                let env2 = env_pop_v(o2.env);
                match o2.res {
                    Result::Ok(argsv) => {
                        let o3 = apply_spec(f, argsv->Arr_0, (fuel - 1) as nat);
                        EvalOut { res: o3.res, env: env2, out: o1.out + o2.out + o3.out }
                    },
                    Result::Err(fl) => EvalOut {
                        res: Result::Err(fl),
                        env: env2,
                        out: o1.out + o2.out,
                    },
                }
            },
            other => EvalOut {
                res: Result::Err(FailV::Error(type_err_v("function"@, other))),
                env: o1.env,
                out: o1.out,
            },
        },
        Result::Err(f) => o1,
    }
    }
}

/// Applies a function value to evaluated arguments.  The ambient scope
/// plays no part: a closure runs against its own captured snapshot.
pub open spec fn apply_spec(f: FuncV, args: Seq<MalV>, fuel: nat) -> ApplyOut
    decreases fuel, 2int,
{
    match f {
        FuncV::Native(n) => {
            let (res, emitted) = native_apply_v(n, args);
            match res {
                Result::Ok(v) => ApplyOut { res: Result::Ok(v), out: emitted },
                Result::Err(e) => ApplyOut { res: Result::Err(FailV::Error(e)), out: emitted },
            }
        },
        FuncV::Closure(ps, cenv, body) => closure_call_spec(
            "#<function>"@,
            ps,
            cenv,
            *body,
            args,
            fuel,
        ),
        FuncV::NamedClosure(name, ps, cenv, body) => {
            let self_copy = MalV::Func(FuncV::NamedClosure(name, ps, cenv, body));
            closure_call_spec(name, ps, env_set_v(cenv, name, self_copy), *body, args, fuel)
        },
    }
}

/// Calls a closure: check the arity, bind parameters in the captured
/// snapshot, and evaluate the stored body there.
pub open spec fn closure_call_spec(
    name: Seq<char>,
    ps: Seq<Seq<char>>,
    cenv: EnvV,
    body: MalV,
    args: Seq<MalV>,
    fuel: nat,
) -> ApplyOut
    decreases fuel, 1int,
{
    let arity_ok = if is_variadic_v(ps) {
        args.len() >= ps.len() - 2
    } else {
        args.len() == ps.len()
    };
    if !arity_ok {
        ApplyOut {
            res: Result::Err(FailV::Error(closure_arity_err_v(name, ps, args.len()))),
            out: Seq::empty(),
        }
    } else {
        let benv = bind_params_v(ps, args, 0, 0, cenv);
        let o = eval_spec(body, benv, fuel);
        ApplyOut { res: o.res, out: o.out }
    }
}

} // verus!

verus! {

// ------------------------------------------------------------------
// The scoping discipline, proved: evaluation only ever extends the
// current frame with compensated changes, so every scope that is
// opened is fully reverted on all exit paths.
// ------------------------------------------------------------------

/// Evaluation extends the current frame: the history below stays, no
/// stray markers appear, and unwinding what was added restores the
/// store that was current before.
pub proof fn lemma_eval_frame(e: MalV, env: EnvV, fuel: nat)
    ensures
        frame_ext_v(env, eval_spec(e, env, fuel).env),
    decreases fuel, 0int,
{
    lemma_frame_refl(env);
    if fuel > 0 {
        match e {
            MalV::Arr(items) => {
                lemma_elems_frame(items, 0, env, (fuel - 1) as nat);
            },
            MalV::Dict(entries) => {
                lemma_vals_frame(entries, 0, env, (fuel - 1) as nat);
            },
            MalV::List(items) => {
                if items.len() != 0 {
                    lemma_list_frame(items, env, (fuel - 1) as nat);
                }
            },
            _ => {},
        }
    }
}

/// Element evaluation restores the environment exactly: each element
/// runs in its own scope, and that scope is popped on every path.
pub proof fn lemma_elems_frame(items: Seq<MalV>, i: int, env: EnvV, fuel: nat)
    ensures
        eval_elems_spec(items, i, env, fuel).env == env,
    decreases fuel, items.len() - i,
{
    if 0 <= i < items.len() {
        lemma_eval_frame(items[i], env_push_v(env), fuel);
        let o1 = eval_spec(items[i], env_push_v(env), fuel);
        lemma_frame_push_pop(env, o1.env);
        match o1.res {
            Result::Ok(_v) => {
                lemma_elems_frame(items, i + 1, env, fuel);
            },
            Result::Err(_f) => {},
        }
    }
}

/// Map-value evaluation restores the environment exactly.
pub proof fn lemma_vals_frame(entries: Seq<(KeyV, MalV)>, i: int, env: EnvV, fuel: nat)
    ensures
        eval_vals_spec(entries, i, env, fuel).env == env,
    decreases fuel, entries.len() - i,
{
    if 0 <= i < entries.len() {
        lemma_eval_frame(entries[i].1, env_push_v(env), fuel);
        let o1 = eval_spec(entries[i].1, env_push_v(env), fuel);
        lemma_frame_push_pop(env, o1.env);
        match o1.res {
            Result::Ok(_v) => {
                lemma_vals_frame(entries, i + 1, env, fuel);
            },
            Result::Err(_f) => {},
        }
    }
}

pub proof fn lemma_list_frame(items: Seq<MalV>, env: EnvV, fuel: nat)
    ensures
        frame_ext_v(env, eval_list_spec(items, env, fuel).env),
    decreases fuel, 2int,
{
    lemma_frame_refl(env);
    if fuel > 0 {
        match items[0] {
            MalV::Sym(s) => if s == "def!"@ {
                lemma_def_frame(items, env, fuel);
            } else if s == "let*"@ {
                lemma_let_frame(items, env, fuel);
            } else if s == "fn*"@ {
            } else if s == "do"@ {
                lemma_do_frame(items, 1, env, (fuel - 1) as nat);
            } else if s == "if"@ {
                lemma_if_frame(items, env, fuel);
            } else {
                lemma_apply_form_frame(items, env, fuel);
            },
            _ => {
                lemma_apply_form_frame(items, env, fuel);
            },
        }
    }
}

pub proof fn lemma_def_frame(items: Seq<MalV>, env: EnvV, fuel: nat)
    ensures
        frame_ext_v(env, def_spec(items, env, fuel).env),
    decreases fuel, 1int,
{
    lemma_frame_refl(env);
    if fuel > 0 && items.len() == 3 {
        match items[1] {
            MalV::Sym(name) => {
                lemma_eval_frame(items[2], env, (fuel - 1) as nat);
                let o = eval_spec(items[2], env, (fuel - 1) as nat);
                match o.res {
                    Result::Ok(v) => {
                        let bound = match v {
                            MalV::Func(FuncV::Closure(ps, cenv, body)) => MalV::Func(
                                FuncV::NamedClosure(name, ps, cenv, body),
                            ),
                            other => other,
                        };
                        lemma_frame_set(o.env, name, bound);
                        lemma_frame_trans(env, o.env, env_set_v(o.env, name, bound));
                    },
                    Result::Err(_f) => {},
                }
            },
            _ => {},
        }
    }
}

pub proof fn lemma_let_frame(items: Seq<MalV>, env: EnvV, fuel: nat)
    ensures
        frame_ext_v(env, let_spec(items, env, fuel).env),
    decreases fuel, 1int,
{
    lemma_frame_refl(env);
    if fuel > 0 && items.len() == 3 {
        let bs = match items[1] {
            MalV::List(bs) => Option::Some(bs),
            MalV::Arr(bs) => Option::Some(bs),
            _ => Option::None,
        };
        match bs {
            Option::Some(bs) => if bs.len() % 2 == 0 {
                lemma_let_pairs_frame(bs, 0, env_push_v(env), (fuel - 1) as nat);
                let o1 = let_pairs_spec(bs, 0, env_push_v(env), (fuel - 1) as nat);
                match o1.res {
                    Result::Ok(_x) => {
                        lemma_eval_frame(items[2], o1.env, (fuel - 1) as nat);
                        let o2 = eval_spec(items[2], o1.env, (fuel - 1) as nat);
                        lemma_frame_trans(env_push_v(env), o1.env, o2.env);
                        lemma_frame_push_pop(env, o2.env);
                    },
                    Result::Err(_f) => {
                        lemma_frame_push_pop(env, o1.env);
                    },
                }
            },
            Option::None => {},
        }
    }
}

pub proof fn lemma_let_pairs_frame(bs: Seq<MalV>, i: int, env: EnvV, fuel: nat)
    ensures
        frame_ext_v(env, let_pairs_spec(bs, i, env, fuel).env),
    decreases fuel, bs.len() - i,
{
    lemma_frame_refl(env);
    if 0 <= i && i + 1 < bs.len() {
        match bs[i] {
            MalV::Sym(name) => {
                lemma_eval_frame(bs[i + 1], env, fuel);
                let o1 = eval_spec(bs[i + 1], env, fuel);
                match o1.res {
                    Result::Ok(v) => {
                        lemma_frame_set(o1.env, name, v);
                        let env2 = env_set_v(o1.env, name, v);
                        lemma_let_pairs_frame(bs, i + 2, env2, fuel);
                        let o2 = let_pairs_spec(bs, i + 2, env2, fuel);
                        lemma_frame_trans(env, o1.env, env2);
                        lemma_frame_trans(env, env2, o2.env);
                    },
                    Result::Err(_f) => {},
                }
            },
            _ => {},
        }
    }
}

pub proof fn lemma_do_frame(items: Seq<MalV>, i: int, env: EnvV, fuel: nat)
    ensures
        frame_ext_v(env, do_spec(items, i, env, fuel).env),
    decreases fuel, items.len() - i,
{
    lemma_frame_refl(env);
    if 0 <= i < items.len() {
        lemma_eval_frame(items[i], env, fuel);
        let o1 = eval_spec(items[i], env, fuel);
        match o1.res {
            Result::Ok(_v) => {
                if i + 1 != items.len() {
                    lemma_do_frame(items, i + 1, o1.env, fuel);
                    lemma_frame_trans(env, o1.env, do_spec(items, i + 1, o1.env, fuel).env);
                }
            },
            Result::Err(_f) => {},
        }
    }
}

pub proof fn lemma_if_frame(items: Seq<MalV>, env: EnvV, fuel: nat)
    ensures
        frame_ext_v(env, if_spec(items, env, fuel).env),
    decreases fuel, 1int,
{
    lemma_frame_refl(env);
    if fuel > 0 && (items.len() == 3 || items.len() == 4) {
        lemma_eval_frame(items[1], env, (fuel - 1) as nat);
        let o1 = eval_spec(items[1], env, (fuel - 1) as nat);
        match o1.res {
            Result::Ok(c) => {
                if crate::types::is_truesy_v(c) {
                    lemma_eval_frame(items[2], o1.env, (fuel - 1) as nat);
                    lemma_frame_trans(
                        env,
                        o1.env,
                        eval_spec(items[2], o1.env, (fuel - 1) as nat).env,
                    );
                } else if items.len() == 4 {
                    lemma_eval_frame(items[3], o1.env, (fuel - 1) as nat);
                    lemma_frame_trans(
                        env,
                        o1.env,
                        eval_spec(items[3], o1.env, (fuel - 1) as nat).env,
                    );
                }
            },
            Result::Err(_f) => {},
        }
    }
}

pub proof fn lemma_apply_form_frame(items: Seq<MalV>, env: EnvV, fuel: nat)
    ensures
        frame_ext_v(env, apply_form_spec(items, env, fuel).env),
    decreases fuel, 1int,
{
    lemma_frame_refl(env);
    if fuel > 0 {
        lemma_eval_frame(items[0], env, (fuel - 1) as nat);
        let o1 = eval_spec(items[0], env, (fuel - 1) as nat);
        match o1.res {
            Result::Ok(fv) => match fv {
                MalV::Func(_f) => {
                    lemma_elems_frame(items, 1, env_push_v(o1.env), (fuel - 1) as nat);
                    let o2 = eval_elems_spec(items, 1, env_push_v(o1.env), (fuel - 1) as nat);
                    lemma_frame_refl(env_push_v(o1.env));
                    lemma_frame_push_pop(o1.env, o2.env);
                },
                _ => {},
            },
            Result::Err(_f) => {},
        }
    }
}

} // verus!

verus! {

// ------------------------------------------------------------------
// The executable evaluator, proved to agree with the spec interpreter.
// ------------------------------------------------------------------

/// Agreement between one executable step and its spec-level outcome.
pub open spec fn agrees(
    r: Result<Mal, Failure>,
    o: EvalOut,
    env2: EnvV,
    out0: Seq<Seq<char>>,
    out2: Seq<Seq<char>>,
) -> bool {
    &&& env2 == o.env
    &&& out2 == out0 + o.out
    &&& match r {
        Ok(m) => o.res == Result::<MalV, FailV>::Ok(m@),
        Err(f) => o.res == Result::<MalV, FailV>::Err(f@),
    }
}

/// Central judgement: reduce an expression against an environment.
/// `fuel` bounds the nesting depth; exceeding it is the unrecoverable
/// fault, the explicit analogue of exhausting the host call stack.
pub fn eval(expr: &Mal, env: &mut Env, out: &mut Vec<String>, fuel: u64) -> (r: Result<
    Mal,
    Failure,
>)
    ensures
        agrees(
            r,
            eval_spec(expr@, old(env)@, fuel as nat),
            final(env)@,
            old(out).deep_view(),
            final(out).deep_view(),
        ),
    decreases fuel, 0int,
{
    proof {
        assert(old(out).deep_view() + Seq::<Seq<char>>::empty() =~= old(out).deep_view());
    }
    if fuel == 0 {
        return Err(Failure::DepthExceeded);
    }
    match expr {
        Mal::Sym(s) => match env.get(s) {
            Ok(v) => Ok(v),
            Err(e) => Err(Failure::Error(e)),
        },
        Mal::Arr(a) => {
            match eval_elems(&a.items, 0, env, out, fuel - 1) {
                Ok(vs) => Ok(Mal::Arr(MalArr { items: vs })),
                Err(f) => Err(f),
            }
        },
        Mal::Dict(d) => {
            match eval_vals(&d.entries, 0, env, out, fuel - 1) {
                Ok(es) => Ok(Mal::Dict(MalMap { entries: es })),
                Err(f) => Err(f),
            }
        },
        Mal::List(l) => {
            proof {
                crate::types::lemma_view_mal_seq_len(l.items@);
            }
            if l.items.len() == 0 {
                Ok(crate::types::clone_mal(expr))
            } else {
                eval_list(&l.items, env, out, fuel - 1)
            }
        },
        _ => Ok(crate::types::clone_mal(expr)),
    }
}

/// Evaluates elements from `i` on, each inside its own checkpointed
/// scope, so that sibling elements do not see each other's bindings.
fn eval_elems(items: &Vec<Mal>, i: usize, env: &mut Env, out: &mut Vec<String>, fuel: u64) -> (r:
    Result<Vec<Mal>, Failure>)
    requires
        i <= items@.len(),
    ensures
        ({
            let o = eval_elems_spec(view_mal_seq(items@), i as int, old(env)@, fuel as nat);
            &&& final(env)@ == o.env
            &&& final(out).deep_view() == old(out).deep_view() + o.out
            &&& match r {
                Ok(vs) => o.res == Result::<MalV, FailV>::Ok(MalV::Arr(view_mal_seq(vs@))),
                Err(f) => o.res == Result::<MalV, FailV>::Err(f@),
            }
        }),
    decreases fuel, items@.len() - i,
{
    proof {
        crate::types::lemma_view_mal_seq_len(items@);
        assert(old(out).deep_view() + Seq::<Seq<char>>::empty() =~= old(out).deep_view());
    }
    if i == items.len() {
        let empty: Vec<Mal> = Vec::new();
        return Ok(empty);
    }
    proof {
        crate::types::lemma_view_mal_seq_index(items@, i as int);
    }
    let ghost env0 = env@;
    env.push_scope();
    let r1 = eval(&items[i], env, out, fuel);
    proof {
        lemma_eval_frame(items@[i as int]@, env_push_v(env0), fuel as nat);
        lemma_frame_has_marker(env0, eval_spec(items@[i as int]@, env_push_v(env0), fuel as nat).env);
    }
    env.pop_scope();
    match r1 {
        Ok(v) => {
            match eval_elems(items, i + 1, env, out, fuel) {
                Ok(mut vs) => {
                    let ghost tail = view_mal_seq(vs@);
                    vs.insert(0, v);
                    proof {
                        broadcast use crate::types::group_view_lemmas;

                        assert(view_mal_seq(vs@) =~= seq![v@] + tail);
                        assert(final(out).deep_view() =~= old(out).deep_view()
                            + eval_elems_spec(
                            view_mal_seq(items@),
                            i as int,
                            old(env)@,
                            fuel as nat,
                        ).out);
                    }
                    Ok(vs)
                },
                Err(f) => {
                    proof {
                        assert(final(out).deep_view() =~= old(out).deep_view()
                            + eval_elems_spec(
                            view_mal_seq(items@),
                            i as int,
                            old(env)@,
                            fuel as nat,
                        ).out);
                    }
                    Err(f)
                },
            }
        },
        Err(f) => Err(f),
    }
}

/// Evaluates map values from `i` on, keys unchanged, each value in its
/// own checkpointed scope.
fn eval_vals(
    entries: &Vec<(crate::types::MapKey, Mal)>,
    i: usize,
    env: &mut Env,
    out: &mut Vec<String>,
    fuel: u64,
) -> (r: Result<Vec<(crate::types::MapKey, Mal)>, Failure>)
    requires
        i <= entries@.len(),
    ensures
        ({
            let o = eval_vals_spec(
                crate::types::view_entry_seq(entries@),
                i as int,
                old(env)@,
                fuel as nat,
            );
            &&& final(env)@ == o.env
            &&& final(out).deep_view() == old(out).deep_view() + o.out
            &&& match r {
                Ok(es) => o.res == Result::<MalV, FailV>::Ok(
                    MalV::Dict(crate::types::view_entry_seq(es@)),
                ),
                Err(f) => o.res == Result::<MalV, FailV>::Err(f@),
            }
        }),
    decreases fuel, entries@.len() - i,
{
    proof {
        crate::types::lemma_view_entry_seq_len(entries@);
        assert(old(out).deep_view() + Seq::<Seq<char>>::empty() =~= old(out).deep_view());
    }
    if i == entries.len() {
        let empty: Vec<(crate::types::MapKey, Mal)> = Vec::new();
        return Ok(empty);
    }
    proof {
        crate::types::lemma_view_entry_seq_index(entries@, i as int);
    }
    let ghost env0 = env@;
    env.push_scope();
    let r1 = eval(&entries[i].1, env, out, fuel);
    proof {
        lemma_eval_frame(entries@[i as int].1@, env_push_v(env0), fuel as nat);
        lemma_frame_has_marker(
            env0,
            eval_spec(entries@[i as int].1@, env_push_v(env0), fuel as nat).env,
        );
    }
    env.pop_scope();
    match r1 {
        Ok(v) => {
            match eval_vals(entries, i + 1, env, out, fuel) {
                Ok(mut es) => {
                    let ghost tail = crate::types::view_entry_seq(es@);
                    let key = entries[i].0.clone();
                    es.insert(0, (key, v));
                    proof {
                        broadcast use crate::types::group_view_lemmas;

                        assert(crate::types::view_entry_seq(es@) =~= seq![
                            (entries@[i as int].0@, v@),
                        ] + tail);
                        assert(final(out).deep_view() =~= old(out).deep_view()
                            + eval_vals_spec(
                            crate::types::view_entry_seq(entries@),
                            i as int,
                            old(env)@,
                            fuel as nat,
                        ).out);
                    }
                    Ok(es)
                },
                Err(f) => {
                    proof {
                        assert(final(out).deep_view() =~= old(out).deep_view()
                            + eval_vals_spec(
                            crate::types::view_entry_seq(entries@),
                            i as int,
                            old(env)@,
                            fuel as nat,
                        ).out);
                    }
                    Err(f)
                },
            }
        },
        Err(f) => Err(f),
    }
}

} // verus!

verus! {

/// A non-empty list: a special form by head symbol, or an application.
fn eval_list(items: &Vec<Mal>, env: &mut Env, out: &mut Vec<String>, fuel: u64) -> (r: Result<
    Mal,
    Failure,
>)
    requires
        items@.len() >= 1,
    ensures
        agrees(
            r,
            eval_list_spec(view_mal_seq(items@), old(env)@, fuel as nat),
            final(env)@,
            old(out).deep_view(),
            final(out).deep_view(),
        ),
    decreases fuel, 2int,
{
    proof {
        crate::types::lemma_view_mal_seq_len(items@);
        crate::types::lemma_view_mal_seq_index(items@, 0);
        assert(old(out).deep_view() + Seq::<Seq<char>>::empty() =~= old(out).deep_view());
    }
    if fuel == 0 {
        return Err(Failure::DepthExceeded);
    }
    match &items[0] {
        Mal::Sym(s) => {
            if crate::types::str_eq(s.inner.as_str(), "def!") {
                def_form(items, env, out, fuel)
            } else if crate::types::str_eq(s.inner.as_str(), "let*") {
                let_form(items, env, out, fuel)
            } else if crate::types::str_eq(s.inner.as_str(), "fn*") {
                fn_form(items, env)
            } else if crate::types::str_eq(s.inner.as_str(), "do") {
                do_form(items, 1, env, out, fuel - 1)
            } else if crate::types::str_eq(s.inner.as_str(), "if") {
                if_form(items, env, out, fuel)
            } else {
                apply_form(items, env, out, fuel)
            }
        },
        _ => apply_form(items, env, out, fuel),
    }
}

/// `def!`: evaluate, name a plain closure after its binding, and bind
/// the symbol in the current environment.
fn def_form(items: &Vec<Mal>, env: &mut Env, out: &mut Vec<String>, fuel: u64) -> (r: Result<
    Mal,
    Failure,
>)
    requires
        items@.len() >= 1,
        fuel >= 1,
    ensures
        agrees(
            r,
            def_spec(view_mal_seq(items@), old(env)@, fuel as nat),
            final(env)@,
            old(out).deep_view(),
            final(out).deep_view(),
        ),
    decreases fuel, 1int,
{
    proof {
        crate::types::lemma_view_mal_seq_len(items@);
        assert(old(out).deep_view() + Seq::<Seq<char>>::empty() =~= old(out).deep_view());
    }
    if items.len() != 3 {
        return Err(
            Failure::Error(
                MalError::Arity {
                    name: String::from_str("def!"),
                    expected: 2,
                    at_least: false,
                    got: items.len() - 1,
                },
            ),
        );
    }
    proof {
        crate::types::lemma_view_mal_seq_index(items@, 1);
        crate::types::lemma_view_mal_seq_index(items@, 2);
    }
    let name = match &items[1] {
        Mal::Sym(s) => s.clone(),
        other => {
            return Err(Failure::Error(conv_err(other, "symbol")));
        },
    };
    let v = match eval(&items[2], env, out, fuel - 1) {
        Ok(v) => v,
        Err(f) => {
            return Err(f);
        },
    };
    let bound = match v {
        Mal::Func(MalFunc::Closure(ps, cenv, body)) => Mal::Func(
            MalFunc::NamedClosure(name.clone(), ps, cenv, body),
        ),
        other => other,
    };
    let copy = crate::types::clone_mal(&bound);
    env.set(name, copy);
    Ok(bound)
}

/// The typed fault for a value of the wrong shape.
fn conv_err(got: &Mal, expected: &str) -> (e: MalError)
    ensures
        e@ == type_err_v(expected@, got@),
{
    MalError::Type {
        expected: String::from_str(expected),
        got: String::from_str(got.kind_name()),
    }
}

/// `let*`: bind pairs sequentially inside one checkpoint, evaluate the
/// body there, and discard the scope on every exit path.
fn let_form(items: &Vec<Mal>, env: &mut Env, out: &mut Vec<String>, fuel: u64) -> (r: Result<
    Mal,
    Failure,
>)
    requires
        items@.len() >= 1,
        fuel >= 1,
    ensures
        agrees(
            r,
            let_spec(view_mal_seq(items@), old(env)@, fuel as nat),
            final(env)@,
            old(out).deep_view(),
            final(out).deep_view(),
        ),
    decreases fuel, 1int,
{
    proof {
        crate::types::lemma_view_mal_seq_len(items@);
        assert(old(out).deep_view() + Seq::<Seq<char>>::empty() =~= old(out).deep_view());
    }
    if items.len() != 3 {
        return Err(
            Failure::Error(
                MalError::Arity {
                    name: String::from_str("let*"),
                    expected: 2,
                    at_least: false,
                    got: items.len() - 1,
                },
            ),
        );
    }
    proof {
        crate::types::lemma_view_mal_seq_index(items@, 1);
        crate::types::lemma_view_mal_seq_index(items@, 2);
    }
    let bs: &Vec<Mal> = match &items[1] {
        Mal::List(l) => &l.items,
        Mal::Arr(a) => &a.items,
        other => {
            return Err(Failure::Error(conv_err(other, "array or list")));
        },
    };
    proof {
        crate::types::lemma_view_mal_seq_len(bs@);
    }
    if bs.len() % 2 != 0 {
        return Err(
            Failure::Error(
                MalError::Arity {
                    name: String::from_str("let*"),
                    expected: 2,
                    at_least: true,
                    got: bs.len(),
                },
            ),
        );
    }
    let ghost env0 = env@;
    env.push_scope();
    let r1 = let_pairs(bs, 0, env, out, fuel - 1);
    proof {
        lemma_let_pairs_frame(view_mal_seq(bs@), 0, env_push_v(env0), (fuel - 1) as nat);
    }
    match r1 {
        Ok(_u) => {
            let r2 = eval(&items[2], env, out, fuel - 1);
            proof {
                let o1 = let_pairs_spec(view_mal_seq(bs@), 0, env_push_v(env0), (fuel - 1) as nat);
                lemma_eval_frame(items@[2]@, o1.env, (fuel - 1) as nat);
                lemma_frame_trans(
                    env_push_v(env0),
                    o1.env,
                    eval_spec(items@[2]@, o1.env, (fuel - 1) as nat).env,
                );
                lemma_frame_has_marker(
                    env0,
                    eval_spec(items@[2]@, o1.env, (fuel - 1) as nat).env,
                );
            }
            env.pop_scope();
            proof {
                assert(final(out).deep_view() =~= old(out).deep_view()
                    + let_spec(view_mal_seq(items@), old(env)@, fuel as nat).out);
            }
            r2
        },
        Err(f) => {
            proof {
                lemma_frame_has_marker(
                    env0,
                    let_pairs_spec(view_mal_seq(bs@), 0, env_push_v(env0), (fuel - 1) as nat).env,
                );
            }
            env.pop_scope();
            Err(f)
        },
    }
}

/// Binds `let*` pairs from `i` on; each right-hand side sees the
/// earlier pairs.
fn let_pairs(bs: &Vec<Mal>, i: usize, env: &mut Env, out: &mut Vec<String>, fuel: u64) -> (r:
    Result<(), Failure>)
    requires
        i <= bs@.len(),
    ensures
        ({
            let o = let_pairs_spec(view_mal_seq(bs@), i as int, old(env)@, fuel as nat);
            &&& final(env)@ == o.env
            &&& final(out).deep_view() == old(out).deep_view() + o.out
            &&& match r {
                Ok(_u) => o.res == Result::<MalV, FailV>::Ok(MalV::Nil),
                Err(f) => o.res == Result::<MalV, FailV>::Err(f@),
            }
        }),
    decreases fuel, bs@.len() - i,
{
    proof {
        crate::types::lemma_view_mal_seq_len(bs@);
        assert(old(out).deep_view() + Seq::<Seq<char>>::empty() =~= old(out).deep_view());
    }
    if bs.len() - i < 2 {
        return Ok(());
    }
    proof {
        crate::types::lemma_view_mal_seq_index(bs@, i as int);
        crate::types::lemma_view_mal_seq_index(bs@, i + 1);
    }
    let name = match &bs[i] {
        Mal::Sym(s) => s.clone(),
        other => {
            return Err(Failure::Error(conv_err(other, "symbol")));
        },
    };
    let v = match eval(&bs[i + 1], env, out, fuel) {
        Ok(v) => v,
        Err(f) => {
            return Err(f);
        },
    };
    env.set(name, v);
    let r2 = let_pairs(bs, i + 2, env, out, fuel);
    proof {
        assert(final(out).deep_view() =~= old(out).deep_view()
            + let_pairs_spec(view_mal_seq(bs@), i as int, old(env)@, fuel as nat).out);
    }
    r2
}

/// `fn*`: validate the parameter list and produce a closure that
/// snapshot-captures the current environment.
#[verifier::loop_isolation(false)]
fn fn_form(items: &Vec<Mal>, env: &Env) -> (r: Result<Mal, Failure>)
    requires
        items@.len() >= 1,
    ensures
        ({
            let o = fn_spec(view_mal_seq(items@), env@);
            match r {
                Ok(m) => o.res == Result::<MalV, FailV>::Ok(m@),
                Err(f) => o.res == Result::<MalV, FailV>::Err(f@),
            }
        }),
{
    proof {
        crate::types::lemma_view_mal_seq_len(items@);
    }
    if items.len() != 3 {
        return Err(
            Failure::Error(
                MalError::Arity {
                    name: String::from_str("fn*"),
                    expected: 2,
                    at_least: false,
                    got: items.len() - 1,
                },
            ),
        );
    }
    proof {
        crate::types::lemma_view_mal_seq_index(items@, 1);
        crate::types::lemma_view_mal_seq_index(items@, 2);
    }
    let ps: &Vec<Mal> = match &items[1] {
        Mal::List(l) => &l.items,
        Mal::Arr(a) => &a.items,
        other => {
            return Err(Failure::Error(conv_err(other, "array or list")));
        },
    };
    proof {
        crate::types::lemma_view_mal_seq_len(ps@);
    }
    let ghost psv = view_mal_seq(ps@);
    let mut names: Vec<Symbol> = Vec::new();
    let mut i: usize = 0;
    while i < ps.len()
        invariant
            i <= ps@.len(),
            psv == view_mal_seq(ps@),
            psv.len() == ps@.len(),
            view_sym_seq(names@).len() == i,
            syms_of_v(psv, 0) == (match syms_of_v(psv, i as int) {
                Option::<Seq<Seq<char>>>::Some(rest) => Option::<Seq<Seq<char>>>::Some(
                    view_sym_seq(names@) + rest,
                ),
                Option::<Seq<Seq<char>>>::None => Option::<Seq<Seq<char>>>::None,
            }),
            first_non_sym_v(psv, 0) == first_non_sym_v(psv, i as int),
        decreases ps@.len() - i,
    {
        proof {
            crate::types::lemma_view_mal_seq_index(ps@, i as int);
        }
        match &ps[i] {
            Mal::Sym(s) => {
                let ghost prev = names@;
                names.push(s.clone());
                proof {
                    assert(view_sym_seq(names@) =~= view_sym_seq(prev).push(s@));
                    assert forall|rest: Seq<Seq<char>>|
                        view_sym_seq(prev) + (seq![s@] + rest) =~= view_sym_seq(names@)
                            + rest by {}
                }
            },
            other => {
                proof {
                    assert(first_non_sym_v(psv, i as int) == psv[i as int]);
                    assert(syms_of_v(psv, i as int) is None);
                    assert(syms_of_v(psv, 0) is None);
                }
                return Err(Failure::Error(conv_err(other, "symbol")));
            },
        }
        i = i + 1;
    }
    proof {
        assert(view_sym_seq(names@) + Seq::<Seq<char>>::empty() =~= view_sym_seq(names@));
        assert(syms_of_v(psv, 0) == Option::<Seq<Seq<char>>>::Some(view_sym_seq(names@)));
    }
    // the variadic marker may only stand right before a single
    // trailing collector
    let mut k: usize = 0;
    while k < names.len()
        invariant
            k <= names@.len(),
            forall|j: int|
                0 <= j < k && #[trigger] view_sym_seq(names@)[j] == "&"@ ==> j == names@.len()
                    - 2,
        decreases names@.len() - k,
    {
        if crate::types::str_eq(names[k].inner.as_str(), "&") && (names.len() < 2 || k
            != names.len() - 2) {
            proof {
                assert(view_sym_seq(names@)[k as int] == "&"@);
                assert(!valid_params_v(view_sym_seq(names@)));
            }
            return Err(
                Failure::Error(MalError::BadForm { name: String::from_str("fn*") }),
            );
        }
        k = k + 1;
    }
    proof {
        assert(valid_params_v(view_sym_seq(names@)));
    }
    Ok(
        Mal::Func(
            MalFunc::Closure(
                names,
                crate::env::clone_env(env),
                Box::new(crate::types::clone_mal(&items[2])),
            ),
        ),
    )
}

/// `do`: evaluate arguments in order in the current scope; the value
/// is the last one's, or nil.
fn do_form(items: &Vec<Mal>, i: usize, env: &mut Env, out: &mut Vec<String>, fuel: u64) -> (r:
    Result<Mal, Failure>)
    requires
        i <= items@.len(),
    ensures
        agrees(
            r,
            do_spec(view_mal_seq(items@), i as int, old(env)@, fuel as nat),
            final(env)@,
            old(out).deep_view(),
            final(out).deep_view(),
        ),
    decreases fuel, items@.len() - i,
{
    proof {
        crate::types::lemma_view_mal_seq_len(items@);
        assert(old(out).deep_view() + Seq::<Seq<char>>::empty() =~= old(out).deep_view());
    }
    if i == items.len() {
        return Ok(Mal::Nil);
    }
    proof {
        crate::types::lemma_view_mal_seq_index(items@, i as int);
    }
    let v = match eval(&items[i], env, out, fuel) {
        Ok(v) => v,
        Err(f) => {
            return Err(f);
        },
    };
    if i + 1 == items.len() {
        return Ok(v);
    }
    let r2 = do_form(items, i + 1, env, out, fuel);
    proof {
        assert(final(out).deep_view() =~= old(out).deep_view()
            + do_spec(view_mal_seq(items@), i as int, old(env)@, fuel as nat).out);
    }
    r2
}

/// `if`: evaluate the condition, then exactly the taken branch.
fn if_form(items: &Vec<Mal>, env: &mut Env, out: &mut Vec<String>, fuel: u64) -> (r: Result<
    Mal,
    Failure,
>)
    requires
        items@.len() >= 1,
        fuel >= 1,
    ensures
        agrees(
            r,
            if_spec(view_mal_seq(items@), old(env)@, fuel as nat),
            final(env)@,
            old(out).deep_view(),
            final(out).deep_view(),
        ),
    decreases fuel, 1int,
{
    proof {
        crate::types::lemma_view_mal_seq_len(items@);
        assert(old(out).deep_view() + Seq::<Seq<char>>::empty() =~= old(out).deep_view());
    }
    if items.len() != 3 && items.len() != 4 {
        return Err(
            Failure::Error(
                MalError::Arity {
                    name: String::from_str("if"),
                    expected: 2,
                    at_least: true,
                    got: items.len() - 1,
                },
            ),
        );
    }
    proof {
        crate::types::lemma_view_mal_seq_index(items@, 1);
        crate::types::lemma_view_mal_seq_index(items@, 2);
        if items@.len() == 4 {
            crate::types::lemma_view_mal_seq_index(items@, 3);
        }
    }
    let c = match eval(&items[1], env, out, fuel - 1) {
        Ok(v) => v,
        Err(f) => {
            return Err(f);
        },
    };
    if c.is_truesy() {
        let r2 = eval(&items[2], env, out, fuel - 1);
        proof {
            assert(final(out).deep_view() =~= old(out).deep_view()
                + if_spec(view_mal_seq(items@), old(env)@, fuel as nat).out);
        }
        r2
    } else if items.len() == 4 {
        let r2 = eval(&items[3], env, out, fuel - 1);
        proof {
            assert(final(out).deep_view() =~= old(out).deep_view()
                + if_spec(view_mal_seq(items@), old(env)@, fuel as nat).out);
        }
        r2
    } else {
        Ok(Mal::Nil)
    }
}

/// An application: evaluate the head, then the arguments inside one
/// checkpointed scope, then apply the function.
#[verifier::rlimit(100)]
fn apply_form(items: &Vec<Mal>, env: &mut Env, out: &mut Vec<String>, fuel: u64) -> (r: Result<
    Mal,
    Failure,
>)
    requires
        items@.len() >= 1,
    ensures
        agrees(
            r,
            apply_form_spec(view_mal_seq(items@), old(env)@, fuel as nat),
            final(env)@,
            old(out).deep_view(),
            final(out).deep_view(),
        ),
    decreases fuel, 1int,
{
    proof {
        crate::types::lemma_view_mal_seq_len(items@);
        crate::types::lemma_view_mal_seq_index(items@, 0);
        assert(old(out).deep_view() + Seq::<Seq<char>>::empty() =~= old(out).deep_view());
    }
    if fuel == 0 {
        return Err(Failure::DepthExceeded);
    }
    let fv = match eval(&items[0], env, out, fuel - 1) {
        Ok(v) => v,
        Err(f) => {
            return Err(f);
        },
    };
    let func = match fv {
        Mal::Func(f) => f,
        other => {
            return Err(Failure::Error(conv_err(&other, "function")));
        },
    };
    let ghost env1 = env@;
    env.push_scope();
    let argsr = eval_elems(items, 1, env, out, fuel - 1);
    proof {
        lemma_elems_frame(view_mal_seq(items@), 1, env_push_v(env1), (fuel - 1) as nat);
        lemma_frame_refl(env_push_v(env1));
        lemma_frame_has_marker(
            env1,
            eval_elems_spec(view_mal_seq(items@), 1, env_push_v(env1), (fuel - 1) as nat).env,
        );
    }
    env.pop_scope();
    match argsr {
        Ok(args) => {
            let r3 = apply(func, &args, out, fuel - 1);
            proof {
                assert(final(out).deep_view() =~= old(out).deep_view()
                    + apply_form_spec(view_mal_seq(items@), old(env)@, fuel as nat).out);
            }
            r3
        },
        Err(f) => {
            proof {
                assert(final(out).deep_view() =~= old(out).deep_view()
                    + apply_form_spec(view_mal_seq(items@), old(env)@, fuel as nat).out);
            }
            Err(f)
        },
    }
}

/// Applies a function value to evaluated arguments.
fn apply(f: MalFunc, args: &Vec<Mal>, out: &mut Vec<String>, fuel: u64) -> (r: Result<
    Mal,
    Failure,
>)
    ensures
        ({
            let o = apply_spec(f@, view_mal_seq(args@), fuel as nat);
            &&& final(out).deep_view() == old(out).deep_view() + o.out
            &&& match r {
                Ok(m) => o.res == Result::<MalV, FailV>::Ok(m@),
                Err(fl) => o.res == Result::<MalV, FailV>::Err(fl@),
            }
        }),
    decreases fuel, 2int,
{
    proof {
        assert(old(out).deep_view() + Seq::<Seq<char>>::empty() =~= old(out).deep_view());
    }
    match f {
        MalFunc::Native(n) => {
            match crate::builtins::apply_native(n, args, out) {
                Ok(m) => Ok(m),
                Err(e) => Err(Failure::Error(e)),
            }
        },
        MalFunc::Closure(ps, cenv, body) => closure_call(
            "#<function>",
            &ps,
            cenv,
            &body,
            args,
            out,
            fuel,
        ),
        MalFunc::NamedClosure(name, ps, cenv, body) => {
            let self_copy = Mal::Func(
                MalFunc::NamedClosure(
                    name.clone(),
                    crate::types::clone_symbols(&ps),
                    crate::env::clone_env(&cenv),
                    Box::new(crate::types::clone_mal(&body)),
                ),
            );
            let mut benv = cenv;
            benv.set(name.clone(), self_copy);
            closure_call(name.inner.as_str(), &ps, benv, &body, args, out, fuel)
        },
    }
}

/// Copies the arguments from `ai` on, as the collector's list.
#[verifier::loop_isolation(false)]
fn clone_tail(args: &Vec<Mal>, ai: usize) -> (r: Vec<Mal>)
    requires
        ai <= args@.len(),
    ensures
        view_mal_seq(r@) == view_mal_seq(args@).subrange(ai as int, args@.len() as int),
{
    broadcast use crate::types::group_view_lemmas;

    proof {
        crate::types::lemma_view_mal_seq_len(args@);
    }
    let mut r: Vec<Mal> = Vec::new();
    let mut k: usize = ai;
    while k < args.len()
        invariant
            ai <= k <= args@.len(),
            view_mal_seq(r@) == view_mal_seq(args@).subrange(ai as int, k as int),
        decreases args@.len() - k,
    {
        proof {
            crate::types::lemma_view_mal_seq_index(args@, k as int);
        }
        let x = crate::types::clone_mal(&args[k]);
        proof {
            crate::types::lemma_view_mal_seq_push(r@, x);
            assert(view_mal_seq(args@).subrange(ai as int, k + 1) =~= view_mal_seq(
                args@,
            ).subrange(ai as int, k as int).push(view_mal_seq(args@)[k as int]));
        }
        r.push(x);
        k = k + 1;
    }
    r
}

/// Calls a closure: arity check, parameter binding in the captured
/// snapshot, and evaluation of the stored body there.  The ambient
/// environment plays no part.
#[verifier::loop_isolation(false)]
fn closure_call(
    name: &str,
    ps: &Vec<Symbol>,
    cenv: Env,
    body: &Mal,
    args: &Vec<Mal>,
    out: &mut Vec<String>,
    fuel: u64,
) -> (r: Result<Mal, Failure>)
    ensures
        ({
            let o = closure_call_spec(
                name@,
                view_sym_seq(ps@),
                cenv@,
                body@,
                view_mal_seq(args@),
                fuel as nat,
            );
            &&& final(out).deep_view() == old(out).deep_view() + o.out
            &&& match r {
                Ok(m) => o.res == Result::<MalV, FailV>::Ok(m@),
                Err(fl) => o.res == Result::<MalV, FailV>::Err(fl@),
            }
        }),
    decreases fuel, 1int,
{
    proof {
        crate::types::lemma_view_mal_seq_len(args@);
        assert(old(out).deep_view() + Seq::<Seq<char>>::empty() =~= old(out).deep_view());
    }
    let ghost psv = view_sym_seq(ps@);
    let ghost argsv = view_mal_seq(args@);
    let variadic = ps.len() >= 2 && crate::types::str_eq(ps[ps.len() - 2].inner.as_str(), "&");
    proof {
        assert(variadic == is_variadic_v(psv));
    }
    let arity_ok = if variadic {
        args.len() >= ps.len() - 2
    } else {
        args.len() == ps.len()
    };
    if !arity_ok {
        let expected: usize = if variadic {
            ps.len() - 2
        } else {
            ps.len()
        };
        return Err(
            Failure::Error(
                MalError::Arity {
                    name: String::from_str(name),
                    expected,
                    at_least: variadic,
                    got: args.len(),
                },
            ),
        );
    }
    let mut benv = cenv;
    let ghost cenv0 = benv@;
    let mut i: usize = 0;
    let mut finished = false;
    while i < ps.len() && !finished
        invariant
            0 <= i <= ps@.len(),
            forall|j: int| 0 <= j < i ==> #[trigger] psv[j] != "&"@,
            if finished {
                benv@ == bind_params_v(psv, argsv, 0, 0, cenv0)
            } else {
                bind_params_v(psv, argsv, i as int, i as int, benv@) == bind_params_v(
                    psv,
                    argsv,
                    0,
                    0,
                    cenv0,
                )
            },
        decreases ps@.len() - i + (if finished { 0int } else { 1 }),
    {
        if crate::types::str_eq(ps[i].inner.as_str(), "&") {
            proof {
                // the first marker cannot stand past the collector
                // position, so the fixed parameters fit the arguments
                if is_variadic_v(psv) {
                    assert(psv[psv.len() - 2] == "&"@);
                    assert(i <= psv.len() - 2);
                } else {
                    assert(args@.len() == psv.len());
                }
                assert(i <= args@.len());
            }
            if i + 1 < ps.len() {
                let rest = clone_tail(args, i);
                let ghost pre = benv@;
                benv.set(ps[i + 1].clone(), Mal::List(MalList { items: rest }));
                proof {
                    assert(benv@ == bind_params_v(psv, argsv, i as int, i as int, pre));
                }
            }
            finished = true;
        } else {
            let v = if i < args.len() {
                crate::types::clone_mal(&args[i])
            } else {
                Mal::Nil
            };
            let ghost pre = benv@;
            benv.set(ps[i].clone(), v);
            proof {
                crate::types::lemma_view_mal_seq_index(args@, i as int);
                assert(bind_params_v(psv, argsv, i as int, i as int, pre) == bind_params_v(
                    psv,
                    argsv,
                    i + 1,
                    i + 1,
                    benv@,
                ));
            }
            i = i + 1;
        }
    }
    proof {
        assert(benv@ == bind_params_v(psv, argsv, 0, 0, cenv0));
    }
    let r2 = eval(body, &mut benv, out, fuel);
    r2
}

} // verus!

verus! {

/// What one read-eval-print round means.
pub open spec fn rep_v(text: Seq<char>, env: EnvV, fuel: nat) -> (Result<Seq<char>, FailV>, EnvV, Seq<Seq<char>>) {
    match crate::reader::read_str_v(text) {
        Result::Err(e) => (Result::Err(FailV::Error(e)), env, Seq::empty()),
        Result::Ok(v) => {
            let o = eval_spec(v, env, fuel);
            match o.res {
                Result::Ok(m) => (Result::Ok(crate::printer::print_v(m, true)), o.env, o.out),
                Result::Err(f) => (Result::Err(f), o.env, o.out),
            }
        },
    }
}

/// Reads one form from the text.
pub fn read(text: &str) -> (r: Result<Mal, crate::errors::MalError>)
    ensures
        match r {
            Ok(m) => crate::reader::read_str_v(text@) == Result::<MalV, ErrV>::Ok(m@),
            Err(e) => crate::reader::read_str_v(text@) == Result::<MalV, ErrV>::Err(e@),
        },
{
    crate::reader::read_str(text)
}

/// Prints a value readably.
pub fn print(mal: &Mal) -> (r: String)
    ensures
        r@ == crate::printer::print_v(mal@, true),
{
    crate::printer::pr_str(mal, true)
}

/// One read-eval-print round: read the text, evaluate the form, print
/// the result readably.  Lines printed by `prn`/`println` go to `out`.
pub fn rep(text: &str, env: &mut Env, out: &mut Vec<String>, fuel: u64) -> (r: Result<
    String,
    Failure,
>)
    ensures
        ({
            let (sr, senv, sout) = rep_v(text@, old(env)@, fuel as nat);
            &&& final(env)@ == senv
            &&& final(out).deep_view() == old(out).deep_view() + sout
            &&& match r {
                Ok(s) => sr == Result::<Seq<char>, FailV>::Ok(s@),
                Err(f) => sr == Result::<Seq<char>, FailV>::Err(f@),
            }
        }),
{
    proof {
        assert(old(out).deep_view() + Seq::<Seq<char>>::empty() =~= old(out).deep_view());
    }
    let form = match crate::reader::read_str(text) {
        Ok(m) => m,
        Err(e) => {
            return Err(Failure::Error(e));
        },
    };
    let v = match eval(&form, env, out, fuel) {
        Ok(v) => v,
        Err(f) => {
            return Err(f);
        },
    };
    Ok(crate::printer::pr_str(&v, true))
}

} // verus!
