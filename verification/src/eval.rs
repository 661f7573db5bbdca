//! The evaluator: one recursive interpretation of an expression tree against
//! an environment, producing a value or a typed error.
//!
//! The mathematical semantics is the family of `*_spec` functions below; the
//! executable evaluator is proved to return exactly what they say, so the
//! outcome of a run is a function of the tree and the recursion budget alone.
//!
//! The budget (`fuel`) bounds the depth of the recursive descent, as the
//! native call stack bounds the depth in any tree-walking interpreter;
//! exhausting it reports `RecursionLimit`.

use vstd::prelude::*;

use crate::ast::Expr;
use crate::ast::SpecExpr;
use crate::ast::expr_view;
use crate::ast::exprs_view;
use crate::builtins::apply_pure;
use crate::builtins::arity_of;
use crate::builtins::builtin_arity;
use crate::builtins::builtin_of;
use crate::builtins::is_pure;
use crate::builtins::lookup_builtin;
use crate::builtins::pure_spec;
use crate::env::Bindings;
use crate::env::Effect;
use crate::env::Environment;
use crate::env::SpecEffect;
use crate::env::SpecEnv;
use crate::env::SpecScope;
use crate::env::assign_name;
use crate::env::define_name;
use crate::env::env_wf;
use crate::env::initial_env;
use crate::env::lookup_name;
use crate::render::join_renders;
use crate::render::render_spec;
use crate::value::Builtin;
use crate::value::EvalError;
use crate::value::SpecValue;
use crate::value::Value;
use crate::value::res_view;
use crate::value::names_view;
use crate::value::value_view;
use crate::value::value_wf;
use crate::value::values_view;

verus! {

broadcast use
    crate::value::lemma_values_view_len,
    crate::value::lemma_values_view_index,
    crate::ast::lemma_exprs_view_len,
    crate::ast::lemma_exprs_view_index,
;

/// The names of a parameter list, when every entry is an `Identifier`.
pub open spec fn param_names(ps: Seq<SpecExpr>) -> Option<Seq<Seq<char>>>
    decreases ps.len(),
{
    if ps.len() == 0 {
        Option::Some(Seq::empty())
    } else {
        match ps[0] {
            SpecExpr::Identifier(n) => match param_names(ps.subrange(1, ps.len() as int)) {
                Option::Some(rest) => Option::Some(seq![n] + rest),
                Option::None => Option::None,
            },
            _ => Option::None,
        }
    }
}

/// The parameter names of a `Lambda`'s first child, when it is a well-formed
/// `Parameters` node.
pub open spec fn params_of(pe: SpecExpr) -> Option<Seq<Seq<char>>> {
    match pe {
        SpecExpr::Parameters(ps) => param_names(ps),
        _ => Option::None,
    }
}

/// The frame bindings of a call: each parameter bound to its argument.
pub open spec fn param_bindings(ps: Seq<Seq<char>>, avs: Seq<SpecValue>) -> Bindings {
    Seq::new(ps.len(), |i: int| (ps[i], avs[i]))
}

/// The store with one fresh scope appended, holding `bindings` and chained to
/// `parent`.
pub open spec fn push_scope_spec(st: SpecEnv, parent: int, bindings: Bindings) -> SpecEnv {
    SpecEnv {
        scopes: st.scopes.push(SpecScope { bindings, parent: Option::Some(parent) }),
        effects: st.effects,
    }
}

/// The store with one more recorded effect.
pub open spec fn with_effect(st: SpecEnv, e: SpecEffect) -> SpecEnv {
    SpecEnv { scopes: st.scopes, effects: st.effects.push(e) }
}

/// The store with its scopes replaced.
pub open spec fn with_scopes(st: SpecEnv, scopes: Seq<SpecScope>) -> SpecEnv {
    SpecEnv { scopes, effects: st.effects }
}

/// Evaluate one expression in scope `env`. Returns the outcome and the store
/// as it stands afterwards (scopes may have been added or mutated, effects
/// appended).
pub open spec fn eval_spec(e: SpecExpr, env: int, st: SpecEnv, fuel: nat) -> (Result<
    SpecValue,
    EvalError,
>, SpecEnv)
    decreases fuel,
{
    if fuel == 0 {
        (Result::Err(EvalError::RecursionLimit), st)
    } else {
        let f = (fuel - 1) as nat;
        match e {
            SpecExpr::Number(n) => (Result::Ok(SpecValue::Number(n)), st),
            SpecExpr::Str(s) => (Result::Ok(SpecValue::Str(s)), st),
            SpecExpr::Identifier(name) => match lookup_name(st.scopes, env, name) {
                Option::Some(v) => (Result::Ok(v), st),
                // The permissive policy: an unbound name is its own text.
                Option::None => (Result::Ok(SpecValue::Str(name)), st),
            },
            SpecExpr::Application(es) => if es.len() == 0 {
                (Result::Err(EvalError::StructuralError), st)
            } else {
                let (opr, st1) = eval_spec(es[0], env, st, f);
                match opr {
                    Result::Err(err) => (Result::Err(err), st1),
                    Result::Ok(fv) => {
                        // The dispatch quirk: a value whose rendered text
                        // names a builtin is applied as that builtin.
                        let callee = match builtin_of(render_spec(fv)) {
                            Option::Some(k) => SpecValue::Builtin(k),
                            Option::None => fv,
                        };
                        let (argsr, st2) = eval_args_spec(
                            es.subrange(1, es.len() as int),
                            env,
                            st1,
                            f,
                        );
                        match argsr {
                            Result::Err(err) => (Result::Err(err), st2),
                            Result::Ok(avs) => apply_spec(callee, avs, st2, f),
                        }
                    },
                }
            },
            SpecExpr::Block(es) => {
                let nid = st.scopes.len() as int;
                eval_block_spec(es, nid, push_scope_spec(st, env, Seq::empty()), f)
            },
            SpecExpr::Cond(cs) => eval_cond_spec(cs, env, st, f),
            SpecExpr::Clause(cs) => (Result::Err(EvalError::StructuralError), st),
            SpecExpr::Parameters(ps) => (Result::Err(EvalError::StructuralError), st),
            SpecExpr::Lambda(es) => if es.len() != 2 {
                (Result::Err(EvalError::StructuralError), st)
            } else {
                match params_of(es[0]) {
                    Option::Some(ps) => (
                        Result::Ok(SpecValue::Closure(ps, es[1], env)),
                        st,
                    ),
                    Option::None => (Result::Err(EvalError::StructuralError), st),
                }
            },
            SpecExpr::Let(n, v, b) => match *n {
                SpecExpr::Identifier(name) => {
                    let (vr, st1) = eval_spec(*v, env, st, f);
                    match vr {
                        Result::Err(err) => (Result::Err(err), st1),
                        Result::Ok(val) => eval_spec(
                            *b,
                            env,
                            with_scopes(st1, define_name(st1.scopes, env, name, val)),
                            f,
                        ),
                    }
                },
                _ => (Result::Err(EvalError::StructuralError), st),
            },
            SpecExpr::Assignment(n, v) => match *n {
                SpecExpr::Identifier(name) => {
                    let (vr, st1) = eval_spec(*v, env, st, f);
                    match vr {
                        Result::Err(err) => (Result::Err(err), st1),
                        Result::Ok(val) => match assign_name(st1.scopes, env, name, val) {
                            Option::Some(scopes2) => (
                                Result::Ok(val),
                                with_scopes(st1, scopes2),
                            ),
                            Option::None => (Result::Err(EvalError::UnboundVariable), st1),
                        },
                    }
                },
                _ => (Result::Err(EvalError::StructuralError), st),
            },
        }
    }
}

/// Evaluate a list of argument expressions left to right in the caller's
/// scope, collecting their values.
pub open spec fn eval_args_spec(es: Seq<SpecExpr>, env: int, st: SpecEnv, fuel: nat) -> (Result<
    Seq<SpecValue>,
    EvalError,
>, SpecEnv)
    decreases fuel,
{
    if fuel == 0 {
        (Result::Err(EvalError::RecursionLimit), st)
    } else if es.len() == 0 {
        (Result::Ok(Seq::empty()), st)
    } else {
        let f = (fuel - 1) as nat;
        let (r0, st1) = eval_spec(es[0], env, st, f);
        match r0 {
            Result::Err(err) => (Result::Err(err), st1),
            Result::Ok(v) => {
                let (rest, st2) = eval_args_spec(es.subrange(1, es.len() as int), env, st1, f);
                match rest {
                    Result::Err(err) => (Result::Err(err), st2),
                    Result::Ok(vs) => (Result::Ok(seq![v] + vs), st2),
                }
            },
        }
    }
}

/// Evaluate the expressions of a block in order; the block's value is the
/// last one's (boolean false for an empty block).
pub open spec fn eval_block_spec(es: Seq<SpecExpr>, env: int, st: SpecEnv, fuel: nat) -> (Result<
    SpecValue,
    EvalError,
>, SpecEnv)
    decreases fuel,
{
    if fuel == 0 {
        (Result::Err(EvalError::RecursionLimit), st)
    } else if es.len() == 0 {
        (Result::Ok(SpecValue::Bool(false)), st)
    } else {
        let f = (fuel - 1) as nat;
        let (r0, st1) = eval_spec(es[0], env, st, f);
        match r0 {
            Result::Err(err) => (Result::Err(err), st1),
            Result::Ok(v) => if es.len() == 1 {
                (Result::Ok(v), st1)
            } else {
                eval_block_spec(es.subrange(1, es.len() as int), env, st1, f)
            },
        }
    }
}

/// Try the clauses of a conditional in order: the first condition that
/// evaluates to boolean true selects its consequent; any other condition
/// value counts as false.
pub open spec fn eval_cond_spec(cs: Seq<SpecExpr>, env: int, st: SpecEnv, fuel: nat) -> (Result<
    SpecValue,
    EvalError,
>, SpecEnv)
    decreases fuel,
{
    if fuel == 0 {
        (Result::Err(EvalError::RecursionLimit), st)
    } else if cs.len() == 0 {
        (Result::Err(EvalError::NoMatchingClause), st)
    } else {
        let f = (fuel - 1) as nat;
        match cs[0] {
            SpecExpr::Clause(parts) => if parts.len() != 2 {
                (Result::Err(EvalError::StructuralError), st)
            } else {
                let (cr, st1) = eval_spec(parts[0], env, st, f);
                match cr {
                    Result::Err(err) => (Result::Err(err), st1),
                    Result::Ok(cv) => if cv == SpecValue::Bool(true) {
                        eval_spec(parts[1], env, st1, f)
                    } else {
                        eval_cond_spec(cs.subrange(1, cs.len() as int), env, st1, f)
                    },
                }
            },
            _ => (Result::Err(EvalError::StructuralError), st),
        }
    }
}

/// Apply an already-evaluated callee to already-evaluated arguments. A
/// builtin dispatches on its tag; a closure of matching parameter count is
/// entered in a fresh scope chained to its captured scope (never to the
/// caller's — strict lexical scoping); anything else is not a procedure.
pub open spec fn apply_spec(f: SpecValue, avs: Seq<SpecValue>, st: SpecEnv, fuel: nat) -> (Result<
    SpecValue,
    EvalError,
>, SpecEnv)
    decreases fuel,
{
    if fuel == 0 {
        (Result::Err(EvalError::RecursionLimit), st)
    } else {
        let f1 = (fuel - 1) as nat;
        match f {
            SpecValue::Builtin(k) => apply_builtin_spec(k, avs, st, f1),
            SpecValue::Closure(ps, body, cenv) => if avs.len() != ps.len() {
                (Result::Err(EvalError::ArityMismatch), st)
            } else {
                let nid = st.scopes.len() as int;
                eval_spec(body, nid, push_scope_spec(st, cenv, param_bindings(ps, avs)), f1)
            },
            _ => (Result::Err(EvalError::NotAProcedure), st),
        }
    }
}

/// Apply a builtin: an argument count different from the declared arity
/// fails with `ArityMismatch`, for every builtin; `print` and `wait` record
/// an effect; the higher-order builtins drive a closure over an array; the
/// rest are pure.
pub open spec fn apply_builtin_spec(k: Builtin, avs: Seq<SpecValue>, st: SpecEnv, fuel: nat) -> (
    Result<SpecValue, EvalError>,
    SpecEnv,
)
    decreases fuel,
{
    if fuel == 0 {
        (Result::Err(EvalError::RecursionLimit), st)
    } else if builtin_arity(k) matches Option::Some(n) && avs.len() != n {
        (Result::Err(EvalError::ArityMismatch), st)
    } else {
        let f = (fuel - 1) as nat;
        match k {
            Builtin::Print => (
                Result::Ok(SpecValue::Bool(false)),
                with_effect(st, SpecEffect::Print(join_renders(avs, " "@))),
            ),
            Builtin::Wait => match avs[0] {
                SpecValue::Number(n) => (
                    Result::Ok(SpecValue::Bool(false)),
                    with_effect(st, SpecEffect::Wait(n)),
                ),
                _ => (Result::Err(EvalError::TypeMismatch), st),
            },
            Builtin::MapArray => match (avs[0], avs[1]) {
                (SpecValue::Closure(ps, body, cenv), SpecValue::Array(vs)) => if ps.len() != 1 {
                    (Result::Err(EvalError::ArityMismatch), st)
                } else {
                    let (r, st2) = hof_map_spec(ps, body, cenv, vs, st, f);
                    match r {
                        Result::Ok(out) => (Result::Ok(SpecValue::Array(out)), st2),
                        Result::Err(err) => (Result::Err(err), st2),
                    }
                },
                _ => (Result::Err(EvalError::TypeMismatch), st),
            },
            Builtin::FilterArray => match (avs[0], avs[1]) {
                (SpecValue::Closure(ps, body, cenv), SpecValue::Array(vs)) => if ps.len() != 1 {
                    (Result::Err(EvalError::ArityMismatch), st)
                } else {
                    let (r, st2) = hof_filter_spec(ps, body, cenv, vs, st, f);
                    match r {
                        Result::Ok(out) => (Result::Ok(SpecValue::Array(out)), st2),
                        Result::Err(err) => (Result::Err(err), st2),
                    }
                },
                _ => (Result::Err(EvalError::TypeMismatch), st),
            },
            Builtin::FoldArray => match (avs[0], avs[2]) {
                (SpecValue::Closure(ps, body, cenv), SpecValue::Array(vs)) => if ps.len() != 2 {
                    (Result::Err(EvalError::ArityMismatch), st)
                } else {
                    hof_fold_spec(ps, body, cenv, avs[1], vs, st, f)
                },
                _ => (Result::Err(EvalError::TypeMismatch), st),
            },
            _ => (pure_spec(k, avs), st),
        }
    }
}

/// `map`: evaluate the closure body once per element, each time in a fresh
/// scope over the closure's captured scope with the parameter bound to the
/// element, and collect the results positionally.
pub open spec fn hof_map_spec(
    ps: Seq<Seq<char>>,
    body: SpecExpr,
    cenv: int,
    elems: Seq<SpecValue>,
    st: SpecEnv,
    fuel: nat,
) -> (Result<Seq<SpecValue>, EvalError>, SpecEnv)
    decreases fuel,
{
    if fuel == 0 {
        (Result::Err(EvalError::RecursionLimit), st)
    } else if elems.len() == 0 {
        (Result::Ok(Seq::empty()), st)
    } else {
        let f = (fuel - 1) as nat;
        let nid = st.scopes.len() as int;
        let st1 = push_scope_spec(st, cenv, seq![(ps[0], elems[0])]);
        let (r, st2) = eval_spec(body, nid, st1, f);
        match r {
            Result::Err(err) => (Result::Err(err), st2),
            Result::Ok(v) => {
                let (rest, st3) = hof_map_spec(
                    ps,
                    body,
                    cenv,
                    elems.subrange(1, elems.len() as int),
                    st2,
                    f,
                );
                match rest {
                    Result::Err(err) => (Result::Err(err), st3),
                    Result::Ok(vs) => (Result::Ok(seq![v] + vs), st3),
                }
            },
        }
    }
}

/// `filter`: keep the elements for which the closure returns boolean true.
pub open spec fn hof_filter_spec(
    ps: Seq<Seq<char>>,
    body: SpecExpr,
    cenv: int,
    elems: Seq<SpecValue>,
    st: SpecEnv,
    fuel: nat,
) -> (Result<Seq<SpecValue>, EvalError>, SpecEnv)
    decreases fuel,
{
    if fuel == 0 {
        (Result::Err(EvalError::RecursionLimit), st)
    } else if elems.len() == 0 {
        (Result::Ok(Seq::empty()), st)
    } else {
        let f = (fuel - 1) as nat;
        let nid = st.scopes.len() as int;
        let st1 = push_scope_spec(st, cenv, seq![(ps[0], elems[0])]);
        let (r, st2) = eval_spec(body, nid, st1, f);
        match r {
            Result::Err(err) => (Result::Err(err), st2),
            Result::Ok(v) => {
                let (rest, st3) = hof_filter_spec(
                    ps,
                    body,
                    cenv,
                    elems.subrange(1, elems.len() as int),
                    st2,
                    f,
                );
                match rest {
                    Result::Err(err) => (Result::Err(err), st3),
                    Result::Ok(vs) => (
                        Result::Ok(
                            if v == SpecValue::Bool(true) {
                                seq![elems[0]] + vs
                            } else {
                                vs
                            },
                        ),
                        st3,
                    ),
                }
            },
        }
    }
}

/// `fold`: thread an accumulator left to right, rebinding accumulator and
/// element for each evaluation of the closure body.
pub open spec fn hof_fold_spec(
    ps: Seq<Seq<char>>,
    body: SpecExpr,
    cenv: int,
    acc: SpecValue,
    elems: Seq<SpecValue>,
    st: SpecEnv,
    fuel: nat,
) -> (Result<SpecValue, EvalError>, SpecEnv)
    decreases fuel,
{
    if fuel == 0 {
        (Result::Err(EvalError::RecursionLimit), st)
    } else if elems.len() == 0 {
        (Result::Ok(acc), st)
    } else {
        let f = (fuel - 1) as nat;
        let nid = st.scopes.len() as int;
        let st1 = push_scope_spec(st, cenv, seq![(ps[0], acc), (ps[1], elems[0])]);
        let (r, st2) = eval_spec(body, nid, st1, f);
        match r {
            Result::Err(err) => (Result::Err(err), st2),
            Result::Ok(v) => hof_fold_spec(
                ps,
                body,
                cenv,
                v,
                elems.subrange(1, elems.len() as int),
                st2,
                f,
            ),
        }
    }
}

/// One whole run: evaluate `e` against a fresh initial environment with the
/// given recursion budget. The outcome — value or error, and the effect log —
/// is a function of the tree and the budget alone.
pub open spec fn run_spec(e: SpecExpr, fuel: nat) -> (Result<SpecValue, EvalError>, SpecEnv) {
    eval_spec(e, 0, initial_env(), fuel)
}


/// The name of an `Identifier` node.
fn ident_of(e: &Expr) -> (r: Option<&String>)
    ensures
        match r {
            Option::Some(s) => expr_view(*e) == SpecExpr::Identifier(s@),
            Option::None => !(expr_view(*e) is Identifier),
        },
{
    match e {
        Expr::Identifier(s) => Option::Some(s),
        _ => Option::None,
    }
}

/// The closure parts of a closure value, by move; a type error otherwise.
fn owned_closure(v: Value) -> (r: Result<(Vec<String>, Box<Expr>, usize), EvalError>)
    ensures
        match r {
            Result::Ok(t) => value_view(v) == SpecValue::Closure(
                names_view(t.0@),
                expr_view(*t.1),
                t.2 as int,
            ),
            Result::Err(e) => !(value_view(v) is Closure) && e == EvalError::TypeMismatch,
        },
{
    match v {
        Value::Closure(ps, body, cenv) => Result::Ok((ps, body, cenv)),
        _ => Result::Err(EvalError::TypeMismatch),
    }
}

/// The parameter names from position `idx` of a parameter list, when every
/// entry is an `Identifier`.
fn extract_params(ps: &Vec<Expr>, idx: usize) -> (r: Option<Vec<String>>)
    requires
        idx <= ps@.len(),
    ensures
        ({
            let pv = exprs_view(ps@).subrange(idx as int, exprs_view(ps@).len() as int);
            match r {
                Option::Some(ns) => param_names(pv) == Option::Some(names_view(ns@)),
                Option::None => param_names(pv) is None,
            }
        }),
    decreases ps@.len() - idx,
{
    let ghost pv = exprs_view(ps@).subrange(idx as int, exprs_view(ps@).len() as int);
    if idx == ps.len() {
        let out: Vec<String> = Vec::new();
        proof {
            assert(names_view(out@) =~= Seq::<Seq<char>>::empty());
        }
        return Option::Some(out);
    }
    proof {
        assert(pv[0] == expr_view(ps@[idx as int]));
        assert(pv.subrange(1, pv.len() as int) =~= exprs_view(ps@).subrange(
            idx + 1,
            exprs_view(ps@).len() as int,
        ));
    }
    match ident_of(&ps[idx]) {
        Option::Some(s) => match extract_params(ps, idx + 1) {
            Option::Some(rest) => {
                let ghost restv = rest@;
                let mut out = rest;
                out.insert(0, s.clone());
                proof {
                    assert(names_view(out@) =~= seq![s@] + names_view(restv));
                }
                Option::Some(out)
            },
            Option::None => Option::None,
        },
        Option::None => Option::None,
    }
}


/// Evaluate an expression in scope `env` of `st`, with recursion budget
/// `fuel`. Returns exactly what [`eval_spec`] says, and leaves the store
/// exactly as [`eval_spec`] says.
pub fn evaluate(st: &mut Environment, env: usize, e: &Expr, fuel: u64) -> (r: Result<
    Value,
    EvalError,
>)
    requires
        env_wf(old(st)@),
        env < old(st)@.scopes.len(),
    ensures
        res_view(r) == eval_spec(e@, env as int, old(st)@, fuel as nat).0,
        final(st)@ == eval_spec(e@, env as int, old(st)@, fuel as nat).1,
        env_wf(final(st)@),
        old(st)@.scopes.len() <= final(st)@.scopes.len(),
        r matches Result::Ok(v) ==> value_wf(v@, final(st)@.scopes.len() as int),
    decreases fuel,
{
    if fuel == 0 {
        return Result::Err(EvalError::RecursionLimit);
    }
    let f = fuel - 1;
    let ghost st0 = st@;
    match e {
        Expr::Number(n) => Result::Ok(Value::Number(*n)),
        Expr::Str(sl) => Result::Ok(Value::Str(sl.clone())),
        Expr::Identifier(name) => {
            let got = st.get(env, name.as_str());
            match got {
                Option::Some(v) => {
                    let d = crate::value::dup_value(v);
                    proof {
                        crate::env::lemma_lookup_wf(st@, env as int, name@);
                    }
                    Result::Ok(d)
                },
                Option::None => Result::Ok(Value::Str(name.clone())),
            }
        },
        Expr::Application(es) => {
            if es.len() == 0 {
                return Result::Err(EvalError::StructuralError);
            }
            proof {
                assert(exprs_view(es@)[0] == expr_view(es@[0]));
            }
            let fv = match evaluate(st, env, &es[0], f) {
                Result::Ok(v) => v,
                Result::Err(err) => {
                    return Result::Err(err);
                },
            };
            let rendered = crate::render::render(&fv);
            let callee = match lookup_builtin(rendered.as_str()) {
                Option::Some(k) => Value::Builtin(k),
                Option::None => fv,
            };
            let ghost stm = st@;
            let avs = match eval_args(st, env, es, 1, f) {
                Result::Ok(a) => a,
                Result::Err(err) => {
                    return Result::Err(err);
                },
            };
            proof {
                crate::value::lemma_value_wf_grow(
                    callee@,
                    stm.scopes.len() as int,
                    st@.scopes.len() as int,
                );
            }
            apply(st, callee, avs, f)
        },
        Expr::Block(es) => {
            let nid = st.new_child(env);
            proof {
                assert(st@ =~~= push_scope_spec(st0, env as int, Seq::empty()));
                assert(exprs_view(es@).subrange(0, exprs_view(es@).len() as int) =~= exprs_view(
                    es@,
                ));
            }
            eval_block(st, nid, es, 0, f)
        },
        Expr::Cond(cs) => {
            proof {
                assert(exprs_view(cs@).subrange(0, exprs_view(cs@).len() as int) =~= exprs_view(
                    cs@,
                ));
            }
            eval_cond(st, env, cs, 0, f)
        },
        Expr::Clause(_) => Result::Err(EvalError::StructuralError),
        Expr::Parameters(_) => Result::Err(EvalError::StructuralError),
        Expr::Lambda(es) => {
            if es.len() != 2 {
                return Result::Err(EvalError::StructuralError);
            }
            proof {
                assert(exprs_view(es@)[0] == expr_view(es@[0]));
                assert(exprs_view(es@)[1] == expr_view(es@[1]));
            }
            match &es[0] {
                Expr::Parameters(ps) => {
                    proof {
                        assert(expr_view(es@[0]) == SpecExpr::Parameters(exprs_view(ps@)));
                        assert(exprs_view(ps@).subrange(0, exprs_view(ps@).len() as int)
                            =~= exprs_view(ps@));
                    }
                    match extract_params(ps, 0) {
                        Option::Some(names) => {
                            let body = crate::ast::dup_expr(&es[1]);
                            Result::Ok(Value::Closure(names, Box::new(body), env))
                        },
                        Option::None => Result::Err(EvalError::StructuralError),
                    }
                },
                _ => Result::Err(EvalError::StructuralError),
            }
        },
        Expr::Let(n, v, b) => {
            let name = match ident_of(n) {
                Option::Some(sl) => sl,
                Option::None => {
                    return Result::Err(EvalError::StructuralError);
                },
            };
            let val = match evaluate(st, env, v, f) {
                Result::Ok(x) => x,
                Result::Err(err) => {
                    return Result::Err(err);
                },
            };
            let ghost st1 = st@;
            let ghost valv = val@;
            st.set(env, name.clone(), val);
            proof {
                assert(st@ =~~= with_scopes(
                    st1,
                    define_name(st1.scopes, env as int, name@, valv),
                ));
            }
            evaluate(st, env, b, f)
        },
        Expr::Assignment(n, v) => {
            let name = match ident_of(n) {
                Option::Some(sl) => sl,
                Option::None => {
                    return Result::Err(EvalError::StructuralError);
                },
            };
            let val = match evaluate(st, env, v, f) {
                Result::Ok(x) => x,
                Result::Err(err) => {
                    return Result::Err(err);
                },
            };
            let ghost st1 = st@;
            let valc = crate::value::dup_value(&val);
            match st.assign(env, name.as_str(), valc) {
                Result::Ok(u) => {
                    proof {
                        assert(st@ =~~= with_scopes(
                            st1,
                            assign_name(st1.scopes, env as int, name@, val@)->Some_0,
                        ));
                    }
                    Result::Ok(val)
                },
                Result::Err(err) => Result::Err(err),
            }
        },
    }
}

/// Evaluate the argument expressions `es[idx..]` left to right in scope
/// `env`, collecting their values.
fn eval_args(st: &mut Environment, env: usize, es: &Vec<Expr>, idx: usize, fuel: u64) -> (r:
    Result<Vec<Value>, EvalError>)
    requires
        env_wf(old(st)@),
        env < old(st)@.scopes.len(),
        idx <= es@.len(),
    ensures
        ({
            let sub = exprs_view(es@).subrange(idx as int, exprs_view(es@).len() as int);
            &&& (match r {
                Result::Ok(vs) => eval_args_spec(sub, env as int, old(st)@, fuel as nat).0
                    == Result::<Seq<SpecValue>, EvalError>::Ok(values_view(vs@)),
                Result::Err(err) => eval_args_spec(sub, env as int, old(st)@, fuel as nat).0
                    == Result::<Seq<SpecValue>, EvalError>::Err(err),
            })
            &&& final(st)@ == eval_args_spec(sub, env as int, old(st)@, fuel as nat).1
        }),
        env_wf(final(st)@),
        old(st)@.scopes.len() <= final(st)@.scopes.len(),
        r matches Result::Ok(vs) ==> forall|i: int|
            0 <= i < values_view(vs@).len() ==> value_wf(
                #[trigger] values_view(vs@)[i],
                final(st)@.scopes.len() as int,
            ),
    decreases fuel,
{
    let ghost sub = exprs_view(es@).subrange(idx as int, exprs_view(es@).len() as int);
    if fuel == 0 {
        return Result::Err(EvalError::RecursionLimit);
    }
    if idx == es.len() {
        let out: Vec<Value> = Vec::new();
        proof {
            assert(values_view(out@) =~= Seq::<SpecValue>::empty());
        }
        return Result::Ok(out);
    }
    proof {
        assert(sub[0] == expr_view(es@[idx as int]));
        assert(sub.subrange(1, sub.len() as int) =~= exprs_view(es@).subrange(
            idx + 1,
            exprs_view(es@).len() as int,
        ));
    }
    let v = match evaluate(st, env, &es[idx], fuel - 1) {
        Result::Ok(x) => x,
        Result::Err(err) => {
            return Result::Err(err);
        },
    };
    let ghost stm = st@;
    let ghost vv = v@;
    let rest = match eval_args(st, env, es, idx + 1, fuel - 1) {
        Result::Ok(x) => x,
        Result::Err(err) => {
            return Result::Err(err);
        },
    };
    let ghost restv = rest@;
    let mut out = rest;
    out.insert(0, v);
    proof {
        assert(values_view(out@) =~= seq![vv] + values_view(restv));
        crate::value::lemma_value_wf_grow(vv, stm.scopes.len() as int, st@.scopes.len() as int);
        assert forall|i: int| 0 <= i < values_view(out@).len() implies value_wf(
            #[trigger] values_view(out@)[i],
            st@.scopes.len() as int,
        ) by {
            if i > 0 {
                assert(values_view(out@)[i] == values_view(restv)[i - 1]);
            }
        }
    }
    Result::Ok(out)
}

/// Evaluate the block entries `es[idx..]` in order within scope `env`; the
/// value is the last entry's.
fn eval_block(st: &mut Environment, env: usize, es: &Vec<Expr>, idx: usize, fuel: u64) -> (r:
    Result<Value, EvalError>)
    requires
        env_wf(old(st)@),
        env < old(st)@.scopes.len(),
        idx <= es@.len(),
    ensures
        ({
            let sub = exprs_view(es@).subrange(idx as int, exprs_view(es@).len() as int);
            &&& res_view(r) == eval_block_spec(sub, env as int, old(st)@, fuel as nat).0
            &&& final(st)@ == eval_block_spec(sub, env as int, old(st)@, fuel as nat).1
        }),
        env_wf(final(st)@),
        old(st)@.scopes.len() <= final(st)@.scopes.len(),
        r matches Result::Ok(v) ==> value_wf(v@, final(st)@.scopes.len() as int),
    decreases fuel,
{
    let ghost sub = exprs_view(es@).subrange(idx as int, exprs_view(es@).len() as int);
    if fuel == 0 {
        return Result::Err(EvalError::RecursionLimit);
    }
    if idx == es.len() {
        return Result::Ok(Value::Bool(false));
    }
    proof {
        assert(sub[0] == expr_view(es@[idx as int]));
        assert(sub.subrange(1, sub.len() as int) =~= exprs_view(es@).subrange(
            idx + 1,
            exprs_view(es@).len() as int,
        ));
    }
    let v = match evaluate(st, env, &es[idx], fuel - 1) {
        Result::Ok(x) => x,
        Result::Err(err) => {
            return Result::Err(err);
        },
    };
    if idx + 1 == es.len() {
        Result::Ok(v)
    } else {
        eval_block(st, env, es, idx + 1, fuel - 1)
    }
}

/// Try the clauses `cs[idx..]` of a conditional in order.
fn eval_cond(st: &mut Environment, env: usize, cs: &Vec<Expr>, idx: usize, fuel: u64) -> (r: Result<
    Value,
    EvalError,
>)
    requires
        env_wf(old(st)@),
        env < old(st)@.scopes.len(),
        idx <= cs@.len(),
    ensures
        ({
            let sub = exprs_view(cs@).subrange(idx as int, exprs_view(cs@).len() as int);
            &&& res_view(r) == eval_cond_spec(sub, env as int, old(st)@, fuel as nat).0
            &&& final(st)@ == eval_cond_spec(sub, env as int, old(st)@, fuel as nat).1
        }),
        env_wf(final(st)@),
        old(st)@.scopes.len() <= final(st)@.scopes.len(),
        r matches Result::Ok(v) ==> value_wf(v@, final(st)@.scopes.len() as int),
    decreases fuel,
{
    let ghost sub = exprs_view(cs@).subrange(idx as int, exprs_view(cs@).len() as int);
    if fuel == 0 {
        return Result::Err(EvalError::RecursionLimit);
    }
    if idx == cs.len() {
        return Result::Err(EvalError::NoMatchingClause);
    }
    proof {
        assert(sub[0] == expr_view(cs@[idx as int]));
        assert(sub.subrange(1, sub.len() as int) =~= exprs_view(cs@).subrange(
            idx + 1,
            exprs_view(cs@).len() as int,
        ));
    }
    match &cs[idx] {
        Expr::Clause(parts) => {
            proof {
                assert(expr_view(cs@[idx as int]) == SpecExpr::Clause(exprs_view(parts@)));
            }
            if parts.len() != 2 {
                return Result::Err(EvalError::StructuralError);
            }
            proof {
                assert(exprs_view(parts@)[0] == expr_view(parts@[0]));
                assert(exprs_view(parts@)[1] == expr_view(parts@[1]));
            }
            let cv = match evaluate(st, env, &parts[0], fuel - 1) {
                Result::Ok(x) => x,
                Result::Err(err) => {
                    return Result::Err(err);
                },
            };
            let truthy = match &cv {
                Value::Bool(b) => *b,
                _ => false,
            };
            proof {
                assert(truthy == (cv@ == SpecValue::Bool(true)));
            }
            if truthy {
                evaluate(st, env, &parts[1], fuel - 1)
            } else {
                eval_cond(st, env, cs, idx + 1, fuel - 1)
            }
        },
        _ => Result::Err(EvalError::StructuralError),
    }
}

/// Apply an evaluated callee to evaluated arguments.
fn apply(st: &mut Environment, func: Value, args: Vec<Value>, fuel: u64) -> (r: Result<
    Value,
    EvalError,
>)
    requires
        env_wf(old(st)@),
        value_wf(func@, old(st)@.scopes.len() as int),
        forall|i: int|
            0 <= i < values_view(args@).len() ==> value_wf(
                #[trigger] values_view(args@)[i],
                old(st)@.scopes.len() as int,
            ),
    ensures
        res_view(r) == apply_spec(func@, values_view(args@), old(st)@, fuel as nat).0,
        final(st)@ == apply_spec(func@, values_view(args@), old(st)@, fuel as nat).1,
        env_wf(final(st)@),
        old(st)@.scopes.len() <= final(st)@.scopes.len(),
        r matches Result::Ok(v) ==> value_wf(v@, final(st)@.scopes.len() as int),
    decreases fuel,
{
    if fuel == 0 {
        return Result::Err(EvalError::RecursionLimit);
    }
    match func {
        Value::Builtin(k) => apply_builtin(st, k, args, fuel - 1),
        Value::Closure(ps, body, cenv) => {
            proof {
                assert(func@ == SpecValue::Closure(names_view(ps@), expr_view(*body), cenv as int));
            }
            if args.len() != ps.len() {
                return Result::Err(EvalError::ArityMismatch);
            }
            let ghost st0 = st@;
            let ghost frame = param_bindings(names_view(ps@), values_view(args@));
            let nid = st.new_child(cenv);
            proof {
                assert(st@ =~~= push_scope_spec(st0, cenv as int, frame.take(0)));
            }
            let mut j: usize = 0;
            while j < ps.len()
                invariant
                    j <= ps@.len(),
                    ps@.len() == args@.len(),
                    nid == st0.scopes.len(),
                    cenv < st0.scopes.len(),
                    frame == param_bindings(names_view(ps@), values_view(args@)),
                    st@ == push_scope_spec(st0, cenv as int, frame.take(j as int)),
                    env_wf(st@),
                    forall|i: int|
                        0 <= i < values_view(args@).len() ==> value_wf(
                            #[trigger] values_view(args@)[i],
                            st0.scopes.len() as int,
                        ),
                decreases ps@.len() - j,
            {
                let av = crate::value::dup_value(&args[j]);
                proof {
                    assert(av@ == values_view(args@)[j as int]);
                    crate::value::lemma_value_wf_grow(
                        av@,
                        st0.scopes.len() as int,
                        st@.scopes.len() as int,
                    );
                }
                st.set(nid, ps[j].clone(), av);
                proof {
                    assert(frame.take(j + 1) =~= frame.take(j as int).push(
                        (names_view(ps@)[j as int], values_view(args@)[j as int]),
                    ));
                    assert(st@ =~~= push_scope_spec(st0, cenv as int, frame.take(j + 1)));
                }
                j = j + 1;
            }
            proof {
                assert(frame.take(ps@.len() as int) =~= frame);
                assert(st@ =~~= push_scope_spec(st0, cenv as int, frame));
            }
            evaluate(st, nid, &body, fuel - 1)
        },
        _ => Result::Err(EvalError::NotAProcedure),
    }
}

/// Apply a builtin: check the declared arity, record `print`/`wait` effects,
/// drive the higher-order builtins, and defer to the pure library otherwise.
fn apply_builtin(st: &mut Environment, k: Builtin, args: Vec<Value>, fuel: u64) -> (r: Result<
    Value,
    EvalError,
>)
    requires
        env_wf(old(st)@),
        forall|i: int|
            0 <= i < values_view(args@).len() ==> value_wf(
                #[trigger] values_view(args@)[i],
                old(st)@.scopes.len() as int,
            ),
    ensures
        res_view(r) == apply_builtin_spec(k, values_view(args@), old(st)@, fuel as nat).0,
        final(st)@ == apply_builtin_spec(k, values_view(args@), old(st)@, fuel as nat).1,
        env_wf(final(st)@),
        old(st)@.scopes.len() <= final(st)@.scopes.len(),
        r matches Result::Ok(v) ==> value_wf(v@, final(st)@.scopes.len() as int),
    decreases fuel,
{
    let ghost avs = values_view(args@);
    if fuel == 0 {
        return Result::Err(EvalError::RecursionLimit);
    }
    match arity_of(k) {
        Option::Some(n) => {
            if args.len() != n {
                return Result::Err(EvalError::ArityMismatch);
            }
        },
        Option::None => {},
    }
    match k {
        Builtin::Print => {
            let line = crate::render::render_values(&args, " ");
            let ghost stb = st@;
            st.log_effect(Effect::Print(line));
            proof {
                assert(st@ =~~= with_effect(stb, SpecEffect::Print(join_renders(avs, " "@))));
            }
            Result::Ok(Value::Bool(false))
        },
        Builtin::Wait => match crate::builtins::as_num(&args[0]) {
            Option::Some(n) => {
                let ghost stb = st@;
                st.log_effect(Effect::Wait(n));
                proof {
                    assert(st@ =~~= with_effect(stb, SpecEffect::Wait(n)));
                }
                Result::Ok(Value::Bool(false))
            },
            Option::None => Result::Err(EvalError::TypeMismatch),
        },
        Builtin::MapArray => {
            let mut rest = args;
            let arrv = crate::builtins::pop_val(&mut rest);
            let fv = crate::builtins::pop_val(&mut rest);
            match owned_closure(fv) {
                Result::Ok((ps, body, cenv)) => match crate::builtins::owned_array(arrv) {
                    Result::Ok(elems) => {
                        if ps.len() != 1 {
                            return Result::Err(EvalError::ArityMismatch);
                        }
                        proof {
                            assert(values_view(elems@).subrange(
                                0,
                                values_view(elems@).len() as int,
                            ) =~= values_view(elems@));
                        }
                        match hof_map(st, &ps, &body, cenv, &elems, 0, fuel - 1) {
                            Result::Ok(out) => Result::Ok(Value::Array(out)),
                            Result::Err(err) => Result::Err(err),
                        }
                    },
                    Result::Err(err) => Result::Err(err),
                },
                Result::Err(err) => Result::Err(err),
            }
        },
        Builtin::FilterArray => {
            let mut rest = args;
            let arrv = crate::builtins::pop_val(&mut rest);
            let fv = crate::builtins::pop_val(&mut rest);
            match owned_closure(fv) {
                Result::Ok((ps, body, cenv)) => match crate::builtins::owned_array(arrv) {
                    Result::Ok(elems) => {
                        if ps.len() != 1 {
                            return Result::Err(EvalError::ArityMismatch);
                        }
                        proof {
                            assert(values_view(elems@).subrange(
                                0,
                                values_view(elems@).len() as int,
                            ) =~= values_view(elems@));
                        }
                        match hof_filter(st, &ps, &body, cenv, &elems, 0, fuel - 1) {
                            Result::Ok(out) => Result::Ok(Value::Array(out)),
                            Result::Err(err) => Result::Err(err),
                        }
                    },
                    Result::Err(err) => Result::Err(err),
                },
                Result::Err(err) => Result::Err(err),
            }
        },
        Builtin::FoldArray => {
            let mut rest = args;
            let arrv = crate::builtins::pop_val(&mut rest);
            let acc = crate::builtins::pop_val(&mut rest);
            let fv = crate::builtins::pop_val(&mut rest);
            match owned_closure(fv) {
                Result::Ok((ps, body, cenv)) => match crate::builtins::owned_array(arrv) {
                    Result::Ok(elems) => {
                        if ps.len() != 2 {
                            return Result::Err(EvalError::ArityMismatch);
                        }
                        proof {
                            assert(values_view(elems@).subrange(
                                0,
                                values_view(elems@).len() as int,
                            ) =~= values_view(elems@));
                        }
                        hof_fold(st, &ps, &body, cenv, acc, &elems, 0, fuel - 1)
                    },
                    Result::Err(err) => Result::Err(err),
                },
                Result::Err(err) => Result::Err(err),
            }
        },
        _ => {
            proof {
                assert(is_pure(k));
            }
            let r = apply_pure(k, args);
            proof {
                crate::builtins::lemma_pure_wf(k, avs, st@.scopes.len() as int);
            }
            r
        },
    }
}

/// `map`'s loop: apply the closure to each of `elems[idx..]`.
fn hof_map(
    st: &mut Environment,
    ps: &Vec<String>,
    body: &Expr,
    cenv: usize,
    elems: &Vec<Value>,
    idx: usize,
    fuel: u64,
) -> (r: Result<Vec<Value>, EvalError>)
    requires
        env_wf(old(st)@),
        cenv < old(st)@.scopes.len(),
        ps@.len() == 1,
        idx <= elems@.len(),
        forall|i: int|
            0 <= i < values_view(elems@).len() ==> value_wf(
                #[trigger] values_view(elems@)[i],
                old(st)@.scopes.len() as int,
            ),
    ensures
        ({
            let sub = values_view(elems@).subrange(idx as int, values_view(elems@).len() as int);
            &&& (match r {
                Result::Ok(vs) => hof_map_spec(
                    names_view(ps@),
                    body@,
                    cenv as int,
                    sub,
                    old(st)@,
                    fuel as nat,
                ).0 == Result::<Seq<SpecValue>, EvalError>::Ok(values_view(vs@)),
                Result::Err(err) => hof_map_spec(
                    names_view(ps@),
                    body@,
                    cenv as int,
                    sub,
                    old(st)@,
                    fuel as nat,
                ).0 == Result::<Seq<SpecValue>, EvalError>::Err(err),
            })
            &&& final(st)@ == hof_map_spec(
                names_view(ps@),
                body@,
                cenv as int,
                sub,
                old(st)@,
                fuel as nat,
            ).1
        }),
        env_wf(final(st)@),
        old(st)@.scopes.len() <= final(st)@.scopes.len(),
        r matches Result::Ok(vs) ==> forall|i: int|
            0 <= i < values_view(vs@).len() ==> value_wf(
                #[trigger] values_view(vs@)[i],
                final(st)@.scopes.len() as int,
            ),
    decreases fuel,
{
    let ghost sub = values_view(elems@).subrange(idx as int, values_view(elems@).len() as int);
    if fuel == 0 {
        return Result::Err(EvalError::RecursionLimit);
    }
    if idx == elems.len() {
        let out: Vec<Value> = Vec::new();
        proof {
            assert(values_view(out@) =~= Seq::<SpecValue>::empty());
        }
        return Result::Ok(out);
    }
    proof {
        assert(sub[0] == values_view(elems@)[idx as int]);
        assert(sub.subrange(1, sub.len() as int) =~= values_view(elems@).subrange(
            idx + 1,
            values_view(elems@).len() as int,
        ));
    }
    let ghost st0 = st@;
    let nid = st.new_child(cenv);
    let ev = crate::value::dup_value(&elems[idx]);
    proof {
        crate::value::lemma_value_wf_grow(ev@, st0.scopes.len() as int, st@.scopes.len() as int);
    }
    st.set(nid, ps[0].clone(), ev);
    proof {
        assert(st@ =~~= push_scope_spec(
            st0,
            cenv as int,
            seq![(names_view(ps@)[0], values_view(elems@)[idx as int])],
        ));
    }
    let v = match evaluate(st, nid, body, fuel - 1) {
        Result::Ok(x) => x,
        Result::Err(err) => {
            return Result::Err(err);
        },
    };
    let ghost stm = st@;
    let ghost vv = v@;
    proof {
        assert forall|i: int| 0 <= i < values_view(elems@).len() implies value_wf(
            #[trigger] values_view(elems@)[i],
            st@.scopes.len() as int,
        ) by {
            crate::value::lemma_value_wf_grow(
                values_view(elems@)[i],
                old(st)@.scopes.len() as int,
                st@.scopes.len() as int,
            );
        }
    }
    let rest = match hof_map(st, ps, body, cenv, elems, idx + 1, fuel - 1) {
        Result::Ok(x) => x,
        Result::Err(err) => {
            return Result::Err(err);
        },
    };
    let ghost restv = rest@;
    let mut out = rest;
    out.insert(0, v);
    proof {
        assert(values_view(out@) =~= seq![vv] + values_view(restv));
        crate::value::lemma_value_wf_grow(vv, stm.scopes.len() as int, st@.scopes.len() as int);
        assert forall|i: int| 0 <= i < values_view(out@).len() implies value_wf(
            #[trigger] values_view(out@)[i],
            st@.scopes.len() as int,
        ) by {
            if i > 0 {
                assert(values_view(out@)[i] == values_view(restv)[i - 1]);
            }
        }
    }
    Result::Ok(out)
}

/// `filter`'s loop: keep each of `elems[idx..]` whose closure result is
/// boolean true.
fn hof_filter(
    st: &mut Environment,
    ps: &Vec<String>,
    body: &Expr,
    cenv: usize,
    elems: &Vec<Value>,
    idx: usize,
    fuel: u64,
) -> (r: Result<Vec<Value>, EvalError>)
    requires
        env_wf(old(st)@),
        cenv < old(st)@.scopes.len(),
        ps@.len() == 1,
        idx <= elems@.len(),
        forall|i: int|
            0 <= i < values_view(elems@).len() ==> value_wf(
                #[trigger] values_view(elems@)[i],
                old(st)@.scopes.len() as int,
            ),
    ensures
        ({
            let sub = values_view(elems@).subrange(idx as int, values_view(elems@).len() as int);
            &&& (match r {
                Result::Ok(vs) => hof_filter_spec(
                    names_view(ps@),
                    body@,
                    cenv as int,
                    sub,
                    old(st)@,
                    fuel as nat,
                ).0 == Result::<Seq<SpecValue>, EvalError>::Ok(values_view(vs@)),
                Result::Err(err) => hof_filter_spec(
                    names_view(ps@),
                    body@,
                    cenv as int,
                    sub,
                    old(st)@,
                    fuel as nat,
                ).0 == Result::<Seq<SpecValue>, EvalError>::Err(err),
            })
            &&& final(st)@ == hof_filter_spec(
                names_view(ps@),
                body@,
                cenv as int,
                sub,
                old(st)@,
                fuel as nat,
            ).1
        }),
        env_wf(final(st)@),
        old(st)@.scopes.len() <= final(st)@.scopes.len(),
        r matches Result::Ok(vs) ==> forall|i: int|
            0 <= i < values_view(vs@).len() ==> value_wf(
                #[trigger] values_view(vs@)[i],
                final(st)@.scopes.len() as int,
            ),
    decreases fuel,
{
    let ghost sub = values_view(elems@).subrange(idx as int, values_view(elems@).len() as int);
    if fuel == 0 {
        return Result::Err(EvalError::RecursionLimit);
    }
    if idx == elems.len() {
        let out: Vec<Value> = Vec::new();
        proof {
            assert(values_view(out@) =~= Seq::<SpecValue>::empty());
        }
        return Result::Ok(out);
    }
    proof {
        assert(sub[0] == values_view(elems@)[idx as int]);
        assert(sub.subrange(1, sub.len() as int) =~= values_view(elems@).subrange(
            idx + 1,
            values_view(elems@).len() as int,
        ));
    }
    let ghost st0 = st@;
    let nid = st.new_child(cenv);
    let ev = crate::value::dup_value(&elems[idx]);
    proof {
        crate::value::lemma_value_wf_grow(ev@, st0.scopes.len() as int, st@.scopes.len() as int);
    }
    st.set(nid, ps[0].clone(), ev);
    proof {
        assert(st@ =~~= push_scope_spec(
            st0,
            cenv as int,
            seq![(names_view(ps@)[0], values_view(elems@)[idx as int])],
        ));
    }
    let v = match evaluate(st, nid, body, fuel - 1) {
        Result::Ok(x) => x,
        Result::Err(err) => {
            return Result::Err(err);
        },
    };
    let keep = match &v {
        Value::Bool(b) => *b,
        _ => false,
    };
    proof {
        assert(keep == (v@ == SpecValue::Bool(true)));
    }
    proof {
        assert forall|i: int| 0 <= i < values_view(elems@).len() implies value_wf(
            #[trigger] values_view(elems@)[i],
            st@.scopes.len() as int,
        ) by {
            crate::value::lemma_value_wf_grow(
                values_view(elems@)[i],
                old(st)@.scopes.len() as int,
                st@.scopes.len() as int,
            );
        }
    }
    let rest = match hof_filter(st, ps, body, cenv, elems, idx + 1, fuel - 1) {
        Result::Ok(x) => x,
        Result::Err(err) => {
            return Result::Err(err);
        },
    };
    if keep {
        let kept = crate::value::dup_value(&elems[idx]);
        let ghost restv = rest@;
        let mut out = rest;
        out.insert(0, kept);
        proof {
            assert(values_view(out@) =~= seq![values_view(elems@)[idx as int]] + values_view(
                restv,
            ));
            crate::value::lemma_value_wf_grow(
                values_view(elems@)[idx as int],
                st0.scopes.len() as int,
                st@.scopes.len() as int,
            );
            assert forall|i: int| 0 <= i < values_view(out@).len() implies value_wf(
                #[trigger] values_view(out@)[i],
                st@.scopes.len() as int,
            ) by {
                if i > 0 {
                    assert(values_view(out@)[i] == values_view(restv)[i - 1]);
                }
            }
        }
        Result::Ok(out)
    } else {
        Result::Ok(rest)
    }
}

/// `fold`'s loop: thread the accumulator through `elems[idx..]`.
fn hof_fold(
    st: &mut Environment,
    ps: &Vec<String>,
    body: &Expr,
    cenv: usize,
    acc: Value,
    elems: &Vec<Value>,
    idx: usize,
    fuel: u64,
) -> (r: Result<Value, EvalError>)
    requires
        env_wf(old(st)@),
        cenv < old(st)@.scopes.len(),
        ps@.len() == 2,
        idx <= elems@.len(),
        value_wf(acc@, old(st)@.scopes.len() as int),
        forall|i: int|
            0 <= i < values_view(elems@).len() ==> value_wf(
                #[trigger] values_view(elems@)[i],
                old(st)@.scopes.len() as int,
            ),
    ensures
        ({
            let sub = values_view(elems@).subrange(idx as int, values_view(elems@).len() as int);
            &&& res_view(r) == hof_fold_spec(
                names_view(ps@),
                body@,
                cenv as int,
                acc@,
                sub,
                old(st)@,
                fuel as nat,
            ).0
            &&& final(st)@ == hof_fold_spec(
                names_view(ps@),
                body@,
                cenv as int,
                acc@,
                sub,
                old(st)@,
                fuel as nat,
            ).1
        }),
        env_wf(final(st)@),
        old(st)@.scopes.len() <= final(st)@.scopes.len(),
        r matches Result::Ok(v) ==> value_wf(v@, final(st)@.scopes.len() as int),
    decreases fuel,
{
    let ghost sub = values_view(elems@).subrange(idx as int, values_view(elems@).len() as int);
    if fuel == 0 {
        return Result::Err(EvalError::RecursionLimit);
    }
    if idx == elems.len() {
        return Result::Ok(acc);
    }
    proof {
        assert(sub[0] == values_view(elems@)[idx as int]);
        assert(sub.subrange(1, sub.len() as int) =~= values_view(elems@).subrange(
            idx + 1,
            values_view(elems@).len() as int,
        ));
    }
    let ghost st0 = st@;
    let ghost accv = acc@;
    let nid = st.new_child(cenv);
    let accd = crate::value::dup_value(&acc);
    let ev = crate::value::dup_value(&elems[idx]);
    proof {
        crate::value::lemma_value_wf_grow(accd@, st0.scopes.len() as int, st@.scopes.len() as int);
        crate::value::lemma_value_wf_grow(ev@, st0.scopes.len() as int, st@.scopes.len() as int);
    }
    st.set(nid, ps[0].clone(), accd);
    st.set(nid, ps[1].clone(), ev);
    proof {
        assert(st@ =~~= push_scope_spec(
            st0,
            cenv as int,
            seq![
                (names_view(ps@)[0], accv),
                (names_view(ps@)[1], values_view(elems@)[idx as int]),
            ],
        ));
    }
    let v = match evaluate(st, nid, body, fuel - 1) {
        Result::Ok(x) => x,
        Result::Err(err) => {
            return Result::Err(err);
        },
    };
    proof {
        assert forall|i: int| 0 <= i < values_view(elems@).len() implies value_wf(
            #[trigger] values_view(elems@)[i],
            st@.scopes.len() as int,
        ) by {
            crate::value::lemma_value_wf_grow(
                values_view(elems@)[i],
                old(st)@.scopes.len() as int,
                st@.scopes.len() as int,
            );
        }
    }
    hof_fold(st, ps, body, cenv, v, elems, idx + 1, fuel - 1)
}

/// One whole run: evaluate `e` against a fresh initial environment with the
/// given recursion budget. Returns the outcome and the recorded effects;
/// both are exactly what [`run_spec`] says, so evaluating the same tree
/// against a fresh initial environment twice yields identical output.
pub fn run(e: &Expr, fuel: u64) -> (res: (Result<Value, EvalError>, Vec<Effect>))
    ensures
        res_view(res.0) == run_spec(e@, fuel as nat).0,
        crate::env::effects_view(res.1@) == run_spec(e@, fuel as nat).1.effects,
{
    let mut st = Environment::new();
    proof {
        lemma_initial_env_wf();
    }
    let r = evaluate(&mut st, 0, e, fuel);
    let effs = st.into_effects();
    (r, effs)
}

/// The starting environment is well formed.
pub proof fn lemma_initial_env_wf()
    ensures
        env_wf(initial_env()),
{
    let ie = initial_env();
    assert forall|i: int| 0 <= i < ie.scopes.len() implies crate::env::scope_wf(
        #[trigger] ie.scopes[i],
        i,
        ie.scopes.len() as int,
    ) by {
        assert(ie.scopes[i] == ie.scopes[0]);
        assert forall|j: int| 0 <= j < ie.scopes[0].bindings.len() implies value_wf(
            (#[trigger] ie.scopes[0].bindings[j]).1,
            ie.scopes.len() as int,
        ) by {
            assert(j == 0 || j == 1 || j == 2);
            assert(ie.scopes[0].bindings[0].1 == SpecValue::Number(1));
            assert(ie.scopes[0].bindings[1].1 == SpecValue::Number(5));
            assert(ie.scopes[0].bindings[2].1 == SpecValue::Number(10));
        }
    }
}

} // verus!
