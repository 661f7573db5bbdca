//! Laws of the language, each proved against the evaluator's semantics.

use vstd::prelude::*;

use crate::ast::SpecExpr;
use crate::builtins::builtin_arity;
use crate::env::Bindings;
use crate::env::SpecEnv;
use crate::env::SpecScope;
use crate::env::assign_name;
use crate::env::define_name;
use crate::env::lookup_name;
use crate::env::resolve;
use crate::env::scope_find;
use crate::env::scope_set;
use crate::eval::apply_builtin_spec;
use crate::eval::apply_spec;
use crate::eval::eval_spec;
use crate::eval::param_bindings;
use crate::eval::push_scope_spec;
use crate::value::Builtin;
use crate::value::EvalError;
use crate::value::SpecValue;

verus! {

/// Law: a builtin call whose argument count differs from the builtin's
/// declared arity fails with `ArityMismatch` and changes nothing — for every
/// builtin with a declared arity.
pub proof fn lemma_builtin_arity_mismatch(k: Builtin, avs: Seq<SpecValue>, st: SpecEnv, fuel: nat)
    requires
        fuel > 0,
        builtin_arity(k) matches Option::Some(n) && avs.len() != n,
    ensures
        apply_builtin_spec(k, avs, st, fuel) == (
            Result::<SpecValue, EvalError>::Err(EvalError::ArityMismatch),
            st,
        ),
{
}

/// Law: a closure called with an argument count different from its parameter
/// count fails with `ArityMismatch` and changes nothing.
pub proof fn lemma_closure_arity_mismatch(
    ps: Seq<Seq<char>>,
    body: SpecExpr,
    cenv: int,
    avs: Seq<SpecValue>,
    st: SpecEnv,
    fuel: nat,
)
    requires
        fuel > 0,
        avs.len() != ps.len(),
    ensures
        apply_spec(SpecValue::Closure(ps, body, cenv), avs, st, fuel) == (
            Result::<SpecValue, EvalError>::Err(EvalError::ArityMismatch),
            st,
        ),
{
}

/// Law: calling a closure evaluates its body in a fresh scope chained to the
/// closure's captured scope — never to the caller's. The caller's scope does
/// not appear at all, so the same closure value applied to the same arguments
/// against the same store behaves identically wherever the call is written.
pub proof fn lemma_closure_lexical_scope(
    ps: Seq<Seq<char>>,
    body: SpecExpr,
    cenv: int,
    avs: Seq<SpecValue>,
    st: SpecEnv,
    fuel: nat,
)
    requires
        fuel > 0,
        avs.len() == ps.len(),
    ensures
        apply_spec(SpecValue::Closure(ps, body, cenv), avs, st, fuel) == eval_spec(
            body,
            st.scopes.len() as int,
            push_scope_spec(st, cenv, param_bindings(ps, avs)),
            (fuel - 1) as nat,
        ),
{
}

/// Appending a scope to the store changes no lookup through existing scopes.
pub proof fn lemma_resolve_push(scopes: Seq<SpecScope>, sc: SpecScope, env: int, name: Seq<char>)
    requires
        0 <= env < scopes.len(),
    ensures
        resolve(scopes.push(sc), env, name) == resolve(scopes, env, name),
        lookup_name(scopes.push(sc), env, name) == lookup_name(scopes, env, name),
    decreases env,
{
    let scopes2 = scopes.push(sc);
    assert(scopes2[env] == scopes[env]);
    if scope_find(scopes[env].bindings, name) is Some {
    } else {
        match scopes[env].parent {
            Option::Some(p) => {
                if 0 <= p < env {
                    lemma_resolve_push(scopes, sc, p, name);
                }
            },
            Option::None => {},
        }
    }
    if resolve(scopes, env, name) is Some {
        crate::env::lemma_resolve_some(scopes, env, name);
        let s = resolve(scopes, env, name)->Some_0;
        assert(scopes2[s] == scopes[s]);
    }
}

/// Law (lexical scoping): inside a call frame, a free variable — one that is
/// not a parameter of the closure — resolves exactly as it does from the
/// closure's captured scope. The scope that created the closure may have been
/// exited long ago: the capture survives, because scopes live in the store
/// for as long as anything can reach them.
pub proof fn lemma_frame_free_variable(
    st: SpecEnv,
    cenv: int,
    ps: Seq<Seq<char>>,
    avs: Seq<SpecValue>,
    name: Seq<char>,
)
    requires
        0 <= cenv < st.scopes.len(),
        ps.len() == avs.len(),
        forall|i: int| 0 <= i < ps.len() ==> ps[i] != name,
    ensures
        ({
            let st1 = push_scope_spec(st, cenv, param_bindings(ps, avs));
            lookup_name(st1.scopes, st.scopes.len() as int, name) == lookup_name(
                st.scopes,
                cenv,
                name,
            )
        }),
{
    let frame = param_bindings(ps, avs);
    let st1 = push_scope_spec(st, cenv, frame);
    let nid = st.scopes.len() as int;
    assert(st1.scopes[nid].bindings == frame);
    assert forall|j: int| 0 <= j < frame.len() implies (#[trigger] frame[j]).0 != name by {
        assert(frame[j].0 == ps[j]);
    }
    crate::env::lemma_scope_find_none(frame, name);
    lemma_resolve_push(st.scopes, st1.scopes[nid], cenv, name);
}

/// `scope_set` on a bound name rebinds exactly that name; on an unbound name
/// it changes nothing.
pub proof fn lemma_scope_set_found(bs: Bindings, name: Seq<char>, v: SpecValue)
    ensures
        scope_find(bs, name) is Some ==> scope_find(scope_set(bs, name, v), name)
            == Option::Some(v),
        scope_find(bs, name) is None ==> scope_set(bs, name, v) == bs,
    decreases bs.len(),
{
    if bs.len() != 0 {
        if bs.last().0 == name {
            let upd = bs.update(bs.len() - 1, (name, v));
            assert(upd.last() == (name, v));
        } else {
            lemma_scope_set_found(bs.drop_last(), name, v);
            let rec = scope_set(bs.drop_last(), name, v).push(bs.last());
            if scope_find(bs.drop_last(), name) is Some {
                assert(rec.last() == bs.last());
                assert(rec.drop_last() =~= scope_set(bs.drop_last(), name, v));
            } else {
                assert(scope_set(bs.drop_last(), name, v).push(bs.last()) =~= bs);
            }
        }
    }
}

/// Rebinding `name` in one scope leaves every other name, and every lookup
/// that does not resolve to that scope, exactly as it was; a lookup that does
/// resolve there still resolves there.
pub proof fn lemma_resolve_after_set(
    scopes: Seq<SpecScope>,
    s: int,
    name: Seq<char>,
    v: SpecValue,
    env: int,
)
    requires
        0 <= s < scopes.len(),
        scope_find(scopes[s].bindings, name) is Some,
    ensures
        ({
            let scopes2 = scopes.update(
                s,
                SpecScope {
                    bindings: scope_set(scopes[s].bindings, name, v),
                    parent: scopes[s].parent,
                },
            );
            resolve(scopes2, env, name) == resolve(scopes, env, name)
        }),
    decreases env,
{
    let scopes2 = scopes.update(
        s,
        SpecScope { bindings: scope_set(scopes[s].bindings, name, v), parent: scopes[s].parent },
    );
    if 0 <= env < scopes.len() {
        lemma_scope_set_found(scopes[env].bindings, name, v);
        if env == s {
        } else {
            assert(scopes2[env] == scopes[env]);
            if scope_find(scopes[env].bindings, name) is Some {
            } else {
                match scopes[env].parent {
                    Option::Some(p) => {
                        if 0 <= p < env {
                            lemma_resolve_after_set(scopes, s, name, v, p);
                        }
                    },
                    Option::None => {},
                }
            }
        }
    }
}

/// Law (mutation visibility): after an assignment to `name` made from one
/// scope, any lookup of `name` from another scope that resolves it to the
/// same owning scope observes the new value. In particular, a closure whose
/// captured chain reaches the owning scope observes an assignment made after
/// the closure was created.
pub proof fn lemma_assignment_visible(
    scopes: Seq<SpecScope>,
    env1: int,
    env2: int,
    name: Seq<char>,
    v: SpecValue,
)
    requires
        resolve(scopes, env1, name) is Some,
        resolve(scopes, env2, name) == resolve(scopes, env1, name),
    ensures
        assign_name(scopes, env1, name, v) matches Option::Some(scopes2) && lookup_name(
            scopes2,
            env2,
            name,
        ) == Option::Some(v),
{
    crate::env::lemma_resolve_some(scopes, env1, name);
    let s = resolve(scopes, env1, name)->Some_0;
    lemma_resolve_after_set(scopes, s, name, v, env2);
    lemma_scope_set_found(scopes[s].bindings, name, v);
    let scopes2 = assign_name(scopes, env1, name, v)->Some_0;
    assert(scopes2[s].bindings == scope_set(scopes[s].bindings, name, v));
}

/// Whether the scope chain from `env` passes through the scope `idx`.
pub open spec fn chain_reaches(scopes: Seq<SpecScope>, env: int, idx: int) -> bool
    decreases env,
{
    if 0 <= env < scopes.len() {
        env == idx || (match scopes[env].parent {
            Option::Some(p) => 0 <= p < env && chain_reaches(scopes, p, idx),
            Option::None => false,
        })
    } else {
        false
    }
}

/// Law (shadowing, inner half): a binding introduced in a scope hides any
/// outer binding of the same name for lookups from that scope.
pub proof fn lemma_define_shadows(scopes: Seq<SpecScope>, inner: int, name: Seq<char>, v: SpecValue)
    requires
        0 <= inner < scopes.len(),
    ensures
        lookup_name(define_name(scopes, inner, name, v), inner, name) == Option::Some(v),
{
    let scopes2 = define_name(scopes, inner, name, v);
    assert(scopes2[inner].bindings.last() == (name, v));
}

/// Law (shadowing, outer half): a binding introduced in an inner scope leaves
/// every lookup whose chain does not pass through that scope unchanged — in
/// particular, the outer binding itself is unaffected, and is found again as
/// soon as lookups no longer go through the inner scope.
pub proof fn lemma_define_elsewhere_unchanged(
    scopes: Seq<SpecScope>,
    inner: int,
    outer: int,
    name: Seq<char>,
    v: SpecValue,
)
    requires
        0 <= inner < scopes.len(),
        !chain_reaches(scopes, outer, inner),
    ensures
        lookup_name(define_name(scopes, inner, name, v), outer, name) == lookup_name(
            scopes,
            outer,
            name,
        ),
    decreases outer,
{
    let scopes2 = define_name(scopes, inner, name, v);
    if 0 <= outer < scopes.len() {
        assert(outer != inner);
        assert(scopes2[outer] == scopes[outer]);
        if scope_find(scopes[outer].bindings, name) is Some {
        } else {
            match scopes[outer].parent {
                Option::Some(p) => {
                    if 0 <= p < outer {
                        lemma_define_elsewhere_unchanged(scopes, inner, p, name, v);
                        if resolve(scopes, p, name) is Some {
                            crate::env::lemma_resolve_some(scopes, p, name);
                            crate::env::lemma_resolve_some(scopes2, p, name);
                        }
                    }
                },
                Option::None => {},
            }
        }
    }
}

/// Law (copy-on-write arrays): the `set` builtin returns a fresh array with
/// one position replaced, and leaves the store — and with it every variable
/// still bound to the argument array — exactly as it was.
pub proof fn lemma_set_copies(vs: Seq<SpecValue>, i: i64, x: SpecValue, st: SpecEnv, fuel: nat)
    requires
        fuel > 0,
        0 <= i < vs.len(),
    ensures
        apply_builtin_spec(
            Builtin::SetAt,
            seq![SpecValue::Array(vs), SpecValue::Number(i), x],
            st,
            fuel,
        ) == (
            Result::<SpecValue, EvalError>::Ok(SpecValue::Array(vs.update(i as int, x))),
            st,
        ),
{
    let avs = seq![SpecValue::Array(vs), SpecValue::Number(i), x];
    assert(avs.len() == 3);
    assert(avs[0] == SpecValue::Array(vs));
    assert(avs[1] == SpecValue::Number(i));
    assert(avs[2] == x);
}

} // verus!
