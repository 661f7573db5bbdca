//! The environment: an arena of lexically chained scopes, plus the log of
//! input/output effects requested during an evaluation.
//!
//! A scope owns a list of bindings and an optional parent handle; handles are
//! indices into the arena, so scopes are shared by reference and survive the
//! expressions that created them (which is what lets closures keep their
//! captured scope alive, and lets an assignment made after a closure was
//! created remain visible inside that closure).

use vstd::prelude::*;
use vstd::pervasive::VecAdditionalExecFns;

use crate::strings::str_eq;
use crate::value::EvalError;
use crate::value::SpecValue;
use crate::value::Value;
use crate::value::value_view;
use crate::value::value_wf;

verus! {

/// An input/output action requested by a builtin during evaluation. The
/// evaluator only records actions; the process boundary performs them, in
/// order, when the evaluation is over.
#[derive(Debug)]
pub enum Effect {
    /// One line to write to the standard output channel (without the newline).
    Print(String),
    /// A number of milliseconds to suspend for.
    Wait(i64),
}

/// The mathematical model of an [`Effect`].
pub enum SpecEffect {
    Print(Seq<char>),
    Wait(i64),
}

/// The model of an effect.
pub open spec fn effect_view(e: Effect) -> SpecEffect {
    match e {
        Effect::Print(s) => SpecEffect::Print(s@),
        Effect::Wait(n) => SpecEffect::Wait(n),
    }
}

/// The models of a list of effects, in order.
pub open spec fn effects_view(es: Seq<Effect>) -> Seq<SpecEffect> {
    Seq::new(es.len(), |i: int| effect_view(es[i]))
}

impl View for Effect {
    type V = SpecEffect;

    open spec fn view(&self) -> SpecEffect {
        effect_view(*self)
    }
}

/// One scope: named bindings plus an optional parent handle.
pub struct Scope {
    bindings: Vec<(String, Value)>,
    parent: Option<usize>,
}

/// The bindings of one scope, newest last. A name may occur more than once;
/// the latest occurrence is the visible one.
pub type Bindings = Seq<(Seq<char>, SpecValue)>;

/// The mathematical model of a [`Scope`].
#[verifier::ext_equal]
pub struct SpecScope {
    pub bindings: Bindings,
    pub parent: Option<int>,
}

/// The model of a list of bindings.
pub open spec fn bindings_view(bs: Seq<(String, Value)>) -> Bindings {
    Seq::new(bs.len(), |i: int| (bs[i].0@, value_view(bs[i].1)))
}

impl View for Scope {
    type V = SpecScope;

    closed spec fn view(&self) -> SpecScope {
        SpecScope {
            bindings: bindings_view(self.bindings@),
            parent: match self.parent {
                Option::Some(p) => Option::Some(p as int),
                Option::None => Option::None,
            },
        }
    }
}

/// The arena of scopes and the effect log.
pub struct Environment {
    scopes: Vec<Scope>,
    effects: Vec<Effect>,
}

/// The mathematical model of an [`Environment`].
#[verifier::ext_equal]
pub struct SpecEnv {
    pub scopes: Seq<SpecScope>,
    pub effects: Seq<SpecEffect>,
}

impl View for Environment {
    type V = SpecEnv;

    closed spec fn view(&self) -> SpecEnv {
        SpecEnv {
            scopes: Seq::new(self.scopes@.len(), |i: int| self.scopes@[i]@),
            effects: effects_view(self.effects@),
        }
    }
}

/// The value of the latest binding of `name`, if any.
pub open spec fn scope_find(bs: Bindings, name: Seq<char>) -> Option<SpecValue>
    decreases bs.len(),
{
    if bs.len() == 0 {
        Option::None
    } else if bs.last().0 == name {
        Option::Some(bs.last().1)
    } else {
        scope_find(bs.drop_last(), name)
    }
}

/// The latest binding of `name` replaced by `v`; unchanged if `name` is not
/// bound.
pub open spec fn scope_set(bs: Bindings, name: Seq<char>, v: SpecValue) -> Bindings
    decreases bs.len(),
{
    if bs.len() == 0 {
        bs
    } else if bs.last().0 == name {
        bs.update(bs.len() - 1, (name, v))
    } else {
        scope_set(bs.drop_last(), name, v).push(bs.last())
    }
}

/// The handle of the nearest scope, walking outward from `env`, that owns a
/// binding of `name`; `None` when no enclosing scope does.
pub open spec fn resolve(scopes: Seq<SpecScope>, env: int, name: Seq<char>) -> Option<int>
    decreases env,
{
    if 0 <= env < scopes.len() {
        if scope_find(scopes[env].bindings, name) is Some {
            Option::Some(env)
        } else {
            match scopes[env].parent {
                Option::Some(p) => if 0 <= p < env {
                    resolve(scopes, p, name)
                } else {
                    Option::None
                },
                Option::None => Option::None,
            }
        }
    } else {
        Option::None
    }
}

/// Variable lookup: the value of `name` in the nearest enclosing scope that
/// binds it.
pub open spec fn lookup_name(scopes: Seq<SpecScope>, env: int, name: Seq<char>) -> Option<
    SpecValue,
> {
    match resolve(scopes, env, name) {
        Option::Some(s) => scope_find(scopes[s].bindings, name),
        Option::None => Option::None,
    }
}

/// `define`: a new binding of `name` in scope `env` itself, shadowing any
/// binding of the same name in that scope or an outer one.
pub open spec fn define_name(
    scopes: Seq<SpecScope>,
    env: int,
    name: Seq<char>,
    v: SpecValue,
) -> Seq<SpecScope> {
    scopes.update(
        env,
        SpecScope { bindings: scopes[env].bindings.push((name, v)), parent: scopes[env].parent },
    )
}

/// `assign`: the nearest enclosing binding of `name` overwritten in place;
/// `None` when no enclosing scope binds `name`.
pub open spec fn assign_name(
    scopes: Seq<SpecScope>,
    env: int,
    name: Seq<char>,
    v: SpecValue,
) -> Option<Seq<SpecScope>> {
    match resolve(scopes, env, name) {
        Option::Some(s) => Option::Some(
            scopes.update(
                s,
                SpecScope {
                    bindings: scope_set(scopes[s].bindings, name, v),
                    parent: scopes[s].parent,
                },
            ),
        ),
        Option::None => Option::None,
    }
}

/// A scope is well formed at position `idx` of a store of `nscopes` scopes:
/// its parent handle points strictly backwards (scopes only ever point
/// outward, towards their creator) and every bound value is well formed.
pub open spec fn scope_wf(sc: SpecScope, idx: int, nscopes: int) -> bool {
    &&& match sc.parent {
        Option::Some(p) => 0 <= p < idx,
        Option::None => true,
    }
    &&& forall|i: int|
        0 <= i < sc.bindings.len() ==> value_wf(#[trigger] sc.bindings[i].1, nscopes)
}

/// Every scope of the store is well formed.
pub open spec fn env_wf(st: SpecEnv) -> bool {
    forall|i: int|
        0 <= i < st.scopes.len() ==> scope_wf(#[trigger] st.scopes[i], i, st.scopes.len() as int)
}

/// The starting environment: one global scope with the convenience constants
/// `i = 1`, `v = 5`, `x = 10`, and an empty effect log.
pub open spec fn initial_env() -> SpecEnv {
    SpecEnv {
        scopes: seq![
            SpecScope {
                bindings: seq![
                    ("i"@, SpecValue::Number(1)),
                    ("v"@, SpecValue::Number(5)),
                    ("x"@, SpecValue::Number(10)),
                ],
                parent: Option::None,
            },
        ],
        effects: Seq::empty(),
    }
}

/// A found binding is a well-formed value when the whole list is.
pub proof fn lemma_scope_find_wf(bs: Bindings, name: Seq<char>, n: int)
    requires
        forall|i: int| 0 <= i < bs.len() ==> value_wf(#[trigger] bs[i].1, n),
        scope_find(bs, name) is Some,
    ensures
        value_wf(scope_find(bs, name)->Some_0, n),
    decreases bs.len(),
{
    if bs.len() != 0 && bs.last().0 != name {
        lemma_scope_find_wf(bs.drop_last(), name, n);
    }
}

/// A resolved handle is a valid index whose scope binds the name.
pub proof fn lemma_resolve_some(scopes: Seq<SpecScope>, env: int, name: Seq<char>)
    requires
        resolve(scopes, env, name) is Some,
    ensures
        0 <= resolve(scopes, env, name)->Some_0 < scopes.len(),
        resolve(scopes, env, name)->Some_0 <= env,
        scope_find(scopes[resolve(scopes, env, name)->Some_0].bindings, name) is Some,
    decreases env,
{
    if 0 <= env < scopes.len() {
        if scope_find(scopes[env].bindings, name) is Some {
        } else {
            match scopes[env].parent {
                Option::Some(p) => {
                    if 0 <= p < env {
                        lemma_resolve_some(scopes, p, name);
                    }
                },
                Option::None => {},
            }
        }
    }
}

/// A value produced by lookup is well formed for the store it came from.
pub proof fn lemma_lookup_wf(st: SpecEnv, env: int, name: Seq<char>)
    requires
        env_wf(st),
        lookup_name(st.scopes, env, name) is Some,
    ensures
        value_wf(lookup_name(st.scopes, env, name)->Some_0, st.scopes.len() as int),
{
    lemma_resolve_some(st.scopes, env, name);
    let s = resolve(st.scopes, env, name)->Some_0;
    lemma_scope_find_wf(st.scopes[s].bindings, name, st.scopes.len() as int);
}

/// When position `i` holds the latest binding of `name`, `scope_find`
/// returns exactly that binding's value.
pub proof fn lemma_scope_find_at(bs: Bindings, name: Seq<char>, i: int)
    requires
        0 <= i < bs.len(),
        bs[i].0 == name,
        forall|j: int| i < j < bs.len() ==> (#[trigger] bs[j]).0 != name,
    ensures
        scope_find(bs, name) == Option::Some(bs[i].1),
    decreases bs.len(),
{
    if i == bs.len() - 1 {
    } else {
        lemma_scope_find_at(bs.drop_last(), name, i);
    }
}

/// When no position binds `name`, `scope_find` finds nothing.
pub proof fn lemma_scope_find_none(bs: Bindings, name: Seq<char>)
    requires
        forall|j: int| 0 <= j < bs.len() ==> (#[trigger] bs[j]).0 != name,
    ensures
        scope_find(bs, name) is None,
    decreases bs.len(),
{
    if bs.len() != 0 {
        lemma_scope_find_none(bs.drop_last(), name);
    }
}

/// When position `i` holds the latest binding of `name`, `scope_set` is a
/// positional update there.
pub proof fn lemma_scope_set_at(bs: Bindings, name: Seq<char>, v: SpecValue, i: int)
    requires
        0 <= i < bs.len(),
        bs[i].0 == name,
        forall|j: int| i < j < bs.len() ==> (#[trigger] bs[j]).0 != name,
    ensures
        scope_set(bs, name, v) == bs.update(i, (name, v)),
    decreases bs.len(),
{
    if i == bs.len() - 1 {
        assert(scope_set(bs, name, v) =~= bs.update(i, (name, v)));
    } else {
        lemma_scope_set_at(bs.drop_last(), name, v, i);
        assert(scope_set(bs.drop_last(), name, v).push(bs.last()) =~= bs.update(i, (name, v)));
    }
}

impl Scope {
    /// The position of the latest binding of `name` in this scope, if any.
    fn index_of(&self, name: &str) -> (r: Option<usize>)
        ensures
            match r {
                Option::Some(i) => {
                    &&& 0 <= i < self@.bindings.len()
                    &&& self@.bindings[i as int].0 == name@
                    &&& forall|j: int|
                        i < j < self@.bindings.len() ==> (#[trigger] self@.bindings[j]).0 != name@
                },
                Option::None => forall|j: int|
                    0 <= j < self@.bindings.len() ==> (#[trigger] self@.bindings[j]).0 != name@,
            },
    {
        let mut i: usize = self.bindings.len();
        while i > 0
            invariant
                i <= self.bindings@.len(),
                forall|j: int|
                    i <= j < self@.bindings.len() ==> (#[trigger] self@.bindings[j]).0 != name@,
            decreases i,
        {
            i = i - 1;
            if str_eq(self.bindings[i].0.as_str(), name) {
                return Option::Some(i);
            }
        }
        Option::None
    }
}

impl Environment {
    /// A fresh environment: the global scope with `i = 1`, `v = 5`, `x = 10`
    /// and no effects yet.
    pub fn new() -> (st: Self)
        ensures
            st@ == initial_env(),
            env_wf(st@),
    {
        let mut bindings: Vec<(String, Value)> = Vec::new();
        bindings.push(("i".to_owned(), Value::Number(1)));
        bindings.push(("v".to_owned(), Value::Number(5)));
        bindings.push(("x".to_owned(), Value::Number(10)));
        let mut scopes: Vec<Scope> = Vec::new();
        scopes.push(Scope { bindings, parent: Option::None });
        let st = Environment { scopes, effects: Vec::new() };
        proof {
            assert(st@.scopes[0].bindings =~= initial_env().scopes[0].bindings);
            assert(st@.scopes[0] =~= initial_env().scopes[0]);
            assert(st@.scopes =~= initial_env().scopes);
            assert(st@.effects =~= initial_env().effects);
            assert(st@ =~= initial_env());
        }
        st
    }

    /// How many scopes the arena holds.
    pub fn scope_count(&self) -> (n: usize)
        ensures
            n == self@.scopes.len(),
    {
        self.scopes.len()
    }

    /// A new, empty scope whose parent is `parent`; returns its handle.
    pub fn new_child(&mut self, parent: usize) -> (id: usize)
        requires
            parent < old(self)@.scopes.len(),
        ensures
            id == old(self)@.scopes.len(),
            final(self)@.scopes == old(self)@.scopes.push(
                SpecScope { bindings: Seq::empty(), parent: Option::Some(parent as int) },
            ),
            final(self)@.effects == old(self)@.effects,
            env_wf(old(self)@) ==> env_wf(final(self)@),
    {
        let id = self.scopes.len();
        self.scopes.push(Scope { bindings: Vec::new(), parent: Option::Some(parent) });
        proof {
            assert(self@.scopes[id as int].bindings =~= Seq::empty());
            assert(self@.scopes =~= old(self)@.scopes.push(
                SpecScope { bindings: Seq::empty(), parent: Option::Some(parent as int) },
            ));
            assert(self@.effects =~= old(self)@.effects);
            if env_wf(old(self)@) {
                assert forall|i: int| 0 <= i < self@.scopes.len() implies scope_wf(
                    #[trigger] self@.scopes[i],
                    i,
                    self@.scopes.len() as int,
                ) by {
                    if i < id {
                        assert(scope_wf(old(self)@.scopes[i], i, id as int));
                        assert forall|k: int|
                            0 <= k < self@.scopes[i].bindings.len() implies value_wf(
                            (#[trigger] self@.scopes[i].bindings[k]).1,
                            self@.scopes.len() as int,
                        ) by {
                            crate::value::lemma_value_wf_grow(
                                self@.scopes[i].bindings[k].1,
                                id as int,
                                self@.scopes.len() as int,
                            );
                        }
                    }
                }
            }
        }
        id
    }

    /// Variable lookup: walk the scope chain from `env` outward and return
    /// the value of the first binding of `name` found.
    pub fn get(&self, env: usize, name: &str) -> (r: Option<&Value>)
        requires
            env < self@.scopes.len(),
            env_wf(self@),
        ensures
            match r {
                Option::Some(v) => lookup_name(self@.scopes, env as int, name@)
                    == Option::Some(v@),
                Option::None => lookup_name(self@.scopes, env as int, name@) is None,
            },
    {
        let mut cur: usize = env;
        loop
            invariant
                cur < self@.scopes.len(),
                env < self@.scopes.len(),
                env_wf(self@),
                lookup_name(self@.scopes, cur as int, name@) == lookup_name(
                    self@.scopes,
                    env as int,
                    name@,
                ),
            decreases cur,
        {
            let sc = &self.scopes[cur];
            match sc.index_of(name) {
                Option::Some(i) => {
                    proof {
                        lemma_scope_find_at(sc@.bindings, name@, i as int);
                    }
                    return Option::Some(&sc.bindings[i].1);
                },
                Option::None => {
                    proof {
                        lemma_scope_find_none(sc@.bindings, name@);
                    }
                    match sc.parent {
                        Option::Some(p) => {
                            cur = p;
                        },
                        Option::None => {
                            return Option::None;
                        },
                    }
                },
            }
        }
    }

    /// `define`: push a new binding of `name` onto scope `env` itself.
    pub fn set(&mut self, env: usize, name: String, value: Value)
        requires
            env < old(self)@.scopes.len(),
        ensures
            final(self)@.scopes == define_name(old(self)@.scopes, env as int, name@, value@),
            final(self)@.effects == old(self)@.effects,
            final(self)@.scopes.len() == old(self)@.scopes.len(),
            env_wf(old(self)@) && value_wf(value@, old(self)@.scopes.len() as int) ==> env_wf(
                final(self)@,
            ),
    {
        let ghost ghost_name = name@;
        let ghost ghost_value = value@;
        self.scopes[env].bindings.push((name, value));
        proof {
            let expected = define_name(old(self)@.scopes, env as int, ghost_name, ghost_value);
            assert(self@.scopes[env as int].bindings =~= expected[env as int].bindings);
            assert(self@.scopes =~= expected);
            assert(self@.effects =~= old(self)@.effects);
            if env_wf(old(self)@) && value_wf(ghost_value, old(self)@.scopes.len() as int) {
                assert forall|i: int| 0 <= i < self@.scopes.len() implies scope_wf(
                    #[trigger] self@.scopes[i],
                    i,
                    self@.scopes.len() as int,
                ) by {
                    assert(scope_wf(old(self)@.scopes[i], i, self@.scopes.len() as int));
                    if i == env {
                        assert forall|k: int|
                            0 <= k < self@.scopes[i].bindings.len() implies value_wf(
                            (#[trigger] self@.scopes[i].bindings[k]).1,
                            self@.scopes.len() as int,
                        ) by {
                            if k < old(self)@.scopes[i].bindings.len() {
                                assert(self@.scopes[i].bindings[k]
                                    == old(self)@.scopes[i].bindings[k]);
                            }
                        }
                    }
                }
            }
        }
    }

    /// `assign`: overwrite the nearest enclosing binding of `name`, in
    /// whichever scope first introduced it; fails when no scope binds it.
    pub fn assign(&mut self, env: usize, name: &str, value: Value) -> (r: Result<(), EvalError>)
        requires
            env < old(self)@.scopes.len(),
            env_wf(old(self)@),
            value_wf(value@, old(self)@.scopes.len() as int),
        ensures
            final(self)@.effects == old(self)@.effects,
            final(self)@.scopes.len() == old(self)@.scopes.len(),
            env_wf(final(self)@),
            match r {
                Result::Ok(u) => assign_name(old(self)@.scopes, env as int, name@, value@)
                    == Option::Some(final(self)@.scopes),
                Result::Err(e) => {
                    &&& e == EvalError::UnboundVariable
                    &&& assign_name(old(self)@.scopes, env as int, name@, value@) is None
                    &&& final(self)@ == old(self)@
                },
            },
    {
        let ghost ghost_value = value@;
        let mut cur: usize = env;
        loop
            invariant
                cur < self@.scopes.len(),
                env < self@.scopes.len(),
                env_wf(self@),
                self@ == old(self)@,
                value_wf(ghost_value, self@.scopes.len() as int),
                value@ == ghost_value,
                resolve(self@.scopes, cur as int, name@) == resolve(
                    self@.scopes,
                    env as int,
                    name@,
                ),
            decreases cur,
        {
            let found = self.scopes[cur].index_of(name);
            match found {
                Option::Some(i) => {
                    proof {
                        let sc = self@.scopes[cur as int];
                        lemma_scope_find_at(sc.bindings, name@, i as int);
                        lemma_scope_set_at(sc.bindings, name@, ghost_value, i as int);
                    }
                    let tup = (name.to_owned(), value);
                    self.scopes[cur].bindings.set(i, tup);
                    proof {
                        let expected = assign_name(
                            old(self)@.scopes,
                            env as int,
                            name@,
                            ghost_value,
                        )->Some_0;
                        assert(self@.scopes[cur as int].bindings =~= expected[cur as int].bindings);
                        assert(self@.scopes =~= expected);
                        assert(self@.effects =~= old(self)@.effects);
                        assert forall|j: int| 0 <= j < self@.scopes.len() implies scope_wf(
                            #[trigger] self@.scopes[j],
                            j,
                            self@.scopes.len() as int,
                        ) by {
                            assert(scope_wf(old(self)@.scopes[j], j, self@.scopes.len() as int));
                            if j == cur {
                                assert forall|k: int|
                                    0 <= k < self@.scopes[j].bindings.len() implies value_wf(
                                    (#[trigger] self@.scopes[j].bindings[k]).1,
                                    self@.scopes.len() as int,
                                ) by {
                                    if k != i {
                                        assert(self@.scopes[j].bindings[k]
                                            == old(self)@.scopes[j].bindings[k]);
                                    }
                                }
                            }
                        }
                    }
                    return Result::Ok(());
                },
                Option::None => {
                    proof {
                        lemma_scope_find_none(self@.scopes[cur as int].bindings, name@);
                    }
                    match self.scopes[cur].parent {
                        Option::Some(p) => {
                            cur = p;
                        },
                        Option::None => {
                            return Result::Err(EvalError::UnboundVariable);
                        },
                    }
                },
            }
        }
    }

    /// Record one effect at the end of the log.
    pub fn log_effect(&mut self, eff: Effect)
        ensures
            final(self)@.scopes == old(self)@.scopes,
            final(self)@.effects == old(self)@.effects.push(eff@),
            env_wf(old(self)@) ==> env_wf(final(self)@),
    {
        self.effects.push(eff);
        proof {
            assert(self@.scopes =~= old(self)@.scopes);
            assert(self@.effects =~= old(self)@.effects.push(eff@));
        }
    }

    /// Surrender the recorded effects, in the order they were requested.
    pub fn into_effects(self) -> (r: Vec<Effect>)
        ensures
            effects_view(r@) == self@.effects,
    {
        self.effects
    }
}

} // verus!
