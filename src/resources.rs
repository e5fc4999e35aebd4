use vstd::prelude::*;

use std::collections::HashMap;

use crate::error::Error;
use crate::TypeKey;

verus! {

broadcast use vstd::std_specs::hash::group_hash_axioms;

/// The first key of `deps` that `m` does not hold, if any.
pub open spec fn first_missing<V>(m: Map<TypeKey, V>, deps: Seq<TypeKey>) -> Option<TypeKey>
    decreases deps.len(),
{
    if deps.len() == 0 {
        None
    } else if !m.contains_key(deps[0]) {
        Some(deps[0])
    } else {
        first_missing(m, deps.drop_first())
    }
}

proof fn lemma_first_missing_at<V>(m: Map<TypeKey, V>, deps: Seq<TypeKey>, i: int)
    requires
        0 <= i < deps.len(),
        forall|j: int| 0 <= j < i ==> m.contains_key(#[trigger] deps[j]),
        !m.contains_key(deps[i]),
    ensures
        first_missing(m, deps) == Some(deps[i]),
    decreases i,
{
    if i > 0 {
        assert(m.contains_key(deps[0]));
        let rest = deps.drop_first();
        assert forall|j: int| 0 <= j < i - 1 implies m.contains_key(#[trigger] rest[j]) by {
            assert(rest[j] == deps[j + 1]);
        }
        lemma_first_missing_at(m, rest, i - 1);
    }
}

proof fn lemma_none_missing<V>(m: Map<TypeKey, V>, deps: Seq<TypeKey>)
    requires
        forall|j: int| 0 <= j < deps.len() ==> m.contains_key(#[trigger] deps[j]),
    ensures
        first_missing(m, deps) is None,
    decreases deps.len(),
{
    if deps.len() > 0 {
        assert(m.contains_key(deps[0]));
        let rest = deps.drop_first();
        assert forall|j: int| 0 <= j < rest.len() implies m.contains_key(#[trigger] rest[j]) by {
            assert(rest[j] == deps[j + 1]);
        }
        lemma_none_missing(m, rest);
    }
}

/// A key of `deps` that `m` lacks makes some dependency missing, whatever
/// else `m` holds.
pub proof fn lemma_absent_key_is_missing<V>(m: Map<TypeKey, V>, deps: Seq<TypeKey>, key: TypeKey)
    requires
        deps.contains(key),
        !m.contains_key(key),
    ensures
        first_missing(m, deps) is Some,
    decreases deps.len(),
{
    if deps[0] != key {
        if m.contains_key(deps[0]) {
            let rest = deps.drop_first();
            let j = choose|j: int| 0 <= j < deps.len() && deps[j] == key;
            assert(rest[j - 1] == key);
            lemma_absent_key_is_missing(m, rest, key);
        }
    }
}

/// The frozen resource container: at most one value per type key.
#[derive(Debug, Clone)]
pub struct Resources<V> {
    map: HashMap<TypeKey, V>,
}

impl<V> View for Resources<V> {
    type V = Map<TypeKey, V>;

    closed spec fn view(&self) -> Map<TypeKey, V> {
        self.map@
    }
}

impl<V> Resources<V> {
    /// An empty container.
    pub fn new() -> (r: Self)
        ensures
            r@ == Map::<TypeKey, V>::empty(),
    {
        Resources { map: HashMap::new() }
    }

    /// The value stored under `key`, if any.
    pub fn get(&self, key: TypeKey) -> (r: Option<&V>)
        ensures
            match r {
                Some(v) => self@.contains_key(key) && *v == self@[key],
                None => !self@.contains_key(key),
            },
    {
        self.map.get(&key)
    }

    /// Stores `value` under `key`, replacing what was there.
    pub(crate) fn insert(&mut self, key: TypeKey, value: V)
        ensures
            final(self)@ == old(self)@.insert(key, value),
    {
        self.map.insert(key, value);
    }

    /// Fetches one dependency, failing when it was never inserted.
    pub fn from_resources<E>(&self, key: TypeKey) -> (r: Result<&V, Error<E>>)
        ensures
            match r {
                Ok(v) => self@.contains_key(key) && *v == self@[key],
                Err(e) => !self@.contains_key(key) && e == Error::<E>::ResourceNotFound(key),
            },
    {
        match self.map.get(&key) {
            Some(v) => Ok(v),
            None => Err(Error::ResourceNotFound(key)),
        }
    }

    /// Resolves every key of `deps`, in order; the first one absent fails
    /// the whole resolution.
    pub fn resolve<'a, E>(&'a self, deps: &Vec<TypeKey>) -> (r: Result<Vec<&'a V>, Error<E>>)
        ensures
            match first_missing(self@, deps@) {
                Some(k) => r == Err::<Vec<&'a V>, Error<E>>(Error::ResourceNotFound(k)),
                None => r matches Ok(vs) && vs@.len() == deps@.len() && forall|i: int|
                    0 <= i < deps@.len() ==> *#[trigger] vs@[i] == self@[deps@[i]],
            },
    {
        let mut out: Vec<&'a V> = Vec::new();
        let mut i: usize = 0;
        while i < deps.len()
            invariant
                i <= deps@.len(),
                out@.len() == i,
                forall|j: int| 0 <= j < i ==> self@.contains_key(#[trigger] deps@[j]),
                forall|j: int| 0 <= j < i ==> *#[trigger] out@[j] == self@[deps@[j]],
            decreases deps@.len() - i,
        {
            match self.from_resources::<E>(deps[i]) {
                Ok(v) => {
                    out.push(v);
                },
                Err(e) => {
                    proof {
                        lemma_first_missing_at(self@, deps@, i as int);
                    }
                    return Err(e);
                },
            }
            i = i + 1;
        }
        proof {
            lemma_none_missing(self@, deps@);
        }
        Ok(out)
    }
}

/// Accumulates resources before the container is frozen.
#[derive(Debug)]
pub struct ResourcesBuilder<V> {
    map: HashMap<TypeKey, V>,
}

impl<V> View for ResourcesBuilder<V> {
    type V = Map<TypeKey, V>;

    closed spec fn view(&self) -> Map<TypeKey, V> {
        self.map@
    }
}

impl<V> ResourcesBuilder<V> {
    /// A builder holding no resource.
    pub fn new() -> (r: Self)
        ensures
            r@ == Map::<TypeKey, V>::empty(),
    {
        ResourcesBuilder { map: HashMap::new() }
    }

    /// Stores `value` under `key`; a later insert under the same key wins.
    pub fn insert(&mut self, key: TypeKey, value: V)
        ensures
            final(self)@ == old(self)@.insert(key, value),
    {
        self.map.insert(key, value);
    }

    /// What the container built from this builder holds.
    pub open spec fn build_view(&self) -> Map<TypeKey, V> {
        self@
    }

    /// Freezes the resources into a container.
    pub fn build(self) -> (r: Resources<V>)
        ensures
            r@ == self.build_view(),
    {
        Resources { map: self.map }
    }
}

/// Inserting twice under one key leaves only the second value: the first
/// leaves no trace, and the other keys are untouched.
pub proof fn lemma_insert_last_wins<V>(
    start: ResourcesBuilder<V>,
    once: ResourcesBuilder<V>,
    twice: ResourcesBuilder<V>,
    key: TypeKey,
    first: V,
    second: V,
)
    requires
        once@ == start@.insert(key, first),
        twice@ == once@.insert(key, second),
    ensures
        twice@ == start@.insert(key, second),
        twice@[key] == second,
        twice.build_view() == start@.insert(key, second),
{
    assert(twice@ =~= start@.insert(key, second));
}

} // verus!
