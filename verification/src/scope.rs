use vstd::prelude::*;

use crate::value::Value;

verus! {

/// A mutable environment mapping symbol names to values. Later bindings of
/// a name shadow earlier ones. The evaluator only resolves names through
/// [`Scope::get`]; binding forms and lambda application add bindings with
/// [`Scope::set`].
#[derive(Debug)]
pub struct Scope {
    bindings: Vec<(String, Value)>,
}

impl Scope {
    /// The bindings added so far, restricted to the first `n` of them, as a
    /// map from name to the value bound last.
    pub closed spec fn map_upto(self, n: int) -> Map<Seq<char>, Value>
        decreases n,
    {
        if n <= 0 {
            Map::empty()
        } else {
            self.map_upto(n - 1).insert(self.bindings@[n - 1].0@, self.bindings@[n - 1].1)
        }
    }

    /// The environment as a map from symbol name to bound value.
    pub closed spec fn as_map(self) -> Map<Seq<char>, Value> {
        self.map_upto(self.bindings@.len() as int)
    }

    /// Whether `name` is bound.
    pub open spec fn has(self, name: Seq<char>) -> bool {
        self.as_map().contains_key(name)
    }

    /// The value bound to `name` (meaningful only when `has(name)`).
    pub open spec fn resolve(self, name: Seq<char>) -> Value {
        self.as_map()[name]
    }

    /// An empty environment.
    pub fn new() -> (r: Scope)
        ensures
            r.as_map() == Map::<Seq<char>, Value>::empty(),
    {
        Scope { bindings: Vec::new() }
    }

    fn get_upto(&self, n: usize, name: &String) -> (r: Option<Value>)
        requires
            n <= self.bindings@.len(),
        ensures
            (match r {
                Some(v) => self.map_upto(n as int).contains_key(name@) && v == self.map_upto(
                    n as int,
                )[name@],
                None => !self.map_upto(n as int).contains_key(name@),
            }),
        decreases n,
    {
        if n == 0 {
            None
        } else if self.bindings[n - 1].0 == *name {
            Some(self.bindings[n - 1].1.clone())
        } else {
            self.get_upto(n - 1, name)
        }
    }

    /// Resolves `name`: the value bound last, or `None` when `name` is
    /// unbound.
    pub fn get(&self, name: &String) -> (r: Option<Value>)
        ensures
            (match r {
                Some(v) => self.has(name@) && v == self.resolve(name@),
                None => !self.has(name@),
            }),
    {
        self.get_upto(self.bindings.len(), name)
    }

    /// Binds `name` to `value`, shadowing any earlier binding of `name` and
    /// leaving every other name as it was.
    pub fn set(&mut self, name: String, value: Value)
        ensures
            final(self).as_map() == old(self).as_map().insert(name@, value),
    {
        let ghost n = self.bindings@.len() as int;
        self.bindings.push((name, value));
        proof {
            lemma_map_upto_agree(*old(self), *self, n);
        }
    }
}

proof fn lemma_map_upto_agree(a: Scope, b: Scope, n: int)
    requires
        0 <= n <= a.bindings@.len(),
        n <= b.bindings@.len(),
        forall|i: int| 0 <= i < n ==> a.bindings@[i] == b.bindings@[i],
    ensures
        a.map_upto(n) == b.map_upto(n),
    decreases n,
{
    if n > 0 {
        lemma_map_upto_agree(a, b, n - 1);
    }
}

} // verus!
