use std::collections::HashMap;
use std::hash::Hash;
use vstd::pervasive::cloned;
use vstd::prelude::*;
use vstd::std_specs::hash::obeys_key_model;

verus! {

broadcast use vstd::std_specs::hash::group_hash_axioms;

/// Holds when duplicating a value of type `A` with `Clone::clone` always
/// yields a value equal to the original.
pub open spec fn exact_duplication<A: Clone>() -> bool {
    forall|a: A, b: A| #[trigger] cloned::<A>(a, b) ==> b == a
}

/// A clone of a `u32` equals the original.
pub proof fn lemma_u32_exact_duplication()
    ensures
        exact_duplication::<u32>(),
{
    assert forall|a: u32, b: u32| #[trigger] cloned::<u32>(a, b) implies b == a by {}
}

/// A memoizing evaluator. It owns a pure unary computation of type `U -> V`
/// and a cache of previously computed outputs keyed by input value. Each
/// distinct input is handed to the computation at most once over the
/// evaluator's lifetime; later queries for an equal input return the stored
/// result.
#[verifier::reject_recursive_types(U)]
#[verifier::reject_recursive_types(V)]
pub struct Cacher<T, U, V> where T: Fn(U) -> V {
    calculation: T,
    values: HashMap<U, V>,
}

impl<T, U, V> View for Cacher<T, U, V> where T: Fn(U) -> V {
    type V = Map<U, V>;

    closed spec fn view(&self) -> Map<U, V> {
        self.values@
    }
}

impl<T, U, V> Cacher<T, U, V> where T: Fn(U) -> V, U: Hash + Eq + Clone, V: Clone {
    /// The wrapped computation, for use in specifications.
    pub closed spec fn spec_calculation(self) -> T {
        self.calculation
    }

    /// What the evaluator asks of its type parameters: inputs must be usable
    /// as hash-map keys, and duplicating an input or an output must preserve
    /// its value.
    pub open spec fn type_support() -> bool {
        &&& obeys_key_model::<U>()
        &&& exact_duplication::<U>()
        &&& exact_duplication::<V>()
    }

    /// A well-formed evaluator caches, for each queried input, only an output
    /// that the wrapped computation allows for that input.
    pub open spec fn wf(self) -> bool {
        &&& Self::type_support()
        &&& forall|u: U| #[trigger]
            self@.contains_key(u) ==> call_ensures(self.spec_calculation(), (u,), self@[u])
    }

    /// How one call of `value` relates the evaluator's state before the call
    /// (`pre`) to its state after (`post`): the computation is kept; the
    /// result is an output the computation allows for `arg`; a cached input
    /// is answered from the cache, which stays unchanged; an uncached input
    /// adds exactly one entry.
    pub open spec fn queried(pre: Self, post: Self, arg: U, result: V) -> bool {
        &&& post.spec_calculation() == pre.spec_calculation()
        &&& call_ensures(pre.spec_calculation(), (arg,), result)
        &&& pre@.contains_key(arg) ==> post@ == pre@ && result == pre@[arg]
        &&& !pre@.contains_key(arg) ==> post@ == pre@.insert(arg, result)
    }

    /// Creates an evaluator around `calculation`, with an empty cache.
    pub fn new(calculation: T) -> (result: Self)
        requires
            Self::type_support(),
        ensures
            result.wf(),
            result.spec_calculation() == calculation,
            result@ == Map::<U, V>::empty(),
    {
        Cacher { calculation, values: HashMap::new() }
    }

    /// Returns the value of the wrapped computation on `arg`. A cached input
    /// is answered from the cache without invoking the computation again;
    /// only an uncached input is computed, and its result stored.
    pub fn value(&mut self, arg: U) -> (result: V)
        requires
            old(self).wf(),
            old(self)@.contains_key(arg) || call_requires(
                old(self).spec_calculation(),
                (arg,),
            ),
        ensures
            final(self).wf(),
            Self::queried(*old(self), *final(self), arg, result),
    {
        match self.values.get(&arg) {
            Some(v) => {
                let result = v.clone();
                proof {
                    assert(cloned::<V>(*v, result));
                }
                result
            },
            None => {
                let input = arg.clone();
                proof {
                    assert(cloned::<U>(arg, input));
                }
                let v = (self.calculation)(input);
                let result = v.clone();
                proof {
                    assert(cloned::<V>(v, result));
                }
                self.values.insert(arg, v);
                result
            },
        }
    }

    /// Querying an input that is already cached returns the stored value and
    /// leaves the cache unchanged, so the wrapped computation is not invoked
    /// again for it.
    pub proof fn lemma_repeated_query_answered_from_cache(
        pre: Self,
        post: Self,
        arg: U,
        result: V,
    )
        requires
            pre.wf(),
            pre@.contains_key(arg),
            Self::queried(pre, post, arg, result),
        ensures
            result == pre@[arg],
            post@ == pre@,
    {
    }

    /// Querying the same input twice in a row yields the same result both
    /// times, and the second query changes nothing: each distinct input is
    /// computed at most once.
    pub proof fn lemma_at_most_once(
        pre: Self,
        mid: Self,
        post: Self,
        arg: U,
        first: V,
        second: V,
    )
        requires
            pre.wf(),
            mid.wf(),
            Self::queried(pre, mid, arg, first),
            Self::queried(mid, post, arg, second),
        ensures
            second == first,
            post@ == mid@,
    {
    }

    /// If the wrapped computation is deterministic on `u` — every output it
    /// allows for `u` equals `expected` — then `value(u)` returns `expected`,
    /// whether it was answered from the cache or freshly computed.
    pub proof fn lemma_deterministic_result(pre: Self, post: Self, u: U, result: V, expected: V)
        requires
            pre.wf(),
            Self::queried(pre, post, u, result),
            forall|r: V| call_ensures(pre.spec_calculation(), (u,), r) ==> r == expected,
        ensures
            result == expected,
    {
    }

    /// Querying input `a` never affects what is returned for a distinct input
    /// `b`: `b`'s cached entry, if any, is untouched, and the result for `b`
    /// is an output the computation allows for `b` alone.
    pub proof fn lemma_no_cross_contamination(
        pre: Self,
        mid: Self,
        post: Self,
        a: U,
        b: U,
        result_a: V,
        result_b: V,
    )
        requires
            pre.wf(),
            mid.wf(),
            a != b,
            Self::queried(pre, mid, a, result_a),
            Self::queried(mid, post, b, result_b),
        ensures
            mid@.contains_key(b) == pre@.contains_key(b),
            pre@.contains_key(b) ==> result_b == pre@[b],
            call_ensures(pre.spec_calculation(), (b,), result_b),
    {
    }

    /// The cache never holds an entry for an input that has not been queried:
    /// one query extends its domain by at most the queried input itself.
    pub proof fn lemma_only_queried_inputs_cached(pre: Self, post: Self, arg: U, result: V)
        requires
            Self::queried(pre, post, arg, result),
        ensures
            forall|u: U| #[trigger]
                post@.contains_key(u) ==> pre@.contains_key(u) || u == arg,
    {
    }
}

} // verus!
