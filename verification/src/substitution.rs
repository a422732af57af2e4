//! Replacement maps: which value stands in for which.
//!
//! A map may send a value to one that is itself replaced.  What counts is where
//! such a chain ends, and it has to end: a chain that runs in a circle has no end.

use vstd::prelude::*;
use rustc_hash::FxHashMap;
use crate::value::Value;

verus! {

/// `rustc_hash::FxHasher`, which only occurs in the type of a replacement map.
#[verifier::external_type_specification]
#[verifier::external_body]
pub struct ExFxHasher(rustc_hash::FxHasher);

/// `core::hash::BuildHasherDefault`, which only occurs in the type of a
/// replacement map.
#[verifier::external_type_specification]
#[verifier::external_body]
#[verifier::reject_recursive_types(H)]
pub struct ExBuildHasherDefault<H>(core::hash::BuildHasherDefault<H>);

/// `HashMap::get` on a map that hashes with `FxHasher`: the entry under the key
/// if the map has one.  The hasher keeps no state between maps or runs, and
/// values are hashed and compared by their two numbers, so the map behaves as
/// the mathematical map that is its view.
#[verifier::external_body]
pub(crate) fn replacement_of<'a>(map: &'a FxHashMap<Value, Value>, v: &Value) -> (found: Option<
    &'a Value,
>)
    ensures
        found.is_some() == map@.contains_key(*v),
        found.is_some() ==> *found.unwrap() == map@[*v],
{
    map.get(v)
}

/// The chain that starts at `v` leaves the keys of `m` after at most `steps` steps.
pub open spec fn ends_within(m: Map<Value, Value>, v: Value, steps: nat) -> bool
    decreases steps,
{
    !m.contains_key(v) || (steps > 0 && ends_within(m, m[v], (steps - 1) as nat))
}

/// The chain that starts at `v` ends.
pub open spec fn settles(m: Map<Value, Value>, v: Value) -> bool {
    exists|steps: nat| ends_within(m, v, steps)
}

/// Every chain of `m` ends.
pub open spec fn acyclic(m: Map<Value, Value>) -> bool {
    forall|v: Value| settles(m, v)
}

/// Where the chain that starts at `v` stands after `steps` steps, or at its end
/// if that comes earlier.
pub open spec fn follow(m: Map<Value, Value>, v: Value, steps: nat) -> Value
    decreases steps,
{
    if !m.contains_key(v) || steps == 0 {
        v
    } else {
        follow(m, m[v], (steps - 1) as nat)
    }
}

/// The end of the chain that starts at `v`.  It is `v` itself where `m` does
/// not replace `v`.
pub open spec fn resolved(m: Map<Value, Value>, v: Value) -> Value {
    follow(m, v, choose|steps: nat| ends_within(m, v, steps))
}

/// Once a chain has ended, further steps change nothing.
pub proof fn follow_is_stable(m: Map<Value, Value>, v: Value, a: nat, b: nat)
    requires
        ends_within(m, v, a),
        ends_within(m, v, b),
    ensures
        follow(m, v, a) == follow(m, v, b),
        !m.contains_key(follow(m, v, a)),
    decreases a,
{
    if m.contains_key(v) {
        follow_is_stable(m, m[v], (a - 1) as nat, (b - 1) as nat);
    }
}

/// The end of a chain is not replaced, and it is the end of the chain from
/// every value on the way.
pub proof fn resolved_unfolds(m: Map<Value, Value>, v: Value)
    requires
        settles(m, v),
    ensures
        !m.contains_key(resolved(m, v)),
        !m.contains_key(v) ==> resolved(m, v) == v,
        m.contains_key(v) ==> settles(m, m[v]) && resolved(m, v) == resolved(m, m[v]),
        settles(m, resolved(m, v)),
        resolved(m, resolved(m, v)) == resolved(m, v),
{
    let a = choose|steps: nat| ends_within(m, v, steps);
    follow_is_stable(m, v, a, a);
    if m.contains_key(v) {
        let next = m[v];
        assert(ends_within(m, next, (a - 1) as nat));
        let b = choose|steps: nat| ends_within(m, next, steps);
        follow_is_stable(m, next, (a - 1) as nat, b);
    }
    let end = resolved(m, v);
    assert(ends_within(m, end, 0));
}

/// A map with a single entry whose two values differ has no circle.
pub proof fn single_entry_is_acyclic(a: Value, b: Value)
    requires
        a != b,
    ensures
        acyclic(map![a => b]),
        resolved(map![a => b], a) == b,
        forall|v: Value| v != a ==> resolved(map![a => b], v) == v,
{
    let m = map![a => b];
    assert(ends_within(m, b, 0));
    assert(ends_within(m, a, 1));
    assert forall|v: Value| settles(m, v) by {
        if v != a {
            assert(ends_within(m, v, 0));
        }
    }
    resolved_unfolds(m, a);
    resolved_unfolds(m, b);
    assert forall|v: Value| v != a implies resolved(m, v) == v by {
        resolved_unfolds(m, v);
    }
}

/// A map without entries replaces nothing.
pub proof fn empty_map_replaces_nothing(m: Map<Value, Value>, v: Value)
    requires
        forall|k: Value| !m.contains_key(k),
    ensures
        settles(m, v),
        resolved(m, v) == v,
{
    assert(ends_within(m, v, 0));
    resolved_unfolds(m, v);
}

/// The end of the chain of replacements that starts at `v`.  The chain must
/// end; `try_resolve` is for a chain of which that is not known.
pub fn resolve(map: &FxHashMap<Value, Value>, v: Value) -> (end: Value)
    requires
        settles(map@, v),
    ensures
        end == resolved(map@, v),
        !map@.contains_key(end),
{
    let ghost mut steps: nat = choose|steps: nat| ends_within(map@, v, steps);
    let mut at = v;
    proof {
        resolved_unfolds(map@, v);
    }
    loop
        invariant
            ends_within(map@, at, steps),
            settles(map@, at),
            resolved(map@, at) == resolved(map@, v),
        decreases steps,
    {
        match replacement_of(map, &at) {
            Some(next) => {
                proof {
                    resolved_unfolds(map@, at);
                    steps = (steps - 1) as nat;
                }
                at = *next;
            },
            None => {
                proof {
                    resolved_unfolds(map@, at);
                }
                return at;
            },
        }
    }
}

/// A chain that ends after some steps has ended after any larger number.
pub proof fn ends_within_more(m: Map<Value, Value>, v: Value, a: nat, b: nat)
    requires
        ends_within(m, v, a),
        a <= b,
    ensures
        ends_within(m, v, b),
    decreases a,
{
    if m.contains_key(v) {
        ends_within_more(m, m[v], (a - 1) as nat, (b - 1) as nat);
    }
}

/// The chain that starts at `v` ends after `steps` steps and no earlier.
pub open spec fn ends_after(m: Map<Value, Value>, v: Value, steps: nat) -> bool {
    ends_within(m, v, steps) && (steps > 0 ==> !ends_within(m, v, (steps - 1) as nat))
}

/// A chain that ends, ends after some number of steps and no earlier.
proof fn ends_after_some(m: Map<Value, Value>, v: Value, n: nat) -> (steps: nat)
    requires
        ends_within(m, v, n),
    ensures
        steps <= n,
        ends_after(m, v, steps),
    decreases n,
{
    if n > 0 && ends_within(m, v, (n - 1) as nat) {
        ends_after_some(m, v, (n - 1) as nat)
    } else {
        n
    }
}

/// Each value on a chain is replaced, but for the last, and from each the
/// chain ends after the steps that are left and no earlier.
proof fn ends_after_on_the_way(m: Map<Value, Value>, v: Value, n: nat, i: nat)
    requires
        ends_after(m, v, n),
        i <= n,
    ensures
        ends_after(m, follow(m, v, i), (n - i) as nat),
        i < n ==> m.contains_key(follow(m, v, i)),
    decreases i,
{
    if i > 0 {
        ends_after_on_the_way(m, m[v], (n - 1) as nat, (i - 1) as nat);
    }
}

/// A chain that ends is no longer than the map has entries: the number of
/// entries is a bound that only a circle passes.
pub proof fn chain_is_no_longer_than_the_map(m: Map<Value, Value>, v: Value)
    requires
        m.dom().finite(),
        settles(m, v),
    ensures
        ends_within(m, v, m.dom().len()),
{
    let some = choose|steps: nat| ends_within(m, v, steps);
    let n = ends_after_some(m, v, some);
    let chain = Seq::new(n, |i: int| follow(m, v, i as nat));
    assert forall|i: int, j: int| 0 <= i < j < chain.len() implies chain[i] != chain[j] by {
        ends_after_on_the_way(m, v, n, i as nat);
        ends_after_on_the_way(m, v, n, j as nat);
        if chain[i] == chain[j] {
            ends_within_more(m, chain[j], (n - j) as nat, (n - i - 1) as nat);
        }
    }
    assert(chain.no_duplicates());
    assert forall|x: Value| chain.to_set().contains(x) implies m.dom().contains(x) by {
        let i = choose|i: int| 0 <= i < chain.len() && chain[i] == x;
        ends_after_on_the_way(m, v, n, i as nat);
    }
    chain.unique_seq_to_set();
    vstd::set_lib::lemma_len_subset(chain.to_set(), m.dom());
    ends_within_more(m, v, n, m.dom().len());
}

/// A chain that ends from the next value on ends from this one, at the same value.
pub proof fn settles_from_the_next(m: Map<Value, Value>, v: Value)
    requires
        m.contains_key(v),
        settles(m, m[v]),
    ensures
        settles(m, v),
        resolved(m, v) == resolved(m, m[v]),
{
    let steps = choose|steps: nat| ends_within(m, m[v], steps);
    assert(ends_within(m, v, steps + 1));
    resolved_unfolds(m, v);
}

/// The end of the chain of replacements that starts at `v`, if the chain ends
/// after at most `bound` steps.  If it does not, the chain is longer or runs
/// in a circle, and there is no answer.  With the number of entries of the map
/// for a bound it can only be a circle.
pub fn try_resolve(map: &FxHashMap<Value, Value>, v: Value, bound: usize) -> (end: Option<Value>)
    ensures
        end.is_some() == ends_within(map@, v, bound as nat),
        end.is_some() ==> settles(map@, v) && end.unwrap() == resolved(map@, v),
{
    let mut at = v;
    let mut left = bound;
    loop
        invariant
            ends_within(map@, v, bound as nat) == ends_within(map@, at, left as nat),
            settles(map@, at) ==> settles(map@, v) && resolved(map@, v) == resolved(map@, at),
        decreases left,
    {
        match replacement_of(map, &at) {
            None => {
                proof {
                    assert(ends_within(map@, at, 0));
                    resolved_unfolds(map@, at);
                }
                return Some(at);
            },
            Some(next) => {
                if left == 0 {
                    return None;
                }
                proof {
                    if settles(map@, *next) {
                        settles_from_the_next(map@, at);
                    }
                }
                at = *next;
                left = left - 1;
            },
        }
    }
}

} // verus!
