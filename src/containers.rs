use core::hash::{BuildHasher, Hash, Hasher};
use std::collections::hash_map::DefaultHasher;
use std::hash::BuildHasherDefault;
use vstd::laws_eq::obeys_concrete_eq;
use vstd::prelude::*;
use vstd::std_specs::cmp::PartialEqSpec;

verus! {

/// A container for pairs where order shouldn't be considered
#[derive(Debug)]
pub struct Pair<T> {
    a: T,
    b: T,
}

/// `p` and `q` hold the same two members, in either order.
pub open spec fn same_members<T>(p: (T, T), q: (T, T)) -> bool {
    (p.0 == q.0 && p.1 == q.1) || (p.0 == q.1 && p.1 == q.0)
}

/// The code of a pair, made from its members' own codes.
pub open spec fn pair_code(first: u64, second: u64) -> u64 {
    first ^ second
}

impl<T> View for Pair<T> {
    type V = (T, T);

    closed spec fn view(&self) -> (T, T) {
        (self.a, self.b)
    }
}

impl<T: Eq + Hash> Pair<T> {
    pub fn new(a: T, b: T) -> (r: Pair<T>)
        ensures
            r@ == (a, b),
    {
        Pair { a, b }
    }
}

impl<T: Eq + Hash> PartialEq for Pair<T> {
    /// Members are compared with `T`'s own `==`, straight and crosswise.
    fn eq(&self, rhs: &Self) -> (r: bool)
        ensures
            obeys_concrete_eq::<T>() ==> r == same_members(self@, rhs@),
    {
        proof {
            reveal(obeys_concrete_eq);
        }
        (self.a == rhs.a && self.b == rhs.b) || (self.a == rhs.b && self.b == rhs.a)
    }
}

impl<T: Eq + Hash> vstd::std_specs::cmp::PartialEqSpecImpl for Pair<T> {
    open spec fn obeys_eq_spec() -> bool {
        obeys_concrete_eq::<T>()
    }

    open spec fn eq_spec(&self, other: &Self) -> bool {
        same_members(self@, other@)
    }
}

impl<T: Eq + Hash> Eq for Pair<T> {}

/// Combines the codes of a pair's two members into the pair's code.
pub fn combine_codes(first: u64, second: u64) -> (r: u64)
    ensures
        r == pair_code(first, second),
{
    first ^ second
}

/// Relies on `BuildHasher::hash_one` over std's `DefaultHasher`, whose keys
/// are fixed: each call hashes `v` with a hasher of its own. Nothing is
/// assumed of the code, which `T`'s `Hash` decides.
#[verifier::external_body]
fn member_code<T: Hash>(v: &T) -> (r: u64) {
    BuildHasherDefault::<DefaultHasher>::default().hash_one(v)
}

/// Relies on `Hasher::write_u64` to feed `code` to the caller's hasher.
#[verifier::external_body]
fn feed_code<H: Hasher>(state: &mut H, code: u64) {
    state.write_u64(code)
}

impl<T: Eq + Hash> Hash for Pair<T> {
    /// Hashes each member on its own and feeds the order-free combination.
    fn hash<H: Hasher>(&self, state: &mut H) {
        let code = combine_codes(member_code(&self.a), member_code(&self.b));
        feed_code(state, code);
    }
}

/// Swapping the members of a pair gives an equal pair.
pub proof fn lemma_swapped_pairs_equal<T: Eq + Hash>(a: T, b: T, p: Pair<T>, q: Pair<T>)
    requires
        p@ == (a, b),
        q@ == (b, a),
    ensures
        p.eq_spec(&q),
        q.eq_spec(&p),
{
}

/// The pair's code is the same whichever member's code comes first.
pub proof fn lemma_pair_code_order_free(first: u64, second: u64)
    ensures
        pair_code(first, second) == pair_code(second, first),
{
    assert(first ^ second == second ^ first) by (bit_vector);
}

/// A pair of two equal members differs from a pair of two different members.
pub proof fn lemma_twin_differs<T: Eq + Hash>(a: T, b: T, p: Pair<T>, q: Pair<T>)
    requires
        a != b,
        p@ == (a, a),
        q@ == (a, b),
    ensures
        !p.eq_spec(&q),
        !q.eq_spec(&p),
{
}

/// Pair equality is reflexive, symmetric and transitive.
pub proof fn lemma_pair_eq_equivalence<T: Eq + Hash>(p: Pair<T>, q: Pair<T>, r: Pair<T>)
    ensures
        p.eq_spec(&p),
        p.eq_spec(&q) ==> q.eq_spec(&p),
        p.eq_spec(&q) && q.eq_spec(&r) ==> p.eq_spec(&r),
{
}

} // verus!
