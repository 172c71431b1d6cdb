use vstd::prelude::*;

use ark_bn254::Fr;
use ark_poly::{EvaluationDomain, GeneralEvaluationDomain};

use crate::compiler::IndexInfo;
use crate::error::Error;

verus! {

/// The largest evaluation domain over BN254's scalar field: `2^28` points.
pub const MAX_DOMAIN_SIZE: usize = 0x1000_0000;

pub open spec fn is_pow2(s: nat) -> bool
    decreases s,
{
    if s <= 1 {
        s == 1
    } else {
        s % 2 == 0 && is_pow2(s / 2)
    }
}

/// `s` is the smallest power of two that is at least `n`.
pub open spec fn is_domain_size_for(s: nat, n: nat) -> bool {
    &&& is_pow2(s)
    &&& n <= s
    &&& s == 1 || s < 2 * n
}

/// Relies on ark_poly's `GeneralEvaluationDomain::<Fr>::new` and `size`: BN254's
/// scalar field has two-adicity 28 and no small subgroup base, so the domain is
/// radix-2 of size `n.next_power_of_two()`, and there is none past `2^28`.
#[verifier::external_body]
fn evaluation_domain_size(n: usize) -> (r: Option<usize>)
    requires
        n <= usize::MAX / 2,
    ensures
        r is Some <==> n <= MAX_DOMAIN_SIZE,
        r is Some ==> is_domain_size_for(r->Some_0 as nat, n as nat),
{
    match GeneralEvaluationDomain::<Fr>::new(n) {
        Some(d) => Some(d.size()),
        None => None,
    }
}

/// Sizes of the two evaluation domains of an indexed circuit.
#[derive(Clone, Copy, Debug, PartialEq, Eq, Structural)]
pub struct DomainSizes {
    /// Domain over the non-zero entries of the matrices.
    pub domain_k: usize,
    /// Domain over the constraint rows.
    pub domain_h: usize,
}

impl DomainSizes {
    pub open spec fn wf(&self) -> bool {
        self.domain_k <= MAX_DOMAIN_SIZE && self.domain_h <= MAX_DOMAIN_SIZE
    }

    /// The degree bound used for every matrix commitment: `|K| + 1`.
    pub fn enforced_degree_bound(&self) -> (r: usize)
        requires
            self.wf(),
        ensures
            r == self.domain_k + 1,
    {
        self.domain_k + 1
    }
}

/// Sizes the domains for an index: `K` for the non-zero entries, `H` for the
/// constraints, each the smallest power of two that holds them; fails with
/// `Setup` when either count exceeds the largest domain.
pub fn domain_sizes(info: &IndexInfo) -> (r: Result<DomainSizes, Error>)
    ensures
        r is Ok <==> info.number_of_non_zero_entries <= MAX_DOMAIN_SIZE
            && info.number_of_constraints <= MAX_DOMAIN_SIZE,
        r is Ok ==> r->Ok_0.wf() && is_domain_size_for(
            r->Ok_0.domain_k as nat,
            info.number_of_non_zero_entries as nat,
        ) && is_domain_size_for(r->Ok_0.domain_h as nat, info.number_of_constraints as nat),
        r is Err ==> r->Err_0 == Error::Setup,
{
    if info.number_of_non_zero_entries > MAX_DOMAIN_SIZE || info.number_of_constraints
        > MAX_DOMAIN_SIZE {
        return Err(Error::Setup);
    }
    let k = evaluation_domain_size(info.number_of_non_zero_entries);
    let h = evaluation_domain_size(info.number_of_constraints);
    match (k, h) {
        (Some(domain_k), Some(domain_h)) => {
            proof {
                lemma_domain_size_bound(domain_k as nat, info.number_of_non_zero_entries as nat);
                lemma_domain_size_bound(domain_h as nat, info.number_of_constraints as nat);
            }
            Ok(DomainSizes { domain_k, domain_h })
        },
        _ => Err(Error::Setup),
    }
}

proof fn lemma_pow2_bound(s: nat, p: nat)
    requires
        is_pow2(s),
        is_pow2(p),
        s < 2 * p,
    ensures
        s <= p,
    decreases s,
{
    if s > 1 && p > 1 {
        lemma_pow2_bound(s / 2, p / 2);
    }
}

proof fn lemma_domain_size_bound(s: nat, n: nat)
    requires
        is_domain_size_for(s, n),
        n <= MAX_DOMAIN_SIZE,
    ensures
        s <= MAX_DOMAIN_SIZE,
{
    reveal_with_fuel(is_pow2, 30);
    assert(is_pow2(MAX_DOMAIN_SIZE as nat));
    lemma_pow2_bound(s, MAX_DOMAIN_SIZE as nat);
}

} // verus!
