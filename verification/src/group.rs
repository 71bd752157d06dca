//! The laws of the group, as a hypothesis.
//!
//! The operations on group elements are known to this library by name
//! only, so nothing of what they compute can be proved here. That the
//! elements form a group of prime order on which the scalars act is what
//! makes a blind signature verify; `group_laws` states it, and the lemmas
//! on the correctness of the two schemes assume it.

use crate::common::{
    is_point, is_scalar, lemma_scalar_add, lemma_scalar_mul, lemma_scalar_sub, ristretto_add,
    ristretto_base_mul, ristretto_mul, ristretto_sub, scalar_add, scalar_mul, scalar_sub,
};
use vstd::prelude::*;

verus! {

/// The base point `G`.
pub open spec fn base_point() -> Seq<u8> {
    ristretto_base_mul(1)
}

/// The laws of a group of the order of the scalar field, written additively, of
/// the operations on encodings: sums, differences and multiples of group
/// elements are group elements; addition is commutative and associative,
/// and subtraction undoes it; a multiple of the base point is a multiple
/// of `G`; and multiplication by scalars distributes over the sums of
/// elements and of scalars, and composes by the product of the scalars.
#[verifier::opaque]
pub open spec fn group_laws() -> bool {
    &&& forall|p: Seq<u8>, q: Seq<u8>|
        is_point(p) && is_point(q) ==> is_point(#[trigger] ristretto_add(p, q))
    &&& forall|p: Seq<u8>, q: Seq<u8>|
        is_point(p) && is_point(q) ==> is_point(#[trigger] ristretto_sub(p, q))
    &&& forall|k: nat, p: Seq<u8>|
        is_scalar(k) && is_point(p) ==> is_point(#[trigger] ristretto_mul(k, p))
    &&& forall|k: nat| is_scalar(k) ==> is_point(#[trigger] ristretto_base_mul(k))
    &&& forall|p: Seq<u8>, q: Seq<u8>|
        is_point(p) && is_point(q) ==> #[trigger] ristretto_add(p, q) == ristretto_add(q, p)
    &&& forall|p: Seq<u8>, q: Seq<u8>, r: Seq<u8>|
        is_point(p) && is_point(q) && is_point(r) ==> #[trigger] ristretto_add(
            ristretto_add(p, q),
            r,
        ) == ristretto_add(p, ristretto_add(q, r))
    &&& forall|p: Seq<u8>, q: Seq<u8>|
        is_point(p) && is_point(q) ==> ristretto_add(#[trigger] ristretto_sub(p, q), q) == p
    &&& forall|p: Seq<u8>, q: Seq<u8>|
        is_point(p) && is_point(q) ==> ristretto_sub(#[trigger] ristretto_add(p, q), q) == p
    &&& forall|k: nat|
        is_scalar(k) ==> #[trigger] ristretto_base_mul(k) == ristretto_mul(k, base_point())
    &&& forall|k: nat, p: Seq<u8>, q: Seq<u8>|
        is_scalar(k) && is_point(p) && is_point(q) ==> #[trigger] ristretto_mul(
            k,
            ristretto_add(p, q),
        ) == ristretto_add(ristretto_mul(k, p), ristretto_mul(k, q))
    &&& forall|j: nat, k: nat, p: Seq<u8>|
        is_scalar(j) && is_scalar(k) && is_point(p) ==> #[trigger] ristretto_add(
            ristretto_mul(j, p),
            ristretto_mul(k, p),
        ) == ristretto_mul(scalar_add(j, k), p)
    &&& forall|j: nat, k: nat, p: Seq<u8>|
        is_scalar(j) && is_scalar(k) && is_point(p) ==> #[trigger] ristretto_mul(
            j,
            ristretto_mul(k, p),
        ) == ristretto_mul(scalar_mul(j, k), p)
}

/// Sums, differences and multiples of group elements are group elements.
pub proof fn lemma_closed(j: nat, p: Seq<u8>, q: Seq<u8>)
    requires
        group_laws(),
        is_scalar(j),
        is_point(p),
        is_point(q),
    ensures
        is_point(ristretto_add(p, q)),
        is_point(ristretto_sub(p, q)),
        is_point(ristretto_mul(j, p)),
        is_point(ristretto_base_mul(j)),
        is_point(base_point()),
{
    reveal(group_laws);
}

/// `p + q = q + p`.
pub proof fn lemma_add_commutes(p: Seq<u8>, q: Seq<u8>)
    requires
        group_laws(),
        is_point(p),
        is_point(q),
    ensures
        ristretto_add(p, q) == ristretto_add(q, p),
{
    reveal(group_laws);
}

/// `(p + q) + r = p + (q + r)`.
pub proof fn lemma_add_associates(p: Seq<u8>, q: Seq<u8>, r: Seq<u8>)
    requires
        group_laws(),
        is_point(p),
        is_point(q),
        is_point(r),
    ensures
        ristretto_add(ristretto_add(p, q), r) == ristretto_add(p, ristretto_add(q, r)),
{
    reveal(group_laws);
}

/// `(p - q) + q = p` and `(p + q) - q = p`.
pub proof fn lemma_sub_undoes_add(p: Seq<u8>, q: Seq<u8>)
    requires
        group_laws(),
        is_point(p),
        is_point(q),
    ensures
        ristretto_add(ristretto_sub(p, q), q) == p,
        ristretto_sub(ristretto_add(p, q), q) == p,
{
    reveal(group_laws);
}

/// `k` times the base point is `k G`.
pub proof fn lemma_base_mul(k: nat)
    requires
        group_laws(),
        is_scalar(k),
    ensures
        ristretto_base_mul(k) == ristretto_mul(k, base_point()),
        is_point(ristretto_base_mul(k)),
        is_point(base_point()),
{
    reveal(group_laws);
}

/// `k (p + q) = k p + k q`.
pub proof fn lemma_mul_distributes(k: nat, p: Seq<u8>, q: Seq<u8>)
    requires
        group_laws(),
        is_scalar(k),
        is_point(p),
        is_point(q),
    ensures
        ristretto_mul(k, ristretto_add(p, q)) == ristretto_add(
            ristretto_mul(k, p),
            ristretto_mul(k, q),
        ),
{
    reveal(group_laws);
}

/// `j p + k p = (j + k) p`.
pub proof fn lemma_mul_adds(j: nat, k: nat, p: Seq<u8>)
    requires
        group_laws(),
        is_scalar(j),
        is_scalar(k),
        is_point(p),
    ensures
        ristretto_add(ristretto_mul(j, p), ristretto_mul(k, p)) == ristretto_mul(
            scalar_add(j, k),
            p,
        ),
        is_point(ristretto_mul(j, p)),
        is_point(ristretto_mul(k, p)),
{
    reveal(group_laws);
}

/// `j (k p) = (j k) p`.
pub proof fn lemma_mul_composes(j: nat, k: nat, p: Seq<u8>)
    requires
        group_laws(),
        is_scalar(j),
        is_scalar(k),
        is_point(p),
    ensures
        ristretto_mul(j, ristretto_mul(k, p)) == ristretto_mul(scalar_mul(j, k), p),
        is_point(ristretto_mul(k, p)),
{
    reveal(group_laws);
}

/// `(p + q) + r = (p + r) + q`.
pub proof fn lemma_add_swaps(p: Seq<u8>, q: Seq<u8>, r: Seq<u8>)
    requires
        group_laws(),
        is_point(p),
        is_point(q),
        is_point(r),
    ensures
        ristretto_add(ristretto_add(p, q), r) == ristretto_add(ristretto_add(p, r), q),
{
    lemma_add_associates(p, q, r);
    lemma_add_commutes(q, r);
    lemma_add_associates(p, r, q);
}

/// `(p + q) + (r + s) = ((p + r) + q) + s`.
pub proof fn lemma_add_regroups(p: Seq<u8>, q: Seq<u8>, r: Seq<u8>, s: Seq<u8>)
    requires
        group_laws(),
        is_point(p),
        is_point(q),
        is_point(r),
        is_point(s),
    ensures
        ristretto_add(ristretto_add(p, q), ristretto_add(r, s)) == ristretto_add(
            ristretto_add(ristretto_add(p, r), q),
            s,
        ),
{
    lemma_closed(0, p, q);
    lemma_closed(0, p, r);
    lemma_add_associates(ristretto_add(p, q), r, s);
    lemma_add_swaps(p, q, r);
}

/// `j (k G) = (j k) G`, in terms of multiples of the base point.
pub proof fn lemma_mul_of_base_mul(j: nat, k: nat)
    requires
        group_laws(),
        is_scalar(j),
        is_scalar(k),
    ensures
        ristretto_mul(j, ristretto_base_mul(k)) == ristretto_base_mul(scalar_mul(j, k)),
{
    lemma_scalar_mul(j, k);
    lemma_base_mul(k);
    lemma_base_mul(scalar_mul(j, k));
    lemma_mul_composes(j, k, base_point());
}

/// `j G + k G = (j + k) G`, in terms of multiples of the base point.
pub proof fn lemma_base_mul_adds(j: nat, k: nat)
    requires
        group_laws(),
        is_scalar(j),
        is_scalar(k),
    ensures
        ristretto_add(ristretto_base_mul(j), ristretto_base_mul(k)) == ristretto_base_mul(
            scalar_add(j, k),
        ),
{
    lemma_scalar_add(j, k);
    lemma_base_mul(j);
    lemma_base_mul(k);
    lemma_base_mul(scalar_add(j, k));
    lemma_mul_adds(j, k, base_point());
}

/// `k (p - q) = k p - k q`.
pub proof fn lemma_mul_distributes_over_sub(k: nat, p: Seq<u8>, q: Seq<u8>)
    requires
        group_laws(),
        is_scalar(k),
        is_point(p),
        is_point(q),
    ensures
        ristretto_mul(k, ristretto_sub(p, q)) == ristretto_sub(
            ristretto_mul(k, p),
            ristretto_mul(k, q),
        ),
{
    let difference = ristretto_sub(p, q);
    lemma_closed(k, p, q);
    lemma_closed(k, q, p);
    lemma_closed(k, difference, q);
    lemma_sub_undoes_add(p, q);
    lemma_mul_distributes(k, difference, q);
    lemma_sub_undoes_add(ristretto_mul(k, difference), ristretto_mul(k, q));
}

/// `(a1 + a2) p + (b1 + b2) q = ((a1 p + b1 q) + a2 p) + b2 q`.
pub proof fn lemma_combination_splits(a1: nat, a2: nat, p: Seq<u8>, b1: nat, b2: nat, q: Seq<u8>)
    requires
        group_laws(),
        is_scalar(a1),
        is_scalar(a2),
        is_scalar(b1),
        is_scalar(b2),
        is_point(p),
        is_point(q),
    ensures
        ristretto_add(
            ristretto_mul(scalar_add(a1, a2), p),
            ristretto_mul(scalar_add(b1, b2), q),
        ) == ristretto_add(
            ristretto_add(
                ristretto_add(ristretto_mul(a1, p), ristretto_mul(b1, q)),
                ristretto_mul(a2, p),
            ),
            ristretto_mul(b2, q),
        ),
{
    lemma_mul_adds(a1, a2, p);
    lemma_mul_adds(b1, b2, q);
    lemma_add_regroups(
        ristretto_mul(a1, p),
        ristretto_mul(a2, p),
        ristretto_mul(b1, q),
        ristretto_mul(b2, q),
    );
}

/// `k (s p + d q) = (k s) p + d (k q)`.
pub proof fn lemma_combination_scales(k: nat, s: nat, p: Seq<u8>, d: nat, q: Seq<u8>)
    requires
        group_laws(),
        is_scalar(k),
        is_scalar(s),
        is_scalar(d),
        is_point(p),
        is_point(q),
    ensures
        ristretto_mul(k, ristretto_add(ristretto_mul(s, p), ristretto_mul(d, q))) == ristretto_add(
            ristretto_mul(scalar_mul(k, s), p),
            ristretto_mul(d, ristretto_mul(k, q)),
        ),
{
    lemma_closed(s, p, q);
    lemma_closed(d, q, p);
    lemma_mul_distributes(k, ristretto_mul(s, p), ristretto_mul(d, q));
    lemma_mul_composes(k, s, p);
    lemma_mul_composes(k, d, q);
    lemma_mul_composes(d, k, q);
    lemma_scalar_mul(k, d);
}

/// `(a - b) p + b p = a p`.
pub proof fn lemma_mul_restores(a: nat, b: nat, p: Seq<u8>)
    requires
        group_laws(),
        is_scalar(a),
        is_scalar(b),
        is_point(p),
    ensures
        ristretto_add(ristretto_mul(scalar_sub(a, b), p), ristretto_mul(b, p)) == ristretto_mul(
            a,
            p,
        ),
{
    lemma_scalar_sub(a, b);
    lemma_scalar_add(scalar_sub(a, b), b);
    lemma_mul_adds(scalar_sub(a, b), b, p);
}

} // verus!
