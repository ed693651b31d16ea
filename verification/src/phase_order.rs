use vstd::prelude::*;
use vstd::std_specs::cmp::{OrdSpec, PartialEqSpec, PartialOrdSpec};
use core::cmp::Ordering;

verus! {

/// `a` comes strictly after `b` in the type's order.
pub open spec fn comes_after<T: PartialOrd>(a: T, b: T) -> bool {
    a.partial_cmp_spec(&b) == Some(Ordering::Greater)
}

/// The type's `partial_cmp` follows its specification.
pub open spec fn order_follows_spec<T: PartialOrd>() -> bool {
    T::obeys_partial_cmp_spec()
}

/// The type's order is a lawful total order whose equality is identity.
pub open spec fn lawful_order<T: Ord>() -> bool {
    vstd::laws_cmp::obeys_cmp::<T>() && vstd::laws_eq::obeys_concrete_eq::<T>()
}

/// In a lawful order, of two values one comes after the other or they are the same.
pub proof fn lemma_order_total<T: Ord>(a: T, b: T)
    requires
        lawful_order::<T>(),
    ensures
        comes_after(a, b) || comes_after(b, a) || a == b,
        !(comes_after(a, b) && comes_after(b, a)),
        !comes_after(a, a),
{
    reveal(vstd::laws_cmp::obeys_partial_cmp_spec_properties);
    reveal(vstd::laws_cmp::obeys_cmp_partial_ord);
    reveal(vstd::laws_cmp::obeys_cmp_ord);
    reveal(vstd::laws_eq::obeys_concrete_eq);
    reveal(vstd::laws_eq::obeys_eq_spec_properties);
    assert(a.partial_cmp_spec(&b) == Some(a.cmp_spec(&b)));
    assert(b.partial_cmp_spec(&a) == Some(b.cmp_spec(&a)));
    assert(a.partial_cmp_spec(&a) == Some(a.cmp_spec(&a)));
    assert(a.eq_spec(&a));
}

/// In a lawful order, coming after is transitive.
pub proof fn lemma_order_transitive<T: Ord>(a: T, b: T, c: T)
    requires
        lawful_order::<T>(),
        comes_after(a, b),
        comes_after(b, c),
    ensures
        comes_after(a, c),
{
    reveal(vstd::laws_cmp::obeys_partial_cmp_spec_properties);
}

} // verus!
