use vstd::prelude::*;
use core::cmp::Ordering;
use vstd::std_specs::cmp::PartialOrdSpec;
use crate::dec::Dec;
use crate::int_types::Int;
use crate::wide::{I256, U256};
use crate::wide512::{I512, U512};

verus! {

impl<U: PartialOrd> PartialOrd for Int<U> {
    /// Integers order by the numbers they wrap.
    fn partial_cmp(&self, other: &Self) -> (r: Option<Ordering>) {
        self.0.partial_cmp(&other.0)
    }
}

impl<U: PartialOrd> vstd::std_specs::cmp::PartialOrdSpecImpl for Int<U> {
    open spec fn obeys_partial_cmp_spec() -> bool {
        U::obeys_partial_cmp_spec()
    }

    open spec fn partial_cmp_spec(&self, other: &Self) -> Option<Ordering> {
        self.0.partial_cmp_spec(&other.0)
    }
}

impl<U: PartialOrd, const S: u32> PartialOrd for Dec<U, S> {
    /// Decimals of one type order by their inner integers.
    fn partial_cmp(&self, other: &Self) -> (r: Option<Ordering>) {
        self.0.partial_cmp(&other.0)
    }
}

impl<U: PartialOrd, const S: u32> vstd::std_specs::cmp::PartialOrdSpecImpl for Dec<U, S> {
    open spec fn obeys_partial_cmp_spec() -> bool {
        U::obeys_partial_cmp_spec()
    }

    open spec fn partial_cmp_spec(&self, other: &Self) -> Option<Ordering> {
        PartialOrdSpec::partial_cmp_spec(&self.0, &other.0)
    }
}

/// Comparing two wrapped integers of any width compares the numbers they
/// wrap: `<` holds exactly when the first number is less, `==` exactly when
/// they are the same number.
pub proof fn law_int_order_follows_values(
    a: (u64, u64),
    b: (u128, u128),
    c: (i64, i64),
    d: (i128, i128),
    e: (U256, U256),
    f: (I256, I256),
    g: (U512, U512),
    h: (I512, I512),
)
    ensures
        (Int(a.0).partial_cmp_spec(&Int(a.1)) == Some(Ordering::Less)) == (a.0 < a.1),
        (Int(a.0).partial_cmp_spec(&Int(a.1)) == Some(Ordering::Equal)) == (a.0 == a.1),
        (Int(b.0).partial_cmp_spec(&Int(b.1)) == Some(Ordering::Less)) == (b.0 < b.1),
        (Int(b.0).partial_cmp_spec(&Int(b.1)) == Some(Ordering::Equal)) == (b.0 == b.1),
        (Int(c.0).partial_cmp_spec(&Int(c.1)) == Some(Ordering::Less)) == (c.0 < c.1),
        (Int(c.0).partial_cmp_spec(&Int(c.1)) == Some(Ordering::Equal)) == (c.0 == c.1),
        (Int(d.0).partial_cmp_spec(&Int(d.1)) == Some(Ordering::Less)) == (d.0 < d.1),
        (Int(d.0).partial_cmp_spec(&Int(d.1)) == Some(Ordering::Equal)) == (d.0 == d.1),
        (Int(e.0).partial_cmp_spec(&Int(e.1)) == Some(Ordering::Less)) == (e.0.value() < e.1.value()),
        (Int(e.0).partial_cmp_spec(&Int(e.1)) == Some(Ordering::Equal)) == (e.0.value() == e.1.value()),
        (Int(f.0).partial_cmp_spec(&Int(f.1)) == Some(Ordering::Less)) == (f.0.value() < f.1.value()),
        (Int(f.0).partial_cmp_spec(&Int(f.1)) == Some(Ordering::Equal)) == (f.0.value() == f.1.value()),
        (Int(g.0).partial_cmp_spec(&Int(g.1)) == Some(Ordering::Less)) == (g.0.value() < g.1.value()),
        (Int(g.0).partial_cmp_spec(&Int(g.1)) == Some(Ordering::Equal)) == (g.0.value() == g.1.value()),
        (Int(h.0).partial_cmp_spec(&Int(h.1)) == Some(Ordering::Less)) == (h.0.value() < h.1.value()),
        (Int(h.0).partial_cmp_spec(&Int(h.1)) == Some(Ordering::Equal)) == (h.0.value() == h.1.value()),
        Int::<u64>::obeys_partial_cmp_spec() && Int::<u128>::obeys_partial_cmp_spec(),
        Int::<i64>::obeys_partial_cmp_spec() && Int::<i128>::obeys_partial_cmp_spec(),
        Int::<U256>::obeys_partial_cmp_spec() && Int::<I256>::obeys_partial_cmp_spec(),
        Int::<U512>::obeys_partial_cmp_spec() && Int::<I512>::obeys_partial_cmp_spec(),
{
}

/// Decimals of one type compare as their inner integers do, for each
/// width.
pub proof fn law_dec_order_follows_values<const S: u32>(
    a: (Dec<u128, S>, Dec<u128, S>),
    b: (Dec<i128, S>, Dec<i128, S>),
    c: (Dec<U256, S>, Dec<U256, S>),
    d: (Dec<I256, S>, Dec<I256, S>),
)
    ensures
        (a.0.partial_cmp_spec(&a.1) == Some(Ordering::Less)) == (a.0.0.0 < a.1.0.0),
        (a.0.partial_cmp_spec(&a.1) == Some(Ordering::Equal)) == (a.0.0.0 == a.1.0.0),
        (b.0.partial_cmp_spec(&b.1) == Some(Ordering::Less)) == (b.0.0.0 < b.1.0.0),
        (b.0.partial_cmp_spec(&b.1) == Some(Ordering::Equal)) == (b.0.0.0 == b.1.0.0),
        (c.0.partial_cmp_spec(&c.1) == Some(Ordering::Less)) == (c.0.0.0.value() < c.1.0.0.value()),
        (c.0.partial_cmp_spec(&c.1) == Some(Ordering::Equal)) == (c.0.0.0.value() == c.1.0.0.value()),
        (d.0.partial_cmp_spec(&d.1) == Some(Ordering::Less)) == (d.0.0.0.value() < d.1.0.0.value()),
        (d.0.partial_cmp_spec(&d.1) == Some(Ordering::Equal)) == (d.0.0.0.value() == d.1.0.0.value()),
        Dec::<u128, S>::obeys_partial_cmp_spec() && Dec::<i128, S>::obeys_partial_cmp_spec(),
        Dec::<U256, S>::obeys_partial_cmp_spec() && Dec::<I256, S>::obeys_partial_cmp_spec(),
{
}

} // verus!
