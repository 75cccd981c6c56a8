//! The arithmetic that the geometry is computed with.

use vstd::prelude::*;

verus! {

/// A scalar: the number type of coordinates, distances and forces.
///
/// The library is proved for every implementation of this trait. No method
/// carries a contract, so nothing that is proved rests on what an
/// implementation computes. Contracts speak of a scalar as an answer of a
/// method to given arguments, through the relations below: they say which
/// operations a result went through, never how large it is.
pub trait Scalar: Copy {
    /// The quotient `numerator / denominator`.
    fn ratio(numerator: u64, denominator: u64) -> Self;

    /// `self + other`.
    fn plus(self, other: Self) -> Self;

    /// `self - other`.
    fn minus(self, other: Self) -> Self;

    /// `self * other`.
    fn times(self, other: Self) -> Self;

    /// `self / other`.
    fn over(self, other: Self) -> Self;

    /// The square root of `self`.
    fn root(self) -> Self;

    /// The larger of `self` and `other`.
    fn at_least(self, other: Self) -> Self;

    /// `self`, moved into the interval from `low` to `high`.
    fn within(self, low: Self, high: Self) -> Self;

    /// Whether `self <= other`.
    fn no_more_than(self, other: Self) -> bool;
}

/// `r` is an answer of `ratio` to `numerator` and `denominator`.
pub open spec fn is_ratio<S: Scalar>(numerator: u64, denominator: u64, r: S) -> bool {
    call_ensures(S::ratio, (numerator, denominator), r)
}

/// `r` is an answer of `plus`: a sum `a + b`.
pub open spec fn is_sum<S: Scalar>(a: S, b: S, r: S) -> bool {
    call_ensures(S::plus, (a, b), r)
}

/// `r` is an answer of `minus`: a difference `a - b`.
pub open spec fn is_difference<S: Scalar>(a: S, b: S, r: S) -> bool {
    call_ensures(S::minus, (a, b), r)
}

/// `r` is an answer of `times`: a product `a * b`.
pub open spec fn is_product<S: Scalar>(a: S, b: S, r: S) -> bool {
    call_ensures(S::times, (a, b), r)
}

/// `r` is an answer of `over`: a quotient `a / b`.
pub open spec fn is_quotient<S: Scalar>(a: S, b: S, r: S) -> bool {
    call_ensures(S::over, (a, b), r)
}

/// `r` is an answer of `root`: a square root of `a`.
pub open spec fn is_root<S: Scalar>(a: S, r: S) -> bool {
    call_ensures(S::root, (a,), r)
}

/// `r` is an answer of `at_least`: the larger of `a` and `b`.
pub open spec fn is_larger<S: Scalar>(a: S, b: S, r: S) -> bool {
    call_ensures(S::at_least, (a, b), r)
}

/// `r` is an answer of `within`: `a` moved into the interval from `low` to
/// `high`.
pub open spec fn is_within<S: Scalar>(a: S, low: S, high: S, r: S) -> bool {
    call_ensures(S::within, (a, low, high), r)
}

/// `r` is an answer of `no_more_than`: whether `a <= b`.
pub open spec fn is_no_more<S: Scalar>(a: S, b: S, r: bool) -> bool {
    call_ensures(S::no_more_than, (a, b), r)
}

/// Whether the arithmetic is single-valued: no operation has two answers to
/// the same arguments.
pub open spec fn single_valued<S: Scalar>() -> bool {
    &&& forall|n: u64, d: u64, r: S, s: S|
        #![trigger is_ratio(n, d, r), is_ratio(n, d, s)]
        is_ratio(n, d, r) && is_ratio(n, d, s) ==> r == s
    &&& forall|a: S, b: S, r: S, s: S|
        #![trigger is_sum(a, b, r), is_sum(a, b, s)]
        is_sum(a, b, r) && is_sum(a, b, s) ==> r == s
    &&& forall|a: S, b: S, r: S, s: S|
        #![trigger is_difference(a, b, r), is_difference(a, b, s)]
        is_difference(a, b, r) && is_difference(a, b, s) ==> r == s
    &&& forall|a: S, b: S, r: S, s: S|
        #![trigger is_product(a, b, r), is_product(a, b, s)]
        is_product(a, b, r) && is_product(a, b, s) ==> r == s
    &&& forall|a: S, b: S, r: S, s: S|
        #![trigger is_quotient(a, b, r), is_quotient(a, b, s)]
        is_quotient(a, b, r) && is_quotient(a, b, s) ==> r == s
    &&& forall|a: S, r: S, s: S|
        #![trigger is_root(a, r), is_root(a, s)]
        is_root(a, r) && is_root(a, s) ==> r == s
    &&& forall|a: S, b: S, r: S, s: S|
        #![trigger is_larger(a, b, r), is_larger(a, b, s)]
        is_larger(a, b, r) && is_larger(a, b, s) ==> r == s
    &&& forall|a: S, low: S, high: S, r: S, s: S|
        #![trigger is_within(a, low, high, r), is_within(a, low, high, s)]
        is_within(a, low, high, r) && is_within(a, low, high, s) ==> r == s
    &&& forall|a: S, b: S, r: bool, s: bool|
        #![trigger is_no_more(a, b, r), is_no_more(a, b, s)]
        is_no_more(a, b, r) && is_no_more(a, b, s) ==> r == s
}

} // verus!
