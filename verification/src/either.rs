//! A two-branch sum type: `Left` carries an alternate/error value, `Right`
//! carries the primary value. The capability methods (`fmap`, `pure`,
//! `lift_a2`, `bind`) pass `Left` through unchanged and work on `Right`.

use vstd::prelude::*;

verus! {

/// A value of one of two types: the alternate branch `Left(A)` or the
/// primary branch `Right(B)`.
#[derive(Debug, PartialEq, Clone)]
pub enum Either<A, B> {
    Left(A),
    Right(B),
}

/// Structure-preserving map over the primary branch: `Left` is unchanged,
/// `Right(b)` becomes `Right(f(b))`.
pub open spec fn either_fmap<A, B, C>(e: Either<A, B>, f: spec_fn(B) -> C) -> Either<A, C> {
    match e {
        Either::Left(a) => Either::Left(a),
        Either::Right(b) => Either::Right(f(b)),
    }
}

/// Combination of two independently-built values: the first `Left` found,
/// checking `e` before `other`, wins; two `Right`s combine through `f`.
pub open spec fn either_lift_a2<A, B, C, D>(
    e: Either<A, B>,
    other: Either<A, C>,
    f: spec_fn(B, C) -> D,
) -> Either<A, D> {
    match e {
        Either::Left(a) => Either::Left(a),
        Either::Right(b) => match other {
            Either::Left(a) => Either::Left(a),
            Either::Right(c) => Either::Right(f(b, c)),
        },
    }
}

/// Sequencing: `Left` short-circuits unchanged; `Right(b)` becomes `f(b)`,
/// which already carries a single layer of `Either` structure.
pub open spec fn either_bind<A, B, C>(e: Either<A, B>, f: spec_fn(B) -> Either<A, C>) -> Either<
    A,
    C,
> {
    match e {
        Either::Left(a) => Either::Left(a),
        Either::Right(b) => f(b),
    }
}

impl<A, B> Either<A, B> {
    /// Applies `f` to the primary value, preserving the branch structure.
    pub fn fmap<C, F: FnOnce(B) -> C>(self, f: F) -> (r: Either<A, C>)
        requires
            self matches Either::Right(b) ==> call_requires(f, (b,)),
        ensures
            self matches Either::Left(a) ==> r == Either::<A, C>::Left(a),
            self matches Either::Right(b) ==> (r matches Either::Right(c) && call_ensures(
                f,
                (b,),
                c,
            )),
            forall|g: spec_fn(B) -> C|
                (forall|b: B, c: C| call_ensures(f, (b,), c) ==> c == g(b)) ==> r
                    == #[trigger] either_fmap(self, g),
    {
        match self {
            Either::Left(a) => Either::Left(a),
            Either::Right(b) => Either::Right(f(b)),
        }
    }

    /// Lifts a bare primary value into the minimal structure: `Right(b)`.
    pub fn pure(b: B) -> (r: Either<A, B>)
        ensures
            r == Either::<A, B>::Right(b),
    {
        Either::Right(b)
    }

    /// Combines two independently-built values with `f`. Short-circuits
    /// left-to-right: `self`'s `Left` wins over `other`'s `Left`.
    pub fn lift_a2<C, D, F: FnOnce(B, C) -> D>(self, other: Either<A, C>, f: F) -> (r: Either<
        A,
        D,
    >)
        requires
            self matches Either::Right(b) ==> (other matches Either::Right(c)
                ==> call_requires(f, (b, c))),
        ensures
            self matches Either::Left(a) ==> r == Either::<A, D>::Left(a),
            self is Right && other is Left ==> r == Either::<A, D>::Left(other->Left_0),
            self matches Either::Right(b) ==> (other matches Either::Right(c) ==> (r matches Either::Right(d)
                && call_ensures(f, (b, c), d))),
            forall|g: spec_fn(B, C) -> D|
                (forall|b: B, c: C, d: D| call_ensures(f, (b, c), d) ==> d == g(b, c)) ==> r
                    == #[trigger] either_lift_a2(self, other, g),
    {
        match (self, other) {
            (Either::Left(a), _) => Either::Left(a),
            (_, Either::Left(a)) => Either::Left(a),
            (Either::Right(b), Either::Right(c)) => Either::Right(f(b, c)),
        }
    }

    /// Sequences a dependent computation: `Left` short-circuits unchanged,
    /// `Right(b)` returns `f(b)` directly, flattening to one layer.
    pub fn bind<C, F: FnOnce(B) -> Either<A, C>>(self, f: F) -> (r: Either<A, C>)
        requires
            self matches Either::Right(b) ==> call_requires(f, (b,)),
        ensures
            self matches Either::Left(a) ==> r == Either::<A, C>::Left(a),
            self matches Either::Right(b) ==> call_ensures(f, (b,), r),
            forall|g: spec_fn(B) -> Either<A, C>|
                (forall|b: B, e: Either<A, C>| call_ensures(f, (b,), e) ==> e == g(b)) ==> r
                    == #[trigger] either_bind(self, g),
    {
        match self {
            Either::Left(a) => Either::Left(a),
            Either::Right(b) => f(b),
        }
    }
}

/// Functor identity law: mapping the identity function over any value
/// leaves it unchanged.
pub proof fn lemma_fmap_identity<A, B>(x: Either<A, B>)
    ensures
        either_fmap(x, |b: B| b) == x,
{
    match x {
        Either::Left(a) => {
        },
        Either::Right(b) => {
            assert(either_fmap(x, |b: B| b) == Either::<A, B>::Right(b));
        },
    }
}

/// Functor composition law: mapping `f` and then `g` equals mapping their
/// composition in one pass.
pub proof fn lemma_fmap_composition<A, B, C, D>(
    x: Either<A, B>,
    f: spec_fn(B) -> C,
    g: spec_fn(C) -> D,
)
    ensures
        either_fmap(either_fmap(x, f), g) == either_fmap(x, |b: B| g(f(b))),
{
    match x {
        Either::Left(a) => {
        },
        Either::Right(b) => {
            assert(either_fmap(x, |b: B| g(f(b))) == Either::<A, D>::Right(g(f(b))));
        },
    }
}

/// Left absorption law: an alternate value passes through both mapping and
/// sequencing unchanged, whatever the function.
pub proof fn lemma_left_absorption<A, B, C>(
    a: A,
    g: spec_fn(B) -> C,
    f: spec_fn(B) -> Either<A, C>,
)
    ensures
        either_fmap(Either::<A, B>::Left(a), g) == Either::<A, C>::Left(a),
        either_bind(Either::<A, B>::Left(a), f) == Either::<A, C>::Left(a),
{
}

/// Right passthrough law: sequencing from a primary value applies the
/// function directly, with no extra structure.
pub proof fn lemma_right_passthrough<A, B, C>(b: B, f: spec_fn(B) -> Either<A, C>)
    ensures
        either_bind(Either::<A, B>::Right(b), f) == f(b),
{
}

/// Applicative precedence law: when both operands carry alternate values,
/// the first operand's one wins.
pub proof fn lemma_lift_a2_precedence<A, B, C, D>(e1: A, e2: A, f: spec_fn(B, C) -> D)
    ensures
        either_lift_a2(Either::<A, B>::Left(e1), Either::<A, C>::Left(e2), f) == Either::<
            A,
            D,
        >::Left(e1),
{
}

} // verus!
