//! An option transformer: optional-value semantics layered on top of the
//! `Either` effect, so that a possibly-absent value nested inside an
//! `Either` composes with the same capability methods as the bare types.

use vstd::prelude::*;
use crate::either::Either;
use crate::either::either_bind;
use crate::either::either_fmap;
use crate::either::either_lift_a2;

verus! {

/// `Option`'s own structure-preserving map: absence stays absent, a
/// present value is transformed.
pub open spec fn option_fmap<A, B>(o: Option<A>, f: spec_fn(A) -> B) -> Option<B> {
    match o {
        None => None,
        Some(a) => Some(f(a)),
    }
}

/// `Option`'s own combining rule: absent if either input is absent,
/// otherwise the two present values combined with `f`.
pub open spec fn option_lift_a2<A, B, C>(o1: Option<A>, o2: Option<B>, f: spec_fn(A, B) -> C) -> Option<C> {
    match o1 {
        None => None,
        Some(a) => match o2 {
            None => None,
            Some(b) => Some(f(a, b)),
        },
    }
}

/// A wrapper around an `Either` whose primary branch carries an optional
/// value. `OptionT(m)` is semantically interchangeable with the bare value
/// `m` of type `Either<E, Option<A>>`: every operation on the wrapper
/// equals the corresponding nested operation on `m`.
#[derive(Debug, PartialEq)]
pub struct OptionT<E, A>(pub Either<E, Option<A>>);

/// Mapping over the wrapper: the nested map on the bare inner value,
/// `f` lifted over the optional layer and handed to the inner effect's map.
pub open spec fn option_t_fmap<E, A, B>(x: OptionT<E, A>, f: spec_fn(A) -> B) -> OptionT<E, B> {
    OptionT(either_fmap(x.0, |o: Option<A>| option_fmap(o, f)))
}

/// Combining two wrappers: the nested combination on the bare inner
/// values, `f` lifted over the two optional layers and handed to the inner
/// effect's combination.
pub open spec fn option_t_lift_a2<E, A, B, C>(
    x: OptionT<E, A>,
    y: OptionT<E, B>,
    f: spec_fn(A, B) -> C,
) -> OptionT<E, C> {
    OptionT(either_lift_a2(x.0, y.0, |o1: Option<A>, o2: Option<B>| option_lift_a2(o1, o2, f)))
}

/// Sequencing through the wrapper: the nested sequencing on the bare inner
/// value. An absent optional continues as the inner effect's minimal
/// structure around absence; a present value `a` continues as the bare
/// inner value of `f(a)`, so the inner effect's own sequencing re-flattens.
pub open spec fn option_t_bind<E, A, B>(
    x: OptionT<E, A>,
    f: spec_fn(A) -> OptionT<E, B>,
) -> OptionT<E, B> {
    OptionT(
        either_bind(
            x.0,
            |o: Option<A>|
                match o {
                    None => Either::<E, Option<B>>::Right(None),
                    Some(a) => f(a).0,
                },
        ),
    )
}

impl<E, A> OptionT<E, A> {
    /// Wraps a bare contained value as present inside the inner effect's
    /// minimal structure.
    pub fn new(a: A) -> (r: Self)
        ensures
            r.0 == Either::<E, Option<A>>::Right(Some(a)),
    {
        OptionT(Either::pure(Some(a)))
    }

    /// Wraps a bare contained value as present inside the inner effect's
    /// minimal structure.
    pub fn wrap(a: A) -> (r: Self)
        ensures
            r.0 == Either::<E, Option<A>>::Right(Some(a)),
    {
        OptionT(Either::pure(Some(a)))
    }

    /// Applies `f` to the contained value if present, by lifting `f` over
    /// the optional layer and delegating to the inner effect's map.
    pub fn fmap<B, F: FnOnce(A) -> B>(self, f: F) -> (r: OptionT<E, B>)
        requires
            self.0 matches Either::Right(o) ==> (o matches Some(a) ==> call_requires(f, (a,))),
        ensures
            self.0 matches Either::Left(e) ==> r.0 == Either::<E, Option<B>>::Left(e),
            self.0 matches Either::Right(o) ==> (o is None ==> r.0 == Either::<E, Option<B>>::Right(
                None::<B>,
            )),
            self.0 matches Either::Right(o) ==> (o matches Some(a) ==> (r.0 matches Either::Right(p)
                && p matches Some(b) && call_ensures(f, (a,), b))),
            forall|g: spec_fn(A) -> B|
                (forall|a: A, b: B| call_ensures(f, (a,), b) ==> b == g(a)) ==> r
                    == #[trigger] option_t_fmap(self, g),
    {
        let ghost s = self;
        let OptionT(m) = self;
        let lifted = |o: Option<A>| -> (p: Option<B>)
            requires
                o matches Some(a) ==> call_requires(f, (a,)),
            ensures
                o is None ==> p is None,
                o matches Some(a) ==> (p matches Some(b) && call_ensures(f, (a,), b)),
            {
                match o {
                    None => None,
                    Some(a) => Some(f(a)),
                }
            };
        let inner = m.fmap(lifted);
        let out = OptionT(inner);
        proof {
            assert forall|g: spec_fn(A) -> B|
                (forall|a: A, b: B| call_ensures(f, (a,), b) ==> b == g(a)) implies out
                == #[trigger] option_t_fmap(s, g) by {
                let lg = |o: Option<A>| option_fmap(o, g);
                assert forall|o: Option<A>, p: Option<B>|
                    call_ensures(lifted, (o,), p) implies p == lg(o) by {
                    match o {
                        None => {
                            assert(p is None);
                        },
                        Some(a) => {
                            assert(p matches Some(b) && call_ensures(f, (a,), b));
                        },
                    }
                }
                assert(inner == either_fmap(m, lg));
            }
        }
        out
    }

    /// Combines two wrapped values with `f`, lifting `f` over the two
    /// optional layers and delegating to the inner effect's combination.
    /// The inner effect's own precedence applies: `self`'s alternate
    /// branch wins over `other`'s; otherwise absence on either side wins.
    pub fn lift_a2<B, C, F: FnOnce(A, B) -> C>(self, other: OptionT<E, B>, f: F) -> (r: OptionT<
        E,
        C,
    >)
        requires
            self.0 matches Either::Right(o1) ==> (o1 matches Some(a) ==> (other.0 matches Either::Right(
                o2,
            ) ==> (o2 matches Some(b) ==> call_requires(f, (a, b))))),
        ensures
            self.0 matches Either::Left(e) ==> r.0 == Either::<E, Option<C>>::Left(e),
            self.0 is Right && other.0 is Left ==> r.0 == Either::<E, Option<C>>::Left(
                other.0->Left_0,
            ),
            self.0 matches Either::Right(o1) ==> (other.0 matches Either::Right(o2) ==> ((o1 is None
                || o2 is None) ==> r.0 == Either::<E, Option<C>>::Right(None::<C>))),
            self.0 matches Either::Right(o1) ==> (o1 matches Some(a) ==> (other.0 matches Either::Right(
                o2,
            ) ==> (o2 matches Some(b) ==> (r.0 matches Either::Right(p) && p matches Some(c)
                && call_ensures(f, (a, b), c))))),
            forall|g: spec_fn(A, B) -> C|
                (forall|a: A, b: B, c: C| call_ensures(f, (a, b), c) ==> c == g(a, b)) ==> r
                    == #[trigger] option_t_lift_a2(self, other, g),
    {
        let ghost s = self;
        let ghost t = other;
        let OptionT(m) = self;
        let OptionT(n) = other;
        let lifted = |o1: Option<A>, o2: Option<B>| -> (p: Option<C>)
            requires
                o1 matches Some(a) ==> (o2 matches Some(b) ==> call_requires(f, (a, b))),
            ensures
                o1 is None || o2 is None ==> p is None,
                o1 matches Some(a) ==> (o2 matches Some(b) ==> (p matches Some(c) && call_ensures(
                    f,
                    (a, b),
                    c,
                ))),
            {
                match (o1, o2) {
                    (Some(a), Some(b)) => Some(f(a, b)),
                    _ => None,
                }
            };
        let inner = m.lift_a2(n, lifted);
        let out = OptionT(inner);
        proof {
            assert forall|g: spec_fn(A, B) -> C|
                (forall|a: A, b: B, c: C| call_ensures(f, (a, b), c) ==> c == g(a, b)) implies out
                == #[trigger] option_t_lift_a2(s, t, g) by {
                let lg = |o1: Option<A>, o2: Option<B>| option_lift_a2(o1, o2, g);
                assert forall|o1: Option<A>, o2: Option<B>, p: Option<C>|
                    call_ensures(lifted, (o1, o2), p) implies p == lg(o1, o2) by {
                    match (o1, o2) {
                        (Some(a), Some(b)) => {
                            assert(p matches Some(c) && call_ensures(f, (a, b), c));
                        },
                        _ => {
                            assert(p is None);
                        },
                    }
                }
                assert(inner == either_lift_a2(m, n, lg));
            }
        }
        out
    }

    /// Sequences a dependent computation through both layers: an alternate
    /// inner value or an absent optional short-circuits; a present value
    /// `a` continues as `f(a)`, whose inner effect value replaces the
    /// current one so that the inner effect's own sequencing re-flattens.
    pub fn bind<B, F: FnOnce(A) -> OptionT<E, B>>(self, f: F) -> (r: OptionT<E, B>)
        requires
            self.0 matches Either::Right(o) ==> (o matches Some(a) ==> call_requires(f, (a,))),
        ensures
            self.0 matches Either::Left(e) ==> r.0 == Either::<E, Option<B>>::Left(e),
            self.0 matches Either::Right(o) ==> (o is None ==> r.0 == Either::<E, Option<B>>::Right(
                None::<B>,
            )),
            self.0 matches Either::Right(o) ==> (o matches Some(a) ==> call_ensures(f, (a,), r)),
            forall|g: spec_fn(A) -> OptionT<E, B>|
                (forall|a: A, t: OptionT<E, B>| call_ensures(f, (a,), t) ==> t == g(a)) ==> r
                    == #[trigger] option_t_bind(self, g),
    {
        let ghost s = self;
        let OptionT(m) = self;
        let g = |o: Option<A>| -> (res: Either<E, Option<B>>)
            requires
                o matches Some(a) ==> call_requires(f, (a,)),
            ensures
                o is None ==> res == Either::<E, Option<B>>::Right(None::<B>),
                o matches Some(a) ==> call_ensures(f, (a,), (OptionT(res))),
            {
                match o {
                    None => Either::pure(None),
                    Some(a) => {
                        let t = f(a);
                        proof {
                            assert(t == (OptionT(t.0)));
                        }
                        t.0
                    },
                }
            };
        let inner = m.bind(g);
        let out = OptionT(inner);
        proof {
            assert forall|gs: spec_fn(A) -> OptionT<E, B>|
                (forall|a: A, t: OptionT<E, B>| call_ensures(f, (a,), t) ==> t == gs(a)) implies out
                == #[trigger] option_t_bind(s, gs) by {
                let lg = |o: Option<A>|
                    match o {
                        None => Either::<E, Option<B>>::Right(None),
                        Some(a) => gs(a).0,
                    };
                assert forall|o: Option<A>, res: Either<E, Option<B>>|
                    call_ensures(g, (o,), res) implies res == lg(o) by {
                    match o {
                        None => {
                            assert(res == Either::<E, Option<B>>::Right(None::<B>));
                        },
                        Some(a) => {
                            assert(call_ensures(f, (a,), (OptionT(res))));
                            assert((OptionT(res)) == gs(a));
                        },
                    }
                }
                assert(inner == either_bind(m, lg));
            }
        }
        out
    }
}

/// Functor identity law for the transformer: mapping the identity
/// function over any wrapped value leaves it unchanged.
pub proof fn lemma_option_t_fmap_identity<E, A>(x: OptionT<E, A>)
    ensures
        option_t_fmap(x, |a: A| a) == x,
{
    let lifted = |o: Option<A>| option_fmap(o, |a: A| a);
    match x.0 {
        Either::Left(e) => {
        },
        Either::Right(o) => {
            assert(option_fmap(o, |a: A| a) == o);
            assert(either_fmap(x.0, lifted) == Either::<E, Option<A>>::Right(o));
        },
    }
}

/// Functor composition law for the transformer: mapping `f` and then `g`
/// equals mapping their composition in one pass.
pub proof fn lemma_option_t_fmap_composition<E, A, B, C>(
    x: OptionT<E, A>,
    f: spec_fn(A) -> B,
    g: spec_fn(B) -> C,
)
    ensures
        option_t_fmap(option_t_fmap(x, f), g) == option_t_fmap(x, |a: A| g(f(a))),
{
    match x.0 {
        Either::Left(e) => {
        },
        Either::Right(o) => {
            assert(option_t_fmap(x, f).0 == Either::<E, Option<B>>::Right(option_fmap(o, f)));
            assert(option_fmap(option_fmap(o, f), g) == option_fmap(o, |a: A| g(f(a))));
            assert(option_t_fmap(option_t_fmap(x, f), g).0 == Either::<E, Option<C>>::Right(
                option_fmap(option_fmap(o, f), g),
            ));
            assert(option_t_fmap(x, |a: A| g(f(a))).0 == Either::<E, Option<C>>::Right(
                option_fmap(o, |a: A| g(f(a))),
            ));
        },
    }
}

/// Transformer equivalence law: sequencing through the wrapper equals the
/// hand-unrolled nesting on the bare inner value — the alternate branch
/// and the absent optional pass through as the inner effect's structure
/// around them, and a present value continues as `f` directly.
pub proof fn lemma_transformer_equivalence<E, A, B>(
    x: OptionT<E, A>,
    f: spec_fn(A) -> OptionT<E, B>,
)
    ensures
        option_t_bind(x, f) == match x.0 {
            Either::Left(e) => OptionT(Either::<E, Option<B>>::Left(e)),
            Either::Right(o) => match o {
                None => OptionT(Either::<E, Option<B>>::Right(None)),
                Some(a) => f(a),
            },
        },
{
    match x.0 {
        Either::Left(e) => {
        },
        Either::Right(o) => {
            match o {
                None => {
                },
                Some(a) => {
                    assert(option_t_bind(x, f).0 == f(a).0);
                    assert(f(a) == (OptionT(f(a).0)));
                },
            }
        },
    }
}

} // verus!
