//! The `Monad` capability: sequencing a dependent, structure-producing
//! computation with one layer of flattening, for built-in container types.

use vstd::prelude::*;

verus! {

/// Capability to sequence a computation that produces fresh structure,
/// flattening to a single layer. `A` is the contained type of `Self`,
/// `B` the contained type of `Self::Output`.
pub trait Monad<A, B>: Sized {
    /// The same shape of structure at contained type `B`.
    type Output;

    /// Maps the contained value(s) to new structure, then reduces to one
    /// layer of structure.
    fn bind<F: Fn(A) -> Self::Output>(self, f: F) -> Self::Output
        requires
            forall|a: A| #[trigger] call_requires(f, (a,)),
    ;
}

/// The element sequences of a sequence of vectors.
pub open spec fn views_of<B>(parts: Seq<Vec<B>>) -> Seq<Seq<B>> {
    parts.map_values(|v: Vec<B>| v@)
}

impl<A, B> Monad<A, B> for Vec<A> {
    type Output = Vec<B>;

    /// Maps each element to a vector of fresh structure with `f`, then
    /// flattens the per-element vectors, in order, into a single one.
    fn bind<F: Fn(A) -> Vec<B>>(self, f: F) -> (r: Vec<B>)
        ensures
            exists|parts: Seq<Vec<B>>|
                #![auto]
                {
                    &&& parts.len() == self@.len()
                    &&& forall|i: int|
                        0 <= i < parts.len() ==> call_ensures(f, (self@[i],), #[trigger] parts[i])
                    &&& r@ == views_of(parts).flatten()
                },
    {
        let ghost orig: Seq<A> = self@;
        let mut input = self;
        let mut out: Vec<B> = Vec::new();
        let ghost mut parts: Seq<Vec<B>> = Seq::empty();
        proof {
            assert(views_of(parts) =~= Seq::<Seq<B>>::empty());
        }
        while input.len() > 0
            invariant
                forall|a: A| #[trigger] call_requires(f, (a,)),
                parts.len() + input@.len() == orig.len(),
                input@ =~= orig.subrange(parts.len() as int, orig.len() as int),
                forall|i: int|
                    0 <= i < parts.len() ==> call_ensures(f, (orig[i],), #[trigger] parts[i]),
                out@ == views_of(parts).flatten(),
            decreases input@.len(),
        {
            let ghost old_parts = parts;
            let a = input.remove(0);
            let mut vb = f(a);
            let ghost piece: Vec<B> = vb;
            out.append(&mut vb);
            proof {
                parts = parts.push(piece);
                assert(input@ =~= orig.subrange(parts.len() as int, orig.len() as int));
                broadcast use vstd::prelude::Seq::lemma_flatten_push;

                assert(views_of(parts) =~= views_of(old_parts).push(piece@));
            }
        }
        out
    }
}

impl<A, B> Monad<A, B> for Option<A> {
    type Output = Option<B>;

    /// `None` stays `None`; `Some(a)` becomes `f(a)`, already a single
    /// layer of `Option` structure.
    fn bind<F: Fn(A) -> Option<B>>(self, f: F) -> (r: Option<B>)
        ensures
            self is None ==> r is None,
            self matches Some(a) ==> call_ensures(f, (a,), r),
    {
        match self {
            None => None,
            Some(a) => f(a),
        }
    }
}

} // verus!
