use vstd::prelude::*;

verus! {

/// A set of actions together with the reducer that applies them to a state.
///
/// `narrow` decides whether an erased action belongs to this set (the
/// "type match" of a dispatch); `reduce` computes the next state. The
/// reducer value itself carries the optional read-only side parameter that is
/// threaded through every invocation.
pub trait Reducer: Sized {
    type State: View;
    type Action;
    type Erased;

    /// The action of this set that `e` stands for, if it belongs to the set.
    spec fn narrow_spec(&self, e: Self::Erased) -> Option<Self::Action>;

    /// The state (as its view) that follows `s` under action `a`.
    spec fn reduce_spec(&self, s: <Self::State as View>::V, a: Self::Action) -> <Self::State as View>::V;

    fn narrow(&self, e: &Self::Erased) -> (r: Option<Self::Action>)
        ensures
            r == self.narrow_spec(*e),
    ;

    fn reduce(&self, s: &Self::State, a: Self::Action) -> (r: Self::State)
        ensures
            r@ == self.reduce_spec(s@, a),
    ;
}

/// The left fold of the reducer over `actions`, starting from `s`.
pub open spec fn fold_actions<R: Reducer>(
    r: R,
    s: <R::State as View>::V,
    actions: Seq<R::Action>,
) -> <R::State as View>::V
    decreases actions.len(),
{
    if actions.len() == 0 {
        s
    } else {
        r.reduce_spec(fold_actions(r, s, actions.drop_last()), actions.last())
    }
}

} // verus!
