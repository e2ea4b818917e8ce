//! Handlers: what is told of each collision.

use crate::collisions::CollisionPairs;
use crate::entity::EntityId;
use vstd::prelude::*;

verus! {

broadcast use vstd::std_specs::hash::group_hash_axioms;

/// What the engine tells of a collision: an object that is handed the two
/// identifiers of each colliding pair of one kind, the left one first.
///
/// A handler gives an account of itself, over which the engine's contracts
/// are stated: `state` is what it holds, `accepts` says which pairs it can
/// be handed in a state, and `told` what its state is after it was handed
/// one.
pub trait CollisionHandler {
    /// What the handler holds, as a value.
    type State;

    /// What the handler holds now.
    spec fn state(&self) -> Self::State;

    /// The handler, in this state, can be handed the pair.
    spec fn accepts(state: Self::State, left: EntityId, right: EntityId) -> bool;

    /// The state after the handler was handed the pair.
    spec fn told(state: Self::State, left: EntityId, right: EntityId) -> Self::State;

    /// Called when a collision of the handler's kind was detected.
    fn handle(&mut self, left: EntityId, right: EntityId)
        requires
            Self::accepts(old(self).state(), left, right),
        ensures
            final(self).state() == Self::told(old(self).state(), left, right),
    ;
}

/// The state after the handler was handed each pair of `calls`, in order.
pub open spec fn told_all<H: CollisionHandler>(
    state: H::State,
    calls: Seq<(EntityId, EntityId)>,
) -> H::State
    decreases calls.len(),
{
    if calls.len() == 0 {
        state
    } else {
        H::told(told_all::<H>(state, calls.drop_last()), calls.last().0, calls.last().1)
    }
}

/// `calls` hands over pairs of `pairs`, none of them twice.
pub open spec fn calls_within(
    calls: Seq<(EntityId, EntityId)>,
    pairs: Set<(EntityId, EntityId)>,
) -> bool {
    calls.no_duplicates() && calls.to_set().subset_of(pairs)
}

/// A handler in this state can be handed the pairs of `pairs`, each once,
/// in whatever order: it accepts each pair when its turn comes.
pub open spec fn accepts_each<H: CollisionHandler>(
    state: H::State,
    pairs: Set<(EntityId, EntityId)>,
) -> bool {
    forall|calls: Seq<(EntityId, EntityId)>|
        #![trigger calls_within(calls, pairs)]
        calls.len() > 0 && calls_within(calls, pairs) ==> H::accepts(
            told_all::<H>(state, calls.drop_last()),
            calls.last().0,
            calls.last().1,
        )
}

/// `after` is the state of a handler that was in the state `before` and was
/// handed every pair of `pairs`, each exactly once, in some order.
pub open spec fn dispatched<H: CollisionHandler>(
    before: H::State,
    after: H::State,
    pairs: Set<(EntityId, EntityId)>,
) -> bool {
    exists|calls: Seq<(EntityId, EntityId)>|
        calls.no_duplicates() && calls.to_set() == pairs && after == #[trigger] told_all::<H>(
            before,
            calls,
        )
}

/// Hands the handler every pair, each exactly once.
pub fn dispatch<H: CollisionHandler>(handler: &mut H, pairs: &CollisionPairs)
    requires
        accepts_each::<H>(old(handler).state(), pairs@),
    ensures
        dispatched::<H>(old(handler).state(), final(handler).state(), pairs@),
{
    let calls = pairs.to_vec();
    let mut i: usize = 0;
    proof {
        assert(calls@.take(0) =~= Seq::<(EntityId, EntityId)>::empty());
    }
    while i < calls.len()
        invariant
            i <= calls@.len(),
            calls@.no_duplicates(),
            calls@.to_set() == pairs@,
            accepts_each::<H>(old(handler).state(), pairs@),
            handler.state() == told_all::<H>(old(handler).state(), calls@.take(i as int)),
        decreases calls@.len() - i,
    {
        let (left, right) = calls[i];
        proof {
            let upto = calls@.take(i + 1);
            assert(upto.drop_last() =~= calls@.take(i as int));
            assert(calls_within(upto, pairs@)) by {
                assert forall|x: (EntityId, EntityId)|
                    upto.to_set().contains(x) implies pairs@.contains(x) by {
                    let k = choose|k: int| 0 <= k < upto.len() && upto[k] == x;
                    assert(calls@[k] == x);
                    assert(calls@.to_set().contains(x));
                }
            }
            assert(upto.last() == (left, right));
        }
        handler.handle(left, right);
        i += 1;
    }
    proof {
        assert(calls@.take(calls@.len() as int) =~= calls@);
    }
}

/// A handler that does nothing.
pub struct Ignore;

impl CollisionHandler for Ignore {
    type State = ();

    open spec fn state(&self) -> () {
        ()
    }

    open spec fn accepts(state: (), left: EntityId, right: EntityId) -> bool {
        true
    }

    open spec fn told(state: (), left: EntityId, right: EntityId) -> () {
        ()
    }

    fn handle(&mut self, left: EntityId, right: EntityId) {
    }
}

} // verus!
