//! Display smoothing of entity positions received in snapshots.
//!
//! A position is displayed raw the first time its entity is seen. From then
//! on each received position is blended with the one displayed before, which
//! damps the jitter of network and tick timing. An entity that a snapshot
//! leaves out is forgotten and appears raw when it comes back. How two
//! positions blend is left to the position type.

use std::collections::HashMap;
use vstd::prelude::*;

verus! {

/// A position that can be blended with a newer one.
pub trait Blend: Sized {
    /// The position to display for `newer` when `self` was displayed before.
    fn blend(&self, newer: &Self) -> Self;
}

/// The position last displayed for each entity seen so far.
pub struct Smoother<P> {
    shown: HashMap<usize, P>,
}

impl<P> View for Smoother<P> {
    type V = Map<usize, P>;

    closed spec fn view(&self) -> Map<usize, P> {
        self.shown@
    }
}

impl<P: Blend + Copy> Smoother<P> {
    /// Creates a smoother that has seen no entity.
    pub fn new() -> (smoother: Self)
        ensures
            smoother@ == Map::<usize, P>::empty(),
    {
        Smoother { shown: HashMap::new() }
    }

    /// The position last displayed for entity `id`, if it was seen.
    pub fn shown(&self, id: usize) -> (position: Option<P>)
        ensures
            position == if self@.contains_key(id) {
                Some(self@[id])
            } else {
                None::<P>
            },
    {
        broadcast use vstd::std_specs::hash::group_hash_axioms;

        match self.shown.get(&id) {
            Some(position) => Some(*position),
            None => None,
        }
    }

    /// Forgets every entity that is not among `ids`. Called with the ids of
    /// a snapshot once it was displayed, it makes an entity that a later
    /// snapshot brings back appear raw, as one seen for the first time.
    pub fn retain(&mut self, ids: &Vec<usize>)
        ensures
            final(self)@ == old(self)@.restrict(ids@.to_set()),
    {
        broadcast use vstd::std_specs::hash::group_hash_axioms;

        let mut kept: HashMap<usize, P> = HashMap::new();
        let mut i: usize = 0;
        assert(kept@ =~= self.shown@.restrict(ids@.take(0).to_set()));
        while i < ids.len()
            invariant
                i <= ids.len(),
                kept@ == self.shown@.restrict(ids@.take(i as int).to_set()),
            decreases ids.len() - i,
        {
            let id: usize = ids[i];
            let ghost before = kept@;
            match self.shown.get(&id) {
                Some(position) => {
                    kept.insert(id, *position);
                },
                None => {},
            }
            proof {
                let seen = ids@.take(i as int);
                let grown = ids@.take(i + 1);
                assert(grown =~= seen.push(id));
                assert forall|other: usize| grown.to_set().contains(other) <==> (
                seen.to_set().contains(other) || other == id) by {
                    if seen.contains(other) {
                        let at = choose|at: int| 0 <= at < seen.len() && seen[at] == other;
                        assert(grown[at] == other);
                    }
                    if other == id {
                        assert(grown[i as int] == id);
                    }
                    if grown.contains(other) {
                        let at = choose|at: int| 0 <= at < grown.len() && grown[at] == other;
                        if at < i {
                            assert(seen[at] == other);
                        }
                    }
                }
                assert(kept@ =~= self.shown@.restrict(grown.to_set()));
            }
            i += 1;
        }
        assert(ids@.take(ids.len() as int) =~= ids@);
        self.shown = kept;
    }

    /// Takes the position received for entity `id` and returns the one to
    /// display: the received one itself for an entity not seen before,
    /// otherwise the blend of the one displayed last with the received one.
    /// The returned position is recorded as displayed.
    pub fn observe(&mut self, id: usize, received: P) -> (displayed: P)
        ensures
            !old(self)@.contains_key(id) ==> displayed == received,
            old(self)@.contains_key(id) ==> call_ensures(
                P::blend,
                (&old(self)@[id], &received),
                displayed,
            ),
            final(self)@ == old(self)@.insert(id, displayed),
    {
        broadcast use vstd::std_specs::hash::group_hash_axioms;

        let displayed = match self.shown.get(&id) {
            Some(before) => before.blend(&received),
            None => received,
        };
        self.shown.insert(id, displayed);
        displayed
    }
}

} // verus!
