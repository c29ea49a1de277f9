//! The catcher: one player at a time, chosen at random when the game starts
//! and again after every `REELECTION_PERIOD` ticks.

use vstd::prelude::*;
use crate::server::Player;
use crate::util::pick;

verus! {

/// Number of ticks after which a new catcher is chosen.
pub const REELECTION_PERIOD: usize = 1000;

/// The game clock and the current catcher.
pub struct Catcher {
    time: usize,
    catcher: usize,
}

/// What a `Catcher` holds. `catcher` is 0 until one was elected.
pub struct CatcherView {
    pub time: usize,
    pub catcher: usize,
}

impl View for Catcher {
    type V = CatcherView;

    closed spec fn view(&self) -> CatcherView {
        CatcherView { time: self.time, catcher: self.catcher }
    }
}

/// Whether `id` is the id of one of `players`.
pub open spec fn is_player(players: Seq<Player>, id: usize) -> bool {
    exists|i: int| 0 <= i < players.len() && (#[trigger] players[i]).id == id
}

impl Catcher {
    /// A clock at tick 0 with no catcher.
    pub fn new() -> (rule: Catcher)
        ensures
            rule@ == (CatcherView { time: 0, catcher: 0 }),
    {
        Catcher { time: 0, catcher: 0 }
    }

    /// Number of ticks counted so far.
    pub fn time(&self) -> (time: usize)
        ensures
            time == self@.time,
    {
        self.time
    }

    /// Id of the current catcher, 0 before the first election.
    pub fn catcher(&self) -> (id: usize)
        ensures
            id == self@.catcher,
    {
        self.catcher
    }

    /// Counts one tick and tells whether an election is due at it.
    pub fn tick(&mut self) -> (due: bool)
        requires
            old(self)@.time < usize::MAX,
        ensures
            final(self)@.time == old(self)@.time + 1,
            final(self)@.catcher == old(self)@.catcher,
            due == (final(self)@.time % REELECTION_PERIOD == 0),
    {
        self.time = self.time + 1;
        self.time % REELECTION_PERIOD == 0
    }

    /// Makes one of `players`, chosen at random, the catcher.
    pub fn elect(&mut self, players: &Vec<Player>)
        requires
            players.len() > 0,
        ensures
            is_player(players@, final(self)@.catcher),
            final(self)@.time == old(self)@.time,
    {
        let mut ids: Vec<usize> = Vec::new();
        let mut i: usize = 0;
        while i < players.len()
            invariant
                i <= players.len(),
                ids.len() == i,
                forall|j: int| 0 <= j < i ==> ids[j] == (#[trigger] players[j]).id,
            decreases players.len() - i,
        {
            ids.push(players[i].id);
            i += 1;
        }
        let chosen: usize = pick(ids.as_slice());
        let ghost at = choose|j: int| 0 <= j < ids.len() && ids[j] == chosen;
        assert(players[at].id == chosen);
        self.catcher = chosen;
    }
}

} // verus!
