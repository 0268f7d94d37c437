//! Playback: at most one player process at a time.
//!
//! The controller holds the handle of the running player and decides what a
//! request does to it. It starts and ends no process itself: the caller
//! ends the process that a plan or a stop hands out, starts the new one, and
//! reports its handle. The caller keeps the controller behind one lock from
//! the request to the report, so that requests take their turns.

use crate::catalog::Catalog;
use vstd::prelude::*;

verus! {

/// What a request to play a cassette calls for.
pub struct PlayPlan<H> {
    /// The player that is running and has to be ended first, if any.
    pub terminate: Option<H>,
    /// The address of the playlist to play.
    pub address: String,
}

/// The owner of the handle of the running player. `H` is the type of such a
/// handle.
pub struct PlaybackController<H> {
    active: Option<H>,
}

impl<H> View for PlaybackController<H> {
    type V = Option<H>;

    closed spec fn view(&self) -> Option<H> {
        self.active
    }
}

impl<H> PlaybackController<H> {
    /// A controller with no player running.
    pub fn new() -> (controller: PlaybackController<H>)
        ensures
            controller@ is None,
    {
        PlaybackController { active: None }
    }

    /// Tells whether a player is running.
    pub fn is_playing(&self) -> (playing: bool)
        ensures
            playing == (self@ is Some),
    {
        self.active.is_some()
    }

    /// Begins to play the cassette with the identifier `id`. Where `catalog`
    /// has no such cassette there is no plan and nothing changes. Otherwise
    /// the controller gives up the running player, which the plan hands out
    /// to be ended, and the plan names the playlist to play.
    pub fn begin_play(&mut self, catalog: &Catalog, id: u128) -> (plan: Option<PlayPlan<H>>)
        ensures
            match plan {
                Some(plan) => {
                    &&& catalog@.contains_key(id)
                    &&& plan.address@ == catalog@[id].yt_url
                    &&& plan.terminate == old(self)@
                    &&& final(self)@ is None
                },
                None => !catalog@.contains_key(id) && final(self)@ == old(self)@,
            },
    {
        match catalog.get(id) {
            Some(cassette) => {
                let address = cassette.yt_url.clone();
                let mut terminate: Option<H> = None;
                std::mem::swap(&mut self.active, &mut terminate);
                Some(PlayPlan { terminate, address })
            },
            None => None,
        }
    }

    /// Takes the handle of the player that was started for a plan. Returns
    /// the handle that the controller held until now, if any, which has to
    /// be ended: after a plan there is none.
    pub fn started(&mut self, handle: H) -> (displaced: Option<H>)
        ensures
            final(self)@ == Some(handle),
            displaced == old(self)@,
    {
        let mut displaced: Option<H> = Some(handle);
        std::mem::swap(&mut self.active, &mut displaced);
        displaced
    }

    /// Stops playing: hands out the running player to be ended, if any.
    /// With no player running nothing happens.
    pub fn stop(&mut self) -> (terminate: Option<H>)
        ensures
            terminate == old(self)@,
            final(self)@ is None,
    {
        let mut terminate: Option<H> = None;
        std::mem::swap(&mut self.active, &mut terminate);
        terminate
    }
}

/// The players of a service: the one that the controller holds, and all that
/// are alive.
#[verifier::reject_recursive_types(H)]
pub struct Stage<H> {
    pub active: Option<H>,
    pub live: Set<H>,
}

/// A request that has taken its turn and run to its end.
pub enum Turn<H> {
    /// A cassette of the catalog was played; `0` is the player that was
    /// started for it.
    Played(H),
    /// A cassette that the catalog does not have was asked for.
    Unknown,
    /// Playback was stopped.
    Stopped,
}

/// The players of `live` without the one that was handed out to be ended.
pub open spec fn without<H>(live: Set<H>, ended: Option<H>) -> Set<H> {
    match ended {
        Some(handle) => live.remove(handle),
        None => live,
    }
}

impl<H> Stage<H> {
    /// The controller holds the one player that is alive, or none is alive.
    pub open spec fn in_step(self) -> bool {
        self.live == match self.active {
            Some(handle) => Set::empty().insert(handle),
            None => Set::empty(),
        }
    }

    /// The stage after one request: `begin_play`, the end of the player it
    /// handed out, the start of the new one and `started`; or `begin_play`
    /// without a plan; or `stop` and the end of the player it handed out.
    pub open spec fn after(self, turn: Turn<H>) -> Stage<H> {
        match turn {
            Turn::Played(handle) => Stage {
                active: Some(handle),
                live: without(self.live, self.active).insert(handle),
            },
            Turn::Unknown => self,
            Turn::Stopped => Stage { active: None, live: without(self.live, self.active) },
        }
    }

    /// The stage after the requests `turns`, one after the other.
    pub open spec fn after_all(self, turns: Seq<Turn<H>>) -> Stage<H>
        decreases turns.len(),
    {
        if turns.len() == 0 {
            self
        } else {
            self.after_all(turns.drop_last()).after(turns.last())
        }
    }
}

/// Requests that take their turns leave at most one player alive: the one
/// that the controller holds. After a request that played a cassette it is
/// the player of that request, whatever came before; after a stop none is
/// alive; a stop with no player running changes nothing.
pub proof fn lemma_one_player<H>(stage: Stage<H>, turns: Seq<Turn<H>>)
    requires
        stage.in_step(),
    ensures
        stage.after_all(turns).in_step(),
        turns.len() > 0 ==> match turns.last() {
            Turn::Played(handle) => stage.after_all(turns).live == Set::empty().insert(handle),
            Turn::Stopped => stage.after_all(turns).live == Set::<H>::empty(),
            Turn::Unknown => stage.after_all(turns) == stage.after_all(turns.drop_last()),
        },
        stage.active is None ==> stage.after(Turn::Stopped) == stage,
    decreases turns.len(),
{
    if turns.len() > 0 {
        lemma_one_player(stage, turns.drop_last());
        let before = stage.after_all(turns.drop_last());
        let next = before.after(turns.last());
        match turns.last() {
            Turn::Played(handle) => {
                assert(next.live =~= Set::empty().insert(handle));
            },
            Turn::Stopped => {
                assert(next.live =~= Set::<H>::empty());
            },
            Turn::Unknown => {},
        }
    }
    if stage.active is None {
        assert(stage.after(Turn::Stopped).live =~= stage.live);
    }
}

} // verus!
