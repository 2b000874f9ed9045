//! A room: one authoritative playback state, a subscriber count, and — as a
//! ghost record — the single sequence of snapshots the room has published to
//! its fanout.

use vstd::prelude::*;

use crate::engine::apply_command;
use crate::engine::initial_state;
use crate::engine::spec_apply;
use crate::engine::spec_initial;
use crate::engine::spec_tick;
use crate::engine::state_wf;
use crate::engine::tick;
use crate::model::Catalog;
use crate::model::PlayerCommand;
use crate::model::PlayerState;
use crate::model::StateModel;
use crate::model::TrackModel;

verus! {

/// One synchronization group. `published` is the room's one fanout history:
/// every subscriber is fed from this sequence and from nothing else.
pub struct Room {
    pub name: String,
    pub state: PlayerState,
    pub subscribers: usize,
    pub published: Ghost<Seq<StateModel>>,
}

impl Room {
    /// The room's state is well formed over the catalog.
    pub open spec fn wf(self, cat: Seq<TrackModel>) -> bool {
        state_wf(self.state@, cat)
    }

    /// Creates the room for `name`: first track, paused, clock at zero, no
    /// subscribers, nothing published yet.
    pub fn new(name: String, cat: &Catalog) -> (r: Room)
        requires
            cat@.len() >= 1,
        ensures
            r.name@ == name@,
            r.state@ == spec_initial(cat@),
            r.subscribers == 0,
            r.published@ == Seq::<StateModel>::empty(),
            r.wf(cat@),
    {
        Room {
            name,
            state: initial_state(cat),
            subscribers: 0,
            published: Ghost(Seq::empty()),
        }
    }

    /// Join protocol: registers one more subscriber and hands back the
    /// current snapshot — exactly one, synchronously, and without touching
    /// the published sequence — so a joining member sees the state at once,
    /// before any ticker-driven update can reach it.
    pub fn subscribe(&mut self) -> (snap: PlayerState)
        requires
            old(self).subscribers < usize::MAX,
        ensures
            snap@ == old(self).state@,
            final(self).subscribers == old(self).subscribers + 1,
            final(self).state == old(self).state,
            final(self).name == old(self).name,
            final(self).published == old(self).published,
    {
        self.subscribers = self.subscribers + 1;
        self.state.clone()
    }

    /// A member leaves. Nothing else about the room changes.
    pub fn unsubscribe(&mut self)
        requires
            old(self).subscribers >= 1,
        ensures
            final(self).subscribers == old(self).subscribers - 1,
            final(self).state == old(self).state,
            final(self).name == old(self).name,
            final(self).published == old(self).published,
    {
        self.subscribers = self.subscribers - 1;
    }

    /// Applies one member command to the authoritative state. Nothing is
    /// published here: publication is level-triggered by the ticker alone.
    pub fn submit(&mut self, cmd: &PlayerCommand, cat: &Catalog)
        requires
            old(self).wf(cat@),
        ensures
            final(self).state@ == spec_apply(old(self).state@, *cmd, cat@),
            final(self).wf(cat@),
            final(self).subscribers == old(self).subscribers,
            final(self).name == old(self).name,
            final(self).published == old(self).published,
    {
        apply_command(&mut self.state, cmd, cat);
    }

    /// One ticker period: advances the clock, then hands out the resulting
    /// snapshot if and only if at least one subscriber exists. A published
    /// snapshot is exactly the new state and is appended to the room's one
    /// published sequence; with no subscriber the snapshot is discarded, not
    /// buffered for later.
    pub fn tick(&mut self, cat: &Catalog) -> (out: Option<PlayerState>)
        requires
            old(self).wf(cat@),
        ensures
            final(self).state@ == spec_tick(old(self).state@, cat@),
            final(self).wf(cat@),
            final(self).subscribers == old(self).subscribers,
            final(self).name == old(self).name,
            out is Some <==> old(self).subscribers >= 1,
            out matches Some(p) ==> p@ == final(self).state@ && final(self).published@
                == old(self).published@.push(final(self).state@),
            out is None ==> final(self).published == old(self).published,
    {
        tick(&mut self.state, cat);
        if self.subscribers >= 1 {
            self.published = Ghost(self.published@.push(self.state@));
            Some(self.state.clone())
        } else {
            None
        }
    }
}

/// What a subscriber that has consumed the published snapshots at positions
/// `lo` (inclusive) up to `hi` (exclusive) of a room's fanout has observed.
pub open spec fn observed(published: Seq<StateModel>, lo: int, hi: int) -> Seq<StateModel> {
    published.subrange(lo, hi)
}

/// Law: the fanout shows no per-session divergence. A room publishes one
/// sequence of snapshots, so whatever stretches of it two members of the
/// room have each consumed, at every position both have consumed they have
/// observed exactly the same snapshot.
pub proof fn lemma_fanout_agreement(
    published: Seq<StateModel>,
    a_lo: int,
    a_hi: int,
    b_lo: int,
    b_hi: int,
    i: int,
)
    requires
        0 <= a_lo <= a_hi <= published.len(),
        0 <= b_lo <= b_hi <= published.len(),
        a_lo <= i < a_hi,
        b_lo <= i < b_hi,
    ensures
        observed(published, a_lo, a_hi)[i - a_lo] == observed(published, b_lo, b_hi)[i - b_lo],
{
}

} // verus!
