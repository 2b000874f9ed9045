//! The command engine and the ticker step: pure transition functions over the
//! playback state, stated as spec functions and implemented by verified
//! executable code, together with the navigation laws they obey.

use vstd::arithmetic::div_mod::lemma_add_mod_noop_right;
use vstd::arithmetic::div_mod::lemma_mod_add_multiples_vanish;
use vstd::arithmetic::div_mod::lemma_mod_multiples_vanish;
use vstd::arithmetic::div_mod::lemma_small_mod;
use vstd::prelude::*;

use crate::model::Catalog;
use crate::model::PlayerCommand;
use crate::model::PlayerState;
use crate::model::StateModel;
use crate::model::TrackModel;

verus! {

/// Fixed period of the per-room clock, in milliseconds.
pub const TICK_MS: u64 = 1000;

/// A playback state is well formed with respect to a catalog when its index
/// is in range, its track count matches the catalog, and its title, artist
/// and duration mirror the current catalog entry.
pub open spec fn state_wf(s: StateModel, cat: Seq<TrackModel>) -> bool {
    &&& cat.len() >= 1
    &&& s.total_songs == cat.len()
    &&& 0 <= s.current_index < cat.len()
    &&& s.song_title == cat[s.current_index].title
    &&& s.artist == cat[s.current_index].artist
    &&& s.duration_ms == cat[s.current_index].duration_ms
}

/// The state a room starts from: first track, paused, clock at zero.
pub open spec fn spec_initial(cat: Seq<TrackModel>) -> StateModel {
    StateModel {
        song_title: cat[0].title,
        artist: cat[0].artist,
        is_playing: false,
        progress_ms: 0,
        duration_ms: cat[0].duration_ms,
        current_index: 0,
        total_songs: cat.len() as int,
    }
}

/// Index of the track after `i`, wrapping at the end of the catalog.
pub open spec fn next_index(i: int, n: int) -> int {
    (i + 1) % n
}

/// Index of the track before `i`, wrapping at the start of the catalog.
pub open spec fn prev_index(i: int, n: int) -> int {
    (i + n - 1) % n
}

/// `s` moved onto track `i`: index and mirrored fields refreshed, clock
/// reset to zero; the play/pause flag and the track count are kept.
pub open spec fn with_track(s: StateModel, cat: Seq<TrackModel>, i: int) -> StateModel {
    StateModel {
        song_title: cat[i].title,
        artist: cat[i].artist,
        duration_ms: cat[i].duration_ms,
        progress_ms: 0,
        current_index: i,
        ..s
    }
}

/// The command engine: the state a command maps `s` to.
pub open spec fn spec_apply(s: StateModel, c: PlayerCommand, cat: Seq<TrackModel>) -> StateModel {
    match c {
        PlayerCommand::Play => StateModel { is_playing: true, ..s },
        PlayerCommand::Pause => StateModel { is_playing: false, ..s },
        PlayerCommand::Next => with_track(s, cat, next_index(s.current_index, cat.len() as int)),
        PlayerCommand::Prev => with_track(s, cat, prev_index(s.current_index, cat.len() as int)),
        PlayerCommand::Restart => StateModel { progress_ms: 0, ..s },
        PlayerCommand::Seek(ms) => StateModel { progress_ms: ms, ..s },
    }
}

/// One step of the ticker clock. A paused room is left untouched. A playing
/// room gains one period of progress; if that reaches or passes the end of
/// the track, the room moves to the next track with the clock reset to zero
/// (the overshoot is discarded, not carried).
pub open spec fn spec_tick(s: StateModel, cat: Seq<TrackModel>) -> StateModel {
    if !s.is_playing {
        s
    } else if s.progress_ms + TICK_MS >= s.duration_ms {
        with_track(s, cat, next_index(s.current_index, cat.len() as int))
    } else {
        StateModel { progress_ms: (s.progress_ms + TICK_MS) as u64, ..s }
    }
}

/// Moves `s` onto catalog track `i` and resets the clock.
fn set_track(s: &mut PlayerState, cat: &Catalog, i: usize)
    requires
        i < cat@.len(),
    ensures
        final(s)@ == with_track(old(s)@, cat@, i as int),
{
    let t = cat.get(i);
    s.progress_ms = 0;
    s.current_index = i;
    s.song_title = t.title.clone();
    s.artist = t.artist.clone();
    s.duration_ms = t.duration_ms;
    proof {
        assert(s@ =~= with_track(old(s)@, cat@, i as int));
    }
}

/// Builds the starting state of a room over `cat`.
pub fn initial_state(cat: &Catalog) -> (s: PlayerState)
    requires
        cat@.len() >= 1,
    ensures
        s@ == spec_initial(cat@),
        state_wf(s@, cat@),
{
    let t = cat.get(0);
    let s = PlayerState {
        song_title: t.title.clone(),
        artist: t.artist.clone(),
        is_playing: false,
        progress_ms: 0,
        duration_ms: t.duration_ms,
        current_index: 0,
        total_songs: cat.len(),
    };
    proof {
        assert(s@ =~= spec_initial(cat@));
    }
    s
}

/// Applies one transport command to the state, per the command engine rules.
pub fn apply_command(s: &mut PlayerState, cmd: &PlayerCommand, cat: &Catalog)
    requires
        state_wf(old(s)@, cat@),
    ensures
        final(s)@ == spec_apply(old(s)@, *cmd, cat@),
        state_wf(final(s)@, cat@),
{
    match cmd {
        PlayerCommand::Play => {
            s.is_playing = true;
        },
        PlayerCommand::Pause => {
            s.is_playing = false;
        },
        PlayerCommand::Restart => {
            s.progress_ms = 0;
        },
        PlayerCommand::Seek(ms) => {
            s.progress_ms = *ms;
        },
        PlayerCommand::Next => {
            let n = cat.len();
            let ni = (s.current_index + 1) % n;
            set_track(s, cat, ni);
        },
        PlayerCommand::Prev => {
            let n = cat.len();
            let i = s.current_index;
            let ni = if i == 0 {
                n - 1
            } else {
                i - 1
            };
            proof {
                if i == 0 {
                    lemma_small_mod((n - 1) as nat, n as nat);
                } else {
                    lemma_mod_add_multiples_vanish(i - 1, n as int);
                    lemma_small_mod((i - 1) as nat, n as nat);
                }
            }
            set_track(s, cat, ni);
        },
    }
    proof {
        assert(s@ =~= spec_apply(old(s)@, *cmd, cat@));
    }
}

/// One ticker step on the state, per the ticker rules.
pub fn tick(s: &mut PlayerState, cat: &Catalog)
    requires
        state_wf(old(s)@, cat@),
    ensures
        final(s)@ == spec_tick(old(s)@, cat@),
        state_wf(final(s)@, cat@),
{
    if s.is_playing {
        let p = s.progress_ms.saturating_add(TICK_MS);
        if p >= s.duration_ms {
            let ni = (s.current_index + 1) % cat.len();
            set_track(s, cat, ni);
        } else {
            s.progress_ms = p;
        }
    }
    proof {
        assert(s@ =~= spec_tick(old(s)@, cat@));
    }
}

/// `cmd` applied to `s` repeatedly, `k` times over.
pub open spec fn apply_n(s: StateModel, c: PlayerCommand, cat: Seq<TrackModel>, k: nat) -> StateModel
    decreases k,
{
    if k == 0 {
        s
    } else {
        spec_apply(apply_n(s, c, cat, (k - 1) as nat), c, cat)
    }
}

/// After `k` repetitions of `Next`, the index has moved forward by `k`,
/// modulo the catalog length.
pub proof fn lemma_next_iterates(s: StateModel, cat: Seq<TrackModel>, k: nat)
    requires
        state_wf(s, cat),
    ensures
        state_wf(apply_n(s, PlayerCommand::Next, cat, k), cat),
        apply_n(s, PlayerCommand::Next, cat, k).current_index == (s.current_index + k) % (
        cat.len() as int),
    decreases k,
{
    let n = cat.len() as int;
    if k == 0 {
        lemma_small_mod(s.current_index as nat, cat.len());
    } else {
        lemma_next_iterates(s, cat, (k - 1) as nat);
        let a = s.current_index + k - 1;
        lemma_add_mod_noop_right(1, a, n);
    }
}

/// After `k` repetitions of `Prev`, the index has moved back by `k`, that is
/// forward by `k * (n - 1)`, modulo the catalog length `n`.
pub proof fn lemma_prev_iterates(s: StateModel, cat: Seq<TrackModel>, k: nat)
    requires
        state_wf(s, cat),
    ensures
        state_wf(apply_n(s, PlayerCommand::Prev, cat, k), cat),
        apply_n(s, PlayerCommand::Prev, cat, k).current_index == (s.current_index + k * (
        cat.len() - 1)) % (cat.len() as int),
    decreases k,
{
    let n = cat.len() as int;
    let i = s.current_index;
    if k == 0 {
        assert(k * (n - 1) == 0) by (nonlinear_arith)
            requires
                k == 0,
        ;
        lemma_small_mod(i as nat, cat.len());
    } else {
        let km1 = (k - 1) as nat;
        lemma_prev_iterates(s, cat, km1);
        let a = i + km1 * (n - 1);
        lemma_add_mod_noop_right(n - 1, a, n);
        assert(a + (n - 1) == i + k * (n - 1)) by (nonlinear_arith)
            requires
                a == i + km1 * (n - 1),
                km1 == k - 1,
                k >= 1,
        ;
    }
}

/// Law: `Next` applied `total_songs` times over returns `current_index` to
/// its starting value.
pub proof fn lemma_next_round_trip(s: StateModel, cat: Seq<TrackModel>)
    requires
        state_wf(s, cat),
    ensures
        apply_n(s, PlayerCommand::Next, cat, cat.len()).current_index == s.current_index,
{
    let n = cat.len() as int;
    lemma_next_iterates(s, cat, cat.len());
    lemma_mod_add_multiples_vanish(s.current_index, n);
    lemma_small_mod(s.current_index as nat, cat.len());
}

/// Law: `Prev` applied `total_songs` times over returns `current_index` to
/// its starting value.
pub proof fn lemma_prev_round_trip(s: StateModel, cat: Seq<TrackModel>)
    requires
        state_wf(s, cat),
    ensures
        apply_n(s, PlayerCommand::Prev, cat, cat.len()).current_index == s.current_index,
{
    let n = cat.len() as int;
    let i = s.current_index;
    lemma_prev_iterates(s, cat, cat.len());
    lemma_mod_multiples_vanish(n - 1, i, n);
    lemma_small_mod(i as nat, cat.len());
}

/// Law: `Prev` immediately followed by `Next` restores the original
/// `current_index`, `song_title`, `artist` and `duration_ms`; each of the
/// two commands resets `progress_ms` to zero.
pub proof fn lemma_prev_then_next(s: StateModel, cat: Seq<TrackModel>)
    requires
        state_wf(s, cat),
    ensures
        ({
            let t = spec_apply(spec_apply(s, PlayerCommand::Prev, cat), PlayerCommand::Next, cat);
            &&& t.current_index == s.current_index
            &&& t.song_title == s.song_title
            &&& t.artist == s.artist
            &&& t.duration_ms == s.duration_ms
            &&& t.progress_ms == 0
        }),
{
    let n = cat.len() as int;
    let i = s.current_index;
    lemma_add_mod_noop_right(1, i + n - 1, n);
    lemma_mod_add_multiples_vanish(i, n);
    lemma_small_mod(i as nat, cat.len());
}

/// Law: after `Restart`, the clock is at zero and the play/pause flag is
/// what it was before the command.
pub proof fn lemma_restart(s: StateModel, cat: Seq<TrackModel>)
    ensures
        spec_apply(s, PlayerCommand::Restart, cat).progress_ms == 0,
        spec_apply(s, PlayerCommand::Restart, cat).is_playing == s.is_playing,
{
}

/// Law: `Pause` is idempotent — pausing twice yields the very state that
/// pausing once yields.
pub proof fn lemma_pause_idempotent(s: StateModel, cat: Seq<TrackModel>)
    ensures
        spec_apply(spec_apply(s, PlayerCommand::Pause, cat), PlayerCommand::Pause, cat)
            == spec_apply(s, PlayerCommand::Pause, cat),
{
    assert(spec_apply(spec_apply(s, PlayerCommand::Pause, cat), PlayerCommand::Pause, cat)
        =~= spec_apply(s, PlayerCommand::Pause, cat));
}

/// Law: a tick that reaches or passes the end of the playing track advances
/// to the next track and resets the clock exactly to zero — no remainder of
/// the period is carried over the boundary.
pub proof fn lemma_tick_auto_advance(s: StateModel, cat: Seq<TrackModel>)
    requires
        state_wf(s, cat),
        s.is_playing,
        s.progress_ms + TICK_MS >= s.duration_ms,
    ensures
        spec_tick(s, cat).current_index == next_index(s.current_index, cat.len() as int),
        spec_tick(s, cat).progress_ms == 0,
{
}

} // verus!
