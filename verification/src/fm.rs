//! The FM player's playlist clock: every listener hears the same track at the
//! same moment, because the track is chosen from the wall clock.

use vstd::prelude::*;

verus! {

/// A playback command from the front end, the tray or the media keys.
#[derive(Debug, Clone, Copy, PartialEq, Eq, Structural)]
pub enum FmControl {
    Toggle,
    Play,
    Pause,
}

/// The number of tracks in the playlist.
pub const TRACK_COUNT: usize = 21;

/// The length of the playlist, in seconds (the sum of the track durations):
/// the period of the wall clock.
pub const TOTAL_DURATION: u64 = 4097;

pub open spec fn durations_spec() -> Seq<u64> {
    seq![107, 321, 428, 194, 68, 82, 153, 260, 134, 417, 189, 168, 207, 190, 139, 113, 160, 234, 160, 190, 183]
}

/// The durations of the tracks, in seconds, in playlist order.
pub fn track_durations() -> (r: Vec<u64>)
    ensures
        r@ == durations_spec(),
{
    let r = vec![107, 321, 428, 194, 68, 82, 153, 260, 134, 417, 189, 168, 207, 190, 139, 113, 160, 234, 160, 190, 183];
    proof {
        assert(r@ =~= durations_spec());
    }
    r
}

/// The sum of the first `n` durations.
pub open spec fn prefix_sum(d: Seq<u64>, n: int) -> int
    decreases n,
{
    if n <= 0 {
        0
    } else {
        prefix_sum(d, n - 1) + d[n - 1]
    }
}

proof fn lemma_prefix_sum_monotone(d: Seq<u64>)
    ensures
        forall|j: int, k: int| 0 <= j <= k ==> prefix_sum(d, j) <= prefix_sum(d, k),
{
    assert forall|j: int, k: int| 0 <= j <= k implies prefix_sum(d, j) <= prefix_sum(d, k) by {
        lemma_prefix_sum_step(d, j, k);
    }
}

proof fn lemma_prefix_sum_step(d: Seq<u64>, j: int, k: int)
    requires
        0 <= j <= k,
    ensures
        prefix_sum(d, j) <= prefix_sum(d, k),
    decreases k - j,
{
    if j < k {
        lemma_prefix_sum_step(d, j, k - 1);
    }
}

/// When each track starts within the playlist, in seconds.
pub fn track_starts() -> (r: Vec<u64>)
    ensures
        r@.len() == TRACK_COUNT,
        forall|i: int| 0 <= i < TRACK_COUNT ==> #[trigger] r@[i] == prefix_sum(durations_spec(), i),
        starts_ok(r@),
{
    let d = track_durations();
    let mut v: Vec<u64> = Vec::new();
    let mut acc: u64 = 0;
    let mut i: usize = 0;
    proof {
        let ds = durations_spec();
        assert(ds[0] == 107);
        assert(ds[1] == 321);
        assert(ds[2] == 428);
        assert(ds[3] == 194);
        assert(ds[4] == 68);
        assert(ds[5] == 82);
        assert(ds[6] == 153);
        assert(ds[7] == 260);
        assert(ds[8] == 134);
        assert(ds[9] == 417);
        assert(ds[10] == 189);
        assert(ds[11] == 168);
        assert(ds[12] == 207);
        assert(ds[13] == 190);
        assert(ds[14] == 139);
        assert(ds[15] == 113);
        assert(ds[16] == 160);
        assert(ds[17] == 234);
        assert(ds[18] == 160);
        assert(ds[19] == 190);
        assert(ds[20] == 183);
        assert(prefix_sum(ds, 0) == 0);
        assert(prefix_sum(ds, 1) == 107);
        assert(prefix_sum(ds, 2) == 428);
        assert(prefix_sum(ds, 3) == 856);
        assert(prefix_sum(ds, 4) == 1050);
        assert(prefix_sum(ds, 5) == 1118);
        assert(prefix_sum(ds, 6) == 1200);
        assert(prefix_sum(ds, 7) == 1353);
        assert(prefix_sum(ds, 8) == 1613);
        assert(prefix_sum(ds, 9) == 1747);
        assert(prefix_sum(ds, 10) == 2164);
        assert(prefix_sum(ds, 11) == 2353);
        assert(prefix_sum(ds, 12) == 2521);
        assert(prefix_sum(ds, 13) == 2728);
        assert(prefix_sum(ds, 14) == 2918);
        assert(prefix_sum(ds, 15) == 3057);
        assert(prefix_sum(ds, 16) == 3170);
        assert(prefix_sum(ds, 17) == 3330);
        assert(prefix_sum(ds, 18) == 3564);
        assert(prefix_sum(ds, 19) == 3724);
        assert(prefix_sum(ds, 20) == 3914);
        assert(prefix_sum(ds, 21) == 4097);
        lemma_prefix_sum_monotone(ds);
    }
    while i < d.len()
        invariant
            d@ == durations_spec(),
            i <= 21,
            v@.len() == i,
            acc == prefix_sum(durations_spec(), i as int),
            forall|j: int| 0 <= j < i ==> #[trigger] v@[j] == prefix_sum(durations_spec(), j),
            forall|j: int, k: int| 0 <= j <= k <= 21 ==> prefix_sum(durations_spec(), j) <= prefix_sum(durations_spec(), k),
            prefix_sum(durations_spec(), 21) == 4097,
        decreases 21 - i,
    {
        v.push(acc);
        assert(acc + d@[i as int] == prefix_sum(durations_spec(), i + 1));
        acc = acc + d[i];
        i = i + 1;
    }
    proof {
        assert forall|j: int, k: int| 0 <= j <= k < 21 implies #[trigger] v@[j] <= #[trigger] v@[k] by {}
    }
    v
}

/// The playlist's length is the sum of its durations.
pub proof fn lemma_total_duration()
    ensures
        prefix_sum(durations_spec(), TRACK_COUNT as int) == TOTAL_DURATION,
{
    let ds = durations_spec();
    reveal_with_fuel(prefix_sum, 22);
}

/// The starts of this playlist's tracks, each the sum of the durations
/// before it.
pub open spec fn playlist_starts(cum: Seq<u64>) -> bool {
    &&& cum.len() == TRACK_COUNT
    &&& forall|i: int| 0 <= i < TRACK_COUNT ==> #[trigger] cum[i] == prefix_sum(durations_spec(), i)
}

/// The track starts of a playlist: ascending from 0, each before the end.
pub open spec fn starts_ok(cum: Seq<u64>) -> bool {
    &&& cum.len() == TRACK_COUNT
    &&& cum[0] == 0
    &&& forall|j: int, k: int| 0 <= j <= k < cum.len() ==> #[trigger] cum[j] <= #[trigger] cum[k]
}

/// The track playing at `now`: the last one that starts no later than the
/// wall clock's position within the playlist.
pub fn seed_from_wallclock(now: u64, cum_start: &[u64]) -> (r: usize)
    requires
        starts_ok(cum_start@),
    ensures
        r < TRACK_COUNT,
        cum_start@[r as int] <= now % TOTAL_DURATION,
        forall|j: int| r < j < TRACK_COUNT ==> cum_start@[j] > now % TOTAL_DURATION,
        playlist_starts(cum_start@) ==> now % TOTAL_DURATION < cum_start@[r as int]
            + durations_spec()[r as int],
{
    let pos = now % TOTAL_DURATION;
    let mut lo: usize = 0;
    let mut hi: usize = TRACK_COUNT - 1;
    while lo < hi
        invariant
            starts_ok(cum_start@),
            lo <= hi < TRACK_COUNT,
            cum_start@[lo as int] <= pos,
            forall|j: int| hi < j < TRACK_COUNT ==> cum_start@[j] > pos,
        decreases hi - lo,
    {
        let mid = (lo + hi + 1) / 2;
        if cum_start[mid] <= pos {
            lo = mid;
        } else {
            proof {
                assert forall|j: int| mid <= j < TRACK_COUNT implies cum_start@[j] > pos by {
                    assert(cum_start@[mid as int] <= cum_start@[j]);
                }
            }
            hi = mid - 1;
        }
    }
    proof {
        if playlist_starts(cum_start@) {
            lemma_total_duration();
            let ds = durations_spec();
            assert(prefix_sum(ds, lo + 1) == prefix_sum(ds, lo as int) + ds[lo as int]);
            if lo + 1 < TRACK_COUNT {
                assert(cum_start@[lo + 1] > pos);
            }
        }
    }
    lo
}

/// The current wall-clock time in whole seconds since the Unix epoch, from
/// `std::time::SystemTime`; what it reads is left open.
#[verifier::external_body]
pub fn wallclock_now() -> (r: u64) {
    std::time::SystemTime::now().duration_since(std::time::UNIX_EPOCH).map(|d| d.as_secs()).unwrap_or(0)
}

/// Where playback resumes after a mute: the track at the wall clock and the
/// offset within it, and whether that is another track than `idx`.
pub fn resume_position(now_sec: u64, cum_start: &[u64], idx: usize) -> (r: (usize, u64, bool))
    requires
        starts_ok(cum_start@),
    ensures
        r.0 < TRACK_COUNT,
        cum_start@[r.0 as int] <= now_sec % TOTAL_DURATION,
        forall|j: int| r.0 < j < TRACK_COUNT ==> cum_start@[j] > now_sec % TOTAL_DURATION,
        r.1 == now_sec % TOTAL_DURATION - cum_start@[r.0 as int],
        playlist_starts(cum_start@) ==> r.1 < durations_spec()[r.0 as int],
        r.2 == (r.0 != idx),
{
    let pos = now_sec % TOTAL_DURATION;
    let new_idx = seed_from_wallclock(now_sec, cum_start);
    let offset = pos - cum_start[new_idx];
    (new_idx, offset, new_idx != idx)
}

// ---- the radio ----

/// Whether track `i` at `offset` seconds is where the playlist stands at
/// wall-clock second `now`.
pub open spec fn at_wallclock(cum: Seq<u64>, now: u64, i: int, offset: int) -> bool {
    &&& 0 <= i < TRACK_COUNT
    &&& cum[i] <= now % TOTAL_DURATION
    &&& forall|j: int| i < j < TRACK_COUNT ==> #[trigger] cum[j] > now % TOTAL_DURATION
    &&& offset == now % TOTAL_DURATION - cum[i]
}

/// What the radio awaits.
#[derive(Debug, Clone, Copy, PartialEq, Eq, Structural)]
pub enum FmPhase {
    /// The current track, fetched, decoded and in the sink (or its failure).
    Load,
    /// A control command, or the end of the current track.
    Wait,
    /// Nothing: the controls are gone.
    Stopped,
}

/// The radio: which track plays, whether it is muted (a paused radio keeps
/// its clock and only mutes), and where to seek once a track is in.
pub struct FmRadio {
    pub starts: Vec<u64>,
    pub idx: usize,
    pub muted: bool,
    pub pending_seek: Option<u64>,
    pub phase: FmPhase,
}

/// What happened, in answer to the last action.
#[derive(Debug, Clone, Copy, PartialEq, Eq, Structural)]
pub enum FmEvent {
    /// The track is in the sink.
    Loaded,
    /// The track could not be fetched or decoded.
    LoadFailed,
    /// A command, at this wall-clock second.
    Control(FmControl, u64),
    /// The sink ran empty: the track is over.
    TrackEnded,
    /// The command channel closed.
    Disconnected,
}

/// What to do next.
#[derive(Debug, Clone, Copy, PartialEq, Eq, Structural)]
pub enum FmAction {
    /// Fetch and decode this track and put it in the sink.
    Load(usize),
    /// Empty the sink (another track is due), then load this one.
    Reload(usize),
    /// The track is in: play it aloud or muted, seek where given, show it as
    /// the current track, and preload the next one.
    Start { index: usize, audible: bool, seek: Option<u64>, preload: usize },
    /// Unmute within the current track: play, seek to the offset, raise the
    /// volume, and show playback at that offset.
    Resume { offset: u64 },
    /// Mute: the clock goes on, the sound stops.
    Mute,
    /// Nothing to do.
    Nothing,
    /// End the engine.
    Stop,
}

pub open spec fn next_track(i: int) -> int {
    (i + 1) % (TRACK_COUNT as int)
}

/// The radio's start table is the playlist's, and its track one of them.
pub open spec fn fm_wf(r: &FmRadio) -> bool {
    &&& starts_ok(r.starts@)
    &&& playlist_starts(r.starts@)
    &&& r.idx < TRACK_COUNT
}

pub open spec fn fm_event_fits(phase: FmPhase, ev: FmEvent) -> bool {
    match phase {
        FmPhase::Load => ev == FmEvent::Loaded || ev == FmEvent::LoadFailed,
        FmPhase::Wait => ev is Control || ev == FmEvent::TrackEnded || ev == FmEvent::Disconnected,
        FmPhase::Stopped => false,
    }
}

/// One step of the radio, as a relation between the state before (`s`),
/// the event, the state after (`t`) and the action.
pub open spec fn fm_step_ok(s: &FmRadio, ev: FmEvent, t: &FmRadio, a: FmAction) -> bool {
    &&& t.starts@ == s.starts@
    &&& match ev {
        FmEvent::Loaded => t.idx == s.idx && t.muted == s.muted && t.pending_seek is None && t.phase
            == FmPhase::Wait && a == FmAction::Start {
            index: s.idx,
            audible: !s.muted,
            seek: s.pending_seek,
            preload: next_track(s.idx as int) as usize,
        },
        FmEvent::LoadFailed => t.idx == next_track(s.idx as int) && t.muted == s.muted && t.pending_seek
            == s.pending_seek && t.phase == FmPhase::Load && a == FmAction::Load(t.idx),
        FmEvent::TrackEnded => t.idx == next_track(s.idx as int) && t.muted == s.muted && t.pending_seek
            == s.pending_seek && t.phase == FmPhase::Load && a == FmAction::Load(t.idx),
        FmEvent::Disconnected => t.idx == s.idx && t.muted == s.muted && t.pending_seek == s.pending_seek
            && t.phase == FmPhase::Stopped && a == FmAction::Stop,
        FmEvent::Control(c, now) => if s.muted && (c == FmControl::Toggle || c == FmControl::Play) {
            &&& !t.muted
            &&& match a {
                FmAction::Reload(i) => {
                    &&& i == t.idx
                    &&& t.idx != s.idx
                    &&& t.phase == FmPhase::Load
                    &&& t.pending_seek matches Some(off) && at_wallclock(s.starts@, now, t.idx as int, off as int)
                },
                FmAction::Resume { offset } => t.idx == s.idx && t.phase == FmPhase::Wait && t.pending_seek
                    == s.pending_seek && at_wallclock(s.starts@, now, s.idx as int, offset as int),
                _ => false,
            }
        } else if !s.muted && (c == FmControl::Toggle || c == FmControl::Pause) {
            t.idx == s.idx && t.muted && t.pending_seek == s.pending_seek && t.phase == s.phase && a
                == FmAction::Mute
        } else {
            t.idx == s.idx && t.muted == s.muted && t.pending_seek == s.pending_seek && t.phase == s.phase
                && a == FmAction::Nothing
        },
    }
}

impl FmRadio {
    /// The radio at wall-clock second `now`: muted, on the track of the
    /// moment, to be started at the moment's offset within it.
    pub fn new(now: u64) -> (r: (FmRadio, FmAction))
        ensures
            fm_wf(&r.0),
            r.0.muted,
            r.0.phase == FmPhase::Load,
            r.1 == FmAction::Load(r.0.idx),
            playlist_starts(r.0.starts@),
            r.0.pending_seek matches Some(off) && at_wallclock(r.0.starts@, now, r.0.idx as int, off as int),
            r.0.pending_seek matches Some(off) && off < durations_spec()[r.0.idx as int],
    {
        let starts = track_starts();
        let (idx, offset, _) = resume_position(now, starts.as_slice(), TRACK_COUNT);
        let r = FmRadio { starts, idx, muted: true, pending_seek: Some(offset), phase: FmPhase::Load };
        (r, FmAction::Load(idx))
    }

    /// Whether the event answers what the radio awaits.
    pub fn fits(&self, ev: &FmEvent) -> (r: bool)
        ensures
            r == fm_event_fits(self.phase, *ev),
    {
        match self.phase {
            FmPhase::Load => match ev {
                FmEvent::Loaded | FmEvent::LoadFailed => true,
                _ => false,
            },
            FmPhase::Wait => match ev {
                FmEvent::Control(_, _) | FmEvent::TrackEnded | FmEvent::Disconnected => true,
                _ => false,
            },
            FmPhase::Stopped => false,
        }
    }

    /// Takes the event that answers the last action, and says what to do.
    pub fn step(&mut self, ev: FmEvent) -> (r: FmAction)
        requires
            fm_wf(old(self)),
            fm_event_fits(old(self).phase, ev),
        ensures
            fm_wf(final(self)),
            fm_step_ok(old(self), ev, final(self), r),
    {
        match ev {
            FmEvent::Loaded => {
                let seek = self.pending_seek;
                self.pending_seek = None;
                self.phase = FmPhase::Wait;
                FmAction::Start { index: self.idx, audible: !self.muted, seek, preload: (self.idx + 1) % TRACK_COUNT }
            },
            FmEvent::LoadFailed | FmEvent::TrackEnded => {
                self.idx = (self.idx + 1) % TRACK_COUNT;
                self.phase = FmPhase::Load;
                FmAction::Load(self.idx)
            },
            FmEvent::Disconnected => {
                self.phase = FmPhase::Stopped;
                FmAction::Stop
            },
            FmEvent::Control(c, now) => {
                let resume = c == FmControl::Toggle || c == FmControl::Play;
                let pause = c == FmControl::Toggle || c == FmControl::Pause;
                if self.muted && resume {
                    let (new_idx, offset, changed) = resume_position(now, self.starts.as_slice(), self.idx);
                    self.muted = false;
                    if changed {
                        self.idx = new_idx;
                        self.pending_seek = Some(offset);
                        self.phase = FmPhase::Load;
                        FmAction::Reload(new_idx)
                    } else {
                        FmAction::Resume { offset }
                    }
                } else if !self.muted && pause {
                    self.muted = true;
                    FmAction::Mute
                } else {
                    FmAction::Nothing
                }
            },
        }
    }
}

/// The playlist position at a moment is one track and one offset: radios
/// that resume at the same second play the same thing.
pub proof fn law_same_moment_same_track(cum: Seq<u64>, now: u64, i1: int, o1: int, i2: int, o2: int)
    requires
        at_wallclock(cum, now, i1, o1),
        at_wallclock(cum, now, i2, o2),
    ensures
        i1 == i2,
        o1 == o2,
{
    if i1 < i2 {
        assert(cum[i2] > now % TOTAL_DURATION);
    }
    if i2 < i1 {
        assert(cum[i1] > now % TOTAL_DURATION);
    }
}

/// Unmuting always lands where the wall clock stands, wherever the radio
/// was: the track of the moment and the moment's offset within it.
pub proof fn law_unmute_follows_wallclock(s: &FmRadio, c: FmControl, now: u64, t: &FmRadio, a: FmAction)
    requires
        fm_wf(s),
        s.phase == FmPhase::Wait,
        s.muted,
        c == FmControl::Toggle || c == FmControl::Play,
        fm_step_ok(s, FmEvent::Control(c, now), t, a),
    ensures
        !t.muted,
        exists|off: int| #[trigger] at_wallclock(s.starts@, now, t.idx as int, off) && (a matches FmAction::Resume {
            offset,
        } ==> off == offset) && (a matches FmAction::Reload(_) ==> t.pending_seek == Some(off as u64)),
{
    match a {
        FmAction::Resume { offset } => {
            assert(at_wallclock(s.starts@, now, t.idx as int, offset as int));
        },
        FmAction::Reload(_) => {
            let off = t.pending_seek->0;
            assert(at_wallclock(s.starts@, now, t.idx as int, off as int));
        },
        _ => {},
    }
}

/// A mute only silences: the track, the phase and the pending seek stay.
pub proof fn law_mute_keeps_track(s: &FmRadio, c: FmControl, now: u64, t: &FmRadio, a: FmAction)
    requires
        fm_wf(s),
        s.phase == FmPhase::Wait,
        !s.muted,
        c == FmControl::Toggle || c == FmControl::Pause,
        fm_step_ok(s, FmEvent::Control(c, now), t, a),
    ensures
        t.muted,
        t.idx == s.idx,
        t.phase == FmPhase::Wait,
        t.pending_seek == s.pending_seek,
        a == FmAction::Mute,
{
}

} // verus!
