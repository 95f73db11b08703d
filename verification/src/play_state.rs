use vstd::prelude::*;
use vstd::std_specs::cmp::PartialEqSpecImpl;
use crate::geometry::{Difficulty, SceneType};
use std::collections::VecDeque;

verus! {

/// How far a checksum of the rate inputs may move before the cached rate is read
/// again: less than this is noise of the capture.
pub const RATE_CHECKSUM_CHANGE_THRESHOLD: u64 = 50;

/// The distance of two checksums.
pub open spec fn checksum_distance(a: u64, b: u64) -> int {
    if a >= b {
        a - b
    } else {
        b - a
    }
}

/// Pixel checksums of the areas the rate is read from: the score and the badge.
#[derive(Clone, Copy, Debug, Eq)]
pub struct RateInputChecksums {
    pub score: u64,
    pub badge: u64,
}

fn abs_diff(a: u64, b: u64) -> (res: u64)
    ensures
        res == checksum_distance(a, b),
{
    if a >= b {
        a - b
    } else {
        b - a
    }
}

/// Two sets of checksums are the same input where each checksum moved by at most
/// the threshold; such a change does not make the rate be read again.
impl PartialEq for RateInputChecksums {
    fn eq(&self, other: &Self) -> (res: bool) {
        abs_diff(self.score, other.score) <= RATE_CHECKSUM_CHANGE_THRESHOLD && abs_diff(
            self.badge,
            other.badge,
        ) <= RATE_CHECKSUM_CHANGE_THRESHOLD
    }
}

impl PartialEqSpecImpl for RateInputChecksums {
    open spec fn obeys_eq_spec() -> bool {
        true
    }

    open spec fn eq_spec(&self, other: &Self) -> bool {
        checksum_distance(self.score, other.score) <= RATE_CHECKSUM_CHANGE_THRESHOLD
            && checksum_distance(self.badge, other.badge) <= RATE_CHECKSUM_CHANGE_THRESHOLD
    }
}


/// The least rate, in hundredths of a percent, that counts as a play.
pub const MIN_VALID_RATE_CENTI: u32 = 8000;

/// A chart's button mode.
#[derive(Clone, Copy, Debug, PartialEq, Eq, Hash, Structural)]
pub enum Mode {
    B4,
    B5,
    B6,
    B8,
}

/// What the screen shows of a chart's record: a rate, in hundredths of a percent,
/// with the MAX COMBO mark, or no play.
#[derive(Clone, Copy, Debug, PartialEq, Eq, Structural)]
pub enum PatternRecord {
    Played { rate_centi: u32, is_max_combo: bool },
    Unplayed,
}

impl PatternRecord {
    /// The rate; zero without a play.
    pub open spec fn spec_rate(self) -> u32 {
        match self {
            PatternRecord::Played { rate_centi, .. } => rate_centi,
            PatternRecord::Unplayed => 0,
        }
    }

    /// The MAX COMBO mark; off without a play.
    pub open spec fn spec_max_combo(self) -> bool {
        match self {
            PatternRecord::Played { is_max_combo, .. } => is_max_combo,
            PatternRecord::Unplayed => false,
        }
    }

    pub fn rate(&self) -> (res: u32)
        ensures
            res == self.spec_rate(),
    {
        match self {
            PatternRecord::Played { rate_centi, .. } => *rate_centi,
            PatternRecord::Unplayed => 0,
        }
    }

    pub fn is_max_combo(&self) -> (res: bool)
        ensures
            res == self.spec_max_combo(),
    {
        match self {
            PatternRecord::Played { is_max_combo, .. } => *is_max_combo,
            PatternRecord::Unplayed => false,
        }
    }
}

/// What one frame shows of the chart being looked at or played: the song, mode
/// and difficulty, the rate in hundredths of a percent and the MAX COMBO mark.
#[derive(Clone, Copy, Debug, PartialEq, Eq, Structural)]
pub struct PlayContext {
    pub song_id: i32,
    pub mode: Mode,
    pub diff: Difficulty,
    pub rate_centi: u32,
    pub is_max_combo: bool,
}

/// A record that the detector vouches for, once the screen has been stable.
#[derive(Clone, Copy, Debug, PartialEq, Eq, Structural)]
pub struct VerifiedPlayEvent {
    pub song_id: i32,
    pub mode: Mode,
    pub diff: Difficulty,
    pub rate_centi: u32,
    pub is_max_combo: bool,
    pub is_result_screen: bool,
}

/// The game session as one frame leaves it.
#[derive(Clone, Copy, Debug, PartialEq, Eq, Structural)]
pub struct SessionState {
    pub scene: SceneType,
    pub context: Option<PlayContext>,
    /// The context has been the same for the whole history.
    pub is_stable: bool,
    pub is_fullscreen: bool,
}

/// The context of a frame, from the chart and the record read: on a result screen
/// a rate below the least valid rate counts as none, and the MAX COMBO mark counts
/// only with a rate.
pub open spec fn spec_context_of(song_id: i32, mode: Mode, diff: Difficulty, record: PatternRecord, is_result: bool) -> PlayContext {
    let rate = record.spec_rate();
    let valid = !is_result || rate >= MIN_VALID_RATE_CENTI;
    PlayContext {
        song_id,
        mode,
        diff,
        rate_centi: if valid { rate } else { 0 },
        is_max_combo: valid && rate > 0 && record.spec_max_combo(),
    }
}

/// The context of a frame, as `spec_context_of` says.
pub fn context_of(song_id: i32, mode: Mode, diff: Difficulty, record: PatternRecord, is_result: bool) -> (res: PlayContext)
    ensures
        res == spec_context_of(song_id, mode, diff, record, is_result),
{
    let rate = record.rate();
    let valid = !is_result || rate >= MIN_VALID_RATE_CENTI;
    PlayContext {
        song_id,
        mode,
        diff,
        rate_centi: if valid { rate } else { 0 },
        is_max_combo: valid && rate > 0 && record.is_max_combo(),
    }
}

/// The history after recording one frame's context: the oldest entry leaves when
/// the history is full.
pub open spec fn spec_pushed(h: Seq<Option<PlayContext>>, size: nat, c: Option<PlayContext>) -> Seq<Option<PlayContext>> {
    if h.len() >= size {
        h.drop_first().push(c)
    } else {
        h.push(c)
    }
}

/// The stable context: the one every entry of a full history holds.
pub open spec fn spec_stable(h: Seq<Option<PlayContext>>, size: nat) -> Option<PlayContext> {
    if h.len() == size && h.len() > 0 && h[0] is Some && forall|i: int| 0 <= i < h.len() ==> #[trigger] h[i] == h[0] {
        h[0]
    } else {
        None
    }
}

/// The number of frames of the history that showed a context.
pub open spec fn spec_hits(h: Seq<Option<PlayContext>>) -> nat
    decreases h.len(),
{
    if h.len() == 0 {
        0
    } else {
        spec_hits(h.drop_last()) + if h.last() is Some { 1nat } else { 0nat }
    }
}

/// A stable context is published when its rate is valid (on a select screen, also
/// when the chart is unplayed).
pub open spec fn spec_should_emit(ctx: PlayContext, is_result: bool) -> bool {
    if is_result {
        ctx.rate_centi >= MIN_VALID_RATE_CENTI
    } else {
        ctx.rate_centi >= MIN_VALID_RATE_CENTI || ctx.rate_centi == 0
    }
}

/// The event for a stable context.
pub open spec fn spec_event_of(ctx: PlayContext, is_result: bool) -> VerifiedPlayEvent {
    VerifiedPlayEvent {
        song_id: ctx.song_id,
        mode: ctx.mode,
        diff: ctx.diff,
        rate_centi: ctx.rate_centi,
        is_max_combo: ctx.is_max_combo,
        is_result_screen: is_result,
    }
}

/// Whether `cur` is published after `last`: always for another chart or screen
/// kind; on a result screen when the record improved (MAX COMBO newly reached, or a
/// higher rate); on a select screen when the rate or the mark changed.
pub open spec fn spec_should_fire(last: Option<VerifiedPlayEvent>, cur: VerifiedPlayEvent) -> bool {
    match last {
        None => true,
        Some(l) => {
            let same = l.song_id == cur.song_id && l.mode == cur.mode && l.diff == cur.diff
                && l.is_result_screen == cur.is_result_screen;
            if !same {
                true
            } else if cur.is_result_screen {
                (!l.is_max_combo && cur.is_max_combo) || cur.rate_centi > l.rate_centi
            } else {
                l.rate_centi != cur.rate_centi || l.is_max_combo != cur.is_max_combo
            }
        },
    }
}

/// The session state and the event of a frame, given the stable context and the
/// last event published; also the last event afterwards.
pub open spec fn spec_session_and_event(
    scene: SceneType,
    is_result: bool,
    current: Option<PlayContext>,
    stable: Option<PlayContext>,
    last: Option<VerifiedPlayEvent>,
) -> (SessionState, Option<VerifiedPlayEvent>, Option<VerifiedPlayEvent>) {
    match stable {
        Some(s) => {
            let state = SessionState { scene, context: Some(s), is_stable: true, is_fullscreen: false };
            let ev = spec_event_of(s, is_result);
            if spec_should_emit(s, is_result) && spec_should_fire(last, ev) {
                (state, Some(ev), Some(ev))
            } else {
                (state, None, last)
            }
        },
        None => (SessionState { scene, context: current, is_stable: false, is_fullscreen: false }, None, last),
    }
}

/// Turns the contexts read frame by frame into a stable session state and into
/// events published once: a context counts once it has been the same for the whole
/// history, and a record is published again only when it changed (select screen)
/// or improved (result screen). On result screens the mode and difficulty read
/// last are held while the screen animates.
pub struct PlayStateDetector {
    history_size: usize,
    history: VecDeque<Option<PlayContext>>,
    latched_mode: Option<Mode>,
    latched_diff: Option<Difficulty>,
    last_emitted_event: Option<VerifiedPlayEvent>,
}

impl PlayStateDetector {
    #[verifier::type_invariant]
    spec fn history_fits(self) -> bool {
        &&& self.history_size >= 1
        &&& self.history@.len() <= self.history_size
    }

    /// The number of frames the history holds.
    pub closed spec fn size(self) -> nat {
        self.history_size as nat
    }

    /// The contexts of the last frames, oldest first.
    pub closed spec fn history(self) -> Seq<Option<PlayContext>> {
        self.history@
    }

    /// The mode and difficulty held for result screens.
    pub closed spec fn latched(self) -> (Option<Mode>, Option<Difficulty>) {
        (self.latched_mode, self.latched_diff)
    }

    /// The last event published.
    pub closed spec fn last_event(self) -> Option<VerifiedPlayEvent> {
        self.last_emitted_event
    }

    /// A detector whose history holds `history_size` frames (at least one).
    pub fn new(history_size: usize) -> (res: Self)
        ensures
            res.size() == (if history_size >= 1 { history_size as nat } else { 1nat }),
            res.history() == Seq::<Option<PlayContext>>::empty(),
            res.latched() == (None::<Mode>, None::<Difficulty>),
            res.last_event() is None,
    {
        PlayStateDetector {
            history_size: if history_size >= 1 { history_size } else { 1 },
            history: VecDeque::new(),
            latched_mode: None,
            latched_diff: None,
            last_emitted_event: None,
        }
    }

    /// The number of frames of the history that showed a context.
    pub fn stable_hits(&self) -> (res: u32)
        ensures
            res == spec_hits(self.history()) as u32,
    {
        let mut n: usize = 0;
        let mut i: usize = 0;
        while i < self.history.len()
            invariant
                i <= self.history@.len(),
                n == spec_hits(self.history@.subrange(0, i as int)),
                n <= i,
            decreases self.history@.len() - i,
        {
            assert(self.history@.subrange(0, i + 1).drop_last() == self.history@.subrange(0, i as int));
            if self.history[i].is_some() {
                n = n + 1;
            }
            i += 1;
        }
        assert(self.history@.subrange(0, self.history@.len() as int) == self.history@);
        n as u32
    }

    /// Forgets the history and the last event; the mode and difficulty held for
    /// result screens stay.
    pub fn reset(&mut self)
        ensures
            final(self).size() == old(self).size(),
            final(self).history() == Seq::<Option<PlayContext>>::empty(),
            final(self).latched() == old(self).latched(),
            final(self).last_event() is None,
    {
        proof {
            use_type_invariant(&*self);
        }
        self.history = VecDeque::new();
        self.last_emitted_event = None;
    }

    /// Forgets what was detected: the held mode and difficulty and the last event.
    pub fn clear_detected_cache(&mut self)
        ensures
            final(self).size() == old(self).size(),
            final(self).history() == old(self).history(),
            final(self).latched() == (None::<Mode>, None::<Difficulty>),
            final(self).last_event() is None,
    {
        proof {
            use_type_invariant(&*self);
        }
        self.latched_mode = None;
        self.latched_diff = None;
        self.last_emitted_event = None;
    }

    /// On a result screen: holds the mode and difficulty read in this frame where
    /// they were read, and returns those held.
    pub fn latch_result_mode_diff(&mut self, mode: Option<Mode>, diff: Option<Difficulty>) -> (res: (Option<Mode>, Option<Difficulty>))
        ensures
            final(self).size() == old(self).size(),
            final(self).history() == old(self).history(),
            final(self).last_event() == old(self).last_event(),
            final(self).latched() == (
                if mode is Some { mode } else { old(self).latched().0 },
                if diff is Some { diff } else { old(self).latched().1 },
            ),
            res == final(self).latched(),
    {
        proof {
            use_type_invariant(&*self);
        }
        if mode.is_some() {
            self.latched_mode = mode;
        }
        if diff.is_some() {
            self.latched_diff = diff;
        }
        (self.latched_mode, self.latched_diff)
    }

    /// Off result screens: releases the held mode and difficulty.
    pub fn release_result_latch(&mut self)
        ensures
            final(self).size() == old(self).size(),
            final(self).history() == old(self).history(),
            final(self).last_event() == old(self).last_event(),
            final(self).latched() == (None::<Mode>, None::<Difficulty>),
    {
        proof {
            use_type_invariant(&*self);
        }
        self.latched_mode = None;
        self.latched_diff = None;
    }

    fn stable(&self) -> (res: Option<PlayContext>)
        ensures
            res == spec_stable(self.history(), self.size()),
    {
        if self.history.len() != self.history_size || self.history.len() == 0 {
            return None;
        }
        let first = self.history[0];
        if first.is_none() {
            return None;
        }
        let mut i: usize = 1;
        while i < self.history.len()
            invariant
                1 <= i <= self.history@.len(),
                first == self.history@[0],
                forall|j: int| 0 <= j < i ==> #[trigger] self.history@[j] == first,
            decreases self.history@.len() - i,
        {
            if self.history[i] != first {
                return None;
            }
            i += 1;
        }
        first
    }

    /// Records the context read from this frame (`None` where none was read) on a
    /// screen of `scene`, which `is_result` says is a result screen, and returns the
    /// session state and the event to publish, if any.
    pub fn commit(&mut self, scene: SceneType, is_result: bool, current: Option<PlayContext>) -> (res: (SessionState, Option<VerifiedPlayEvent>))
        ensures
            final(self).size() == old(self).size(),
            final(self).latched() == old(self).latched(),
            final(self).history() == spec_pushed(old(self).history(), old(self).size(), current),
            final(self).size() >= 1,
            old(self).history().len() <= old(self).size(),
            final(self).history().len() <= final(self).size(),
            (res.0, res.1, final(self).last_event()) == spec_session_and_event(
                scene,
                is_result,
                current,
                spec_stable(final(self).history(), final(self).size()),
                old(self).last_event(),
            ),
    {
        proof {
            use_type_invariant(&*self);
        }
        let mut h: VecDeque<Option<PlayContext>> = VecDeque::new();
        std::mem::swap(&mut h, &mut self.history);
        if h.len() >= self.history_size {
            h.pop_front();
        }
        h.push_back(current);
        self.history = h;
        let stable = self.stable();
        match stable {
            Some(s) => {
                let state = SessionState { scene, context: Some(s), is_stable: true, is_fullscreen: false };
                let emit = if is_result {
                    s.rate_centi >= MIN_VALID_RATE_CENTI
                } else {
                    s.rate_centi >= MIN_VALID_RATE_CENTI || s.rate_centi == 0
                };
                let ev = VerifiedPlayEvent {
                    song_id: s.song_id,
                    mode: s.mode,
                    diff: s.diff,
                    rate_centi: s.rate_centi,
                    is_max_combo: s.is_max_combo,
                    is_result_screen: is_result,
                };
                let fire = match self.last_emitted_event {
                    None => true,
                    Some(l) => {
                        let same = l.song_id == ev.song_id && l.mode == ev.mode && l.diff == ev.diff
                            && l.is_result_screen == ev.is_result_screen;
                        if !same {
                            true
                        } else if is_result {
                            (!l.is_max_combo && ev.is_max_combo) || ev.rate_centi > l.rate_centi
                        } else {
                            l.rate_centi != ev.rate_centi || l.is_max_combo != ev.is_max_combo
                        }
                    },
                };
                if emit && fire {
                    self.last_emitted_event = Some(ev);
                    (state, Some(ev))
                } else {
                    (state, None)
                }
            },
            None => (SessionState { scene, context: current, is_stable: false, is_fullscreen: false }, None),
        }
    }
}

/// The history after `n` frames that all show `c`.
pub open spec fn spec_pushed_n(h: Seq<Option<PlayContext>>, size: nat, c: Option<PlayContext>, n: nat) -> Seq<Option<PlayContext>>
    decreases n,
{
    if n == 0 {
        h
    } else {
        spec_pushed(spec_pushed_n(h, size, c, (n - 1) as nat), size, c)
    }
}

proof fn lemma_pushed_n_tail(h: Seq<Option<PlayContext>>, size: nat, c: Option<PlayContext>, n: nat)
    requires
        h.len() <= size,
        n <= size,
    ensures
        spec_pushed_n(h, size, c, n).len() == (if h.len() + n <= size { h.len() + n } else { size }),
        forall|i: int| spec_pushed_n(h, size, c, n).len() - n <= i < spec_pushed_n(h, size, c, n).len()
            ==> #[trigger] spec_pushed_n(h, size, c, n)[i] == c,
    decreases n,
{
    if n > 0 {
        lemma_pushed_n_tail(h, size, c, (n - 1) as nat);
        let prev = spec_pushed_n(h, size, c, (n - 1) as nat);
        let next = spec_pushed(prev, size, c);
        assert(next == spec_pushed_n(h, size, c, n));
        assert forall|i: int| next.len() - n <= i < next.len() implies #[trigger] next[i] == c by {
            if i == next.len() - 1 {
            } else if prev.len() >= size {
                assert(next[i] == prev[i + 1]);
            } else {
                assert(next[i] == prev[i]);
            }
        }
    }
}

/// A context shown in as many consecutive frames as the history holds becomes the
/// stable context, whatever the history held before.
pub proof fn lemma_repeated_context_becomes_stable(h: Seq<Option<PlayContext>>, size: nat, c: PlayContext)
    requires
        size >= 1,
        h.len() <= size,
    ensures
        spec_stable(spec_pushed_n(h, size, Some(c), size), size) == Some(c),
{
    let r = spec_pushed_n(h, size, Some(c), size);
    lemma_pushed_n_tail(h, size, Some(c), size);
    assert(r.len() == size);
    assert(r[0] == Some(c));
}

/// A record is not published twice in a row: right after an event, the same stable
/// context on the same kind of screen publishes nothing.
pub proof fn lemma_event_not_repeated(ctx: PlayContext, is_result: bool, scene: SceneType, current: Option<PlayContext>)
    requires
        spec_should_emit(ctx, is_result),
    ensures
        spec_session_and_event(scene, is_result, current, Some(ctx), Some(spec_event_of(ctx, is_result))).1 is None,
{
}


/// The largest rate, in hundredths of a percent.
pub const MAX_RATE_CENTI: u32 = 10000;

/// The rate of a chart from the score read and the rate read, in hundredths of a
/// percent. The score gives `score / 100` (a million points being 100 %). Where
/// both were read, the score's rate stands when the two lie within 0.02 % of each
/// other, else the rate read; a score alone counts when its rate is at most 100 %
/// and, off result screens, at least the least valid rate.
pub open spec fn spec_combined_rate(score: Option<u32>, direct: Option<u32>, is_result: bool) -> Option<u32> {
    match (score, direct) {
        (Some(s), Some(d)) => {
            let calc = s / 100;
            if calc - d <= 2 && d - calc <= 2 {
                Some(calc)
            } else {
                Some(d)
            }
        },
        (Some(s), None) => {
            let calc = s / 100;
            if calc <= MAX_RATE_CENTI && (is_result || calc >= MIN_VALID_RATE_CENTI) {
                Some(calc)
            } else {
                None
            }
        },
        (None, Some(d)) => Some(d),
        (None, None) => None,
    }
}

/// The rate of a chart from the score and the rate read, as `spec_combined_rate`
/// says.
pub fn combine_rate(score: Option<u32>, direct_rate_centi: Option<u32>, is_result: bool) -> (res: Option<u32>)
    ensures
        res == spec_combined_rate(score, direct_rate_centi, is_result),
{
    match (score, direct_rate_centi) {
        (Some(s), Some(d)) => {
            let calc = s / 100;
            let close = if calc >= d {
                calc - d <= 2
            } else {
                d - calc <= 2
            };
            if close {
                Some(calc)
            } else {
                Some(d)
            }
        },
        (Some(s), None) => {
            let calc = s / 100;
            if calc <= MAX_RATE_CENTI && (is_result || calc >= MIN_VALID_RATE_CENTI) {
                Some(calc)
            } else {
                None
            }
        },
        (None, Some(d)) => Some(d),
        (None, None) => None,
    }
}

/// The record a select screen shows: a play with the rate and the MAX COMBO mark
/// where a valid rate was read on a song-select screen, no play otherwise.
pub fn select_record(rate_centi: Option<u32>, is_song_select: bool, is_max_combo: bool) -> (res: PatternRecord)
    ensures
        res == match rate_centi {
            Some(r) => if is_song_select && MIN_VALID_RATE_CENTI <= r <= MAX_RATE_CENTI {
                PatternRecord::Played { rate_centi: r, is_max_combo }
            } else {
                PatternRecord::Unplayed
            },
            None => PatternRecord::Unplayed,
        },
{
    match rate_centi {
        Some(r) => if is_song_select && MIN_VALID_RATE_CENTI <= r && r <= MAX_RATE_CENTI {
            PatternRecord::Played { rate_centi: r, is_max_combo }
        } else {
            PatternRecord::Unplayed
        },
        None => PatternRecord::Unplayed,
    }
}

/// `s` with `x` put before its first element greater than `x`.
pub open spec fn insert_sorted(s: Seq<u32>, x: u32) -> Seq<u32>
    decreases s.len(),
{
    if s.len() == 0 {
        seq![x]
    } else if x < s[0] {
        seq![x] + s
    } else {
        seq![s[0]] + insert_sorted(s.drop_first(), x)
    }
}

/// `s` sorted, smallest first, by inserting its elements in turn.
pub open spec fn sorted_seq(s: Seq<u32>) -> Seq<u32>
    decreases s.len(),
{
    if s.len() == 0 {
        s
    } else {
        insert_sorted(sorted_seq(s.drop_last()), s.last())
    }
}

/// `s` is in ascending order.
pub open spec fn ascending(s: Seq<u32>) -> bool {
    forall|i: int, j: int| 0 <= i <= j < s.len() ==> s[i] <= s[j]
}

proof fn lemma_insert_sorted_at(s: Seq<u32>, x: u32, p: int)
    requires
        0 <= p <= s.len(),
        forall|j: int| 0 <= j < p ==> !(x < #[trigger] s[j]),
        p < s.len() ==> x < s[p],
    ensures
        insert_sorted(s, x) == s.take(p).push(x) + s.skip(p),
    decreases s.len(),
{
    if s.len() == 0 {
        assert(s.take(p).push(x) + s.skip(p) =~= seq![x]);
    } else if x < s[0] {
        assert(p == 0);
        assert(s.take(0).push(x) + s.skip(0) =~= seq![x] + s);
    } else {
        let t = s.drop_first();
        assert forall|j: int| 0 <= j < p - 1 implies !(x < #[trigger] t[j]) by {
            assert(t[j] == s[j + 1]);
        }
        if p - 1 < t.len() {
            assert(t[p - 1] == s[p]);
        }
        lemma_insert_sorted_at(t, x, p - 1);
        assert(seq![s[0]] + (t.take(p - 1).push(x) + t.skip(p - 1)) =~= s.take(p).push(x) + s.skip(p));
    }
}

/// Inserting into an ascending sequence keeps it ascending and adds one element.
pub proof fn lemma_insert_sorted_ascending(s: Seq<u32>, x: u32)
    requires
        ascending(s),
    ensures
        ascending(insert_sorted(s, x)),
        insert_sorted(s, x).len() == s.len() + 1,
        insert_sorted(s, x).to_multiset() == s.to_multiset().insert(x),
    decreases s.len(),
{
    broadcast use {vstd::seq_lib::group_seq_properties, vstd::multiset::group_multiset_axioms};
    if s.len() == 0 {
        assert(insert_sorted(s, x) =~= seq![x]);
        assert(s =~= Seq::<u32>::empty());
    } else if x < s[0] {
        assert(insert_sorted(s, x) =~= seq![x] + s);
        vstd::seq_lib::lemma_multiset_commutative(seq![x], s);
    } else {
        let t = s.drop_first();
        assert(ascending(t)) by {
            assert forall|i: int, j: int| 0 <= i <= j < t.len() implies t[i] <= t[j] by {
                assert(t[i] == s[i + 1] && t[j] == s[j + 1]);
            }
        }
        lemma_insert_sorted_ascending(t, x);
        let r = insert_sorted(t, x);
        assert(insert_sorted(s, x) == seq![s[0]] + r);
        assert forall|i: int, j: int| 0 <= i <= j < r.len() + 1 implies #[trigger] (seq![s[0]] + r)[i] <= #[trigger] (seq![s[0]] + r)[j] by {
            if i == 0 && j > 0 {
                let e = r[j - 1];
                assert(r.to_multiset().contains(e));
                assert(t.to_multiset().insert(x).contains(e));
                if e != x {
                    assert(t.to_multiset().contains(e));
                    assert(t.contains(e));
                    let k = choose|k: int| 0 <= k < t.len() && t[k] == e;
                    assert(s[k + 1] == e);
                }
            }
        }
        vstd::seq_lib::lemma_multiset_commutative(seq![s[0]], r);
        vstd::seq_lib::lemma_multiset_commutative(seq![s[0]], t);
        assert(s =~= seq![s[0]] + t);
    }
}

/// The last rates read on a result screen, at most seven, oldest first; their
/// median smooths out misreadings.
pub struct ResultRateWindow {
    samples: VecDeque<u32>,
}

/// How many rates the result window keeps.
pub const RESULT_RATE_WINDOW: usize = 7;

impl ResultRateWindow {
    #[verifier::type_invariant]
    spec fn bounded(self) -> bool {
        self.samples@.len() <= RESULT_RATE_WINDOW
    }

    /// The rates kept, oldest first.
    pub closed spec fn samples(self) -> Seq<u32> {
        self.samples@
    }

    pub fn new() -> (res: Self)
        ensures
            res.samples() == Seq::<u32>::empty(),
    {
        ResultRateWindow { samples: VecDeque::new() }
    }

    /// Forgets the rates.
    pub fn clear(&mut self)
        ensures
            final(self).samples() == Seq::<u32>::empty(),
    {
        self.samples = VecDeque::new();
    }

    /// Keeps `rate_centi`; the oldest rate leaves when there are more than seven.
    pub fn push(&mut self, rate_centi: u32)
        ensures
            final(self).samples() == (if old(self).samples().len() >= RESULT_RATE_WINDOW {
                old(self).samples().push(rate_centi).drop_first()
            } else {
                old(self).samples().push(rate_centi)
            }),
    {
        proof {
            use_type_invariant(&*self);
        }
        let mut s: VecDeque<u32> = VecDeque::new();
        std::mem::swap(&mut s, &mut self.samples);
        s.push_back(rate_centi);
        if s.len() > RESULT_RATE_WINDOW {
            s.pop_front();
            assert(s@ =~= old(self).samples@.push(rate_centi).drop_first());
        }
        self.samples = s;
    }

    /// The median of the rates kept: the middle one (the upper of the two middle
    /// ones for an even count) of the rates sorted; none while no rate is kept.
    pub fn median(&self) -> (res: Option<u32>)
        ensures
            res == (if self.samples().len() == 0 {
                None
            } else {
                Some(sorted_seq(self.samples())[(self.samples().len() / 2) as int])
            }),
    {
        proof {
            use_type_invariant(self);
        }
        let n = self.samples.len();
        if n == 0 {
            return None;
        }
        let mut sorted: Vec<u32> = Vec::new();
        let mut i: usize = 0;
        while i < n
            invariant
                n == self.samples@.len(),
                i <= n,
                sorted@ == sorted_seq(self.samples@.take(i as int)),
                sorted@.len() == i,
            decreases n - i,
        {
            let x = self.samples[i];
            assert(self.samples@.take(i + 1).drop_last() == self.samples@.take(i as int));
            let mut p: usize = 0;
            while p < sorted.len() && !(x < sorted[p])
                invariant
                    p <= sorted@.len(),
                    forall|j: int| 0 <= j < p ==> !(x < #[trigger] sorted@[j]),
                decreases sorted@.len() - p,
            {
                p += 1;
            }
            proof {
                lemma_insert_sorted_at(sorted@, x, p as int);
            }
            let ghost before = sorted@;
            sorted.insert(p, x);
            assert(sorted@ =~= before.take(p as int).push(x) + before.skip(p as int));
            proof {
                lemma_sorted_len(self.samples@.take(i + 1));
            }
            i += 1;
        }
        assert(self.samples@.take(n as int) == self.samples@);
        Some(sorted[n / 2])
    }
}

proof fn lemma_sorted_len(s: Seq<u32>)
    ensures
        sorted_seq(s).len() == s.len(),
    decreases s.len(),
{
    if s.len() > 0 {
        lemma_sorted_len(s.drop_last());
        lemma_insert_sorted_len(sorted_seq(s.drop_last()), s.last());
    }
}

proof fn lemma_insert_sorted_len(s: Seq<u32>, x: u32)
    ensures
        insert_sorted(s, x).len() == s.len() + 1,
    decreases s.len(),
{
    if s.len() > 0 && !(x < s[0]) {
        lemma_insert_sorted_len(s.drop_first(), x);
    }
}

/// The sorted rates are the rates, in ascending order.
pub proof fn lemma_sorted_seq(s: Seq<u32>)
    ensures
        ascending(sorted_seq(s)),
        sorted_seq(s).to_multiset() == s.to_multiset(),
    decreases s.len(),
{
    broadcast use {vstd::seq_lib::group_seq_properties, vstd::multiset::group_multiset_axioms};
    if s.len() == 0 {
    } else {
        lemma_sorted_seq(s.drop_last());
        lemma_insert_sorted_ascending(sorted_seq(s.drop_last()), s.last());
        assert(s =~= s.drop_last().push(s.last()));
    }
}


/// A stable record for another song, mode or difficulty than the last one
/// published, or on the other kind of screen, is published whenever its rate
/// allows it to be.
pub proof fn lemma_new_chart_is_published(
    scene: SceneType,
    is_result: bool,
    current: Option<PlayContext>,
    s: PlayContext,
    last: VerifiedPlayEvent,
)
    requires
        spec_should_emit(s, is_result),
        last.song_id != s.song_id || last.mode != s.mode || last.diff != s.diff
            || last.is_result_screen != is_result,
    ensures
        spec_session_and_event(scene, is_result, current, Some(s), Some(last)).1 == Some(
            VerifiedPlayEvent {
                song_id: s.song_id,
                mode: s.mode,
                diff: s.diff,
                rate_centi: s.rate_centi,
                is_max_combo: s.is_max_combo,
                is_result_screen: is_result,
            },
        ),
{
}

/// On a result screen, a record of the same chart is published again exactly when
/// it improved: a higher rate, or the MAX COMBO mark newly reached.
pub proof fn lemma_result_republished_on_improvement(last: VerifiedPlayEvent, cur: VerifiedPlayEvent)
    requires
        last.song_id == cur.song_id,
        last.mode == cur.mode,
        last.diff == cur.diff,
        last.is_result_screen,
        cur.is_result_screen,
    ensures
        spec_should_fire(Some(last), cur) == (cur.rate_centi > last.rate_centi
            || (cur.is_max_combo && !last.is_max_combo)),
{
}

} // verus!
