use vstd::prelude::*;
use crate::geometry::{WindowRect, WindowSnapshot};

verus! {

/// Nanoseconds a background observation must last before capture stops.
pub const BACKGROUND_DEBOUNCE_NS: u64 = 300_000_000;

/// Nanoseconds an unknown-focus observation must last before capture stops.
pub const UNKNOWN_GRACE_NS: u64 = 1_000_000_000;

/// Whether the game window has the input focus.
#[derive(Clone, Copy, Debug, PartialEq, Eq, Hash, Structural)]
pub enum FocusState {
    Focused,
    Background,
    Unknown,
}

/// Where a focus observation came from.
#[derive(Clone, Copy, Debug, PartialEq, Eq, Hash, Structural)]
pub enum FocusSource {
    EwmhActiveWindow,
    WaylandForeignToplevel,
}

/// One focus observation; `generation` numbers the observations of a source.
#[derive(Clone, Copy, Debug, PartialEq, Eq, Hash, Structural)]
pub struct FocusObservation {
    pub state: FocusState,
    pub source: FocusSource,
    pub generation: u64,
}

/// An observation from the compositor: focus, fullscreen state when known, and
/// when it was committed (nanoseconds on the worker's clock).
#[derive(Clone, Copy, Debug, PartialEq, Eq, Hash, Structural)]
pub struct PresentationObservation {
    pub focus: FocusState,
    pub fullscreen: Option<bool>,
    pub generation: u64,
    pub committed_at_ns: u64,
}

/// Why capture stopped after the window lost the focus.
#[derive(Clone, Copy, Debug, PartialEq, Eq, Hash, Structural)]
pub enum FocusLoss {
    Background,
    Unknown,
}

/// Debounces focus observations: the window counts as foreground from the first
/// focused observation until a background observation has lasted the debounce
/// time, or an unknown one the grace time.
#[derive(Clone, Copy, Debug, PartialEq, Eq, Structural)]
pub struct LinuxFocusPolicy {
    pub observed: Option<FocusState>,
    pub observed_since_ns: Option<u64>,
    pub foreground: bool,
}

/// Time since the current observation started, zero if it starts in the future.
pub open spec fn spec_elapsed(since: Option<u64>, now: u64) -> int {
    match since {
        Some(t) => if now >= t { now - t } else { 0 },
        None => 0,
    }
}

impl LinuxFocusPolicy {
    /// Nothing observed, not foreground.
    pub fn new() -> (res: Self)
        ensures
            res.observed is None,
            res.observed_since_ns is None,
            !res.foreground,
    {
        LinuxFocusPolicy { observed: None, observed_since_ns: None, foreground: false }
    }

    /// The start of the observation that `update` records for `obs`: it is kept
    /// while the observed state stays the same, and restarts, at the commit time or
    /// now if that is earlier, when the state changes.
    pub open spec fn spec_since(self, obs: FocusObservation, committed_at_ns: u64, now_ns: u64) -> Option<u64> {
        if self.observed == Some(obs.state) {
            self.observed_since_ns
        } else {
            Some(if committed_at_ns <= now_ns { committed_at_ns } else { now_ns })
        }
    }

    /// The focus loss that `update` reports for `obs`.
    pub open spec fn spec_loss(self, obs: FocusObservation, committed_at_ns: u64, now_ns: u64) -> Option<FocusLoss> {
        let elapsed = spec_elapsed(self.spec_since(obs, committed_at_ns, now_ns), now_ns);
        if !self.foreground {
            None
        } else {
            match obs.state {
                FocusState::Focused => None,
                FocusState::Background => if elapsed >= BACKGROUND_DEBOUNCE_NS {
                    Some(FocusLoss::Background)
                } else {
                    None
                },
                FocusState::Unknown => if elapsed >= UNKNOWN_GRACE_NS {
                    Some(FocusLoss::Unknown)
                } else {
                    None
                },
            }
        }
    }

    /// Records `obs`, committed at `committed_at_ns` and seen at `now_ns`, and
    /// returns whether the window is foreground and the focus loss, if this
    /// observation ended the foreground period.
    pub fn update(&mut self, obs: FocusObservation, committed_at_ns: u64, now_ns: u64) -> (res: (bool, Option<FocusLoss>))
        ensures
            final(self).observed == Some(obs.state),
            final(self).observed_since_ns == old(self).spec_since(obs, committed_at_ns, now_ns),
            res.1 == old(self).spec_loss(obs, committed_at_ns, now_ns),
            final(self).foreground == (obs.state == FocusState::Focused
                || (old(self).foreground && res.1 is None)),
            res.0 == final(self).foreground,
    {
        let changed = match self.observed {
            Some(s) => s != obs.state,
            None => true,
        };
        if changed {
            self.observed = Some(obs.state);
            self.observed_since_ns = Some(if committed_at_ns <= now_ns { committed_at_ns } else { now_ns });
        }
        if obs.state == FocusState::Focused {
            self.foreground = true;
            return (true, None);
        }
        if !self.foreground {
            return (false, None);
        }
        let since = match self.observed_since_ns {
            Some(t) => t,
            None => now_ns,
        };
        let elapsed: u64 = if now_ns >= since { now_ns - since } else { 0 };
        let loss = match obs.state {
            FocusState::Focused => None,
            FocusState::Background => if elapsed >= BACKGROUND_DEBOUNCE_NS {
                Some(FocusLoss::Background)
            } else {
                None
            },
            FocusState::Unknown => if elapsed >= UNKNOWN_GRACE_NS {
                Some(FocusLoss::Unknown)
            } else {
                None
            },
        };
        if loss.is_some() {
            self.foreground = false;
        }
        (self.foreground, loss)
    }

    /// Forgets everything observed.
    pub fn reset(&mut self)
        ensures
            final(self).observed is None,
            final(self).observed_since_ns is None,
            !final(self).foreground,
    {
        *self = Self::new();
    }
}

/// A window that has not been focused since the policy started or lost the focus
/// stays non-foreground, and no loss is reported, until a focused observation.
pub proof fn lemma_unfocused_start_fails_closed(p: LinuxFocusPolicy, obs: FocusObservation, committed_at_ns: u64, now_ns: u64)
    requires
        !p.foreground,
        obs.state != FocusState::Focused,
    ensures
        p.spec_loss(obs, committed_at_ns, now_ns) is None,
{
}

/// A focus loss is reported once: the update that reports it leaves the window
/// non-foreground, and further unfocused observations report no loss.
pub proof fn lemma_loss_reported_once(p: LinuxFocusPolicy, obs: FocusObservation, committed_at_ns: u64, now_ns: u64)
    requires
        p.spec_loss(obs, committed_at_ns, now_ns) is Some,
    ensures
        obs.state != FocusState::Focused,
        p.foreground,
{
}

/// The capture target changed size: both observations are of the same window and
/// its width or height differs.
pub fn capture_target_resized(previous: Option<WindowSnapshot>, current: Option<WindowSnapshot>) -> (res: bool)
    ensures
        res == (match (previous, current) {
            (Some(p), Some(c)) => p.window == c.window
                && (p.rect.width != c.rect.width || p.rect.height != c.rect.height),
            _ => false,
        }),
{
    match (previous, current) {
        (Some(p), Some(c)) => p.window == c.window
            && (p.rect.width != c.rect.width || p.rect.height != c.rect.height),
        _ => false,
    }
}

/// The compositor's focus observation takes precedence over the X11 one.
pub fn effective_focus(x11: FocusObservation, presentation: Option<PresentationObservation>) -> (res: FocusObservation)
    ensures
        res == (match presentation {
            None => x11,
            Some(p) => FocusObservation {
                state: p.focus,
                source: FocusSource::WaylandForeignToplevel,
                generation: p.generation,
            },
        }),
{
    match presentation {
        None => x11,
        Some(p) => FocusObservation {
            state: p.focus,
            source: FocusSource::WaylandForeignToplevel,
            generation: p.generation,
        },
    }
}

/// Nanoseconds between window queries while the window is being dragged.
pub const QUERY_INTERVAL_MOVING_NS: u64 = 16_000_000;

/// Nanoseconds between window queries while the window stays put.
pub const QUERY_INTERVAL_STILL_NS: u64 = 300_000_000;

/// Nanoseconds between window queries while no window is known.
pub const QUERY_INTERVAL_MISSING_NS: u64 = 1_000_000_000;

/// Decides how often the window is queried: fast while it moves, slower while it
/// stays put, slowest while it is missing.
#[derive(Clone, Copy, Debug, PartialEq, Eq, Structural)]
pub struct WindowQueryScheduler {
    pub last_query_ns: u64,
    pub cached_rect: Option<WindowRect>,
    pub cached_foreground: bool,
    pub is_window_moving: bool,
    pub enabled: bool,
}

impl WindowQueryScheduler {
    /// A scheduler whose first query is due at once: the last query is taken to
    /// lie five seconds before `now_ns` (or at `now_ns` near the clock's start).
    pub fn new(enabled: bool, now_ns: u64) -> (res: Self)
        ensures
            res.last_query_ns == (if now_ns >= 5_000_000_000 { now_ns - 5_000_000_000 } else { now_ns as int }),
            res.cached_rect is None,
            !res.cached_foreground,
            !res.is_window_moving,
            res.enabled == enabled,
    {
        WindowQueryScheduler {
            last_query_ns: if now_ns >= 5_000_000_000 { now_ns - 5_000_000_000 } else { now_ns },
            cached_rect: None,
            cached_foreground: false,
            is_window_moving: false,
            enabled,
        }
    }

    pub open spec fn spec_query_interval(self) -> u64 {
        if !self.enabled {
            0
        } else if self.is_window_moving {
            QUERY_INTERVAL_MOVING_NS
        } else if self.cached_rect is Some {
            QUERY_INTERVAL_STILL_NS
        } else {
            QUERY_INTERVAL_MISSING_NS
        }
    }

    /// Nanoseconds that must pass between two queries.
    pub fn get_query_interval(&self) -> (res: u64)
        ensures
            res == self.spec_query_interval(),
    {
        if !self.enabled {
            0
        } else if self.is_window_moving {
            QUERY_INTERVAL_MOVING_NS
        } else if self.cached_rect.is_some() {
            QUERY_INTERVAL_STILL_NS
        } else {
            QUERY_INTERVAL_MISSING_NS
        }
    }

    /// A query is due once the interval has passed since the last one.
    pub fn should_query(&self, now_ns: u64) -> (res: bool)
        ensures
            res == (spec_elapsed(Some(self.last_query_ns), now_ns) >= self.spec_query_interval()),
    {
        let elapsed: u64 = if now_ns >= self.last_query_ns { now_ns - self.last_query_ns } else { 0 };
        elapsed >= self.get_query_interval()
    }

    /// Records a query result: the window is moving when its position changed since
    /// the previous result.
    pub fn update(&mut self, rect: Option<WindowRect>, foreground: bool, now_ns: u64)
        ensures
            final(self).cached_rect == rect,
            final(self).cached_foreground == foreground,
            final(self).enabled == old(self).enabled,
            final(self).last_query_ns == (if old(self).enabled { now_ns } else { old(self).last_query_ns }),
            final(self).is_window_moving == (if !old(self).enabled {
                old(self).is_window_moving
            } else {
                match (old(self).cached_rect, rect) {
                    (Some(p), Some(c)) => p.left != c.left || p.top != c.top,
                    _ => false,
                }
            }),
    {
        if !self.enabled {
            self.cached_rect = rect;
            self.cached_foreground = foreground;
            return;
        }
        self.last_query_ns = now_ns;
        self.is_window_moving = match (self.cached_rect, rect) {
            (Some(p), Some(c)) => p.left != c.left || p.top != c.top,
            _ => false,
        };
        self.cached_rect = rect;
        self.cached_foreground = foreground;
    }
}

} // verus!
