use vstd::prelude::*;
use crate::capture_layout::CaptureErrorAction;
use crate::focus::{
    capture_target_resized, effective_focus, FocusLoss, FocusObservation, FocusSource, FocusState,
    LinuxFocusPolicy, PresentationObservation, WindowQueryScheduler,
};
use crate::geometry::{WindowRect, WindowSnapshot};

verus! {

/// How fast the detection loop should poll.
#[derive(Clone, Copy, Debug, PartialEq, Eq, Hash, Structural)]
pub enum SleepHint {
    Active,
    Relaxed,
}

/// What the detection loop does after one tick.
#[derive(Clone, Copy, Debug, PartialEq, Eq, Structural)]
pub enum TickResult {
    Continue,
    Reconnect,
    Stop,
}

/// Why the current detection state was discarded.
#[derive(Clone, Copy, Debug, PartialEq, Eq, Structural)]
pub enum InterruptReason {
    TargetChanged,
    Background,
    FocusUnknown,
    TargetResized,
    WindowLost,
    CaptureFailed,
    ConnectionLost,
}

/// The side effects that the detection loop performs for one decision.
#[derive(Clone, Copy, Debug, PartialEq, Eq, Structural)]
pub struct SessionActions {
    /// Reset the detection pipeline's state.
    pub reset_pipeline: bool,
    /// Publish a "detecting" output that clears the verified state.
    pub send_detecting: bool,
    /// Ask the overlay to repaint.
    pub request_repaint: bool,
    /// Signal that the game window was found.
    pub game_found: bool,
    /// Start a new telemetry log.
    pub roll_telemetry_log: bool,
}

pub open spec fn no_actions() -> SessionActions {
    SessionActions {
        reset_pipeline: false,
        send_detecting: false,
        request_repaint: false,
        game_found: false,
        roll_telemetry_log: false,
    }
}

fn nothing() -> (res: SessionActions)
    ensures
        res == no_actions(),
{
    SessionActions {
        reset_pipeline: false,
        send_detecting: false,
        request_repaint: false,
        game_found: false,
        roll_telemetry_log: false,
    }
}

/// The detection loop's view of the game window across ticks.
#[derive(Clone, Copy, Debug, PartialEq, Eq, Structural)]
pub struct DetectionSession {
    /// The window was present on the last tick.
    pub was_found: bool,
    /// The window was foreground on the last tick.
    pub is_foreground: bool,
    /// A "detecting" output was already published for the current capture
    /// failure streak.
    pub capture_failure_active: bool,
}

impl DetectionSession {
    pub fn new() -> (res: Self)
        ensures
            !res.was_found,
            !res.is_foreground,
            !res.capture_failure_active,
    {
        DetectionSession { was_found: false, is_foreground: false, capture_failure_active: false }
    }

    /// The window is present: returns whether to capture it (only when it is
    /// foreground). On first sight the window is announced and a new telemetry log
    /// starts; a window found in the background publishes a "detecting" output once;
    /// the overlay repaints on first sight and whenever the foreground state flips.
    pub fn on_window_found(&mut self, foreground: bool) -> (res: (bool, SessionActions))
        ensures
            res.0 == foreground,
            final(self).was_found,
            final(self).is_foreground == foreground,
            final(self).capture_failure_active == old(self).capture_failure_active,
            res.1 == (SessionActions {
                reset_pipeline: false,
                send_detecting: !old(self).was_found && !foreground,
                request_repaint: !old(self).was_found || foreground != old(self).is_foreground,
                game_found: !old(self).was_found,
                roll_telemetry_log: !old(self).was_found,
            }),
    {
        let first = !self.was_found;
        let actions = SessionActions {
            reset_pipeline: false,
            send_detecting: first && !foreground,
            request_repaint: first || foreground != self.is_foreground,
            game_found: first,
            roll_telemetry_log: first,
        };
        self.was_found = true;
        self.is_foreground = foreground;
        (foreground, actions)
    }

    /// Capture was interrupted: the pipeline always resets, and a "detecting" output
    /// (with a repaint) is published only once per failure streak.
    pub fn on_capture_interrupted(&mut self) -> (res: SessionActions)
        ensures
            final(self).capture_failure_active,
            final(self).was_found == old(self).was_found,
            final(self).is_foreground == old(self).is_foreground,
            res == (SessionActions {
                reset_pipeline: true,
                send_detecting: !old(self).capture_failure_active,
                request_repaint: !old(self).capture_failure_active,
                game_found: false,
                roll_telemetry_log: false,
            }),
    {
        let first = !self.capture_failure_active;
        self.capture_failure_active = true;
        SessionActions {
            reset_pipeline: true,
            send_detecting: first,
            request_repaint: first,
            game_found: false,
            roll_telemetry_log: false,
        }
    }

    /// Capture cannot work: the pipeline resets and a "detecting" output carrying
    /// the error is published.
    pub fn on_capture_fatal(&mut self) -> (res: SessionActions)
        ensures
            *final(self) == *old(self),
            res == (SessionActions {
                reset_pipeline: true,
                send_detecting: true,
                request_repaint: true,
                game_found: false,
                roll_telemetry_log: false,
            }),
    {
        SessionActions {
            reset_pipeline: true,
            send_detecting: true,
            request_repaint: true,
            game_found: false,
            roll_telemetry_log: false,
        }
    }

    /// The window is gone (X11 loop): if it was present, capture counts as
    /// interrupted.
    pub fn on_linux_window_missing(&mut self) -> (res: SessionActions)
        ensures
            !final(self).was_found,
            !final(self).is_foreground,
            final(self).capture_failure_active == (old(self).capture_failure_active || old(self).was_found),
            res == (if old(self).was_found {
                SessionActions {
                    reset_pipeline: true,
                    send_detecting: !old(self).capture_failure_active,
                    request_repaint: !old(self).capture_failure_active,
                    game_found: false,
                    roll_telemetry_log: false,
                }
            } else {
                no_actions()
            }),
    {
        let actions = if self.was_found {
            self.on_capture_interrupted()
        } else {
            nothing()
        };
        self.was_found = false;
        self.is_foreground = false;
        actions
    }

    /// The window is gone (Windows loop): if it was present, a "detecting" output
    /// is published.
    pub fn on_window_missing(&mut self) -> (res: SessionActions)
        ensures
            !final(self).was_found,
            !final(self).is_foreground,
            final(self).capture_failure_active == old(self).capture_failure_active,
            res == (SessionActions {
                reset_pipeline: false,
                send_detecting: old(self).was_found,
                request_repaint: old(self).was_found,
                game_found: false,
                roll_telemetry_log: false,
            }),
    {
        let found = self.was_found;
        self.was_found = false;
        self.is_foreground = false;
        SessionActions {
            reset_pipeline: false,
            send_detecting: found,
            request_repaint: found,
            game_found: false,
            roll_telemetry_log: false,
        }
    }

    /// A capture error, handled as the backend asks: retry the next tick, reconnect,
    /// or stop for good.
    pub fn handle_capture_error(&mut self, action: CaptureErrorAction) -> (res: (TickResult, SessionActions))
        ensures
            final(self).was_found == old(self).was_found,
            final(self).is_foreground == old(self).is_foreground,
            match action {
                CaptureErrorAction::Retry => res.0 == TickResult::Continue,
                CaptureErrorAction::Reconnect => res.0 == TickResult::Reconnect,
                CaptureErrorAction::Stop => res.0 == TickResult::Stop,
            },
            action == CaptureErrorAction::Stop ==> res.1 == (SessionActions {
                reset_pipeline: true,
                send_detecting: true,
                request_repaint: true,
                game_found: false,
                roll_telemetry_log: false,
            }) && final(self).capture_failure_active == old(self).capture_failure_active,
            action != CaptureErrorAction::Stop ==> res.1 == (SessionActions {
                reset_pipeline: true,
                send_detecting: !old(self).capture_failure_active,
                request_repaint: !old(self).capture_failure_active,
                game_found: false,
                roll_telemetry_log: false,
            }) && final(self).capture_failure_active,
    {
        match action {
            CaptureErrorAction::Retry => (TickResult::Continue, self.on_capture_interrupted()),
            CaptureErrorAction::Reconnect => (TickResult::Reconnect, self.on_capture_interrupted()),
            CaptureErrorAction::Stop => (TickResult::Stop, self.on_capture_fatal()),
        }
    }

    /// A successful capture, or a change of the captured window's identity, focus
    /// or fullscreen state, ends the failure streak.
    pub fn end_failure_streak(&mut self)
        ensures
            !final(self).capture_failure_active,
            final(self).was_found == old(self).was_found,
            final(self).is_foreground == old(self).is_foreground,
    {
        self.capture_failure_active = false;
    }
}

/// How long the detection loop sleeps before its next tick.
#[derive(Clone, Copy, Debug, PartialEq, Eq, Structural)]
pub enum SleepPlan {
    /// This many milliseconds.
    Millis(u64),
    /// The idle time of the settings, while no game window is found.
    Idle,
}

impl DetectionSession {
    /// The sleep before the next tick: while the window is foreground, the active
    /// sleep, or one second when detection may relax; while it is in the
    /// background, the background sleep; without a window, the idle time.
    pub fn sleep_plan(&self, hint: SleepHint, active_sleep_ms: u64, background_sleep_ms: u64) -> (res:
        SleepPlan)
        ensures
            res == if self.was_found {
                if self.is_foreground {
                    match hint {
                        SleepHint::Active => SleepPlan::Millis(active_sleep_ms),
                        SleepHint::Relaxed => SleepPlan::Millis(1000),
                    }
                } else {
                    SleepPlan::Millis(background_sleep_ms)
                }
            } else {
                SleepPlan::Idle
            },
    {
        if self.was_found {
            if self.is_foreground {
                match hint {
                    SleepHint::Active => SleepPlan::Millis(active_sleep_ms),
                    SleepHint::Relaxed => SleepPlan::Millis(1000),
                }
            } else {
                SleepPlan::Millis(background_sleep_ms)
            }
        } else {
            SleepPlan::Idle
        }
    }
}

/// The captured window's identity, focus or fullscreen state differs between two
/// ticks (its position and size do not count).
pub open spec fn spec_capture_state_changed(previous: Option<WindowSnapshot>, current: Option<WindowSnapshot>) -> bool {
    match (previous, current) {
        (Some(p), Some(c)) => p.window != c.window || p.foreground != c.foreground
            || p.fullscreen != c.fullscreen,
        (None, None) => false,
        _ => true,
    }
}

/// The captured window's identity, focus or fullscreen state differs between two
/// ticks (its position and size do not count).
pub fn capture_state_changed(previous: Option<WindowSnapshot>, current: Option<WindowSnapshot>) -> (res: bool)
    ensures
        res == spec_capture_state_changed(previous, current),
{
    match (previous, current) {
        (Some(p), Some(c)) => p.window != c.window || p.foreground != c.foreground
            || p.fullscreen != c.fullscreen,
        (None, None) => false,
        _ => true,
    }
}

/// Why a tick interrupts capture, if it does: a new target window (while a window
/// was already being tracked) comes first, then a focus loss, then a resize.
pub open spec fn spec_interruption_reason(
    target_changed: bool,
    has_snapshot: bool,
    was_found: bool,
    focus_loss: Option<FocusLoss>,
    target_resized: bool,
) -> Option<InterruptReason> {
    if target_changed && has_snapshot && was_found {
        Some(InterruptReason::TargetChanged)
    } else {
        match focus_loss {
            Some(FocusLoss::Background) => Some(InterruptReason::Background),
            Some(FocusLoss::Unknown) => Some(InterruptReason::FocusUnknown),
            None => if target_resized {
                Some(InterruptReason::TargetResized)
            } else {
                None
            },
        }
    }
}

/// Why this tick interrupts capture, if it does: a new target window (while a
/// window was already being tracked) comes first, then a focus loss, then a
/// resize.
pub fn interruption_reason(
    target_changed: bool,
    has_snapshot: bool,
    was_found: bool,
    focus_loss: Option<FocusLoss>,
    target_resized: bool,
) -> (res: Option<InterruptReason>)
    ensures
        res == spec_interruption_reason(target_changed, has_snapshot, was_found, focus_loss, target_resized),
{
    if target_changed && has_snapshot && was_found {
        Some(InterruptReason::TargetChanged)
    } else {
        match focus_loss {
            Some(FocusLoss::Background) => Some(InterruptReason::Background),
            Some(FocusLoss::Unknown) => Some(InterruptReason::FocusUnknown),
            None => if target_resized {
                Some(InterruptReason::TargetResized)
            } else {
                None
            },
        }
    }
}

/// The session after a capture interruption, and what the loop does for it.
pub open spec fn spec_interrupted(s: DetectionSession) -> (DetectionSession, SessionActions) {
    (
        DetectionSession {
            was_found: s.was_found,
            is_foreground: s.is_foreground,
            capture_failure_active: true,
        },
        SessionActions {
            reset_pipeline: true,
            send_detecting: !s.capture_failure_active,
            request_repaint: !s.capture_failure_active,
            game_found: false,
            roll_telemetry_log: false,
        },
    )
}

/// The session after the window was found, and what the loop does for it.
pub open spec fn spec_found(s: DetectionSession, foreground: bool) -> (DetectionSession, SessionActions) {
    (
        DetectionSession {
            was_found: true,
            is_foreground: foreground,
            capture_failure_active: s.capture_failure_active,
        },
        SessionActions {
            reset_pipeline: false,
            send_detecting: !s.was_found && !foreground,
            request_repaint: !s.was_found || foreground != s.is_foreground,
            game_found: !s.was_found,
            roll_telemetry_log: !s.was_found,
        },
    )
}

/// The session after the window went missing in the X11 loop, and what the loop
/// does for it.
pub open spec fn spec_linux_missing(s: DetectionSession) -> (DetectionSession, SessionActions) {
    (
        DetectionSession {
            was_found: false,
            is_foreground: false,
            capture_failure_active: s.capture_failure_active || s.was_found,
        },
        if s.was_found {
            spec_interrupted(s).1
        } else {
            no_actions()
        },
    )
}

/// The session after a capture error handled as `action` asks, what the loop
/// does for it, and how the tick ends.
pub open spec fn spec_capture_error(s: DetectionSession, action: CaptureErrorAction) -> (TickResult, DetectionSession, SessionActions) {
    match action {
        CaptureErrorAction::Retry => (TickResult::Continue, spec_interrupted(s).0, spec_interrupted(s).1),
        CaptureErrorAction::Reconnect => (TickResult::Reconnect, spec_interrupted(s).0, spec_interrupted(s).1),
        CaptureErrorAction::Stop => (TickResult::Stop, s, spec_fatal_actions()),
    }
}

/// What the loop does when capture cannot go on: reset, publish the error, repaint.
pub open spec fn spec_fatal_actions() -> SessionActions {
    SessionActions {
        reset_pipeline: true,
        send_detecting: true,
        request_repaint: true,
        game_found: false,
        roll_telemetry_log: false,
    }
}

/// What the X11 detection loop keeps between ticks.
#[derive(Clone, Copy, Debug, PartialEq, Eq, Structural)]
pub struct LinuxTickState {
    /// The game window as last observed, focus and fullscreen state included.
    pub window_snapshot: Option<WindowSnapshot>,
    /// The X11 focus observation of the last query.
    pub focus_observation: Option<FocusObservation>,
    pub focus_policy: LinuxFocusPolicy,
    pub scheduler: WindowQueryScheduler,
    pub session: DetectionSession,
}

/// What a tick goes on to do once the window has been observed.
#[derive(Clone, Copy, Debug, PartialEq, Eq, Structural)]
pub enum LinuxTickStep {
    /// No game window: nothing is captured.
    WindowMissing,
    /// The window is there but not in the foreground: nothing is captured.
    Background,
    /// Capture this area of the window.
    Capture(WindowRect),
}

/// The decisions of one tick of the X11 loop, before capturing.
#[derive(Clone, Copy, Debug, PartialEq, Eq, Structural)]
pub struct LinuxTickPlan {
    /// Why capture was interrupted on this tick, if it was.
    pub interrupt: Option<InterruptReason>,
    /// What the loop does for the interruption.
    pub interrupt_actions: SessionActions,
    pub step: LinuxTickStep,
    /// What the loop does for the window's presence or absence.
    pub step_actions: SessionActions,
    /// The window snapshot differs from the previous tick's, so the overlay
    /// repaints after a successful capture.
    pub overlay_snapshot_changed: bool,
}

/// The window's identity in a snapshot.
pub open spec fn spec_window_of(s: Option<WindowSnapshot>) -> Option<u64> {
    match s {
        Some(w) => Some(w.window),
        None => None,
    }
}

/// The snapshot and focus observation a tick works with: those of this tick's
/// query, when the window was queried, else the ones kept from before.
pub open spec fn spec_tick_inputs(s: LinuxTickState, query: Option<Option<(WindowSnapshot, FocusObservation)>>) -> (Option<WindowSnapshot>, Option<FocusObservation>) {
    match query {
        None => (s.window_snapshot, s.focus_observation),
        Some(None) => (None, None),
        Some(Some(found)) => (Some(found.0), Some(found.1)),
    }
}

/// The focus policy, the snapshot with its focus and fullscreen state brought up
/// to date, and the focus loss, after a tick's focus observation. The compositor's
/// observation, when there is one, takes precedence over the X11 one and supplies
/// the commit time and the fullscreen state; without a window or an observation
/// the policy starts over.
pub open spec fn spec_focus_stage(
    policy: LinuxFocusPolicy,
    snapshot: Option<WindowSnapshot>,
    focus: Option<FocusObservation>,
    presentation: Option<PresentationObservation>,
    now_ns: u64,
) -> (LinuxFocusPolicy, Option<WindowSnapshot>, Option<FocusLoss>) {
    match (snapshot, focus) {
        (Some(snap), Some(x11)) => {
            let obs = match presentation {
                None => x11,
                Some(p) => FocusObservation {
                    state: p.focus,
                    source: FocusSource::WaylandForeignToplevel,
                    generation: p.generation,
                },
            };
            let committed = match presentation {
                Some(p) => p.committed_at_ns,
                None => now_ns,
            };
            let loss = policy.spec_loss(obs, committed, now_ns);
            let fg = obs.state == FocusState::Focused || (policy.foreground && loss is None);
            let fullscreen = match presentation {
                Some(p) => match p.fullscreen {
                    Some(f) => f,
                    None => snap.fullscreen,
                },
                None => snap.fullscreen,
            };
            (
                LinuxFocusPolicy {
                    observed: Some(obs.state),
                    observed_since_ns: policy.spec_since(obs, committed, now_ns),
                    foreground: fg,
                },
                Some(WindowSnapshot { window: snap.window, rect: snap.rect, foreground: fg, fullscreen }),
                loss,
            )
        },
        _ => (LinuxFocusPolicy { observed: None, observed_since_ns: None, foreground: false }, snapshot, None),
    }
}

/// The query scheduler after recording a query result at `now_ns`.
pub open spec fn spec_scheduled(s: WindowQueryScheduler, rect: Option<WindowRect>, foreground: bool, now_ns: u64) -> WindowQueryScheduler {
    WindowQueryScheduler {
        last_query_ns: if s.enabled { now_ns } else { s.last_query_ns },
        cached_rect: rect,
        cached_foreground: foreground,
        is_window_moving: if !s.enabled {
            s.is_window_moving
        } else {
            match (s.cached_rect, rect) {
                (Some(p), Some(c)) => p.left != c.left || p.top != c.top,
                _ => false,
            }
        },
        enabled: s.enabled,
    }
}

/// The state after one tick of the X11 loop up to the capture, and its plan.
///
/// A query (when one was due) replaces the snapshot and focus observation; a new
/// window, or a resize of the same one, is noted. The focus stage brings the
/// snapshot's focus and fullscreen state up to date, and the scheduler records the
/// query. A change of the window's identity, focus or fullscreen state ends the
/// capture failure streak. Capture is then interrupted for a new target, a focus
/// loss or a resize, in that order; and the window is either missing, in the
/// background, or captured.
pub open spec fn spec_linux_tick(
    s: LinuxTickState,
    query: Option<Option<(WindowSnapshot, FocusObservation)>>,
    presentation: Option<PresentationObservation>,
    now_ns: u64,
) -> (LinuxTickState, LinuxTickPlan) {
    let prev = s.window_snapshot;
    let inputs = spec_tick_inputs(s, query);
    let target_changed = query is Some && spec_window_of(prev) != spec_window_of(inputs.0);
    let target_resized = query is Some && match (prev, inputs.0) {
        (Some(p), Some(c)) => p.window == c.window && (p.rect.width != c.rect.width
            || p.rect.height != c.rect.height),
        _ => false,
    };
    let focus = spec_focus_stage(s.focus_policy, inputs.0, inputs.1, presentation, now_ns);
    let snap = focus.1;
    let scheduler = if query is Some {
        spec_scheduled(
            s.scheduler,
            match snap {
                Some(w) => Some(w.rect),
                None => None,
            },
            match snap {
                Some(w) => w.foreground,
                None => false,
            },
            now_ns,
        )
    } else {
        s.scheduler
    };
    let session1 = if spec_capture_state_changed(prev, snap) {
        DetectionSession {
            was_found: s.session.was_found,
            is_foreground: s.session.is_foreground,
            capture_failure_active: false,
        }
    } else {
        s.session
    };
    let reason = spec_interruption_reason(target_changed, snap is Some, session1.was_found, focus.2, target_resized);
    let interrupted = if reason is Some {
        spec_interrupted(session1)
    } else {
        (session1, no_actions())
    };
    let (session3, step, step_actions) = match snap {
        None => (spec_linux_missing(interrupted.0).0, LinuxTickStep::WindowMissing, spec_linux_missing(interrupted.0).1),
        Some(w) => (
            spec_found(interrupted.0, w.foreground).0,
            if w.foreground {
                LinuxTickStep::Capture(w.rect)
            } else {
                LinuxTickStep::Background
            },
            spec_found(interrupted.0, w.foreground).1,
        ),
    };
    (
        LinuxTickState {
            window_snapshot: snap,
            focus_observation: inputs.1,
            focus_policy: focus.0,
            scheduler,
            session: session3,
        },
        LinuxTickPlan {
            interrupt: reason,
            interrupt_actions: interrupted.1,
            step,
            step_actions,
            overlay_snapshot_changed: prev != snap,
        },
    )
}

impl LinuxTickState {
    /// No window, no observation, nothing found; the first query is due at once.
    pub fn new(now_ns: u64) -> (res: Self)
        ensures
            res.window_snapshot is None,
            res.focus_observation is None,
            res.focus_policy.observed is None,
            res.focus_policy.observed_since_ns is None,
            !res.focus_policy.foreground,
            res.scheduler == (WindowQueryScheduler {
                last_query_ns: if now_ns >= 5_000_000_000 { (now_ns - 5_000_000_000) as u64 } else { now_ns },
                cached_rect: None,
                cached_foreground: false,
                is_window_moving: false,
                enabled: true,
            }),
            !res.session.was_found,
            !res.session.is_foreground,
            !res.session.capture_failure_active,
    {
        LinuxTickState {
            window_snapshot: None,
            focus_observation: None,
            focus_policy: LinuxFocusPolicy::new(),
            scheduler: WindowQueryScheduler::new(true, now_ns),
            session: DetectionSession::new(),
        }
    }

    /// One tick of the X11 loop up to the capture. `query` is `None` when no window
    /// query was due, else the query's result: the game window and its X11 focus
    /// observation, if there is a game window. `presentation` is the compositor's
    /// latest observation, if any. The plan says why capture was interrupted, if it
    /// was, and whether to capture; the loop performs its actions in that order.
    pub fn step(
        &mut self,
        query: Option<Option<(WindowSnapshot, FocusObservation)>>,
        presentation: Option<PresentationObservation>,
        now_ns: u64,
    ) -> (res: LinuxTickPlan)
        ensures
            (*final(self), res) == spec_linux_tick(*old(self), query, presentation, now_ns),
            res.step matches LinuxTickStep::Capture(r) ==> (final(self).window_snapshot matches Some(w)
                && w.foreground && w.rect == r),
    {
        let previous = self.window_snapshot;
        let queried = query.is_some();
        let mut target_changed = false;
        let mut target_resized = false;
        if let Some(found) = query {
            let snapshot = match found {
                Some(f) => Some(f.0),
                None => None,
            };
            self.focus_observation = match found {
                Some(f) => Some(f.1),
                None => None,
            };
            let before = match previous {
                Some(w) => Some(w.window),
                None => None,
            };
            let after = match snapshot {
                Some(w) => Some(w.window),
                None => None,
            };
            target_changed = before != after;
            target_resized = capture_target_resized(previous, snapshot);
            self.window_snapshot = snapshot;
        }
        let focus_loss = match (self.window_snapshot, self.focus_observation) {
            (Some(snap), Some(x11)) => {
                let observation = effective_focus(x11, presentation);
                let committed_at = match presentation {
                    Some(p) => p.committed_at_ns,
                    None => now_ns,
                };
                let fullscreen = match presentation {
                    Some(p) => match p.fullscreen {
                        Some(f) => f,
                        None => snap.fullscreen,
                    },
                    None => snap.fullscreen,
                };
                let (foreground, loss) = self.focus_policy.update(observation, committed_at, now_ns);
                self.window_snapshot = Some(WindowSnapshot {
                    window: snap.window,
                    rect: snap.rect,
                    foreground,
                    fullscreen,
                });
                loss
            },
            _ => {
                self.focus_policy.reset();
                None
            },
        };
        if queried {
            let rect = match self.window_snapshot {
                Some(w) => Some(w.rect),
                None => None,
            };
            let foreground = match self.window_snapshot {
                Some(w) => w.foreground,
                None => false,
            };
            self.scheduler.update(rect, foreground, now_ns);
        }
        if capture_state_changed(previous, self.window_snapshot) {
            self.session.end_failure_streak();
        }
        let overlay_snapshot_changed = previous != self.window_snapshot;
        let reason = interruption_reason(
            target_changed,
            self.window_snapshot.is_some(),
            self.session.was_found,
            focus_loss,
            target_resized,
        );
        let interrupt_actions = if reason.is_some() {
            self.session.on_capture_interrupted()
        } else {
            nothing()
        };
        let (step, step_actions) = match self.window_snapshot {
            None => (LinuxTickStep::WindowMissing, self.session.on_linux_window_missing()),
            Some(w) => {
                let (capture, actions) = self.session.on_window_found(w.foreground);
                if capture {
                    (LinuxTickStep::Capture(w.rect), actions)
                } else {
                    (LinuxTickStep::Background, actions)
                }
            },
        };
        LinuxTickPlan { interrupt: reason, interrupt_actions, step, step_actions, overlay_snapshot_changed }
    }

    /// The window query failed: the error is published and the loop reconnects.
    pub fn on_query_failed(&mut self) -> (res: (TickResult, SessionActions))
        ensures
            *final(self) == *old(self),
            res == (TickResult::Reconnect, spec_fatal_actions()),
    {
        let actions = self.session.on_capture_fatal();
        (TickResult::Reconnect, actions)
    }

    /// The query found `found`, but the capture backend could not take it as its
    /// target: the focus observation is kept, the snapshot is not, and the error is
    /// handled as the backend asks.
    pub fn on_target_failed(&mut self, found: Option<(WindowSnapshot, FocusObservation)>, action: CaptureErrorAction) -> (res: (TickResult, SessionActions))
        ensures
            final(self).focus_observation == (match found {
                Some(f) => Some(f.1),
                None => None::<FocusObservation>,
            }),
            final(self).window_snapshot == old(self).window_snapshot,
            final(self).focus_policy == old(self).focus_policy,
            final(self).scheduler == old(self).scheduler,
            (res.0, final(self).session, res.1) == spec_capture_error(old(self).session, action),
    {
        self.focus_observation = match found {
            Some(f) => Some(f.1),
            None => None,
        };
        self.session.handle_capture_error(action)
    }

    /// The capture planned by `step` finished: `failure` is `None` when it
    /// succeeded, which ends the failure streak, else the backend's answer to the
    /// error.
    pub fn on_capture_result(&mut self, failure: Option<CaptureErrorAction>) -> (res: (TickResult, SessionActions))
        ensures
            final(self).window_snapshot == old(self).window_snapshot,
            final(self).focus_observation == old(self).focus_observation,
            final(self).focus_policy == old(self).focus_policy,
            final(self).scheduler == old(self).scheduler,
            match failure {
                None => res == (TickResult::Continue, no_actions()) && final(self).session == (DetectionSession {
                    was_found: old(self).session.was_found,
                    is_foreground: old(self).session.is_foreground,
                    capture_failure_active: false,
                }),
                Some(action) => (res.0, final(self).session, res.1) == spec_capture_error(old(self).session, action),
            },
    {
        match failure {
            None => {
                self.session.end_failure_streak();
                (TickResult::Continue, nothing())
            },
            Some(action) => self.session.handle_capture_error(action),
        }
    }
}

} // verus!
