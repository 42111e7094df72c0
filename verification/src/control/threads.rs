//! Decisions of the worker threads, one step at a time.
//!
//! The threads themselves (sleeping, polling mpv, reading the process table)
//! run outside the library; each step below takes what they observed and
//! updates the shared [`HaltInfo`].
use vstd::prelude::*;

use super::halt::{cleared, every_hidden, hands_over, marked, some_ready, HaltInfo, HaltState};

verus! {

/// Whether the auto-pause handler currently holds a pause of its own.
#[derive(Debug, Clone, Copy, PartialEq, Eq, Structural)]
pub enum AutoPausePhase {
    /// Playing (or paused by someone else); checking visibility.
    Watching,
    /// Paused because every output was hidden; waiting for a frame.
    Holding,
}

/// `s` with the user-pause flag set to `v`.
pub open spec fn with_user_paused(s: HaltState, v: bool) -> HaltState {
    HaltState { user_paused: v, ..s }
}

/// `s` with the pause counter set to `v`.
pub open spec fn with_is_paused(s: HaltState, v: i32) -> HaltState {
    HaltState { is_paused: v, ..s }
}

/// `s` with the stop flag raised.
pub open spec fn stopped(s: HaltState) -> HaltState {
    HaltState { stop_render_loop: true, ..s }
}

/// User pause tracking: a change of mpv's pause state to paused while no
/// automatic pause is active is the user's doing; a change to playing clears it.
pub open spec fn after_pause_tracking(s: HaltState, last: bool, current: bool) -> HaltState {
    if current != last {
        if current && s.is_paused == 0 {
            with_user_paused(s, true)
        } else if !current {
            with_user_paused(s, false)
        } else {
            s
        }
    } else {
        s
    }
}

/// Track user-initiated pause by comparing mpv's pause state with the last
/// one seen; returns the state to remember for the next step.
pub fn track_user_pause(halt: &mut HaltInfo, last_mpv_paused: bool, current_mpv_paused: bool) -> (r: bool)
    requires
        old(halt).wf(),
    ensures
        r == current_mpv_paused,
        final(halt)@ == after_pause_tracking(old(halt)@, last_mpv_paused, current_mpv_paused),
        final(halt).wf(),
        final(halt).pauselist == old(halt).pauselist,
        final(halt).stoplist == old(halt).stoplist,
{
    if current_mpv_paused != last_mpv_paused {
        if current_mpv_paused && halt.is_paused == 0 {
            halt.user_paused = true;
        } else if !current_mpv_paused {
            halt.user_paused = false;
        }
    }
    current_mpv_paused
}

/// Whether playback should be resumed: no pause source is active, the user
/// did not pause, and mpv is paused.
pub open spec fn unpause_due(s: HaltState, mpv_paused: bool) -> bool {
    s.is_paused == 0 && !s.user_paused && mpv_paused
}

/// Auto-unpause logic (respects user manual pause)
pub fn should_auto_unpause(halt: &HaltInfo, mpv_paused: bool) -> (r: bool)
    ensures
        r == unpause_due(halt@, mpv_paused),
{
    halt.is_paused == 0 && !halt.user_paused && mpv_paused
}

/// Whether the slideshow should advance: an interval is set and at least that
/// many whole seconds have passed, measured in milliseconds.
pub fn slideshow_due(interval_secs: Option<u32>, elapsed_ms: u64) -> (r: bool)
    ensures
        r == match interval_secs {
            Some(i) => elapsed_ms >= i * 1000,
            None => false,
        },
{
    match interval_secs {
        Some(i) => elapsed_ms >= (i as u64) * 1000,
        None => false,
    }
}

/// Whether a worker thread should keep running (no stop requested).
pub fn keeps_running(halt: &HaltInfo) -> (r: bool)
    ensures
        r == !halt@.stop_render_loop,
{
    !halt.stop_render_loop
}

/// Whether the auto-pause handler runs another round.
pub fn auto_pause_running(halt: &HaltInfo) -> (r: bool)
    ensures
        r == (halt@.auto_pause && !halt@.stop_render_loop),
{
    halt.auto_pause && !halt.stop_render_loop
}

/// Whether the auto-stop handler runs another round.
pub fn auto_stop_running(halt: &HaltInfo) -> (r: bool)
    ensures
        r == (halt@.auto_stop && !halt@.stop_render_loop),
{
    halt.auto_stop && !halt.stop_render_loop
}

/// Whether the auto-pause handler takes a pause: every output is hidden and
/// nothing else pauses playback.
pub open spec fn auto_pause_engages(s: HaltState) -> bool {
    every_hidden(s.frames) && s.is_paused == 0
}

/// The state after the auto-pause handler's visibility check.
pub open spec fn after_auto_pause_check(s: HaltState) -> HaltState {
    if auto_pause_engages(s) {
        with_is_paused(s, vstd::wrapping::i32_specs::wrapping_add(s.is_paused, 1))
    } else {
        s
    }
}

/// After the wait: if every output is hidden and nothing pauses playback yet,
/// count a pause; the caller then pauses mpv and holds until an output shows
/// a frame again.
pub fn auto_pause_check(halt: &mut HaltInfo) -> (r: bool)
    requires
        old(halt).wf(),
    ensures
        r == auto_pause_engages(old(halt)@),
        final(halt)@ == after_auto_pause_check(old(halt)@),
        final(halt).wf(),
        final(halt).pauselist == old(halt).pauselist,
        final(halt).stoplist == old(halt).stoplist,
{
    if halt.output_frame_state.all_hidden() && halt.is_paused == 0 {
        halt.is_paused = halt.is_paused.wrapping_add(1);
        true
    } else {
        false
    }
}

/// Whether the auto-pause handler keeps holding its pause: no output has
/// shown a frame and no stop was requested.
pub open spec fn auto_pause_holds(s: HaltState) -> bool {
    !some_ready(s.frames) && !s.stop_render_loop
}

/// Wait until any output becomes visible again
pub fn auto_pause_keeps_holding(halt: &HaltInfo) -> (r: bool)
    requires
        halt.wf(),
    ensures
        r == auto_pause_holds(halt@),
{
    !halt.output_frame_state.any_ready() && !halt.stop_render_loop
}

/// The state once the auto-pause handler drops its pause.
pub open spec fn after_auto_pause_release(s: HaltState) -> HaltState {
    with_is_paused(s, vstd::wrapping::i32_specs::wrapping_sub(s.is_paused, 1))
}

/// Drop the auto-pause handler's pause.
pub fn auto_pause_release(halt: &mut HaltInfo)
    requires
        old(halt).wf(),
    ensures
        final(halt)@ == after_auto_pause_release(old(halt)@),
        final(halt).wf(),
        final(halt).pauselist == old(halt).pauselist,
        final(halt).stoplist == old(halt).stoplist,
{
    halt.is_paused = halt.is_paused.wrapping_sub(1);
}

/// The state after the auto-stop handler's visibility check.
pub open spec fn after_auto_stop_check(s: HaltState) -> HaltState {
    if every_hidden(s.frames) {
        stopped(s)
    } else {
        s
    }
}

/// After the wait: if all outputs are hidden, stop (and switch to holder).
pub fn auto_stop_check(halt: &mut HaltInfo) -> (r: bool)
    requires
        old(halt).wf(),
    ensures
        r == every_hidden(old(halt)@.frames),
        final(halt)@ == after_auto_stop_check(old(halt)@),
        final(halt).wf(),
        final(halt).pauselist == old(halt).pauselist,
        final(halt).stoplist == old(halt).stoplist,
{
    if halt.output_frame_state.all_hidden() {
        stop_mpvpaper_rs(halt);
        true
    } else {
        false
    }
}

/// The state after the pauselist monitor's check, and whether it pauses mpv:
/// a listed process that starts running takes a pause; once none runs, the
/// pause is dropped.
pub open spec fn after_pauselist_check(s: HaltState, found: bool) -> (HaltState, bool) {
    if found {
        if !s.list_paused {
            (
                HaltState {
                    list_paused: true,
                    is_paused: vstd::wrapping::i32_specs::wrapping_add(s.is_paused, 1),
                    ..s
                },
                true,
            )
        } else {
            (s, false)
        }
    } else if s.list_paused {
        (
            HaltState {
                list_paused: false,
                is_paused: vstd::wrapping::i32_specs::wrapping_sub(s.is_paused, 1),
                ..s
            },
            false,
        )
    } else {
        (s, false)
    }
}

/// Pauselist monitor step: `found` says whether a listed process runs.
/// Returns whether mpv is to be paused now.
pub fn pauselist_check(halt: &mut HaltInfo, found: bool) -> (r: bool)
    requires
        old(halt).wf(),
    ensures
        (final(halt)@, r) == after_pauselist_check(old(halt)@, found),
        final(halt).wf(),
        final(halt).pauselist == old(halt).pauselist,
        final(halt).stoplist == old(halt).stoplist,
{
    if found {
        if !halt.list_paused {
            halt.list_paused = true;
            halt.is_paused = halt.is_paused.wrapping_add(1);
            true
        } else {
            false
        }
    } else {
        if halt.list_paused {
            halt.list_paused = false;
            halt.is_paused = halt.is_paused.wrapping_sub(1);
        }
        false
    }
}

/// The state after the stoplist monitor's check.
pub open spec fn after_stoplist_check(s: HaltState, found: bool) -> HaltState {
    if found {
        stopped(s)
    } else {
        s
    }
}

/// Stoplist monitor step: a listed process that runs stops playback (and
/// ends the monitor, which the result says).
pub fn stoplist_check(halt: &mut HaltInfo, found: bool) -> (r: bool)
    requires
        old(halt).wf(),
    ensures
        r == found,
        final(halt)@ == after_stoplist_check(old(halt)@, found),
        final(halt).wf(),
        final(halt).pauselist == old(halt).pauselist,
        final(halt).stoplist == old(halt).stoplist,
{
    if found {
        stop_mpvpaper_rs(halt);
    }
    found
}

/// Stop mpvpaper-rs (sets stop signal, actual exec happens in main)
///
/// This only sets the stop_render_loop flag. The actual exec to holder
/// is performed in main() after the render loop terminates.
pub fn stop_mpvpaper_rs(halt: &mut HaltInfo)
    requires
        old(halt).wf(),
    ensures
        final(halt)@ == stopped(old(halt)@),
        final(halt).wf(),
        final(halt).pauselist == old(halt).pauselist,
        final(halt).stoplist == old(halt).stoplist,
{
    halt.stop_render_loop = true;
}

/// The state after SIGINT/SIGTERM.
pub open spec fn after_exit_signal(s: HaltState) -> HaltState {
    HaltState { signal_exit: true, stop_render_loop: true, ..s }
}

/// Signal received - stop the render loop and mark as signal exit
/// This prevents transitioning to holder on SIGINT/SIGTERM
pub fn on_exit_signal(halt: &mut HaltInfo)
    requires
        old(halt).wf(),
    ensures
        final(halt)@ == after_exit_signal(old(halt)@),
        final(halt).wf(),
        final(halt).pauselist == old(halt).pauselist,
        final(halt).stoplist == old(halt).stoplist,
{
    halt.signal_exit = true;
    halt.stop_render_loop = true;
}

/// The state after SIGUSR1, which toggles playback, given whether mpv is
/// paused; and whether mpv is to be paused now. The toggle counts as the
/// user's: a pause by it is not undone by auto-unpause, and a resume by it
/// clears the user's pause.
pub open spec fn after_pause_toggle(s: HaltState, mpv_paused: bool) -> (HaltState, bool) {
    (with_user_paused(s, !mpv_paused), !mpv_paused)
}

/// SIGUSR1: pause playback when it plays, resume it when it is paused.
/// Returns whether mpv is to be paused.
pub fn on_pause_toggle_signal(halt: &mut HaltInfo, mpv_paused: bool) -> (r: bool)
    requires
        old(halt).wf(),
    ensures
        (final(halt)@, r) == after_pause_toggle(old(halt)@, mpv_paused),
        final(halt).wf(),
        final(halt).pauselist == old(halt).pauselist,
        final(halt).stoplist == old(halt).stoplist,
{
    halt.user_paused = !mpv_paused;
    !mpv_paused
}

/// The things that happen to the shared halt state.
pub enum HaltEvent {
    /// The mpv event handler compared mpv's pause state (last, current).
    TrackPause(bool, bool),
    /// The auto-pause handler checked visibility after its wait.
    AutoPauseCheck,
    /// The auto-pause handler dropped its pause.
    AutoPauseRelease,
    /// The auto-stop handler checked visibility after its wait.
    AutoStopCheck,
    /// The pauselist monitor looked (whether a listed process runs).
    PauselistCheck(bool),
    /// The stoplist monitor looked (whether a listed process runs).
    StoplistCheck(bool),
    /// A stop was requested (render error, shutdown).
    Stop,
    /// SIGINT or SIGTERM arrived.
    ExitSignal,
    /// SIGUSR1 arrived (whether mpv was paused).
    PauseToggle(bool),
    /// A handler cleared the frame flags.
    FramesReset,
    /// A frame callback arrived for an output.
    FrameShown(u32),
    /// An output appeared.
    OutputAdded(u32),
    /// An output went away.
    OutputRemoved(u32),
}

/// Whether an event can happen while the auto-pause handler is in `phase`:
/// it checks visibility only while watching and releases only while holding.
pub open spec fn event_enabled(phase: AutoPausePhase, e: HaltEvent) -> bool {
    match e {
        HaltEvent::AutoPauseCheck => phase == AutoPausePhase::Watching,
        HaltEvent::AutoPauseRelease => phase == AutoPausePhase::Holding,
        _ => true,
    }
}

/// The state and auto-pause phase after an event, as the step functions of
/// this module and of [`super::halt::OutputFrameState`] make them.
pub open spec fn halt_step(s: HaltState, phase: AutoPausePhase, e: HaltEvent) -> (HaltState, AutoPausePhase) {
    match e {
        HaltEvent::TrackPause(last, current) => (after_pause_tracking(s, last, current), phase),
        HaltEvent::AutoPauseCheck => (
            after_auto_pause_check(s),
            if auto_pause_engages(s) {
                AutoPausePhase::Holding
            } else {
                phase
            },
        ),
        HaltEvent::AutoPauseRelease => (after_auto_pause_release(s), AutoPausePhase::Watching),
        HaltEvent::AutoStopCheck => (after_auto_stop_check(s), phase),
        HaltEvent::PauselistCheck(found) => (after_pauselist_check(s, found).0, phase),
        HaltEvent::StoplistCheck(found) => (after_stoplist_check(s, found), phase),
        HaltEvent::Stop => (stopped(s), phase),
        HaltEvent::ExitSignal => (after_exit_signal(s), phase),
        HaltEvent::PauseToggle(mpv_paused) => (after_pause_toggle(s, mpv_paused).0, phase),
        HaltEvent::FramesReset => (HaltState { frames: cleared(s.frames), ..s }, phase),
        HaltEvent::FrameShown(id) => (HaltState { frames: marked(s.frames, id), ..s }, phase),
        HaltEvent::OutputAdded(id) => (HaltState { frames: s.frames.insert(id, false), ..s }, phase),
        HaltEvent::OutputRemoved(id) => (HaltState { frames: s.frames.remove(id), ..s }, phase),
    }
}

/// The pause counter equals the number of pause sources that hold a pause:
/// the pauselist monitor and the auto-pause handler.
pub open spec fn pause_balance(s: HaltState, phase: AutoPausePhase) -> bool {
    s.is_paused == (if s.list_paused { 1int } else { 0int }) + (if phase == AutoPausePhase::Holding {
        1int
    } else {
        0int
    })
}

/// Pause counter law: starting from a fresh state, and after every event,
/// the counter `is_paused` equals the number of sources that currently hold a
/// pause (so it is never negative, at most 2, and 0 exactly when nothing
/// pauses).
pub proof fn law_pause_counter_counts_sources(s: HaltState, phase: AutoPausePhase, e: HaltEvent)
    requires
        pause_balance(s, phase),
        event_enabled(phase, e),
    ensures
        pause_balance(halt_step(s, phase, e).0, halt_step(s, phase, e).1),
        pause_balance(super::halt::initial_halt(s.auto_pause, s.auto_stop), AutoPausePhase::Watching),
        0 <= s.is_paused <= 2,
        s.is_paused == 0 <==> (!s.list_paused && phase == AutoPausePhase::Watching),
{
}

/// Stop and signal-exit are never undone: once raised, every later event
/// leaves them raised; and once a signal asked to exit, the process never
/// hands over to the holder.
pub proof fn law_stop_and_signal_are_sticky(s: HaltState, phase: AutoPausePhase, e: HaltEvent)
    ensures
        s.stop_render_loop ==> halt_step(s, phase, e).0.stop_render_loop,
        s.signal_exit ==> halt_step(s, phase, e).0.signal_exit,
        s.signal_exit ==> !hands_over(halt_step(s, phase, e).0),
        !hands_over(after_exit_signal(s)),
        after_exit_signal(s).stop_render_loop,
{
}

/// When every output is hidden, the auto-stop check stops the render loop,
/// and the process hands over to the holder exactly when auto-stop is on and
/// no exit signal came; a running stoplist process does the same.
pub proof fn law_hidden_or_listed_stops(s: HaltState)
    ensures
        every_hidden(s.frames) ==> after_auto_stop_check(s).stop_render_loop && (hands_over(
            after_auto_stop_check(s),
        ) == (s.auto_stop && !s.signal_exit)),
        !every_hidden(s.frames) ==> after_auto_stop_check(s) == s,
        hands_over(after_stoplist_check(s, true)) == (s.auto_stop && !s.signal_exit),
        after_stoplist_check(s, false) == s,
{
}

/// Auto-unpause never overrides a pause: while a source holds one, or the
/// user paused, playback is not resumed.
pub proof fn law_unpause_respects_pauses(s: HaltState, phase: AutoPausePhase, mpv_paused: bool)
    requires
        pause_balance(s, phase),
    ensures
        (s.list_paused || phase == AutoPausePhase::Holding || s.user_paused) ==> !unpause_due(
            s,
            mpv_paused,
        ),
{
}

/// Pausing by signal holds: after SIGUSR1 paused playback it counts as the
/// user's pause, which auto-unpause does not undo; after it resumed
/// playback, no user pause is left.
pub proof fn law_pause_signal_holds(s: HaltState)
    ensures
        after_pause_toggle(s, false).1,
        forall|mpv_paused: bool| !unpause_due(#[trigger] after_pause_toggle(s, false).0, mpv_paused),
        !after_pause_toggle(s, true).1,
        !after_pause_toggle(s, true).0.user_paused,
{
}

} // verus!

verus! {

/// Pause tracking reacts only to a change of mpv's pause state: while the
/// state stays the same nothing changes, so a pause that outlives its
/// source is not taken for the user's; a change to paused with no automatic
/// pause is the user's, and a change to playing clears the user's pause.
pub proof fn law_pause_tracking_needs_a_change(s: HaltState, last: bool, current: bool)
    ensures
        last == current ==> after_pause_tracking(s, last, current) == s,
        !last && current && s.is_paused == 0 ==> after_pause_tracking(s, last, current).user_paused,
        last && !current ==> !after_pause_tracking(s, last, current).user_paused,
        after_pause_tracking(s, last, current) == (HaltState {
            user_paused: after_pause_tracking(s, last, current).user_paused,
            ..s
        }),
        last == current && !s.user_paused && s.is_paused == 0 ==> unpause_due(
            after_pause_tracking(s, last, current),
            true,
        ),
{
}

} // verus!
