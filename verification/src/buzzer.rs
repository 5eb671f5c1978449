//! The T-Deck tone buzzer: the tone lifecycle that firmware sees, and the
//! decisions of the audio worker that times tones and sounds them on the host.
//!
//! The sine synthesis and the PWM duty cycle (a float) stay with the host
//! audio code; what is decided here is when a tone plays and when it ends.

use vstd::prelude::*;

verus! {

/// How long the audio worker waits for a command when no tone is timed.
pub const IDLE_WAIT_MS: u64 = 3_600_000;

/// The tone state that firmware reads back.
pub struct VirtualBuzzer {
    frequency_hz: u32,
    duration_ms: u64,
    playing: bool,
}

pub struct BuzzerView {
    pub frequency_hz: u32,
    pub duration_ms: u64,
    pub playing: bool,
}

impl View for VirtualBuzzer {
    type V = BuzzerView;

    closed spec fn view(&self) -> BuzzerView {
        BuzzerView { frequency_hz: self.frequency_hz, duration_ms: self.duration_ms, playing: self.playing }
    }
}

/// Whether a tone request is audible: a nonzero frequency, a waveform with
/// transitions, and (for a timed tone) a nonzero duration.
pub open spec fn tone_audible(frequency_hz: u32, has_transitions: bool, duration_ms: Option<u64>) -> bool {
    frequency_hz > 0 && has_transitions && match duration_ms {
        Some(d) => d > 0,
        None => true,
    }
}

impl VirtualBuzzer {
    /// A silent buzzer.
    pub fn new() -> (r: Self)
        ensures
            r@ == (BuzzerView { frequency_hz: 0, duration_ms: 0, playing: false }),
    {
        VirtualBuzzer { frequency_hz: 0, duration_ms: 0, playing: false }
    }

    /// Starts a tone, replacing any tone in progress. `has_transitions` says
    /// whether the clamped duty cycle lies strictly between 0 and 1; a timed
    /// tone carries its duration. Returns whether the tone sounds, which is
    /// when the audio worker must be told to play it.
    pub fn start_tone(&mut self, frequency_hz: u32, has_transitions: bool, duration_ms: Option<u64>) -> (r: bool)
        ensures
            r == tone_audible(frequency_hz, has_transitions, duration_ms),
            final(self)@ == (BuzzerView {
                frequency_hz,
                duration_ms: match duration_ms {
                    Some(d) => d,
                    None => 0,
                },
                playing: r,
            }),
    {
        self.stop();
        self.frequency_hz = frequency_hz;
        self.duration_ms = match duration_ms {
            Some(d) => d,
            None => 0,
        };
        let has_duration = match duration_ms {
            Some(d) => d > 0,
            None => true,
        };
        let playing = frequency_hz > 0 && has_transitions && has_duration;
        self.playing = playing;
        playing
    }

    /// Starts a square-wave beep of `duration_ms` at half duty, replacing any
    /// tone in progress. Returns whether it sounds.
    pub fn beep(&mut self, frequency_hz: u32, duration_ms: u64) -> (r: bool)
        ensures
            r == (frequency_hz > 0 && duration_ms > 0),
            final(self)@ == (BuzzerView { frequency_hz, duration_ms, playing: r }),
    {
        self.start_tone(frequency_hz, true, Some(duration_ms))
    }

    /// Drives the buzzer from a PWM waveform until stopped. A zero or full
    /// duty cycle has no transitions and so gives no tone.
    pub fn drive_pwm(&mut self, frequency_hz: u32, has_transitions: bool) -> (r: bool)
        ensures
            r == (frequency_hz > 0 && has_transitions),
            final(self)@ == (BuzzerView { frequency_hz, duration_ms: 0, playing: r }),
    {
        self.start_tone(frequency_hz, has_transitions, None)
    }

    /// Stops any tone; frequency and duration are kept for reading back.
    pub fn stop(&mut self)
        ensures
            final(self)@ == (BuzzerView { playing: false, ..old(self)@ }),
    {
        self.playing = false;
    }

    /// The timed tone ran out: the audio worker reached its deadline.
    pub fn tone_elapsed(&mut self)
        ensures
            final(self)@ == (BuzzerView { playing: false, ..old(self)@ }),
    {
        self.playing = false;
    }

    pub fn is_playing(&self) -> (r: bool)
        ensures
            r == self@.playing,
    {
        self.playing
    }

    pub fn frequency_hz(&self) -> (r: u32)
        ensures
            r == self@.frequency_hz,
    {
        self.frequency_hz
    }

    pub fn duration_ms(&self) -> (r: u64)
        ensures
            r == self@.duration_ms,
    {
        self.duration_ms
    }
}

/// What the audio worker holds: the tone it sounds and, for a timed tone,
/// the instant (in milliseconds) at which the tone ends.
#[derive(Clone, Copy, Debug, PartialEq, Eq, Structural)]
pub struct ToneState {
    pub frequency_hz: u32,
    pub playing: bool,
    pub deadline_ms: Option<u64>,
}

/// What wakes the audio worker.
#[derive(Clone, Copy, Debug, PartialEq, Eq, Structural)]
pub enum WorkerEvent {
    /// Sound a tone; a timed tone carries its duration.
    Beep { frequency_hz: u32, duration_ms: Option<u64> },
    Stop,
    /// The wait ran out without a command.
    Timeout,
    /// Every command sender is gone.
    Disconnected,
}

/// The worker's next state and what it does: set the buzzer's playing flag
/// (when `Some`), then wait for the next command, or end.
#[derive(Clone, Copy, Debug, PartialEq, Eq, Structural)]
pub struct WorkerStep {
    pub state: ToneState,
    pub set_playing: Option<bool>,
    pub exit: bool,
}

pub open spec fn idle_tone() -> ToneState {
    ToneState { frequency_hz: 0, playing: false, deadline_ms: None }
}

/// The end of a tone of `duration_ms` begun at `now_ms`: none for an untimed
/// tone or a zero duration.
pub open spec fn deadline_spec(duration_ms: Option<u64>, now_ms: u64) -> Option<u64> {
    match duration_ms {
        Some(d) => if d > 0 { Some((now_ms + d) as u64) } else { None },
        None => None,
    }
}

pub open spec fn worker_step_spec(s: ToneState, event: WorkerEvent, now_ms: u64) -> WorkerStep {
    match event {
        WorkerEvent::Beep { frequency_hz, duration_ms } => WorkerStep {
            state: ToneState { frequency_hz, playing: true, deadline_ms: deadline_spec(duration_ms, now_ms) },
            set_playing: Some(true),
            exit: false,
        },
        WorkerEvent::Stop => WorkerStep {
            state: ToneState { playing: false, deadline_ms: None, ..s },
            set_playing: None,
            exit: false,
        },
        WorkerEvent::Timeout => WorkerStep {
            state: ToneState { playing: false, deadline_ms: None, ..s },
            set_playing: Some(false),
            exit: false,
        },
        WorkerEvent::Disconnected => WorkerStep { state: s, set_playing: None, exit: true },
    }
}

/// Whether an event can reach the worker at `now_ms`: the end of a timed
/// tone must be a representable instant.
pub open spec fn event_in_range(event: WorkerEvent, now_ms: u64) -> bool {
    match event {
        WorkerEvent::Beep { duration_ms: Some(d), .. } => now_ms + d <= u64::MAX,
        _ => true,
    }
}

/// The audio worker's decision on one event.
pub fn worker_step(s: ToneState, event: WorkerEvent, now_ms: u64) -> (r: WorkerStep)
    requires
        event_in_range(event, now_ms),
    ensures
        r == worker_step_spec(s, event, now_ms),
{
    match event {
        WorkerEvent::Beep { frequency_hz, duration_ms } => {
            let deadline_ms = match duration_ms {
                Some(d) => if d > 0 { Some(now_ms + d) } else { None },
                None => None,
            };
            WorkerStep {
                state: ToneState { frequency_hz, playing: true, deadline_ms },
                set_playing: Some(true),
                exit: false,
            }
        },
        WorkerEvent::Stop => WorkerStep {
            state: ToneState { frequency_hz: s.frequency_hz, playing: false, deadline_ms: None },
            set_playing: None,
            exit: false,
        },
        WorkerEvent::Timeout => WorkerStep {
            state: ToneState { frequency_hz: s.frequency_hz, playing: false, deadline_ms: None },
            set_playing: Some(false),
            exit: false,
        },
        WorkerEvent::Disconnected => WorkerStep { state: s, set_playing: None, exit: true },
    }
}

pub open spec fn wait_spec(s: ToneState, now_ms: u64) -> u64 {
    match s.deadline_ms {
        Some(deadline) => if deadline > now_ms { (deadline - now_ms) as u64 } else { 0 },
        None => IDLE_WAIT_MS,
    }
}

/// How long the worker waits for a command at `now_ms`: until the timed
/// tone ends (at once if that instant has passed), else an idle hour.
pub fn worker_wait_ms(s: ToneState, now_ms: u64) -> (r: u64)
    ensures
        r == wait_spec(s, now_ms),
{
    match s.deadline_ms {
        Some(deadline) => deadline.saturating_sub(now_ms),
        None => IDLE_WAIT_MS,
    }
}

/// A timed beep ends its tone exactly when the wait it sets runs out: right
/// after the beep the worker waits the beep's duration, and the timeout that
/// follows silences the tone and clears the buzzer's playing flag.
pub proof fn law_timed_beep_ends(s: ToneState, frequency_hz: u32, duration_ms: u64, now_ms: u64)
    requires
        duration_ms > 0,
        now_ms + duration_ms <= u64::MAX,
    ensures
        ({
            let begun = worker_step_spec(s, WorkerEvent::Beep { frequency_hz, duration_ms: Some(duration_ms) }, now_ms);
            let ended = worker_step_spec(begun.state, WorkerEvent::Timeout, (now_ms + duration_ms) as u64);
            &&& begun.state.playing
            &&& begun.set_playing == Some(true)
            &&& wait_spec(begun.state, now_ms) == duration_ms
            &&& !ended.state.playing
            &&& ended.set_playing == Some(false)
            &&& wait_spec(ended.state, (now_ms + duration_ms) as u64) == IDLE_WAIT_MS
        }),
{
}

/// A new beep replaces whatever tone was in progress: the worker's state
/// after it does not depend on the state before it.
pub proof fn law_beep_replaces(s: ToneState, t: ToneState, frequency_hz: u32, duration_ms: Option<u64>, now_ms: u64)
    ensures
        worker_step_spec(s, WorkerEvent::Beep { frequency_hz, duration_ms }, now_ms)
            == worker_step_spec(t, WorkerEvent::Beep { frequency_hz, duration_ms }, now_ms),
{
}

} // verus!
