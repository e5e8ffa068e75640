//! The audio engine's decisions: when the white noise starts and stops.
//!
//! Sound output runs on a thread of its own in the application; it hands
//! each command (or a timeout) to [`NoisePlan`] and performs what comes back.

use vstd::prelude::*;

verus! {

/// The outside channel type that carries commands to the audio thread.
#[verifier::external_type_specification]
#[verifier::external_body]
#[verifier::reject_recursive_types(T)]
pub struct ExSender<T>(std::sync::mpsc::Sender<T>);

/// A command for the audio thread.
#[derive(Debug)]
pub enum AudioCmd {
    /// Start the white noise after `delay_ms` milliseconds (to let a chime
    /// finish first); ignored while it plays or is already planned.
    NoiseStart { delay_ms: u64 },
    /// Fade the white noise out, and drop a planned start.
    NoiseStop,
    Chime,
    /// The short two-tone nudge before a phase ends.
    SoftNudge,
}

/// What the audio thread does in answer to a command.
#[derive(Debug, PartialEq, Eq, Structural)]
pub enum AudioAction {
    /// Nothing to play now.
    Nothing,
    /// Fade the playing white noise out and stop it.
    FadeOutNoise,
    PlayChime,
    PlayNudge,
}

/// The white-noise state of the audio thread.  Times are milliseconds on
/// the thread's own monotonic clock.
#[derive(Debug)]
pub struct NoisePlan {
    /// The white noise is playing.
    pub playing: bool,
    /// When a planned white noise is to start.
    pub pending_at: Option<u64>,
}

/// The plan after a command received at `now`: a start is planned `delay_ms`
/// later unless the noise plays or is already planned; a stop drops the plan
/// and the noise; chimes change nothing.
pub open spec fn plan_after_command(p: NoisePlan, cmd: AudioCmd, now: u64) -> NoisePlan {
    match cmd {
        AudioCmd::NoiseStart { delay_ms } => if !p.playing && p.pending_at is None {
            NoisePlan { pending_at: Some((now + delay_ms) as u64), ..p }
        } else {
            p
        },
        AudioCmd::NoiseStop => NoisePlan { playing: false, pending_at: None },
        _ => p,
    }
}

/// What is played in answer to a command: a stop fades out a playing noise.
pub open spec fn command_action(p: NoisePlan, cmd: AudioCmd) -> AudioAction {
    match cmd {
        AudioCmd::NoiseStart { .. } => AudioAction::Nothing,
        AudioCmd::NoiseStop => if p.playing {
            AudioAction::FadeOutNoise
        } else {
            AudioAction::Nothing
        },
        AudioCmd::Chime => AudioAction::PlayChime,
        AudioCmd::SoftNudge => AudioAction::PlayNudge,
    }
}

/// Whether the planned noise is due at `now`.
pub open spec fn noise_due(p: NoisePlan, now: u64) -> bool {
    match p.pending_at {
        Some(at) => now >= at,
        None => false,
    }
}

/// At most one white noise plays or is planned.
pub open spec fn single_noise(p: NoisePlan) -> bool {
    !(p.playing && p.pending_at is Some)
}

impl NoisePlan {
    /// Silence, nothing planned.
    pub fn new() -> (r: Self)
        ensures
            r == (NoisePlan { playing: false, pending_at: None }),
    {
        NoisePlan { playing: false, pending_at: None }
    }

    /// Handles a command received at `now`; see [`plan_after_command`] and
    /// [`command_action`].
    pub fn on_command(&mut self, cmd: AudioCmd, now: u64) -> (r: AudioAction)
        requires
            cmd matches AudioCmd::NoiseStart { delay_ms } ==> now + delay_ms <= u64::MAX,
        ensures
            *final(self) == plan_after_command(*old(self), cmd, now),
            r == command_action(*old(self), cmd),
    {
        match cmd {
            AudioCmd::NoiseStart { delay_ms } => {
                if !self.playing && self.pending_at.is_none() {
                    self.pending_at = Some(now + delay_ms);
                }
                AudioAction::Nothing
            },
            AudioCmd::NoiseStop => {
                self.pending_at = None;
                if self.playing {
                    self.playing = false;
                    AudioAction::FadeOutNoise
                } else {
                    AudioAction::Nothing
                }
            },
            AudioCmd::Chime => AudioAction::PlayChime,
            AudioCmd::SoftNudge => AudioAction::PlayNudge,
        }
    }

    /// Whether a planned white noise is due at `now`; a due plan is dropped,
    /// and the caller starts the noise and reports with [`Self::noise_started`].
    pub fn take_due(&mut self, now: u64) -> (r: bool)
        ensures
            r == noise_due(*old(self), now),
            *final(self) == (if r { NoisePlan { pending_at: None, ..*old(self) } } else { *old(self) }),
    {
        match self.pending_at {
            Some(at) => {
                if now >= at {
                    self.pending_at = None;
                    true
                } else {
                    false
                }
            },
            None => false,
        }
    }

    /// Records whether starting the white noise succeeded.
    pub fn noise_started(&mut self, ok: bool)
        ensures
            *final(self) == (NoisePlan { playing: ok, ..*old(self) }),
    {
        self.playing = ok;
    }
}

/// Hands a command to the audio thread.
///
/// Calls `std::sync::mpsc::Sender::send`; a thread that has gone away is
/// ignored.  Nothing is claimed.
#[verifier::external_body]
fn channel_send(tx: &std::sync::mpsc::Sender<AudioCmd>, cmd: AudioCmd) {
    let _ = tx.send(cmd);
}

/// The handle through which the timer sends commands to the audio thread.
pub struct AudioEngine {
    tx: std::sync::mpsc::Sender<AudioCmd>,
}

impl AudioEngine {
    /// The channel end through which this engine sends its commands.
    pub closed spec fn sender(&self) -> std::sync::mpsc::Sender<AudioCmd> {
        self.tx
    }

    /// An engine sending to the audio thread that owns the receiving end.
    pub fn from_sender(tx: std::sync::mpsc::Sender<AudioCmd>) -> (r: Self)
        ensures
            r.sender() == tx,
    {
        AudioEngine { tx }
    }

    /// Sends a command; a stopped audio thread is ignored.
    pub fn send(&self, cmd: AudioCmd) {
        channel_send(&self.tx, cmd);
    }
}

} // verus!
