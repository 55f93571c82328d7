//! Decisions of the audio output worker.
//!
//! The output stream lives on a worker thread of its own. Each turn of the
//! worker's loop drops a stream whose device was reported lost, answers at
//! most one command, and retries opening a stream every five seconds while
//! none is open. The functions here make those decisions; the caller owns the
//! stream, the command channel and the clock, and performs what they decide.

use vstd::prelude::*;

use crate::audio::AudioError;

verus! {

/// Time between attempts to reopen the output stream after a device loss,
/// in milliseconds (5 s).
pub const DEVICE_RETRY_INTERVAL_MS: u64 = 5000;

/// How long a caller waits for the worker to acknowledge a command, in
/// milliseconds (1 s).
pub const COMMAND_ACK_TIMEOUT_MS: u64 = 1000;

/// Configuration of the audio output.
#[derive(Debug, Clone)]
pub struct CpalConfig {
    /// Preferred output device name. `None` uses the host default.
    pub device_name: Option<String>,
}

impl Default for CpalConfig {
    /// The host default output device.
    fn default() -> (c: CpalConfig)
        ensures
            c.device_name is None,
    {
        CpalConfig { device_name: None }
    }
}

/// What one turn of the worker's loop received.
#[derive(Debug, Clone, Copy, PartialEq, Eq, Structural)]
pub enum WorkerEvent {
    /// A request to start playing a sound.
    Play,
    /// A request to stop playback.
    Stop,
    /// A request to shut down, or the command channel closed.
    Shutdown,
    /// No command arrived within the retry interval.
    Timeout,
}

/// What the worker does about one event.
#[derive(Debug, Clone, Copy, PartialEq, Eq, Structural)]
pub enum WorkerStep {
    /// Replace the current playback with the requested one and acknowledge.
    StartPlayback,
    /// Refuse the request: no output stream is open.
    RefusePlayback,
    /// Clear the current playback and acknowledge.
    StopPlayback,
    /// Leave the loop and close the stream.
    Exit,
    /// Nothing to do this turn.
    Wait,
}

/// The step for `ev` when an output stream is (or is not) open.
pub open spec fn step_for(ev: WorkerEvent, stream_open: bool) -> WorkerStep {
    match ev {
        WorkerEvent::Play => if stream_open {
            WorkerStep::StartPlayback
        } else {
            WorkerStep::RefusePlayback
        },
        WorkerEvent::Stop => WorkerStep::StopPlayback,
        WorkerEvent::Shutdown => WorkerStep::Exit,
        WorkerEvent::Timeout => WorkerStep::Wait,
    }
}

/// The acknowledgement a step calls for, with the error left abstract:
/// success for a started or stopped playback, a refusal for a refused play
/// request, none otherwise.
pub open spec fn reply_for_spec(step: WorkerStep) -> Option<Result<(), ()>> {
    match step {
        WorkerStep::StartPlayback => Some(Ok(())),
        WorkerStep::StopPlayback => Some(Ok(())),
        WorkerStep::RefusePlayback => Some(Err(())),
        WorkerStep::Exit => None,
        WorkerStep::Wait => None,
    }
}

/// The acknowledgement sent back for a step, if any.
pub fn reply_for(step: WorkerStep) -> (r: Option<Result<(), AudioError>>)
    ensures
        match reply_for_spec(step) {
            Some(Ok(())) => r == Some(Ok::<(), AudioError>(())),
            Some(Err(())) => r matches Some(Err(AudioError::DeviceUnavailable)),
            None => r is None,
        },
        step == WorkerStep::StartPlayback || step == WorkerStep::StopPlayback ==> r == Some(
            Ok::<(), AudioError>(()),
        ),
        step == WorkerStep::RefusePlayback ==> (r matches Some(Err(AudioError::DeviceUnavailable))),
        step == WorkerStep::Exit || step == WorkerStep::Wait ==> r is None,
{
    match step {
        WorkerStep::StartPlayback => Some(Ok(())),
        WorkerStep::StopPlayback => Some(Ok(())),
        WorkerStep::RefusePlayback => Some(Err(AudioError::DeviceUnavailable)),
        WorkerStep::Exit => None,
        WorkerStep::Wait => None,
    }
}

/// The state after the check at the top of a turn: a stream whose device
/// was lost is closed.
pub open spec fn after_check(s: WorkerState) -> WorkerState {
    WorkerState { stream_open: s.stream_open && !s.device_lost, device_lost: s.device_lost }
}

/// The state after a retry that did (or did not) rebuild the stream.
pub open spec fn after_retry(s: WorkerState, rebuilt: bool) -> WorkerState {
    if rebuilt {
        WorkerState { stream_open: true, device_lost: false }
    } else {
        s
    }
}

/// The worker's knowledge of its output stream.
#[derive(Debug, Clone, Copy, PartialEq, Eq, Structural)]
pub struct WorkerState {
    /// An output stream is open.
    pub stream_open: bool,
    /// The stream's error callback reported the device lost, and no stream
    /// has been reopened since.
    pub device_lost: bool,
}

impl WorkerState {
    /// The state after the first attempt to open a stream: open when it
    /// succeeded, in retry mode (device lost) when it failed.
    pub fn start(stream_built: bool) -> (s: WorkerState)
        ensures
            s.stream_open == stream_built,
            s.device_lost == !stream_built,
    {
        WorkerState { stream_open: stream_built, device_lost: !stream_built }
    }

    /// Records that the stream's error callback reported the device lost.
    pub fn on_stream_error(&mut self)
        ensures
            final(self).device_lost,
            final(self).stream_open == old(self).stream_open,
    {
        self.device_lost = true;
    }

    /// At the top of each turn: decides whether the open stream must be
    /// dropped because its device was lost.
    pub fn check_stream(&mut self) -> (drop_stream: bool)
        ensures
            drop_stream == (old(self).stream_open && old(self).device_lost),
            *final(self) == after_check(*old(self)),
    {
        if self.stream_open && self.device_lost {
            self.stream_open = false;
            true
        } else {
            false
        }
    }

    /// The step for the event received this turn.
    pub fn on_event(&self, ev: WorkerEvent) -> (s: WorkerStep)
        ensures
            s == step_for(ev, self.stream_open),
    {
        match ev {
            WorkerEvent::Play => if self.stream_open {
                WorkerStep::StartPlayback
            } else {
                WorkerStep::RefusePlayback
            },
            WorkerEvent::Stop => WorkerStep::StopPlayback,
            WorkerEvent::Shutdown => WorkerStep::Exit,
            WorkerEvent::Timeout => WorkerStep::Wait,
        }
    }

    /// Whether to try reopening the stream, `since_last_retry_ms` after the
    /// previous attempt.
    pub fn retry_due(&self, since_last_retry_ms: u64) -> (b: bool)
        ensures
            b == (!self.stream_open && since_last_retry_ms >= DEVICE_RETRY_INTERVAL_MS),
    {
        !self.stream_open && since_last_retry_ms >= DEVICE_RETRY_INTERVAL_MS
    }

    /// Records the outcome of a retry: a rebuilt stream is open and clears
    /// the loss; a failed attempt changes nothing.
    pub fn on_retry(&mut self, rebuilt: bool)
        ensures
            *final(self) == after_retry(*old(self), rebuilt),
    {
        if rebuilt {
            self.stream_open = true;
            self.device_lost = false;
        }
    }
}

/// Law: playback starts only on a play request and only while a stream is
/// open; every play request while no stream is open is refused.
pub proof fn lemma_playback_needs_open_stream(ev: WorkerEvent, stream_open: bool)
    ensures
        step_for(ev, stream_open) == WorkerStep::StartPlayback <==> (ev == WorkerEvent::Play
            && stream_open),
        ev == WorkerEvent::Play && !stream_open ==> step_for(ev, stream_open)
            == WorkerStep::RefusePlayback,
{
}

/// Law: after the device is reported lost, every play request is refused
/// until a retry rebuilds the stream, and after a rebuild play requests are
/// accepted again.
pub proof fn lemma_device_loss_refuses_until_rebuilt(s: WorkerState)
    ensures
        s.device_lost ==> step_for(WorkerEvent::Play, after_check(s).stream_open)
            == WorkerStep::RefusePlayback,
        step_for(WorkerEvent::Play, after_check(after_retry(s, true)).stream_open)
            == WorkerStep::StartPlayback,
{
}

/// Law: only a play request depends on whether a stream is open. In either
/// stream state a stop request clears playback and is acknowledged with
/// success, a shutdown request (or a closed channel) ends the loop, and a
/// turn without a command does nothing.
pub proof fn lemma_commands_other_than_play_ignore_the_stream(stream_open: bool)
    ensures
        step_for(WorkerEvent::Stop, stream_open) == WorkerStep::StopPlayback,
        reply_for_spec(step_for(WorkerEvent::Stop, stream_open)) == Some(Ok::<(), ()>(())),
        step_for(WorkerEvent::Shutdown, stream_open) == WorkerStep::Exit,
        reply_for_spec(step_for(WorkerEvent::Shutdown, stream_open)) is None,
        step_for(WorkerEvent::Timeout, stream_open) == WorkerStep::Wait,
        reply_for_spec(step_for(WorkerEvent::Timeout, stream_open)) is None,
        step_for(WorkerEvent::Play, stream_open) == (if stream_open {
            WorkerStep::StartPlayback
        } else {
            WorkerStep::RefusePlayback
        }),
{
}

} // verus!
