//! The daemon's externally observable state and its transitions.
//!
//! The daemon owns a single global armed/disarmed flag, the optional wall-clock
//! time at which the armed alarm fires, and the optional selected sound id.
//! Every request names the state it wants; the daemon reports whether that
//! changed anything.

use vstd::prelude::*;
use vstd::utf8::encode_utf8;

use crate::persistence::{
    decode_payload, default_view, encoded_state, evaluate_recovery, missed_fire, opt_str_view, PersistedState,
    PersistedView, StartupRecovery, MAX_SOUND_BYTES,
};

verus! {

/// Current armed/disarmed status for the daemon.
#[derive(Debug, Clone, Copy, PartialEq, Eq, Structural)]
pub enum AlarmStatus {
    /// Alarm is not armed.
    Disarmed,
    /// Alarm is armed.
    Armed,
}

impl Default for AlarmStatus {
    fn default() -> (s: AlarmStatus)
        ensures
            s == AlarmStatus::Disarmed,
    {
        AlarmStatus::Disarmed
    }
}

impl AlarmStatus {
    /// Returns whether the alarm is currently armed.
    pub fn is_armed(self) -> (b: bool)
        ensures
            b == (self == AlarmStatus::Armed),
    {
        match self {
            AlarmStatus::Armed => true,
            AlarmStatus::Disarmed => false,
        }
    }
}

/// Result of an arm/disarm call: did the state actually change?
#[derive(Debug, Clone, Copy, PartialEq, Eq, Structural)]
pub enum Transition {
    /// Requested state already matched current state.
    NoChange,
    /// State changed from one value to another.
    Changed {
        /// Previous status before the transition.
        from: AlarmStatus,
        /// New status after the transition.
        to: AlarmStatus,
    },
}

/// Snapshot of the daemon's externally observable state.
#[derive(Debug, Clone)]
pub struct State {
    pub status: AlarmStatus,
    pub next_fire_unix_ms: Option<i64>,
    pub current_sound: Option<String>,
}

/// The mathematical content of a [`State`].
#[verifier::ext_equal]
pub struct StateView {
    pub status: AlarmStatus,
    pub next_fire_unix_ms: Option<i64>,
    pub current_sound: Option<Seq<char>>,
}

impl View for State {
    type V = StateView;

    open spec fn view(&self) -> StateView {
        StateView {
            status: self.status,
            next_fire_unix_ms: self.next_fire_unix_ms,
            current_sound: opt_str_view(self.current_sound),
        }
    }
}

/// The disarmed state: nothing scheduled, no sound selected.
pub open spec fn disarmed_view() -> StateView {
    StateView { status: AlarmStatus::Disarmed, next_fire_unix_ms: None, current_sound: None }
}

/// The armed state with the given sound and fire time.
pub open spec fn armed_view(sound: Option<Seq<char>>, next_fire_unix_ms: Option<i64>) -> StateView {
    StateView { status: AlarmStatus::Armed, next_fire_unix_ms, current_sound: sound }
}

/// The persisted form of a state.
pub open spec fn persisted_of(s: StateView) -> PersistedView {
    PersistedView {
        armed: s.status == AlarmStatus::Armed,
        next_fire_unix_ms: s.next_fire_unix_ms,
        current_sound: s.current_sound,
    }
}

/// The state a persisted record describes.
pub open spec fn state_of(p: PersistedView) -> StateView {
    StateView {
        status: if p.armed { AlarmStatus::Armed } else { AlarmStatus::Disarmed },
        next_fire_unix_ms: p.next_fire_unix_ms,
        current_sound: p.current_sound,
    }
}

/// What moving from `from` to `to` reports.
pub open spec fn transition_between(from: StateView, to: StateView) -> Transition {
    if from == to {
        Transition::NoChange
    } else {
        Transition::Changed { from: from.status, to: to.status }
    }
}

fn clone_sound(s: &Option<String>) -> (r: Option<String>)
    ensures
        opt_str_view(r) == opt_str_view(*s),
{
    match s {
        Some(x) => Some(x.clone()),
        None => None,
    }
}

fn same_sound(a: &Option<String>, b: &Option<String>) -> (r: bool)
    ensures
        r == (opt_str_view(*a) == opt_str_view(*b)),
{
    match (a, b) {
        (Some(x), Some(y)) => crate::text::str_eq(x.as_str(), y.as_str()),
        (None, None) => true,
        _ => false,
    }
}

impl State {
    /// Disarmed state with no scheduled fire and no selected sound.
    pub fn disarmed() -> (s: State)
        ensures
            s@ == disarmed_view(),
    {
        State { status: AlarmStatus::Disarmed, next_fire_unix_ms: None, current_sound: None }
    }

    /// Armed state with the given selected sound and optional fire timestamp.
    pub fn armed(sound_id: Option<String>, next_fire_unix_ms: Option<i64>) -> (s: State)
        ensures
            s@ == armed_view(opt_str_view(sound_id), next_fire_unix_ms),
    {
        State { status: AlarmStatus::Armed, next_fire_unix_ms, current_sound: sound_id }
    }

    /// The persisted form of this state.
    pub fn to_persisted(&self) -> (p: PersistedState)
        ensures
            p@ == persisted_of(self@),
    {
        PersistedState {
            armed: self.status.is_armed(),
            next_fire_unix_ms: self.next_fire_unix_ms,
            current_sound: clone_sound(&self.current_sound),
        }
    }

    /// The state that a persisted record describes.
    pub fn from_persisted(p: PersistedState) -> (s: State)
        ensures
            s@ == state_of(p@),
    {
        State {
            status: if p.armed {
                AlarmStatus::Armed
            } else {
                AlarmStatus::Disarmed
            },
            next_fire_unix_ms: p.next_fire_unix_ms,
            current_sound: p.current_sound,
        }
    }

    /// Whether two states hold the same values.
    pub fn same_as(&self, other: &State) -> (r: bool)
        ensures
            r == (self@ == other@),
    {
        self.status == other.status && self.next_fire_unix_ms == other.next_fire_unix_ms
            && same_sound(&self.current_sound, &other.current_sound)
    }
}

/// The daemon's state machine.
#[derive(Debug, Clone)]
pub struct AlarmDaemon {
    state: State,
}

impl View for AlarmDaemon {
    type V = StateView;

    closed spec fn view(&self) -> StateView {
        self.state@
    }
}

impl AlarmDaemon {
    /// Creates a daemon with the alarm disarmed.
    pub fn new() -> (d: AlarmDaemon)
        ensures
            d@ == disarmed_view(),
    {
        AlarmDaemon { state: State::disarmed() }
    }

    /// Rebuilds the daemon from the state it persisted, and reports whether
    /// the alarm should already have fired by `now_ms`.
    pub fn restore(persisted: PersistedState, now_ms: i64) -> (r: (AlarmDaemon, StartupRecovery))
        ensures
            r.0@ == state_of(persisted@),
            r.1.missed_while_down == missed_fire(persisted@, now_ms),
    {
        let recovery = evaluate_recovery(&persisted, now_ms);
        (AlarmDaemon { state: State::from_persisted(persisted) }, recovery)
    }

    /// Moves to `desired`, reporting whether anything changed: `NoChange`
    /// (and the state untouched) when `desired` equals the current state,
    /// otherwise `Changed` with the statuses before and after (which may be
    /// equal, as when re-arming with another sound).
    pub fn transition_to(&mut self, desired: State) -> (t: Transition)
        ensures
            final(self)@ == desired@,
            t == transition_between(old(self)@, desired@),
    {
        if self.state.same_as(&desired) {
            return Transition::NoChange;
        }
        let from = self.state.status;
        self.state = desired;
        Transition::Changed { from, to: self.state.status }
    }

    /// Arms the daemon with no specific sound and no fire time.
    pub fn arm(&mut self) -> (t: Transition)
        ensures
            final(self)@ == armed_view(None, None),
            t == transition_between(old(self)@, armed_view(None, None)),
    {
        self.transition_to(State::armed(None, None))
    }

    /// Arms the daemon with no specific sound but a known fire timestamp.
    pub fn arm_with_next_fire(&mut self, next_fire_unix_ms: Option<i64>) -> (t: Transition)
        ensures
            final(self)@ == armed_view(None, next_fire_unix_ms),
            t == transition_between(old(self)@, armed_view(None, next_fire_unix_ms)),
    {
        self.transition_to(State::armed(None, next_fire_unix_ms))
    }

    /// Arms the daemon with a selected sound id and fire timestamp.
    pub fn arm_with_sound(&mut self, sound_id: String, next_fire_unix_ms: Option<i64>) -> (t:
        Transition)
        ensures
            final(self)@ == armed_view(Some(sound_id@), next_fire_unix_ms),
            t == transition_between(old(self)@, armed_view(Some(sound_id@), next_fire_unix_ms)),
    {
        self.transition_to(State::armed(Some(sound_id), next_fire_unix_ms))
    }

    /// Disarms the daemon, clearing both the fire timestamp and the sound.
    pub fn disarm(&mut self) -> (t: Transition)
        ensures
            final(self)@ == disarmed_view(),
            t == transition_between(old(self)@, disarmed_view()),
    {
        self.transition_to(State::disarmed())
    }

    /// Returns the current status.
    pub fn status(&self) -> (s: AlarmStatus)
        ensures
            s == self@.status,
    {
        self.state.status
    }

    /// Returns the currently selected sound id, if any.
    pub fn current_sound(&self) -> (s: Option<String>)
        ensures
            opt_str_view(s) == self@.current_sound,
    {
        clone_sound(&self.state.current_sound)
    }

    /// The record to persist for the current state.
    pub fn to_persisted(&self) -> (p: PersistedState)
        ensures
            p@ == persisted_of(self@),
    {
        self.state.to_persisted()
    }
}

/// Law: a request that is repeated reports `NoChange` the second time.
pub proof fn lemma_repeated_request_is_no_change(current: StateView, desired: StateView)
    ensures
        transition_between(desired, desired) == Transition::NoChange,
        transition_between(current, desired) == Transition::NoChange <==> current == desired,
{
}

/// Law: a transition that reports `Changed` names the status before and
/// after, and one that reports `NoChange` left everything as it was.
pub proof fn lemma_transition_reports_statuses(current: StateView, desired: StateView)
    ensures
        transition_between(current, desired) matches Transition::Changed { from, to } ==> from
            == current.status && to == desired.status && current != desired,
{
}

/// Law: persisting a state and restoring it after a restart gives back the
/// same state, whenever the sound id fits the record's 16-bit length field.
pub proof fn lemma_restart_restores_state(s: StateView)
    requires
        s.current_sound matches Some(c) ==> encode_utf8(c).len() <= MAX_SOUND_BYTES,
    ensures
        decode_payload(encoded_state(persisted_of(s))) matches Ok(p) && state_of(p) == s,
{
    crate::persistence::lemma_payload_round_trip(persisted_of(s));
    assert(state_of(persisted_of(s)) =~= s);
}

/// Law: after a restart, the daemon restored from what it persisted reports
/// a missed fire exactly when it was armed with a fire time at or before the
/// restart time; a daemon restored from the empty record never does. (The
/// sound id must fit the record's 16-bit length field.)
pub proof fn lemma_restart_reports_missed_fire(s: StateView, now_ms: i64)
    requires
        s.current_sound matches Some(c) ==> encode_utf8(c).len() <= MAX_SOUND_BYTES,
    ensures
        decode_payload(encoded_state(persisted_of(s))) matches Ok(p) && state_of(p) == s && (
        missed_fire(p, now_ms) <==> (s.status == AlarmStatus::Armed && match s.next_fire_unix_ms {
            Some(t) => t <= now_ms,
            None => false,
        })),
        !missed_fire(default_view(), now_ms),
{
    lemma_restart_restores_state(s);
}

} // verus!
