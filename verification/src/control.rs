//! The decisions behind the D-Bus control surface (`Arm`, `Disarm`,
//! `Snooze`, `Dismiss`, `Status`, `CurrentSound`, `ListSounds`).
//!
//! Each request is a step from the current state to the next one plus the
//! work the caller then performs: cancel the pending trigger, play a sound
//! after a delay, persist the new state, emit `StateChanged`.

use vstd::prelude::*;

use crate::daemon::{armed_view, disarmed_view, transition_between, AlarmDaemon, AlarmStatus, StateView, Transition};
use crate::persistence::opt_str_view;
use crate::sounds::{
    candidates, entry_of, is_single_component, latest, lemma_listing_namespaced,
    lemma_sound_path_is_entry, listed, parse_sound_id, represents, sound_path, SoundFile,
    SoundLibrary, SoundSource, SoundSummary,
};
use crate::text::{decimal, lemma_decimal_parses_back, parsed_u64};
use crate::time::{Duration, NANOS_PER_MILLI, NANOS_PER_SEC};

verus! {

/// Delay between `Arm` and the alarm firing when no delay is configured
/// (3 s).
pub const DEFAULT_TRIGGER_DELAY_MS: u64 = 3000;

/// Errors returned to D-Bus callers.
#[derive(Debug)]
pub enum ControlError {
    /// The caller's arguments were rejected.
    InvalidArgs(String),
    /// The request could not be carried out in the current state.
    Failed(String),
}

/// The `StateChanged` signal a transition calls for: the new armed flag,
/// when the armed/disarmed status actually changed.
pub open spec fn signal_for(t: Transition) -> Option<bool> {
    match t {
        Transition::Changed { from, to } => if from != to {
            Some(to == AlarmStatus::Armed)
        } else {
            None
        },
        Transition::NoChange => None,
    }
}

/// Decides whether a transition emits `StateChanged`, and with which value.
pub fn state_changed_signal(t: Transition) -> (s: Option<bool>)
    ensures
        s == signal_for(t),
{
    match t {
        Transition::Changed { from, to } => {
            if from != to {
                Some(to.is_armed())
            } else {
                None
            }
        },
        Transition::NoChange => None,
    }
}

/// The trigger delay configured by `ALARM_DAEMON_TRIGGER_DELAY_MS`, in
/// milliseconds: the setting when it is a valid `u64`, the default otherwise.
pub open spec fn configured_delay_ms(raw: Option<Seq<char>>) -> u64 {
    match raw {
        Some(s) => match parsed_u64(s) {
            Some(ms) => ms,
            None => DEFAULT_TRIGGER_DELAY_MS,
        },
        None => DEFAULT_TRIGGER_DELAY_MS,
    }
}

/// The trigger delay for the raw `ALARM_DAEMON_TRIGGER_DELAY_MS` setting.
pub fn trigger_delay_from(raw: Option<&str>) -> (d: Duration)
    ensures
        d@ == configured_delay_ms(match raw {
            Some(s) => Some(s@),
            None => None,
        }) * NANOS_PER_MILLI,
{
    match raw {
        Some(s) => match crate::text::parse_u64(s) {
            Some(ms) => Duration::from_millis(ms),
            None => Duration::from_millis(DEFAULT_TRIGGER_DELAY_MS),
        },
        None => Duration::from_millis(DEFAULT_TRIGGER_DELAY_MS),
    }
}

/// Wall-clock milliseconds since the epoch for a time `now` since the
/// epoch, truncated to `i64` as an `as` cast does.
pub open spec fn now_ms_of(now: nat) -> i64 {
    ((now / (NANOS_PER_MILLI as nat)) as u128) as i64
}

/// When an alarm armed at `now_ms` with a delay of `delay_ms` fires: the sum,
/// with the delay capped at `i64::MAX` and the sum saturating.
pub open spec fn fire_time(now_ms: i64, delay_ms: nat) -> i64 {
    let d: int = if delay_ms > i64::MAX { i64::MAX as int } else { delay_ms as int };
    if now_ms + d > i64::MAX {
        i64::MAX
    } else {
        (now_ms + d) as i64
    }
}

/// What the caller must do after a successful `Arm` or `Snooze`: cancel the
/// pending trigger and stop playback, persist the state if the transition
/// changed it, play `sound_path` after `delay`, and emit `StateChanged` when
/// `state_changed` holds a value.
#[derive(Debug)]
pub struct TriggerPlan {
    pub transition: Transition,
    pub sound_path: String,
    pub delay: Duration,
    pub fire_at_unix_ms: i64,
    pub state_changed: Option<bool>,
}

/// What the caller must do after `Disarm` or `Dismiss` (the pending trigger
/// is cancelled before either): persist the state if it changed, and emit
/// `StateChanged` when `state_changed` holds a value.
#[derive(Debug, Clone, Copy, PartialEq, Eq, Structural)]
pub struct DisarmPlan {
    pub transition: Transition,
    pub state_changed: Option<bool>,
}

/// The file that resolution picks for a well-formed sound id, if any.
pub open spec fn resolved_file(lib: SoundLibrary, id: Seq<char>, existing: Seq<String>) -> Option<
    Seq<char>,
> {
    match parse_sound_id(id) {
        Some((source, name)) => {
            let dir = lib.dir_of(source);
            if listed(existing, sound_path(dir, name, "wav"@)) {
                Some(sound_path(dir, name, "wav"@))
            } else if listed(existing, sound_path(dir, name, "flac"@)) {
                Some(sound_path(dir, name, "flac"@))
            } else {
                None
            }
        },
        None => None,
    }
}

/// The `InvalidArgs` message for a sound id that does not resolve.
pub open spec fn unresolved_message(id: Seq<char>) -> Seq<char> {
    match parse_sound_id(id) {
        Some((source, name)) => "unknown sound id: "@ + crate::sounds::source_prefix(source) + ":"@
            + name,
        None => "invalid sound id: "@ + id,
    }
}

/// The D-Bus control object's state: the daemon, the sound library and the
/// trigger delay.
#[derive(Debug)]
pub struct Control {
    daemon: AlarmDaemon,
    sounds: SoundLibrary,
    trigger_delay: Duration,
}

impl Control {
    /// The daemon state.
    pub closed spec fn state(&self) -> StateView {
        self.daemon@
    }

    /// The sound library.
    pub closed spec fn library(&self) -> SoundLibrary {
        self.sounds
    }

    /// The delay between `Arm` and the alarm firing, in nanoseconds.
    pub closed spec fn delay(&self) -> nat {
        self.trigger_delay@
    }

    /// Creates the control object; `trigger_delay_setting` is the raw
    /// `ALARM_DAEMON_TRIGGER_DELAY_MS` setting.
    pub fn new(daemon: AlarmDaemon, sounds: SoundLibrary, trigger_delay_setting: Option<&str>) -> (c:
        Control)
        ensures
            c.state() == daemon@,
            c.library() == sounds,
            c.delay() == configured_delay_ms(match trigger_delay_setting {
                Some(s) => Some(s@),
                None => None,
            }) * NANOS_PER_MILLI,
    {
        Control { daemon, sounds, trigger_delay: trigger_delay_from(trigger_delay_setting) }
    }

    /// The daemon state machine.
    pub fn daemon(&self) -> (d: &AlarmDaemon)
        ensures
            d@ == self.state(),
    {
        &self.daemon
    }

    /// The sound library.
    pub fn sound_library(&self) -> (l: &SoundLibrary)
        ensures
            *l == self.library(),
    {
        &self.sounds
    }

    /// Validates `sound_id` against the `existing` files, arms the daemon
    /// with it to fire after `delay` from `now` (time since the epoch), and
    /// returns the trigger to schedule. An unknown or malformed id is
    /// rejected with `InvalidArgs` and changes nothing.
    pub fn schedule_trigger_with_delay(
        &mut self,
        sound_id: String,
        delay: Duration,
        existing: &Vec<String>,
        now: Duration,
    ) -> (r: Result<TriggerPlan, ControlError>)
        ensures
            final(self).library() == old(self).library(),
            final(self).delay() == old(self).delay(),
            match resolved_file(old(self).library(), sound_id@, existing@) {
                Some(path) => r matches Ok(plan) && {
                    let next = armed_view(
                        Some(sound_id@),
                        Some(fire_time(now_ms_of(now@), delay@ / (NANOS_PER_MILLI as nat))),
                    );
                    &&& final(self).state() == next
                    &&& plan.transition == transition_between(old(self).state(), next)
                    &&& plan.sound_path@ == path
                    &&& plan.delay == delay
                    &&& plan.fire_at_unix_ms == fire_time(
                        now_ms_of(now@),
                        delay@ / (NANOS_PER_MILLI as nat),
                    )
                    &&& plan.state_changed == signal_for(plan.transition)
                },
                None => r matches Err(ControlError::InvalidArgs(m)) && m@ == unresolved_message(
                    sound_id@,
                ) && final(self).state() == old(self).state(),
            },
    {
        let path = match self.sounds.resolve_path(sound_id.as_str(), existing) {
            Ok(p) => p,
            Err(e) => {
                return Err(ControlError::InvalidArgs(e.to_string()));
            },
        };
        let now_ms = now.as_millis() as i64;
        let delay_ms_full = delay.as_millis();
        let delay_ms: i64 = if delay_ms_full > i64::MAX as u128 {
            i64::MAX
        } else {
            delay_ms_full as i64
        };
        let fire_at = if now_ms > i64::MAX - delay_ms {
            i64::MAX
        } else {
            now_ms + delay_ms
        };
        let transition = self.daemon.arm_with_sound(sound_id, Some(fire_at));
        let state_changed = state_changed_signal(transition);
        Ok(TriggerPlan { transition, sound_path: path, delay, fire_at_unix_ms: fire_at, state_changed })
    }

    /// `Arm(sound_id)`: arms with the configured trigger delay.
    pub fn arm(&mut self, sound_id: &str, existing: &Vec<String>, now: Duration) -> (r: Result<
        TriggerPlan,
        ControlError,
    >)
        ensures
            final(self).library() == old(self).library(),
            final(self).delay() == old(self).delay(),
            match resolved_file(old(self).library(), sound_id@, existing@) {
                Some(path) => r matches Ok(plan) && {
                    let next = armed_view(
                        Some(sound_id@),
                        Some(
                            fire_time(now_ms_of(now@), old(self).delay() / (NANOS_PER_MILLI as nat)),
                        ),
                    );
                    &&& final(self).state() == next
                    &&& plan.transition == transition_between(old(self).state(), next)
                    &&& plan.sound_path@ == path
                    &&& plan.delay@ == old(self).delay()
                    &&& plan.state_changed == signal_for(plan.transition)
                },
                None => r matches Err(ControlError::InvalidArgs(m)) && m@ == unresolved_message(
                    sound_id@,
                ) && final(self).state() == old(self).state(),
            },
    {
        let delay = self.trigger_delay;
        self.schedule_trigger_with_delay(String::from_str(sound_id), delay, existing, now)
    }

    /// `Snooze(duration_s)`: re-schedules the currently selected sound to
    /// fire `duration_s` seconds from `now`, keeping the alarm armed. It
    /// never emits `StateChanged`.
    pub fn snooze(&mut self, duration_s: u32, existing: &Vec<String>, now: Duration) -> (r: Result<
        TriggerPlan,
        ControlError,
    >)
        ensures
            final(self).library() == old(self).library(),
            final(self).delay() == old(self).delay(),
            duration_s == 0 ==> (r matches Err(ControlError::InvalidArgs(m)) && m@
                == "duration_s must be > 0"@ && final(self).state() == old(self).state()),
            duration_s != 0 && old(self).state().current_sound is None ==> (r matches Err(
                ControlError::Failed(m),
            ) && m@ == "cannot snooze: no armed alarm sound"@ && final(self).state() == old(
                self,
            ).state()),
            duration_s != 0 && old(self).state().current_sound is Some ==> match resolved_file(
                old(self).library(),
                old(self).state().current_sound.unwrap(),
                existing@,
            ) {
                Some(path) => r matches Ok(plan) && {
                    let next = armed_view(
                        old(self).state().current_sound,
                        Some(fire_time(now_ms_of(now@), (duration_s * 1000) as nat)),
                    );
                    &&& final(self).state() == next
                    &&& plan.transition == transition_between(old(self).state(), next)
                    &&& plan.sound_path@ == path
                    &&& plan.delay@ == duration_s * NANOS_PER_SEC
                    &&& plan.state_changed is None
                },
                None => r matches Err(ControlError::InvalidArgs(m)) && m@ == unresolved_message(
                    old(self).state().current_sound.unwrap(),
                ) && final(self).state() == old(self).state(),
            },
    {
        if duration_s == 0 {
            return Err(ControlError::InvalidArgs(String::from_str("duration_s must be > 0")));
        }
        let sound_id = match self.daemon.current_sound() {
            Some(id) => id,
            None => {
                return Err(
                    ControlError::Failed(String::from_str("cannot snooze: no armed alarm sound")),
                );
            },
        };
        let delay = Duration::from_secs(duration_s as u64);
        assert(delay@ / (NANOS_PER_MILLI as nat) == (duration_s * 1000) as nat);
        match self.schedule_trigger_with_delay(sound_id, delay, existing, now) {
            Ok(plan) => Ok(
                TriggerPlan {
                    transition: plan.transition,
                    sound_path: plan.sound_path,
                    delay: plan.delay,
                    fire_at_unix_ms: plan.fire_at_unix_ms,
                    state_changed: None,
                },
            ),
            Err(e) => Err(e),
        }
    }

    /// `Disarm()`: disarms, clearing the fire time and the sound. Idempotent.
    pub fn disarm(&mut self) -> (p: DisarmPlan)
        ensures
            final(self).library() == old(self).library(),
            final(self).delay() == old(self).delay(),
            final(self).state() == disarmed_view(),
            p.transition == transition_between(old(self).state(), disarmed_view()),
            p.state_changed == signal_for(p.transition),
    {
        let transition = self.daemon.disarm();
        DisarmPlan { transition, state_changed: state_changed_signal(transition) }
    }

    /// `Dismiss()`: acknowledges the alarm; the same state change as
    /// `Disarm`.
    pub fn dismiss(&mut self) -> (p: DisarmPlan)
        ensures
            final(self).library() == old(self).library(),
            final(self).delay() == old(self).delay(),
            final(self).state() == disarmed_view(),
            p.transition == transition_between(old(self).state(), disarmed_view()),
            p.state_changed == signal_for(p.transition),
    {
        self.disarm()
    }

    /// `Status()`: whether the alarm is armed.
    pub fn status(&self) -> (b: bool)
        ensures
            b == (self.state().status == AlarmStatus::Armed),
    {
        self.daemon.status().is_armed()
    }

    /// `CurrentSound()`: the selected sound id, or the empty string when no
    /// sound is selected.
    pub fn current_sound(&self) -> (s: String)
        ensures
            s@ == sound_reply(self.state().current_sound),
    {
        sound_to_reply(self.daemon.current_sound())
    }

    /// `ListSounds()`: the ids of the installed sounds, given the files found
    /// in the built-in and custom directories.
    pub fn list_sounds(&self, builtin: &Vec<SoundFile>, custom: &Vec<SoundFile>) -> (ids: Vec<
        String,
    >)
        ensures
            exists|r: Seq<SoundSummary>|
                represents(
                    r,
                    candidates(builtin@, SoundSource::Builtin) + candidates(
                        custom@,
                        SoundSource::Custom,
                    ),
                ) && ids@.len() == r.len() && forall|i: int|
                    0 <= i < r.len() ==> (#[trigger] ids@[i])@ == r[i]@.id,
    {
        let sounds = self.sounds.list_sounds(builtin, custom);
        let mut ids: Vec<String> = Vec::new();
        let mut i: usize = 0;
        while i < sounds.len()
            invariant
                i <= sounds@.len(),
                ids@.len() == i,
                forall|j: int| 0 <= j < i ==> (#[trigger] ids@[j])@ == sounds@[j]@.id,
            decreases sounds@.len() - i,
        {
            ids.push(sounds[i].id.clone());
            i = i + 1;
        }
        ids
    }
}

/// The `CurrentSound` reply for an optional sound id: the id, or the empty
/// string.
pub open spec fn sound_reply(s: Option<Seq<char>>) -> Seq<char> {
    match s {
        Some(id) => id,
        None => Seq::empty(),
    }
}

/// The sound id a `CurrentSound` reply reports: none for the empty string.
pub open spec fn sound_of_reply(reply: Seq<char>) -> Option<Seq<char>> {
    if reply.len() == 0 {
        None
    } else {
        Some(reply)
    }
}

/// Encodes an optional sound id as a `CurrentSound` reply.
pub fn sound_to_reply(s: Option<String>) -> (r: String)
    ensures
        r@ == sound_reply(opt_str_view(s)),
{
    match s {
        Some(id) => id,
        None => String::new(),
    }
}

/// Decodes a `CurrentSound` reply on the client side: the empty string
/// means no sound is selected.
pub fn reply_to_sound(reply: String) -> (s: Option<String>)
    ensures
        opt_str_view(s) == sound_of_reply(reply@),
{
    if reply.as_str().unicode_len() == 0 {
        None
    } else {
        Some(reply)
    }
}

/// Law: the client reads back, from the `CurrentSound` reply, exactly the
/// sound the daemon has selected, provided sound ids are never empty.
pub proof fn lemma_current_sound_round_trip(s: Option<Seq<char>>)
    requires
        s matches Some(id) ==> id.len() > 0,
    ensures
        sound_of_reply(sound_reply(s)) == s,
{
}

/// Law: a sound id that resolves picks a single entry of the library's
/// directory for its namespace, so no client-provided id reaches a file
/// anywhere else.
pub proof fn lemma_resolved_file_inside_library(lib: SoundLibrary, id: Seq<char>, existing: Seq<
    String,
>)
    requires
        resolved_file(lib, id, existing) is Some,
    ensures
        parse_sound_id(id) matches Some((source, name)) && exists|file: Seq<char>|
            is_single_component(file) && resolved_file(lib, id, existing) == Some(
                entry_of(lib.dir_of(source), file),
            ),
{
    let (source, name) = parse_sound_id(id).unwrap();
    let dir = lib.dir_of(source);
    if listed(existing, sound_path(dir, name, "wav"@)) {
        lemma_sound_path_is_entry(dir, name, "wav"@);
        assert(is_single_component(name + "."@ + "wav"@));
    } else {
        lemma_sound_path_is_entry(dir, name, "flac"@);
        assert(is_single_component(name + "."@ + "flac"@));
    }
}

/// Law: every id that `ListSounds` returns is one that `Arm` accepts: it
/// parses to the entry's own namespace and name, and it resolves whenever
/// the entry's `.wav` or `.flac` file is among the existing paths.
pub proof fn lemma_listed_ids_resolve(
    lib: SoundLibrary,
    builtin: Seq<SoundFile>,
    custom: Seq<SoundFile>,
    r: Seq<SoundSummary>,
    existing: Seq<String>,
    i: int,
)
    requires
        represents(
            r,
            candidates(builtin, SoundSource::Builtin) + candidates(custom, SoundSource::Custom),
        ),
        0 <= i < r.len(),
        listed(existing, sound_path(lib.dir_of(r[i].source), r[i]@.name, "wav"@)) || listed(
            existing,
            sound_path(lib.dir_of(r[i].source), r[i]@.name, "flac"@),
        ),
    ensures
        parse_sound_id(r[i]@.id) == Some((r[i].source, r[i]@.name)),
        resolved_file(lib, r[i]@.id, existing) is Some,
{
    reveal(represents);
    let all = candidates(builtin, SoundSource::Builtin) + candidates(custom, SoundSource::Custom);
    lemma_listing_namespaced(builtin, custom);
    let k = choose|k: int| #![trigger all[k]] latest(all, k) && all[k] == r[i]@;
    assert(all[k] == r[i]@);
    let id = r[i]@.id;
    let name = r[i]@.name;
    reveal_strlit("builtin");
    reveal_strlit("custom");
    reveal_strlit(":");
    reveal_strlit("builtin:");
    reveal_strlit("custom:");
    match r[i].source {
        SoundSource::Builtin => {
            assert(id == "builtin"@ + ":"@ + name);
            assert(id.take(8) =~= "builtin:"@);
            assert(id.skip(8) =~= name);
        },
        SoundSource::Custom => {
            assert(id == "custom"@ + ":"@ + name);
            assert(id[0] == 'c');
            if id.len() >= 8 {
                assert(id.take(8)[0] != "builtin:"@[0]);
            }
            assert(id.take(7) =~= "custom:"@);
            assert(id.skip(7) =~= name);
        },
    }
}

/// Law: the trigger delay is the configured number of milliseconds whenever
/// the setting is a valid `u64` (zero included, which fires at once), and
/// the 3 s default only when the setting is unset or does not parse.
pub proof fn lemma_delay_setting_is_honoured(s: Seq<char>, n: u64)
    ensures
        parsed_u64(s) matches Some(ms) ==> configured_delay_ms(Some(s)) == ms,
        parsed_u64(s) is None ==> configured_delay_ms(Some(s)) == 3000,
        configured_delay_ms(None) == 3000,
        configured_delay_ms(Some(decimal(n as nat))) == n,
{
    lemma_decimal_parses_back(n);
}

/// Law: `StateChanged` is emitted exactly when a request moves the alarm
/// between armed and disarmed, and then carries the new armed flag.
pub proof fn lemma_signal_only_on_status_change(current: StateView, next: StateView)
    ensures
        signal_for(transition_between(current, next)) is Some <==> current.status != next.status,
        signal_for(transition_between(current, next)) matches Some(armed) ==> armed == (next.status
            == AlarmStatus::Armed),
{
}

/// Law: a successful snooze leaves the alarm armed with the sound it had.
pub proof fn lemma_snooze_keeps_sound(current: StateView, fire_at: i64)
    requires
        current.current_sound is Some,
    ensures
        armed_view(current.current_sound, Some(fire_at)).status == AlarmStatus::Armed,
        armed_view(current.current_sound, Some(fire_at)).current_sound == current.current_sound,
{
}

} // verus!
