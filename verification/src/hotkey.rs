//! The gesture classifier for one global modifier key.
//!
//! A stream of raw flag-transition events becomes exactly one of three
//! outcomes per physical gesture: a tap, a confirmed hold that later ends
//! (valid or too short), or a cancellation. The machine is pure: the
//! surrounding application owns the event tap and the one-shot delayed
//! check, and drives [`HotkeyMachine`] with what it observes, serialized
//! under its state lock.

use vstd::prelude::*;

verus! {

/// Flag-word bit for the monitored modifier key.
pub const FN_FLAG_MASK: u64 = 0x800000;

pub const SHIFT_FLAG: u64 = 0x020000;

pub const CTRL_FLAG: u64 = 0x040000;

pub const ALT_FLAG: u64 = 0x080000;

pub const CMD_FLAG: u64 = 0x100000;

/// How long the key must stay down before a hold is confirmed.
pub const HOLD_THRESHOLD_MS: u64 = 300;

/// The shortest hold that counts as a valid recording.
pub const MIN_RECORDING_MS: u64 = 500;

/// Events closer together than this are hardware chatter.
pub const DEBOUNCE_MS: u64 = 50;

/// Key code of the paste shortcut's letter key.
pub const PASTE_KEYCODE: i64 = 0x09;

/// Where the machine is within one gesture.
#[derive(Debug, Clone, Copy, PartialEq, Eq, Structural)]
pub enum GestureState {
    Idle,
    Pending,
    Holding,
}

/// What the machine tells the surrounding application.
#[derive(Debug, Clone, Copy, PartialEq, Eq, Structural)]
pub enum Notification {
    /// The key stayed down past the threshold: start the downstream action.
    HoldConfirmed,
    /// Down and up before the threshold: the lightweight toggle action.
    Tap,
    /// The hold ended after at least the minimum valid duration.
    HoldEndedValid,
    /// The hold ended too soon after confirmation: discard what started.
    HoldEndedTooShort,
    /// A modifier combination interrupted a confirmed hold.
    CancelledCombo,
    /// An ordinary key press interrupted a confirmed hold.
    CancelledOtherKey,
    /// The dedicated paste shortcut, recognized in any state.
    PasteShortcut,
}

/// The three timing windows; fixed at startup.
#[derive(Debug, Clone, Copy, PartialEq, Eq, Structural)]
pub struct HotkeyConfig {
    pub hold_threshold_ms: u64,
    pub min_valid_ms: u64,
    pub debounce_ms: u64,
}

impl Default for HotkeyConfig {
    /// The documented default windows.
    fn default() -> (r: Self)
        ensures
            r.hold_threshold_ms == HOLD_THRESHOLD_MS,
            r.min_valid_ms == MIN_RECORDING_MS,
            r.debounce_ms == DEBOUNCE_MS,
    {
        HotkeyConfig {
            hold_threshold_ms: HOLD_THRESHOLD_MS,
            min_valid_ms: MIN_RECORDING_MS,
            debounce_ms: DEBOUNCE_MS,
        }
    }
}

/// The classifier. `press_epoch_ms` is meaningful while a gesture is
/// active; `cancel_flag` models the cancellation token shared with the
/// delayed check; `episode` counts gestures — each press that starts a
/// new gesture takes a fresh number, and a delayed check acts only for
/// the episode that scheduled it, so a stale check can never touch a
/// newer gesture; `clock_ms` is the time of the latest timed event, so
/// that time never runs backwards through the machine.
#[derive(Debug, Clone, Copy, PartialEq, Eq, Structural)]
pub struct HotkeyMachine {
    pub config: HotkeyConfig,
    pub state: GestureState,
    pub press_epoch_ms: u64,
    pub last_accepted_ms: u64,
    pub saw_event: bool,
    pub cancel_flag: bool,
    pub episode: u64,
    pub clock_ms: u64,
}

/// Time never moves backwards through the recorded fields.
pub open spec fn machine_inv(m: HotkeyMachine) -> bool {
    m.press_epoch_ms <= m.clock_ms && m.last_accepted_ms <= m.clock_ms
}

/// Whether a flags event at `now` passes the debounce filter.
pub open spec fn accepted(m: HotkeyMachine, now: u64) -> bool {
    !m.saw_event || now - m.last_accepted_ms >= m.config.debounce_ms
}

/// One flags-transition event: the next machine, the notifications it
/// emits, and — when a fresh gesture starts — the episode number under
/// which a delayed check must be scheduled.
///
/// Order of evaluation: debounce first (a chattering event affects
/// nothing), then the combo rule (the tracked key together with another
/// modifier forces `Idle` and is not a fresh press), then the gesture
/// transitions.
pub open spec fn flags_step(m: HotkeyMachine, now: u64, fn_down: bool, combo: bool) -> (
    HotkeyMachine,
    Seq<Notification>,
    Option<u64>,
) {
    if !accepted(m, now) {
        (m, Seq::empty(), None)
    } else {
        let m1 = HotkeyMachine { last_accepted_ms: now, saw_event: true, clock_ms: now, ..m };
        if fn_down && combo {
            match m.state {
                GestureState::Pending => (
                    HotkeyMachine { state: GestureState::Idle, cancel_flag: true, ..m1 },
                    Seq::empty(),
                    None,
                ),
                GestureState::Holding => (
                    HotkeyMachine { state: GestureState::Idle, ..m1 },
                    seq![Notification::CancelledCombo],
                    None,
                ),
                GestureState::Idle => (m1, Seq::empty(), None),
            }
        } else {
            match (m.state, fn_down) {
                (GestureState::Idle, true) => (
                    HotkeyMachine {
                        state: GestureState::Pending,
                        press_epoch_ms: now,
                        cancel_flag: false,
                        episode: (m.episode + 1) as u64,
                        ..m1
                    },
                    Seq::empty(),
                    Some((m.episode + 1) as u64),
                ),
                (GestureState::Pending, false) => (
                    HotkeyMachine { state: GestureState::Idle, cancel_flag: true, ..m1 },
                    seq![Notification::Tap],
                    None,
                ),
                (GestureState::Holding, false) => (
                    HotkeyMachine { state: GestureState::Idle, ..m1 },
                    if now - m.press_epoch_ms >= m.config.min_valid_ms {
                        seq![Notification::HoldEndedValid]
                    } else {
                        seq![Notification::HoldEndedTooShort]
                    },
                    None,
                ),
                _ => (m1, Seq::empty(), None),
            }
        }
    }
}

/// The delayed check firing, carrying the episode that scheduled it: a
/// no-op once cancelled, once the gesture resolved, or once a newer
/// episode has begun — only the episode that scheduled the check can be
/// confirmed by it.
pub open spec fn timer_step(m: HotkeyMachine, episode: u64) -> (
    HotkeyMachine,
    Option<Notification>,
) {
    if episode != m.episode {
        (m, None)
    } else if m.cancel_flag {
        (m, None)
    } else if m.state is Pending {
        (
            HotkeyMachine { state: GestureState::Holding, ..m },
            Some(Notification::HoldConfirmed),
        )
    } else {
        (m, None)
    }
}

/// An ordinary key pressed: the paste shortcut is recognized in any state
/// and touches nothing; any other key cancels an active gesture.
pub open spec fn key_step(m: HotkeyMachine, is_paste: bool) -> (
    HotkeyMachine,
    Seq<Notification>,
) {
    if is_paste {
        (m, seq![Notification::PasteShortcut])
    } else {
        match m.state {
            GestureState::Pending => (
                HotkeyMachine { state: GestureState::Idle, cancel_flag: true, ..m },
                Seq::empty(),
            ),
            GestureState::Holding => (
                HotkeyMachine { state: GestureState::Idle, ..m },
                seq![Notification::CancelledOtherKey],
            ),
            GestureState::Idle => (m, Seq::empty()),
        }
    }
}

impl HotkeyMachine {
    /// A fresh machine, idle, with nothing recorded.
    pub fn new(config: HotkeyConfig) -> (r: Self)
        ensures
            r.config == config,
            r.state is Idle,
            r.press_epoch_ms == 0 && r.last_accepted_ms == 0 && r.clock_ms == 0,
            !r.saw_event && !r.cancel_flag,
            r.episode == 0,
            machine_inv(r),
    {
        HotkeyMachine {
            config,
            state: GestureState::Idle,
            press_epoch_ms: 0,
            last_accepted_ms: 0,
            saw_event: false,
            cancel_flag: false,
            episode: 0,
            clock_ms: 0,
        }
    }

    /// Feeds one flags-transition event, exactly as [`flags_step`] says.
    /// When a gesture starts, the returned episode number is the one the
    /// caller must hand to the delayed check it schedules.
    pub fn on_flags_changed(&mut self, now: u64, fn_down: bool, combo: bool) -> (r: (
        Vec<Notification>,
        Option<u64>,
    ))
        requires
            machine_inv(*old(self)),
            now >= old(self).clock_ms,
            old(self).episode < u64::MAX,
        ensures
            (flags_step(*old(self), now, fn_down, combo) == (*final(self), r.0@, r.1)),
            machine_inv(*final(self)),
            final(self).clock_ms >= old(self).clock_ms,
            final(self).config == old(self).config,
    {
        let mut out: Vec<Notification> = Vec::new();
        if self.saw_event && now - self.last_accepted_ms < self.config.debounce_ms {
            proof {
                assert((flags_step(*self, now, fn_down, combo)) == (
                    *self,
                    out@,
                    Option::<u64>::None,
                ));
            }
            return (out, None);
        }
        self.last_accepted_ms = now;
        self.saw_event = true;
        self.clock_ms = now;
        if fn_down && combo {
            match self.state {
                GestureState::Pending => {
                    self.state = GestureState::Idle;
                    self.cancel_flag = true;
                    (out, None)
                },
                GestureState::Holding => {
                    self.state = GestureState::Idle;
                    out.push(Notification::CancelledCombo);
                    (out, None)
                },
                GestureState::Idle => (out, None),
            }
        } else {
            match (self.state, fn_down) {
                (GestureState::Idle, true) => {
                    self.state = GestureState::Pending;
                    self.press_epoch_ms = now;
                    self.cancel_flag = false;
                    self.episode = self.episode + 1;
                    (out, Some(self.episode))
                },
                (GestureState::Pending, false) => {
                    self.state = GestureState::Idle;
                    self.cancel_flag = true;
                    out.push(Notification::Tap);
                    (out, None)
                },
                (GestureState::Holding, false) => {
                    self.state = GestureState::Idle;
                    if now - self.press_epoch_ms >= self.config.min_valid_ms {
                        out.push(Notification::HoldEndedValid);
                    } else {
                        out.push(Notification::HoldEndedTooShort);
                    }
                    (out, None)
                },
                _ => (out, None),
            }
        }
    }

    /// The delayed check firing, exactly as [`timer_step`] says:
    /// `episode` is the number handed out when the check was scheduled,
    /// and a check from any other episode changes nothing and emits
    /// nothing.
    pub fn on_timer_fire(&mut self, episode: u64) -> (r: Option<Notification>)
        requires
            machine_inv(*old(self)),
        ensures
            (timer_step(*old(self), episode) == (*final(self), r)),
            machine_inv(*final(self)),
            final(self).clock_ms == old(self).clock_ms,
            final(self).config == old(self).config,
    {
        if episode != self.episode {
            None
        } else if self.cancel_flag {
            None
        } else if matches!(self.state, GestureState::Pending) {
            self.state = GestureState::Holding;
            Some(Notification::HoldConfirmed)
        } else {
            None
        }
    }

    /// An ordinary key pressed, exactly as [`key_step`] says.
    pub fn on_other_key(&mut self, is_paste: bool) -> (r: Vec<Notification>)
        requires
            machine_inv(*old(self)),
        ensures
            (key_step(*old(self), is_paste) == (*final(self), r@)),
            machine_inv(*final(self)),
            final(self).clock_ms == old(self).clock_ms,
            final(self).config == old(self).config,
    {
        let mut out: Vec<Notification> = Vec::new();
        if is_paste {
            out.push(Notification::PasteShortcut);
            return out;
        }
        match self.state {
            GestureState::Pending => {
                self.state = GestureState::Idle;
                self.cancel_flag = true;
                out
            },
            GestureState::Holding => {
                self.state = GestureState::Idle;
                out.push(Notification::CancelledOtherKey);
                out
            },
            GestureState::Idle => out,
        }
    }
}

// ---------------------------------------------------------------------------
// Laws of the classifier.
// ---------------------------------------------------------------------------

/// Gesture classification, short press: a down event at `t` and an up
/// event at `t + d` with no interruption, `d` below the hold threshold,
/// produce exactly one tap — and the delayed check scheduled by the down
/// event confirms nothing when it fires after the up event, however close
/// the race (the cancellation flag set by the up event silences it).
pub proof fn lemma_gesture_tap(m0: HotkeyMachine, t: u64, d: u64)
    requires
        machine_inv(m0),
        m0.state is Idle,
        t >= m0.clock_ms,
        accepted(m0, t),
        m0.episode < u64::MAX,
        d >= m0.config.debounce_ms,
        d < m0.config.hold_threshold_ms,
        t + d <= u64::MAX,
    ensures
        ({
            let (m1, n1, sched) = flags_step(m0, t, true, false);
            let (m2, n2, s2) = flags_step(m1, (t + d) as u64, false, false);
            let (m3, n3) = timer_step(m2, m1.episode);
            n1 =~= Seq::<Notification>::empty() && sched == Some(m1.episode) && n2 =~= seq![
                Notification::Tap,
            ] && s2 is None && n3 is None && m3.state is Idle
        }),
{
}

/// Gesture classification, hold: a down event at `t`, the delayed check
/// firing at the threshold, and an up event at `t + d` at or past the
/// threshold produce exactly a hold confirmation and then one hold-ended
/// notification — valid when the hold lasted at least the minimum valid
/// duration, too-short otherwise.
pub proof fn lemma_gesture_hold(m0: HotkeyMachine, t: u64, d: u64)
    requires
        machine_inv(m0),
        m0.state is Idle,
        t >= m0.clock_ms,
        accepted(m0, t),
        m0.episode < u64::MAX,
        d >= m0.config.debounce_ms,
        d >= m0.config.hold_threshold_ms,
        t + d <= u64::MAX,
    ensures
        ({
            let (m1, n1, sched) = flags_step(m0, t, true, false);
            let (m2, n2) = timer_step(m1, m1.episode);
            let (m3, n3, s3) = flags_step(m2, (t + d) as u64, false, false);
            n1 =~= Seq::<Notification>::empty() && sched == Some(m1.episode) && n2 == Some(
                Notification::HoldConfirmed,
            ) && m2.state is Holding && s3 is None && m3.state is Idle && (if d
                >= m0.config.min_valid_ms {
                n3 =~= seq![Notification::HoldEndedValid]
            } else {
                n3 =~= seq![Notification::HoldEndedTooShort]
            })
        }),
{
}

/// The cancellation race at the documented defaults: the up event arrives
/// one unit under the threshold, the delayed check fires at the threshold;
/// only the tap is emitted.
pub proof fn lemma_cancellation_race(t: u64)
    requires
        t + 299 <= u64::MAX,
    ensures
        ({
            let m0 = HotkeyMachine {
                config: HotkeyConfig {
                    hold_threshold_ms: HOLD_THRESHOLD_MS,
                    min_valid_ms: MIN_RECORDING_MS,
                    debounce_ms: DEBOUNCE_MS,
                },
                state: GestureState::Idle,
                press_epoch_ms: 0,
                last_accepted_ms: 0,
                saw_event: false,
                cancel_flag: false,
                episode: 0,
                clock_ms: 0,
            };
            let (m1, n1, sched) = flags_step(m0, t, true, false);
            let (m2, n2, s2) = flags_step(m1, (t + 299) as u64, false, false);
            let (m3, n3) = timer_step(m2, m1.episode);
            n1 =~= Seq::<Notification>::empty() && sched == Some(m1.episode) && n2 =~= seq![
                Notification::Tap,
            ] && n3 is None && m3.state is Idle
        }),
{
    let m0 = HotkeyMachine {
        config: HotkeyConfig {
            hold_threshold_ms: HOLD_THRESHOLD_MS,
            min_valid_ms: MIN_RECORDING_MS,
            debounce_ms: DEBOUNCE_MS,
        },
        state: GestureState::Idle,
        press_epoch_ms: 0,
        last_accepted_ms: 0,
        saw_event: false,
        cancel_flag: false,
        episode: 0,
        clock_ms: 0,
    };
    lemma_gesture_tap(m0, t, 299);
}

/// Combo suppression: a down event with another modifier held never emits
/// a hold confirmation or a tap, schedules no delayed check, and — when it
/// is not debounced chatter — leaves the machine idle with any pending
/// delayed check silenced.
pub proof fn lemma_combo_suppression(m: HotkeyMachine, now: u64)
    requires
        machine_inv(m),
        now >= m.clock_ms,
    ensures
        ({
            let (m1, ns, sched) = flags_step(m, now, true, true);
            !ns.contains(Notification::HoldConfirmed) && !ns.contains(Notification::Tap)
                && sched is None && (accepted(m, now) ==> m1.state is Idle && forall|e: u64|
                (#[trigger] timer_step(m1, e)).1 is None)
        }),
{
    let (m1, ns, sched) = flags_step(m, now, true, true);
    assert(!ns.contains(Notification::HoldConfirmed) && !ns.contains(Notification::Tap)) by {
        if accepted(m, now) {
            match m.state {
                GestureState::Pending => {
                    assert(ns =~= Seq::<Notification>::empty());
                },
                GestureState::Holding => {
                    assert(ns =~= seq![Notification::CancelledCombo]);
                    assert(ns[0] == Notification::CancelledCombo);
                },
                GestureState::Idle => {
                    assert(ns =~= Seq::<Notification>::empty());
                },
            }
        } else {
            assert(ns =~= Seq::<Notification>::empty());
        }
    }
}

/// Debounce: of two flags events less than the debounce window apart, only
/// the first affects the machine; the second emits nothing, schedules
/// nothing, and changes nothing, whatever it is.
pub proof fn lemma_debounce(
    m0: HotkeyMachine,
    t1: u64,
    fd1: bool,
    cb1: bool,
    t2: u64,
    fd2: bool,
    cb2: bool,
)
    requires
        machine_inv(m0),
        t1 >= m0.clock_ms,
        accepted(m0, t1),
        t2 >= t1,
        t2 - t1 < m0.config.debounce_ms,
    ensures
        ({
            let (m1, n1, s1) = flags_step(m0, t1, fd1, cb1);
            let (m2, n2, s2) = flags_step(m1, t2, fd2, cb2);
            m2 == m1 && n2 =~= Seq::<Notification>::empty() && s2 is None
        }),
{
}

/// A stale delayed check never acts: once any newer episode has begun —
/// the machine's episode number no longer matches the one the check was
/// scheduled under — the check changes nothing and emits nothing,
/// whatever the state, flag or timing.
pub proof fn lemma_stale_check_is_noop(m: HotkeyMachine, episode: u64)
    requires
        episode != m.episode,
    ensures
        timer_step(m, episode) == (m, Option::<Notification>::None),
{
}

/// The stale-check race across gestures: a press starts an episode, a
/// tap resolves it, and a second press starts the next episode; the
/// first episode's still-sleeping check then fires and must not confirm
/// the new gesture — it is a no-op, and only the new episode's own check
/// can confirm it.
pub proof fn lemma_stale_check_never_confirms_newer(m0: HotkeyMachine, t1: u64, t2: u64, t3: u64)
    requires
        machine_inv(m0),
        m0.state is Idle,
        t1 >= m0.clock_ms,
        accepted(m0, t1),
        m0.episode + 2 <= u64::MAX,
        t2 >= t1 + m0.config.debounce_ms,
        t3 >= t2 + m0.config.debounce_ms,
        t3 <= u64::MAX,
    ensures
        ({
            let (m1, n1, s1) = flags_step(m0, t1, true, false);  // press: episode k
            let (m2, n2, s2) = flags_step(m1, t2, false, false);  // tap resolves k
            let (m3, n3, s3) = flags_step(m2, t3, true, false);  // press: episode k + 1
            let (m4, n4) = timer_step(m3, s1->0);  // episode k's stale check
            &&& s1 == Some(m1.episode)
            &&& n2 =~= seq![Notification::Tap]
            &&& s3 == Some(m3.episode)
            &&& s1->0 != m3.episode
            &&& m4 == m3 && n4 is None
            &&& timer_step(m3, s3->0).1 == Some(Notification::HoldConfirmed)
        }),
{
    let (m1, n1, s1) = flags_step(m0, t1, true, false);
    let (m2, n2, s2) = flags_step(m1, t2, false, false);
    let (m3, n3, s3) = flags_step(m2, t3, true, false);
    lemma_stale_check_is_noop(m3, s1->0);
}

// ---------------------------------------------------------------------------
// Reading the raw event words.
// ---------------------------------------------------------------------------

/// Raw event kind for a modifier-flags transition.
pub const EVENT_FLAGS_CHANGED: u32 = 12;

/// Raw event kind for an ordinary key press.
pub const EVENT_KEY_DOWN: u32 = 10;

/// Raw event kind the OS sends when it has disabled the tap (usually
/// because the callback was too slow).
pub const EVENT_TAP_DISABLED: u32 = 0xFFFFFFFE;

/// What the event-tap callback must do with one raw event.
#[derive(Debug, Clone, Copy, PartialEq, Eq, Structural)]
pub enum EventClass {
    /// Re-enable the tap at once, in this very dispatch — otherwise
    /// gesture recognition silently stops. Not an error; not surfaced.
    ReenableTap,
    /// Feed [`HotkeyMachine::on_other_key`].
    KeyDown,
    /// Feed [`HotkeyMachine::on_flags_changed`].
    FlagsChanged,
    /// Ignore; the listener only observes, never consumes.
    Other,
}

/// Sorts a raw event kind into what the callback does with it.
pub fn classify_event(event_type: u32) -> (r: EventClass)
    ensures
        event_type == EVENT_TAP_DISABLED ==> r == EventClass::ReenableTap,
        event_type == EVENT_KEY_DOWN ==> r == EventClass::KeyDown,
        event_type == EVENT_FLAGS_CHANGED ==> r == EventClass::FlagsChanged,
        event_type != EVENT_TAP_DISABLED && event_type != EVENT_KEY_DOWN && event_type
            != EVENT_FLAGS_CHANGED ==> r == EventClass::Other,
{
    if event_type == EVENT_TAP_DISABLED {
        EventClass::ReenableTap
    } else if event_type == EVENT_KEY_DOWN {
        EventClass::KeyDown
    } else if event_type == EVENT_FLAGS_CHANGED {
        EventClass::FlagsChanged
    } else {
        EventClass::Other
    }
}

/// Whether the monitored key is down in a flags word.
pub fn fn_key_down(flags: u64) -> (r: bool)
    ensures
        r == ((flags & FN_FLAG_MASK) != 0),
{
    (flags & FN_FLAG_MASK) != 0
}

/// Whether any of shift/ctrl/alt/cmd is held in a flags word.
pub fn combo_active(flags: u64) -> (r: bool)
    ensures
        r == ((flags & (SHIFT_FLAG | CTRL_FLAG | ALT_FLAG | CMD_FLAG)) != 0),
{
    (flags & (SHIFT_FLAG | CTRL_FLAG | ALT_FLAG | CMD_FLAG)) != 0
}

/// Whether a key-down event is the dedicated paste shortcut.
pub fn is_paste_shortcut(keycode: i64, flags: u64) -> (r: bool)
    ensures
        r == (keycode == PASTE_KEYCODE && (flags & CMD_FLAG) != 0 && (flags & CTRL_FLAG) != 0),
{
    keycode == PASTE_KEYCODE && (flags & CMD_FLAG) != 0 && (flags & CTRL_FLAG) != 0
}

} // verus!
