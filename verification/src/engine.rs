//! The decisions of the event loop: what each notification from the
//! receiver means for the gesture in progress, and what the caller has to
//! do about it (re-divert the button, perform an action, or nothing).

use vstd::prelude::*;

use crate::actions::{resolve, resolved};
use crate::config::{Action, Config};
use crate::gesture::{classify_defined, gesture_of, motion_fits, moved, Gesture, Tracker};
use crate::hidpp::{be_u16, Event, CID_GESTURE, SUB_ID_DEVICE_CONNECTION};

verus! {

/// Event number of divertedButtonsEvent (ReprogControlsV4).
pub const EVENT_DIVERTED_BUTTONS: u8 = 0x0;

/// Event number of divertedRawMouseXYEvent (ReprogControlsV4).
pub const EVENT_RAW_XY: u8 = 0x1;

/// Big-endian `i16` from two bytes.
pub open spec fn be_i16(hi: u8, lo: u8) -> i16 {
    let u = hi as int * 256 + lo as int;
    if u >= 0x8000 {
        (u - 0x10000) as i16
    } else {
        u as i16
    }
}

/// Big-endian `i16` from two bytes.
pub fn i16_from_be(hi: u8, lo: u8) -> (v: i16)
    ensures
        v == be_i16(hi, lo),
{
    let u: u16 = hi as u16 * 256 + lo as u16;
    if u >= 0x8000 {
        (u as i32 - 0x10000) as i16
    } else {
        u as i16
    }
}

/// divertedButtonsEvent: the parameters hold up to 4 currently pressed
/// control ids (big-endian); whether the gesture button is one of them.
pub open spec fn gesture_pressed(params: Seq<u8>) -> bool {
    exists|k: int| 0 <= k < 4 && #[trigger] be_u16(params[2 * k], params[2 * k + 1]) == CID_GESTURE
}

/// Whether a divertedButtonsEvent lists the gesture button as pressed.
pub fn is_gesture_pressed(params: &[u8; 16]) -> (b: bool)
    ensures
        b == gesture_pressed(params@),
{
    let mut k: usize = 0;
    while k < 4
        invariant
            k <= 4,
            params@.len() == 16,
            forall|j: int| 0 <= j < k ==> #[trigger] be_u16(params@[2 * j], params@[2 * j + 1]) != CID_GESTURE,
        decreases 4 - k,
    {
        let cid: u16 = params[2 * k] as u16 * 256 + params[2 * k + 1] as u16;
        if cid == CID_GESTURE {
            assert(be_u16(params@[2 * k as int], params@[2 * k as int + 1]) == CID_GESTURE);
            return true;
        }
        k = k + 1;
    }
    false
}

/// What the caller has to do after a notification.
#[derive(Debug, Clone, Copy, PartialEq, Eq, Structural)]
pub enum Step {
    /// Nothing.
    Ignored,
    /// The device reconnected, which resets its diversion: divert again.
    Redivert,
    /// The gesture button went down.
    Pressed,
    /// The gesture button went up: perform `action`.
    Released { gesture: Gesture, action: Action },
    /// Raw motion while the button is held.
    Moved { dx: i16, dy: i16 },
}

/// The engine's state: the paired device with the gesture button, the
/// index of its ReprogControlsV4 feature, and the gesture in progress.
pub struct Engine {
    pub device_idx: u8,
    pub reprog_idx: u8,
    pub tracker: Tracker,
}

/// Receiver-level "device connection" notification (0x41) of the device:
/// it fires on wake/reconnect.
pub open spec fn is_reconnect(e: Engine, ev: Event) -> bool {
    ev.device_idx == e.device_idx && ev.feat_idx == SUB_ID_DEVICE_CONNECTION
}

/// A notification of the device's ReprogControlsV4 feature with event number `id`.
pub open spec fn is_reprog_event(e: Engine, ev: Event, id: u8) -> bool {
    &&& ev.device_idx == e.device_idx
    &&& ev.feat_idx != SUB_ID_DEVICE_CONNECTION
    &&& ev.feat_idx == e.reprog_idx
    &&& ev.event_id == id
}

/// The raw motion that a divertedRawMouseXYEvent reports.
pub open spec fn raw_motion(params: Seq<u8>) -> (i16, i16) {
    (be_i16(params[0], params[1]), be_i16(params[2], params[3]))
}

/// The notifications that the engine can take without overflowing its
/// accumulated motion or the classification of a released hold.
pub open spec fn handle_defined(e: Engine, ev: Event) -> bool {
    step_defined(e.device_idx, e.reprog_idx, e.tracker@, ev)
}

/// The notifications that the engine for device `dev` with ReprogControlsV4
/// at `reprog`, in state `t`, can take without overflowing.
pub open spec fn step_defined(dev: u8, reprog: u8, t: (bool, int, int), ev: Event) -> bool {
    let ours = ev.device_idx == dev && ev.feat_idx != SUB_ID_DEVICE_CONNECTION && ev.feat_idx
        == reprog;
    &&& (ours && ev.event_id == EVENT_RAW_XY) ==> motion_fits(
        (t.1, t.2),
        t.0,
        raw_motion(ev.params@).0 as int,
        raw_motion(ev.params@).1 as int,
    )
    &&& (ours && ev.event_id == EVENT_DIVERTED_BUTTONS && !gesture_pressed(ev.params@) && t.0)
        ==> classify_defined(t.1, t.2)
}

/// What one notification does to the gesture in progress `t` (the view of
/// the tracker) of the engine for device `dev` with ReprogControlsV4 at
/// `reprog`: the step for the caller and the new state.
pub open spec fn engine_step(dev: u8, reprog: u8, t: (bool, int, int), ev: Event, cfg: Config) -> (
    Step,
    (bool, int, int),
) {
    if ev.device_idx != dev {
        (Step::Ignored, t)
    } else if ev.feat_idx == SUB_ID_DEVICE_CONNECTION {
        (Step::Redivert, t)
    } else if ev.feat_idx != reprog {
        (Step::Ignored, t)
    } else if ev.event_id == EVENT_DIVERTED_BUTTONS {
        let pressed = gesture_pressed(ev.params@);
        if pressed && !t.0 {
            (Step::Pressed, (true, 0, 0))
        } else if !pressed && t.0 {
            let g = gesture_of(t.1, t.2, cfg);
            (Step::Released { gesture: g, action: resolved(g, cfg) }, (false, t.1, t.2))
        } else {
            (Step::Ignored, t)
        }
    } else if ev.event_id == EVENT_RAW_XY {
        let (dx, dy) = raw_motion(ev.params@);
        let m = moved((t.1, t.2), t.0, dx as int, dy as int);
        (Step::Moved { dx, dy }, (t.0, m.0, m.1))
    } else {
        (Step::Ignored, t)
    }
}

/// The steps that a series of notifications gives, and the final state.
pub open spec fn replay(dev: u8, reprog: u8, t: (bool, int, int), evs: Seq<Event>, cfg: Config) -> (
    Seq<Step>,
    (bool, int, int),
)
    decreases evs.len(),
{
    if evs.len() == 0 {
        (Seq::empty(), t)
    } else {
        let (s, t1) = engine_step(dev, reprog, t, evs[0], cfg);
        let (rest, tn) = replay(dev, reprog, t1, evs.drop_first(), cfg);
        (seq![s] + rest, tn)
    }
}

/// The actions that a series of steps performs, in order.
pub open spec fn performed(steps: Seq<Step>) -> Seq<Action>
    decreases steps.len(),
{
    if steps.len() == 0 {
        Seq::empty()
    } else {
        let rest = performed(steps.drop_first());
        match steps[0] {
            Step::Released { action, .. } => seq![action] + rest,
            _ => rest,
        }
    }
}

/// The notifications of one device, in order.
pub open spec fn of_device(evs: Seq<Event>, dev: u8) -> Seq<Event>
    decreases evs.len(),
{
    if evs.len() == 0 {
        Seq::empty()
    } else if evs[0].device_idx == dev {
        seq![evs[0]] + of_device(evs.drop_first(), dev)
    } else {
        of_device(evs.drop_first(), dev)
    }
}

/// Calls of `handle` chain: when each call's step and new state are what
/// `handle` ensures for the state before it, the steps of the whole series
/// and the final state are its replay.
pub proof fn lemma_handle_calls_replay(
    dev: u8,
    reprog: u8,
    states: Seq<(bool, int, int)>,
    steps: Seq<Step>,
    evs: Seq<Event>,
    cfg: Config,
)
    requires
        states.len() == evs.len() + 1,
        steps.len() == evs.len(),
        forall|i: int|
            0 <= i < evs.len() ==> (steps[i], states[i + 1]) == engine_step(
                dev,
                reprog,
                states[i],
                #[trigger] evs[i],
                cfg,
            ),
    ensures
        replay(dev, reprog, states[0], evs, cfg) == (steps, states.last()),
    decreases evs.len(),
{
    if evs.len() > 0 {
        assert forall|i: int| 0 <= i < evs.drop_first().len() implies (
        steps.drop_first()[i], states.drop_first()[i + 1]) == engine_step(
            dev,
            reprog,
            states.drop_first()[i],
            #[trigger] evs.drop_first()[i],
            cfg,
        ) by {
            assert(evs.drop_first()[i] == evs[i + 1]);
        }
        lemma_handle_calls_replay(
            dev,
            reprog,
            states.drop_first(),
            steps.drop_first(),
            evs.drop_first(),
            cfg,
        );
        assert(steps == seq![steps[0]] + steps.drop_first());
    }
}

/// A series of notifications that the engine takes, from state `t`,
/// without overflowing at any step.
pub open spec fn replay_defined(
    dev: u8,
    reprog: u8,
    t: (bool, int, int),
    evs: Seq<Event>,
    cfg: Config,
) -> bool
    decreases evs.len(),
{
    evs.len() == 0 || (step_defined(dev, reprog, t, evs[0]) && replay_defined(
        dev,
        reprog,
        engine_step(dev, reprog, t, evs[0], cfg).1,
        evs.drop_first(),
        cfg,
    ))
}

/// The event loop: from the state after diverting, take every
/// notification in turn with `handle`. When the series never overflows,
/// every call meets `handle`'s precondition, and the actions performed and
/// the final state are those of replaying only the device's own
/// notifications on the tracker: a reconnect re-diverts and keeps the
/// state, a press starts a hold, raw motion accumulates while held, a
/// release performs the action of the accumulated gesture, anything else is
/// ignored.
pub proof fn lemma_event_loop(
    dev: u8,
    reprog: u8,
    states: Seq<(bool, int, int)>,
    steps: Seq<Step>,
    evs: Seq<Event>,
    cfg: Config,
)
    requires
        states.len() == evs.len() + 1,
        steps.len() == evs.len(),
        replay_defined(dev, reprog, states[0], evs, cfg),
        forall|i: int|
            0 <= i < evs.len() ==> (steps[i], states[i + 1]) == engine_step(
                dev,
                reprog,
                states[i],
                #[trigger] evs[i],
                cfg,
            ),
    ensures
        forall|i: int| 0 <= i < evs.len() ==> step_defined(dev, reprog, states[i], #[trigger] evs[i]),
        performed(steps) == performed(replay(dev, reprog, states[0], of_device(evs, dev), cfg).0),
        states.last() == replay(dev, reprog, states[0], of_device(evs, dev), cfg).1,
{
    lemma_handle_calls_replay(dev, reprog, states, steps, evs, cfg);
    lemma_other_devices_ignored(dev, reprog, states[0], evs, cfg);
    lemma_calls_defined(dev, reprog, states, steps, evs, cfg);
}

proof fn lemma_calls_defined(
    dev: u8,
    reprog: u8,
    states: Seq<(bool, int, int)>,
    steps: Seq<Step>,
    evs: Seq<Event>,
    cfg: Config,
)
    requires
        states.len() == evs.len() + 1,
        steps.len() == evs.len(),
        replay_defined(dev, reprog, states[0], evs, cfg),
        forall|i: int|
            0 <= i < evs.len() ==> (steps[i], states[i + 1]) == engine_step(
                dev,
                reprog,
                states[i],
                #[trigger] evs[i],
                cfg,
            ),
    ensures
        forall|i: int| 0 <= i < evs.len() ==> step_defined(dev, reprog, states[i], #[trigger] evs[i]),
    decreases evs.len(),
{
    if evs.len() > 0 {
        assert(states[0int + 1] == engine_step(dev, reprog, states[0], evs[0], cfg).1);
        assert forall|i: int| 0 <= i < evs.drop_first().len() implies (
        steps.drop_first()[i], states.drop_first()[i + 1]) == engine_step(
            dev,
            reprog,
            states.drop_first()[i],
            #[trigger] evs.drop_first()[i],
            cfg,
        ) by {
            assert(evs.drop_first()[i] == evs[i + 1]);
        }
        lemma_calls_defined(
            dev,
            reprog,
            states.drop_first(),
            steps.drop_first(),
            evs.drop_first(),
            cfg,
        );
        assert forall|i: int| 0 <= i < evs.len() implies step_defined(
            dev,
            reprog,
            states[i],
            #[trigger] evs[i],
        ) by {
            if i > 0 {
                assert(evs[i] == evs.drop_first()[i - 1]);
                assert(states[i] == states.drop_first()[i - 1]);
            }
        }
    }
}

/// Notifications of other devices change nothing: the actions performed
/// and the final state are those of the device's own notifications alone.
pub proof fn lemma_other_devices_ignored(
    dev: u8,
    reprog: u8,
    t: (bool, int, int),
    evs: Seq<Event>,
    cfg: Config,
)
    ensures
        performed(replay(dev, reprog, t, evs, cfg).0) == performed(
            replay(dev, reprog, t, of_device(evs, dev), cfg).0,
        ),
        replay(dev, reprog, t, evs, cfg).1 == replay(dev, reprog, t, of_device(evs, dev), cfg).1,
    decreases evs.len(),
{
    if evs.len() > 0 {
        let (s, t1) = engine_step(dev, reprog, t, evs[0], cfg);
        lemma_other_devices_ignored(dev, reprog, t1, evs.drop_first(), cfg);
        let r = replay(dev, reprog, t, evs, cfg);
        let rest = replay(dev, reprog, t1, evs.drop_first(), cfg);
        assert(r.0.drop_first() == rest.0);
        if evs[0].device_idx == dev {
            let f = of_device(evs, dev);
            assert(f[0] == evs[0]);
            assert(f.drop_first() == of_device(evs.drop_first(), dev));
            let rf = replay(dev, reprog, t, f, cfg);
            assert(rf.0.drop_first() == replay(dev, reprog, t1, f.drop_first(), cfg).0);
        } else {
            assert(s == Step::Ignored && t1 == t);
            lemma_other_devices_ignored(dev, reprog, t, evs.drop_first(), cfg);
        }
    }
}

/// The total raw motion that a series of divertedRawMouseXYEvents reports.
pub open spec fn motion_total(evs: Seq<Event>) -> (int, int)
    decreases evs.len(),
{
    if evs.len() == 0 {
        (0, 0)
    } else {
        let rest = motion_total(evs.drop_first());
        let m = raw_motion(evs[0].params@);
        (m.0 as int + rest.0, m.1 as int + rest.1)
    }
}

/// During a hold, motion notifications add up: from a held state, a series
/// of raw motion notifications of the device leaves the sum of what they
/// report, and performs nothing.
pub proof fn lemma_hold_accumulates(
    dev: u8,
    reprog: u8,
    t: (bool, int, int),
    evs: Seq<Event>,
    cfg: Config,
)
    requires
        t.0,
        reprog != SUB_ID_DEVICE_CONNECTION,
        forall|i: int|
            0 <= i < evs.len() ==> (#[trigger] evs[i]).device_idx == dev && evs[i].feat_idx
                == reprog && evs[i].event_id == EVENT_RAW_XY,
    ensures
        replay(dev, reprog, t, evs, cfg).1 == (
            true,
            t.1 + motion_total(evs).0,
            t.2 + motion_total(evs).1,
        ),
        performed(replay(dev, reprog, t, evs, cfg).0) == Seq::<Action>::empty(),
    decreases evs.len(),
{
    if evs.len() > 0 {
        let (s, t1) = engine_step(dev, reprog, t, evs[0], cfg);
        assert(evs[0].device_idx == dev && evs[0].feat_idx == reprog && evs[0].event_id == EVENT_RAW_XY);
        assert forall|i: int| 0 <= i < evs.drop_first().len() implies (
        #[trigger] evs.drop_first()[i]).device_idx == dev && evs.drop_first()[i].feat_idx == reprog
            && evs.drop_first()[i].event_id == EVENT_RAW_XY by {
            assert(evs.drop_first()[i] == evs[i + 1]);
        }
        lemma_hold_accumulates(dev, reprog, t1, evs.drop_first(), cfg);
        let r = replay(dev, reprog, t, evs, cfg);
        assert(r.0.drop_first() == replay(dev, reprog, t1, evs.drop_first(), cfg).0);
    }
}

/// A whole hold: a press of the gesture button, any number of raw motion
/// notifications, and the release perform exactly one action: the one that
/// the gesture of the total motion resolves to.
pub proof fn lemma_hold_performs_gesture(
    dev: u8,
    reprog: u8,
    t: (bool, int, int),
    press: Event,
    motions: Seq<Event>,
    release: Event,
    cfg: Config,
)
    requires
        !t.0,
        reprog != SUB_ID_DEVICE_CONNECTION,
        press.device_idx == dev && press.feat_idx == reprog && press.event_id
            == EVENT_DIVERTED_BUTTONS && gesture_pressed(press.params@),
        release.device_idx == dev && release.feat_idx == reprog && release.event_id
            == EVENT_DIVERTED_BUTTONS && !gesture_pressed(release.params@),
        forall|i: int|
            0 <= i < motions.len() ==> (#[trigger] motions[i]).device_idx == dev
                && motions[i].feat_idx == reprog && motions[i].event_id == EVENT_RAW_XY,
    ensures
        ({
            let g = gesture_of(motion_total(motions).0, motion_total(motions).1, cfg);
            performed(replay(dev, reprog, t, seq![press] + motions + seq![release], cfg).0)
                == seq![resolved(g, cfg)]
        }),
{
    let held = (true, 0int, 0int);
    lemma_hold_accumulates(dev, reprog, held, motions, cfg);
    lemma_replay_concat(dev, reprog, t, seq![press], motions + seq![release], cfg);
    lemma_replay_concat(dev, reprog, held, motions, seq![release], cfg);
    assert(seq![press] + motions + seq![release] == seq![press] + (motions + seq![release]));
    let r1 = replay(dev, reprog, t, seq![press], cfg);
    assert(replay(dev, reprog, engine_step(dev, reprog, t, press, cfg).1, seq![press].drop_first(), cfg)
        == (Seq::<Step>::empty(), held));
    assert(r1 == (seq![Step::Pressed], held));
    let mid = replay(dev, reprog, held, motions, cfg);
    let r3 = replay(dev, reprog, mid.1, seq![release], cfg);
    assert(replay(dev, reprog, engine_step(dev, reprog, mid.1, release, cfg).1, seq![release].drop_first(), cfg).0
        == Seq::<Step>::empty());
    lemma_performed_concat(seq![Step::Pressed], mid.0 + r3.0);
    lemma_performed_concat(mid.0, r3.0);
    assert(performed(Seq::<Step>::empty()) == Seq::<Action>::empty());
    assert(performed(seq![Step::Pressed]) == Seq::<Action>::empty()) by {
        let p = seq![Step::Pressed];
        assert(p[0] == Step::Pressed);
        assert(p.drop_first() == Seq::<Step>::empty());
    }
    let g = gesture_of(motion_total(motions).0, motion_total(motions).1, cfg);
    assert(r3.0 == seq![Step::Released { gesture: g, action: resolved(g, cfg) }]);
    assert(performed(r3.0) == seq![resolved(g, cfg)]) by {
        assert(r3.0[0] == Step::Released { gesture: g, action: resolved(g, cfg) });
        assert(r3.0.drop_first() == Seq::<Step>::empty());
        assert(seq![resolved(g, cfg)] + Seq::<Action>::empty() == seq![resolved(g, cfg)]);
    }
}

/// Replaying two series one after the other is replaying them joined.
pub proof fn lemma_replay_concat(
    dev: u8,
    reprog: u8,
    t: (bool, int, int),
    a: Seq<Event>,
    b: Seq<Event>,
    cfg: Config,
)
    ensures
        ({
            let ra = replay(dev, reprog, t, a, cfg);
            let rb = replay(dev, reprog, ra.1, b, cfg);
            replay(dev, reprog, t, a + b, cfg) == (ra.0 + rb.0, rb.1)
        }),
    decreases a.len(),
{
    if a.len() > 0 {
        let t1 = engine_step(dev, reprog, t, a[0], cfg).1;
        lemma_replay_concat(dev, reprog, t1, a.drop_first(), b, cfg);
        assert((a + b)[0] == a[0]);
        assert((a + b).drop_first() == a.drop_first() + b);
        let ra = replay(dev, reprog, t, a, cfg);
        let ra1 = replay(dev, reprog, t1, a.drop_first(), cfg);
        let rb = replay(dev, reprog, ra.1, b, cfg);
        assert(seq![engine_step(dev, reprog, t, a[0], cfg).0] + (ra1.0 + rb.0) == ra.0 + rb.0);
    } else {
        assert(a + b == b);
        assert(replay(dev, reprog, t, a, cfg).0 + replay(dev, reprog, t, b, cfg).0 == replay(dev, reprog, t, b, cfg).0);
    }
}

/// The actions of two series of steps are those of the first, then those
/// of the second.
pub proof fn lemma_performed_concat(a: Seq<Step>, b: Seq<Step>)
    ensures
        performed(a + b) == performed(a) + performed(b),
    decreases a.len(),
{
    if a.len() > 0 {
        lemma_performed_concat(a.drop_first(), b);
        assert((a + b)[0] == a[0]);
        assert((a + b).drop_first() == a.drop_first() + b);
        match a[0] {
            Step::Released { action, .. } => {
                assert(seq![action] + (performed(a.drop_first()) + performed(b)) == seq![action]
                    + performed(a.drop_first()) + performed(b));
            },
            _ => {},
        }
    } else {
        assert(a + b == b);
        assert(performed(a) + performed(b) == performed(b));
    }
}

impl Engine {
    /// An engine for the device at `device_idx`, whose ReprogControlsV4
    /// feature is at `reprog_idx`, with no gesture in progress.
    pub fn new(device_idx: u8, reprog_idx: u8) -> (e: Self)
        ensures
            e.device_idx == device_idx,
            e.reprog_idx == reprog_idx,
            e.tracker@ == (false, 0int, 0int),
    {
        Engine { device_idx, reprog_idx, tracker: Tracker::default() }
    }

    /// Whether `handle(ev, _)` is defined (does not overflow).
    pub fn can_handle(&self, ev: &Event) -> (b: bool)
        ensures
            b == handle_defined(*self, *ev),
    {
        if ev.device_idx != self.device_idx || ev.feat_idx == SUB_ID_DEVICE_CONNECTION
            || ev.feat_idx != self.reprog_idx {
            return true;
        }
        if ev.event_id == EVENT_RAW_XY {
            let dx = i16_from_be(ev.params[0], ev.params[1]);
            let dy = i16_from_be(ev.params[2], ev.params[3]);
            self.tracker.can_move(dx, dy)
        } else if ev.event_id == EVENT_DIVERTED_BUTTONS {
            if !is_gesture_pressed(&ev.params) && self.tracker.is_held() {
                self.tracker.can_release()
            } else {
                true
            }
        } else {
            true
        }
    }

    /// Take one notification from the receiver.
    pub fn handle(&mut self, ev: &Event, cfg: &Config) -> (step: Step)
        requires
            handle_defined(*old(self), *ev),
        ensures
            final(self).device_idx == old(self).device_idx,
            final(self).reprog_idx == old(self).reprog_idx,
            (step, final(self).tracker@) == engine_step(
                old(self).device_idx,
                old(self).reprog_idx,
                old(self).tracker@,
                *ev,
                *cfg,
            ),
            is_reconnect(*old(self), *ev) ==> step == Step::Redivert && final(self).tracker@
                == old(self).tracker@,
            !is_reconnect(*old(self), *ev) && !is_reprog_event(*old(self), *ev, EVENT_RAW_XY)
                && !is_reprog_event(*old(self), *ev, EVENT_DIVERTED_BUTTONS) ==> step
                == Step::Ignored && final(self).tracker@ == old(self).tracker@,
            is_reprog_event(*old(self), *ev, EVENT_RAW_XY) ==> ({
                let t = old(self).tracker@;
                let (dx, dy) = raw_motion(ev.params@);
                &&& step == (Step::Moved { dx, dy })
                &&& final(self).tracker@.0 == t.0
                &&& (final(self).tracker@.1, final(self).tracker@.2) == moved(
                    (t.1, t.2),
                    t.0,
                    dx as int,
                    dy as int,
                )
            }),
            is_reprog_event(*old(self), *ev, EVENT_DIVERTED_BUTTONS) ==> ({
                let t = old(self).tracker@;
                let pressed = gesture_pressed(ev.params@);
                let g = gesture_of(t.1, t.2, *cfg);
                &&& (pressed && !t.0) ==> step == Step::Pressed && final(self).tracker@ == (
                    true,
                    0int,
                    0int,
                )
                &&& (!pressed && t.0) ==> step == (Step::Released {
                    gesture: g,
                    action: resolved(g, *cfg),
                }) && final(self).tracker@ == (false, t.1, t.2)
                &&& (pressed == t.0) ==> step == Step::Ignored && final(self).tracker@ == t
            }),
    {
        if ev.device_idx != self.device_idx {
            return Step::Ignored;
        }
        if ev.feat_idx == SUB_ID_DEVICE_CONNECTION {
            return Step::Redivert;
        }
        if ev.feat_idx != self.reprog_idx {
            return Step::Ignored;
        }
        if ev.event_id == EVENT_DIVERTED_BUTTONS {
            let pressed = is_gesture_pressed(&ev.params);
            let held = self.tracker.is_held();
            if pressed && !held {
                self.tracker.press();
                Step::Pressed
            } else if !pressed && held {
                let gesture = self.tracker.release(cfg);
                let action = resolve(gesture, cfg);
                Step::Released { gesture, action }
            } else {
                Step::Ignored
            }
        } else if ev.event_id == EVENT_RAW_XY {
            let dx = i16_from_be(ev.params[0], ev.params[1]);
            let dy = i16_from_be(ev.params[2], ev.params[3]);
            self.tracker.motion(dx, dy);
            Step::Moved { dx, dy }
        } else {
            Step::Ignored
        }
    }
}


/// The gesture button counts as pressed exactly when one of the four
/// control slots of a divertedButtonsEvent, the big-endian words at bytes
/// 0-1, 2-3, 4-5 and 6-7, holds its control id 0x00C3; the bytes after the
/// fourth slot never matter. In particular a report that lists the gesture
/// button first is a press.
pub proof fn lemma_pressed_iff_listed(params: Seq<u8>)
    requires
        params.len() == 16,
    ensures
        gesture_pressed(params) <==> (params[0] as int * 256 + params[1] as int == 0xC3
            || params[2] as int * 256 + params[3] as int == 0xC3 || params[4] as int * 256
            + params[5] as int == 0xC3 || params[6] as int * 256 + params[7] as int == 0xC3),
        params[0] == 0x00 && params[1] == 0xC3 ==> gesture_pressed(params),
{
    if params[0] as int * 256 + params[1] as int == 0xC3 {
        assert(be_u16(params[2 * 0int], params[2 * 0int + 1]) == CID_GESTURE);
    }
    if params[2] as int * 256 + params[3] as int == 0xC3 {
        assert(be_u16(params[2 * 1int], params[2 * 1int + 1]) == CID_GESTURE);
    }
    if params[4] as int * 256 + params[5] as int == 0xC3 {
        assert(be_u16(params[2 * 2int], params[2 * 2int + 1]) == CID_GESTURE);
    }
    if params[6] as int * 256 + params[7] as int == 0xC3 {
        assert(be_u16(params[2 * 3int], params[2 * 3int + 1]) == CID_GESTURE);
    }
}

/// A divertedButtonsEvent of the device that lists the gesture button, in
/// any of the four slots, starts a hold when none is in progress: the step
/// is `Pressed` and the accumulated motion restarts from zero.
pub proof fn lemma_listed_button_starts_hold(
    dev: u8,
    reprog: u8,
    t: (bool, int, int),
    ev: Event,
    k: int,
    cfg: Config,
)
    requires
        !t.0,
        reprog != SUB_ID_DEVICE_CONNECTION,
        ev.device_idx == dev,
        ev.feat_idx == reprog,
        ev.event_id == EVENT_DIVERTED_BUTTONS,
        0 <= k < 4,
        ev.params@[2 * k] == 0x00,
        ev.params@[2 * k + 1] == 0xC3,
    ensures
        engine_step(dev, reprog, t, ev, cfg) == (Step::Pressed, (true, 0int, 0int)),
{
    lemma_pressed_iff_listed(ev.params@);
}


/// A divertedRawMouseXYEvent reports the motion as two big-endian two's
/// complement 16-bit numbers: dx in bytes 0-1, dy in bytes 2-3.
pub proof fn lemma_raw_motion_decoding(params: Seq<u8>)
    requires
        params.len() == 16,
    ensures
        raw_motion(params).0 as int == params[0] as int * 256 + params[1] as int - if params[0]
            >= 0x80 {
            0x10000int
        } else {
            0
        },
        raw_motion(params).1 as int == params[2] as int * 256 + params[3] as int - if params[2]
            >= 0x80 {
            0x10000int
        } else {
            0
        },
{
}

/// The receiver's "device connection" notification (sub-id 0x41) of the
/// device asks to divert again and leaves the gesture in progress as it is;
/// notifications of another device are ignored and change nothing.
pub proof fn lemma_reconnect_and_foreign(
    dev: u8,
    reprog: u8,
    t: (bool, int, int),
    ev: Event,
    cfg: Config,
)
    ensures
        ev.device_idx == dev && ev.feat_idx == 0x41 ==> engine_step(dev, reprog, t, ev, cfg) == (
            Step::Redivert,
            t,
        ),
        ev.device_idx != dev ==> engine_step(dev, reprog, t, ev, cfg) == (Step::Ignored, t),
{
}

/// Raw motion of the device's ReprogControlsV4 feature adds to the
/// displacement while the button is held, and is reported as a `Moved` step.
pub proof fn lemma_motion_step(dev: u8, reprog: u8, t: (bool, int, int), ev: Event, cfg: Config)
    requires
        reprog != 0x41,
        ev.device_idx == dev,
        ev.feat_idx == reprog,
        ev.event_id == 1,
    ensures
        ({
            let (dx, dy) = raw_motion(ev.params@);
            let (s, t1) = engine_step(dev, reprog, t, ev, cfg);
            &&& s == (Step::Moved { dx, dy })
            &&& t.0 ==> t1 == (true, t.1 + dx, t.2 + dy)
            &&& !t.0 ==> t1 == t
        }),
{
}

/// A divertedButtonsEvent that no longer lists the gesture button ends a
/// hold: the action of the gesture of the accumulated displacement is
/// performed and the displacement is kept until the next press.
pub proof fn lemma_release_step(dev: u8, reprog: u8, t: (bool, int, int), ev: Event, cfg: Config)
    requires
        t.0,
        reprog != 0x41,
        ev.device_idx == dev,
        ev.feat_idx == reprog,
        ev.event_id == 0,
        ev.params@.len() == 16,
        forall|k: int|
            0 <= k < 4 ==> !(ev.params@[2 * k] == 0x00 && #[trigger] ev.params@[2 * k + 1] == 0xC3),
    ensures
        ({
            let g = gesture_of(t.1, t.2, cfg);
            engine_step(dev, reprog, t, ev, cfg) == (
                Step::Released { gesture: g, action: resolved(g, cfg) },
                (false, t.1, t.2),
            )
        }),
{
    let p = ev.params@;
    lemma_pressed_iff_listed(p);
    assert(!(p[0] == 0x00 && p[2 * 0int + 1] == 0xC3));
    assert(!(p[2] == 0x00 && p[2 * 1int + 1] == 0xC3));
    assert(!(p[4] == 0x00 && p[2 * 2int + 1] == 0xC3));
    assert(!(p[6] == 0x00 && p[2 * 3int + 1] == 0xC3));
}

} // verus!
