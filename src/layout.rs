//! The layout engine: resolves key events through the layer table into held key
//! codes, layer modifiers, hold-tap decisions and custom events.

use vstd::prelude::*;
use crate::action::{Action, HoldTapConfig};
use crate::key_code::KeyCode;
use crate::stack::{held_states, stack_new, stack_push, stack_slice, MAX_STATES};

verus! {

/// An event on the key matrix.
#[derive(Debug, Copy, Clone, PartialEq, Eq, Structural)]
pub enum Event {
    /// Press event with coordinates (i, j).
    Press(u8, u8),
    /// Release event with coordinates (i, j).
    Release(u8, u8),
}

impl Event {
    /// The coordinates of the event.
    pub open spec fn spec_coord(self) -> (u8, u8) {
        match self {
            Event::Press(i, j) => (i, j),
            Event::Release(i, j) => (i, j),
        }
    }

    /// Returns the coordinates (i, j) of the event.
    pub fn coord(self) -> (r: (u8, u8))
        ensures
            r == self.spec_coord(),
    {
        match self {
            Event::Press(i, j) => (i, j),
            Event::Release(i, j) => (i, j),
        }
    }

    /// Transforms the coordinates of the event, keeping its kind.
    pub fn transform<F: FnOnce(u8, u8) -> (u8, u8)>(self, f: F) -> (r: Self)
        requires
            f.requires((self.spec_coord().0, self.spec_coord().1)),
        ensures
            r is Press == self is Press,
            f.ensures((self.spec_coord().0, self.spec_coord().1), r.spec_coord()),
    {
        match self {
            Event::Press(i, j) => {
                let (i, j) = f(i, j);
                Event::Press(i, j)
            },
            Event::Release(i, j) => {
                let (i, j) = f(i, j);
                Event::Release(i, j)
            },
        }
    }

    /// Returns `true` if the event is a key press.
    pub fn is_press(self) -> (r: bool)
        ensures
            r == self is Press,
    {
        match self {
            Event::Press(..) => true,
            Event::Release(..) => false,
        }
    }

    /// Returns `true` if the event is a key release.
    pub fn is_release(self) -> (r: bool)
        ensures
            r == self is Release,
    {
        match self {
            Event::Release(..) => true,
            Event::Press(..) => false,
        }
    }
}

/// The layer table: `layers[l][i][j]` is the action of key (i, j) on layer `l`.
pub type Layers<T = core::convert::Infallible> = &'static [&'static [&'static [Action<T>]]];

/// Most events waiting to be processed; a further event forces the oldest through.
pub const MAX_STACKED: usize = 16;

/// How deep composite actions (`MultipleActions` inside `MultipleActions`, the
/// actions of a hold-tap) are followed; deeper ones do nothing.
pub const ACTION_DEPTH: usize = 8;

/// What a layout reports to the host about `Custom` actions.
#[derive(Debug, Clone, Copy, PartialEq, Eq)]
pub enum CustomEvent<T: 'static> {
    /// No custom action was pressed or released.
    NoEvent,
    /// A custom action was pressed.
    Press(&'static T),
    /// A custom action was released.
    Release(&'static T),
}

impl<T> CustomEvent<T> {
    /// Combines two events of one step: a release wins over a press, and the first
    /// event of a kind is kept.
    pub open spec fn merged(self, e: Self) -> Self {
        match (e, self) {
            (CustomEvent::Release(_), CustomEvent::NoEvent) => e,
            (CustomEvent::Release(_), CustomEvent::Press(_)) => e,
            (CustomEvent::Press(_), CustomEvent::NoEvent) => e,
            _ => self,
        }
    }

    fn update(&mut self, e: Self)
        ensures
            *final(self) == old(self).merged(e),
    {
        let keep_new = match (&e, &*self) {
            (CustomEvent::Release(_), CustomEvent::NoEvent) => true,
            (CustomEvent::Release(_), CustomEvent::Press(_)) => true,
            (CustomEvent::Press(_), CustomEvent::NoEvent) => true,
            _ => false,
        };
        if keep_new {
            *self = e;
        }
    }
}

/// An entry of the stack of active states, tagged with the key that produced it.
#[derive(Debug, Clone, Copy, PartialEq, Eq)]
pub enum State {
    /// A held key code.
    NormalKey { keycode: KeyCode, row: u8, col: u8 },
    /// A held layer modifier.
    LayerModifier { value: usize, row: u8, col: u8 },
}

/// A held custom action, kept apart from the states so that it takes no slot.
#[derive(Debug, Clone, Copy, PartialEq, Eq)]
pub struct HeldCustom<T: 'static> {
    /// The payload.
    pub value: &'static T,
    /// Row of the key.
    pub row: u8,
    /// Column of the key.
    pub col: u8,
}

impl State {
    /// The key that produced the state.
    pub open spec fn spec_coord(self) -> (u8, u8) {
        match self {
            State::NormalKey { row, col, .. } => (row, col),
            State::LayerModifier { row, col, .. } => (row, col),
        }
    }
}

impl State {
    /// The key code of a held key.
    pub fn keycode(&self) -> (r: Option<KeyCode>)
        ensures
            r == (match *self {
                State::NormalKey { keycode, .. } => Some(keycode),
                _ => None::<KeyCode>,
            }),
    {
        match self {
            State::NormalKey { keycode, .. } => Some(*keycode),
            _ => None,
        }
    }

    /// The state, unless the key at `c` produced it.
    pub fn release(&self, c: (u8, u8)) -> (r: Option<Self>)
        ensures
            r == (if self.spec_coord() == c {
                None
            } else {
                Some(*self)
            }),
    {
        let (row, col) = match self {
            State::NormalKey { row, col, .. } => (*row, *col),
            State::LayerModifier { row, col, .. } => (*row, *col),
        };
        if row == c.0 && col == c.1 {
            None
        } else {
            Some(*self)
        }
    }

    /// The value of a held layer modifier.
    pub fn get_layer(&self) -> (r: Option<usize>)
        ensures
            r == (match *self {
                State::LayerModifier { value, .. } => Some(value),
                _ => None::<usize>,
            }),
    {
        match self {
            State::LayerModifier { value, .. } => Some(*value),
            _ => None,
        }
    }
}

/// A hold-tap key whose outcome is not decided yet.
#[derive(Debug, Clone, Copy, PartialEq, Eq)]
pub struct WaitingState<T: 'static> {
    /// Row of the key.
    pub row: u8,
    /// Column of the key.
    pub col: u8,
    /// Ticks left before it becomes a hold.
    pub timeout: u16,
    /// Ticks that its press had waited in the queue before it was processed.
    pub delay: u16,
    /// The action done on hold.
    pub hold: &'static Action<T>,
    /// The action done on tap.
    pub tap: &'static Action<T>,
    /// How other keys decide it early.
    pub config: HoldTapConfig,
}

/// The decision taken on a pending hold-tap at a tick.
#[derive(Debug, Clone, Copy, PartialEq, Eq)]
pub enum WaitingAction {
    /// Do the hold action.
    Hold,
    /// Do the tap action.
    Tap,
    /// Keep waiting.
    NoOp,
}

/// An event waiting in the queue, with the ticks it has waited.
#[derive(Debug, Clone, Copy, PartialEq, Eq)]
pub struct Stacked {
    /// The event.
    pub event: Event,
    /// Ticks it has waited, saturating.
    pub since: u16,
}

/// The last hold-tap key processed, and the ticks left in which pressing it again taps.
#[derive(Debug, Clone, Copy, PartialEq, Eq)]
pub struct TapHoldTracker {
    /// The key.
    pub coord: (u8, u8),
    /// Ticks left in which a new press of it taps at once.
    pub timeout: u16,
}

/// The layout manager. It takes `Event`s and ticks as input, and keeps the set of
/// held key codes.
pub struct Layout<T: 'static = core::convert::Infallible> {
    layers: Layers<T>,
    default_layer: usize,
    states: heapless::Vec<State, 64>,
    waiting: Option<WaitingState<T>>,
    stacked: Vec<Stacked>,
    tap_hold_tracker: TapHoldTracker,
    customs: Vec<HeldCustom<T>>,
    pending: CustomEvent<T>,
}

/// The mathematical value of a layout.
pub struct LayoutView<T: 'static> {
    pub layers: Layers<T>,
    pub default_layer: usize,
    pub states: Seq<State>,
    pub waiting: Option<WaitingState<T>>,
    pub stacked: Seq<Stacked>,
    pub tracker: TapHoldTracker,
    /// The held custom actions.
    pub customs: Seq<HeldCustom<T>>,
    /// The custom event of events applied since the last tick, which reports it.
    pub pending: CustomEvent<T>,
}

impl<T> View for Layout<T> {
    type V = LayoutView<T>;

    closed spec fn view(&self) -> LayoutView<T> {
        LayoutView {
            layers: self.layers,
            default_layer: self.default_layer,
            states: held_states(self.states),
            waiting: self.waiting,
            stacked: self.stacked@,
            tracker: self.tap_hold_tracker,
            customs: self.customs@,
            pending: self.pending,
        }
    }
}

/// A new layout on `layers`: layer 0 as default layer, nothing held or queued.
pub open spec fn fresh<T>(layers: Layers<T>) -> LayoutView<T> {
    LayoutView {
        layers,
        default_layer: 0,
        states: Seq::empty(),
        waiting: None,
        stacked: Seq::empty(),
        tracker: TapHoldTracker { coord: (0, 0), timeout: 0 },
        customs: Seq::empty(),
        pending: CustomEvent::NoEvent,
    }
}

/// The action at `coord` on layer `layer`, if the table has that cell.
pub open spec fn lookup<T>(layers: Layers<T>, layer: int, coord: (u8, u8)) -> Option<Action<T>> {
    if 0 <= layer < layers@.len() && coord.0 < layers@[layer]@.len() && coord.1
        < layers@[layer]@[coord.0 as int]@.len() {
        Some(layers@[layer]@[coord.0 as int]@[coord.1 as int])
    } else {
        None
    }
}

/// The action that a press at `coord` does on layer `layer`: a missing cell does
/// nothing, and a transparent one takes the default layer's action, where a missing
/// or transparent cell again does nothing.
pub open spec fn resolve<T>(layers: Layers<T>, default_layer: int, coord: (u8, u8), layer: int) -> Action<T> {
    match lookup(layers, layer, coord) {
        None => Action::NoOp,
        Some(Action::Trans) => {
            if layer != default_layer {
                match lookup(layers, default_layer, coord) {
                    None => Action::NoOp,
                    Some(Action::Trans) => Action::NoOp,
                    Some(a) => a,
                }
            } else {
                Action::NoOp
            }
        },
        Some(a) => a,
    }
}

/// The sum of the values of the held layer modifiers.
pub open spec fn layer_sum(states: Seq<State>) -> int
    decreases states.len(),
{
    if states.len() == 0 {
        0
    } else {
        layer_sum(states.drop_last()) + match states.last() {
            State::LayerModifier { value, .. } => value as int,
            _ => 0,
        }
    }
}

/// The key codes of the held states, in the order they were pushed.
pub open spec fn keycodes_of(states: Seq<State>) -> Seq<KeyCode>
    decreases states.len(),
{
    if states.len() == 0 {
        Seq::empty()
    } else {
        let before = keycodes_of(states.drop_last());
        match states.last() {
            State::NormalKey { keycode, .. } => before.push(keycode),
            _ => before,
        }
    }
}

impl<T> LayoutView<T> {
    /// The default layer plus the held layer modifiers, saturated at the last layer.
    pub open spec fn current_layer(self) -> int {
        if self.layers@.len() == 0 {
            0
        } else {
            let l = self.default_layer + layer_sum(self.states);
            if l < self.layers@.len() - 1 {
                l
            } else {
                self.layers@.len() - 1
            }
        }
    }

    /// The bounds that every reachable layout keeps.
    pub open spec fn wf(self) -> bool {
        &&& self.states.len() <= MAX_STATES
        &&& self.stacked.len() <= MAX_STACKED
        &&& (self.default_layer == 0 || self.default_layer < self.layers@.len())
    }
}


/// The states that stay when the key at `c` is released.
pub open spec fn kept(states: Seq<State>, c: (u8, u8)) -> Seq<State>
    decreases states.len(),
{
    if states.len() == 0 {
        states
    } else {
        let before = kept(states.drop_last(), c);
        if states.last().spec_coord() != c {
            before.push(states.last())
        } else {
            before
        }
    }
}

/// The custom actions that stay when the key at `c` is released.
pub open spec fn kept_customs<T>(customs: Seq<HeldCustom<T>>, c: (u8, u8)) -> Seq<HeldCustom<T>>
    decreases customs.len(),
{
    if customs.len() == 0 {
        customs
    } else {
        let before = kept_customs(customs.drop_last(), c);
        if (customs.last().row, customs.last().col) != c {
            before.push(customs.last())
        } else {
            before
        }
    }
}

/// The custom event of releasing the key at `c`: the release of its first custom action.
pub open spec fn release_event<T>(customs: Seq<HeldCustom<T>>, c: (u8, u8)) -> CustomEvent<T>
    decreases customs.len(),
{
    if customs.len() == 0 {
        CustomEvent::NoEvent
    } else {
        let before = release_event(customs.drop_last(), c);
        if (customs.last().row, customs.last().col) == c {
            before.merged(CustomEvent::Release(customs.last().value))
        } else {
            before
        }
    }
}

/// The event of the queue that releases the key at `c` first, with its age.
pub open spec fn first_release_since(stacked: Seq<Stacked>, c: (u8, u8)) -> Option<u16>
    decreases stacked.len(),
{
    if stacked.len() == 0 {
        None
    } else if stacked[0].event == Event::Release(c.0, c.1) {
        Some(stacked[0].since)
    } else {
        first_release_since(stacked.drop_first(), c)
    }
}

/// Some key is pressed in the queue.
pub open spec fn any_press(stacked: Seq<Stacked>) -> bool {
    exists|i: int| 0 <= i < stacked.len() && (#[trigger] stacked[i]).event is Press
}

/// Some key is pressed and then released in the queue.
pub open spec fn press_and_release(stacked: Seq<Stacked>) -> bool {
    exists|x: int, y: int|
        0 <= x < y < stacked.len() && (#[trigger] stacked[x]).event is Press && (#[trigger] stacked[y]).event
            == Event::Release(stacked[x].event.spec_coord().0, stacked[x].event.spec_coord().1)
}

/// `x - 1`, but not below zero.
pub open spec fn tick_down(x: u16) -> u16 {
    if x == 0 {
        0
    } else {
        (x - 1) as u16
    }
}

/// `x + 1`, but not above `u16::MAX`.
pub open spec fn tick_up(x: u16) -> u16 {
    if x == u16::MAX {
        x
    } else {
        (x + 1) as u16
    }
}

/// The queue after one more tick of waiting.
pub open spec fn aged(stacked: Seq<Stacked>) -> Seq<Stacked> {
    Seq::new(stacked.len(), |i: int| Stacked { event: stacked[i].event, since: tick_up(stacked[i].since) })
}

impl<T> WaitingState<T> {
    /// The decision on a pending hold-tap at a tick, given the queue of events that
    /// came after its press. A release of the key itself is a tap when it came less
    /// than `timeout` ticks after the press, and a hold otherwise.
    pub open spec fn decision(self, stacked: Seq<Stacked>) -> WaitingAction {
        let timeout = tick_down(self.timeout);
        if self.config is HoldOnOtherKeyPress && any_press(stacked) {
            WaitingAction::Hold
        } else if self.config is PermissiveHold && press_and_release(stacked) {
            WaitingAction::Hold
        } else {
            match first_release_since(stacked, (self.row, self.col)) {
                Some(since) => if timeout + since > self.delay {
                    WaitingAction::Tap
                } else {
                    WaitingAction::Hold
                },
                None => if timeout == 0 {
                    WaitingAction::Hold
                } else {
                    WaitingAction::NoOp
                },
            }
        }
    }
}

impl<T> LayoutView<T> {
    /// Pushes a state, unless the stack is full.
    pub open spec fn push_state(self, st: State) -> Self {
        if self.states.len() < MAX_STATES {
            LayoutView { states: self.states.push(st), ..self }
        } else {
            self
        }
    }

    /// Pushes the key codes `kcs` in order, all tagged with one key.
    pub open spec fn push_keys(self, kcs: Seq<KeyCode>, row: u8, col: u8) -> Self
        decreases kcs.len(),
    {
        if kcs.len() == 0 {
            self
        } else {
            self.push_keys(kcs.drop_last(), row, col).push_state(
                State::NormalKey { keycode: kcs.last(), row, col },
            )
        }
    }

    /// Does `a` for a press of key (row, col) that waited `delay` ticks in the queue.
    pub open spec fn do_action(self, a: Action<T>, row: u8, col: u8, delay: u16, fuel: nat) -> (Self, CustomEvent<T>)
        decreases fuel, 0nat,
    {
        match a {
            Action::NoOp => (self, CustomEvent::NoEvent),
            Action::Trans => (self, CustomEvent::NoEvent),
            Action::KeyCode(keycode) => (self.push_state(State::NormalKey { keycode, row, col }), CustomEvent::NoEvent),
            Action::MultipleKeyCodes(kcs) => (self.push_keys(kcs@, row, col), CustomEvent::NoEvent),
            Action::MultipleActions(acts) => if fuel == 0 {
                (self, CustomEvent::NoEvent)
            } else {
                self.do_actions(acts@, row, col, delay, (fuel - 1) as nat)
            },
            Action::Layer(value) => (self.push_state(State::LayerModifier { value, row, col }), CustomEvent::NoEvent),
            Action::DefaultLayer(value) => if value < self.layers@.len() {
                (LayoutView { default_layer: value, ..self }, CustomEvent::NoEvent)
            } else {
                (self, CustomEvent::NoEvent)
            },
            Action::HoldTap { timeout, hold, tap, config, tap_hold_interval } => if self.waiting is Some {
                (self, CustomEvent::NoEvent)
            } else if tap_hold_interval == 0 || self.tracker.coord != (row, col) || self.tracker.timeout == 0 {
                (
                    LayoutView {
                        waiting: Some(WaitingState { row, col, timeout, delay, hold, tap, config }),
                        tracker: TapHoldTracker { coord: (row, col), timeout: tap_hold_interval },
                        ..self
                    },
                    CustomEvent::NoEvent,
                )
            } else {
                let v = LayoutView { tracker: TapHoldTracker { coord: (row, col), timeout: 0 }, ..self };
                if fuel == 0 {
                    (v, CustomEvent::NoEvent)
                } else {
                    v.do_action(*tap, row, col, delay, (fuel - 1) as nat)
                }
            },
            Action::Custom(value) => (
                LayoutView { customs: self.customs.push(HeldCustom { value: &value, row, col }), ..self },
                CustomEvent::Press(&value),
            ),
        }
    }

    /// Does the actions `acts` in order, merging their custom events.
    pub open spec fn do_actions(self, acts: Seq<Action<T>>, row: u8, col: u8, delay: u16, fuel: nat) -> (Self, CustomEvent<T>)
        decreases fuel, acts.len(),
    {
        if acts.len() == 0 {
            (self, CustomEvent::NoEvent)
        } else {
            let (v, e) = self.do_actions(acts.drop_last(), row, col, delay, fuel);
            let (w, f) = v.do_action(acts.last(), row, col, delay, fuel);
            (w, e.merged(f))
        }
    }

    /// Releases the key at `c`: every state that it produced is dropped.
    pub open spec fn release(self, c: (u8, u8)) -> (Self, CustomEvent<T>) {
        (
            LayoutView { states: kept(self.states, c), customs: kept_customs(self.customs, c), ..self },
            release_event(self.customs, c),
        )
    }

    /// Processes one event taken from the queue.
    pub open spec fn unstack(self, s: Stacked) -> (Self, CustomEvent<T>) {
        match s.event {
            Event::Release(i, j) => self.release((i, j)),
            Event::Press(i, j) => self.do_action(
                resolve(self.layers, self.default_layer as int, (i, j), self.current_layer()),
                i,
                j,
                s.since,
                ACTION_DEPTH as nat,
            ),
        }
    }

    /// Resolves a pending hold-tap as a hold.
    pub open spec fn into_hold(self) -> (Self, CustomEvent<T>) {
        match self.waiting {
            Some(w) => LayoutView { waiting: None, ..self }.do_action(*w.hold, w.row, w.col, 0, ACTION_DEPTH as nat),
            None => (self, CustomEvent::NoEvent),
        }
    }

    /// One tick: the queue ages; a pending hold-tap is decided, or else the oldest
    /// queued event is processed. The custom event returned covers the events
    /// applied since the last tick and this tick's own work.
    pub open spec fn tick(self) -> (Self, CustomEvent<T>) {
        let stacked = aged(self.stacked);
        let v = LayoutView {
            stacked,
            tracker: TapHoldTracker { coord: self.tracker.coord, timeout: tick_down(self.tracker.timeout) },
            pending: CustomEvent::NoEvent,
            ..self
        };
        let (w, e) = match self.waiting {
            Some(h) => match h.decision(stacked) {
                WaitingAction::Hold => LayoutView { waiting: None, ..v }.do_action(*h.hold, h.row, h.col, 0, ACTION_DEPTH as nat),
                WaitingAction::Tap => LayoutView { waiting: None, ..v }.do_action(*h.tap, h.row, h.col, 0, ACTION_DEPTH as nat),
                WaitingAction::NoOp => (
                    LayoutView { waiting: Some(WaitingState { timeout: tick_down(h.timeout), ..h }), ..v },
                    CustomEvent::NoEvent,
                ),
            },
            None => if stacked.len() > 0 {
                LayoutView { stacked: stacked.drop_first(), ..v }.unstack(stacked[0])
            } else {
                (v, CustomEvent::NoEvent)
            },
        };
        (w, self.pending.merged(e))
    }

    /// Nothing is waiting: no hold-tap is pending and the queue is empty.
    pub open spec fn idle(self) -> bool {
        self.waiting is None && self.stacked.len() == 0
    }

    /// Registers an event. With nothing waiting it is applied at once. While a
    /// hold-tap is pending, or events wait before it, it is queued; with the queue
    /// full, the pending hold-tap is resolved as a hold and the oldest event applied.
    pub open spec fn event(self, e: Event) -> Self {
        let s = Stacked { event: e, since: 0 };
        if self.idle() {
            let (w, c) = self.unstack(s);
            LayoutView { pending: self.pending.merged(c), ..w }
        } else if self.stacked.len() < MAX_STACKED {
            LayoutView { stacked: self.stacked.push(s), ..self }
        } else {
            let (h, c1) = LayoutView { stacked: self.stacked.drop_first().push(s), ..self }.into_hold();
            let (w, c2) = h.unstack(self.stacked[0]);
            LayoutView { pending: self.pending.merged(c1).merged(c2), ..w }
        }
    }
}

fn has_press(stacked: &Vec<Stacked>) -> (r: bool)
    ensures
        r == any_press(stacked@),
{
    let mut i: usize = 0;
    while i < stacked.len()
        invariant
            i <= stacked@.len(),
            forall|j: int| 0 <= j < i ==> (#[trigger] stacked@[j]).event !is Press,
        decreases stacked@.len() - i,
    {
        if stacked[i].event.is_press() {
            assert(stacked@[i as int].event is Press);
            return true;
        }
        i += 1;
    }
    false
}

fn has_press_and_release(stacked: &Vec<Stacked>) -> (r: bool)
    ensures
        r == press_and_release(stacked@),
{
    let mut x: usize = 0;
    while x < stacked.len()
        invariant
            x <= stacked@.len(),
            forall|a: int, b: int|
                0 <= a < x && a < b < stacked@.len() ==> !((#[trigger] stacked@[a]).event is Press
                    && (#[trigger] stacked@[b]).event == Event::Release(
                    stacked@[a].event.spec_coord().0,
                    stacked@[a].event.spec_coord().1,
                )),
        decreases stacked@.len() - x,
    {
        let e = stacked[x].event;
        if e.is_press() {
            let (i, j) = e.coord();
            let mut y: usize = x + 1;
            while y < stacked.len()
                invariant
                    x < y <= stacked@.len(),
                    e == stacked@[x as int].event,
                    e is Press,
                    e.spec_coord() == (i, j),
                    forall|b: int| x < b < y ==> (#[trigger] stacked@[b]).event != Event::Release(i, j),
                decreases stacked@.len() - y,
            {
                if stacked[y].event == Event::Release(i, j) {
                    assert(stacked@[x as int].event is Press && stacked@[y as int].event == Event::Release(
                        stacked@[x as int].event.spec_coord().0,
                        stacked@[x as int].event.spec_coord().1,
                    ));
                    return true;
                }
                y += 1;
            }
        }
        x += 1;
    }
    false
}

fn release_since(stacked: &Vec<Stacked>, row: u8, col: u8) -> (r: Option<u16>)
    ensures
        r == first_release_since(stacked@, (row, col)),
{
    let mut k: usize = 0;
    assert(stacked@.subrange(0, stacked@.len() as int) =~= stacked@);
    while k < stacked.len()
        invariant
            k <= stacked@.len(),
            first_release_since(stacked@, (row, col)) == first_release_since(
                stacked@.subrange(k as int, stacked@.len() as int),
                (row, col),
            ),
        decreases stacked@.len() - k,
    {
        assert(stacked@.subrange(k as int, stacked@.len() as int).drop_first() =~= stacked@.subrange(
            k + 1,
            stacked@.len() as int,
        ));
        let s = stacked[k];
        if s.event == Event::Release(row, col) {
            return Some(s.since);
        }
        k += 1;
    }
    None
}

impl<T: Copy> WaitingState<T> {
    /// The decision on this pending hold-tap at a tick, given the queue of events.
    pub fn decide(&self, stacked: &Vec<Stacked>) -> (r: WaitingAction)
        ensures
            r == self.decision(stacked@),
    {
        let timeout = self.timeout.saturating_sub(1);
        let early = match self.config {
            HoldTapConfig::Default => false,
            HoldTapConfig::HoldOnOtherKeyPress => has_press(stacked),
            HoldTapConfig::PermissiveHold => has_press_and_release(stacked),
        };
        if early {
            return WaitingAction::Hold;
        }
        match release_since(stacked, self.row, self.col) {
            Some(since) => {
                if timeout as u32 + since as u32 > self.delay as u32 {
                    WaitingAction::Tap
                } else {
                    WaitingAction::Hold
                }
            },
            None => {
                if timeout == 0 {
                    WaitingAction::Hold
                } else {
                    WaitingAction::NoOp
                }
            },
        }
    }
}

impl<T: Copy> Layout<T> {
    /// Creates a new layout on the table `layers`, with layer 0 as default layer.
    pub fn new(layers: Layers<T>) -> (r: Self)
        ensures
            r@ == fresh(layers),
            r@.wf(),
    {
        let r = Layout {
            layers,
            default_layer: 0,
            states: stack_new(),
            waiting: None,
            stacked: Vec::new(),
            tap_hold_tracker: TapHoldTracker { coord: (0, 0), timeout: 0 },
            customs: Vec::new(),
            pending: CustomEvent::NoEvent,
        };
        assert(r@.states =~= Seq::<State>::empty());
        assert(r@.stacked =~= Seq::<Stacked>::empty());
        assert(r@.customs =~= Seq::<HeldCustom<T>>::empty());
        r
    }

    /// The key codes currently held, in the order they were pressed.
    pub fn keycodes(&self) -> (r: Vec<KeyCode>)
        ensures
            r@ == keycodes_of(self@.states),
    {
        let states = stack_slice(&self.states);
        let mut r: Vec<KeyCode> = Vec::new();
        let mut i: usize = 0;
        while i < states.len()
            invariant
                i <= states@.len(),
                r@ == keycodes_of(states@.take(i as int)),
            decreases states@.len() - i,
        {
            assert(states@.take(i + 1).drop_last() =~= states@.take(i as int));
            if let Some(keycode) = states[i].keycode() {
                r.push(keycode);
            }
            i += 1;
        }
        assert(states@.take(i as int) =~= states@);
        r
    }

    /// The index of the current layer: the default layer plus the values of the held
    /// layer modifiers, saturated at the last layer of the table.
    pub fn current_layer(&self) -> (r: usize)
        ensures
            r == self@.current_layer(),
            self@.layers@.len() > 0 ==> r < self@.layers@.len(),
    {
        let states = stack_slice(&self.states);
        let mut acc: usize = self.default_layer;
        let mut i: usize = 0;
        while i < states.len()
            invariant
                i <= states@.len(),
                acc == if self.default_layer + layer_sum(states@.take(i as int)) < usize::MAX {
                    self.default_layer + layer_sum(states@.take(i as int))
                } else {
                    usize::MAX as int
                },
            decreases states@.len() - i,
        {
            assert(states@.take(i + 1).drop_last() =~= states@.take(i as int));
            if let Some(value) = states[i].get_layer() {
                acc = acc.saturating_add(value);
            }
            i += 1;
        }
        assert(states@.take(i as int) =~= states@);
        let n = self.layers.len();
        if n == 0 {
            0
        } else if acc < n - 1 {
            acc
        } else {
            n - 1
        }
    }

    /// The action at `coord` on layer `layer`, if the table has that cell.
    fn get_action(&self, layer: usize, coord: (u8, u8)) -> (r: Option<&'static Action<T>>)
        ensures
            match r {
                Some(a) => lookup(self.layers, layer as int, coord) == Some(*a),
                None => lookup(self.layers, layer as int, coord) is None,
            },
    {
        let layers: Layers<T> = self.layers;
        if layer < layers.len() {
            let rows: &'static [&'static [Action<T>]] = layers[layer];
            if (coord.0 as usize) < rows.len() {
                let row: &'static [Action<T>] = rows[coord.0 as usize];
                if (coord.1 as usize) < row.len() {
                    return Some(&row[coord.1 as usize]);
                }
            }
        }
        None
    }

    /// The action that a press at `coord` does on layer `layer`: a missing cell does
    /// nothing, and a transparent one takes the default layer's action there.
    pub fn press_as_action(&self, coord: (u8, u8), layer: usize) -> (r: &'static Action<T>)
        ensures
            *r == resolve(self@.layers, self@.default_layer as int, coord, layer as int),
    {
        match self.get_action(layer, coord) {
            None => &Action::NoOp,
            Some(Action::Trans) => {
                if layer != self.default_layer {
                    match self.get_action(self.default_layer, coord) {
                        None => &Action::NoOp,
                        Some(Action::Trans) => &Action::NoOp,
                        Some(a) => a,
                    }
                } else {
                    &Action::NoOp
                }
            },
            Some(a) => a,
        }
    }

    fn push_state(&mut self, st: State)
        requires
            old(self)@.wf(),
        ensures
            final(self)@ == old(self)@.push_state(st),
            final(self)@.wf(),
            final(self).pending == old(self).pending,
    {
        let _ = stack_push(&mut self.states, st);
    }

    fn do_action(&mut self, action: &'static Action<T>, row: u8, col: u8, delay: u16, fuel: usize) -> (r: CustomEvent<T>)
        requires
            old(self)@.wf(),
        ensures
            (final(self)@, r) == old(self)@.do_action(*action, row, col, delay, fuel as nat),
            final(self)@.wf(),
            final(self).pending == old(self).pending,
        decreases fuel, 0nat,
    {
        match action {
            Action::NoOp | Action::Trans => CustomEvent::NoEvent,
            Action::KeyCode(keycode) => {
                self.push_state(State::NormalKey { keycode: *keycode, row, col });
                CustomEvent::NoEvent
            },
            Action::MultipleKeyCodes(kcs) => {
                let kcs: &'static [KeyCode] = kcs;
                let mut i: usize = 0;
                while i < kcs.len()
                    invariant
                        i <= kcs@.len(),
                        self@.wf(),
                        self@ == old(self)@.push_keys(kcs@.take(i as int), row, col),
                        self.pending == old(self).pending,
                    decreases kcs@.len() - i,
                {
                    assert(kcs@.take(i + 1).drop_last() =~= kcs@.take(i as int));
                    self.push_state(State::NormalKey { keycode: kcs[i], row, col });
                    i += 1;
                }
                assert(kcs@.take(i as int) =~= kcs@);
                CustomEvent::NoEvent
            },
            Action::MultipleActions(acts) => {
                if fuel == 0 {
                    return CustomEvent::NoEvent;
                }
                let acts: &'static [Action<T>] = acts;
                let mut custom: CustomEvent<T> = CustomEvent::NoEvent;
                let mut i: usize = 0;
                while i < acts.len()
                    invariant
                        i <= acts@.len(),
                        fuel > 0,
                        self@.wf(),
                        (self@, custom) == old(self)@.do_actions(acts@.take(i as int), row, col, delay, (fuel - 1) as nat),
                        self.pending == old(self).pending,
                    decreases acts@.len() - i,
                {
                    assert(acts@.take(i + 1).drop_last() =~= acts@.take(i as int));
                    let e = self.do_action(&acts[i], row, col, delay, fuel - 1);
                    custom.update(e);
                    i += 1;
                }
                assert(acts@.take(i as int) =~= acts@);
                custom
            },
            Action::Layer(value) => {
                self.push_state(State::LayerModifier { value: *value, row, col });
                CustomEvent::NoEvent
            },
            Action::DefaultLayer(value) => {
                if *value < self.layers.len() {
                    self.default_layer = *value;
                }
                CustomEvent::NoEvent
            },
            Action::HoldTap { timeout, hold, tap, config, tap_hold_interval } => {
                if self.waiting.is_some() {
                    return CustomEvent::NoEvent;
                }
                let tracker = self.tap_hold_tracker;
                if *tap_hold_interval == 0 || tracker.coord.0 != row || tracker.coord.1 != col || tracker.timeout == 0 {
                    self.waiting = Some(
                        WaitingState { row, col, timeout: *timeout, delay, hold: *hold, tap: *tap, config: *config },
                    );
                    self.tap_hold_tracker = TapHoldTracker { coord: (row, col), timeout: *tap_hold_interval };
                    CustomEvent::NoEvent
                } else {
                    self.tap_hold_tracker = TapHoldTracker { coord: (row, col), timeout: 0 };
                    if fuel == 0 {
                        CustomEvent::NoEvent
                    } else {
                        self.do_action(*tap, row, col, delay, fuel - 1)
                    }
                }
            },
            Action::Custom(value) => {
                self.customs.push(HeldCustom { value, row, col });
                CustomEvent::Press(value)
            },
        }
    }

    fn release(&mut self, row: u8, col: u8) -> (r: CustomEvent<T>)
        requires
            old(self)@.wf(),
        ensures
            (final(self)@, r) == old(self)@.release((row, col)),
            final(self)@.wf(),
            final(self).pending == old(self).pending,
    {
        let old_states = stack_slice(&self.states);
        let mut states = stack_new();
        let mut i: usize = 0;
        while i < old_states.len()
            invariant
                i <= old_states@.len() <= MAX_STATES,
                held_states(states) == kept(old_states@.take(i as int), (row, col)),
                held_states(states).len() <= i,
            decreases old_states@.len() - i,
        {
            assert(old_states@.take(i + 1).drop_last() =~= old_states@.take(i as int));
            if let Some(kept_state) = old_states[i].release((row, col)) {
                let _ = stack_push(&mut states, kept_state);
            }
            i += 1;
        }
        assert(old_states@.take(i as int) =~= old_states@);
        let mut customs: Vec<HeldCustom<T>> = Vec::new();
        let mut custom: CustomEvent<T> = CustomEvent::NoEvent;
        let mut k: usize = 0;
        while k < self.customs.len()
            invariant
                k <= self.customs@.len(),
                customs@ == kept_customs(self.customs@.take(k as int), (row, col)),
                custom == release_event(self.customs@.take(k as int), (row, col)),
            decreases self.customs@.len() - k,
        {
            assert(self.customs@.take(k + 1).drop_last() =~= self.customs@.take(k as int));
            let h = self.customs[k];
            if h.row == row && h.col == col {
                custom.update(CustomEvent::Release(h.value));
            } else {
                customs.push(h);
            }
            k += 1;
        }
        assert(self.customs@.take(k as int) =~= self.customs@);
        self.states = states;
        self.customs = customs;
        custom
    }

    fn unstack(&mut self, s: Stacked) -> (r: CustomEvent<T>)
        requires
            old(self)@.wf(),
        ensures
            (final(self)@, r) == old(self)@.unstack(s),
            final(self)@.wf(),
            final(self).pending == old(self).pending,
    {
        match s.event {
            Event::Release(i, j) => self.release(i, j),
            Event::Press(i, j) => {
                let layer = self.current_layer();
                let action = self.press_as_action((i, j), layer);
                self.do_action(action, i, j, s.since, ACTION_DEPTH)
            },
        }
    }


    fn waiting_into_hold(&mut self) -> (r: CustomEvent<T>)
        requires
            old(self)@.wf(),
        ensures
            (final(self)@, r) == old(self)@.into_hold(),
            final(self)@.wf(),
            final(self).pending == old(self).pending,
    {
        if let Some(w) = self.waiting {
            self.waiting = None;
            self.do_action(w.hold, w.row, w.col, 0, ACTION_DEPTH)
        } else {
            CustomEvent::NoEvent
        }
    }

    /// Advances time by one tick: decides a pending hold-tap, or processes the oldest
    /// queued event. Returns the custom action pressed or released since the last
    /// tick, if any.
    pub fn tick(&mut self) -> (r: CustomEvent<T>)
        requires
            old(self)@.wf(),
        ensures
            (final(self)@, r) == old(self)@.tick(),
            final(self)@.wf(),
    {
        let mut i: usize = 0;
        while i < self.stacked.len()
            invariant
                i <= self.stacked@.len(),
                self.stacked@.len() == old(self).stacked@.len(),
                forall|j: int| 0 <= j < i ==> self.stacked@[j] == aged(old(self).stacked@)[j],
                forall|j: int| i <= j < self.stacked@.len() ==> self.stacked@[j] == old(self).stacked@[j],
                self.layers == old(self).layers,
                self.default_layer == old(self).default_layer,
                self.states == old(self).states,
                self.waiting == old(self).waiting,
                self.tap_hold_tracker == old(self).tap_hold_tracker,
                self.customs@ == old(self).customs@,
                self.pending == old(self).pending,
            decreases self.stacked@.len() - i,
        {
            let s = self.stacked[i];
            self.stacked.set(i, Stacked { event: s.event, since: s.since.saturating_add(1) });
            i += 1;
        }
        assert(self.stacked@ =~= aged(old(self).stacked@));
        self.tap_hold_tracker = TapHoldTracker {
            coord: self.tap_hold_tracker.coord,
            timeout: self.tap_hold_tracker.timeout.saturating_sub(1),
        };
        let pending = self.pending;
        self.pending = CustomEvent::NoEvent;
        let e = match self.waiting {
            Some(w) => match w.decide(&self.stacked) {
                WaitingAction::Hold => {
                    self.waiting = None;
                    self.do_action(w.hold, w.row, w.col, 0, ACTION_DEPTH)
                },
                WaitingAction::Tap => {
                    self.waiting = None;
                    self.do_action(w.tap, w.row, w.col, 0, ACTION_DEPTH)
                },
                WaitingAction::NoOp => {
                    self.waiting = Some(WaitingState { timeout: w.timeout.saturating_sub(1), ..w });
                    CustomEvent::NoEvent
                },
            },
            None => {
                if self.stacked.len() > 0 {
                    let s = self.stacked.remove(0);
                    assert(self.stacked@ =~= aged(old(self).stacked@).drop_first());
                    self.unstack(s)
                } else {
                    CustomEvent::NoEvent
                }
            },
        };
        let mut r = pending;
        r.update(e);
        r
    }

    /// Registers a key event. With no hold-tap pending and nothing queued, it takes
    /// effect at once: a press does its action, a release drops every state of its
    /// key. Otherwise it is queued behind the pending hold-tap and taken in later
    /// ticks; with the queue full, the hold-tap is resolved as a hold and the oldest
    /// event applied. A custom event it causes is reported by the next `tick`.
    pub fn event(&mut self, event: Event)
        requires
            old(self)@.wf(),
        ensures
            final(self)@ == old(self)@.event(event),
            final(self)@.wf(),
            old(self)@.idle() && event is Release ==> forall|k: int|
                0 <= k < final(self)@.states.len() ==> (#[trigger] final(self)@.states[k]).spec_coord()
                    != event.spec_coord(),
    {
        let s = Stacked { event, since: 0 };
        if self.waiting.is_none() && self.stacked.len() == 0 {
            let c = self.unstack(s);
            self.pending.update(c);
            proof {
                if event is Release {
                    lemma_release_clears(old(self)@, event.spec_coord());
                }
            }
        } else if self.stacked.len() < MAX_STACKED {
            self.stacked.push(s);
        } else {
            let oldest = self.stacked.remove(0);
            self.stacked.push(s);
            let c1 = self.waiting_into_hold();
            let c2 = self.unstack(oldest);
            self.pending.update(c1);
            self.pending.update(c2);
        }
    }

}

/// The key codes at the coordinates `coords` of a plain table indexed by row, then
/// column; coordinates outside the table give nothing.
pub open spec fn keys_at(table: Seq<&'static [KeyCode]>, coords: Seq<(u8, u8)>) -> Seq<KeyCode>
    decreases coords.len(),
{
    if coords.len() == 0 {
        Seq::empty()
    } else {
        let before = keys_at(table, coords.drop_last());
        let (r, c) = coords.last();
        if (r as int) < table.len() && (c as int) < table[r as int]@.len() {
            before.push(table[r as int]@[c as int])
        } else {
            before
        }
    }
}

/// The key codes of the pressed keys `pressed`, looked up in a plain table.
pub fn keycodes(table: &[&'static [KeyCode]], pressed: &[(u8, u8)]) -> (r: Vec<KeyCode>)
    ensures
        r@ == keys_at(table@, pressed@),
{
    let mut r: Vec<KeyCode> = Vec::new();
    let mut i: usize = 0;
    while i < pressed.len()
        invariant
            i <= pressed@.len(),
            r@ == keys_at(table@, pressed@.take(i as int)),
        decreases pressed@.len() - i,
    {
        assert(pressed@.take(i + 1).drop_last() =~= pressed@.take(i as int));
        let (row, col) = pressed[i];
        if (row as usize) < table.len() && (col as usize) < table[row as usize].len() {
            r.push(table[row as usize][col as usize]);
        }
        i += 1;
    }
    assert(pressed@.take(i as int) =~= pressed@);
    r
}

proof fn lemma_layer_sum_nonneg(states: Seq<State>)
    ensures
        layer_sum(states) >= 0,
    decreases states.len(),
{
    if states.len() > 0 {
        lemma_layer_sum_nonneg(states.drop_last());
    }
}

/// Whatever states a layout holds, its current layer is a layer of the table.
pub proof fn lemma_current_layer_in_range<T>(v: LayoutView<T>)
    requires
        v.layers@.len() > 0,
    ensures
        0 <= v.current_layer() < v.layers@.len(),
{
    lemma_layer_sum_nonneg(v.states);
}

proof fn lemma_kept_excludes(states: Seq<State>, c: (u8, u8))
    ensures
        forall|k: int| 0 <= k < kept(states, c).len() ==> (#[trigger] kept(states, c)[k]).spec_coord() != c,
    decreases states.len(),
{
    if states.len() > 0 {
        let before = kept(states.drop_last(), c);
        lemma_kept_excludes(states.drop_last(), c);
        assert forall|k: int| 0 <= k < kept(states, c).len() implies (#[trigger] kept(states, c)[k]).spec_coord()
            != c by {
            if k < before.len() {
                assert(kept(states, c)[k] == before[k]);
            }
        }
    }
}

/// After the release of a key, no state produced by that key is left.
pub proof fn lemma_release_clears<T>(v: LayoutView<T>, c: (u8, u8))
    ensures
        forall|k: int|
            0 <= k < v.release(c).0.states.len() ==> (#[trigger] v.release(c).0.states[k]).spec_coord() != c,
{
    lemma_kept_excludes(v.states, c);
}

/// With nothing waiting, a release takes effect at once: no state produced by the
/// released key is left.
pub proof fn lemma_event_release_clears<T>(v: LayoutView<T>, i: u8, j: u8)
    requires
        v.idle(),
    ensures
        forall|k: int|
            0 <= k < v.event(Event::Release(i, j)).states.len() ==> (#[trigger] v.event(
                Event::Release(i, j),
            ).states[k]).spec_coord() != (i, j),
{
    lemma_release_clears(v, (i, j));
}

/// On any layer, a transparent cell over a key code of the default layer resolves
/// to that key code.
pub proof fn lemma_resolve_transparent<T>(layers: Layers<T>, default_layer: int, coord: (u8, u8), layer: int, k: KeyCode)
    requires
        lookup(layers, layer, coord) == Some(Action::<T>::Trans),
        lookup(layers, default_layer, coord) == Some(Action::<T>::KeyCode(k)),
    ensures
        layer != default_layer,
        resolve(layers, default_layer, coord, layer) == Action::<T>::KeyCode(k),
{
}

/// On any layer, a transparent cell over a transparent cell of the default layer
/// resolves to no operation.
pub proof fn lemma_resolve_transparent_twice<T>(layers: Layers<T>, default_layer: int, coord: (u8, u8), layer: int)
    requires
        lookup(layers, layer, coord) == Some(Action::<T>::Trans),
        lookup(layers, default_layer, coord) == Some(Action::<T>::Trans),
    ensures
        resolve(layers, default_layer, coord, layer) == Action::<T>::NoOp,
{
}

/// A tick that takes a release from the queue leaves no state of the released key.
pub proof fn lemma_tick_release_clears<T>(v: LayoutView<T>, i: u8, j: u8)
    requires
        v.waiting is None,
        v.stacked.len() > 0,
        v.stacked[0].event == Event::Release(i, j),
    ensures
        forall|k: int|
            0 <= k < v.tick().0.states.len() ==> (#[trigger] v.tick().0.states[k]).spec_coord() != (i, j),
{
    let stacked = aged(v.stacked);
    assert(stacked[0].event == Event::Release(i, j));
    let w = LayoutView {
        stacked: stacked.drop_first(),
        tracker: TapHoldTracker { coord: v.tracker.coord, timeout: tick_down(v.tracker.timeout) },
        pending: CustomEvent::NoEvent,
        ..v
    };
    assert(v.tick().0 == w.release((i, j)).0);
    lemma_release_clears(w, (i, j));
}

/// A transparent cell takes the action of the default layer at the same place: a
/// key code there is what the press holds.
pub proof fn lemma_transparent_chaining<T>(v: LayoutView<T>, row: u8, col: u8, since: u16, k: KeyCode)
    requires
        lookup(v.layers, v.current_layer(), (row, col)) == Some(Action::<T>::Trans),
        lookup(v.layers, v.default_layer as int, (row, col)) == Some(Action::<T>::KeyCode(k)),
    ensures
        resolve(v.layers, v.default_layer as int, (row, col), v.current_layer()) == Action::<T>::KeyCode(k),
        v.unstack(Stacked { event: Event::Press(row, col), since }) == (
            v.push_state(State::NormalKey { keycode: k, row, col }),
            CustomEvent::<T>::NoEvent,
        ),
        v.states.len() < MAX_STATES ==> keycodes_of(
            v.unstack(Stacked { event: Event::Press(row, col), since }).0.states,
        ) == keycodes_of(v.states).push(k),
{
    if v.states.len() < MAX_STATES {
        assert(v.states.push(State::NormalKey { keycode: k, row, col }).drop_last() =~= v.states);
    }
}

/// A transparent cell over a transparent cell of the default layer does nothing.
pub proof fn lemma_transparent_over_transparent<T>(v: LayoutView<T>, row: u8, col: u8, since: u16)
    requires
        lookup(v.layers, v.current_layer(), (row, col)) == Some(Action::<T>::Trans),
        lookup(v.layers, v.default_layer as int, (row, col)) == Some(Action::<T>::Trans),
    ensures
        resolve(v.layers, v.default_layer as int, (row, col), v.current_layer()) == Action::<T>::NoOp,
        v.unstack(Stacked { event: Event::Press(row, col), since }) == (v, CustomEvent::<T>::NoEvent),
{
}

} // verus!
