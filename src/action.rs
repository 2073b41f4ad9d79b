//! The actions that a key of the layer table can trigger.

use vstd::prelude::*;
use crate::key_code::KeyCode;

verus! {

/// How a pending hold-tap key decides between its hold and its tap action
/// before its timeout runs out.
#[derive(Debug, Clone, Copy, PartialEq, Eq)]
pub enum HoldTapConfig {
    /// Released before the timeout: tap; still held at the timeout: hold.
    Default,
    /// The press of any other key resolves it to hold at once.
    HoldOnOtherKeyPress,
    /// The press and release of any other key resolves it to hold at once.
    PermissiveHold,
}

/// The different actions that can be done.
#[derive(Debug, Clone, Copy, PartialEq, Eq)]
pub enum Action<T: 'static = core::convert::Infallible> {
    /// No operation action: just do nothing.
    NoOp,
    /// Transparent: take the action of the default layer at the same place.
    /// On the default layer, it is equivalent to `NoOp`.
    Trans,
    /// A single key.
    KeyCode(KeyCode),
    /// Several keys pressed at the same time (a shifted character, a shortcut).
    MultipleKeyCodes(&'static [KeyCode]),
    /// Several actions done at the same time.
    MultipleActions(&'static [Action<T>]),
    /// While held, adds its value to the current layer.
    Layer(usize),
    /// Sets the default layer.
    DefaultLayer(usize),
    /// Acts as `hold` when held long enough and as `tap` otherwise.
    HoldTap {
        /// Ticks after which a key still held becomes a hold.
        timeout: u16,
        /// The action done on hold.
        hold: &'static Action<T>,
        /// The action done on tap.
        tap: &'static Action<T>,
        /// How other keys resolve the pending key early.
        config: HoldTapConfig,
        /// Ticks after a tap during which a new press of the same key taps at once.
        tap_hold_interval: u16,
    },
    /// A payload of the user's own, reported back and not otherwise interpreted.
    Custom(T),
}

/// The key codes that an action sends by itself.
pub open spec fn action_key_codes<T>(a: Action<T>) -> Seq<KeyCode> {
    match a {
        Action::KeyCode(kc) => seq![kc],
        Action::MultipleKeyCodes(kcs) => kcs@,
        _ => Seq::empty(),
    }
}

impl<T> Action<T> {
    /// Gets the layer number if the action is the `Layer` action.
    pub fn layer(self) -> (r: Option<usize>)
        ensures
            r == (match self {
                Action::Layer(l) => Some(l),
                _ => None::<usize>,
            }),
    {
        match self {
            Action::Layer(l) => Some(l),
            _ => None,
        }
    }

    /// The key codes corresponding to the action.
    pub fn key_codes(&self) -> (r: Vec<KeyCode>)
        ensures
            r@ == action_key_codes(*self),
    {
        match self {
            Action::KeyCode(kc) => vec![*kc],
            Action::MultipleKeyCodes(kcs) => {
                let mut v: Vec<KeyCode> = Vec::new();
                let mut i: usize = 0;
                while i < kcs.len()
                    invariant
                        i <= kcs@.len(),
                        v@ == kcs@.take(i as int),
                    decreases kcs@.len() - i,
                {
                    v.push(kcs[i]);
                    assert(kcs@.take(i + 1) =~= kcs@.take(i as int).push(kcs@[i as int]));
                    i += 1;
                }
                assert(kcs@.take(kcs@.len() as int) =~= kcs@);
                v
            },
            _ => {
                let v: Vec<KeyCode> = Vec::new();
                assert(v@ =~= Seq::<KeyCode>::empty());
                v
            },
        }
    }
}

/// A shortcut to create an `Action::KeyCode`.
pub fn k<T>(kc: KeyCode) -> (r: Action<T>)
    ensures
        r == Action::<T>::KeyCode(kc),
{
    Action::KeyCode(kc)
}

/// A shortcut to create an `Action::Layer`.
pub fn l<T>(layer: usize) -> (r: Action<T>)
    ensures
        r == Action::<T>::Layer(layer),
{
    Action::Layer(layer)
}

/// A shortcut to create an `Action::DefaultLayer`.
pub fn d<T>(layer: usize) -> (r: Action<T>)
    ensures
        r == Action::<T>::DefaultLayer(layer),
{
    Action::DefaultLayer(layer)
}

/// A shortcut to create an `Action::MultipleKeyCodes`.
pub fn m<T>(kcs: &'static [KeyCode]) -> (r: Action<T>)
    ensures
        r == Action::<T>::MultipleKeyCodes(kcs),
{
    Action::MultipleKeyCodes(kcs)
}

} // verus!
