use std::collections::BTreeSet;

use dmote_fw::action::{Action, HoldTapConfig};
use dmote_fw::key_code::KeyCode;
use dmote_fw::key_code::KeyCode::{Enter, LAlt, LCtrl, LShift, Space, E, F};
use dmote_fw::layout::Event::{Press, Release};
use dmote_fw::layout::{CustomEvent, Layers, Layout};

fn assert_keys(expected: &[KeyCode], actual: Vec<KeyCode>) {
    let expected: BTreeSet<KeyCode> = expected.iter().copied().collect();
    let tested: BTreeSet<KeyCode> = actual.into_iter().collect();
    assert_eq!(expected, tested);
}

#[test]
fn basic_hold_tap() {
    const LAYERS: Layers = &[
        &[&[
            Action::HoldTap {
                timeout: 200,
                hold: &Action::Layer(1),
                tap: &Action::KeyCode(Space),
                config: HoldTapConfig::Default,
                tap_hold_interval: 0,
            },
            Action::HoldTap {
                timeout: 200,
                hold: &Action::KeyCode(LCtrl),
                tap: &Action::KeyCode(Enter),
                config: HoldTapConfig::Default,
                tap_hold_interval: 0,
            },
        ]],
        &[&[Action::Trans, Action::MultipleKeyCodes(&[LCtrl, Enter])]],
    ];
    let mut layout = Layout::new(LAYERS);
    assert_eq!(CustomEvent::NoEvent, layout.tick());
    assert_keys(&[], layout.keycodes());
    layout.event(Press(0, 1));
    assert_eq!(CustomEvent::NoEvent, layout.tick());
    assert_keys(&[], layout.keycodes());
    layout.event(Press(0, 0));
    assert_eq!(CustomEvent::NoEvent, layout.tick());
    assert_keys(&[], layout.keycodes());
    layout.event(Release(0, 0));
    for _ in 0..197 {
        assert_eq!(CustomEvent::NoEvent, layout.tick());
        assert_keys(&[], layout.keycodes());
    }
    // The first press took effect at once, so its hold-tap times out at this tick.
    assert_eq!(CustomEvent::NoEvent, layout.tick());
    assert_keys(&[LCtrl], layout.keycodes());
    assert_eq!(CustomEvent::NoEvent, layout.tick());
    assert_keys(&[LCtrl], layout.keycodes());
    assert_eq!(CustomEvent::NoEvent, layout.tick());
    assert_keys(&[LCtrl, Space], layout.keycodes());
    assert_eq!(CustomEvent::NoEvent, layout.tick());
    assert_keys(&[LCtrl], layout.keycodes());
    assert_eq!(CustomEvent::NoEvent, layout.tick());
    assert_keys(&[LCtrl], layout.keycodes());
    layout.event(Release(0, 1));
    assert_eq!(CustomEvent::NoEvent, layout.tick());
    assert_keys(&[], layout.keycodes());
}

#[test]
fn hold_tap_interleaved_timeout() {
    const LAYERS: Layers = &[&[&[
        Action::HoldTap {
            timeout: 200,
            hold: &Action::KeyCode(LAlt),
            tap: &Action::KeyCode(Space),
            config: HoldTapConfig::Default,
            tap_hold_interval: 0,
        },
        Action::HoldTap {
            timeout: 20,
            hold: &Action::KeyCode(LCtrl),
            tap: &Action::KeyCode(Enter),
            config: HoldTapConfig::Default,
            tap_hold_interval: 0,
        },
    ]]];
    let mut layout = Layout::new(LAYERS);
    assert_eq!(CustomEvent::NoEvent, layout.tick());
    assert_keys(&[], layout.keycodes());
    layout.event(Press(0, 0));
    assert_eq!(CustomEvent::NoEvent, layout.tick());
    assert_keys(&[], layout.keycodes());
    layout.event(Press(0, 1));
    for _ in 0..15 {
        assert_eq!(CustomEvent::NoEvent, layout.tick());
        assert_keys(&[], layout.keycodes());
    }
    layout.event(Release(0, 0));
    assert_eq!(CustomEvent::NoEvent, layout.tick());
    assert_keys(&[Space], layout.keycodes());
    for _ in 0..10 {
        assert_eq!(CustomEvent::NoEvent, layout.tick());
        assert_keys(&[Space], layout.keycodes());
    }
    layout.event(Release(0, 1));
    assert_eq!(CustomEvent::NoEvent, layout.tick());
    assert_keys(&[Space, LCtrl], layout.keycodes());
    assert_eq!(CustomEvent::NoEvent, layout.tick());
    assert_keys(&[LCtrl], layout.keycodes());
    assert_eq!(CustomEvent::NoEvent, layout.tick());
    assert_keys(&[], layout.keycodes());
    assert_eq!(CustomEvent::NoEvent, layout.tick());
    assert_keys(&[], layout.keycodes());
}

#[test]
fn hold_on_press() {
    const LAYERS: Layers = &[&[&[
        Action::HoldTap {
            timeout: 200,
            hold: &Action::KeyCode(LAlt),
            tap: &Action::KeyCode(Space),
            config: HoldTapConfig::HoldOnOtherKeyPress,
            tap_hold_interval: 0,
        },
        Action::KeyCode(Enter),
    ]]];
    let mut layout = Layout::new(LAYERS);

    // Press another key before timeout
    assert_eq!(CustomEvent::NoEvent, layout.tick());
    assert_keys(&[], layout.keycodes());
    layout.event(Press(0, 0));
    assert_eq!(CustomEvent::NoEvent, layout.tick());
    assert_keys(&[], layout.keycodes());
    layout.event(Press(0, 1));
    assert_eq!(CustomEvent::NoEvent, layout.tick());
    assert_keys(&[LAlt], layout.keycodes());
    assert_eq!(CustomEvent::NoEvent, layout.tick());
    assert_keys(&[LAlt, Enter], layout.keycodes());
    layout.event(Release(0, 0));
    assert_eq!(CustomEvent::NoEvent, layout.tick());
    assert_keys(&[Enter], layout.keycodes());
    layout.event(Release(0, 1));
    assert_eq!(CustomEvent::NoEvent, layout.tick());
    assert_keys(&[], layout.keycodes());
    assert_eq!(CustomEvent::NoEvent, layout.tick());
    assert_keys(&[], layout.keycodes());

    // Press another key after timeout
    assert_eq!(CustomEvent::NoEvent, layout.tick());
    assert_keys(&[], layout.keycodes());
    layout.event(Press(0, 0));
    // The press took effect at once: the hold comes at the 200th tick after it.
    for _ in 0..199 {
        assert_eq!(CustomEvent::NoEvent, layout.tick());
        assert_keys(&[], layout.keycodes());
    }
    assert_eq!(CustomEvent::NoEvent, layout.tick());
    assert_keys(&[LAlt], layout.keycodes());
    layout.event(Press(0, 1));
    assert_eq!(CustomEvent::NoEvent, layout.tick());
    assert_keys(&[LAlt, Enter], layout.keycodes());
    layout.event(Release(0, 0));
    assert_eq!(CustomEvent::NoEvent, layout.tick());
    assert_keys(&[Enter], layout.keycodes());
    layout.event(Release(0, 1));
    assert_eq!(CustomEvent::NoEvent, layout.tick());
    assert_keys(&[], layout.keycodes());
    assert_eq!(CustomEvent::NoEvent, layout.tick());
    assert_keys(&[], layout.keycodes());
}

#[test]
fn permissive_hold() {
    const LAYERS: Layers = &[&[&[
        Action::HoldTap {
            timeout: 200,
            hold: &Action::KeyCode(LAlt),
            tap: &Action::KeyCode(Space),
            config: HoldTapConfig::PermissiveHold,
            tap_hold_interval: 0,
        },
        Action::KeyCode(Enter),
    ]]];
    let mut layout = Layout::new(LAYERS);

    // Press and release another key before timeout
    assert_eq!(CustomEvent::NoEvent, layout.tick());
    assert_keys(&[], layout.keycodes());
    layout.event(Press(0, 0));
    assert_eq!(CustomEvent::NoEvent, layout.tick());
    assert_keys(&[], layout.keycodes());
    layout.event(Press(0, 1));
    assert_eq!(CustomEvent::NoEvent, layout.tick());
    assert_keys(&[], layout.keycodes());
    layout.event(Release(0, 1));
    assert_eq!(CustomEvent::NoEvent, layout.tick());
    assert_keys(&[LAlt], layout.keycodes());
    assert_eq!(CustomEvent::NoEvent, layout.tick());
    assert_keys(&[LAlt, Enter], layout.keycodes());
    assert_eq!(CustomEvent::NoEvent, layout.tick());
    assert_keys(&[LAlt], layout.keycodes());
    assert_eq!(CustomEvent::NoEvent, layout.tick());
    assert_keys(&[LAlt], layout.keycodes());
    layout.event(Release(0, 0));
    assert_eq!(CustomEvent::NoEvent, layout.tick());
    assert_keys(&[], layout.keycodes());
    assert_eq!(CustomEvent::NoEvent, layout.tick());
    assert_keys(&[], layout.keycodes());
}

#[test]
fn multiple_actions() {
    const LAYERS: Layers = &[
        &[&[Action::MultipleActions(&[Action::Layer(1), Action::KeyCode(LShift)]), Action::KeyCode(F)]],
        &[&[Action::Trans, Action::KeyCode(E)]],
    ];
    let mut layout = Layout::new(LAYERS);
    assert_eq!(CustomEvent::NoEvent, layout.tick());
    assert_keys(&[], layout.keycodes());
    layout.event(Press(0, 0));
    assert_eq!(CustomEvent::NoEvent, layout.tick());
    assert_keys(&[LShift], layout.keycodes());
    layout.event(Press(0, 1));
    assert_eq!(CustomEvent::NoEvent, layout.tick());
    assert_keys(&[LShift, E], layout.keycodes());
    layout.event(Release(0, 1));
    layout.event(Release(0, 0));
    // Both releases took effect at once.
    assert_eq!(CustomEvent::NoEvent, layout.tick());
    assert_keys(&[], layout.keycodes());
    assert_eq!(CustomEvent::NoEvent, layout.tick());
    assert_keys(&[], layout.keycodes());
}

#[test]
fn custom() {
    const LAYERS: Layers<u8> = &[&[&[Action::Custom(42)]]];
    let mut layout = Layout::new(LAYERS);
    assert_eq!(CustomEvent::NoEvent, layout.tick());
    assert_keys(&[], layout.keycodes());

    // Custom event
    layout.event(Press(0, 0));
    assert_eq!(CustomEvent::Press(&42), layout.tick());
    assert_keys(&[], layout.keycodes());

    // nothing more
    assert_eq!(CustomEvent::NoEvent, layout.tick());
    assert_keys(&[], layout.keycodes());

    // release custom
    layout.event(Release(0, 0));
    assert_eq!(CustomEvent::Release(&42), layout.tick());
    assert_keys(&[], layout.keycodes());
}
