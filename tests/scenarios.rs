use std::collections::BTreeSet;

use dmote_fw::action::{d, k, l, m, Action};
use dmote_fw::debounce::QuickDraw;
use dmote_fw::key_code::KeyCode::{self, Kb1, LCtrl, LShift, A, B, C, X};
use dmote_fw::layout::Event::{Press, Release};
use dmote_fw::layout::{CustomEvent, Event, Layers, Layout};
use dmote_fw::wire::KeyEvent;

fn keys(layout: &Layout) -> BTreeSet<KeyCode> {
    layout.keycodes().into_iter().collect()
}

fn set(kcs: &[KeyCode]) -> BTreeSet<KeyCode> {
    kcs.iter().copied().collect()
}

fn run_debouncer(q: &mut QuickDraw, samples: &[bool], t0: u32, stable: u32) -> Vec<(u32, bool)> {
    let mut out = Vec::new();
    for (i, s) in samples.iter().enumerate() {
        let now = t0.wrapping_add(i as u32);
        if let Some(e) = q.step(*s, now, stable) {
            out.push((now, e));
        }
    }
    out
}

#[test]
fn basic_press_release() {
    const LAYERS: Layers = &[&[&[Action::KeyCode(A)]]];
    let mut layout = Layout::new(LAYERS);
    layout.event(Press(0, 0));
    assert_eq!(keys(&layout), set(&[A]));
    layout.event(Release(0, 0));
    assert_eq!(keys(&layout), set(&[]));
}

#[test]
fn shifted_punctuation() {
    const LAYERS: Layers = &[&[&[Action::MultipleKeyCodes(&[LShift, Kb1])]]];
    let mut layout = Layout::new(LAYERS);
    layout.event(Press(0, 0));
    assert_eq!(layout.keycodes(), vec![LShift, Kb1]);
    layout.event(Release(0, 0));
    assert_eq!(keys(&layout), set(&[]));
}

#[test]
fn layer_modifiers_sum() {
    const LAYERS: Layers = &[
        &[&[Action::Layer(1), Action::Layer(2), Action::NoOp]],
        &[&[Action::Trans, Action::Trans, Action::Trans]],
        &[&[Action::Trans, Action::Trans, Action::Trans]],
        &[&[Action::Trans, Action::Trans, Action::KeyCode(X)]],
    ];
    let mut layout = Layout::new(LAYERS);
    for e in [Press(0, 0), Press(0, 1), Press(0, 2)] {
        layout.event(e);
    }
    assert_eq!(layout.current_layer(), 3);
    assert_eq!(keys(&layout), set(&[X]));
    layout.event(Release(0, 1));
    // X was pressed on layer 3 and stays held until its own key is released.
    assert_eq!(layout.current_layer(), 1);
    assert_eq!(keys(&layout), set(&[X]));
    layout.event(Release(0, 0));
    layout.event(Release(0, 2));
    assert_eq!(layout.current_layer(), 0);
    assert_eq!(keys(&layout), set(&[]));
}

#[test]
fn debouncer_emits_leading_edge() {
    let s = [false, false, true, false, true, false, true, true, true, true, true, true, true, true,
        true, true, true, true, true, true];
    let mut q = QuickDraw::new();
    let out = run_debouncer(&mut q, &s, 0, 10);
    assert_eq!(out, vec![(2, true)]);
    assert_eq!(q, QuickDraw::Stable(true));
}

#[test]
fn debouncer_cancels_spurious_edge() {
    let s = [false, false, true, false, false, false, false, false, false, false, false, false, false,
        false, false];
    let mut q = QuickDraw::new();
    let out = run_debouncer(&mut q, &s, 0, 10);
    assert_eq!(out, vec![(2, true), (13, false)]);
    assert_eq!(q, QuickDraw::Stable(false));
}

#[test]
fn wire_frame_example() {
    let e = KeyEvent { row: 5, col: 3, brk: true };
    let b = e.pack();
    assert_eq!(b, 0b1_0_011_101);
    assert_eq!(KeyEvent::unpack(b), e);
    assert_eq!(KeyEvent::unpack(b).to_event(), Release(5, 3));
}

#[test]
fn current_layer_saturates_at_last_layer() {
    const LAYERS: Layers = &[&[&[Action::Layer(5), Action::Layer(usize::MAX)]], &[&[Action::Trans, Action::Trans]]];
    let mut layout = Layout::new(LAYERS);
    assert_eq!(layout.current_layer(), 0);
    layout.event(Press(0, 0));
    layout.tick();
    assert_eq!(layout.current_layer(), 1);
    layout.event(Press(0, 1));
    layout.tick();
    assert_eq!(layout.current_layer(), 1);
}

#[test]
fn release_clears_every_state_of_its_key() {
    const LAYERS: Layers = &[&[&[
        Action::MultipleActions(&[Action::MultipleKeyCodes(&[LShift, A]), Action::Layer(1), Action::KeyCode(B)]),
        Action::KeyCode(C),
    ]], &[&[Action::Trans, Action::Trans]]];
    let mut layout = Layout::new(LAYERS);
    layout.event(Press(0, 0));
    layout.event(Press(0, 1));
    layout.tick();
    layout.tick();
    assert_eq!(layout.keycodes(), vec![LShift, A, B, C]);
    assert_eq!(layout.current_layer(), 1);
    layout.event(Release(0, 0));
    layout.tick();
    assert_eq!(layout.keycodes(), vec![C]);
    assert_eq!(layout.current_layer(), 0);
}

#[test]
fn edges_never_exceed_sample_changes() {
    let s = [true, false, true, true, false, false, false, true, false, true, true, true, true, true,
        false, false, false, false, false, false, false, true];
    let mut q = QuickDraw::new();
    let out = run_debouncer(&mut q, &s, 100, 3);
    let mut changes = 0;
    let mut last = false;
    for x in s {
        if x != last {
            changes += 1;
        }
        last = x;
    }
    assert!(out.len() <= changes);
    assert_eq!(out, vec![(100, true), (114, false), (121, true)]);
}

#[test]
fn debouncer_settles_across_clock_wrap() {
    let s = [true, false, true, false, false, false, false, false];
    let mut q = QuickDraw::Stable(true);
    let out = run_debouncer(&mut q, &s, u32::MAX - 2, 4);
    assert_eq!(q, QuickDraw::Stable(false));
    assert_eq!(out, vec![(u32::MAX - 1, false)]);
}

#[test]
fn wire_round_trip_for_every_event() {
    for row in 0..8u8 {
        for col in 0..8u8 {
            for brk in [false, true] {
                let e = KeyEvent { row, col, brk };
                assert_eq!(KeyEvent::unpack(e.pack()), e);
                let ev = if brk { Release(row, col) } else { Press(row, col) };
                assert_eq!(KeyEvent::from_event(ev), Some(e));
            }
        }
    }
    assert_eq!(KeyEvent::from_event(Press(8, 0)), None);
}

#[test]
fn wire_reserved_bit_ignored() {
    assert_eq!(KeyEvent::unpack(0b0100_0000), KeyEvent { row: 0, col: 0, brk: false });
}

#[test]
fn transparent_takes_default_layer_key() {
    const LAYERS: Layers = &[
        &[&[Action::Layer(1), Action::KeyCode(B), Action::Trans]],
        &[&[Action::Trans, Action::Trans, Action::Trans]],
    ];
    let mut layout = Layout::new(LAYERS);
    layout.event(Press(0, 0));
    layout.event(Press(0, 1));
    layout.event(Press(0, 2));
    layout.tick();
    layout.tick();
    layout.tick();
    assert_eq!(layout.current_layer(), 1);
    assert_eq!(layout.keycodes(), vec![B]);
}

#[test]
fn default_layer_changes_only_to_valid_layer() {
    const LAYERS: Layers = &[
        &[&[Action::DefaultLayer(1), Action::DefaultLayer(7), Action::KeyCode(A)]],
        &[&[Action::DefaultLayer(0), Action::Trans, Action::KeyCode(B)]],
    ];
    let mut layout = Layout::new(LAYERS);
    layout.event(Press(0, 1));
    layout.tick();
    assert_eq!(layout.current_layer(), 0);
    layout.event(Press(0, 0));
    layout.tick();
    assert_eq!(layout.current_layer(), 1);
    layout.event(Press(0, 2));
    layout.tick();
    assert_eq!(layout.keycodes(), vec![B]);
}

#[test]
fn missing_cell_is_noop() {
    const LAYERS: Layers = &[&[&[Action::KeyCode(A)]]];
    let mut layout = Layout::new(LAYERS);
    layout.event(Press(3, 4));
    layout.event(Press(0, 1));
    layout.tick();
    layout.tick();
    assert!(layout.keycodes().is_empty());
}

#[test]
fn state_stack_overflow_drops_pushes() {
    const MANY: [KeyCode; 70] = [A; 70];
    const LAYERS: Layers = &[&[&[Action::MultipleKeyCodes(&MANY), Action::KeyCode(B)]]];
    let mut layout = Layout::new(LAYERS);
    layout.event(Press(0, 0));
    layout.tick();
    assert_eq!(layout.keycodes().len(), 64);
    layout.event(Press(0, 1));
    layout.tick();
    assert!(!layout.keycodes().contains(&B));
    layout.event(Release(0, 0));
    layout.tick();
    assert!(layout.keycodes().is_empty());
}

#[test]
fn events_wait_behind_pending_hold_tap() {
    const LAYERS: Layers = &[&[&[
        Action::HoldTap {
            timeout: 100,
            hold: &Action::KeyCode(LCtrl),
            tap: &Action::KeyCode(A),
            config: dmote_fw::action::HoldTapConfig::Default,
            tap_hold_interval: 0,
        },
        Action::KeyCode(B),
    ]]];
    let mut layout = Layout::new(LAYERS);
    layout.event(Press(0, 0));
    for _ in 0..16 {
        layout.event(Press(0, 1));
    }
    assert!(layout.keycodes().is_empty());
    // The queue is full: the hold-tap becomes a hold and the oldest event is applied.
    layout.event(Release(0, 1));
    assert_eq!(layout.keycodes(), vec![LCtrl, B]);
}

#[test]
fn custom_press_reported_with_full_state_stack() {
    const MANY: [KeyCode; 70] = [A; 70];
    const LAYERS: Layers<u8> = &[&[&[Action::MultipleKeyCodes(&MANY), Action::Custom(9)]]];
    let mut layout = Layout::new(LAYERS);
    layout.event(Press(0, 0));
    assert_eq!(layout.keycodes().len(), 64);
    layout.event(Press(0, 1));
    assert_eq!(layout.tick(), CustomEvent::Press(&9));
    layout.event(Release(0, 1));
    assert_eq!(layout.tick(), CustomEvent::Release(&9));
    assert_eq!(layout.keycodes().len(), 64);
}

#[test]
fn custom_action_reports_press_and_release() {
    const LAYERS: Layers<u8> = &[&[&[Action::MultipleActions(&[Action::Custom(7), Action::KeyCode(A)])]]];
    let mut layout = Layout::new(LAYERS);
    layout.event(Press(0, 0));
    assert_eq!(layout.tick(), CustomEvent::Press(&7));
    assert_eq!(layout.keycodes(), vec![A]);
    layout.event(Release(0, 0));
    assert_eq!(layout.tick(), CustomEvent::Release(&7));
    assert!(layout.keycodes().is_empty());
}

#[test]
fn tap_hold_interval_taps_at_once() {
    const LAYERS: Layers = &[&[&[Action::HoldTap {
        timeout: 50,
        hold: &Action::KeyCode(LCtrl),
        tap: &Action::KeyCode(A),
        config: dmote_fw::action::HoldTapConfig::Default,
        tap_hold_interval: 30,
    }]]];
    let mut layout = Layout::new(LAYERS);
    layout.event(Press(0, 0));
    layout.tick();
    layout.event(Release(0, 0));
    layout.tick();
    assert_eq!(layout.keycodes(), vec![A]);
    layout.tick();
    assert!(layout.keycodes().is_empty());
    layout.event(Press(0, 0));
    layout.tick();
    assert_eq!(layout.keycodes(), vec![A]);
}

#[test]
fn action_helpers() {
    assert_eq!(k::<core::convert::Infallible>(A), Action::KeyCode(A));
    assert_eq!(l::<core::convert::Infallible>(2), Action::Layer(2));
    assert_eq!(d::<core::convert::Infallible>(1), Action::DefaultLayer(1));
    const SHIFT_A: &[KeyCode] = &[LShift, A];
    assert_eq!(m::<core::convert::Infallible>(SHIFT_A), Action::MultipleKeyCodes(SHIFT_A));
    assert_eq!(l::<core::convert::Infallible>(3).layer(), Some(3));
    assert_eq!(k::<core::convert::Infallible>(A).layer(), None);
    assert_eq!(k::<core::convert::Infallible>(A).key_codes(), vec![A]);
    assert_eq!(m::<core::convert::Infallible>(SHIFT_A).key_codes(), vec![LShift, A]);
    assert!(Action::<core::convert::Infallible>::NoOp.key_codes().is_empty());
}

#[test]
fn event_methods() {
    assert_eq!(Press(3, 1).transform(|i, j| (i, 11 - j)), Press(3, 10));
    assert_eq!(Release(2, 4).transform(|i, j| (i + 1, j + 6)), Release(3, 10));
    assert!(Press(0, 0).is_press());
    assert!(!Press(0, 0).is_release());
    assert!(Release(0, 0).is_release());
    assert_eq!(Release(6, 2).coord(), (6, 2));
    let e: Event = KeyEvent::unpack(0x0B).to_event();
    assert_eq!(e, Press(3, 1));
}
