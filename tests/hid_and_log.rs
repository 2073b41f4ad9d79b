use dmote_fw::debounce::QuickDraw;
use dmote_fw::key_code::KbHidReport;
use dmote_fw::key_code::KeyCode::{self, ErrorUndefined, LAlt, LShift, RGui, A, B, C, D, E, F, G, No};
use dmote_fw::keyboard::{Keyboard, ReportType, Scanner};
use dmote_fw::layout::Event::{Press, Release};
use dmote_fw::layout::{keycodes, Layers};
use dmote_fw::log::{DebState, KeyState, Log, PressRelease, LOG_SIZE};
use dmote_fw::scan::{compute_arr_presc, keys_from_scan, readable_half, report, scan_timing};
use dmote_fw::action::Action;

#[test]
fn report_modifiers_and_keys() {
    let r = KbHidReport::from_keycodes(&[LShift, A, RGui, No, B]);
    assert_eq!(r.as_bytes(), &[0x82, 0, 0x04, 0x05, 0, 0, 0, 0]);
}

#[test]
fn report_rollover_when_slots_run_out() {
    let r = KbHidReport::from_keycodes(&[A, B, C, D, E, F, G, LAlt]);
    assert_eq!(r.as_bytes(), &[0x04, 0, 1, 1, 1, 1, 1, 1]);
}

#[test]
fn report_error_usage_fills_slots() {
    let r = KbHidReport::from_keycodes(&[A, ErrorUndefined]);
    assert_eq!(r.as_bytes(), &[0, 0, 3, 3, 3, 3, 3, 3]);
    assert_eq!(KbHidReport::new().as_bytes(), &[0u8; 8]);
}

#[test]
fn keycode_usage_ids() {
    assert_eq!(KeyCode::A.usage(), 0x04);
    assert_eq!(KeyCode::Kb0.usage(), 0x27);
    assert_eq!(KeyCode::Application.usage(), 0x65);
    assert_eq!(KeyCode::F24.usage(), 0x73);
    assert_eq!(KeyCode::LCtrl.usage(), 0xE0);
    assert!(KeyCode::RShift.is_modifier());
    assert!(!KeyCode::Space.is_modifier());
}

#[test]
fn log_ring_wraps() {
    let mut log = Log::new();
    for i in 0..(LOG_SIZE as u32 + 3) {
        let mut r = KeyState::default();
        r.timestamp = i;
        log.log(r);
    }
    assert_eq!(log.head(), 3);
    let recs = log.records_in_order();
    assert_eq!(recs.len(), LOG_SIZE);
    assert_eq!(recs[0].timestamp, 3);
    assert_eq!(recs[LOG_SIZE - 1].timestamp, LOG_SIZE as u32 + 2);
}

#[test]
fn record_words_round_trip() {
    let r = KeyState { timestamp: 77, row: 5, col: 2, deb: DebState::BouncingDU, event: PressRelease::Release };
    let (w0, w1) = r.to_words();
    assert_eq!((w0, w1), (77, 0x0205_0205));
    assert_eq!(KeyState::from_words(w0, w1), Some(r));
    assert_eq!(KeyState::from_words(0, 0x0006_0000), None);
    assert_eq!(KeyState::from_words(0, 0x0300_0000), None);
}

#[test]
fn debouncer_names_and_pressed() {
    assert_eq!(QuickDraw::Stable(true).state_name(), DebState::StableD);
    assert_eq!(QuickDraw::Bouncing { prior: false, current: true, since: 0 }.state_name(), DebState::BouncingUD);
    assert_eq!(QuickDraw::Bouncing { prior: false, current: false, since: 0 }.state_name(), DebState::BouncingUU);
    assert!(QuickDraw::Bouncing { prior: false, current: false, since: 0 }.is_pressed());
    assert!(!QuickDraw::Bouncing { prior: true, current: true, since: 0 }.is_pressed());
    let a = QuickDraw::build_array();
    assert_eq!(a.len(), 48);
    assert!(a.iter().all(|q| *q == QuickDraw::Stable(false)));
}

#[test]
fn scan_frame_to_events_and_log() {
    let mut cells = vec![QuickDraw::new(); 6];
    let mut log = Log::new();
    // two columns of three rows: row 1 of column 0 and row 2 of column 1 closed
    let events = keys_from_scan(&[0b010, 0b100], &mut cells, 3, &mut log, 9, 5);
    assert_eq!(events, vec![Press(1, 0), Press(2, 1)]);
    assert_eq!(log.head(), 2);
    let recs = log.records_in_order();
    let last = recs[LOG_SIZE - 1];
    assert_eq!(last, KeyState { timestamp: 9, row: 2, col: 1, deb: DebState::BouncingUD, event: PressRelease::Press });
    let events = keys_from_scan(&[0b000, 0b100], &mut cells, 3, &mut log, 10, 5);
    assert!(events.is_empty());
    assert_eq!(log.head(), 3);
}

#[test]
fn timer_settings() {
    assert_eq!(compute_arr_presc(30_000, 72_000_000), (0, 2400));
    assert_eq!(compute_arr_presc(1, 72_000_000), (1098, 65514));
    assert_eq!(scan_timing(5_000, 6, 72_000_000), Some((0, 2400, 960)));
    assert_eq!(scan_timing(u32::MAX, 6, 72_000_000), None);
    assert_eq!(scan_timing(0, 6, 72_000_000), None);
    assert_eq!(scan_timing(72_000_000, 6, 72_000_000), None);
    assert_eq!(readable_half(true), 0);
    assert_eq!(readable_half(false), 1);
}

#[test]
fn plain_table_lookups() {
    const ROW0: &[KeyCode] = &[A, B];
    const ROW1: &[KeyCode] = &[C];
    let table: &[&'static [KeyCode]] = &[ROW0, ROW1];
    assert_eq!(keycodes(table, &[(0, 1), (1, 0), (1, 1), (5, 0)]), vec![B, C]);
    let cells = vec![QuickDraw::Stable(true), QuickDraw::Stable(false), QuickDraw::Stable(false), QuickDraw::Stable(true)];
    // two rows, two columns: (row 0, col 0) and (row 1, col 1) pressed; the latter is outside the table
    let r = report(table, &cells, 2);
    assert_eq!(r.as_bytes(), &[0, 0, 0x04, 0, 0, 0, 0, 0]);
}

#[test]
fn scanning_half_sends_frames() {
    let mut s = Scanner::new(8, 6, 3);
    let frames = s.scan_frames(&[0, 0, 0b0010_0000, 0, 0, 0]);
    assert_eq!(frames, vec![0b0001_0101]);
    for _ in 0..3 {
        assert!(s.scan_frames(&[0; 6]).is_empty());
    }
    // back to released and settled: the speculative press is cancelled
    assert_eq!(s.scan_frames(&[0; 6]), vec![0b1001_0101]);
}

#[test]
fn usb_half_reports_on_change() {
    const LAYERS: Layers = &[&[&[Action::NoOp, Action::KeyCode(B)], &[Action::KeyCode(A), Action::NoOp]]];
    let mut kb = Keyboard::new(LAYERS, 2, 1, 5);
    let r = kb.scan(&[0b10], 0).expect("a key went down");
    assert_eq!(r.as_bytes(), &[0, 0, 0x04, 0, 0, 0, 0, 0]);
    assert!(kb.scan(&[0b10], 0).is_none());
    kb.remote_byte(0b0000_1000);
    let r = kb.scan(&[0b10], 0).expect("the other half pressed a key");
    assert_eq!(r.as_bytes(), &[0, 0, 0x04, 0x05, 0, 0, 0, 0]);
    // The release from the other half takes effect at once.
    kb.remote_byte(0b1000_1000);
    assert_eq!(kb.layout().keycodes(), vec![A]);
}

#[test]
fn hid_requests() {
    const LAYERS: Layers = &[&[&[Action::KeyCode(A)]]];
    let kb = Keyboard::new(LAYERS, 1, 1, 5);
    assert_eq!(kb.get_report(ReportType::Input), Ok(&[0u8; 8][..]));
    assert_eq!(kb.get_report(ReportType::Feature), Err(()));
    assert_eq!(kb.set_report(ReportType::Output, 0, &[1]), Ok(()));
    assert_eq!(kb.set_report(ReportType::Output, 0, &[1, 2]), Err(()));
    assert_eq!(kb.set_report(ReportType::Input, 0, &[1]), Err(()));
    assert_eq!(kb.set_report(ReportType::Output, 1, &[1]), Err(()));
}

#[test]
fn release_frame_from_other_half() {
    const LAYERS: Layers = &[&[&[Action::KeyCode(A)]]];
    let mut kb = Keyboard::new(LAYERS, 1, 1, 5);
    kb.remote_byte(0b0000_0000);
    assert!(kb.scan(&[0], 0).is_some());
    kb.remote_byte(0b1000_0000);
    let r = kb.scan(&[0], 0).expect("released");
    assert_eq!(r.as_bytes(), &[0u8; 8]);
    let _ = Release(0, 0);
}
