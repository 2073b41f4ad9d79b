//! From scan frames to key events: the readable half of the double buffer, the
//! timer that paces the scan, and the walk that feeds each key's debouncer.

use vstd::prelude::*;
use crate::debounce::QuickDraw;
use crate::key_code::{report_of, KbHidReport, KeyCode};
use crate::layout::Event;
use crate::log::{KeyState, Log, LogView, PressRelease};

verus! {

/// The point of each column slot at which the rows are sampled, in fifths.
pub const SAMPLE_FIFTHS: u32 = 2;

/// The half of the double buffer that the processor may read: the first one after
/// the half-transfer notification, the second one after the transfer-complete one.
pub fn readable_half(half_transfer: bool) -> (r: usize)
    ensures
        r == (if half_transfer { 0usize } else { 1usize }),
{
    if half_transfer {
        0
    } else {
        1
    }
}

/// Prescaler and auto-reload values that make a timer clocked at `clock` overflow
/// `freq` times a second: the prescaler is the least that lets the reload value fit.
pub fn compute_arr_presc(freq: u32, clock: u32) -> (r: (u16, u16))
    requires
        freq > 0,
        clock / freq >= 1,
    ensures
        r.0 == (clock as int / freq as int - 1) / 0x1_0000,
        r.1 == (clock as int / freq as int / (r.0 + 1)) % 0x1_0000,
{
    let ticks = clock / freq;
    let psc = (ticks - 1) / 0x1_0000;
    assert(psc < 0x1_0000);
    let arr = ticks / (psc + 1);
    ((psc as u16), (arr % 0x1_0000) as u16)
}

/// The timer settings of a scan: prescaler, reload value, and the compare value at
/// which the rows are sampled (2/5 of each column slot). `None` when the scan
/// frequency cannot be had from the clock.
pub fn scan_timing(scan_freq: u32, cols: u32, clock: u32) -> (r: Option<(u16, u16, u16)>)
    ensures
        match r {
            Some((psc, arr, ccr)) => {
                let f = scan_freq * cols;
                &&& 0 < f <= u32::MAX
                &&& clock as int / f >= 1
                &&& psc == (clock as int / f - 1) / 0x1_0000
                &&& arr == (clock as int / f / (psc + 1)) % 0x1_0000
                &&& ccr == arr * SAMPLE_FIFTHS / 5
            },
            None => {
                let f = scan_freq * cols;
                f == 0 || f > u32::MAX || clock as int / f < 1
            },
        },
{
    let f = match scan_freq.checked_mul(cols) {
        Some(f) => f,
        None => return None,
    };
    if f == 0 || clock / f < 1 {
        return None;
    }
    let (psc, arr) = compute_arr_presc(f, clock);
    let ccr = (arr as u32 * SAMPLE_FIFTHS / 5) as u16;
    Some((psc, arr, ccr))
}

/// Whether row `row` reads closed in a scan word.
pub open spec fn row_closed(word: u8, row: int) -> bool {
    (word >> (row as u8)) & 1u8 == 1u8
}

/// The sample of cell `i` (column `i / rows`, row `i % rows`) in a frame.
pub open spec fn cell_sample(words: Seq<u8>, rows: int, i: int) -> bool {
    row_closed(words[i / rows], i % rows)
}

/// The step of the debouncer of cell `i` on a frame.
pub open spec fn cell_step(
    cells: Seq<QuickDraw>,
    words: Seq<u8>,
    rows: int,
    now: u32,
    stable_time: u32,
    i: int,
) -> (QuickDraw, Option<bool>) {
    cells[i].next(cell_sample(words, rows, i), now, stable_time)
}

/// The debouncers after a frame.
pub open spec fn scanned_cells(cells: Seq<QuickDraw>, words: Seq<u8>, rows: int, now: u32, stable_time: u32) -> Seq<QuickDraw> {
    Seq::new(cells.len(), |i: int| cell_step(cells, words, rows, now, stable_time, i).0)
}

/// The events of the first `n` cells of a frame, column by column.
pub open spec fn scan_events(cells: Seq<QuickDraw>, words: Seq<u8>, rows: int, now: u32, stable_time: u32, n: int) -> Seq<Event>
    decreases n,
{
    if n <= 0 {
        Seq::empty()
    } else {
        let before = scan_events(cells, words, rows, now, stable_time, n - 1);
        let (row, col) = (((n - 1) % rows) as u8, ((n - 1) / rows) as u8);
        match cell_step(cells, words, rows, now, stable_time, n - 1).1 {
            Some(true) => before.push(Event::Press(row, col)),
            Some(false) => before.push(Event::Release(row, col)),
            None => before,
        }
    }
}

/// The log records of the first `n` cells of a frame: one for each debouncer whose
/// state changed.
pub open spec fn scan_records(cells: Seq<QuickDraw>, words: Seq<u8>, rows: int, now: u32, stable_time: u32, n: int) -> Seq<KeyState>
    decreases n,
{
    if n <= 0 {
        Seq::empty()
    } else {
        let before = scan_records(cells, words, rows, now, stable_time, n - 1);
        let (q, e) = cell_step(cells, words, rows, now, stable_time, n - 1);
        if q != cells[n - 1] {
            before.push(
                KeyState {
                    timestamp: now,
                    row: ((n - 1) % rows) as u8,
                    col: ((n - 1) / rows) as u8,
                    deb: q.spec_state_name(),
                    event: match e {
                        Some(true) => PressRelease::Press,
                        Some(false) => PressRelease::Release,
                        None => PressRelease::NoEvent,
                    },
                },
            )
        } else {
            before
        }
    }
}

/// Feeds one frame to the debouncers and returns the edges they emit as events,
/// column by column and row by row. `scan_half` holds a word per column with a bit
/// per row; `triggers` holds the debouncers column by column. Each change of a
/// debouncer's state is written to `log`.
pub fn keys_from_scan(
    scan_half: &[u8],
    triggers: &mut Vec<QuickDraw>,
    rows: usize,
    log: &mut Log,
    now: u32,
    stable_timeout: u32,
) -> (r: Vec<Event>)
    requires
        1 <= rows <= 8,
        scan_half@.len() <= 8,
        old(triggers)@.len() == scan_half@.len() * rows,
        old(log)@.wf(),
    ensures
        final(triggers)@ == scanned_cells(old(triggers)@, scan_half@, rows as int, now, stable_timeout),
        r@ == scan_events(old(triggers)@, scan_half@, rows as int, now, stable_timeout, old(triggers)@.len() as int),
        final(log)@ == old(log)@.logged_all(
            scan_records(old(triggers)@, scan_half@, rows as int, now, stable_timeout, old(triggers)@.len() as int),
        ),
        final(log)@.wf(),
{
    let ghost cells = triggers@;
    let mut events: Vec<Event> = Vec::new();
    let n = triggers.len();
    let mut i: usize = 0;
    while i < n
        invariant
            n == cells.len() == triggers@.len() == scan_half@.len() * rows,
            1 <= rows <= 8,
            scan_half@.len() <= 8,
            i <= n,
            forall|j: int| 0 <= j < i ==> triggers@[j] == cell_step(cells, scan_half@, rows as int, now, stable_timeout, j).0,
            forall|j: int| i <= j < n ==> triggers@[j] == cells[j],
            events@ == scan_events(cells, scan_half@, rows as int, now, stable_timeout, i as int),
            log@ == old(log)@.logged_all(scan_records(cells, scan_half@, rows as int, now, stable_timeout, i as int)),
            log@.wf(),
        decreases n - i,
    {
        let col = i / rows;
        let row = i % rows;
        assert(col < scan_half@.len()) by (nonlinear_arith)
            requires
                i < scan_half@.len() * rows,
                col == i / rows,
                rows >= 1,
        ;
        let word = scan_half[col];
        let press = (word >> (row as u8)) & 1 == 1;
        let old_state = triggers[i];
        let mut cell = old_state;
        let edge = cell.step(press, now, stable_timeout);
        triggers.set(i, cell);
        if cell != old_state {
            let event = match edge {
                Some(true) => PressRelease::Press,
                Some(false) => PressRelease::Release,
                None => PressRelease::NoEvent,
            };
            let rec = KeyState { timestamp: now, row: row as u8, col: col as u8, deb: cell.state_name(), event };
            proof {
                let recs = scan_records(cells, scan_half@, rows as int, now, stable_timeout, i as int);
                assert(scan_records(cells, scan_half@, rows as int, now, stable_timeout, i + 1) == recs.push(rec));
                assert(recs.push(rec).drop_last() =~= recs);
            }
            log.log(rec);
        }
        match edge {
            Some(true) => events.push(Event::Press(row as u8, col as u8)),
            Some(false) => events.push(Event::Release(row as u8, col as u8)),
            None => {},
        }
        i += 1;
    }
    assert(triggers@ =~= scanned_cells(cells, scan_half@, rows as int, now, stable_timeout));
    events
}

/// The key code at row `r`, column `c` of a plain table, if the table has that cell.
pub open spec fn key_at(table: Seq<&'static [KeyCode]>, r: int, c: int) -> Option<KeyCode> {
    if 0 <= r < table.len() && 0 <= c < table[r]@.len() {
        Some(table[r]@[c])
    } else {
        None
    }
}

/// The key codes of the pressed keys among the first `n` cells, column by column.
pub open spec fn pressed_keys(table: Seq<&'static [KeyCode]>, cells: Seq<QuickDraw>, rows: int, n: int) -> Seq<KeyCode>
    decreases n,
{
    if n <= 0 {
        Seq::empty()
    } else {
        let before = pressed_keys(table, cells, rows, n - 1);
        if cells[n - 1].spec_is_pressed() {
            match key_at(table, (n - 1) % rows, (n - 1) / rows) {
                Some(k) => before.push(k),
                None => before,
            }
        } else {
            before
        }
    }
}

/// The report of the keys that the debouncers hold pressed, looked up in a plain
/// table indexed by row, then column; keys outside the table are ignored.
pub fn report(table: &[&'static [KeyCode]], triggers: &Vec<QuickDraw>, rows: usize) -> (r: KbHidReport)
    requires
        rows >= 1,
    ensures
        r@ == report_of(pressed_keys(table@, triggers@, rows as int, triggers@.len() as int)),
{
    let mut keys: Vec<KeyCode> = Vec::new();
    let mut i: usize = 0;
    while i < triggers.len()
        invariant
            rows >= 1,
            i <= triggers@.len(),
            keys@ == pressed_keys(table@, triggers@, rows as int, i as int),
        decreases triggers@.len() - i,
    {
        if triggers[i].is_pressed() {
            let row = i % rows;
            let col = i / rows;
            if row < table.len() && col < table[row].len() {
                keys.push(table[row][col]);
            }
        }
        i += 1;
    }
    KbHidReport::from_keycodes(keys.as_slice())
}

proof fn lemma_scan_events_fit(cells: Seq<QuickDraw>, words: Seq<u8>, rows: int, now: u32, stable_time: u32, n: int)
    requires
        rows >= 1,
        n <= words.len() * rows,
        words.len() <= 8,
        rows <= 8,
    ensures
        forall|k: int|
            0 <= k < scan_events(cells, words, rows, now, stable_time, n).len() ==> {
                let e = #[trigger] scan_events(cells, words, rows, now, stable_time, n)[k];
                e.spec_coord().0 < rows && e.spec_coord().1 < words.len()
            },
    decreases n,
{
    if n > 0 {
        lemma_scan_events_fit(cells, words, rows, now, stable_time, n - 1);
        assert((n - 1) / rows < words.len()) by (nonlinear_arith)
            requires
                0 <= n - 1 < words.len() * rows,
                rows >= 1,
        ;
        assert((n - 1) % rows < rows) by (nonlinear_arith)
            requires
                rows >= 1,
        ;
        let before = scan_events(cells, words, rows, now, stable_time, n - 1);
        assert forall|k: int| 0 <= k < scan_events(cells, words, rows, now, stable_time, n).len() implies {
            let e = #[trigger] scan_events(cells, words, rows, now, stable_time, n)[k];
            e.spec_coord().0 < rows && e.spec_coord().1 < words.len()
        } by {
            if k < before.len() {
                assert(scan_events(cells, words, rows, now, stable_time, n)[k] == before[k]);
            }
        }
    }
}

/// The events of a frame have rows below `rows` and columns below the frame's width.
pub proof fn lemma_scan_coords_in_matrix(cells: Seq<QuickDraw>, words: Seq<u8>, rows: int, now: u32, stable_time: u32)
    requires
        1 <= rows <= 8,
        words.len() <= 8,
        cells.len() == words.len() * rows,
    ensures
        forall|k: int|
            0 <= k < scan_events(cells, words, rows, now, stable_time, cells.len() as int).len() ==> {
                let e = #[trigger] scan_events(cells, words, rows, now, stable_time, cells.len() as int)[k];
                e.spec_coord().0 < rows && e.spec_coord().1 < words.len()
            },
{
    lemma_scan_events_fit(cells, words, rows, now, stable_time, cells.len() as int);
}

} // verus!
