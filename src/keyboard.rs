//! The per-scan work of the two halves, and the USB HID keyboard interface: the
//! scanning half turns frames into wire frames; the USB half runs them through the
//! layout and reports the held keys to the host.

use vstd::prelude::*;
use crate::debounce::QuickDraw;
use crate::key_code::{empty_report, report_of, KbHidReport};
use crate::layout::{fresh, keycodes_of, Event, Layers, Layout, LayoutView};
use crate::log::{Log, LogView};
use crate::scan::{keys_from_scan, lemma_scan_coords_in_matrix, scan_events, scan_records, scanned_cells};
use crate::wire::{frame_of, KeyEvent};

verus! {

/// The mathematical value of a scanner.
pub struct ScannerView {
    pub cells: Seq<QuickDraw>,
    pub rows: int,
    pub cols: int,
    pub now: u32,
    pub timeout: u32,
    pub log: LogView,
}

impl ScannerView {
    /// The matrix fits a scan word per column and the wire frame, and there is a
    /// debouncer per key.
    pub open spec fn wf(self) -> bool {
        &&& 1 <= self.rows <= 8
        &&& 0 <= self.cols <= 8
        &&& self.cells.len() == self.rows * self.cols
        &&& self.log.wf()
    }

    /// The tick of the next scan.
    pub open spec fn next_tick(self) -> u32 {
        self.now.wrapping_add(1)
    }

    /// The events of a frame.
    pub open spec fn events(self, words: Seq<u8>) -> Seq<Event> {
        scan_events(self.cells, words, self.rows, self.next_tick(), self.timeout, self.cells.len() as int)
    }

    /// The scanner after a frame.
    pub open spec fn scanned(self, words: Seq<u8>) -> ScannerView {
        ScannerView {
            cells: scanned_cells(self.cells, words, self.rows, self.next_tick(), self.timeout),
            now: self.next_tick(),
            log: self.log.logged_all(
                scan_records(self.cells, words, self.rows, self.next_tick(), self.timeout, self.cells.len() as int),
            ),
            ..self
        }
    }
}

/// The matrix side of a half: a debouncer per key, the tick counter and the log.
pub struct Scanner {
    debouncer: Vec<QuickDraw>,
    rows: usize,
    cols: usize,
    now: u32,
    timeout: u32,
    log: Log,
}

impl View for Scanner {
    type V = ScannerView;

    closed spec fn view(&self) -> ScannerView {
        ScannerView {
            cells: self.debouncer@,
            rows: self.rows as int,
            cols: self.cols as int,
            now: self.now,
            timeout: self.timeout,
            log: self.log@,
        }
    }
}

impl Scanner {
    /// A scanner for a `rows` by `cols` matrix with a settling window of `timeout`
    /// ticks; every key starts stable and released.
    pub fn new(rows: usize, cols: usize, timeout: u32) -> (r: Scanner)
        requires
            1 <= rows <= 8,
            cols <= 8,
        ensures
            r@.wf(),
            r@.rows == rows,
            r@.cols == cols,
            r@.now == 0,
            r@.timeout == timeout,
            r@.cells == Seq::new((rows * cols) as nat, |i: int| QuickDraw::Stable(false)),
            r@.log.head == 0,
    {
        assert(rows * cols <= 64) by (nonlinear_arith)
            requires
                rows <= 8,
                cols <= 8,
        ;
        let n = rows * cols;
        let mut debouncer: Vec<QuickDraw> = Vec::new();
        let mut i: usize = 0;
        while i < n
            invariant
                i <= n,
                debouncer@ == Seq::new(i as nat, |j: int| QuickDraw::Stable(false)),
            decreases n - i,
        {
            debouncer.push(QuickDraw::new());
            i += 1;
            assert(debouncer@ =~= Seq::new(i as nat, |j: int| QuickDraw::Stable(false)));
        }
        Scanner { debouncer, rows, cols, now: 0, timeout, log: Log::new() }
    }

    /// The debug log.
    pub fn log(&self) -> (r: &Log)
        ensures
            r@ == self@.log,
    {
        &self.log
    }

    /// Advances the tick and feeds a frame (a word per column) to the debouncers;
    /// returns the edges as events, column by column.
    pub fn scan(&mut self, scan_half: &[u8]) -> (r: Vec<Event>)
        requires
            old(self)@.wf(),
            scan_half@.len() == old(self)@.cols,
        ensures
            final(self)@ == old(self)@.scanned(scan_half@),
            r@ == old(self)@.events(scan_half@),
            final(self)@.wf(),
            forall|k: int|
                0 <= k < r@.len() ==> (#[trigger] r@[k]).spec_coord().0 < old(self)@.rows
                    && r@[k].spec_coord().1 < old(self)@.cols,
    {
        self.now = self.now.wrapping_add(1);
        assert(self.debouncer@.len() == scan_half@.len() * self.rows) by (nonlinear_arith)
            requires
                self.debouncer@.len() == self.rows * self.cols,
                scan_half@.len() == self.cols,
        ;
        proof {
            lemma_scan_coords_in_matrix(self.debouncer@, scan_half@, self.rows as int, self.now, self.timeout);
        }
        keys_from_scan(scan_half, &mut self.debouncer, self.rows, &mut self.log, self.now, self.timeout)
    }

    /// The scanning half's work on a frame: the wire frames of its events, in order.
    pub fn scan_frames(&mut self, scan_half: &[u8]) -> (r: Vec<u8>)
        requires
            old(self)@.wf(),
            scan_half@.len() == old(self)@.cols,
        ensures
            final(self)@ == old(self)@.scanned(scan_half@),
            final(self)@.wf(),
            r@.len() == old(self)@.events(scan_half@).len(),
            forall|k: int|
                0 <= k < r@.len() ==> {
                    let e = old(self)@.events(scan_half@)[k];
                    #[trigger] r@[k] == frame_of(e.spec_coord().0, e.spec_coord().1, e is Release)
                },
    {
        let events = self.scan(scan_half);
        let mut frames: Vec<u8> = Vec::new();
        let mut i: usize = 0;
        while i < events.len()
            invariant
                i <= events@.len(),
                frames@.len() == i,
                forall|k: int|
                    0 <= k < events@.len() ==> (#[trigger] events@[k]).spec_coord().0 < 8 && events@[k].spec_coord().1
                        < 8,
                forall|k: int|
                    0 <= k < i ==> #[trigger] frames@[k] == frame_of(
                        events@[k].spec_coord().0,
                        events@[k].spec_coord().1,
                        events@[k] is Release,
                    ),
            decreases events@.len() - i,
        {
            let e = events[i];
            let (row, col) = e.coord();
            let k = KeyEvent { row, col, brk: e.is_release() };
            frames.push(k.pack());
            i += 1;
        }
        frames
    }
}

/// The kinds of HID reports that a host can ask for or send.
#[derive(Debug, Clone, Copy, PartialEq, Eq, Structural)]
pub enum ReportType {
    /// From the device to the host: the keys.
    Input,
    /// From the host to the device: the LEDs.
    Output,
    /// Configuration.
    Feature,
}

/// An event of this half moved right by `offset` columns, into the merged matrix.
pub open spec fn shifted(e: Event, offset: u8) -> Event {
    match e {
        Event::Press(r, c) => Event::Press(r, (c + offset) as u8),
        Event::Release(r, c) => Event::Release(r, (c + offset) as u8),
    }
}

/// The layout after the events `es`, each moved right by `offset` columns.
pub open spec fn events_into<T>(v: LayoutView<T>, es: Seq<Event>, offset: u8) -> LayoutView<T>
    decreases es.len(),
{
    if es.len() == 0 {
        v
    } else {
        events_into(v, es.drop_last(), offset).event(shifted(es.last(), offset))
    }
}

/// The mathematical value of the USB half's keyboard.
pub struct KeyboardView<T: 'static> {
    pub scanner: ScannerView,
    pub layout: LayoutView<T>,
    pub report: Seq<u8>,
}

/// The USB half: its own matrix, the layout fed by both halves, and the last
/// report sent to the host.
pub struct Keyboard<T: 'static = core::convert::Infallible> {
    scanner: Scanner,
    layout: Layout<T>,
    report: KbHidReport,
}

impl<T> View for Keyboard<T> {
    type V = KeyboardView<T>;

    closed spec fn view(&self) -> KeyboardView<T> {
        KeyboardView { scanner: self.scanner@, layout: self.layout@, report: self.report@ }
    }
}

impl<T> KeyboardView<T> {
    /// Both parts keep their bounds.
    pub open spec fn wf(self) -> bool {
        self.scanner.wf() && self.layout.wf()
    }

    /// The layout after a frame of this half: its events, moved right by `offset`
    /// columns, are queued, and then the layout ticks once.
    pub open spec fn layout_after(self, words: Seq<u8>, offset: u8) -> LayoutView<T> {
        events_into(self.layout, self.scanner.events(words), offset).tick().0
    }

    /// The report of the keys held after a frame.
    pub open spec fn report_after(self, words: Seq<u8>, offset: u8) -> Seq<u8> {
        report_of(keycodes_of(self.layout_after(words, offset).states))
    }
}

impl<T: Copy> Keyboard<T> {
    /// A keyboard on the layer table `layers`, for a local matrix of `rows` by `cols`.
    pub fn new(layers: Layers<T>, rows: usize, cols: usize, timeout: u32) -> (r: Self)
        requires
            1 <= rows <= 8,
            cols <= 8,
        ensures
            r@.wf(),
            r@.layout == fresh(layers),
            r@.report == empty_report(),
            r@.scanner.rows == rows,
            r@.scanner.cols == cols,
            r@.scanner.timeout == timeout,
            r@.scanner.now == 0,
            r@.scanner.cells == Seq::new((rows * cols) as nat, |i: int| QuickDraw::Stable(false)),
            r@.scanner.log.head == 0,
    {
        Keyboard { scanner: Scanner::new(rows, cols, timeout), layout: Layout::new(layers), report: KbHidReport::new() }
    }

    /// The layout.
    pub fn layout(&self) -> (r: &Layout<T>)
        ensures
            r@ == self@.layout,
    {
        &self.layout
    }

    /// The scanner of the local matrix.
    pub fn scanner(&self) -> (r: &Scanner)
        ensures
            r@ == self@.scanner,
    {
        &self.scanner
    }

    /// A frame of the other half arrived over the serial line.
    pub fn remote_byte(&mut self, byte: u8)
        requires
            old(self)@.wf(),
        ensures
            final(self)@ == (KeyboardView {
                layout: old(self)@.layout.event(KeyEvent::spec_unpack(byte).spec_to_event()),
                ..old(self)@
            }),
            final(self)@.wf(),
    {
        let e = KeyEvent::unpack(byte).to_event();
        self.layout.event(e);
    }

    /// The USB half's work on a frame of its own matrix: its events, moved right by
    /// `col_offset` columns, go to the layout, the layout ticks, and the report of
    /// the held keys is returned when it differs from the last one sent.
    pub fn scan(&mut self, scan_half: &[u8], col_offset: u8) -> (r: Option<KbHidReport>)
        requires
            old(self)@.wf(),
            scan_half@.len() == old(self)@.scanner.cols,
            col_offset <= 247,
        ensures
            final(self)@.wf(),
            final(self)@.scanner == old(self)@.scanner.scanned(scan_half@),
            final(self)@.layout == old(self)@.layout_after(scan_half@, col_offset),
            final(self)@.report == old(self)@.report_after(scan_half@, col_offset),
            match r {
                Some(rep) => rep@ == old(self)@.report_after(scan_half@, col_offset) && rep@ != old(self)@.report,
                None => old(self)@.report_after(scan_half@, col_offset) == old(self)@.report,
            },
    {
        let ghost v0 = self.layout@;
        let events = self.scanner.scan(scan_half);
        let ghost sc = self.scanner@;
        let mut i: usize = 0;
        while i < events.len()
            invariant
                self.scanner@ == sc,
                self.report == old(self).report,
                sc.wf(),
                i <= events@.len(),
                col_offset <= 247,
                forall|k: int| 0 <= k < events@.len() ==> (#[trigger] events@[k]).spec_coord().1 < 8,
                self.layout@.wf(),
                self.layout@ == events_into(v0, events@.take(i as int), col_offset),
            decreases events@.len() - i,
        {
            assert(events@.take(i + 1).drop_last() =~= events@.take(i as int));
            let e = match events[i] {
                Event::Press(r, c) => Event::Press(r, c + col_offset),
                Event::Release(r, c) => Event::Release(r, c + col_offset),
            };
            self.layout.event(e);
            i += 1;
        }
        assert(events@.take(i as int) =~= events@);
        let _ = self.layout.tick();
        let keys = self.layout.keycodes();
        let rep = KbHidReport::from_keycodes(keys.as_slice());
        if !rep.same_as(&self.report) {
            self.report = rep;
            Some(rep)
        } else {
            None
        }
    }

    /// Answers a host's request for a report: the keyboard has input reports only.
    pub fn get_report(&self, report_type: ReportType) -> (r: Result<&[u8], ()>)
        ensures
            match r {
                Ok(b) => report_type == ReportType::Input && b@ == self@.report,
                Err(_) => report_type != ReportType::Input,
            },
    {
        match report_type {
            ReportType::Input => Ok(self.report.as_bytes()),
            _ => Err(()),
        }
    }

    /// Accepts the one-byte output report (the host's LED state) and refuses any other.
    pub fn set_report(&self, report_type: ReportType, report_id: u8, data: &[u8]) -> (r: Result<(), ()>)
        ensures
            r is Ok <==> (report_type == ReportType::Output && report_id == 0 && data@.len() == 1),
    {
        if report_type == ReportType::Output && report_id == 0 && data.len() == 1 {
            Ok(())
        } else {
            Err(())
        }
    }
}

} // verus!
