//! The debug event log: a ring of fixed-size records that a debugger reads out of band.

use vstd::prelude::*;

verus! {

/// The state of one key's debouncer, as recorded in the log.
#[derive(Debug, Clone, Copy, PartialEq, Eq)]
pub enum DebState {
    /// Stable, released.
    StableU,
    /// Bouncing from released, last sampled pressed.
    BouncingUD,
    /// Bouncing from released, last sampled released.
    BouncingUU,
    /// Stable, pressed.
    StableD,
    /// Bouncing from pressed, last sampled pressed.
    BouncingDD,
    /// Bouncing from pressed, last sampled released.
    BouncingDU,
}

/// The edge that a debouncer emitted, if any.
#[derive(Debug, Clone, Copy, PartialEq, Eq)]
pub enum PressRelease {
    /// No edge.
    NoEvent,
    /// The key went down.
    Press,
    /// The key went up.
    Release,
}

/// One log record: a change of a key's debouncer state.
#[derive(Debug, Clone, Copy, PartialEq, Eq)]
pub struct KeyState {
    /// The tick at which the change happened.
    pub timestamp: u32,
    /// The row of the key.
    pub row: u8,
    /// The column of the key.
    pub col: u8,
    /// The new debouncer state.
    pub deb: DebState,
    /// The edge that was emitted, if any.
    pub event: PressRelease,
}

impl KeyState {
    /// The empty record.
    pub open spec fn default_spec() -> KeyState {
        KeyState { timestamp: 0, row: 0, col: 0, deb: DebState::StableU, event: PressRelease::NoEvent }
    }

    /// The empty record.
    pub fn default() -> (r: Self)
        ensures
            r == Self::default_spec(),
    {
        KeyState { timestamp: 0, row: 0, col: 0, deb: DebState::StableU, event: PressRelease::NoEvent }
    }
}

/// Number of records in the log ring.
pub const LOG_SIZE: usize = 1024;

impl DebState {
    /// The byte that stands for the state in a record.
    pub open spec fn spec_code(self) -> u8 {
        match self {
            DebState::StableU => 0,
            DebState::BouncingUD => 1,
            DebState::BouncingUU => 2,
            DebState::StableD => 3,
            DebState::BouncingDD => 4,
            DebState::BouncingDU => 5,
        }
    }

    /// The state that a byte stands for, if any.
    pub open spec fn spec_from_code(b: u8) -> Option<DebState> {
        if b == 0 {
            Some(DebState::StableU)
        } else if b == 1 {
            Some(DebState::BouncingUD)
        } else if b == 2 {
            Some(DebState::BouncingUU)
        } else if b == 3 {
            Some(DebState::StableD)
        } else if b == 4 {
            Some(DebState::BouncingDD)
        } else if b == 5 {
            Some(DebState::BouncingDU)
        } else {
            None
        }
    }

    /// The byte that stands for the state in a record.
    pub fn code(self) -> (r: u8)
        ensures
            r == self.spec_code(),
    {
        match self {
            DebState::StableU => 0,
            DebState::BouncingUD => 1,
            DebState::BouncingUU => 2,
            DebState::StableD => 3,
            DebState::BouncingDD => 4,
            DebState::BouncingDU => 5,
        }
    }

    /// The state that a byte stands for, if any.
    pub fn from_code(b: u8) -> (r: Option<DebState>)
        ensures
            r == Self::spec_from_code(b),
    {
        if b == 0 {
            Some(DebState::StableU)
        } else if b == 1 {
            Some(DebState::BouncingUD)
        } else if b == 2 {
            Some(DebState::BouncingUU)
        } else if b == 3 {
            Some(DebState::StableD)
        } else if b == 4 {
            Some(DebState::BouncingDD)
        } else if b == 5 {
            Some(DebState::BouncingDU)
        } else {
            None
        }
    }
}

impl PressRelease {
    /// The byte that stands for the edge in a record.
    pub open spec fn spec_code(self) -> u8 {
        match self {
            PressRelease::NoEvent => 0,
            PressRelease::Press => 1,
            PressRelease::Release => 2,
        }
    }

    /// The edge that a byte stands for, if any.
    pub open spec fn spec_from_code(b: u8) -> Option<PressRelease> {
        if b == 0 {
            Some(PressRelease::NoEvent)
        } else if b == 1 {
            Some(PressRelease::Press)
        } else if b == 2 {
            Some(PressRelease::Release)
        } else {
            None
        }
    }

    /// The byte that stands for the edge in a record.
    pub fn code(self) -> (r: u8)
        ensures
            r == self.spec_code(),
    {
        match self {
            PressRelease::NoEvent => 0,
            PressRelease::Press => 1,
            PressRelease::Release => 2,
        }
    }

    /// The edge that a byte stands for, if any.
    pub fn from_code(b: u8) -> (r: Option<PressRelease>)
        ensures
            r == Self::spec_from_code(b),
    {
        if b == 0 {
            Some(PressRelease::NoEvent)
        } else if b == 1 {
            Some(PressRelease::Press)
        } else if b == 2 {
            Some(PressRelease::Release)
        } else {
            None
        }
    }
}

impl KeyState {
    /// The second word of a record as a little-endian target stores it: row, column,
    /// state and edge, one byte each from the lowest.
    pub open spec fn spec_second_word(self) -> u32 {
        (self.row + 0x100 * self.col + 0x1_0000 * self.deb.spec_code() + 0x100_0000
            * self.event.spec_code()) as u32
    }

    /// The record as the two 32-bit words that a debugger reads from memory.
    pub fn to_words(&self) -> (r: (u32, u32))
        ensures
            r == (self.timestamp, self.spec_second_word()),
    {
        let row = self.row as u32;
        let col = self.col as u32;
        let deb = self.deb.code() as u32;
        let ev = self.event.code() as u32;
        let w = row | (col << 8u32) | (deb << 16u32) | (ev << 24u32);
        assert(w == row + 0x100 * col + 0x1_0000 * deb + 0x100_0000 * ev) by (bit_vector)
            requires
                row < 0x100,
                col < 0x100,
                deb < 0x100,
                ev < 0x100,
                w == row | (col << 8u32) | (deb << 16u32) | (ev << 24u32),
        ;
        (self.timestamp, w)
    }

    /// The record that two words read from memory hold, if their state and edge
    /// bytes are valid.
    pub open spec fn spec_from_words(w0: u32, w1: u32) -> Option<KeyState> {
        match (DebState::spec_from_code(((w1 / 0x1_0000) % 0x100) as u8), PressRelease::spec_from_code((w1 / 0x100_0000) as u8)) {
            (Some(deb), Some(event)) => Some(KeyState {
                timestamp: w0,
                row: (w1 % 0x100) as u8,
                col: ((w1 / 0x100) % 0x100) as u8,
                deb,
                event,
            }),
            _ => None,
        }
    }

    /// Decodes a record from the two words that a debugger read from memory.
    pub fn from_words(w0: u32, w1: u32) -> (r: Option<KeyState>)
        ensures
            r == Self::spec_from_words(w0, w1),
    {
        let row = (w1 & 0xff) as u8;
        let col = ((w1 >> 8u32) & 0xff) as u8;
        let deb = ((w1 >> 16u32) & 0xff) as u8;
        let ev = (w1 >> 24u32) as u8;
        assert(w1 & 0xff == w1 % 0x100 && (w1 >> 8u32) & 0xff == (w1 / 0x100) % 0x100 && (w1 >> 16u32)
            & 0xff == (w1 / 0x1_0000) % 0x100 && w1 >> 24u32 == w1 / 0x100_0000) by (bit_vector);
        match (DebState::from_code(deb), PressRelease::from_code(ev)) {
            (Some(deb), Some(event)) => Some(KeyState { timestamp: w0, row, col, deb, event }),
            _ => None,
        }
    }
}

/// Decoding the words of a record gives the record back.
pub proof fn lemma_words_round_trip(k: KeyState)
    ensures
        KeyState::spec_from_words(k.timestamp, k.spec_second_word()) == Some(k),
{
    let w = k.spec_second_word();
    let (row, col, deb, ev) = (k.row as u32, k.col as u32, k.deb.spec_code() as u32, k.event.spec_code() as u32);
    assert(deb < 6 && ev < 3);
    assert(w % 0x100 == row && (w / 0x100) % 0x100 == col && (w / 0x1_0000) % 0x100 == deb && w / 0x100_0000
        == ev) by (nonlinear_arith)
        requires
            row < 0x100,
            col < 0x100,
            deb < 0x100,
            ev < 0x100,
            w == row + 0x100 * col + 0x1_0000 * deb + 0x100_0000 * ev,
    ;
}

/// The mathematical value of a log: the next slot to write and the slots.
pub struct LogView {
    pub head: int,
    pub body: Seq<KeyState>,
}

impl LogView {
    /// The ring has its fixed size and the head is one of its slots.
    pub open spec fn wf(self) -> bool {
        self.body.len() == LOG_SIZE && 0 <= self.head < LOG_SIZE
    }

    /// The log after one more record: it overwrites the oldest slot.
    pub open spec fn logged(self, e: KeyState) -> LogView {
        LogView { head: (self.head + 1) % (LOG_SIZE as int), body: self.body.update(self.head, e) }
    }

    /// The log after the records `es`, in order.
    pub open spec fn logged_all(self, es: Seq<KeyState>) -> LogView
        decreases es.len(),
    {
        if es.len() == 0 {
            self
        } else {
            self.logged_all(es.drop_last()).logged(es.last())
        }
    }

    /// The records from oldest to newest: from the head to the end, then from the start.
    pub open spec fn chronological(self) -> Seq<KeyState> {
        self.body.subrange(self.head, self.body.len() as int) + self.body.subrange(0, self.head)
    }
}

/// A ring of debug records with a single writer. An external reader starts at
/// `head` and reads to the end, then from the start up to `head`.
pub struct Log {
    head: usize,
    body: Vec<KeyState>,
}

impl View for Log {
    type V = LogView;

    closed spec fn view(&self) -> LogView {
        LogView { head: self.head as int, body: self.body@ }
    }
}

impl Log {
    /// An empty log: every slot holds the empty record.
    pub fn new() -> (r: Log)
        ensures
            r@.wf(),
            r@.head == 0,
            r@.body == Seq::new(LOG_SIZE as nat, |i: int| KeyState::default_spec()),
    {
        let mut body: Vec<KeyState> = Vec::new();
        let mut i: usize = 0;
        while i < LOG_SIZE
            invariant
                i <= LOG_SIZE,
                body@ == Seq::new(i as nat, |j: int| KeyState::default_spec()),
            decreases LOG_SIZE - i,
        {
            body.push(KeyState::default());
            i += 1;
            assert(body@ =~= Seq::new(i as nat, |j: int| KeyState::default_spec()));
        }
        Log { head: 0, body }
    }

    /// Writes a record into the next slot.
    pub fn log(&mut self, elem: KeyState)
        requires
            old(self)@.wf(),
        ensures
            final(self)@ == old(self)@.logged(elem),
            final(self)@.wf(),
    {
        self.body.set(self.head, elem);
        self.head = (self.head + 1) % LOG_SIZE;
    }

    /// The slot that the next record goes to.
    pub fn head(&self) -> (r: usize)
        ensures
            r == self@.head,
    {
        self.head
    }

    /// The records from oldest to newest.
    pub fn records_in_order(&self) -> (r: Vec<KeyState>)
        requires
            self@.wf(),
        ensures
            r@ == self@.chronological(),
    {
        let mut r: Vec<KeyState> = Vec::new();
        let mut i: usize = self.head;
        while i < self.body.len()
            invariant
                self.head <= i <= self.body@.len(),
                r@ == self.body@.subrange(self.head as int, i as int),
            decreases self.body@.len() - i,
        {
            r.push(self.body[i]);
            i += 1;
            assert(r@ =~= self.body@.subrange(self.head as int, i as int));
        }
        let mut j: usize = 0;
        while j < self.head
            invariant
                j <= self.head <= self.body@.len(),
                r@ == self.body@.subrange(self.head as int, self.body@.len() as int) + self.body@.subrange(0, j as int),
            decreases self.head - j,
        {
            r.push(self.body[j]);
            j += 1;
            assert(r@ =~= self.body@.subrange(self.head as int, self.body@.len() as int) + self.body@.subrange(0, j as int));
        }
        r
    }
}

} // verus!
