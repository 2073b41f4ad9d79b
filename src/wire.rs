//! The one-byte frame in which one half of the keyboard sends a key event to the
//! other: row in bits 0 to 2, column in bits 3 to 5, bit 6 reserved, and in bit 7
//! the break flag, set for a release.

use vstd::prelude::*;
use crate::layout::Event;

verus! {

/// A key event as it travels over the serial line between the halves.
#[derive(Debug, Copy, Clone, PartialEq, Eq)]
pub struct KeyEvent {
    /// Row, below 8.
    pub row: u8,
    /// Column, below 8.
    pub col: u8,
    /// Break flag: the key was released.
    pub brk: bool,
}

/// The frame of a row, a column and a break flag.
pub open spec fn frame_of(row: u8, col: u8, brk: bool) -> u8 {
    (row + 8 * col + if brk { 128int } else { 0 }) as u8
}

impl KeyEvent {
    /// Row and column each fit in three bits.
    pub open spec fn fits(self) -> bool {
        self.row < 8 && self.col < 8
    }

    /// The event that a frame carries; the reserved bit is ignored.
    pub open spec fn spec_unpack(byte: u8) -> KeyEvent {
        KeyEvent { row: byte % 8, col: (byte / 8) % 8, brk: byte >= 128 }
    }

    /// Packs the event into its frame.
    pub fn pack(&self) -> (r: u8)
        requires
            self.fits(),
        ensures
            r == frame_of(self.row, self.col, self.brk),
    {
        let row = self.row;
        let col = self.col;
        let brk: u8 = if self.brk { 1 } else { 0 };
        let r = (brk << 7u8) | (col << 3u8) | row;
        assert(r == row + 8 * col + 128 * brk) by (bit_vector)
            requires
                row < 8,
                col < 8,
                brk < 2,
                r == (brk << 7u8) | (col << 3u8) | row,
        ;
        r
    }

    /// Unpacks a frame.
    pub fn unpack(byte: u8) -> (r: KeyEvent)
        ensures
            r == Self::spec_unpack(byte),
            r.fits(),
    {
        let row = byte & 7;
        let col = (byte >> 3u8) & 7;
        let brk = (byte & 0x80) != 0;
        assert(row == byte % 8 && col == (byte / 8) % 8 && (((byte & 0x80) != 0) == (byte >= 128)))
            by (bit_vector)
            requires
                row == byte & 7,
                col == (byte >> 3u8) & 7,
        ;
        KeyEvent { row, col, brk }
    }

    /// The frame of a matrix event, when its coordinates fit in three bits.
    pub fn from_event(e: Event) -> (r: Option<KeyEvent>)
        ensures
            r == (if e.spec_coord().0 < 8 && e.spec_coord().1 < 8 {
                Some(KeyEvent { row: e.spec_coord().0, col: e.spec_coord().1, brk: e is Release })
            } else {
                None
            }),
    {
        let (row, col) = e.coord();
        if row < 8 && col < 8 {
            Some(KeyEvent { row, col, brk: e.is_release() })
        } else {
            None
        }
    }

    /// The matrix event: a release when the break flag is set, a press otherwise.
    pub open spec fn spec_to_event(self) -> Event {
        if self.brk {
            Event::Release(self.row, self.col)
        } else {
            Event::Press(self.row, self.col)
        }
    }

    /// The matrix event that the frame stands for.
    pub fn to_event(self) -> (r: Event)
        ensures
            r == self.spec_to_event(),
    {
        if self.brk {
            Event::Release(self.row, self.col)
        } else {
            Event::Press(self.row, self.col)
        }
    }
}

/// Unpacking a packed frame gives back the event, for rows and columns below 8.
pub proof fn lemma_round_trip(e: KeyEvent)
    requires
        e.fits(),
    ensures
        KeyEvent::spec_unpack(frame_of(e.row, e.col, e.brk)) == e,
{
}

/// A matrix event with row and column below 8 survives the trip over the wire.
pub proof fn lemma_event_round_trip(e: Event)
    requires
        e.spec_coord().0 < 8,
        e.spec_coord().1 < 8,
    ensures
        ({
            let k = KeyEvent { row: e.spec_coord().0, col: e.spec_coord().1, brk: e is Release };
            KeyEvent::spec_unpack(frame_of(k.row, k.col, k.brk)).spec_to_event() == e
        }),
{
    lemma_round_trip(KeyEvent { row: e.spec_coord().0, col: e.spec_coord().1, brk: e is Release });
}

} // verus!
