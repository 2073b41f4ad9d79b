//! Keyboard usage codes and the 8-byte boot keyboard report built from them.

use vstd::prelude::*;

verus! {

/// Usage id of the first modifier key (left control).
pub const FIRST_MODIFIER: u8 = 0xE0;

/// Usage id that fills every key slot when more keys are held than a report can carry.
pub const ROLLOVER_USAGE: u8 = 0x01;

/// The keyboard usages of the HID usage tables (page 0x07) that this firmware can send.
#[derive(Debug, Clone, Copy, PartialEq, Eq, PartialOrd, Ord, Hash)]
pub enum KeyCode {
    No,
    ErrorRollOver,
    PostFail,
    ErrorUndefined,
    A,
    B,
    C,
    D,
    E,
    F,
    G,
    H,
    I,
    J,
    K,
    L,
    M,
    N,
    O,
    P,
    Q,
    R,
    S,
    T,
    U,
    V,
    W,
    X,
    Y,
    Z,
    Kb1,
    Kb2,
    Kb3,
    Kb4,
    Kb5,
    Kb6,
    Kb7,
    Kb8,
    Kb9,
    Kb0,
    Enter,
    Escape,
    BSpace,
    Tab,
    Space,
    Minus,
    Equal,
    LBracket,
    RBracket,
    Bslash,
    NonUsHash,
    SColon,
    Quote,
    Grave,
    Comma,
    Dot,
    Slash,
    CapsLock,
    F1,
    F2,
    F3,
    F4,
    F5,
    F6,
    F7,
    F8,
    F9,
    F10,
    F11,
    F12,
    PScreen,
    ScrollLock,
    Pause,
    Insert,
    Home,
    PgUp,
    Delete,
    End,
    PgDown,
    Right,
    Left,
    Down,
    Up,
    NumLock,
    KpSlash,
    KpAsterisk,
    KpMinus,
    KpPlus,
    KpEnter,
    Kp1,
    Kp2,
    Kp3,
    Kp4,
    Kp5,
    Kp6,
    Kp7,
    Kp8,
    Kp9,
    Kp0,
    KpDot,
    NonUsBslash,
    Application,
    Power,
    KpEqual,
    F13,
    F14,
    F15,
    F16,
    F17,
    F18,
    F19,
    F20,
    F21,
    F22,
    F23,
    F24,
    LCtrl,
    LShift,
    LAlt,
    LGui,
    RCtrl,
    RShift,
    RAlt,
    RGui,
}

impl KeyCode {
    /// The HID usage id of the key.
    pub open spec fn spec_usage(self) -> u8 {
        match self {
            KeyCode::No => 0x00,
            KeyCode::ErrorRollOver => 0x01,
            KeyCode::PostFail => 0x02,
            KeyCode::ErrorUndefined => 0x03,
            KeyCode::A => 0x04,
            KeyCode::B => 0x05,
            KeyCode::C => 0x06,
            KeyCode::D => 0x07,
            KeyCode::E => 0x08,
            KeyCode::F => 0x09,
            KeyCode::G => 0x0A,
            KeyCode::H => 0x0B,
            KeyCode::I => 0x0C,
            KeyCode::J => 0x0D,
            KeyCode::K => 0x0E,
            KeyCode::L => 0x0F,
            KeyCode::M => 0x10,
            KeyCode::N => 0x11,
            KeyCode::O => 0x12,
            KeyCode::P => 0x13,
            KeyCode::Q => 0x14,
            KeyCode::R => 0x15,
            KeyCode::S => 0x16,
            KeyCode::T => 0x17,
            KeyCode::U => 0x18,
            KeyCode::V => 0x19,
            KeyCode::W => 0x1A,
            KeyCode::X => 0x1B,
            KeyCode::Y => 0x1C,
            KeyCode::Z => 0x1D,
            KeyCode::Kb1 => 0x1E,
            KeyCode::Kb2 => 0x1F,
            KeyCode::Kb3 => 0x20,
            KeyCode::Kb4 => 0x21,
            KeyCode::Kb5 => 0x22,
            KeyCode::Kb6 => 0x23,
            KeyCode::Kb7 => 0x24,
            KeyCode::Kb8 => 0x25,
            KeyCode::Kb9 => 0x26,
            KeyCode::Kb0 => 0x27,
            KeyCode::Enter => 0x28,
            KeyCode::Escape => 0x29,
            KeyCode::BSpace => 0x2A,
            KeyCode::Tab => 0x2B,
            KeyCode::Space => 0x2C,
            KeyCode::Minus => 0x2D,
            KeyCode::Equal => 0x2E,
            KeyCode::LBracket => 0x2F,
            KeyCode::RBracket => 0x30,
            KeyCode::Bslash => 0x31,
            KeyCode::NonUsHash => 0x32,
            KeyCode::SColon => 0x33,
            KeyCode::Quote => 0x34,
            KeyCode::Grave => 0x35,
            KeyCode::Comma => 0x36,
            KeyCode::Dot => 0x37,
            KeyCode::Slash => 0x38,
            KeyCode::CapsLock => 0x39,
            KeyCode::F1 => 0x3A,
            KeyCode::F2 => 0x3B,
            KeyCode::F3 => 0x3C,
            KeyCode::F4 => 0x3D,
            KeyCode::F5 => 0x3E,
            KeyCode::F6 => 0x3F,
            KeyCode::F7 => 0x40,
            KeyCode::F8 => 0x41,
            KeyCode::F9 => 0x42,
            KeyCode::F10 => 0x43,
            KeyCode::F11 => 0x44,
            KeyCode::F12 => 0x45,
            KeyCode::PScreen => 0x46,
            KeyCode::ScrollLock => 0x47,
            KeyCode::Pause => 0x48,
            KeyCode::Insert => 0x49,
            KeyCode::Home => 0x4A,
            KeyCode::PgUp => 0x4B,
            KeyCode::Delete => 0x4C,
            KeyCode::End => 0x4D,
            KeyCode::PgDown => 0x4E,
            KeyCode::Right => 0x4F,
            KeyCode::Left => 0x50,
            KeyCode::Down => 0x51,
            KeyCode::Up => 0x52,
            KeyCode::NumLock => 0x53,
            KeyCode::KpSlash => 0x54,
            KeyCode::KpAsterisk => 0x55,
            KeyCode::KpMinus => 0x56,
            KeyCode::KpPlus => 0x57,
            KeyCode::KpEnter => 0x58,
            KeyCode::Kp1 => 0x59,
            KeyCode::Kp2 => 0x5A,
            KeyCode::Kp3 => 0x5B,
            KeyCode::Kp4 => 0x5C,
            KeyCode::Kp5 => 0x5D,
            KeyCode::Kp6 => 0x5E,
            KeyCode::Kp7 => 0x5F,
            KeyCode::Kp8 => 0x60,
            KeyCode::Kp9 => 0x61,
            KeyCode::Kp0 => 0x62,
            KeyCode::KpDot => 0x63,
            KeyCode::NonUsBslash => 0x64,
            KeyCode::Application => 0x65,
            KeyCode::Power => 0x66,
            KeyCode::KpEqual => 0x67,
            KeyCode::F13 => 0x68,
            KeyCode::F14 => 0x69,
            KeyCode::F15 => 0x6A,
            KeyCode::F16 => 0x6B,
            KeyCode::F17 => 0x6C,
            KeyCode::F18 => 0x6D,
            KeyCode::F19 => 0x6E,
            KeyCode::F20 => 0x6F,
            KeyCode::F21 => 0x70,
            KeyCode::F22 => 0x71,
            KeyCode::F23 => 0x72,
            KeyCode::F24 => 0x73,
            KeyCode::LCtrl => 0xE0,
            KeyCode::LShift => 0xE1,
            KeyCode::LAlt => 0xE2,
            KeyCode::LGui => 0xE3,
            KeyCode::RCtrl => 0xE4,
            KeyCode::RShift => 0xE5,
            KeyCode::RAlt => 0xE6,
            KeyCode::RGui => 0xE7,
        }
    }

    /// The HID usage id of the key.
    pub fn usage(self) -> (r: u8)
        ensures
            r == self.spec_usage(),
    {
        match self {
            KeyCode::No => 0x00,
            KeyCode::ErrorRollOver => 0x01,
            KeyCode::PostFail => 0x02,
            KeyCode::ErrorUndefined => 0x03,
            KeyCode::A => 0x04,
            KeyCode::B => 0x05,
            KeyCode::C => 0x06,
            KeyCode::D => 0x07,
            KeyCode::E => 0x08,
            KeyCode::F => 0x09,
            KeyCode::G => 0x0A,
            KeyCode::H => 0x0B,
            KeyCode::I => 0x0C,
            KeyCode::J => 0x0D,
            KeyCode::K => 0x0E,
            KeyCode::L => 0x0F,
            KeyCode::M => 0x10,
            KeyCode::N => 0x11,
            KeyCode::O => 0x12,
            KeyCode::P => 0x13,
            KeyCode::Q => 0x14,
            KeyCode::R => 0x15,
            KeyCode::S => 0x16,
            KeyCode::T => 0x17,
            KeyCode::U => 0x18,
            KeyCode::V => 0x19,
            KeyCode::W => 0x1A,
            KeyCode::X => 0x1B,
            KeyCode::Y => 0x1C,
            KeyCode::Z => 0x1D,
            KeyCode::Kb1 => 0x1E,
            KeyCode::Kb2 => 0x1F,
            KeyCode::Kb3 => 0x20,
            KeyCode::Kb4 => 0x21,
            KeyCode::Kb5 => 0x22,
            KeyCode::Kb6 => 0x23,
            KeyCode::Kb7 => 0x24,
            KeyCode::Kb8 => 0x25,
            KeyCode::Kb9 => 0x26,
            KeyCode::Kb0 => 0x27,
            KeyCode::Enter => 0x28,
            KeyCode::Escape => 0x29,
            KeyCode::BSpace => 0x2A,
            KeyCode::Tab => 0x2B,
            KeyCode::Space => 0x2C,
            KeyCode::Minus => 0x2D,
            KeyCode::Equal => 0x2E,
            KeyCode::LBracket => 0x2F,
            KeyCode::RBracket => 0x30,
            KeyCode::Bslash => 0x31,
            KeyCode::NonUsHash => 0x32,
            KeyCode::SColon => 0x33,
            KeyCode::Quote => 0x34,
            KeyCode::Grave => 0x35,
            KeyCode::Comma => 0x36,
            KeyCode::Dot => 0x37,
            KeyCode::Slash => 0x38,
            KeyCode::CapsLock => 0x39,
            KeyCode::F1 => 0x3A,
            KeyCode::F2 => 0x3B,
            KeyCode::F3 => 0x3C,
            KeyCode::F4 => 0x3D,
            KeyCode::F5 => 0x3E,
            KeyCode::F6 => 0x3F,
            KeyCode::F7 => 0x40,
            KeyCode::F8 => 0x41,
            KeyCode::F9 => 0x42,
            KeyCode::F10 => 0x43,
            KeyCode::F11 => 0x44,
            KeyCode::F12 => 0x45,
            KeyCode::PScreen => 0x46,
            KeyCode::ScrollLock => 0x47,
            KeyCode::Pause => 0x48,
            KeyCode::Insert => 0x49,
            KeyCode::Home => 0x4A,
            KeyCode::PgUp => 0x4B,
            KeyCode::Delete => 0x4C,
            KeyCode::End => 0x4D,
            KeyCode::PgDown => 0x4E,
            KeyCode::Right => 0x4F,
            KeyCode::Left => 0x50,
            KeyCode::Down => 0x51,
            KeyCode::Up => 0x52,
            KeyCode::NumLock => 0x53,
            KeyCode::KpSlash => 0x54,
            KeyCode::KpAsterisk => 0x55,
            KeyCode::KpMinus => 0x56,
            KeyCode::KpPlus => 0x57,
            KeyCode::KpEnter => 0x58,
            KeyCode::Kp1 => 0x59,
            KeyCode::Kp2 => 0x5A,
            KeyCode::Kp3 => 0x5B,
            KeyCode::Kp4 => 0x5C,
            KeyCode::Kp5 => 0x5D,
            KeyCode::Kp6 => 0x5E,
            KeyCode::Kp7 => 0x5F,
            KeyCode::Kp8 => 0x60,
            KeyCode::Kp9 => 0x61,
            KeyCode::Kp0 => 0x62,
            KeyCode::KpDot => 0x63,
            KeyCode::NonUsBslash => 0x64,
            KeyCode::Application => 0x65,
            KeyCode::Power => 0x66,
            KeyCode::KpEqual => 0x67,
            KeyCode::F13 => 0x68,
            KeyCode::F14 => 0x69,
            KeyCode::F15 => 0x6A,
            KeyCode::F16 => 0x6B,
            KeyCode::F17 => 0x6C,
            KeyCode::F18 => 0x6D,
            KeyCode::F19 => 0x6E,
            KeyCode::F20 => 0x6F,
            KeyCode::F21 => 0x70,
            KeyCode::F22 => 0x71,
            KeyCode::F23 => 0x72,
            KeyCode::F24 => 0x73,
            KeyCode::LCtrl => 0xE0,
            KeyCode::LShift => 0xE1,
            KeyCode::LAlt => 0xE2,
            KeyCode::LGui => 0xE3,
            KeyCode::RCtrl => 0xE4,
            KeyCode::RShift => 0xE5,
            KeyCode::RAlt => 0xE6,
            KeyCode::RGui => 0xE7,
        }
    }

    /// Modifier keys occupy the usage ids from 0xE0 up and are sent as bits of byte 0.
    pub open spec fn spec_is_modifier(self) -> bool {
        self.spec_usage() >= FIRST_MODIFIER
    }

    /// Whether the key is a modifier (control, shift, alt or gui).
    pub fn is_modifier(self) -> (r: bool)
        ensures
            r == self.spec_is_modifier(),
    {
        self.usage() >= FIRST_MODIFIER
    }

    /// The error usages that a report repeats in all six key slots.
    pub open spec fn spec_is_error(self) -> bool {
        self is ErrorRollOver || self is PostFail || self is ErrorUndefined
    }
}

/// Index of the first empty key slot at or after `i` (8 when there is none).
pub open spec fn first_free_slot(bytes: Seq<u8>, i: int) -> int
    decreases 8 - i,
{
    if i >= 8 {
        8
    } else if bytes[i] == 0 {
        i
    } else {
        first_free_slot(bytes, i + 1)
    }
}

/// The report with all six key slots set to `usage`.
pub open spec fn fill_key_slots(bytes: Seq<u8>, usage: u8) -> Seq<u8> {
    Seq::new(8, |i: int| if i < 2 { bytes[i] } else { usage })
}

/// The report after one more key is held: modifiers set their bit in byte 0, other
/// keys take the first free slot, and with no slot left every slot reports rollover.
pub open spec fn press_into(bytes: Seq<u8>, kc: KeyCode) -> Seq<u8> {
    if kc is No {
        bytes
    } else if kc.spec_is_error() {
        fill_key_slots(bytes, kc.spec_usage())
    } else if kc.spec_is_modifier() {
        bytes.update(0, bytes[0] | (1u8 << ((kc.spec_usage() - FIRST_MODIFIER) as u8)))
    } else if first_free_slot(bytes, 2) < 8 {
        bytes.update(first_free_slot(bytes, 2), kc.spec_usage())
    } else {
        fill_key_slots(bytes, ROLLOVER_USAGE)
    }
}

/// The empty report: no modifier and no key.
pub open spec fn empty_report() -> Seq<u8> {
    Seq::new(8, |i: int| 0u8)
}

/// The report that holds the keys `kcs`, pressed in order into an empty report.
pub open spec fn report_of(kcs: Seq<KeyCode>) -> Seq<u8>
    decreases kcs.len(),
{
    if kcs.len() == 0 {
        empty_report()
    } else {
        press_into(report_of(kcs.drop_last()), kcs.last())
    }
}

/// An 8-byte HID boot keyboard report: modifier bits, a reserved byte, six key slots.
#[derive(Debug, Clone, Copy, PartialEq, Eq)]
pub struct KbHidReport {
    bytes: [u8; 8],
}

impl View for KbHidReport {
    type V = Seq<u8>;

    closed spec fn view(&self) -> Seq<u8> {
        self.bytes@
    }
}

impl KbHidReport {
    /// The empty report.
    pub fn new() -> (r: Self)
        ensures
            r@ == empty_report(),
    {
        let r = KbHidReport { bytes: [0u8; 8] };
        assert(r@ =~= empty_report());
        r
    }

    /// Whether two reports hold the same bytes.
    pub fn same_as(&self, other: &KbHidReport) -> (r: bool)
        ensures
            r == (self@ == other@),
    {
        let mut i: usize = 0;
        while i < 8
            invariant
                i <= 8,
                self@.len() == 8,
                other@.len() == 8,
                forall|j: int| 0 <= j < i ==> self@[j] == other@[j],
            decreases 8 - i,
        {
            if self.bytes[i] != other.bytes[i] {
                return false;
            }
            i += 1;
        }
        assert(self@ =~= other@);
        true
    }

    /// The raw bytes sent to the host.
    pub fn as_bytes(&self) -> (r: &[u8])
        ensures
            r@ == self@,
    {
        self.bytes.as_slice()
    }

    fn fill(&mut self, usage: u8)
        ensures
            final(self)@ == fill_key_slots(old(self)@, usage),
    {
        let mut i: usize = 2;
        while i < 8
            invariant
                2 <= i <= 8,
                self.bytes@.len() == 8,
                forall|j: int| 0 <= j < 2 ==> self.bytes@[j] == old(self)@[j],
                forall|j: int| 2 <= j < i ==> self.bytes@[j] == usage,
                forall|j: int| i <= j < 8 ==> self.bytes@[j] == old(self)@[j],
            decreases 8 - i,
        {
            self.bytes[i] = usage;
            i += 1;
        }
        assert(self@ =~= fill_key_slots(old(self)@, usage));
    }

    /// Adds a held key to the report.
    pub fn pressed(&mut self, kc: KeyCode)
        ensures
            final(self)@ == press_into(old(self)@, kc),
    {
        match kc {
            KeyCode::No => {},
            KeyCode::ErrorRollOver | KeyCode::PostFail | KeyCode::ErrorUndefined => {
                self.fill(kc.usage());
            },
            _ => {
                let u = kc.usage();
                if u >= FIRST_MODIFIER {
                    let shift: u8 = u - FIRST_MODIFIER;
                    assert(shift < 8);
                    let bits = self.bytes[0] | (1u8 << shift);
                    self.bytes[0] = bits;
                } else {
                    let mut i: usize = 2;
                    while i < 8 && self.bytes[i] != 0
                        invariant
                            2 <= i <= 8,
                            self.bytes@ == old(self)@,
                            self.bytes@.len() == 8,
                            first_free_slot(old(self)@, 2) == first_free_slot(old(self)@, i as int),
                        decreases 8 - i,
                    {
                        i += 1;
                    }
                    if i < 8 {
                        self.bytes[i] = u;
                    } else {
                        self.fill(ROLLOVER_USAGE);
                    }
                }
            },
        }
    }

    /// The report holding `kcs`, pressed in order.
    pub fn from_keycodes(kcs: &[KeyCode]) -> (r: Self)
        ensures
            r@ == report_of(kcs@),
    {
        let mut r = KbHidReport::new();
        let mut i: usize = 0;
        while i < kcs.len()
            invariant
                i <= kcs@.len(),
                r@ == report_of(kcs@.take(i as int)),
            decreases kcs@.len() - i,
        {
            r.pressed(kcs[i]);
            assert(kcs@.take(i + 1).drop_last() =~= kcs@.take(i as int));
            i += 1;
        }
        assert(kcs@.take(kcs@.len() as int) =~= kcs@);
        r
    }
}

} // verus!
