//! Firmware core of a split USB keyboard: a minimum-latency debouncer per key, the
//! walk from DMA scan frames to key events, the layer engine that turns events into
//! held key codes, the HID report, the one-byte frame that carries events between
//! the halves, and a debug event log.

pub mod key_code;
pub mod action;
pub mod layout;
pub mod debounce;
pub mod log;
pub mod scan;
pub mod wire;
pub mod keyboard;
pub mod stack;
