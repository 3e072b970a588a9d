//! The host side of the line protocol of the ROME memory emulator.
//!
//! The device hangs on a serial link and understands a handful of
//! commands, each of them one line of ASCII: a version query, a
//! self-test, the switch to external control, and reads and writes of its
//! 64 KiB of memory, with the bytes in hexadecimal.
//!
//! This crate is the protocol without the link. It never reads or writes
//! a port and never looks at a clock. Whoever owns the link reads it byte
//! by byte and hands each byte over, together with the time where the
//! time matters; the crate says what the bytes come to, and what to send
//! next. So every rule of the protocol is a function from values to
//! values, and each of them is verified against its specification:
//!
//! - [`line`] puts bytes together into lines, within a limit;
//! - [`message`] tells debug lines, error lines and responses apart;
//! - [`device`] holds the state of one link, waits for responses and
//!   judges the answers to the plain commands;
//! - [`sync`] is the handshake that sorts out stale bytes after a link
//!   has been opened;
//! - [`codec`] and [`hex`] are the wire format of reads and writes;
//! - [`segments`] and [`data_ops`] cut a transfer into commands that fit
//!   the device's buffer, and compare what was read back with what was
//!   written;
//! - [`memory`] is a model of the device's memory, against which a
//!   write followed by a read is shown to give back what was written;
//! - [`device_detector`] picks the port that the device is on.

pub mod bytes;
pub mod codec;
pub mod data_ops;
pub mod device;
pub mod device_detector;
pub mod error;
pub mod hex;
pub mod line;
pub mod memory;
pub mod message;
pub mod segments;
pub mod sync;
