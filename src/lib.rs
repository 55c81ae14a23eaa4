//! Host side of the wire protocols spoken by a phone's boot firmware: the USB
//! "Download Mode" session and the serial "bootstub" dump and upload.
//!
//! Every function here is pure: it builds the bytes to send, checks the bytes
//! received, or advances a small state machine by one received byte. The
//! program around the library performs the reads, writes and delays.

mod bits;

pub mod bootstub;
pub mod checksum;
pub mod download;
pub mod framing;
pub mod numbers;
pub mod session;
pub mod unpacker;
pub mod usb;
