//! Client-side protocol logic for a Bluetooth Low-Energy guitar amplifier.
//!
//! * [`ble::advertisement`] decodes advertisement payloads, so that the
//!   amplifier can be told from other devices before a connection is made.
//! * [`packing`] and [`spark_message`] are the message codec: application
//!   messages become blocks that can be written to the amplifier, and
//!   notified blocks become application messages again.
//! * [`ble::scanner`] and [`ble::session`] decide what a session does
//!   next: scan, connect, discover, subscribe, exchange.
//! * [`display`] and [`byteorder`] hold what is taken on trust from other
//!   crates: the strings of the display's queue, and the byte order of
//!   the integers in a block header.
//!
//! Nothing here touches a radio. The functions take bytes and events and
//! give bytes and actions; every one of them is total, so that no input
//! from the air can stop the client.

pub mod ble;
pub mod byteorder;
pub mod display;
pub mod packing;
pub mod spark_message;
