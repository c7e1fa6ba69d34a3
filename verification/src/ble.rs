//! The Bluetooth Low-Energy side of the client: what is read from
//! advertisements before a connection is made, and the order in which a
//! session with the amplifier goes on once it is.

pub mod advertisement;
pub mod scanner;
pub mod session;

use vstd::prelude::*;

verus! {

/// The service that the amplifier advertises and serves.
pub const SPARK_SERVICE_UUID: u16 = 0xFFC0;

/// The characteristic that blocks are written to.
pub const WRITE_CHARACTERISTIC: u16 = 0xFFC1;

/// The characteristic that notifies blocks from the amplifier.
pub const NOTIF_CHARACTERISTIC: u16 = 0xFFC2;

/// The client characteristic configuration descriptor.
pub const CLIENT_CHARACTERISTIC_CONFIGURATION: u16 = 0x2902;

/// The value that, written to the configuration descriptor of the
/// notifying characteristic, enables notifications.
pub fn enable_notifications_value() -> (value: [u8; 2])
    ensures
        value@ == seq![0x01u8, 0x00u8],
{
    let value: [u8; 2] = [0x01, 0x00];
    proof {
        assert(value@ =~= seq![0x01u8, 0x00u8]);
    }
    value
}

} // verus!
