//! The application-message envelope between the terminal, the guest task
//! and the device.
//!
//! Delivery runs over in-process channels owned by the embedding program;
//! the library defines only the message alphabet.

use vstd::prelude::*;

verus! {

/// A message between the UI, the guest ("os") task and the device: status
/// lines from each party, and the two file commands the UI can issue.
pub enum Messages {
    String(String),
    OSMessage(String),
    DriverMessage(String),
    GlobalMessages(String),
    FileWrite(String, String),
    FileRead(String),
}

} // verus!
