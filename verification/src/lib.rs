//! A verified mailbox-polling verification-code receiver.
//!
//! The library holds the logic of the receiver: extracting a numeric
//! verification code from message text, keeping a bounded, deduplicated
//! store of found codes, tracking the receiver's lifecycle status, and
//! deciding what each polling iteration does. The surrounding application
//! performs the network round trips and hands the raw message bytes in.

pub mod extract;
pub mod mail;
pub mod receiver;
pub mod store;
pub mod text;
