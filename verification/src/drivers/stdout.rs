//! The standard-output sink: each message becomes one serialized JSON line.
//! The caller writes the line out; rendering it never fails.

use crate::json::json_bytes;
use crate::types::{msg_json, Message};
use vstd::prelude::*;

verus! {

/// The development sink: no state, no connection.
pub struct StdOutDriver;

impl StdOutDriver {
    /// Make the sink; it needs nothing.
    pub fn new() -> (r: StdOutDriver) {
        StdOutDriver
    }

    /// This sink is stateless: setting it up always succeeds and does
    /// nothing.
    pub fn init(&mut self) -> (r: bool)
        ensures
            r,
    {
        true
    }

    /// The line written for one message: its serialized form, exactly.
    pub fn send_log(&mut self, message: &Message) -> (r: Vec<u8>)
        ensures
            r@ == json_bytes(msg_json(message@)),
    {
        crate::types::message_line(message)
    }
}

} // verus!
