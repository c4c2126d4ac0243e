//! The callback interface: one `done` event, then nothing more.

use crate::client::CompositorClientState;
use crate::error::ProtocolError;
use crate::wire::{put_u32, u32_le, MessageView};
use vstd::prelude::*;

verus! {

/// The event `callback.done(serial)` on `callback_id`.
pub open spec fn done_event(callback_id: u32, serial: u32) -> MessageView {
    MessageView { object_id: callback_id, op_code: 0, args: u32_le(serial) }
}

impl CompositorClientState {
    /// A callback takes no request: whatever arrives is ignored.
    pub fn handle_wl_callback_message(&mut self, op_code: u16) -> (result: Result<
        (),
        ProtocolError,
    >)
        requires
            old(self).wf(),
        ensures
            final(self).wf(),
            final(self)@ == old(self)@,
            result == Ok::<(), ProtocolError>(()),
    {
        Ok(())
    }

    /// Queues `callback.done(callback_data)` on `callback_id`.
    pub fn send_callback_done(&mut self, callback_id: u32, callback_data: u32) -> (result: Result<
        (),
        ProtocolError,
    >)
        requires
            old(self).wf(),
        ensures
            final(self).wf(),
            final(self)@ == old(self)@.send(callback_id, 0, u32_le(callback_data)),
            result == Ok::<(), ProtocolError>(()),
    {
        let mut args: Vec<u8> = Vec::new();
        put_u32(&mut args, callback_data);
        self.send_message(callback_id, 0, args.as_slice())
    }
}

} // verus!
