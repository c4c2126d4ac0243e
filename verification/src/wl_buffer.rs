//! The buffer interface: a rectangle of pixels inside a pool's mapping.

use crate::client::{ClientView, CompositorClientState};
use crate::error::ProtocolError;
use vstd::prelude::*;

verus! {

/// A buffer: where its pixels lie in the mapping it shares with its pool.
#[derive(Clone, Copy, Debug, PartialEq, Eq, Structural)]
pub struct BufferState {
    pub offset: i32,
    pub width: i32,
    pub height: i32,
    pub stride: i32,
    pub format: u32,
    /// The mapping that the buffer holds on to, together with its pool and
    /// the other buffers made from it.
    pub shm_pool: u64,
}

/// A request on the buffer `id` by its opcode: `destroy()` removes the
/// object, any other opcode is ignored.
pub open spec fn buffer_message(pre: ClientView, id: u32, op_code: u16) -> ClientView {
    if op_code == 0 {
        pre.remove(id)
    } else {
        pre
    }
}

impl CompositorClientState {
    /// Routes a request on the buffer `object_id` by its opcode.
    pub fn handle_wl_buffer_message(&mut self, object_id: u32, op_code: u16) -> (result: Result<
        (),
        ProtocolError,
    >)
        requires
            old(self).wf(),
        ensures
            final(self).wf(),
            final(self)@ == buffer_message(old(self)@, object_id, op_code),
            result == Ok::<(), ProtocolError>(()),
    {
        match op_code {
            0 => self.handle_wl_buffer_destroy(object_id),
            _ => Ok(()),
        }
    }

    /// `destroy()`: the object under `object_id` is removed. Its mapping is
    /// released with it when nothing else holds on to it.
    pub fn handle_wl_buffer_destroy(&mut self, object_id: u32) -> (result: Result<
        (),
        ProtocolError,
    >)
        requires
            old(self).wf(),
        ensures
            final(self).wf(),
            final(self)@ == old(self)@.remove(object_id),
            result == Ok::<(), ProtocolError>(()),
    {
        self.remove_object(object_id);
        Ok(())
    }

    /// Queues `buffer.release()` on `object_id`.
    pub fn send_wl_buffer_release(&mut self, object_id: u32) -> (result: Result<
        (),
        ProtocolError,
    >)
        requires
            old(self).wf(),
        ensures
            final(self).wf(),
            final(self)@ == old(self)@.send(object_id, 0, Seq::empty()),
            result == Ok::<(), ProtocolError>(()),
    {
        let args: Vec<u8> = Vec::new();
        self.send_message(object_id, 0, args.as_slice())
    }
}

} // verus!
