//! The region interface: a placeholder that takes no request yet.

use crate::client::CompositorClientState;
use crate::error::ProtocolError;
use vstd::prelude::*;

verus! {

impl CompositorClientState {
    /// Whatever arrives for a region is ignored.
    pub fn handle_wl_region_message(&mut self, object_id: u32, op_code: u16, arg_bytes: &[u8]) -> (
        result: Result<(), ProtocolError>)
        requires
            old(self).wf(),
        ensures
            final(self).wf(),
            final(self)@ == old(self)@,
            result == Ok::<(), ProtocolError>(()),
    {
        Ok(())
    }
}

} // verus!
