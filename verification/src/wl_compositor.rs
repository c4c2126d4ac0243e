//! The compositor interface: the making of surfaces and regions.

use crate::client::{ClientView, CompositorClientState};
use crate::error::ProtocolError;
use crate::object::{ObjectView, WaylandObject};
use crate::wire::{read_u32, u32_at};
use crate::wl_surface::{SurfaceState, SurfaceView};
use vstd::prelude::*;

verus! {

/// A request that binds `object` under the `new_id` at the start of the
/// argument area: a missing id is a `MalformedFrame`, an id that is already
/// bound an `InvalidObject`.
pub open spec fn create(pre: ClientView, args: Seq<u8>, object: ObjectView) -> (
    ClientView,
    Result<(), ProtocolError>,
) {
    if args.len() < 4 {
        (pre, Err(ProtocolError::MalformedFrame))
    } else if pre.objects.contains_key(u32_at(args, 0)) {
        (pre, Err(ProtocolError::InvalidObject))
    } else {
        (pre.install(u32_at(args, 0), object), Ok(()))
    }
}

/// A request on a compositor by its opcode: `create_surface(new_id)`,
/// `create_region(new_id)`; any other opcode is ignored.
pub open spec fn compositor_message(pre: ClientView, op_code: u16, args: Seq<u8>) -> (
    ClientView,
    Result<(), ProtocolError>,
) {
    if op_code == 0 {
        create(pre, args, ObjectView::WlSurface(SurfaceView::fresh()))
    } else if op_code == 1 {
        create(pre, args, ObjectView::WlRegion)
    } else {
        (pre, Ok(()))
    }
}

impl CompositorClientState {
    /// Routes a request on a compositor by its opcode.
    pub fn handle_wl_compositor_message(&mut self, op_code: u16, arg_bytes: &[u8]) -> (result:
        Result<(), ProtocolError>)
        requires
            old(self).wf(),
        ensures
            final(self).wf(),
            final(self)@ == compositor_message(old(self)@, op_code, arg_bytes@).0,
            result == compositor_message(old(self)@, op_code, arg_bytes@).1,
    {
        match op_code {
            0 => self.handle_wl_compositor_create_surface(arg_bytes),
            1 => self.handle_wl_compositor_create_region(arg_bytes),
            _ => Ok(()),
        }
    }

    /// `create_surface(new_id)`: a new surface is bound under `new_id`.
    pub fn handle_wl_compositor_create_surface(&mut self, arg_bytes: &[u8]) -> (result: Result<
        (),
        ProtocolError,
    >)
        requires
            old(self).wf(),
        ensures
            final(self).wf(),
            final(self)@ == create(
                old(self)@,
                arg_bytes@,
                ObjectView::WlSurface(SurfaceView::fresh()),
            ).0,
            result == create(
                old(self)@,
                arg_bytes@,
                ObjectView::WlSurface(SurfaceView::fresh()),
            ).1,
    {
        let new_id = match read_u32(arg_bytes, 0) {
            None => {
                return Err(ProtocolError::MalformedFrame);
            },
            Some(id) => id,
        };
        self.install(new_id, WaylandObject::WlSurface(SurfaceState::new()))
    }

    /// `create_region(new_id)`: a region is bound under `new_id`.
    pub fn handle_wl_compositor_create_region(&mut self, arg_bytes: &[u8]) -> (result: Result<
        (),
        ProtocolError,
    >)
        requires
            old(self).wf(),
        ensures
            final(self).wf(),
            final(self)@ == create(old(self)@, arg_bytes@, ObjectView::WlRegion).0,
            result == create(old(self)@, arg_bytes@, ObjectView::WlRegion).1,
    {
        let new_id = match read_u32(arg_bytes, 0) {
            None => {
                return Err(ProtocolError::MalformedFrame);
            },
            Some(id) => id,
        };
        self.install(new_id, WaylandObject::WlRegion)
    }
}

} // verus!
