//! The pool interface: buffers inside a mapping, and resizing the mapping.

use crate::client::{buffer_admission, ClientView, CompositorClientState};
use crate::effect::{Effect, EffectView};
use crate::error::ProtocolError;
use crate::object::ObjectView;
use crate::wire::{i32_at, read_i32, read_u32, u32_at};
use crate::wl_buffer::BufferState;
use vstd::prelude::*;

verus! {

/// The buffer that `create_buffer(new_id, offset, width, height, stride,
/// format)` describes, on `mapping`.
pub open spec fn buffer_at(args: Seq<u8>, mapping: u64) -> BufferState {
    BufferState {
        offset: i32_at(args, 4),
        width: i32_at(args, 8),
        height: i32_at(args, 12),
        stride: i32_at(args, 16),
        format: u32_at(args, 20),
        shm_pool: mapping,
    }
}

/// `create_buffer(..)` on a pool that holds on to `mapping`: a buffer that
/// shares the mapping is bound under `new_id`.
pub open spec fn pool_create_buffer(pre: ClientView, args: Seq<u8>, mapping: u64) -> (
    ClientView,
    Result<(), ProtocolError>,
) {
    if args.len() < 24 {
        (pre, Err(ProtocolError::MalformedFrame))
    } else if buffer_admission(pre, u32_at(args, 0), mapping) is Err {
        (pre, buffer_admission(pre, u32_at(args, 0), mapping))
    } else {
        (pre.install(u32_at(args, 0), ObjectView::WlBuffer(buffer_at(args, mapping))), Ok(()))
    }
}

/// `resize(new_size)` on a pool that holds on to `mapping`: the resizing of
/// the mapping, in place, is queued. A mapping that nothing holds on to is
/// an `InvalidObject`.
pub open spec fn pool_resize(pre: ClientView, args: Seq<u8>, mapping: u64) -> (
    ClientView,
    Result<(), ProtocolError>,
) {
    if args.len() < 4 {
        (pre, Err(ProtocolError::MalformedFrame))
    } else if !pre.mapping_live(mapping) {
        (pre, Err(ProtocolError::InvalidObject))
    } else {
        (pre.emit(EffectView::ResizePool { mapping, new_size: u32_at(args, 0) }), Ok(()))
    }
}

/// A request on the pool `id` by its opcode. Anything but a pool under `id`
/// is an `InvalidObject`; an opcode that the interface does not have is
/// ignored.
pub open spec fn pool_message(pre: ClientView, id: u32, op_code: u16, args: Seq<u8>) -> (
    ClientView,
    Result<(), ProtocolError>,
) {
    match pre.pool_mapping(id) {
        None => (pre, Err(ProtocolError::InvalidObject)),
        Some(mapping) => if op_code == 0 {
            pool_create_buffer(pre, args, mapping)
        } else if op_code == 1 {
            (pre.remove(id), Ok(()))
        } else if op_code == 2 {
            pool_resize(pre, args, mapping)
        } else {
            (pre, Ok(()))
        },
    }
}

impl CompositorClientState {
    /// Routes a request on the pool `object_id` by its opcode.
    pub fn handle_wl_shm_pool_message(
        &mut self,
        object_id: u32,
        op_code: u16,
        arg_bytes: &[u8],
    ) -> (result: Result<(), ProtocolError>)
        requires
            old(self).wf(),
        ensures
            final(self).wf(),
            final(self)@ == pool_message(old(self)@, object_id, op_code, arg_bytes@).0,
            result == pool_message(old(self)@, object_id, op_code, arg_bytes@).1,
    {
        let mapping = match self.pool_mapping(object_id) {
            None => {
                return Err(ProtocolError::InvalidObject);
            },
            Some(mapping) => mapping,
        };
        match op_code {
            0 => self.handle_wl_shm_pool_create_buffer(arg_bytes, mapping),
            1 => self.handle_wl_shm_pool_destroy(object_id),
            2 => self.handle_wl_shm_pool_resize(arg_bytes, mapping),
            _ => Ok(()),
        }
    }

    /// `create_buffer(new_id, offset, width, height, stride, format)` on a
    /// pool that holds on to `mapping`.
    pub fn handle_wl_shm_pool_create_buffer(&mut self, arg_bytes: &[u8], mapping: u64) -> (result:
        Result<(), ProtocolError>)
        requires
            old(self).wf(),
        ensures
            final(self).wf(),
            final(self)@ == pool_create_buffer(old(self)@, arg_bytes@, mapping).0,
            result == pool_create_buffer(old(self)@, arg_bytes@, mapping).1,
    {
        if arg_bytes.len() < 24 {
            return Err(ProtocolError::MalformedFrame);
        }
        let new_id = read_u32(arg_bytes, 0).unwrap();
        let offset = read_i32(arg_bytes, 4).unwrap();
        let width = read_i32(arg_bytes, 8).unwrap();
        let height = read_i32(arg_bytes, 12).unwrap();
        let stride = read_i32(arg_bytes, 16).unwrap();
        let format = read_u32(arg_bytes, 20).unwrap();
        let buffer = BufferState { offset, width, height, stride, format, shm_pool: mapping };
        self.install_buffer(new_id, buffer)
    }

    /// `destroy()`: the object under `object_id` is removed. Buffers made from
    /// the pool keep the mapping alive.
    pub fn handle_wl_shm_pool_destroy(&mut self, object_id: u32) -> (result: Result<
        (),
        ProtocolError,
    >)
        requires
            old(self).wf(),
        ensures
            final(self).wf(),
            final(self)@ == old(self)@.remove(object_id),
            result == Ok::<(), ProtocolError>(()),
    {
        self.remove_object(object_id);
        Ok(())
    }

    /// `resize(new_size)` on a pool that holds on to `mapping`.
    pub fn handle_wl_shm_pool_resize(&mut self, arg_bytes: &[u8], mapping: u64) -> (result: Result<
        (),
        ProtocolError,
    >)
        requires
            old(self).wf(),
        ensures
            final(self).wf(),
            final(self)@ == pool_resize(old(self)@, arg_bytes@, mapping).0,
            result == pool_resize(old(self)@, arg_bytes@, mapping).1,
    {
        let new_size = match read_u32(arg_bytes, 0) {
            None => {
                return Err(ProtocolError::MalformedFrame);
            },
            Some(size) => size,
        };
        if !self.mapping_live(mapping) {
            return Err(ProtocolError::InvalidObject);
        }
        self.emit(Effect::ResizePool { mapping, new_size });
        Ok(())
    }
}

} // verus!
