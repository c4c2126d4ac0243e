//! The shared-memory interface: pixel formats and the making of pools.

use crate::client::{pool_admission, ClientView, CompositorClientState};
use crate::error::ProtocolError;
use crate::wire::{i32_at, put_u32, read_i32, read_u32, u32_at, u32_le};
use std::collections::VecDeque;
use vstd::prelude::*;

verus! {

/// A pixel format that buffers can have.
#[derive(Clone, Copy, Debug, PartialEq, Eq, Structural)]
pub enum WlShmFormat {
    Argb8888,
    Rgb888,
}

impl WlShmFormat {
    /// The protocol value of a format.
    pub open spec fn value(self) -> u32 {
        match self {
            WlShmFormat::Argb8888 => 0,
            WlShmFormat::Rgb888 => 0x34324752,
        }
    }

    /// The protocol value of this format.
    pub fn as_u32(self) -> (value: u32)
        ensures
            value == self.value(),
    {
        match self {
            WlShmFormat::Argb8888 => 0,
            WlShmFormat::Rgb888 => 0x34324752,
        }
    }
}

impl Default for WlShmFormat {
    fn default() -> (format: WlShmFormat)
        ensures
            format == WlShmFormat::Argb8888,
    {
        WlShmFormat::Argb8888
    }
}

/// The state with the two formats on offer announced on `shm_id`.
pub open spec fn advertise_formats(pre: ClientView, shm_id: u32) -> ClientView {
    pre.send(shm_id, 0, u32_le(WlShmFormat::Argb8888.value())).send(
        shm_id,
        0,
        u32_le(WlShmFormat::Rgb888.value()),
    )
}

/// `create_pool(new_id, fd, size)`: the oldest waiting descriptor is taken
/// for the pool, a pool is bound under `new_id`, and the mapping of `size`
/// bytes is queued. Without a waiting descriptor the request is a
/// `ProtocolViolation`; a size that is not positive is a `MappingError`.
pub open spec fn shm_create_pool(pre: ClientView, args: Seq<u8>, fds: Seq<i32>) -> (
    ClientView,
    Seq<i32>,
    Result<(), ProtocolError>,
) {
    if args.len() < 8 {
        (pre, fds, Err(ProtocolError::MalformedFrame))
    } else if fds.len() == 0 {
        (pre, fds, Err(ProtocolError::ProtocolViolation))
    } else {
        let rest = fds.subrange(1, fds.len() as int);
        let new_id = u32_at(args, 0);
        let size = i32_at(args, 4);
        if size <= 0 {
            (pre, rest, Err(ProtocolError::MappingError))
        } else if pool_admission(pre, new_id) is Err {
            (pre, rest, pool_admission(pre, new_id))
        } else {
            (pre.install_pool(new_id, fds[0], size as u32), rest, Ok(()))
        }
    }
}

/// A request on the shm object `id` by its opcode. An opcode that the
/// interface does not have is ignored.
pub open spec fn shm_message(
    pre: ClientView,
    id: u32,
    op_code: u16,
    args: Seq<u8>,
    fds: Seq<i32>,
) -> (ClientView, Seq<i32>, Result<(), ProtocolError>) {
    if op_code == 0 {
        shm_create_pool(pre, args, fds)
    } else if op_code == 1 {
        (pre.remove(id), fds, Ok(()))
    } else {
        (pre, fds, Ok(()))
    }
}

impl CompositorClientState {
    /// Routes a request on the shm object `object_id` by its opcode.
    pub fn handle_wl_shm_message(
        &mut self,
        object_id: u32,
        op_code: u16,
        arg_bytes: &[u8],
        fds: &mut VecDeque<i32>,
    ) -> (result: Result<(), ProtocolError>)
        requires
            old(self).wf(),
        ensures
            final(self).wf(),
            final(self)@ == shm_message(old(self)@, object_id, op_code, arg_bytes@, old(fds)@).0,
            final(fds)@ == shm_message(old(self)@, object_id, op_code, arg_bytes@, old(fds)@).1,
            result == shm_message(old(self)@, object_id, op_code, arg_bytes@, old(fds)@).2,
    {
        match op_code {
            0 => self.handle_wl_shm_create_pool(arg_bytes, fds),
            1 => self.handle_wl_shm_release(object_id),
            _ => Ok(()),
        }
    }

    /// `create_pool(new_id, fd, size)`.
    pub fn handle_wl_shm_create_pool(&mut self, arg_bytes: &[u8], fds: &mut VecDeque<i32>) -> (
        result: Result<(), ProtocolError>)
        requires
            old(self).wf(),
        ensures
            final(self).wf(),
            final(self)@ == shm_create_pool(old(self)@, arg_bytes@, old(fds)@).0,
            final(fds)@ == shm_create_pool(old(self)@, arg_bytes@, old(fds)@).1,
            result == shm_create_pool(old(self)@, arg_bytes@, old(fds)@).2,
    {
        if arg_bytes.len() < 8 {
            return Err(ProtocolError::MalformedFrame);
        }
        let new_id = read_u32(arg_bytes, 0).unwrap();
        let size = read_i32(arg_bytes, 4).unwrap();
        let fd = match fds.pop_front() {
            None => {
                return Err(ProtocolError::ProtocolViolation);
            },
            Some(fd) => fd,
        };
        if size <= 0 {
            return Err(ProtocolError::MappingError);
        }
        self.install_pool(new_id, fd, size as u32)
    }

    /// `release()`: the object under `object_id` is removed.
    pub fn handle_wl_shm_release(&mut self, object_id: u32) -> (result: Result<(), ProtocolError>)
        requires
            old(self).wf(),
        ensures
            final(self).wf(),
            final(self)@ == old(self)@.remove(object_id),
            result == Ok::<(), ProtocolError>(()),
    {
        self.remove_object(object_id);
        Ok(())
    }

    /// Queues `shm.format(format)` on `shm_id`.
    pub fn send_format(&mut self, shm_id: u32, format: u32) -> (result: Result<(), ProtocolError>)
        requires
            old(self).wf(),
        ensures
            final(self).wf(),
            final(self)@ == old(self)@.send(shm_id, 0, u32_le(format)),
            result == Ok::<(), ProtocolError>(()),
    {
        let mut args: Vec<u8> = Vec::new();
        put_u32(&mut args, format);
        self.send_message(shm_id, 0, args.as_slice())
    }
}

} // verus!
