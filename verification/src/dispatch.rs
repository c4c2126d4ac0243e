//! Routing a request to the handler of the interface of its target.

use crate::client::{ClientView, CompositorClientState};
use crate::error::ProtocolError;
use crate::globals::{find_global, CompositorGlobalState, Global};
use crate::object::Interface;
use crate::wl_buffer::buffer_message;
use crate::wl_compositor::compositor_message;
use crate::wl_display::display_message;
use crate::wl_registry::{
    bind_request, bound_global, find_bound_global, read_bind_request, registry_message,
};
use crate::wl_shm::shm_message;
use crate::wl_shm_pool::pool_message;
use crate::wl_surface::surface_message;
use std::collections::VecDeque;
use vstd::prelude::*;

verus! {

/// What a request leaves behind: the state of the client, the descriptors
/// that still wait for a request, and how the request ended.
pub struct Step {
    pub state: ClientView,
    pub fds: Seq<i32>,
    pub result: Result<(), ProtocolError>,
}

/// The step of a request that takes no descriptor.
pub open spec fn keeping(fds: Seq<i32>, outcome: (ClientView, Result<(), ProtocolError>)) -> Step {
    Step { state: outcome.0, fds, result: outcome.1 }
}

/// The request `op_code` with the argument area `args` on the object `id`.
/// A request on an id that is not bound is skipped. Otherwise the interface
/// of the object decides what the request means.
pub open spec fn dispatch(
    pre: ClientView,
    fds: Seq<i32>,
    globals: Seq<Global>,
    id: u32,
    op_code: u16,
    args: Seq<u8>,
) -> Step {
    match pre.kind(id) {
        None => keeping(fds, (pre, Ok(()))),
        Some(Interface::WlDisplay) => keeping(fds, display_message(pre, op_code, args, globals)),
        Some(Interface::WlRegistry) => keeping(fds, registry_message(pre, op_code, args, globals)),
        Some(Interface::WlShm) => {
            let outcome = shm_message(pre, id, op_code, args, fds);
            Step { state: outcome.0, fds: outcome.1, result: outcome.2 }
        },
        Some(Interface::WlShmPool) => keeping(fds, pool_message(pre, id, op_code, args)),
        Some(Interface::WlBuffer) => keeping(fds, (buffer_message(pre, id, op_code), Ok(()))),
        Some(Interface::WlCompositor) => keeping(fds, compositor_message(pre, op_code, args)),
        Some(Interface::WlSurface) => keeping(fds, surface_message(pre, id, op_code, args)),
        Some(Interface::WlCallback) => keeping(fds, (pre, Ok(()))),
        Some(Interface::WlRegion) => keeping(fds, (pre, Ok(()))),
        Some(Interface::XdgWmBase) => keeping(fds, (pre, Ok(()))),
        Some(Interface::WlOutput) => keeping(fds, (pre, Ok(()))),
    }
}

/// Why a request is passed over without a fault. The program around the
/// library logs it.
#[derive(Clone, Copy, Debug, PartialEq, Eq, Structural)]
pub enum Skipped {
    /// The request names an id that is not bound.
    UnknownObject { object_id: u32 },
    /// The interface of the target has no request of that opcode.
    UnknownOpcode { interface: Interface, op_code: u16 },
    /// A bind names a global that the table does not have.
    UnknownGlobal { name: u32 },
    /// A bind names a global that is of another interface than it says.
    OtherInterface { name: u32 },
}

/// Whether `interface` has a request of the opcode `op_code`.
pub open spec fn has_request(interface: Interface, op_code: u16) -> bool {
    match interface {
        Interface::WlDisplay => op_code <= 1,
        Interface::WlRegistry => op_code == 0,
        Interface::WlShm => op_code <= 1,
        Interface::WlShmPool => op_code <= 2,
        Interface::WlBuffer => op_code == 0,
        Interface::WlCompositor => op_code <= 1,
        Interface::WlSurface => op_code <= 10,
        Interface::WlCallback => false,
        Interface::WlRegion => false,
        Interface::XdgWmBase => false,
        Interface::WlOutput => false,
    }
}

/// Why the request `op_code` with the argument area `args` on the object
/// `id` is passed over, if it is: the id is not bound, the interface has no
/// such request, or a well-formed bind finds no global of its name and
/// interface.
pub open spec fn skip_reason(
    pre: ClientView,
    globals: Seq<Global>,
    id: u32,
    op_code: u16,
    args: Seq<u8>,
) -> Option<Skipped> {
    match pre.kind(id) {
        None => Some(Skipped::UnknownObject { object_id: id }),
        Some(interface) => if !has_request(interface, op_code) {
            Some(Skipped::UnknownOpcode { interface, op_code })
        } else if interface == Interface::WlRegistry {
            match bind_request(args) {
                None => None,
                Some(request) => if find_global(globals, request.name) is None {
                    Some(Skipped::UnknownGlobal { name: request.name })
                } else if bound_global(globals, request.name, request.interface) is None {
                    Some(Skipped::OtherInterface { name: request.name })
                } else {
                    None
                },
            }
        } else {
            None
        },
    }
}

/// Whether `interface` has a request of the opcode `op_code`.
pub fn interface_has_request(interface: Interface, op_code: u16) -> (has: bool)
    ensures
        has == has_request(interface, op_code),
{
    match interface {
        Interface::WlDisplay => op_code <= 1,
        Interface::WlRegistry => op_code == 0,
        Interface::WlShm => op_code <= 1,
        Interface::WlShmPool => op_code <= 2,
        Interface::WlBuffer => op_code == 0,
        Interface::WlCompositor => op_code <= 1,
        Interface::WlSurface => op_code <= 10,
        Interface::WlCallback => false,
        Interface::WlRegion => false,
        Interface::XdgWmBase => false,
        Interface::WlOutput => false,
    }
}

impl CompositorClientState {
    /// Tells why `handle_message` would pass this request over, if it
    /// would. To be asked before the request is handled.
    pub fn skipped(
        &self,
        object_id: u32,
        op_code: u16,
        arg_bytes: &[u8],
        global_state: &CompositorGlobalState,
    ) -> (reason: Option<Skipped>)
        ensures
            reason == skip_reason(
                self@,
                global_state.globals@,
                object_id,
                op_code,
                arg_bytes@,
            ),
    {
        let interface = match self.snapshot_kind(object_id) {
            None => {
                return Some(Skipped::UnknownObject { object_id });
            },
            Some(interface) => interface,
        };
        if !interface_has_request(interface, op_code) {
            return Some(Skipped::UnknownOpcode { interface, op_code });
        }
        match interface {
            Interface::WlRegistry => {},
            _ => {
                return None;
            },
        }
        let (name, interface_name, _version, _new_id) = match read_bind_request(arg_bytes) {
            None => {
                return None;
            },
            Some(request) => request,
        };
        if global_state.find(name).is_none() {
            return Some(Skipped::UnknownGlobal { name });
        }
        if find_bound_global(global_state, name, interface_name.as_slice()).is_none() {
            return Some(Skipped::OtherInterface { name });
        }
        None
    }

    /// Handles one request: `op_code` with the argument area `arg_bytes` on
    /// the object `object_id`. Descriptors that the request needs are taken
    /// from the front of `fds`; events and other effects are queued.
    pub fn handle_message(
        &mut self,
        object_id: u32,
        op_code: u16,
        arg_bytes: &[u8],
        fds: &mut VecDeque<i32>,
        global_state: &CompositorGlobalState,
    ) -> (result: Result<(), ProtocolError>)
        requires
            old(self).wf(),
        ensures
            final(self).wf(),
            (Step { state: final(self)@, fds: final(fds)@, result }) == dispatch(
                old(self)@,
                old(fds)@,
                global_state.globals@,
                object_id,
                op_code,
                arg_bytes@,
            ),
    {
        let kind = match self.snapshot_kind(object_id) {
            None => {
                return Ok(());
            },
            Some(kind) => kind,
        };
        match kind {
            Interface::WlDisplay => self.handle_wl_display_message(
                op_code,
                arg_bytes,
                global_state,
            ),
            Interface::WlRegistry => self.handle_wl_registry_message(
                op_code,
                arg_bytes,
                global_state,
            ),
            Interface::WlCallback => self.handle_wl_callback_message(op_code),
            Interface::WlShm => self.handle_wl_shm_message(object_id, op_code, arg_bytes, fds),
            Interface::WlShmPool => self.handle_wl_shm_pool_message(object_id, op_code, arg_bytes),
            Interface::WlBuffer => self.handle_wl_buffer_message(object_id, op_code),
            Interface::WlCompositor => self.handle_wl_compositor_message(op_code, arg_bytes),
            Interface::WlSurface => self.handle_wl_surface_message(object_id, op_code, arg_bytes),
            Interface::WlRegion => self.handle_wl_region_message(object_id, op_code, arg_bytes),
            Interface::XdgWmBase => self.handle_xdg_wm_base_message(object_id, op_code, arg_bytes),
            Interface::WlOutput => self.handle_wl_output_message(object_id, op_code, arg_bytes),
        }
    }
}

} // verus!
