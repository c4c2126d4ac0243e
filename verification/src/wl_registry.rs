//! The registry interface: announcing globals and binding to them.

use crate::client::{ClientView, CompositorClientState};
use crate::error::ProtocolError;
use crate::globals::{find_global, CompositorGlobalState, Global};
use crate::object::{Interface, ObjectView, WaylandObject};
use crate::utils::get_wayland_string_bytes;
use crate::wire::{
    bytes_equal, lemma_wayland_string_len, put_bytes, put_u32, read_string, read_u32, string_at,
    u32_at, u32_le, utf8_valid, wayland_string, MessageView, MAX_ARGS_LEN,
};
use crate::wl_shm::{advertise_formats, WlShmFormat};
use vstd::prelude::*;
use vstd::string::StringSliceAdditionalSpecFns;
use vstd::utf8::valid_utf8;

verus! {

/// The arguments of `registry.global(name, interface, version)`.
pub open spec fn global_args(name: u32, interface: Seq<u8>, version: u32) -> Seq<u8> {
    u32_le(name) + wayland_string(interface) + u32_le(version)
}

/// The event that tells the registry `registry_id` of `global`.
pub open spec fn global_event(registry_id: u32, global: Global) -> MessageView {
    MessageView {
        object_id: registry_id,
        op_code: 0,
        args: global_args(global.0, global.1.name().spec_bytes(), global.2),
    }
}

/// What binding creates for a global of `interface`: an object of that
/// interface for the three kinds a client can bind to, nothing for the rest.
pub open spec fn bindable(interface: Interface) -> Option<ObjectView> {
    match interface {
        Interface::WlShm => Some(ObjectView::WlShm),
        Interface::XdgWmBase => Some(ObjectView::XdgWmBase),
        Interface::WlCompositor => Some(ObjectView::WlCompositor),
        _ => None,
    }
}

/// The arguments of a `bind` request.
pub struct BindRequest {
    /// The name of the global to bind to.
    pub name: u32,
    /// The interface that the client takes the global to have.
    pub interface: Seq<u8>,
    pub version: u32,
    /// The id to bind the new object under.
    pub new_id: u32,
}

/// The `bind` request that an argument area holds: a name, a string that is
/// well-formed UTF-8, a version and a new id. Nothing where one of them is
/// missing or the string is not well formed.
pub open spec fn bind_request(args: Seq<u8>) -> Option<BindRequest> {
    if args.len() < 4 {
        None
    } else {
        match string_at(args, 4) {
            None => None,
            Some((interface, next)) => if !valid_utf8(interface) || next + 8 > args.len() {
                None
            } else {
                Some(
                    BindRequest {
                        name: u32_at(args, 0),
                        interface,
                        version: u32_at(args, next),
                        new_id: u32_at(args, next + 4),
                    },
                )
            },
        }
    }
}

/// The global that a `bind` to `name` as `interface` means: the first of
/// that name, if it is of that interface.
pub open spec fn bound_global(globals: Seq<Global>, name: u32, interface: Seq<u8>) -> Option<
    Global,
> {
    match find_global(globals, name) {
        None => None,
        Some(global) => if interface == global.1.name().spec_bytes() {
            Some(global)
        } else {
            None
        },
    }
}

/// `bind(name, interface, version, new_id)`. An argument area that holds no
/// such request is a `MalformedFrame`. Where the table has no global called
/// `name`, or the one it has is of another interface than the request
/// says, nothing happens. Otherwise an object of the global's interface is
/// bound under `new_id`; a new shm object is told the formats at once. A
/// global that cannot be bound to is a `ProtocolViolation`, a `new_id` that
/// is already bound an `InvalidObject`.
pub open spec fn registry_bind(pre: ClientView, args: Seq<u8>, globals: Seq<Global>) -> (
    ClientView,
    Result<(), ProtocolError>,
) {
    match bind_request(args) {
        None => (pre, Err(ProtocolError::MalformedFrame)),
        Some(request) => match bound_global(globals, request.name, request.interface) {
            None => (pre, Ok(())),
            Some(global) => match bindable(global.1) {
                None => (pre, Err(ProtocolError::ProtocolViolation)),
                Some(object) => if pre.objects.contains_key(request.new_id) {
                    (pre, Err(ProtocolError::InvalidObject))
                } else if global.1 == Interface::WlShm {
                    (
                        advertise_formats(pre.install(request.new_id, object), request.new_id),
                        Ok(()),
                    )
                } else {
                    (pre.install(request.new_id, object), Ok(()))
                },
            },
        },
    }
}

/// Reads the `bind` request that an argument area holds: name, interface,
/// version and new id.
pub fn read_bind_request(arg_bytes: &[u8]) -> (request: Option<(u32, Vec<u8>, u32, u32)>)
    ensures
        match request {
            Some((name, interface, version, new_id)) => bind_request(arg_bytes@) == Some(
                BindRequest { name, interface: interface@, version, new_id },
            ),
            None => bind_request(arg_bytes@) is None,
        },
{
    let name = match read_u32(arg_bytes, 0) {
        None => {
            return None;
        },
        Some(name) => name,
    };
    let (interface, next) = match read_string(arg_bytes, 4) {
        None => {
            return None;
        },
        Some(found) => found,
    };
    if !utf8_valid(interface.as_slice()) {
        return None;
    }
    if arg_bytes.len() - next < 8 {
        return None;
    }
    let version = read_u32(arg_bytes, next).unwrap();
    let new_id = read_u32(arg_bytes, next + 4).unwrap();
    Some((name, interface, version, new_id))
}

/// The global that a `bind` request for `name` and `interface` means.
pub fn find_bound_global(global_state: &CompositorGlobalState, name: u32, interface: &[u8]) -> (
    found: Option<Global>)
    ensures
        found == bound_global(global_state.globals@, name, interface@),
{
    match global_state.find(name) {
        None => None,
        Some(global) => if bytes_equal(interface, global.1.as_str().as_bytes()) {
            Some(global)
        } else {
            None
        },
    }
}

/// A request on a registry by its opcode. An opcode that the interface does
/// not have is ignored.
pub open spec fn registry_message(
    pre: ClientView,
    op_code: u16,
    args: Seq<u8>,
    globals: Seq<Global>,
) -> (ClientView, Result<(), ProtocolError>) {
    if op_code == 0 {
        registry_bind(pre, args, globals)
    } else {
        (pre, Ok(()))
    }
}

impl CompositorClientState {
    /// Routes a request on a registry by its opcode.
    pub fn handle_wl_registry_message(
        &mut self,
        op_code: u16,
        arg_bytes: &[u8],
        global_state: &CompositorGlobalState,
    ) -> (result: Result<(), ProtocolError>)
        requires
            old(self).wf(),
        ensures
            final(self).wf(),
            final(self)@ == registry_message(
                old(self)@,
                op_code,
                arg_bytes@,
                global_state.globals@,
            ).0,
            result == registry_message(old(self)@, op_code, arg_bytes@, global_state.globals@).1,
    {
        match op_code {
            0 => self.handle_wl_registry_bind(arg_bytes, global_state),
            _ => Ok(()),
        }
    }

    /// `bind(name, interface, version, new_id)`.
    pub fn handle_wl_registry_bind(
        &mut self,
        arg_bytes: &[u8],
        global_state: &CompositorGlobalState,
    ) -> (result: Result<(), ProtocolError>)
        requires
            old(self).wf(),
        ensures
            final(self).wf(),
            final(self)@ == registry_bind(old(self)@, arg_bytes@, global_state.globals@).0,
            result == registry_bind(old(self)@, arg_bytes@, global_state.globals@).1,
    {
        let (name, interface, _version, new_id) = match read_bind_request(arg_bytes) {
            None => {
                return Err(ProtocolError::MalformedFrame);
            },
            Some(request) => request,
        };
        let global = match find_bound_global(global_state, name, interface.as_slice()) {
            None => {
                return Ok(());
            },
            Some(global) => global,
        };
        let object = match global.1 {
            Interface::WlShm => WaylandObject::WlShm,
            Interface::XdgWmBase => WaylandObject::XdgWmBase,
            Interface::WlCompositor => WaylandObject::WlCompositor,
            _ => {
                return Err(ProtocolError::ProtocolViolation);
            },
        };
        match self.install(new_id, object) {
            Err(e) => {
                return Err(e);
            },
            Ok(()) => {},
        }
        match global.1 {
            Interface::WlShm => {
                let first = self.send_format(new_id, WlShmFormat::Argb8888.as_u32());
                let second = self.send_format(new_id, WlShmFormat::Rgb888.as_u32());
            },
            _ => {},
        }
        Ok(())
    }

    /// Queues `registry.global(name, interface, version)` on `registry_id`.
    /// An interface name too long for one frame is refused with
    /// `MalformedFrame`.
    pub fn send_global(&mut self, registry_id: u32, name: u32, interface: &str, version: u32) -> (
        result: Result<(), ProtocolError>)
        requires
            old(self).wf(),
        ensures
            final(self).wf(),
            result == (if global_args(name, interface.spec_bytes(), version).len()
                <= MAX_ARGS_LEN {
                Ok(())
            } else {
                Err(ProtocolError::MalformedFrame)
            }),
            final(self)@ == (if result is Ok {
                old(self)@.send(registry_id, 0, global_args(name, interface.spec_bytes(), version))
            } else {
                old(self)@
            }),
    {
        let text = interface.as_bytes();
        proof {
            lemma_wayland_string_len(interface.spec_bytes());
        }
        if text.len() > MAX_ARGS_LEN {
            return Err(ProtocolError::MalformedFrame);
        }
        let mut args: Vec<u8> = Vec::new();
        put_u32(&mut args, name);
        let string_bytes = get_wayland_string_bytes(interface);
        put_bytes(&mut args, string_bytes.as_slice());
        put_u32(&mut args, version);
        assert(args@ =~= global_args(name, interface.spec_bytes(), version));
        self.send_message(registry_id, 0, args.as_slice())
    }
}

} // verus!
