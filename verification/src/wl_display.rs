//! The display interface: the object every client starts with.

use crate::client::{ClientView, CompositorClientState};
use crate::effect::EffectView;
use crate::error::{lemma_error_message, ProtocolError};
use crate::globals::{CompositorGlobalState, Global};
use crate::object::{lemma_interface_name, ObjectView, WaylandObject};
use crate::utils::get_wayland_string_bytes;
use crate::wire::{
    lemma_wayland_string_len, put_bytes, put_u32, read_u32, u32_at, u32_le, wayland_string,
    MAX_ARGS_LEN,
};
use crate::wl_registry::global_event;
use vstd::prelude::*;
use vstd::string::StringSliceAdditionalSpecFns;

verus! {

/// The arguments of `display.error(object, code, message)`.
pub open spec fn error_args(object_id: u32, code: u32, message: Seq<u8>) -> Seq<u8> {
    u32_le(object_id) + u32_le(code) + wayland_string(message)
}

/// The state with `registry.global` queued on `registry_id` for each of
/// `globals`, in the order of the table.
pub open spec fn announce(pre: ClientView, registry_id: u32, globals: Seq<Global>) -> ClientView {
    ClientView {
        outbox: pre.outbox + globals.map_values(
            |global: Global| EffectView::Event(global_event(registry_id, global)),
        ),
        ..pre
    }
}

/// The state once `error` on the object `object_id` was reported.
pub open spec fn reported(pre: ClientView, object_id: u32, error: ProtocolError) -> ClientView {
    if error.fatal() {
        pre.send(
            1,
            0,
            error_args(object_id, error.error_code(), error.message().spec_bytes()),
        )
    } else {
        pre
    }
}

/// `sync(new_id)`: a callback is bound under `new_id` and completed at once.
pub open spec fn display_sync(pre: ClientView, args: Seq<u8>) -> (
    ClientView,
    Result<(), ProtocolError>,
) {
    if args.len() < 4 {
        (pre, Err(ProtocolError::MalformedFrame))
    } else if pre.objects.contains_key(u32_at(args, 0)) {
        (pre, Err(ProtocolError::InvalidObject))
    } else {
        (
            pre.install(u32_at(args, 0), ObjectView::WlCallback).send(
                u32_at(args, 0),
                0,
                u32_le(0),
            ),
            Ok(()),
        )
    }
}

/// `get_registry(new_id)`: a registry is bound under `new_id` and told of
/// every global.
pub open spec fn display_get_registry(pre: ClientView, args: Seq<u8>, globals: Seq<Global>) -> (
    ClientView,
    Result<(), ProtocolError>,
) {
    if args.len() < 4 {
        (pre, Err(ProtocolError::MalformedFrame))
    } else if pre.objects.contains_key(u32_at(args, 0)) {
        (pre, Err(ProtocolError::InvalidObject))
    } else {
        (
            announce(
                pre.install(u32_at(args, 0), ObjectView::WlRegistry),
                u32_at(args, 0),
                globals,
            ),
            Ok(()),
        )
    }
}

/// A request on the display by its opcode. An opcode that the interface does
/// not have is ignored.
pub open spec fn display_message(
    pre: ClientView,
    op_code: u16,
    args: Seq<u8>,
    globals: Seq<Global>,
) -> (ClientView, Result<(), ProtocolError>) {
    if op_code == 0 {
        display_sync(pre, args)
    } else if op_code == 1 {
        display_get_registry(pre, args, globals)
    } else {
        (pre, Ok(()))
    }
}

impl CompositorClientState {
    /// Routes a request on the display by its opcode.
    pub fn handle_wl_display_message(
        &mut self,
        op_code: u16,
        arg_bytes: &[u8],
        global_state: &CompositorGlobalState,
    ) -> (result: Result<(), ProtocolError>)
        requires
            old(self).wf(),
        ensures
            final(self).wf(),
            final(self)@ == display_message(
                old(self)@,
                op_code,
                arg_bytes@,
                global_state.globals@,
            ).0,
            result == display_message(old(self)@, op_code, arg_bytes@, global_state.globals@).1,
    {
        match op_code {
            0 => self.handle_wl_display_sync(arg_bytes),
            1 => self.handle_wl_display_get_registry(arg_bytes, global_state),
            _ => Ok(()),
        }
    }

    /// `sync(new_id)`.
    pub fn handle_wl_display_sync(&mut self, arg_bytes: &[u8]) -> (result: Result<
        (),
        ProtocolError,
    >)
        requires
            old(self).wf(),
        ensures
            final(self).wf(),
            final(self)@ == display_sync(old(self)@, arg_bytes@).0,
            result == display_sync(old(self)@, arg_bytes@).1,
    {
        let new_id = match read_u32(arg_bytes, 0) {
            None => {
                return Err(ProtocolError::MalformedFrame);
            },
            Some(id) => id,
        };
        match self.install(new_id, WaylandObject::WlCallback) {
            Err(e) => {
                return Err(e);
            },
            Ok(()) => {},
        }
        self.send_callback_done(new_id, 0)
    }

    /// `get_registry(new_id)`.
    pub fn handle_wl_display_get_registry(
        &mut self,
        arg_bytes: &[u8],
        global_state: &CompositorGlobalState,
    ) -> (result: Result<(), ProtocolError>)
        requires
            old(self).wf(),
        ensures
            final(self).wf(),
            final(self)@ == display_get_registry(old(self)@, arg_bytes@, global_state.globals@).0,
            result == display_get_registry(old(self)@, arg_bytes@, global_state.globals@).1,
    {
        let new_id = match read_u32(arg_bytes, 0) {
            None => {
                return Err(ProtocolError::MalformedFrame);
            },
            Some(id) => id,
        };
        match self.install(new_id, WaylandObject::WlRegistry) {
            Err(e) => {
                return Err(e);
            },
            Ok(()) => {},
        }
        let ghost bound = self@;
        let ghost globals = global_state.globals@;
        assert(self@ =~= announce(bound, new_id, globals.subrange(0, 0)));
        let mut i: usize = 0;
        while i < global_state.globals.len()
            invariant
                i <= globals.len(),
                globals == global_state.globals@,
                self.wf(),
                self@ == announce(bound, new_id, globals.subrange(0, i as int)),
            decreases globals.len() - i,
        {
            let global = global_state.globals[i];
            proof {
                lemma_interface_name(global.1);
                lemma_wayland_string_len(global.1.name().spec_bytes());
            }
            let sent = self.send_global(new_id, global.0, global.1.as_str(), global.2);
            i += 1;
            assert(self@ =~= announce(bound, new_id, globals.subrange(0, i as int)));
        }
        assert(globals.subrange(0, i as int) =~= globals);
        Ok(())
    }

    /// Queues `display.error(object_id, code, message)` on the display. A
    /// message too long for one frame is refused with `MalformedFrame`.
    pub fn send_wl_display_error(&mut self, object_id: u32, code: u32, message: &str) -> (result:
        Result<(), ProtocolError>)
        requires
            old(self).wf(),
        ensures
            final(self).wf(),
            result == (if error_args(object_id, code, message.spec_bytes()).len() <= MAX_ARGS_LEN {
                Ok(())
            } else {
                Err(ProtocolError::MalformedFrame)
            }),
            final(self)@ == (if result is Ok {
                old(self)@.send(1, 0, error_args(object_id, code, message.spec_bytes()))
            } else {
                old(self)@
            }),
    {
        let text = message.as_bytes();
        proof {
            lemma_wayland_string_len(message.spec_bytes());
        }
        if text.len() > MAX_ARGS_LEN {
            return Err(ProtocolError::MalformedFrame);
        }
        let mut args: Vec<u8> = Vec::new();
        put_u32(&mut args, object_id);
        put_u32(&mut args, code);
        let string_bytes = get_wayland_string_bytes(message);
        put_bytes(&mut args, string_bytes.as_slice());
        assert(args@ =~= error_args(object_id, code, message.spec_bytes()));
        self.send_message(1, 0, args.as_slice())
    }

    /// Reports the fault that ends the connection: `display.error` with the
    /// object at fault, the code of the fault and its message is queued.
    /// After the peer has closed the stream there is nobody to tell, and
    /// nothing is queued.
    pub fn report_error(&mut self, object_id: u32, error: ProtocolError)
        requires
            old(self).wf(),
        ensures
            final(self).wf(),
            final(self)@ == reported(old(self)@, object_id, error),
    {
        if !error.is_fatal() {
            return ;
        }
        proof {
            lemma_error_message(error);
            lemma_wayland_string_len(error.message().spec_bytes());
        }
        let sent = self.send_wl_display_error(object_id, error.code(), error.as_str());
    }

    /// Queues `display.delete_id(id)` on the display.
    pub fn send_wl_display_delete_id(&mut self, id: u32) -> (result: Result<(), ProtocolError>)
        requires
            old(self).wf(),
        ensures
            final(self).wf(),
            final(self)@ == old(self)@.send(1, 1, u32_le(id)),
            result == Ok::<(), ProtocolError>(()),
    {
        let mut args: Vec<u8> = Vec::new();
        put_u32(&mut args, id);
        self.send_message(1, 1, args.as_slice())
    }
}

} // verus!
