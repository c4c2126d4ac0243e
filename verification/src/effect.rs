//! What a request leaves for the program around the library to carry out.

use crate::error::ProtocolError;
use crate::wire::{Message, MessageView};
use vstd::prelude::*;

verus! {

/// One thing to carry out on behalf of a client. Effects are carried out in
/// the order in which they were queued.
#[derive(Debug, PartialEq, Eq)]
pub enum Effect {
    /// Write this event to the client's socket.
    Event(Message),
    /// Map `size` bytes of `fd` read-write for the pool `pool_id` and keep
    /// them as `mapping`.
    MapPool { pool_id: u32, mapping: u64, fd: i32, size: u32 },
    /// Resize `mapping` to `new_size` bytes without moving it.
    ResizePool { mapping: u64, new_size: u32 },
    /// Nothing holds on to `mapping` any more: unmap it.
    ReleaseMapping { mapping: u64 },
}

/// An effect as a value of the model.
#[verifier::ext_equal]
pub enum EffectView {
    Event(MessageView),
    MapPool { pool_id: u32, mapping: u64, fd: i32, size: u32 },
    ResizePool { mapping: u64, new_size: u32 },
    ReleaseMapping { mapping: u64 },
}

impl View for Effect {
    type V = EffectView;

    open spec fn view(&self) -> EffectView {
        match self {
            Effect::Event(message) => EffectView::Event(message@),
            Effect::MapPool { pool_id, mapping, fd, size } => EffectView::MapPool {
                pool_id: *pool_id,
                mapping: *mapping,
                fd: *fd,
                size: *size,
            },
            Effect::ResizePool { mapping, new_size } => EffectView::ResizePool {
                mapping: *mapping,
                new_size: *new_size,
            },
            Effect::ReleaseMapping { mapping } => EffectView::ReleaseMapping { mapping: *mapping },
        }
    }
}

impl EffectView {
    /// The fault that ends the connection when the effect could not be
    /// carried out: a pool that cannot be mapped or resized. Failing to write
    /// an event or to unmap is no fault of the client's.
    pub open spec fn failure(self) -> Option<ProtocolError> {
        match self {
            EffectView::MapPool { .. } => Some(ProtocolError::MappingError),
            EffectView::ResizePool { .. } => Some(ProtocolError::ResizeFailed),
            _ => None,
        }
    }
}

/// The effects of a queue as values of the model.
pub open spec fn effects_view(effects: Seq<Effect>) -> Seq<EffectView> {
    Seq::new(effects.len(), |i: int| effects[i]@)
}

impl Effect {
    /// What becomes of the connection once the effect was tried: it goes on
    /// when the effect was carried out, and ends with `MappingError` or
    /// `ResizeFailed` when a pool could not be mapped or resized.
    pub fn outcome(&self, carried_out: bool) -> (result: Result<(), ProtocolError>)
        ensures
            result == (if carried_out || self@.failure() is None {
                Ok::<(), ProtocolError>(())
            } else {
                Err::<(), ProtocolError>(self@.failure()->0)
            }),
    {
        if carried_out {
            return Ok(());
        }
        match self {
            Effect::MapPool { .. } => Err(ProtocolError::MappingError),
            Effect::ResizePool { .. } => Err(ProtocolError::ResizeFailed),
            _ => Ok(()),
        }
    }
}

} // verus!
