//! The kinds of protocol object and the state each kind carries.

use crate::wl_buffer::BufferState;
use crate::wl_surface::{SurfaceState, SurfaceView};
use vstd::prelude::*;
use vstd::string::{is_ascii, is_ascii_spec_bytes, StringSliceAdditionalSpecFns};

verus! {

/// The interface of an object: the tag by which requests are routed.
#[derive(Clone, Copy, Debug, PartialEq, Eq, Structural)]
pub enum Interface {
    WlDisplay,
    WlRegistry,
    XdgWmBase,
    WlShmPool,
    WlCompositor,
    WlCallback,
    WlShm,
    WlBuffer,
    WlSurface,
    WlRegion,
    WlOutput,
}

impl Interface {
    /// The name under which the interface goes on the wire.
    pub open spec fn name(self) -> &'static str {
        match self {
            Interface::WlDisplay => "wl_display",
            Interface::WlRegistry => "wl_registry",
            Interface::WlCallback => "wl_callback",
            Interface::XdgWmBase => "xdg_wm_base",
            Interface::WlShmPool => "wl_shm_pool",
            Interface::WlShm => "wl_shm",
            Interface::WlBuffer => "wl_buffer",
            Interface::WlCompositor => "wl_compositor",
            Interface::WlSurface => "wl_surface",
            Interface::WlRegion => "wl_region",
            Interface::WlOutput => "wl_output",
        }
    }

    /// The name under which the interface goes on the wire.
    pub fn as_str(self) -> (name: &'static str)
        ensures
            name == self.name(),
    {
        match self {
            Interface::WlDisplay => "wl_display",
            Interface::WlRegistry => "wl_registry",
            Interface::WlCallback => "wl_callback",
            Interface::XdgWmBase => "xdg_wm_base",
            Interface::WlShmPool => "wl_shm_pool",
            Interface::WlShm => "wl_shm",
            Interface::WlBuffer => "wl_buffer",
            Interface::WlCompositor => "wl_compositor",
            Interface::WlSurface => "wl_surface",
            Interface::WlRegion => "wl_region",
            Interface::WlOutput => "wl_output",
        }
    }
}

/// Every interface name is plain ASCII of 6 to 13 characters, so its bytes
/// on the wire are its characters.
pub proof fn lemma_interface_name(interface: Interface)
    ensures
        is_ascii(interface.name()),
        interface.name().spec_bytes().len() == interface.name()@.len(),
        6 <= interface.name()@.len() <= 13,
{
    reveal_strlit("wl_display");
    reveal_strlit("wl_registry");
    reveal_strlit("wl_callback");
    reveal_strlit("xdg_wm_base");
    reveal_strlit("wl_shm_pool");
    reveal_strlit("wl_shm");
    reveal_strlit("wl_buffer");
    reveal_strlit("wl_compositor");
    reveal_strlit("wl_surface");
    reveal_strlit("wl_region");
    reveal_strlit("wl_output");
    is_ascii_spec_bytes(interface.name());
}

/// An object of a client, with the state of its kind.
#[derive(Debug, PartialEq, Eq)]
pub enum WaylandObject {
    WlDisplay,
    WlRegistry,
    XdgWmBase,
    /// A pool: the mapping it holds on to, and the descriptor it was made of.
    WlShmPool(u64, i32),
    WlCompositor,
    WlCallback,
    WlShm,
    WlBuffer(BufferState),
    WlSurface(SurfaceState),
    WlRegion,
    WlOutput,
}

/// An object as a value of the model.
#[verifier::ext_equal]
pub enum ObjectView {
    WlDisplay,
    WlRegistry,
    XdgWmBase,
    WlShmPool(u64, i32),
    WlCompositor,
    WlCallback,
    WlShm,
    WlBuffer(BufferState),
    WlSurface(SurfaceView),
    WlRegion,
    WlOutput,
}

impl ObjectView {
    pub open spec fn interface(self) -> Interface {
        match self {
            ObjectView::WlDisplay => Interface::WlDisplay,
            ObjectView::WlRegistry => Interface::WlRegistry,
            ObjectView::XdgWmBase => Interface::XdgWmBase,
            ObjectView::WlShmPool(_, _) => Interface::WlShmPool,
            ObjectView::WlCompositor => Interface::WlCompositor,
            ObjectView::WlCallback => Interface::WlCallback,
            ObjectView::WlShm => Interface::WlShm,
            ObjectView::WlBuffer(_) => Interface::WlBuffer,
            ObjectView::WlSurface(_) => Interface::WlSurface,
            ObjectView::WlRegion => Interface::WlRegion,
            ObjectView::WlOutput => Interface::WlOutput,
        }
    }

    /// The mapping that the object holds on to: pools and buffers hold one.
    pub open spec fn mapping(self) -> Option<u64> {
        match self {
            ObjectView::WlShmPool(mapping, _) => Some(mapping),
            ObjectView::WlBuffer(buffer) => Some(buffer.shm_pool),
            _ => None,
        }
    }
}

impl View for WaylandObject {
    type V = ObjectView;

    open spec fn view(&self) -> ObjectView {
        match self {
            WaylandObject::WlDisplay => ObjectView::WlDisplay,
            WaylandObject::WlRegistry => ObjectView::WlRegistry,
            WaylandObject::XdgWmBase => ObjectView::XdgWmBase,
            WaylandObject::WlShmPool(mapping, fd) => ObjectView::WlShmPool(*mapping, *fd),
            WaylandObject::WlCompositor => ObjectView::WlCompositor,
            WaylandObject::WlCallback => ObjectView::WlCallback,
            WaylandObject::WlShm => ObjectView::WlShm,
            WaylandObject::WlBuffer(buffer) => ObjectView::WlBuffer(*buffer),
            WaylandObject::WlSurface(surface) => ObjectView::WlSurface(surface@),
            WaylandObject::WlRegion => ObjectView::WlRegion,
            WaylandObject::WlOutput => ObjectView::WlOutput,
        }
    }
}

impl WaylandObject {
    /// The interface of the object.
    pub fn interface(&self) -> (interface: Interface)
        ensures
            interface == self@.interface(),
    {
        match self {
            WaylandObject::WlDisplay => Interface::WlDisplay,
            WaylandObject::WlRegistry => Interface::WlRegistry,
            WaylandObject::XdgWmBase => Interface::XdgWmBase,
            WaylandObject::WlShmPool(_, _) => Interface::WlShmPool,
            WaylandObject::WlCompositor => Interface::WlCompositor,
            WaylandObject::WlCallback => Interface::WlCallback,
            WaylandObject::WlShm => Interface::WlShm,
            WaylandObject::WlBuffer(_) => Interface::WlBuffer,
            WaylandObject::WlSurface(_) => Interface::WlSurface,
            WaylandObject::WlRegion => Interface::WlRegion,
            WaylandObject::WlOutput => Interface::WlOutput,
        }
    }

    /// The name of the object's interface.
    pub fn as_str(&self) -> (name: &'static str)
        ensures
            name == self@.interface().name(),
    {
        self.interface().as_str()
    }

    /// The mapping that the object holds on to, if it holds one.
    pub fn mapping(&self) -> (mapping: Option<u64>)
        ensures
            mapping == self@.mapping(),
    {
        match self {
            WaylandObject::WlShmPool(mapping, _) => Some(*mapping),
            WaylandObject::WlBuffer(buffer) => Some(buffer.shm_pool),
            _ => None,
        }
    }
}

} // verus!
