//! The surface interface: double-buffered state and the commit that applies it.

use crate::client::{ClientView, CompositorClientState};
use crate::effect::EffectView;
use crate::error::ProtocolError;
use crate::object::{Interface, ObjectView, WaylandObject};
use crate::wire::{i32_at, i32_le, put_i32, put_u32, read_i32, read_u32, u32_at, u32_le};
use crate::wl_callback::done_event;
use crate::wl_output::WlOutputTransform;
use vstd::prelude::*;

verus! {

/// A damage rectangle: x, y, width, height.
pub type Rect = (i32, i32, i32, i32);

/// A surface. Each attribute has a pending slot that requests write and a
/// current slot that only a commit writes.
#[derive(Debug, PartialEq, Eq)]
pub struct SurfaceState {
    pub pending_buffer: Option<u32>,
    pub current_buffer: Option<u32>,
    pub pending_surface_damage: Vec<Rect>,
    pub current_surface_damage: Vec<Rect>,
    pub pending_buffer_damage: Vec<Rect>,
    pub current_buffer_damage: Vec<Rect>,
    pub pending_opaque_region: Option<u32>,
    pub current_opaque_region: Option<u32>,
    pub pending_input_region: Option<u32>,
    pub current_input_region: Option<u32>,
    pub pending_transform: WlOutputTransform,
    pub current_transform: WlOutputTransform,
    pub pending_scale: i32,
    pub current_scale: i32,
    pub pending_offset: (i32, i32),
    pub current_offset: (i32, i32),
    /// The callbacks to complete at the next commit, oldest first.
    pub frame_callbacks: Vec<u32>,
}

/// A surface as a value of the model.
#[verifier::ext_equal]
pub struct SurfaceView {
    pub pending_buffer: Option<u32>,
    pub current_buffer: Option<u32>,
    pub pending_surface_damage: Seq<Rect>,
    pub current_surface_damage: Seq<Rect>,
    pub pending_buffer_damage: Seq<Rect>,
    pub current_buffer_damage: Seq<Rect>,
    pub pending_opaque_region: Option<u32>,
    pub current_opaque_region: Option<u32>,
    pub pending_input_region: Option<u32>,
    pub current_input_region: Option<u32>,
    pub pending_transform: WlOutputTransform,
    pub current_transform: WlOutputTransform,
    pub pending_scale: i32,
    pub current_scale: i32,
    pub pending_offset: (i32, i32),
    pub current_offset: (i32, i32),
    pub frame_callbacks: Seq<u32>,
}

impl View for SurfaceState {
    type V = SurfaceView;

    open spec fn view(&self) -> SurfaceView {
        SurfaceView {
            pending_buffer: self.pending_buffer,
            current_buffer: self.current_buffer,
            pending_surface_damage: self.pending_surface_damage@,
            current_surface_damage: self.current_surface_damage@,
            pending_buffer_damage: self.pending_buffer_damage@,
            current_buffer_damage: self.current_buffer_damage@,
            pending_opaque_region: self.pending_opaque_region,
            current_opaque_region: self.current_opaque_region,
            pending_input_region: self.pending_input_region,
            current_input_region: self.current_input_region,
            pending_transform: self.pending_transform,
            current_transform: self.current_transform,
            pending_scale: self.pending_scale,
            current_scale: self.current_scale,
            pending_offset: self.pending_offset,
            current_offset: self.current_offset,
            frame_callbacks: self.frame_callbacks@,
        }
    }
}

impl SurfaceView {
    /// A surface as it is created: nothing attached, no damage, no regions,
    /// the normal transform, scale 1, offset (0, 0), no callbacks.
    pub open spec fn fresh() -> SurfaceView {
        SurfaceView {
            pending_buffer: None,
            current_buffer: None,
            pending_surface_damage: Seq::empty(),
            current_surface_damage: Seq::empty(),
            pending_buffer_damage: Seq::empty(),
            current_buffer_damage: Seq::empty(),
            pending_opaque_region: None,
            current_opaque_region: None,
            pending_input_region: None,
            current_input_region: None,
            pending_transform: WlOutputTransform::Normal,
            current_transform: WlOutputTransform::Normal,
            pending_scale: 1,
            current_scale: 1,
            pending_offset: (0, 0),
            current_offset: (0, 0),
            frame_callbacks: Seq::empty(),
        }
    }

    pub open spec fn attach(self, buffer: u32) -> SurfaceView {
        SurfaceView { pending_buffer: Some(buffer), ..self }
    }

    pub open spec fn damage(self, rect: Rect) -> SurfaceView {
        SurfaceView { pending_surface_damage: self.pending_surface_damage.push(rect), ..self }
    }

    pub open spec fn damage_buffer(self, rect: Rect) -> SurfaceView {
        SurfaceView { pending_buffer_damage: self.pending_buffer_damage.push(rect), ..self }
    }

    pub open spec fn frame(self, callback: u32) -> SurfaceView {
        SurfaceView { frame_callbacks: self.frame_callbacks.push(callback), ..self }
    }

    pub open spec fn set_opaque_region(self, region: u32) -> SurfaceView {
        SurfaceView { pending_opaque_region: Some(region), ..self }
    }

    pub open spec fn set_input_region(self, region: u32) -> SurfaceView {
        SurfaceView { pending_input_region: Some(region), ..self }
    }

    pub open spec fn set_buffer_transform(self, transform: WlOutputTransform) -> SurfaceView {
        SurfaceView { pending_transform: transform, ..self }
    }

    pub open spec fn set_buffer_scale(self, scale: i32) -> SurfaceView {
        SurfaceView { pending_scale: scale, ..self }
    }

    pub open spec fn set_offset(self, x: i32, y: i32) -> SurfaceView {
        SurfaceView { pending_offset: (x, y), ..self }
    }

    /// The surface after a commit: every current slot holds what its pending
    /// slot held, the pending damage lists are empty, the other pending slots
    /// keep their value, and no callback is waiting.
    pub open spec fn commit(self) -> SurfaceView {
        SurfaceView {
            pending_buffer: self.pending_buffer,
            current_buffer: self.pending_buffer,
            pending_surface_damage: Seq::empty(),
            current_surface_damage: self.pending_surface_damage,
            pending_buffer_damage: Seq::empty(),
            current_buffer_damage: self.pending_buffer_damage,
            pending_opaque_region: self.pending_opaque_region,
            current_opaque_region: self.pending_opaque_region,
            pending_input_region: self.pending_input_region,
            current_input_region: self.pending_input_region,
            pending_transform: self.pending_transform,
            current_transform: self.pending_transform,
            pending_scale: self.pending_scale,
            current_scale: self.pending_scale,
            pending_offset: self.pending_offset,
            current_offset: self.pending_offset,
            frame_callbacks: Seq::empty(),
        }
    }

    /// The scale that a consumer of the current state applies: a value that
    /// is not positive counts as 1.
    pub open spec fn effective_scale(self) -> i32 {
        if self.current_scale <= 0 {
            1
        } else {
            self.current_scale
        }
    }

    /// The current slots alone: what only a commit can change.
    pub open spec fn current(self) -> (
        Option<u32>,
        Seq<Rect>,
        Seq<Rect>,
        Option<u32>,
        Option<u32>,
        WlOutputTransform,
        i32,
        (i32, i32),
    ) {
        (
            self.current_buffer,
            self.current_surface_damage,
            self.current_buffer_damage,
            self.current_opaque_region,
            self.current_input_region,
            self.current_transform,
            self.current_scale,
            self.current_offset,
        )
    }
}

impl SurfaceState {
    /// A new surface.
    pub fn new() -> (surface: SurfaceState)
        ensures
            surface@ == SurfaceView::fresh(),
    {
        SurfaceState {
            pending_buffer: None,
            current_buffer: None,
            pending_surface_damage: Vec::new(),
            current_surface_damage: Vec::new(),
            pending_buffer_damage: Vec::new(),
            current_buffer_damage: Vec::new(),
            pending_opaque_region: None,
            current_opaque_region: None,
            pending_input_region: None,
            current_input_region: None,
            pending_transform: WlOutputTransform::Normal,
            current_transform: WlOutputTransform::Normal,
            pending_scale: 1,
            current_scale: 1,
            pending_offset: (0, 0),
            current_offset: (0, 0),
            frame_callbacks: Vec::new(),
        }
    }

    /// Applies the pending state and hands out the callbacks that were
    /// waiting for this commit, oldest first.
    pub fn commit(&mut self) -> (callbacks: Vec<u32>)
        ensures
            final(self)@ == old(self)@.commit(),
            callbacks@ == old(self)@.frame_callbacks,
    {
        let mut surface_damage: Vec<Rect> = Vec::new();
        let mut buffer_damage: Vec<Rect> = Vec::new();
        let mut callbacks: Vec<u32> = Vec::new();
        core::mem::swap(&mut surface_damage, &mut self.pending_surface_damage);
        core::mem::swap(&mut buffer_damage, &mut self.pending_buffer_damage);
        core::mem::swap(&mut callbacks, &mut self.frame_callbacks);
        self.current_buffer = self.pending_buffer;
        self.current_surface_damage = surface_damage;
        self.current_buffer_damage = buffer_damage;
        self.current_opaque_region = self.pending_opaque_region;
        self.current_input_region = self.pending_input_region;
        self.current_transform = self.pending_transform;
        self.current_scale = self.pending_scale;
        self.current_offset = self.pending_offset;
        callbacks
    }

    /// The scale to apply to the current buffer: the committed scale, or 1
    /// where that is not positive.
    pub fn buffer_scale(&self) -> (scale: i32)
        ensures
            scale == self@.effective_scale(),
    {
        if self.current_scale <= 0 {
            1
        } else {
            self.current_scale
        }
    }
}

impl Default for SurfaceState {
    fn default() -> (surface: SurfaceState)
        ensures
            surface@ == SurfaceView::fresh(),
    {
        SurfaceState::new()
    }
}

/// A commit copies every pending slot to its current slot and leaves the
/// pending damage lists empty.
pub proof fn lemma_commit_copies_pending(s: SurfaceView)
    ensures
        s.commit().current_buffer == s.pending_buffer,
        s.commit().current_surface_damage == s.pending_surface_damage,
        s.commit().current_buffer_damage == s.pending_buffer_damage,
        s.commit().current_opaque_region == s.pending_opaque_region,
        s.commit().current_input_region == s.pending_input_region,
        s.commit().current_transform == s.pending_transform,
        s.commit().current_scale == s.pending_scale,
        s.commit().current_offset == s.pending_offset,
        s.commit().pending_surface_damage.len() == 0,
        s.commit().pending_buffer_damage.len() == 0,
        s.commit().frame_callbacks.len() == 0,
{
}

/// A second commit right after a first changes nothing, provided the first
/// one had no damage to apply.
pub proof fn lemma_commit_settles_without_damage(s: SurfaceView)
    requires
        s.pending_surface_damage.len() == 0,
        s.pending_buffer_damage.len() == 0,
    ensures
        s.commit().commit() == s.commit(),
{
    assert(s.pending_surface_damage =~= Seq::empty());
    assert(s.pending_buffer_damage =~= Seq::empty());
    assert(s.commit().commit() =~= s.commit());
}

/// Whatever the damage, a second commit right after a first leaves every
/// slot but the current damage lists as the first left it, and empties those.
pub proof fn lemma_commit_twice_clears_damage(s: SurfaceView)
    ensures
        s.commit().commit() == (SurfaceView {
            current_surface_damage: Seq::empty(),
            current_buffer_damage: Seq::empty(),
            ..s.commit()
        }),
{
    assert(s.commit().commit() =~= (SurfaceView {
        current_surface_damage: Seq::empty(),
        current_buffer_damage: Seq::empty(),
        ..s.commit()
    }));
}

/// A request other than commit leaves the current slots alone.
pub proof fn lemma_current_changes_only_at_commit(
    s: SurfaceView,
    id: u32,
    rect: Rect,
    transform: WlOutputTransform,
    scale: i32,
    x: i32,
    y: i32,
)
    ensures
        s.attach(id).current() == s.current(),
        s.damage(rect).current() == s.current(),
        s.damage_buffer(rect).current() == s.current(),
        s.frame(id).current() == s.current(),
        s.set_opaque_region(id).current() == s.current(),
        s.set_input_region(id).current() == s.current(),
        s.set_buffer_transform(transform).current() == s.current(),
        s.set_buffer_scale(scale).current() == s.current(),
        s.set_offset(x, y).current() == s.current(),
{
}

/// The rectangle whose four values start at `at`.
pub open spec fn rect_at(args: Seq<u8>, at: int) -> Rect {
    (i32_at(args, at), i32_at(args, at + 4), i32_at(args, at + 8), i32_at(args, at + 12))
}

/// A request that changes the surface under `id`: an argument area of fewer
/// than `needed` bytes is a `MalformedFrame`, anything but a surface under
/// `id` an `InvalidObject`; otherwise the surface is changed and nothing else.
pub open spec fn on_surface(
    pre: ClientView,
    id: u32,
    args: Seq<u8>,
    needed: nat,
    change: spec_fn(SurfaceView) -> SurfaceView,
) -> (ClientView, Result<(), ProtocolError>) {
    if args.len() < needed {
        (pre, Err(ProtocolError::MalformedFrame))
    } else {
        match pre.surface(id) {
            None => (pre, Err(ProtocolError::InvalidObject)),
            Some(surface) => (pre.install(id, ObjectView::WlSurface(change(surface))), Ok(())),
        }
    }
}

/// `attach(buffer, x, y)`: the pending buffer is set; the offsets are ignored.
pub open spec fn surface_attach(pre: ClientView, id: u32, args: Seq<u8>) -> (
    ClientView,
    Result<(), ProtocolError>,
) {
    on_surface(pre, id, args, 12, |s: SurfaceView| s.attach(u32_at(args, 0)))
}

/// `damage(x, y, width, height)`: one more pending rectangle in surface
/// coordinates.
pub open spec fn surface_damage(pre: ClientView, id: u32, args: Seq<u8>) -> (
    ClientView,
    Result<(), ProtocolError>,
) {
    on_surface(pre, id, args, 16, |s: SurfaceView| s.damage(rect_at(args, 0)))
}

/// `damage_buffer(x, y, width, height)`: one more pending rectangle in
/// buffer coordinates.
pub open spec fn surface_damage_buffer(pre: ClientView, id: u32, args: Seq<u8>) -> (
    ClientView,
    Result<(), ProtocolError>,
) {
    on_surface(pre, id, args, 16, |s: SurfaceView| s.damage_buffer(rect_at(args, 0)))
}

/// `set_opaque_region(region)`: the pending opaque region is set.
pub open spec fn surface_set_opaque_region(pre: ClientView, id: u32, args: Seq<u8>) -> (
    ClientView,
    Result<(), ProtocolError>,
) {
    on_surface(pre, id, args, 4, |s: SurfaceView| s.set_opaque_region(u32_at(args, 0)))
}

/// `set_input_region(region)`: the pending input region is set.
pub open spec fn surface_set_input_region(pre: ClientView, id: u32, args: Seq<u8>) -> (
    ClientView,
    Result<(), ProtocolError>,
) {
    on_surface(pre, id, args, 4, |s: SurfaceView| s.set_input_region(u32_at(args, 0)))
}

/// `set_buffer_scale(scale)`: the pending scale is set, whatever the value.
pub open spec fn surface_set_buffer_scale(pre: ClientView, id: u32, args: Seq<u8>) -> (
    ClientView,
    Result<(), ProtocolError>,
) {
    on_surface(pre, id, args, 4, |s: SurfaceView| s.set_buffer_scale(i32_at(args, 0)))
}

/// `offset(x, y)`: the pending offset is set.
pub open spec fn surface_offset(pre: ClientView, id: u32, args: Seq<u8>) -> (
    ClientView,
    Result<(), ProtocolError>,
) {
    on_surface(pre, id, args, 8, |s: SurfaceView| s.set_offset(i32_at(args, 0), i32_at(args, 4)))
}

/// `set_buffer_transform(transform)`: the pending transform is set. A value
/// outside 0 to 7 is a `ProtocolViolation`.
pub open spec fn surface_set_buffer_transform(pre: ClientView, id: u32, args: Seq<u8>) -> (
    ClientView,
    Result<(), ProtocolError>,
) {
    if args.len() < 4 {
        (pre, Err(ProtocolError::MalformedFrame))
    } else if pre.surface(id) is None {
        (pre, Err(ProtocolError::InvalidObject))
    } else {
        match WlOutputTransform::of_value(i32_at(args, 0)) {
            None => (pre, Err(ProtocolError::ProtocolViolation)),
            Some(transform) => (
                pre.install(
                    id,
                    ObjectView::WlSurface(pre.surface(id)->0.set_buffer_transform(transform)),
                ),
                Ok(()),
            ),
        }
    }
}

/// `frame(new_id)`: a callback is bound under `new_id` and waits for the
/// next commit of the surface. A `new_id` that is already bound is an
/// `InvalidObject`.
pub open spec fn surface_frame(pre: ClientView, id: u32, args: Seq<u8>) -> (
    ClientView,
    Result<(), ProtocolError>,
) {
    if args.len() < 4 {
        (pre, Err(ProtocolError::MalformedFrame))
    } else {
        match pre.surface(id) {
            None => (pre, Err(ProtocolError::InvalidObject)),
            Some(surface) => {
                let new_id = u32_at(args, 0);
                if pre.objects.contains_key(new_id) {
                    (pre, Err(ProtocolError::InvalidObject))
                } else {
                    (
                        pre.install(id, ObjectView::WlSurface(surface.frame(new_id))).install(
                            new_id,
                            ObjectView::WlCallback,
                        ),
                        Ok(()),
                    )
                }
            },
        }
    }
}

/// The state with `callback.done(0)` queued on each of `callbacks`, in order.
pub open spec fn complete(pre: ClientView, callbacks: Seq<u32>) -> ClientView {
    ClientView {
        outbox: pre.outbox + callbacks.map_values(
            |callback: u32| EffectView::Event(done_event(callback, 0)),
        ),
        ..pre
    }
}

/// `commit()`: the pending state of the surface is applied, and each
/// callback that waited for the commit is completed, oldest first.
pub open spec fn surface_commit(pre: ClientView, id: u32) -> (
    ClientView,
    Result<(), ProtocolError>,
) {
    match pre.surface(id) {
        None => (pre, Err(ProtocolError::InvalidObject)),
        Some(surface) => (
            complete(
                pre.install(id, ObjectView::WlSurface(surface.commit())),
                surface.frame_callbacks,
            ),
            Ok(()),
        ),
    }
}

/// A request on a surface by its opcode. An opcode that the interface does
/// not have is ignored.
pub open spec fn surface_message(pre: ClientView, id: u32, op_code: u16, args: Seq<u8>) -> (
    ClientView,
    Result<(), ProtocolError>,
) {
    if op_code == 0 {
        (pre.remove(id), Ok(()))
    } else if op_code == 1 {
        surface_attach(pre, id, args)
    } else if op_code == 2 {
        surface_damage(pre, id, args)
    } else if op_code == 3 {
        surface_frame(pre, id, args)
    } else if op_code == 4 {
        surface_set_opaque_region(pre, id, args)
    } else if op_code == 5 {
        surface_set_input_region(pre, id, args)
    } else if op_code == 6 {
        surface_commit(pre, id)
    } else if op_code == 7 {
        surface_set_buffer_transform(pre, id, args)
    } else if op_code == 8 {
        surface_set_buffer_scale(pre, id, args)
    } else if op_code == 9 {
        surface_damage_buffer(pre, id, args)
    } else if op_code == 10 {
        surface_offset(pre, id, args)
    } else {
        (pre, Ok(()))
    }
}

/// Reads the rectangle at the start of an argument area of 16 bytes or more.
fn read_rect(arg_bytes: &[u8]) -> (rect: Rect)
    requires
        arg_bytes@.len() >= 16,
    ensures
        rect == rect_at(arg_bytes@, 0),
{
    let x = read_i32(arg_bytes, 0).unwrap();
    let y = read_i32(arg_bytes, 4).unwrap();
    let width = read_i32(arg_bytes, 8).unwrap();
    let height = read_i32(arg_bytes, 12).unwrap();
    (x, y, width, height)
}

impl CompositorClientState {
    /// Routes a request on the surface `object_id` by its opcode.
    pub fn handle_wl_surface_message(
        &mut self,
        object_id: u32,
        op_code: u16,
        arg_bytes: &[u8],
    ) -> (result: Result<(), ProtocolError>)
        requires
            old(self).wf(),
        ensures
            final(self).wf(),
            final(self)@ == surface_message(old(self)@, object_id, op_code, arg_bytes@).0,
            result == surface_message(old(self)@, object_id, op_code, arg_bytes@).1,
    {
        match op_code {
            0 => self.handle_wl_surface_destroy(object_id),
            1 => self.handle_wl_surface_attach(object_id, arg_bytes),
            2 => self.handle_wl_surface_damage(object_id, arg_bytes),
            3 => self.handle_wl_surface_frame(object_id, arg_bytes),
            4 => self.handle_wl_surface_set_opaque_region(object_id, arg_bytes),
            5 => self.handle_wl_surface_set_input_region(object_id, arg_bytes),
            6 => self.handle_wl_surface_commit(object_id),
            7 => self.handle_wl_surface_set_buffer_transform(object_id, arg_bytes),
            8 => self.handle_wl_surface_set_buffer_scale(object_id, arg_bytes),
            9 => self.handle_wl_surface_damage_buffer(object_id, arg_bytes),
            10 => self.handle_wl_surface_offset(object_id, arg_bytes),
            _ => Ok(()),
        }
    }

    /// `destroy()`: the object under `object_id` is removed.
    pub fn handle_wl_surface_destroy(&mut self, object_id: u32) -> (result: Result<
        (),
        ProtocolError,
    >)
        requires
            old(self).wf(),
        ensures
            final(self).wf(),
            final(self)@ == old(self)@.remove(object_id),
            result == Ok::<(), ProtocolError>(()),
    {
        self.remove_object(object_id);
        Ok(())
    }

    /// `attach(buffer, x, y)` on the surface `object_id`.
    pub fn handle_wl_surface_attach(&mut self, object_id: u32, arg_bytes: &[u8]) -> (result:
        Result<(), ProtocolError>)
        requires
            old(self).wf(),
        ensures
            final(self).wf(),
            final(self)@ == surface_attach(old(self)@, object_id, arg_bytes@).0,
            result == surface_attach(old(self)@, object_id, arg_bytes@).1,
    {
        if arg_bytes.len() < 12 {
            return Err(ProtocolError::MalformedFrame);
        }
        let buffer_id = read_u32(arg_bytes, 0).unwrap();
        let mut surface = match self.take_surface(object_id) {
            Err(e) => {
                return Err(e);
            },
            Ok(surface) => surface,
        };
        surface.pending_buffer = Some(buffer_id);
        assert(surface@ =~= old(self)@.surface(object_id)->0.attach(buffer_id));
        let put = self.install(object_id, WaylandObject::WlSurface(surface));
        assert(self@ =~= surface_attach(old(self)@, object_id, arg_bytes@).0);
        Ok(())
    }

    /// `damage(x, y, width, height)` on the surface `object_id`.
    pub fn handle_wl_surface_damage(&mut self, object_id: u32, arg_bytes: &[u8]) -> (result:
        Result<(), ProtocolError>)
        requires
            old(self).wf(),
        ensures
            final(self).wf(),
            final(self)@ == surface_damage(old(self)@, object_id, arg_bytes@).0,
            result == surface_damage(old(self)@, object_id, arg_bytes@).1,
    {
        if arg_bytes.len() < 16 {
            return Err(ProtocolError::MalformedFrame);
        }
        let rect = read_rect(arg_bytes);
        let mut surface = match self.take_surface(object_id) {
            Err(e) => {
                return Err(e);
            },
            Ok(surface) => surface,
        };
        surface.pending_surface_damage.push(rect);
        assert(surface@ =~= old(self)@.surface(object_id)->0.damage(rect));
        let put = self.install(object_id, WaylandObject::WlSurface(surface));
        assert(self@ =~= surface_damage(old(self)@, object_id, arg_bytes@).0);
        Ok(())
    }

    /// `frame(new_id)` on the surface `object_id`.
    pub fn handle_wl_surface_frame(&mut self, object_id: u32, arg_bytes: &[u8]) -> (result:
        Result<(), ProtocolError>)
        requires
            old(self).wf(),
        ensures
            final(self).wf(),
            final(self)@ == surface_frame(old(self)@, object_id, arg_bytes@).0,
            result == surface_frame(old(self)@, object_id, arg_bytes@).1,
    {
        if arg_bytes.len() < 4 {
            return Err(ProtocolError::MalformedFrame);
        }
        let new_id = read_u32(arg_bytes, 0).unwrap();
        match self.snapshot_kind(object_id) {
            Some(Interface::WlSurface) => {},
            _ => {
                return Err(ProtocolError::InvalidObject);
            },
        }
        if self.snapshot_kind(new_id).is_some() {
            return Err(ProtocolError::InvalidObject);
        }
        let mut surface = match self.take_surface(object_id) {
            Err(e) => {
                return Err(e);
            },
            Ok(surface) => surface,
        };
        surface.frame_callbacks.push(new_id);
        assert(surface@ =~= old(self)@.surface(object_id)->0.frame(new_id));
        let put = self.install(object_id, WaylandObject::WlSurface(surface));
        let bound = self.install(new_id, WaylandObject::WlCallback);
        assert(self@ =~= surface_frame(old(self)@, object_id, arg_bytes@).0);
        Ok(())
    }

    /// `set_opaque_region(region)` on the surface `object_id`.
    pub fn handle_wl_surface_set_opaque_region(&mut self, object_id: u32, arg_bytes: &[u8]) -> (
        result: Result<(), ProtocolError>)
        requires
            old(self).wf(),
        ensures
            final(self).wf(),
            final(self)@ == surface_set_opaque_region(old(self)@, object_id, arg_bytes@).0,
            result == surface_set_opaque_region(old(self)@, object_id, arg_bytes@).1,
    {
        if arg_bytes.len() < 4 {
            return Err(ProtocolError::MalformedFrame);
        }
        let region_id = read_u32(arg_bytes, 0).unwrap();
        let mut surface = match self.take_surface(object_id) {
            Err(e) => {
                return Err(e);
            },
            Ok(surface) => surface,
        };
        surface.pending_opaque_region = Some(region_id);
        assert(surface@ =~= old(self)@.surface(object_id)->0.set_opaque_region(region_id));
        let put = self.install(object_id, WaylandObject::WlSurface(surface));
        assert(self@ =~= surface_set_opaque_region(old(self)@, object_id, arg_bytes@).0);
        Ok(())
    }

    /// `set_input_region(region)` on the surface `object_id`.
    pub fn handle_wl_surface_set_input_region(&mut self, object_id: u32, arg_bytes: &[u8]) -> (
        result: Result<(), ProtocolError>)
        requires
            old(self).wf(),
        ensures
            final(self).wf(),
            final(self)@ == surface_set_input_region(old(self)@, object_id, arg_bytes@).0,
            result == surface_set_input_region(old(self)@, object_id, arg_bytes@).1,
    {
        if arg_bytes.len() < 4 {
            return Err(ProtocolError::MalformedFrame);
        }
        let region_id = read_u32(arg_bytes, 0).unwrap();
        let mut surface = match self.take_surface(object_id) {
            Err(e) => {
                return Err(e);
            },
            Ok(surface) => surface,
        };
        surface.pending_input_region = Some(region_id);
        assert(surface@ =~= old(self)@.surface(object_id)->0.set_input_region(region_id));
        let put = self.install(object_id, WaylandObject::WlSurface(surface));
        assert(self@ =~= surface_set_input_region(old(self)@, object_id, arg_bytes@).0);
        Ok(())
    }

    /// `commit()` on the surface `object_id`.
    pub fn handle_wl_surface_commit(&mut self, object_id: u32) -> (result: Result<
        (),
        ProtocolError,
    >)
        requires
            old(self).wf(),
        ensures
            final(self).wf(),
            final(self)@ == surface_commit(old(self)@, object_id).0,
            result == surface_commit(old(self)@, object_id).1,
    {
        let mut surface = match self.take_surface(object_id) {
            Err(e) => {
                return Err(e);
            },
            Ok(surface) => surface,
        };
        let callbacks = surface.commit();
        let put = self.install(object_id, WaylandObject::WlSurface(surface));
        let ghost applied = self@;
        assert(applied =~= old(self)@.install(
            object_id,
            ObjectView::WlSurface(old(self)@.surface(object_id)->0.commit()),
        ));
        let mut i: usize = 0;
        assert(self@ =~= complete(applied, callbacks@.subrange(0, 0)));
        while i < callbacks.len()
            invariant
                i <= callbacks@.len(),
                self.wf(),
                self@ == complete(applied, callbacks@.subrange(0, i as int)),
            decreases callbacks@.len() - i,
        {
            let sent = self.send_callback_done(callbacks[i], 0);
            i += 1;
            assert(self@ =~= complete(applied, callbacks@.subrange(0, i as int)));
        }
        assert(callbacks@.subrange(0, i as int) =~= callbacks@);
        Ok(())
    }

    /// `set_buffer_transform(transform)` on the surface `object_id`.
    pub fn handle_wl_surface_set_buffer_transform(&mut self, object_id: u32, arg_bytes: &[u8]) -> (
        result: Result<(), ProtocolError>)
        requires
            old(self).wf(),
        ensures
            final(self).wf(),
            final(self)@ == surface_set_buffer_transform(old(self)@, object_id, arg_bytes@).0,
            result == surface_set_buffer_transform(old(self)@, object_id, arg_bytes@).1,
    {
        if arg_bytes.len() < 4 {
            return Err(ProtocolError::MalformedFrame);
        }
        let value = read_i32(arg_bytes, 0).unwrap();
        match self.snapshot_kind(object_id) {
            Some(Interface::WlSurface) => {},
            _ => {
                return Err(ProtocolError::InvalidObject);
            },
        }
        let transform = match WlOutputTransform::from_i32(value) {
            None => {
                return Err(ProtocolError::ProtocolViolation);
            },
            Some(transform) => transform,
        };
        let mut surface = match self.take_surface(object_id) {
            Err(e) => {
                return Err(e);
            },
            Ok(surface) => surface,
        };
        surface.pending_transform = transform;
        assert(surface@ =~= old(self)@.surface(object_id)->0.set_buffer_transform(transform));
        let put = self.install(object_id, WaylandObject::WlSurface(surface));
        assert(self@ =~= surface_set_buffer_transform(old(self)@, object_id, arg_bytes@).0);
        Ok(())
    }

    /// `set_buffer_scale(scale)` on the surface `object_id`.
    pub fn handle_wl_surface_set_buffer_scale(&mut self, object_id: u32, arg_bytes: &[u8]) -> (
        result: Result<(), ProtocolError>)
        requires
            old(self).wf(),
        ensures
            final(self).wf(),
            final(self)@ == surface_set_buffer_scale(old(self)@, object_id, arg_bytes@).0,
            result == surface_set_buffer_scale(old(self)@, object_id, arg_bytes@).1,
    {
        if arg_bytes.len() < 4 {
            return Err(ProtocolError::MalformedFrame);
        }
        let scale = read_i32(arg_bytes, 0).unwrap();
        let mut surface = match self.take_surface(object_id) {
            Err(e) => {
                return Err(e);
            },
            Ok(surface) => surface,
        };
        surface.pending_scale = scale;
        assert(surface@ =~= old(self)@.surface(object_id)->0.set_buffer_scale(scale));
        let put = self.install(object_id, WaylandObject::WlSurface(surface));
        assert(self@ =~= surface_set_buffer_scale(old(self)@, object_id, arg_bytes@).0);
        Ok(())
    }

    /// `damage_buffer(x, y, width, height)` on the surface `object_id`.
    pub fn handle_wl_surface_damage_buffer(&mut self, object_id: u32, arg_bytes: &[u8]) -> (
        result: Result<(), ProtocolError>)
        requires
            old(self).wf(),
        ensures
            final(self).wf(),
            final(self)@ == surface_damage_buffer(old(self)@, object_id, arg_bytes@).0,
            result == surface_damage_buffer(old(self)@, object_id, arg_bytes@).1,
    {
        if arg_bytes.len() < 16 {
            return Err(ProtocolError::MalformedFrame);
        }
        let rect = read_rect(arg_bytes);
        let mut surface = match self.take_surface(object_id) {
            Err(e) => {
                return Err(e);
            },
            Ok(surface) => surface,
        };
        surface.pending_buffer_damage.push(rect);
        assert(surface@ =~= old(self)@.surface(object_id)->0.damage_buffer(rect));
        let put = self.install(object_id, WaylandObject::WlSurface(surface));
        assert(self@ =~= surface_damage_buffer(old(self)@, object_id, arg_bytes@).0);
        Ok(())
    }

    /// `offset(x, y)` on the surface `object_id`.
    pub fn handle_wl_surface_offset(&mut self, object_id: u32, arg_bytes: &[u8]) -> (result:
        Result<(), ProtocolError>)
        requires
            old(self).wf(),
        ensures
            final(self).wf(),
            final(self)@ == surface_offset(old(self)@, object_id, arg_bytes@).0,
            result == surface_offset(old(self)@, object_id, arg_bytes@).1,
    {
        if arg_bytes.len() < 8 {
            return Err(ProtocolError::MalformedFrame);
        }
        let x = read_i32(arg_bytes, 0).unwrap();
        let y = read_i32(arg_bytes, 4).unwrap();
        let mut surface = match self.take_surface(object_id) {
            Err(e) => {
                return Err(e);
            },
            Ok(surface) => surface,
        };
        surface.pending_offset = (x, y);
        assert(surface@ =~= old(self)@.surface(object_id)->0.set_offset(x, y));
        let put = self.install(object_id, WaylandObject::WlSurface(surface));
        assert(self@ =~= surface_offset(old(self)@, object_id, arg_bytes@).0);
        Ok(())
    }
}

/// Queues `surface.enter(output)` on `surface_id`.
pub fn send_wl_surface_enter(
    client_state: &mut CompositorClientState,
    surface_id: u32,
    output_id: u32,
) -> (result: Result<(), ProtocolError>)
    requires
        old(client_state).wf(),
    ensures
        final(client_state).wf(),
        final(client_state)@ == old(client_state)@.send(surface_id, 0, u32_le(output_id)),
        result == Ok::<(), ProtocolError>(()),
{
    let mut args: Vec<u8> = Vec::new();
    put_u32(&mut args, output_id);
    client_state.send_message(surface_id, 0, args.as_slice())
}

/// Queues `surface.leave(output)` on `surface_id`.
pub fn send_wl_surface_leave(
    client_state: &mut CompositorClientState,
    surface_id: u32,
    output_id: u32,
) -> (result: Result<(), ProtocolError>)
    requires
        old(client_state).wf(),
    ensures
        final(client_state).wf(),
        final(client_state)@ == old(client_state)@.send(surface_id, 1, u32_le(output_id)),
        result == Ok::<(), ProtocolError>(()),
{
    let mut args: Vec<u8> = Vec::new();
    put_u32(&mut args, output_id);
    client_state.send_message(surface_id, 1, args.as_slice())
}

/// Queues `surface.preferred_buffer_scale(scale)` on `surface_id`.
pub fn send_wl_surface_preferred_buffer_scale(
    client_state: &mut CompositorClientState,
    surface_id: u32,
    scale: i32,
) -> (result: Result<(), ProtocolError>)
    requires
        old(client_state).wf(),
    ensures
        final(client_state).wf(),
        final(client_state)@ == old(client_state)@.send(surface_id, 2, i32_le(scale)),
        result == Ok::<(), ProtocolError>(()),
{
    let mut args: Vec<u8> = Vec::new();
    put_i32(&mut args, scale);
    client_state.send_message(surface_id, 2, args.as_slice())
}

/// Queues `surface.preferred_buffer_transform(transform)` on `surface_id`.
pub fn send_wl_surface_preferred_buffer_transform(
    client_state: &mut CompositorClientState,
    surface_id: u32,
    transform: WlOutputTransform,
) -> (result: Result<(), ProtocolError>)
    requires
        old(client_state).wf(),
    ensures
        final(client_state).wf(),
        final(client_state)@ == old(client_state)@.send(
            surface_id,
            3,
            i32_le(transform.value()),
        ),
        result == Ok::<(), ProtocolError>(()),
{
    let mut args: Vec<u8> = Vec::new();
    put_i32(&mut args, transform.as_i32());
    client_state.send_message(surface_id, 3, args.as_slice())
}

} // verus!
