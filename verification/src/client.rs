//! The state of one client: its objects, the mappings they hold on to, and
//! the effects queued on its behalf.

use crate::effect::{effects_view, Effect, EffectView};
use crate::error::ProtocolError;
use crate::object::{Interface, ObjectView, WaylandObject};
use crate::wire::{Message, MessageView, MAX_ARGS_LEN};
use crate::wl_buffer::BufferState;
use crate::wl_surface::{SurfaceState, SurfaceView};
use std::collections::HashMap;
use vstd::prelude::*;
use vstd::set_lib::lemma_len_subset;
use vstd::slice::slice_to_vec;

verus! {

broadcast use vstd::std_specs::hash::group_hash_axioms;

/// The state of one client as a value of the model.
#[verifier::ext_equal]
pub struct ClientView {
    /// The live objects by id.
    pub objects: Map<u32, ObjectView>,
    /// The effects that were queued and not yet taken, oldest first.
    pub outbox: Seq<EffectView>,
    /// The handle that the next mapping gets.
    pub next_mapping: u64,
}

impl ClientView {
    /// A client that has just connected: the display object under id 1.
    pub open spec fn initial() -> ClientView {
        ClientView {
            objects: Map::empty().insert(1u32, ObjectView::WlDisplay),
            outbox: Seq::empty(),
            next_mapping: 0,
        }
    }

    /// The interface of the object under `id`.
    pub open spec fn kind(self, id: u32) -> Option<Interface> {
        if self.objects.contains_key(id) {
            Some(self.objects[id].interface())
        } else {
            None
        }
    }

    /// The surface under `id`, if a surface is bound there.
    pub open spec fn surface(self, id: u32) -> Option<SurfaceView> {
        if self.objects.contains_key(id) {
            match self.objects[id] {
                ObjectView::WlSurface(surface) => Some(surface),
                _ => None,
            }
        } else {
            None
        }
    }

    /// The mapping of the pool under `id`, if a pool is bound there.
    pub open spec fn pool_mapping(self, id: u32) -> Option<u64> {
        if self.objects.contains_key(id) {
            match self.objects[id] {
                ObjectView::WlShmPool(mapping, _) => Some(mapping),
                _ => None,
            }
        } else {
            None
        }
    }

    /// The state with `object` bound under `id`.
    pub open spec fn install(self, id: u32, object: ObjectView) -> ClientView {
        ClientView { objects: self.objects.insert(id, object), ..self }
    }

    /// The state with one more effect queued.
    pub open spec fn emit(self, effect: EffectView) -> ClientView {
        ClientView { outbox: self.outbox.push(effect), ..self }
    }

    /// The state with one more event queued.
    pub open spec fn send(self, object_id: u32, op_code: u16, args: Seq<u8>) -> ClientView {
        self.emit(EffectView::Event(MessageView { object_id, op_code, args }))
    }

    /// The ids of the objects that hold on to `mapping`.
    pub open spec fn holders(self, mapping: u64) -> Set<u32> {
        Set::new(
            |id: u32| self.objects.contains_key(id) && self.objects[id].mapping() == Some(mapping),
        )
    }

    /// Whether some object holds on to `mapping`.
    pub open spec fn mapping_live(self, mapping: u64) -> bool {
        exists|id: u32| #[trigger] self.holders(mapping).contains(id)
    }

    /// The state without the object under `id`. When that object was the last
    /// to hold on to its mapping, the release of the mapping is queued.
    pub open spec fn remove(self, id: u32) -> ClientView {
        if !self.objects.contains_key(id) {
            self
        } else {
            let rest = ClientView { objects: self.objects.remove(id), ..self };
            match self.objects[id].mapping() {
                Some(mapping) => if rest.mapping_live(mapping) {
                    rest
                } else {
                    rest.emit(EffectView::ReleaseMapping { mapping })
                },
                None => rest,
            }
        }
    }

    /// The state with a new pool under `id`: the pool holds on to a mapping
    /// of its own, and the mapping of `size` bytes of `fd` is queued.
    pub open spec fn install_pool(self, id: u32, fd: i32, size: u32) -> ClientView {
        ClientView {
            objects: self.objects.insert(id, ObjectView::WlShmPool(self.next_mapping, fd)),
            outbox: self.outbox.push(
                EffectView::MapPool { pool_id: id, mapping: self.next_mapping, fd, size },
            ),
            next_mapping: (self.next_mapping + 1) as u64,
        }
    }

    /// Every mapping that an object holds on to was handed out before.
    pub open spec fn mappings_handed_out(self) -> bool {
        forall|id: u32| #[trigger]
            self.objects.contains_key(id) ==> match self.objects[id].mapping() {
                Some(mapping) => mapping < self.next_mapping,
                None => true,
            }
    }
}

/// The objects of a registry as values of the model.
pub open spec fn objects_view(registry: Map<u32, WaylandObject>) -> Map<u32, ObjectView> {
    Map::new(|id: u32| registry.contains_key(id), |id: u32| registry[id]@)
}

/// The state of one client.
pub struct CompositorClientState {
    object_registry: HashMap<u32, WaylandObject>,
    /// For each live mapping, how many objects hold on to it.
    holders: HashMap<u64, usize>,
    next_mapping: u64,
    outbox: Vec<Effect>,
}

impl View for CompositorClientState {
    type V = ClientView;

    closed spec fn view(&self) -> ClientView {
        ClientView {
            objects: objects_view(self.object_registry@),
            outbox: effects_view(self.outbox@),
            next_mapping: self.next_mapping,
        }
    }
}

impl CompositorClientState {
    /// The bookkeeping of mappings agrees with the objects: a mapping is
    /// counted exactly while objects hold on to it, with their number, and
    /// every counted mapping was handed out before.
    pub closed spec fn wf(&self) -> bool {
        &&& forall|mapping: u64| #[trigger]
            self.holders@.contains_key(mapping) ==> {
                &&& mapping < self.next_mapping
                &&& self.holders@[mapping] >= 1
                &&& self.holders@[mapping] == self@.holders(mapping).len()
            }
        &&& forall|id: u32| #[trigger]
            self.object_registry@.contains_key(id) ==> match self.object_registry@[id]@.mapping() {
                Some(mapping) => self.holders@.contains_key(mapping),
                None => true,
            }
    }

    /// In a well-formed state no object holds on to a mapping that is yet to
    /// be handed out.
    pub proof fn lemma_mappings_handed_out(&self)
        requires
            self.wf(),
        ensures
            self@.mappings_handed_out(),
    {
        assert forall|id: u32| #[trigger]
            self@.objects.contains_key(id) implies match self@.objects[id].mapping() {
            Some(mapping) => mapping < self@.next_mapping,
            None => true,
        } by {
            assert(self.object_registry@.contains_key(id));
        }
    }

    /// The holders of a mapping are among the bound objects, so there are
    /// finitely many, and no more than there are objects.
    proof fn lemma_holders_finite(&self, mapping: u64)
        ensures
            self@.holders(mapping).finite(),
            self@.holders(mapping).len() <= self.object_registry@.dom().len(),
    {
        assert(self@.holders(mapping).subset_of(self.object_registry@.dom()));
        lemma_len_subset(self@.holders(mapping), self.object_registry@.dom());
    }

    /// A mapping is counted exactly while some object holds on to it.
    proof fn lemma_counted_iff_live(&self, mapping: u64)
        requires
            self.wf(),
        ensures
            self.holders@.contains_key(mapping) <==> self@.mapping_live(mapping),
    {
        self.lemma_holders_finite(mapping);
        if self.holders@.contains_key(mapping) {
            let id = self@.holders(mapping).choose();
            assert(self@.holders(mapping).len() > 0);
            assert(self@.holders(mapping).contains(id));
        }
        if self@.mapping_live(mapping) {
            let id = choose|id: u32| #[trigger] self@.holders(mapping).contains(id);
            assert(self.object_registry@.contains_key(id));
        }
    }

    /// The state of a client that has just connected.
    pub fn new() -> (state: CompositorClientState)
        ensures
            state.wf(),
            state@ == ClientView::initial(),
    {
        let mut object_registry: HashMap<u32, WaylandObject> = HashMap::new();
        object_registry.insert(1, WaylandObject::WlDisplay);
        let state = CompositorClientState {
            object_registry,
            holders: HashMap::new(),
            next_mapping: 0,
            outbox: Vec::new(),
        };
        assert(state@.objects =~= ClientView::initial().objects);
        assert(state@.outbox =~= ClientView::initial().outbox);
        state
    }

    /// The interface of the object under `id`, if the id is bound.
    pub fn snapshot_kind(&self, id: u32) -> (kind: Option<Interface>)
        ensures
            kind == self@.kind(id),
    {
        match self.object_registry.get(&id) {
            Some(object) => Some(object.interface()),
            None => None,
        }
    }

    /// The surface under `id`, if a surface is bound there.
    pub fn surface(&self, id: u32) -> (surface: Option<&SurfaceState>)
        ensures
            match surface {
                Some(s) => self@.surface(id) == Some(s@),
                None => self@.surface(id) is None,
            },
    {
        match self.object_registry.get(&id) {
            Some(WaylandObject::WlSurface(surface)) => Some(surface),
            _ => None,
        }
    }

    /// The buffer under `id`, if a buffer is bound there.
    pub fn buffer(&self, id: u32) -> (buffer: Option<BufferState>)
        ensures
            match buffer {
                Some(b) => self@.objects.contains_key(id) && self@.objects[id]
                    == ObjectView::WlBuffer(b),
                None => !(self@.objects.contains_key(id) && self@.objects[id] is WlBuffer),
            },
    {
        match self.object_registry.get(&id) {
            Some(WaylandObject::WlBuffer(buffer)) => Some(*buffer),
            _ => None,
        }
    }

    /// The mapping of the pool under `id`, if a pool is bound there.
    pub fn pool_mapping(&self, id: u32) -> (mapping: Option<u64>)
        ensures
            mapping == self@.pool_mapping(id),
    {
        match self.object_registry.get(&id) {
            Some(WaylandObject::WlShmPool(mapping, _)) => Some(*mapping),
            _ => None,
        }
    }

    /// How many objects are bound.
    pub fn object_count(&self) -> (count: usize)
        ensures
            count == self@.objects.dom().len(),
    {
        assert(self@.objects.dom() =~= self.object_registry@.dom());
        self.object_registry.len()
    }

    /// Whether some object holds on to `mapping`.
    pub fn mapping_live(&self, mapping: u64) -> (live: bool)
        requires
            self.wf(),
        ensures
            live == self@.mapping_live(mapping),
    {
        proof {
            self.lemma_counted_iff_live(mapping);
        }
        self.holders.contains_key(&mapping)
    }

    /// Hands out the queued effects, oldest first, and leaves the queue empty.
    pub fn take_effects(&mut self) -> (effects: Vec<Effect>)
        requires
            old(self).wf(),
        ensures
            final(self).wf(),
            effects_view(effects@) == old(self)@.outbox,
            final(self)@ == (ClientView { outbox: Seq::empty(), ..old(self)@ }),
    {
        let mut effects: Vec<Effect> = Vec::new();
        core::mem::swap(&mut effects, &mut self.outbox);
        assert(self@.outbox =~= Seq::empty());
        assert(forall|mapping: u64| self@.holders(mapping) =~= old(self)@.holders(mapping));
        effects
    }

    /// Queues one effect.
    pub(crate) fn emit(&mut self, effect: Effect)
        requires
            old(self).wf(),
        ensures
            final(self).wf(),
            final(self)@ == old(self)@.emit(effect@),
    {
        self.outbox.push(effect);
        assert(self@.outbox =~= old(self)@.outbox.push(effect@));
        assert(forall|mapping: u64| self@.holders(mapping) =~= old(self)@.holders(mapping));
    }

    /// Queues an event for the client: `op_code` on `object_id` with the
    /// argument area `args`. An argument area too long for one frame is
    /// refused with `MalformedFrame`, and nothing is queued.
    pub fn send_message(&mut self, object_id: u32, op_code: u16, args: &[u8]) -> (result: Result<
        (),
        ProtocolError,
    >)
        requires
            old(self).wf(),
        ensures
            final(self).wf(),
            result == (if args@.len() <= MAX_ARGS_LEN {
                Ok(())
            } else {
                Err(ProtocolError::MalformedFrame)
            }),
            final(self)@ == (if args@.len() <= MAX_ARGS_LEN {
                old(self)@.send(object_id, op_code, args@)
            } else {
                old(self)@
            }),
    {
        if args.len() > MAX_ARGS_LEN {
            return Err(ProtocolError::MalformedFrame);
        }
        let message = Message { object_id, op_code, args: slice_to_vec(args) };
        self.emit(Effect::Event(message));
        Ok(())
    }

    /// Binds an object that holds on to no mapping under a new id. An id
    /// that is already bound is refused with `InvalidObject`.
    pub(crate) fn install(&mut self, id: u32, object: WaylandObject) -> (result: Result<
        (),
        ProtocolError,
    >)
        requires
            old(self).wf(),
            object@.mapping() is None,
        ensures
            final(self).wf(),
            result == (if old(self)@.objects.contains_key(id) {
                Err(ProtocolError::InvalidObject)
            } else {
                Ok(())
            }),
            final(self)@ == (if old(self)@.objects.contains_key(id) {
                old(self)@
            } else {
                old(self)@.install(id, object@)
            }),
    {
        if self.object_registry.contains_key(&id) {
            return Err(ProtocolError::InvalidObject);
        }
        self.object_registry.insert(id, object);
        proof {
            assert(self@.objects =~= old(self)@.objects.insert(id, object@));
            assert forall|mapping: u64| self@.holders(mapping) =~= old(self)@.holders(
                mapping,
            ) by {}
        }
        Ok(())
    }

    /// Takes the surface under `id` out of the registry, to be put back by
    /// `install`. Anything but a surface under `id` is refused with
    /// `InvalidObject`.
    pub(crate) fn take_surface(&mut self, id: u32) -> (result: Result<SurfaceState, ProtocolError>)
        requires
            old(self).wf(),
        ensures
            final(self).wf(),
            match result {
                Ok(surface) => old(self)@.surface(id) == Some(surface@) && final(self)@ == (
                ClientView { objects: old(self)@.objects.remove(id), ..old(self)@ }),
                Err(e) => old(self)@.surface(id) is None && e == ProtocolError::InvalidObject
                    && final(self)@ == old(self)@,
            },
    {
        match self.snapshot_kind(id) {
            Some(Interface::WlSurface) => {},
            _ => {
                return Err(ProtocolError::InvalidObject);
            },
        }
        let removed = self.object_registry.remove(&id);
        proof {
            assert(self@.objects =~= old(self)@.objects.remove(id));
            assert forall|mapping: u64| self@.holders(mapping) =~= old(self)@.holders(
                mapping,
            ) by {}
        }
        match removed {
            Some(WaylandObject::WlSurface(surface)) => Ok(surface),
            _ => {
                assert(false);
                Err(ProtocolError::InvalidObject)
            },
        }
    }

    /// Removes the object under `id`, if there is one. When it was the last
    /// object to hold on to its mapping, the release of the mapping is queued.
    pub(crate) fn remove_object(&mut self, id: u32)
        requires
            old(self).wf(),
        ensures
            final(self).wf(),
            final(self)@ == old(self)@.remove(id),
    {
        let removed = self.object_registry.remove(&id);
        let object = match removed {
            None => {
                assert(self@.objects =~= old(self)@.objects);
                return ;
            },
            Some(object) => object,
        };
        let ghost rest = ClientView { objects: old(self)@.objects.remove(id), ..old(self)@ };
        assert(self@.objects =~= rest.objects);
        match object.mapping() {
            None => {
                assert forall|mapping: u64| self@.holders(mapping) =~= old(self)@.holders(
                    mapping,
                ) by {}
            },
            Some(mapping) => {
                proof {
                    old(self).lemma_holders_finite(mapping);
                    assert(old(self).object_registry@.contains_key(id));
                    assert(old(self)@.holders(mapping).contains(id));
                    assert(rest.holders(mapping) =~= old(self)@.holders(mapping).remove(id));
                    assert forall|other: u64| other != mapping implies rest.holders(other)
                        =~= old(self)@.holders(other) by {}
                }
                let count = *self.holders.get(&mapping).unwrap();
                if count == 1 {
                    self.holders.remove(&mapping);
                    proof {
                        assert(rest.holders(mapping).len() == 0);
                        assert(!rest.mapping_live(mapping)) by {
                            if rest.mapping_live(mapping) {
                                let holder = choose|holder: u32| #[trigger]
                                    rest.holders(mapping).contains(holder);
                                assert(rest.holders(mapping).len() > 0);
                            }
                        }
                        assert forall|other: u32| #[trigger]
                            self.object_registry@.contains_key(
                                other,
                            ) implies self.object_registry@[other]@.mapping() != Some(
                            mapping,
                        ) by {
                            if self.object_registry@[other]@.mapping() == Some(mapping) {
                                assert(rest.holders(mapping).contains(other));
                            }
                        }
                    }
                    self.outbox.push(Effect::ReleaseMapping { mapping });
                    proof {
                        assert(self@.outbox =~= rest.outbox.push(
                            EffectView::ReleaseMapping { mapping },
                        ));
                        assert forall|other: u64| self@.holders(other) =~= rest.holders(
                            other,
                        ) by {}
                        assert forall|bound: u32| #[trigger]
                            self.object_registry@.contains_key(
                                bound,
                            ) implies match self.object_registry@[bound]@.mapping() {
                            Some(held) => self.holders@.contains_key(held),
                            None => true,
                        } by {
                            assert(old(self).object_registry@.contains_key(bound));
                        }
                        assert forall|other: u64| #[trigger]
                            self.holders@.contains_key(other) implies {
                            &&& other < self.next_mapping
                            &&& self.holders@[other] >= 1
                            &&& self.holders@[other] == self@.holders(other).len()
                        } by {
                            assert(old(self).holders@.contains_key(other));
                            assert(self@.holders(other) == rest.holders(other));
                            assert(rest.holders(other) == old(self)@.holders(other));
                        }
                    }
                } else {
                    self.holders.insert(mapping, count - 1);
                    proof {
                        assert(rest.holders(mapping).len() == count - 1);
                        let holder = rest.holders(mapping).choose();
                        assert(rest.holders(mapping).contains(holder));
                        assert(rest.mapping_live(mapping));
                        assert forall|other: u64| self@.holders(other) =~= rest.holders(
                            other,
                        ) by {}
                    }
                }
            },
        }
    }

    /// Binds a new pool under `id` and queues the mapping of `size` bytes of
    /// `fd` for it. An id that is already bound is refused with
    /// `InvalidObject`; when no mapping handle is left, the pool is refused
    /// with `MappingError`.
    pub(crate) fn install_pool(&mut self, id: u32, fd: i32, size: u32) -> (result: Result<
        (),
        ProtocolError,
    >)
        requires
            old(self).wf(),
        ensures
            final(self).wf(),
            result == pool_admission(old(self)@, id),
            final(self)@ == (if result is Ok {
                old(self)@.install_pool(id, fd, size)
            } else {
                old(self)@
            }),
    {
        if self.object_registry.contains_key(&id) {
            return Err(ProtocolError::InvalidObject);
        }
        if self.next_mapping == u64::MAX {
            return Err(ProtocolError::MappingError);
        }
        let mapping = self.next_mapping;
        proof {
            old(self).lemma_mappings_handed_out();
            assert(old(self)@.holders(mapping) =~= Set::empty());
        }
        self.object_registry.insert(id, WaylandObject::WlShmPool(mapping, fd));
        self.holders.insert(mapping, 1);
        self.next_mapping = mapping + 1;
        self.outbox.push(Effect::MapPool { pool_id: id, mapping, fd, size });
        proof {
            let post = old(self)@.install_pool(id, fd, size);
            assert(self@.objects =~= post.objects);
            assert(self@.outbox =~= post.outbox);
            assert(self@.holders(mapping) =~= set![id]);
            assert forall|other: u64| other != mapping implies self@.holders(other) =~= old(
                self,
            )@.holders(other) by {}
        }
        Ok(())
    }

    /// Binds a new buffer under `id`. The buffer holds on to its mapping
    /// from now on. An id that is already bound, or a mapping that nothing
    /// holds on to any more, is refused with `InvalidObject`.
    pub(crate) fn install_buffer(&mut self, id: u32, buffer: BufferState) -> (result: Result<
        (),
        ProtocolError,
    >)
        requires
            old(self).wf(),
        ensures
            final(self).wf(),
            result == buffer_admission(old(self)@, id, buffer.shm_pool),
            final(self)@ == (if result is Ok {
                old(self)@.install(id, ObjectView::WlBuffer(buffer))
            } else {
                old(self)@
            }),
    {
        let mapping = buffer.shm_pool;
        proof {
            self.lemma_counted_iff_live(mapping);
        }
        if self.object_registry.contains_key(&id) {
            return Err(ProtocolError::InvalidObject);
        }
        let count = match self.holders.get(&mapping) {
            None => {
                return Err(ProtocolError::InvalidObject);
            },
            Some(count) => *count,
        };
        self.object_registry.insert(id, WaylandObject::WlBuffer(buffer));
        let bound: usize = self.object_registry.len();
        proof {
            old(self).lemma_holders_finite(mapping);
            assert(self.object_registry@.dom() =~= old(self).object_registry@.dom().insert(id));
            assert(count < bound);
        }
        self.holders.insert(mapping, count + 1);
        proof {
            let post = old(self)@.install(id, ObjectView::WlBuffer(buffer));
            assert(self@.objects =~= post.objects);
            assert(self@.holders(mapping) =~= old(self)@.holders(mapping).insert(id));
            assert forall|other: u64| other != mapping implies self@.holders(other) =~= old(
                self,
            )@.holders(other) by {}
        }
        Ok(())
    }
}

/// Whether a new pool can be bound under `id`: not under an id that is
/// already bound (`InvalidObject`), and not once every mapping handle was
/// handed out (`MappingError`).
pub open spec fn pool_admission(pre: ClientView, id: u32) -> Result<(), ProtocolError> {
    if pre.objects.contains_key(id) {
        Err(ProtocolError::InvalidObject)
    } else if pre.next_mapping == u64::MAX {
        Err(ProtocolError::MappingError)
    } else {
        Ok(())
    }
}

/// Whether a new buffer on `mapping` can be bound under `id`: not under an
/// id that is already bound, and not on a mapping that nothing holds on to
/// (`InvalidObject` both).
pub open spec fn buffer_admission(pre: ClientView, id: u32, mapping: u64) -> Result<
    (),
    ProtocolError,
> {
    if pre.objects.contains_key(id) || !pre.mapping_live(mapping) {
        Err(ProtocolError::InvalidObject)
    } else {
        Ok(())
    }
}

} // verus!
