//! What holds of the handlers taken together.

use crate::client::ClientView;
use crate::dispatch::{dispatch, skip_reason, Step};
use crate::effect::EffectView;
use crate::error::ProtocolError;
use crate::globals::{find_global, lemma_find_global, Global};
use crate::object::{Interface, ObjectView};
use crate::wire::{
    i32_at, lemma_string_at_shifted, lemma_string_round_trip, lemma_u32_at_subrange,
    lemma_u32_round_trip, lemma_wayland_string_len, string_at, string_content, u32_at, u32_le,
    wayland_string, MessageView,
};
use crate::wl_callback::done_event;
use crate::wl_registry::{bind_request, bound_global, registry_bind, BindRequest};
use crate::receiver::{received, ReceiverView};
use crate::wl_shm::shm_create_pool;
use crate::wl_shm_pool::buffer_at;
use crate::wl_surface::{
    lemma_commit_settles_without_damage, surface_commit, surface_frame,
    surface_set_buffer_transform,
};
use vstd::prelude::*;
use vstd::string::StringSliceAdditionalSpecFns;
use vstd::utf8::{encode_utf8, encode_utf8_valid_utf8, valid_utf8};

verus! {

/// Whether `bind` with these arguments finds its global: the table has a
/// global of that name, and it is of the interface that the request says.
pub open spec fn bind_matches(globals: Seq<Global>, args: Seq<u8>) -> bool {
    &&& bind_request(args) matches Some(request)
    &&& bound_global(globals, request.name, request.interface) is Some
}

/// The id that a request asks to bind a new object under: each request with
/// a `new_id` argument names one, except a `bind` that finds no global.
pub open spec fn created_id(
    kind: Interface,
    globals: Seq<Global>,
    op_code: u16,
    args: Seq<u8>,
) -> Option<u32> {
    match kind {
        Interface::WlDisplay => if op_code == 0 || op_code == 1 {
            Some(u32_at(args, 0))
        } else {
            None
        },
        Interface::WlRegistry => if op_code == 0 && bind_matches(globals, args) {
            Some(bind_request(args)->0.new_id)
        } else {
            None
        },
        Interface::WlShm => if op_code == 0 {
            Some(u32_at(args, 0))
        } else {
            None
        },
        Interface::WlShmPool => if op_code == 0 {
            Some(u32_at(args, 0))
        } else {
            None
        },
        Interface::WlCompositor => if op_code == 0 || op_code == 1 {
            Some(u32_at(args, 0))
        } else {
            None
        },
        Interface::WlSurface => if op_code == 3 {
            Some(u32_at(args, 0))
        } else {
            None
        },
        _ => None,
    }
}

/// Whether a request destroys its target: `release` on shm, `destroy` on a
/// pool, a buffer or a surface.
pub open spec fn destroys(kind: Interface, op_code: u16) -> bool {
    match kind {
        Interface::WlShm => op_code == 1,
        Interface::WlShmPool => op_code == 1,
        Interface::WlBuffer => op_code == 0,
        Interface::WlSurface => op_code == 0,
        _ => false,
    }
}

/// The bound ids after a request that succeeded on the object `id` of
/// interface `kind`: the id it created joins them, the target it destroyed
/// leaves them.
pub open spec fn ids_after(
    ids: Set<u32>,
    kind: Interface,
    globals: Seq<Global>,
    id: u32,
    op_code: u16,
    args: Seq<u8>,
) -> Set<u32> {
    let with_created = match created_id(kind, globals, op_code, args) {
        Some(new_id) => ids.insert(new_id),
        None => ids,
    };
    if destroys(kind, op_code) {
        with_created.remove(id)
    } else {
        with_created
    }
}

/// One request changes the set of bound ids by what it creates and what it
/// destroys, and by nothing else. A request that fails, and one on an id
/// that is not bound, leaves the set as it was. An id that a request
/// creates was not bound before.
pub proof fn lemma_request_ids(
    pre: ClientView,
    fds: Seq<i32>,
    globals: Seq<Global>,
    id: u32,
    op_code: u16,
    args: Seq<u8>,
)
    ensures
        ({
            let step = dispatch(pre, fds, globals, id, op_code, args);
            &&& step.result is Err ==> step.state == pre
            &&& pre.kind(id) is None ==> step.state == pre
            &&& step.result is Ok && pre.kind(id) is Some ==> {
                &&& step.state.objects.dom() == ids_after(
                    pre.objects.dom(),
                    pre.kind(id)->0,
                    globals,
                    id,
                    op_code,
                    args,
                )
                &&& created_id(pre.kind(id)->0, globals, op_code, args) matches Some(new_id)
                    ==> !pre.objects.contains_key(new_id)
            }
        }),
{
    let step = dispatch(pre, fds, globals, id, op_code, args);
    if pre.kind(id) is Some && step.result is Ok {
        let kind = pre.kind(id)->0;
        assert(pre.objects.contains_key(id));
        assert(step.state.objects.dom() =~= ids_after(
            pre.objects.dom(),
            kind,
            globals,
            id,
            op_code,
            args,
        ));
    }
}

/// The requests of a client, handled one after the other until one fails.
pub open spec fn run(
    pre: ClientView,
    fds: Seq<i32>,
    globals: Seq<Global>,
    requests: Seq<MessageView>,
) -> Step
    decreases requests.len(),
{
    if requests.len() == 0 {
        Step { state: pre, fds, result: Ok(()) }
    } else {
        let first = requests[0];
        let step = dispatch(pre, fds, globals, first.object_id, first.op_code, first.args);
        if step.result is Err {
            step
        } else {
            run(step.state, step.fds, globals, requests.subrange(1, requests.len() as int))
        }
    }
}

/// The ids that are bound after the same requests, reckoned from the
/// requests alone: starting from `ids`, each request that succeeds on a
/// bound object adds what it creates and removes what it destroys.
pub open spec fn ids_run(
    ids: Set<u32>,
    pre: ClientView,
    fds: Seq<i32>,
    globals: Seq<Global>,
    requests: Seq<MessageView>,
) -> Set<u32>
    decreases requests.len(),
{
    if requests.len() == 0 {
        ids
    } else {
        let first = requests[0];
        let step = dispatch(pre, fds, globals, first.object_id, first.op_code, first.args);
        if step.result is Err {
            ids
        } else {
            let next = match pre.kind(first.object_id) {
                Some(kind) => ids_after(
                    ids,
                    kind,
                    globals,
                    first.object_id,
                    first.op_code,
                    first.args,
                ),
                None => ids,
            };
            ids_run(next, step.state, step.fds, globals, requests.subrange(
                1,
                requests.len() as int,
            ))
        }
    }
}

/// After any sequence of requests the registry holds exactly the ids that
/// the client created and did not destroy since.
pub proof fn lemma_registry_ids(
    pre: ClientView,
    fds: Seq<i32>,
    globals: Seq<Global>,
    requests: Seq<MessageView>,
)
    ensures
        run(pre, fds, globals, requests).state.objects.dom() == ids_run(
            pre.objects.dom(),
            pre,
            fds,
            globals,
            requests,
        ),
    decreases requests.len(),
{
    if requests.len() > 0 {
        let first = requests[0];
        let step = dispatch(pre, fds, globals, first.object_id, first.op_code, first.args);
        lemma_request_ids(pre, fds, globals, first.object_id, first.op_code, first.args);
        if step.result is Ok {
            lemma_registry_ids(step.state, step.fds, globals, requests.subrange(
                1,
                requests.len() as int,
            ));
        }
    }
}

/// A commit on a surface leaves each current slot with what the pending
/// slot held just before, leaves the pending damage lists empty, and
/// touches no other object.
pub proof fn lemma_commit_applies_pending(pre: ClientView, id: u32)
    requires
        pre.surface(id) is Some,
    ensures
        ({
            let before = pre.surface(id)->0;
            let post = surface_commit(pre, id).0;
            &&& surface_commit(pre, id).1 is Ok
            &&& post.surface(id) matches Some(after)
            &&& after.current_buffer == before.pending_buffer
            &&& after.current_surface_damage == before.pending_surface_damage
            &&& after.current_buffer_damage == before.pending_buffer_damage
            &&& after.current_opaque_region == before.pending_opaque_region
            &&& after.current_input_region == before.pending_input_region
            &&& after.current_transform == before.pending_transform
            &&& after.current_scale == before.pending_scale
            &&& after.current_offset == before.pending_offset
            &&& after.pending_surface_damage.len() == 0
            &&& after.pending_buffer_damage.len() == 0
            &&& after.frame_callbacks.len() == 0
            &&& forall|other: u32|
                other != id ==> post.objects.contains_key(other) == pre.objects.contains_key(other)
                    && post.objects[other] == pre.objects[other]
        }),
{
}

/// The state after `frame(callback)` for each of `callbacks` in turn on the
/// surface `id`.
pub open spec fn after_frames(pre: ClientView, id: u32, callbacks: Seq<u32>) -> ClientView
    decreases callbacks.len(),
{
    if callbacks.len() == 0 {
        pre
    } else {
        after_frames(
            surface_frame(pre, id, u32_le(callbacks[0])).0,
            id,
            callbacks.subrange(1, callbacks.len() as int),
        )
    }
}

/// Frame requests with new ids queue their callbacks behind those that
/// already wait, and queue no event.
pub proof fn lemma_frames_register(pre: ClientView, id: u32, callbacks: Seq<u32>)
    requires
        pre.surface(id) is Some,
        callbacks.no_duplicates(),
        forall|i: int| 0 <= i < callbacks.len() ==> !pre.objects.contains_key(#[trigger] callbacks[i]),
    ensures
        after_frames(pre, id, callbacks).surface(id) is Some,
        after_frames(pre, id, callbacks).surface(id)->0.frame_callbacks == pre.surface(
            id,
        )->0.frame_callbacks + callbacks,
        after_frames(pre, id, callbacks).outbox == pre.outbox,
    decreases callbacks.len(),
{
    if callbacks.len() == 0 {
        assert(pre.surface(id)->0.frame_callbacks + callbacks =~= pre.surface(
            id,
        )->0.frame_callbacks);
    } else {
        let first = callbacks[0];
        let rest = callbacks.subrange(1, callbacks.len() as int);
        lemma_u32_round_trip(first);
        let next = surface_frame(pre, id, u32_le(first)).0;
        assert(u32_at(u32_le(first), 0) == first);
        assert(!pre.objects.contains_key(first));
        assert(first != id);
        assert(next.surface(id) == Some(pre.surface(id)->0.frame(first)));
        assert forall|i: int| 0 <= i < rest.len() implies !next.objects.contains_key(
            #[trigger] rest[i],
        ) by {
            assert(rest[i] == callbacks[i + 1]);
        }
        assert(rest.no_duplicates()) by {
            assert forall|i: int, j: int| 0 <= i < rest.len() && 0 <= j < rest.len() && i
                != j implies rest[i] != rest[j] by {
                assert(rest[i] == callbacks[i + 1] && rest[j] == callbacks[j + 1]);
            }
        }
        lemma_frames_register(next, id, rest);
        assert(pre.surface(id)->0.frame_callbacks.push(first) + rest =~= pre.surface(
            id,
        )->0.frame_callbacks + callbacks);
    }
}

/// Every callback registered on a surface before a commit is completed by
/// that commit: one `done` event each, in the order of registration, and
/// nothing else is queued. The commit after that completes none of them
/// again.
pub proof fn lemma_frame_callbacks_complete_once(pre: ClientView, id: u32, callbacks: Seq<u32>)
    requires
        pre.surface(id) is Some,
        pre.surface(id)->0.frame_callbacks.len() == 0,
        callbacks.no_duplicates(),
        forall|i: int| 0 <= i < callbacks.len() ==> !pre.objects.contains_key(#[trigger] callbacks[i]),
    ensures
        ({
            let registered = after_frames(pre, id, callbacks);
            let committed = surface_commit(registered, id).0;
            let again = surface_commit(committed, id).0;
            &&& committed.outbox.len() == pre.outbox.len() + callbacks.len()
            &&& committed.outbox.subrange(0, pre.outbox.len() as int) == pre.outbox
            &&& forall|i: int|
                0 <= i < callbacks.len() ==> committed.outbox[pre.outbox.len() + i]
                    == EffectView::Event(done_event(#[trigger] callbacks[i], 0))
            &&& again.outbox == committed.outbox
        }),
{
    lemma_frames_register(pre, id, callbacks);
    let registered = after_frames(pre, id, callbacks);
    let committed = surface_commit(registered, id).0;
    let again = surface_commit(committed, id).0;
    assert(registered.surface(id)->0.frame_callbacks =~= callbacks);
    assert(committed.outbox.subrange(0, pre.outbox.len() as int) =~= pre.outbox);
    assert(committed.surface(id) == Some(registered.surface(id)->0.commit()));
    assert(again.outbox =~= committed.outbox);
}

/// A second commit with no request between changes nothing, provided the
/// first one had no damage to apply.
pub proof fn lemma_commit_twice(pre: ClientView, id: u32)
    requires
        pre.surface(id) is Some,
        pre.surface(id)->0.pending_surface_damage.len() == 0,
        pre.surface(id)->0.pending_buffer_damage.len() == 0,
    ensures
        surface_commit(surface_commit(pre, id).0, id) == (surface_commit(pre, id).0, Ok::<
            (),
            ProtocolError,
        >(())),
{
    let once = surface_commit(pre, id).0;
    let twice = surface_commit(once, id).0;
    lemma_commit_settles_without_damage(pre.surface(id)->0);
    assert(once.surface(id) == Some(pre.surface(id)->0.commit()));
    assert(twice.outbox =~= once.outbox);
    assert(twice.objects =~= once.objects);
}

/// A well-formed bind that names an interface of which the table has no
/// global does nothing and is no error.
pub proof fn lemma_bind_unknown_interface(pre: ClientView, args: Seq<u8>, globals: Seq<Global>)
    requires
        bind_request(args) is Some,
        forall|i: int|
            0 <= i < globals.len() ==> (#[trigger] globals[i]).1.name().spec_bytes()
                != bind_request(args)->0.interface,
    ensures
        registry_bind(pre, args, globals) == (pre, Ok::<(), ProtocolError>(())),
{
    let request = bind_request(args)->0;
    lemma_find_global(globals, request.name);
    match find_global(globals, request.name) {
        Some(global) => {
            let i = choose|i: int| 0 <= i < globals.len() && globals[i] == global;
            assert(globals[i].1.name().spec_bytes() != request.interface);
        },
        None => {},
    }
}

/// A bind whose interface is no well-formed UTF-8 is a `MalformedFrame`,
/// whatever else the request says, and changes nothing.
pub proof fn lemma_bind_refuses_bad_utf8(pre: ClientView, args: Seq<u8>, globals: Seq<Global>)
    requires
        args.len() >= 4,
        string_at(args, 4) is Some,
        !valid_utf8(string_content(args, 4)),
    ensures
        registry_bind(pre, args, globals) == (
            pre,
            Err::<(), ProtocolError>(ProtocolError::MalformedFrame),
        ),
{
}

/// A pool of size 0 fails with `MappingError`.
pub proof fn lemma_create_pool_of_size_zero(pre: ClientView, args: Seq<u8>, fds: Seq<i32>)
    requires
        args.len() >= 8,
        i32_at(args, 4) == 0,
        fds.len() > 0,
    ensures
        shm_create_pool(pre, args, fds).0 == pre,
        shm_create_pool(pre, args, fds).2 == Err::<(), ProtocolError>(ProtocolError::MappingError),
{
}

/// A transform outside 0 to 7 is refused with `ProtocolViolation`, and the
/// surface stays as it was.
pub proof fn lemma_transform_out_of_range(pre: ClientView, id: u32, args: Seq<u8>)
    requires
        pre.surface(id) is Some,
        args.len() >= 4,
        !(0 <= i32_at(args, 0) <= 7),
    ensures
        surface_set_buffer_transform(pre, id, args) == (
            pre,
            Err::<(), ProtocolError>(ProtocolError::ProtocolViolation),
        ),
{
}

/// A request takes nothing back: what was queued before it is still
/// queued, in the same order, and what the request queues stands behind it.
pub proof fn lemma_effects_are_appended(
    pre: ClientView,
    fds: Seq<i32>,
    globals: Seq<Global>,
    id: u32,
    op_code: u16,
    args: Seq<u8>,
)
    ensures
        ({
            let post = dispatch(pre, fds, globals, id, op_code, args).state;
            &&& pre.outbox.len() <= post.outbox.len()
            &&& post.outbox.subrange(0, pre.outbox.len() as int) == pre.outbox
        }),
{
    let post = dispatch(pre, fds, globals, id, op_code, args).state;
    assert(pre.outbox.len() <= post.outbox.len());
    assert(post.outbox.subrange(0, pre.outbox.len() as int) =~= pre.outbox);
}

/// Descriptors are handed to requests in the order of their arrival: a
/// pool made after a read gets the descriptor that has waited longest, and
/// the others wait on in their order.
pub proof fn lemma_descriptors_in_order(
    receiver: ReceiverView,
    bytes: Seq<u8>,
    fds: Seq<i32>,
    client: ClientView,
    args: Seq<u8>,
)
    requires
        received(receiver, bytes, fds).1 is Ok,
        shm_create_pool(client, args, received(receiver, bytes, fds).0.fds).2 is Ok,
    ensures
        ({
            let waiting = receiver.fds + fds;
            let step = shm_create_pool(client, args, received(receiver, bytes, fds).0.fds);
            &&& waiting.len() > 0
            &&& step.0.outbox.last() == (EffectView::MapPool {
                pool_id: u32_at(args, 0),
                mapping: client.next_mapping,
                fd: waiting[0],
                size: i32_at(args, 4) as u32,
            })
            &&& step.1 == waiting.subrange(1, waiting.len() as int)
        }),
{
}

/// A request that is passed over leaves everything as it was and is no
/// fault: the objects, the queued effects and the waiting descriptors stay.
pub proof fn lemma_skipped_requests_change_nothing(
    pre: ClientView,
    fds: Seq<i32>,
    globals: Seq<Global>,
    id: u32,
    op_code: u16,
    args: Seq<u8>,
)
    requires
        skip_reason(pre, globals, id, op_code, args) is Some,
    ensures
        dispatch(pre, fds, globals, id, op_code, args) == (Step {
            state: pre,
            fds,
            result: Ok(()),
        }),
{
}

/// Making a pool: on a shm object, with a descriptor waiting, a positive
/// size, a new id that is free and a mapping handle left, `create_pool`
/// succeeds. The pool is bound under the new id with the descriptor that
/// waited longest, the mapping of exactly `size` bytes of it is queued and
/// no event, the other descriptors wait on, and no other object changes.
pub proof fn lemma_pool_is_made(
    pre: ClientView,
    fds: Seq<i32>,
    globals: Seq<Global>,
    shm: u32,
    args: Seq<u8>,
)
    requires
        pre.kind(shm) == Some(Interface::WlShm),
        args.len() >= 8,
        fds.len() > 0,
        i32_at(args, 4) > 0,
        !pre.objects.contains_key(u32_at(args, 0)),
        pre.next_mapping < u64::MAX,
    ensures
        ({
            let step = dispatch(pre, fds, globals, shm, 0, args);
            let new_id = u32_at(args, 0);
            &&& step.result == Ok::<(), ProtocolError>(())
            &&& step.fds == fds.subrange(1, fds.len() as int)
            &&& step.state.objects == pre.objects.insert(
                new_id,
                ObjectView::WlShmPool(pre.next_mapping, fds[0]),
            )
            &&& step.state.outbox == pre.outbox.push(
                EffectView::MapPool {
                    pool_id: new_id,
                    mapping: pre.next_mapping,
                    fd: fds[0],
                    size: i32_at(args, 4) as u32,
                },
            )
        }),
{
}

/// Making and destroying a buffer: on a pool, with a new id that is free,
/// `create_buffer` binds a buffer with the values sent that shares the
/// pool's mapping, and queues nothing. Destroying the buffer then leaves
/// the objects as they were before it was made, and again queues nothing:
/// the pool still holds on to the mapping.
pub proof fn lemma_buffer_is_made_and_destroyed(
    pre: ClientView,
    fds: Seq<i32>,
    globals: Seq<Global>,
    pool: u32,
    args: Seq<u8>,
)
    requires
        pre.pool_mapping(pool) is Some,
        args.len() >= 24,
        !pre.objects.contains_key(u32_at(args, 0)),
    ensures
        ({
            let new_id = u32_at(args, 0);
            let made = dispatch(pre, fds, globals, pool, 0, args);
            let destroyed = dispatch(made.state, made.fds, globals, new_id, 0, Seq::empty());
            &&& made.result == Ok::<(), ProtocolError>(())
            &&& made.fds == fds
            &&& made.state.objects == pre.objects.insert(
                new_id,
                ObjectView::WlBuffer(buffer_at(args, pre.pool_mapping(pool)->0)),
            )
            &&& made.state.outbox == pre.outbox
            &&& destroyed.result == Ok::<(), ProtocolError>(())
            &&& destroyed.state.objects == pre.objects
            &&& destroyed.state.outbox == pre.outbox
        }),
{
    let new_id = u32_at(args, 0);
    let mapping = pre.pool_mapping(pool)->0;
    assert(pre.holders(mapping).contains(pool));
    assert(pre.mapping_live(mapping));
    let made = dispatch(pre, fds, globals, pool, 0, args);
    assert(made.state.objects.contains_key(new_id));
    let rest = ClientView { objects: made.state.objects.remove(new_id), ..made.state };
    assert(rest.objects =~= pre.objects);
    assert(rest.holders(mapping).contains(pool));
    assert(rest.mapping_live(mapping));
}

/// A bind request as a client writes it is read back as it was written:
/// name, the interface as a string, version and new id.
pub proof fn lemma_bind_request_round_trip(
    name: u32,
    interface: Seq<char>,
    version: u32,
    new_id: u32,
)
    requires
        encode_utf8(interface).len() < u32::MAX,
    ensures
        bind_request(
            u32_le(name) + wayland_string(encode_utf8(interface)) + u32_le(version) + u32_le(
                new_id,
            ),
        ) == Some(
            BindRequest { name, interface: encode_utf8(interface), version, new_id },
        ),
{
    let content = encode_utf8(interface);
    let text = wayland_string(content);
    let behind = u32_le(version) + u32_le(new_id);
    let args = u32_le(name) + text + u32_le(version) + u32_le(new_id);
    let next = 4 + text.len() as int;
    encode_utf8_valid_utf8(interface);
    lemma_wayland_string_len(content);
    lemma_string_round_trip(content, behind);
    lemma_u32_round_trip(name);
    lemma_u32_round_trip(version);
    lemma_u32_round_trip(new_id);
    assert(args.subrange(4, args.len() as int) =~= text + behind);
    lemma_string_at_shifted(args, 4);
    assert(args.len() == next + 8);
    assert(args.subrange(0, 4) =~= u32_le(name));
    assert(args.subrange(next, next + 4) =~= u32_le(version));
    assert(args.subrange(next + 4, next + 8) =~= u32_le(new_id));
    lemma_u32_at_subrange(args, 0);
    lemma_u32_at_subrange(args, next);
    lemma_u32_at_subrange(args, next + 4);
}

} // verus!
