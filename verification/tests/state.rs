use compositor_core::client::CompositorClientState;
use compositor_core::effect::Effect;
use compositor_core::error::ProtocolError;
use compositor_core::globals::CompositorGlobalState;
use compositor_core::object::Interface;
use compositor_core::wire::Message;
use compositor_core::wl_output::WlOutputTransform;
use compositor_core::wl_surface::SurfaceState;
use std::collections::VecDeque;

fn ints(values: &[i32]) -> Vec<u8> {
    let mut bytes = Vec::new();
    for value in values {
        bytes.extend_from_slice(&value.to_le_bytes());
    }
    bytes
}

fn bind_request(name: i32, interface: &str, new_id: i32) -> Vec<u8> {
    let mut args = ints(&[name, interface.len() as i32 + 1]);
    args.extend_from_slice(interface.as_bytes());
    args.push(0);
    while args.len() % 4 != 0 {
        args.push(0);
    }
    args.extend_from_slice(&ints(&[1, new_id]));
    args
}

fn handle(
    client: &mut CompositorClientState,
    fds: &mut VecDeque<i32>,
    object_id: u32,
    op_code: u16,
    args: &[u8],
) -> Result<(), ProtocolError> {
    client.handle_message(object_id, op_code, args, fds, &CompositorGlobalState::default())
}

/// Registry 2, compositor 3, shm 4, surface 7.
fn session() -> (CompositorClientState, VecDeque<i32>) {
    let mut client = CompositorClientState::new();
    let mut fds = VecDeque::new();
    assert_eq!(handle(&mut client, &mut fds, 1, 1, &ints(&[2])), Ok(()));
    assert_eq!(handle(&mut client, &mut fds, 2, 0, &bind_request(2, "wl_compositor", 3)), Ok(()));
    assert_eq!(handle(&mut client, &mut fds, 2, 0, &bind_request(1, "wl_shm", 4)), Ok(()));
    assert_eq!(handle(&mut client, &mut fds, 3, 0, &ints(&[7])), Ok(()));
    client.take_effects();
    (client, fds)
}

fn ids(client: &CompositorClientState) -> Vec<u32> {
    (0u32..300).filter(|id| client.snapshot_kind(*id).is_some()).collect()
}

#[test]
fn the_registry_holds_what_was_created_and_not_destroyed() {
    let (mut client, mut fds) = session();
    assert_eq!(ids(&client), vec![1, 2, 3, 4, 7]);
    assert_eq!(client.object_count(), 5);
    fds.push_back(20);
    assert_eq!(handle(&mut client, &mut fds, 4, 0, &ints(&[5, 4096])), Ok(()));
    assert_eq!(handle(&mut client, &mut fds, 5, 0, &ints(&[6, 0, 16, 16, 64, 0])), Ok(()));
    assert_eq!(handle(&mut client, &mut fds, 3, 1, &ints(&[8])), Ok(()));
    assert_eq!(handle(&mut client, &mut fds, 1, 0, &ints(&[9])), Ok(()));
    assert_eq!(handle(&mut client, &mut fds, 7, 3, &ints(&[10])), Ok(()));
    assert_eq!(ids(&client), vec![1, 2, 3, 4, 5, 6, 7, 8, 9, 10]);
    assert_eq!(client.snapshot_kind(8), Some(Interface::WlRegion));
    // destroy the buffer, the pool, the surface, release shm
    assert_eq!(handle(&mut client, &mut fds, 6, 0, &[]), Ok(()));
    assert_eq!(ids(&client), vec![1, 2, 3, 4, 5, 7, 8, 9, 10]);
    assert_eq!(handle(&mut client, &mut fds, 5, 1, &[]), Ok(()));
    assert_eq!(ids(&client), vec![1, 2, 3, 4, 7, 8, 9, 10]);
    assert_eq!(handle(&mut client, &mut fds, 7, 0, &[]), Ok(()));
    assert_eq!(ids(&client), vec![1, 2, 3, 4, 8, 9, 10]);
    assert_eq!(handle(&mut client, &mut fds, 4, 1, &[]), Ok(()));
    assert_eq!(ids(&client), vec![1, 2, 3, 8, 9, 10]);
    assert_eq!(client.object_count(), 6);
    // an id that was destroyed can be created again
    assert_eq!(handle(&mut client, &mut fds, 3, 0, &ints(&[7])), Ok(()));
    assert_eq!(ids(&client), vec![1, 2, 3, 7, 8, 9, 10]);
    assert_eq!(client.surface(7), Some(&SurfaceState::new()));
}

#[test]
fn a_failed_request_leaves_the_registry_alone() {
    let (mut client, mut fds) = session();
    let before = ids(&client);
    assert_eq!(handle(&mut client, &mut fds, 3, 0, &ints(&[4])), Err(ProtocolError::InvalidObject));
    assert_eq!(handle(&mut client, &mut fds, 3, 0, &[1, 2]), Err(ProtocolError::MalformedFrame));
    assert_eq!(handle(&mut client, &mut fds, 4, 0, &ints(&[5, 64])), Err(ProtocolError::ProtocolViolation));
    assert_eq!(handle(&mut client, &mut fds, 7, 7, &ints(&[8])), Err(ProtocolError::ProtocolViolation));
    assert_eq!(ids(&client), before);
    assert_eq!(client.surface(7), Some(&SurfaceState::new()));
    assert!(client.take_effects().is_empty());
}

#[test]
fn a_new_surface_has_the_documented_defaults() {
    let surface = SurfaceState::new();
    assert_eq!(surface, SurfaceState::default());
    assert_eq!(surface.pending_buffer, None);
    assert_eq!(surface.current_buffer, None);
    assert!(surface.pending_surface_damage.is_empty());
    assert!(surface.current_surface_damage.is_empty());
    assert!(surface.pending_buffer_damage.is_empty());
    assert!(surface.current_buffer_damage.is_empty());
    assert_eq!(surface.pending_opaque_region, None);
    assert_eq!(surface.current_opaque_region, None);
    assert_eq!(surface.pending_input_region, None);
    assert_eq!(surface.current_input_region, None);
    assert_eq!(surface.pending_transform, WlOutputTransform::Normal);
    assert_eq!(surface.current_transform, WlOutputTransform::Normal);
    assert_eq!(surface.pending_scale, 1);
    assert_eq!(surface.current_scale, 1);
    assert_eq!(surface.pending_offset, (0, 0));
    assert_eq!(surface.current_offset, (0, 0));
    assert!(surface.frame_callbacks.is_empty());
    assert_eq!(surface.buffer_scale(), 1);
}

#[test]
fn requests_write_the_pending_slots_only() {
    let (mut client, mut fds) = session();
    assert_eq!(handle(&mut client, &mut fds, 7, 1, &ints(&[9, 3, 4])), Ok(()));
    assert_eq!(handle(&mut client, &mut fds, 7, 2, &ints(&[1, 2, 3, 4])), Ok(()));
    assert_eq!(handle(&mut client, &mut fds, 7, 2, &ints(&[-5, -6, 7, 8])), Ok(()));
    assert_eq!(handle(&mut client, &mut fds, 7, 9, &ints(&[10, 20, 30, 40])), Ok(()));
    assert_eq!(handle(&mut client, &mut fds, 7, 4, &ints(&[11])), Ok(()));
    assert_eq!(handle(&mut client, &mut fds, 7, 5, &ints(&[12])), Ok(()));
    assert_eq!(handle(&mut client, &mut fds, 7, 7, &ints(&[3])), Ok(()));
    assert_eq!(handle(&mut client, &mut fds, 7, 8, &ints(&[2])), Ok(()));
    assert_eq!(handle(&mut client, &mut fds, 7, 10, &ints(&[-7, 9])), Ok(()));
    let mut expected = SurfaceState::new();
    expected.pending_buffer = Some(9);
    expected.pending_surface_damage = vec![(1, 2, 3, 4), (-5, -6, 7, 8)];
    expected.pending_buffer_damage = vec![(10, 20, 30, 40)];
    expected.pending_opaque_region = Some(11);
    expected.pending_input_region = Some(12);
    expected.pending_transform = WlOutputTransform::Rotate270;
    expected.pending_scale = 2;
    expected.pending_offset = (-7, 9);
    assert_eq!(client.surface(7), Some(&expected));
    assert!(client.take_effects().is_empty());
}

#[test]
fn commit_copies_every_pending_slot() {
    let (mut client, mut fds) = session();
    assert_eq!(handle(&mut client, &mut fds, 7, 1, &ints(&[9, 0, 0])), Ok(()));
    assert_eq!(handle(&mut client, &mut fds, 7, 2, &ints(&[1, 2, 3, 4])), Ok(()));
    assert_eq!(handle(&mut client, &mut fds, 7, 9, &ints(&[10, 20, 30, 40])), Ok(()));
    assert_eq!(handle(&mut client, &mut fds, 7, 4, &ints(&[11])), Ok(()));
    assert_eq!(handle(&mut client, &mut fds, 7, 5, &ints(&[12])), Ok(()));
    assert_eq!(handle(&mut client, &mut fds, 7, 7, &ints(&[6])), Ok(()));
    assert_eq!(handle(&mut client, &mut fds, 7, 8, &ints(&[3])), Ok(()));
    assert_eq!(handle(&mut client, &mut fds, 7, 10, &ints(&[5, -5])), Ok(()));
    assert_eq!(handle(&mut client, &mut fds, 7, 6, &[]), Ok(()));
    let surface = client.surface(7).unwrap();
    assert_eq!(surface.current_buffer, Some(9));
    assert_eq!(surface.current_surface_damage, vec![(1, 2, 3, 4)]);
    assert_eq!(surface.current_buffer_damage, vec![(10, 20, 30, 40)]);
    assert_eq!(surface.current_opaque_region, Some(11));
    assert_eq!(surface.current_input_region, Some(12));
    assert_eq!(surface.current_transform, WlOutputTransform::Flipped180);
    assert_eq!(surface.current_scale, 3);
    assert_eq!(surface.current_offset, (5, -5));
    assert!(surface.pending_surface_damage.is_empty());
    assert!(surface.pending_buffer_damage.is_empty());
    assert_eq!(surface.buffer_scale(), 3);
}

#[test]
fn a_second_commit_without_damage_changes_nothing() {
    let (mut client, mut fds) = session();
    assert_eq!(handle(&mut client, &mut fds, 7, 1, &ints(&[9, 0, 0])), Ok(()));
    assert_eq!(handle(&mut client, &mut fds, 7, 4, &ints(&[11])), Ok(()));
    assert_eq!(handle(&mut client, &mut fds, 7, 7, &ints(&[1])), Ok(()));
    assert_eq!(handle(&mut client, &mut fds, 7, 8, &ints(&[2])), Ok(()));
    assert_eq!(handle(&mut client, &mut fds, 7, 3, &ints(&[50])), Ok(()));
    assert_eq!(handle(&mut client, &mut fds, 7, 6, &[]), Ok(()));
    assert_eq!(client.take_effects().len(), 1);
    let mut once = SurfaceState::new();
    once.pending_buffer = Some(9);
    once.current_buffer = Some(9);
    once.pending_opaque_region = Some(11);
    once.current_opaque_region = Some(11);
    once.pending_transform = WlOutputTransform::Rotate90;
    once.current_transform = WlOutputTransform::Rotate90;
    once.pending_scale = 2;
    once.current_scale = 2;
    assert_eq!(client.surface(7), Some(&once));
    let before = ids(&client);
    assert_eq!(handle(&mut client, &mut fds, 7, 6, &[]), Ok(()));
    assert_eq!(client.surface(7), Some(&once));
    assert_eq!(ids(&client), before);
    assert!(client.take_effects().is_empty());
}

#[test]
fn a_second_commit_applies_the_emptied_damage() {
    let (mut client, mut fds) = session();
    assert_eq!(handle(&mut client, &mut fds, 7, 2, &ints(&[0, 0, 10, 10])), Ok(()));
    assert_eq!(handle(&mut client, &mut fds, 7, 6, &[]), Ok(()));
    assert_eq!(client.surface(7).unwrap().current_surface_damage, vec![(0, 0, 10, 10)]);
    assert_eq!(handle(&mut client, &mut fds, 7, 6, &[]), Ok(()));
    assert!(client.surface(7).unwrap().current_surface_damage.is_empty());
}

#[test]
fn the_scale_is_taken_as_sent_and_read_as_at_least_one() {
    let (mut client, mut fds) = session();
    for (sent, read) in [(0i32, 1i32), (-3, 1), (1, 1), (4, 4), (i32::MIN, 1), (i32::MAX, i32::MAX)] {
        assert_eq!(handle(&mut client, &mut fds, 7, 8, &ints(&[sent])), Ok(()));
        assert_eq!(handle(&mut client, &mut fds, 7, 6, &[]), Ok(()));
        let surface = client.surface(7).unwrap();
        assert_eq!(surface.current_scale, sent);
        assert_eq!(surface.buffer_scale(), read);
    }
}

#[test]
fn surface_commit_hands_out_the_waiting_callbacks() {
    let mut surface = SurfaceState::new();
    surface.pending_buffer = Some(4);
    surface.pending_surface_damage.push((1, 1, 2, 2));
    surface.frame_callbacks.push(30);
    surface.frame_callbacks.push(20);
    assert_eq!(surface.commit(), vec![30, 20]);
    assert_eq!(surface.current_buffer, Some(4));
    assert_eq!(surface.pending_buffer, Some(4));
    assert_eq!(surface.current_surface_damage, vec![(1, 1, 2, 2)]);
    assert!(surface.pending_surface_damage.is_empty());
    assert_eq!(surface.commit(), Vec::<u32>::new());
}

#[test]
fn a_mapping_is_released_with_its_last_holder() {
    let (mut client, mut fds) = session();
    fds.push_back(20);
    assert_eq!(handle(&mut client, &mut fds, 4, 0, &ints(&[5, 4096])), Ok(()));
    assert_eq!(handle(&mut client, &mut fds, 5, 0, &ints(&[6, 0, 16, 16, 64, 0])), Ok(()));
    assert_eq!(handle(&mut client, &mut fds, 5, 0, &ints(&[8, 1024, 8, 8, 32, 1])), Ok(()));
    client.take_effects();
    assert!(client.mapping_live(0));
    assert!(!client.mapping_live(1));
    // the pool goes first: its buffers keep the mapping
    assert_eq!(handle(&mut client, &mut fds, 5, 1, &[]), Ok(()));
    assert!(client.take_effects().is_empty());
    assert!(client.mapping_live(0));
    assert_eq!(client.buffer(6).unwrap().shm_pool, 0);
    assert_eq!(handle(&mut client, &mut fds, 6, 0, &[]), Ok(()));
    assert!(client.take_effects().is_empty());
    assert!(client.mapping_live(0));
    assert_eq!(handle(&mut client, &mut fds, 8, 0, &[]), Ok(()));
    assert_eq!(client.take_effects(), vec![Effect::ReleaseMapping { mapping: 0 }]);
    assert!(!client.mapping_live(0));
}

#[test]
fn a_pool_without_buffers_releases_its_mapping_when_destroyed() {
    let (mut client, mut fds) = session();
    fds.push_back(20);
    fds.push_back(21);
    assert_eq!(handle(&mut client, &mut fds, 4, 0, &ints(&[5, 4096])), Ok(()));
    assert_eq!(handle(&mut client, &mut fds, 5, 0, &ints(&[6, 0, 16, 16, 64, 0])), Ok(()));
    assert_eq!(handle(&mut client, &mut fds, 6, 0, &[]), Ok(()));
    client.take_effects();
    assert_eq!(handle(&mut client, &mut fds, 5, 1, &[]), Ok(()));
    assert_eq!(client.take_effects(), vec![Effect::ReleaseMapping { mapping: 0 }]);
    // the id of the pool is free again and gets a mapping of its own
    assert_eq!(handle(&mut client, &mut fds, 4, 0, &ints(&[5, 128])), Ok(()));
    assert_eq!(client.pool_mapping(5), Some(1));
    assert_eq!(
        client.take_effects(),
        vec![Effect::MapPool { pool_id: 5, mapping: 1, fd: 21, size: 128 }]
    );
}

#[test]
fn a_buffer_outlives_a_pool_whose_id_is_taken_again() {
    let (mut client, mut fds) = session();
    fds.push_back(20);
    fds.push_back(21);
    assert_eq!(handle(&mut client, &mut fds, 4, 0, &ints(&[5, 4096])), Ok(()));
    assert_eq!(handle(&mut client, &mut fds, 5, 0, &ints(&[6, 0, 16, 16, 64, 0])), Ok(()));
    assert_eq!(handle(&mut client, &mut fds, 5, 1, &[]), Ok(()));
    assert_eq!(handle(&mut client, &mut fds, 4, 0, &ints(&[5, 64])), Ok(()));
    assert_eq!(client.pool_mapping(5), Some(1));
    assert_eq!(client.buffer(6).unwrap().shm_pool, 0);
    client.take_effects();
    assert_eq!(handle(&mut client, &mut fds, 5, 1, &[]), Ok(()));
    assert_eq!(client.take_effects(), vec![Effect::ReleaseMapping { mapping: 1 }]);
    assert_eq!(handle(&mut client, &mut fds, 6, 0, &[]), Ok(()));
    assert_eq!(client.take_effects(), vec![Effect::ReleaseMapping { mapping: 0 }]);
}

#[test]
fn resize_queues_the_resizing_of_the_mapping() {
    let (mut client, mut fds) = session();
    fds.push_back(20);
    assert_eq!(handle(&mut client, &mut fds, 4, 0, &ints(&[5, 4096])), Ok(()));
    assert_eq!(handle(&mut client, &mut fds, 5, 0, &ints(&[6, 0, 16, 16, 64, 0])), Ok(()));
    client.take_effects();
    assert_eq!(handle(&mut client, &mut fds, 5, 2, &ints(&[8192])), Ok(()));
    assert_eq!(client.take_effects(), vec![Effect::ResizePool { mapping: 0, new_size: 8192 }]);
    assert_eq!(client.buffer(6).unwrap().shm_pool, 0);
    assert_eq!(client.pool_mapping(5), Some(0));
    assert_eq!(handle(&mut client, &mut fds, 5, 2, &[0, 0]), Err(ProtocolError::MalformedFrame));
}

#[test]
fn taking_the_effects_empties_the_queue() {
    let (mut client, mut fds) = session();
    assert_eq!(handle(&mut client, &mut fds, 1, 0, &ints(&[30])), Ok(()));
    assert_eq!(handle(&mut client, &mut fds, 1, 0, &ints(&[31])), Ok(()));
    let effects = client.take_effects();
    assert_eq!(
        effects,
        vec![
            Effect::Event(Message { object_id: 30, op_code: 0, args: vec![0, 0, 0, 0] }),
            Effect::Event(Message { object_id: 31, op_code: 0, args: vec![0, 0, 0, 0] }),
        ]
    );
    assert!(client.take_effects().is_empty());
    assert_eq!(ids(&client), vec![1, 2, 3, 4, 7, 30, 31]);
}
