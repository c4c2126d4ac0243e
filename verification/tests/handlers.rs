use compositor_core::client::CompositorClientState;
use compositor_core::dispatch::{interface_has_request, Skipped};
use compositor_core::effect::Effect;
use compositor_core::error::ProtocolError;
use compositor_core::globals::CompositorGlobalState;
use compositor_core::object::{Interface, WaylandObject};
use compositor_core::wire::Message;
use compositor_core::wl_output::WlOutputTransform;
use compositor_core::wl_registry::{find_bound_global, read_bind_request};
use compositor_core::wl_shm::WlShmFormat;
use compositor_core::wl_surface::{
    send_wl_surface_enter, send_wl_surface_leave, send_wl_surface_preferred_buffer_scale,
    send_wl_surface_preferred_buffer_transform, SurfaceState,
};
use std::collections::VecDeque;

fn le(values: &[u32]) -> Vec<u8> {
    let mut bytes = Vec::new();
    for value in values {
        bytes.extend_from_slice(&value.to_le_bytes());
    }
    bytes
}

fn sent(object_id: u32, op_code: u16, args: Vec<u8>) -> Effect {
    Effect::Event(Message { object_id, op_code, args })
}

fn bind(name: u32, interface: &str, new_id: u32) -> Vec<u8> {
    let mut args = le(&[name, interface.len() as u32 + 1]);
    args.extend_from_slice(interface.as_bytes());
    args.push(0);
    while args.len() % 4 != 0 {
        args.push(0);
    }
    args.extend_from_slice(&le(&[1, new_id]));
    args
}

fn send(
    client: &mut CompositorClientState,
    fds: &mut VecDeque<i32>,
    object_id: u32,
    op_code: u16,
    args: &[u8],
) -> Result<(), ProtocolError> {
    client.handle_message(object_id, op_code, args, fds, &CompositorGlobalState::default())
}

/// Registry under 2, shm under 4, compositor under 3, surface under 7.
fn populated() -> (CompositorClientState, VecDeque<i32>) {
    let mut client = CompositorClientState::new();
    let mut fds = VecDeque::new();
    assert_eq!(send(&mut client, &mut fds, 1, 1, &le(&[2])), Ok(()));
    assert_eq!(send(&mut client, &mut fds, 2, 0, &bind(1, "wl_shm", 4)), Ok(()));
    assert_eq!(send(&mut client, &mut fds, 2, 0, &bind(2, "wl_compositor", 3)), Ok(()));
    assert_eq!(send(&mut client, &mut fds, 3, 0, &le(&[7])), Ok(()));
    client.take_effects();
    (client, fds)
}

fn bound_ids(client: &CompositorClientState) -> Vec<u32> {
    (0u32..200).filter(|id| client.snapshot_kind(*id).is_some()).collect()
}

#[test]
fn bind_to_an_unknown_interface_does_nothing() {
    let (mut client, mut fds) = populated();
    let before = bound_ids(&client);
    assert_eq!(send(&mut client, &mut fds, 2, 0, &bind(1, "wl_seat", 9)), Ok(()));
    assert_eq!(send(&mut client, &mut fds, 2, 0, &bind(1, "wl_compositor", 9)), Ok(()));
    assert_eq!(send(&mut client, &mut fds, 2, 0, &bind(1, "", 9)), Ok(()));
    assert_eq!(bound_ids(&client), before);
    assert!(client.take_effects().is_empty());
}

#[test]
fn bind_to_an_unknown_name_does_nothing() {
    let (mut client, mut fds) = populated();
    let before = bound_ids(&client);
    assert_eq!(send(&mut client, &mut fds, 2, 0, &bind(99, "wl_shm", 9)), Ok(()));
    assert_eq!(send(&mut client, &mut fds, 2, 0, &bind(0, "wl_shm", 9)), Ok(()));
    assert_eq!(bound_ids(&client), before);
    assert!(client.take_effects().is_empty());
}

#[test]
fn bind_to_a_global_that_cannot_be_bound_is_a_violation() {
    let mut client = CompositorClientState::new();
    let globals = CompositorGlobalState { globals: vec![(5, Interface::WlSurface, 1)] };
    let result = client.handle_wl_registry_bind(&bind(5, "wl_surface", 9), &globals);
    assert_eq!(result, Err(ProtocolError::ProtocolViolation));
    assert_eq!(client.snapshot_kind(9), None);
}

#[test]
fn bind_takes_the_first_global_of_a_name() {
    let mut client = CompositorClientState::new();
    let globals = CompositorGlobalState {
        globals: vec![(5, Interface::WlCompositor, 1), (5, Interface::WlShm, 1)],
    };
    assert_eq!(globals.find(5), Some((5, Interface::WlCompositor, 1)));
    assert_eq!(globals.find(6), None);
    assert_eq!(client.handle_wl_registry_bind(&bind(5, "wl_shm", 9), &globals), Ok(()));
    assert_eq!(client.snapshot_kind(9), None);
    assert_eq!(client.handle_wl_registry_bind(&bind(5, "wl_compositor", 9), &globals), Ok(()));
    assert_eq!(client.snapshot_kind(9), Some(Interface::WlCompositor));
}

#[test]
fn bind_with_a_broken_argument_area_is_malformed() {
    let (mut client, mut fds) = populated();
    let whole = bind(1, "wl_shm", 9);
    for cut in 0..whole.len() {
        assert_eq!(
            send(&mut client, &mut fds, 2, 0, &whole[..cut]),
            Err(ProtocolError::MalformedFrame),
            "cut at {}",
            cut
        );
    }
    let mut padded = whole.clone();
    padded[15] = 1;
    assert_eq!(send(&mut client, &mut fds, 2, 0, &padded), Err(ProtocolError::MalformedFrame));
    let mut unterminated = whole.clone();
    unterminated[4] = 0;
    assert_eq!(send(&mut client, &mut fds, 2, 0, &unterminated), Err(ProtocolError::MalformedFrame));
    assert_eq!(client.snapshot_kind(9), None);
}

#[test]
fn a_pool_of_size_zero_fails_with_a_mapping_error() {
    let (mut client, mut fds) = populated();
    fds.push_back(30);
    assert_eq!(send(&mut client, &mut fds, 4, 0, &le(&[5, 0])), Err(ProtocolError::MappingError));
    assert_eq!(client.snapshot_kind(5), None);
    assert!(client.take_effects().is_empty());
}

#[test]
fn a_pool_of_negative_size_fails_with_a_mapping_error() {
    let (mut client, mut fds) = populated();
    fds.push_back(30);
    let mut args = le(&[5]);
    args.extend_from_slice(&(-4096i32).to_le_bytes());
    assert_eq!(send(&mut client, &mut fds, 4, 0, &args), Err(ProtocolError::MappingError));
    assert_eq!(client.snapshot_kind(5), None);
}

#[test]
fn a_pool_without_a_descriptor_is_a_violation() {
    let (mut client, mut fds) = populated();
    assert_eq!(
        send(&mut client, &mut fds, 4, 0, &le(&[5, 4096])),
        Err(ProtocolError::ProtocolViolation)
    );
    assert_eq!(client.snapshot_kind(5), None);
}

#[test]
fn a_pool_takes_the_oldest_descriptor() {
    let (mut client, mut fds) = populated();
    fds.push_back(30);
    fds.push_back(31);
    assert_eq!(send(&mut client, &mut fds, 4, 0, &le(&[5, 1])), Ok(()));
    assert_eq!(fds, VecDeque::from(vec![31]));
    assert_eq!(
        client.take_effects(),
        vec![Effect::MapPool { pool_id: 5, mapping: 0, fd: 30, size: 1 }]
    );
    assert_eq!(send(&mut client, &mut fds, 4, 0, &le(&[6, 0x7fff_ffff])), Ok(()));
    assert!(fds.is_empty());
    assert_eq!(
        client.take_effects(),
        vec![Effect::MapPool { pool_id: 6, mapping: 1, fd: 31, size: 0x7fff_ffff }]
    );
}

#[test]
fn a_malformed_create_pool_leaves_the_descriptors() {
    let (mut client, mut fds) = populated();
    fds.push_back(30);
    assert_eq!(send(&mut client, &mut fds, 4, 0, &le(&[5])), Err(ProtocolError::MalformedFrame));
    assert_eq!(fds.len(), 1);
}

#[test]
fn a_transform_out_of_range_is_a_violation() {
    let (mut client, mut fds) = populated();
    for value in [8i32, 9, -1, i32::MAX, i32::MIN] {
        assert_eq!(
            send(&mut client, &mut fds, 7, 7, &value.to_le_bytes()),
            Err(ProtocolError::ProtocolViolation)
        );
    }
    assert_eq!(client.surface(7).unwrap().pending_transform, WlOutputTransform::Normal);
}

#[test]
fn every_transform_in_range_is_taken() {
    let (mut client, mut fds) = populated();
    let all = [
        WlOutputTransform::Normal,
        WlOutputTransform::Rotate90,
        WlOutputTransform::Rotate180,
        WlOutputTransform::Rotate270,
        WlOutputTransform::Flipped,
        WlOutputTransform::Flipped90,
        WlOutputTransform::Flipped180,
        WlOutputTransform::Flipped270,
    ];
    for (value, transform) in all.iter().enumerate() {
        assert_eq!(WlOutputTransform::from_i32(value as i32), Some(*transform));
        assert_eq!(transform.as_i32(), value as i32);
        assert_eq!(send(&mut client, &mut fds, 7, 7, &le(&[value as u32])), Ok(()));
        assert_eq!(client.surface(7).unwrap().pending_transform, *transform);
    }
    assert_eq!(WlOutputTransform::from_i32(8), None);
    assert_eq!(WlOutputTransform::from_i32(-1), None);
    assert_eq!(WlOutputTransform::default(), WlOutputTransform::Normal);
    assert_eq!(client.surface(7).unwrap().current_transform, WlOutputTransform::Normal);
}

#[test]
fn a_new_id_that_is_bound_is_an_invalid_object() {
    let (mut client, mut fds) = populated();
    fds.push_back(30);
    fds.push_back(31);
    assert_eq!(send(&mut client, &mut fds, 1, 0, &le(&[7])), Err(ProtocolError::InvalidObject));
    assert_eq!(send(&mut client, &mut fds, 1, 1, &le(&[1])), Err(ProtocolError::InvalidObject));
    assert_eq!(send(&mut client, &mut fds, 2, 0, &bind(1, "wl_shm", 4)), Err(ProtocolError::InvalidObject));
    assert_eq!(send(&mut client, &mut fds, 3, 0, &le(&[7])), Err(ProtocolError::InvalidObject));
    assert_eq!(send(&mut client, &mut fds, 3, 1, &le(&[3])), Err(ProtocolError::InvalidObject));
    assert_eq!(send(&mut client, &mut fds, 7, 3, &le(&[7])), Err(ProtocolError::InvalidObject));
    assert_eq!(send(&mut client, &mut fds, 7, 3, &le(&[2])), Err(ProtocolError::InvalidObject));
    assert_eq!(send(&mut client, &mut fds, 4, 0, &le(&[2, 64])), Err(ProtocolError::InvalidObject));
    assert_eq!(send(&mut client, &mut fds, 4, 0, &le(&[5, 64])), Ok(()));
    assert_eq!(
        send(&mut client, &mut fds, 5, 0, &le(&[5, 0, 1, 1, 4, 0])),
        Err(ProtocolError::InvalidObject)
    );
    assert_eq!(client.snapshot_kind(7), Some(Interface::WlSurface));
    assert!(client.surface(7).unwrap().frame_callbacks.is_empty());
    assert_eq!(bound_ids(&client), vec![1, 2, 3, 4, 5, 7]);
}

#[test]
fn a_handler_on_the_wrong_object_is_an_invalid_object() {
    let (mut client, _fds) = populated();
    assert_eq!(client.handle_wl_surface_attach(3, &le(&[9, 0, 0])), Err(ProtocolError::InvalidObject));
    assert_eq!(client.handle_wl_surface_damage(99, &le(&[0, 0, 1, 1])), Err(ProtocolError::InvalidObject));
    assert_eq!(client.handle_wl_surface_commit(1), Err(ProtocolError::InvalidObject));
    assert_eq!(client.handle_wl_surface_frame(4, &le(&[50])), Err(ProtocolError::InvalidObject));
    assert_eq!(client.handle_wl_surface_set_buffer_transform(4, &le(&[9])), Err(ProtocolError::InvalidObject));
    assert_eq!(client.handle_wl_shm_pool_message(7, 0, &le(&[9, 0, 1, 1, 4, 0])), Err(ProtocolError::InvalidObject));
    assert_eq!(client.handle_wl_shm_pool_create_buffer(&le(&[9, 0, 1, 1, 4, 0]), 77), Err(ProtocolError::InvalidObject));
    assert_eq!(client.handle_wl_shm_pool_resize(&le(&[64]), 77), Err(ProtocolError::InvalidObject));
    assert_eq!(client.snapshot_kind(50), None);
    assert_eq!(client.snapshot_kind(9), None);
    assert!(client.take_effects().is_empty());
}

#[test]
fn short_argument_areas_are_malformed() {
    let (mut client, mut fds) = populated();
    fds.push_back(30);
    assert_eq!(send(&mut client, &mut fds, 4, 0, &le(&[5, 64])), Ok(()));
    let needs: [(u32, u16, usize); 15] = [
        (1, 0, 4),
        (1, 1, 4),
        (3, 0, 4),
        (3, 1, 4),
        (4, 0, 8),
        (5, 0, 24),
        (5, 2, 4),
        (7, 1, 12),
        (7, 2, 16),
        (7, 3, 4),
        (7, 4, 4),
        (7, 5, 4),
        (7, 7, 4),
        (7, 8, 4),
        (7, 9, 16),
    ];
    for (object_id, op_code, needed) in needs {
        let args = vec![0u8; needed - 1];
        assert_eq!(
            send(&mut client, &mut fds, object_id, op_code, &args),
            Err(ProtocolError::MalformedFrame),
            "object {} opcode {}",
            object_id,
            op_code
        );
    }
    assert_eq!(send(&mut client, &mut fds, 7, 10, &[0; 7]), Err(ProtocolError::MalformedFrame));
    assert_eq!(bound_ids(&client), vec![1, 2, 3, 4, 5, 7]);
}

#[test]
fn a_request_on_an_unknown_object_is_skipped() {
    let (mut client, mut fds) = populated();
    fds.push_back(30);
    let before = bound_ids(&client);
    for op_code in 0u16..12 {
        assert_eq!(send(&mut client, &mut fds, 55, op_code, &le(&[60, 1, 2, 3, 4, 5])), Ok(()));
        assert_eq!(send(&mut client, &mut fds, 0, op_code, &[]), Ok(()));
    }
    assert_eq!(bound_ids(&client), before);
    assert_eq!(fds.len(), 1);
    assert!(client.take_effects().is_empty());
}

#[test]
fn an_unknown_opcode_is_ignored() {
    let (mut client, mut fds) = populated();
    fds.push_back(30);
    assert_eq!(send(&mut client, &mut fds, 4, 0, &le(&[5, 64])), Ok(()));
    assert_eq!(send(&mut client, &mut fds, 5, 0, &le(&[6, 0, 1, 1, 4, 0])), Ok(()));
    assert_eq!(send(&mut client, &mut fds, 1, 0, &le(&[8])), Ok(()));
    assert_eq!(send(&mut client, &mut fds, 3, 1, &le(&[9])), Ok(()));
    client.take_effects();
    let before = bound_ids(&client);
    let unknown: [(u32, u16); 9] =
        [(1, 2), (2, 1), (3, 2), (4, 2), (5, 3), (6, 1), (7, 11), (8, 0), (9, 0)];
    for (object_id, op_code) in unknown {
        assert_eq!(send(&mut client, &mut fds, object_id, op_code, &[]), Ok(()));
        assert_eq!(send(&mut client, &mut fds, object_id, u16::MAX, &le(&[70])), Ok(()));
    }
    assert_eq!(bound_ids(&client), before);
    assert!(client.take_effects().is_empty());
}

#[test]
fn placeholder_interfaces_take_no_request() {
    let (mut client, mut fds) = populated();
    assert_eq!(send(&mut client, &mut fds, 2, 0, &bind(3, "xdg_wm_base", 8)), Ok(()));
    assert_eq!(client.handle_xdg_wm_base_message(8, 0, &le(&[9])), Ok(()));
    assert_eq!(client.handle_wl_region_message(8, 0, &le(&[9])), Ok(()));
    assert_eq!(client.handle_wl_output_message(8, 0, &le(&[9])), Ok(()));
    assert_eq!(client.handle_wl_callback_message(0), Ok(()));
    assert_eq!(client.snapshot_kind(8), Some(Interface::XdgWmBase));
    assert_eq!(client.snapshot_kind(9), None);
    assert!(client.take_effects().is_empty());
}

#[test]
fn events_are_queued_with_their_arguments() {
    let mut client = CompositorClientState::new();
    assert_eq!(client.send_callback_done(3, 0x0102_0304), Ok(()));
    assert_eq!(client.send_format(4, 0x3432_4752), Ok(()));
    assert_eq!(client.send_global(2, 1, "wl_shm", 1), Ok(()));
    assert_eq!(client.send_wl_display_delete_id(9), Ok(()));
    assert_eq!(client.send_wl_buffer_release(6), Ok(()));
    assert_eq!(client.send_wl_display_error(7, 1, "bad"), Ok(()));
    assert_eq!(send_wl_surface_enter(&mut client, 7, 11), Ok(()));
    assert_eq!(send_wl_surface_leave(&mut client, 7, 11), Ok(()));
    assert_eq!(send_wl_surface_preferred_buffer_scale(&mut client, 7, -2), Ok(()));
    assert_eq!(
        send_wl_surface_preferred_buffer_transform(&mut client, 7, WlOutputTransform::Flipped90),
        Ok(())
    );
    assert_eq!(client.send_message(12, 5, &[1, 2, 3, 4]), Ok(()));
    let mut global = le(&[1, 7]);
    global.extend_from_slice(b"wl_shm\0\0");
    global.extend_from_slice(&le(&[1]));
    let mut error = le(&[7, 1, 4]);
    error.extend_from_slice(b"bad\0");
    assert_eq!(
        client.take_effects(),
        vec![
            sent(3, 0, vec![4, 3, 2, 1]),
            sent(4, 0, vec![0x52, 0x47, 0x32, 0x34]),
            sent(2, 0, global),
            sent(1, 1, le(&[9])),
            sent(6, 0, vec![]),
            sent(1, 0, error),
            sent(7, 0, le(&[11])),
            sent(7, 1, le(&[11])),
            sent(7, 2, vec![0xfe, 0xff, 0xff, 0xff]),
            sent(7, 3, le(&[5])),
            sent(12, 5, vec![1, 2, 3, 4]),
        ]
    );
    assert!(client.take_effects().is_empty());
}

#[test]
fn an_event_too_long_for_a_frame_is_refused() {
    let mut client = CompositorClientState::new();
    assert_eq!(client.send_message(1, 0, &vec![0u8; 65527]), Ok(()));
    assert_eq!(client.send_message(1, 0, &vec![0u8; 65528]), Err(ProtocolError::MalformedFrame));
    assert_eq!(client.take_effects().len(), 1);
    // 8 bytes of object and code, 4 of length, the text, 1 to 4 zero bytes:
    // 65511 characters fill 65524 bytes, one more needs 65528
    let longest = "x".repeat(65511);
    assert_eq!(client.send_wl_display_error(1, 0, &longest), Ok(()));
    let too_long = "x".repeat(65512);
    assert_eq!(client.send_wl_display_error(1, 0, &too_long), Err(ProtocolError::MalformedFrame));
    let name = "n".repeat(65511);
    assert_eq!(client.send_global(2, 1, &name, 1), Ok(()));
    let long_name = "n".repeat(65512);
    assert_eq!(client.send_global(2, 1, &long_name, 1), Err(ProtocolError::MalformedFrame));
    assert_eq!(client.send_global(2, 1, &"n".repeat(70000), 1), Err(ProtocolError::MalformedFrame));
    let queued = client.take_effects();
    assert_eq!(queued.len(), 2);
    for effect in queued {
        match effect {
            Effect::Event(message) => assert_eq!(message.args.len(), 65524),
            other => panic!("unexpected effect {:?}", other),
        }
    }
}

#[test]
fn every_fault_is_reported_with_its_code_and_message() {
    let faults = [
        (ProtocolError::InvalidObject, 0u32, "invalid object"),
        (ProtocolError::MalformedFrame, 1, "malformed frame"),
        (ProtocolError::ProtocolViolation, 1, "protocol violation"),
        (ProtocolError::MappingError, 2, "mapping failed"),
        (ProtocolError::ResizeFailed, 2, "resize failed"),
    ];
    for (fault, code, message) in faults {
        assert!(fault.is_fatal());
        assert_eq!(fault.code(), code);
        assert_eq!(fault.as_str(), message);
        let mut client = CompositorClientState::new();
        client.report_error(7, fault);
        let mut args = le(&[7, code, message.len() as u32 + 1]);
        args.extend_from_slice(message.as_bytes());
        args.push(0);
        while args.len() % 4 != 0 {
            args.push(0);
        }
        assert_eq!(client.take_effects(), vec![sent(1, 0, args)]);
    }
    let mut client = CompositorClientState::new();
    client.report_error(7, ProtocolError::PeerClosed);
    assert!(client.take_effects().is_empty());
    assert!(!ProtocolError::PeerClosed.is_fatal());
    assert_eq!(ProtocolError::PeerClosed.as_str(), "peer closed");
    assert_eq!(ProtocolError::PeerClosed.code(), 3);
}

#[test]
fn an_effect_that_failed_ends_the_connection_with_its_fault() {
    let map = Effect::MapPool { pool_id: 5, mapping: 0, fd: 3, size: 4096 };
    let resize = Effect::ResizePool { mapping: 0, new_size: 8192 };
    let release = Effect::ReleaseMapping { mapping: 0 };
    let event = sent(1, 0, vec![]);
    assert_eq!(map.outcome(true), Ok(()));
    assert_eq!(map.outcome(false), Err(ProtocolError::MappingError));
    assert_eq!(resize.outcome(true), Ok(()));
    assert_eq!(resize.outcome(false), Err(ProtocolError::ResizeFailed));
    assert_eq!(release.outcome(false), Ok(()));
    assert_eq!(event.outcome(false), Ok(()));
    assert_eq!(event.outcome(true), Ok(()));
}

#[test]
fn names_and_values_of_the_protocol() {
    let names = [
        (Interface::WlDisplay, "wl_display"),
        (Interface::WlRegistry, "wl_registry"),
        (Interface::WlCallback, "wl_callback"),
        (Interface::XdgWmBase, "xdg_wm_base"),
        (Interface::WlShmPool, "wl_shm_pool"),
        (Interface::WlShm, "wl_shm"),
        (Interface::WlBuffer, "wl_buffer"),
        (Interface::WlCompositor, "wl_compositor"),
        (Interface::WlSurface, "wl_surface"),
        (Interface::WlRegion, "wl_region"),
        (Interface::WlOutput, "wl_output"),
    ];
    for (interface, name) in names {
        assert_eq!(interface.as_str(), name);
    }
    assert_eq!(WaylandObject::WlShmPool(3, 9).as_str(), "wl_shm_pool");
    assert_eq!(WaylandObject::WlShmPool(3, 9).interface(), Interface::WlShmPool);
    assert_eq!(WaylandObject::WlShmPool(3, 9).mapping(), Some(3));
    assert_eq!(WaylandObject::WlSurface(SurfaceState::new()).as_str(), "wl_surface");
    assert_eq!(WaylandObject::WlSurface(SurfaceState::new()).mapping(), None);
    assert_eq!(WaylandObject::WlDisplay.as_str(), "wl_display");
    assert_eq!(WlShmFormat::Argb8888.as_u32(), 0);
    assert_eq!(WlShmFormat::Rgb888.as_u32(), 0x3432_4752);
    assert_eq!(WlShmFormat::default(), WlShmFormat::Argb8888);
    assert_eq!(
        CompositorGlobalState::default().globals,
        vec![(1, Interface::WlShm, 1), (2, Interface::WlCompositor, 6), (3, Interface::XdgWmBase, 7)]
    );
}

fn bind_bytes(name: u32, interface: &[u8], new_id: u32) -> Vec<u8> {
    let mut args = le(&[name, interface.len() as u32 + 1]);
    args.extend_from_slice(interface);
    args.push(0);
    while args.len() % 4 != 0 {
        args.push(0);
    }
    args.extend_from_slice(&le(&[1, new_id]));
    args
}

#[test]
fn bind_with_an_interface_that_is_not_utf8_is_malformed() {
    let (mut client, mut fds) = populated();
    let before = bound_ids(&client);
    let broken: [&[u8]; 6] = [
        &[0xff],
        &[0xc3],
        &[0x80],
        &[b'w', b'l', 0xe2, 0x82],
        &[0xed, 0xa0, 0x80],
        &[0xf8, 0x88, 0x80, 0x80, 0x80],
    ];
    for name in [1u32, 2, 99] {
        for interface in broken {
            assert_eq!(
                send(&mut client, &mut fds, 2, 0, &bind_bytes(name, interface, 9)),
                Err(ProtocolError::MalformedFrame),
                "name {} interface {:?}",
                name,
                interface
            );
            assert_eq!(read_bind_request(&bind_bytes(name, interface, 9)), None);
        }
    }
    assert_eq!(bound_ids(&client), before);
    assert!(client.take_effects().is_empty());
}

#[test]
fn bind_with_an_interface_in_utf8_is_read() {
    let (mut client, mut fds) = populated();
    assert_eq!(
        read_bind_request(&bind_bytes(7, "gr\u{fc}n \u{20ac}".as_bytes(), 9)),
        Some((7, "gr\u{fc}n \u{20ac}".as_bytes().to_vec(), 1, 9))
    );
    assert_eq!(read_bind_request(&bind(1, "wl_shm", 9)), Some((1, b"wl_shm".to_vec(), 1, 9)));
    assert_eq!(read_bind_request(&bind(1, "", 9)), Some((1, vec![], 1, 9)));
    // well formed, but of no interface that is on offer: passed over
    let args = bind_bytes(1, "gr\u{fc}n".as_bytes(), 9);
    assert_eq!(send(&mut client, &mut fds, 2, 0, &args), Ok(()));
    assert_eq!(client.snapshot_kind(9), None);
}

#[test]
fn the_global_of_a_bind_is_the_first_of_its_name_and_interface() {
    let globals = CompositorGlobalState::default();
    assert_eq!(find_bound_global(&globals, 1, b"wl_shm"), Some((1, Interface::WlShm, 1)));
    assert_eq!(find_bound_global(&globals, 3, b"xdg_wm_base"), Some((3, Interface::XdgWmBase, 7)));
    assert_eq!(find_bound_global(&globals, 1, b"wl_compositor"), None);
    assert_eq!(find_bound_global(&globals, 1, b"wl_sh"), None);
    assert_eq!(find_bound_global(&globals, 4, b"wl_shm"), None);
}

#[test]
fn a_request_that_is_passed_over_names_its_reason() {
    let (client, _fds) = populated();
    let globals = CompositorGlobalState::default();
    assert_eq!(
        client.skipped(55, 0, &[], &globals),
        Some(Skipped::UnknownObject { object_id: 55 })
    );
    assert_eq!(
        client.skipped(7, 11, &[], &globals),
        Some(Skipped::UnknownOpcode { interface: Interface::WlSurface, op_code: 11 })
    );
    assert_eq!(
        client.skipped(1, 2, &le(&[9]), &globals),
        Some(Skipped::UnknownOpcode { interface: Interface::WlDisplay, op_code: 2 })
    );
    assert_eq!(
        client.skipped(2, 0, &bind(99, "wl_shm", 9), &globals),
        Some(Skipped::UnknownGlobal { name: 99 })
    );
    assert_eq!(
        client.skipped(2, 0, &bind(1, "wl_seat", 9), &globals),
        Some(Skipped::OtherInterface { name: 1 })
    );
    // requests that are handled, or that fail, are not passed over
    assert_eq!(client.skipped(2, 0, &bind(1, "wl_shm", 9), &globals), None);
    assert_eq!(client.skipped(2, 0, &bind(1, "wl_shm", 4), &globals), None);
    assert_eq!(client.skipped(2, 0, &[1, 2], &globals), None);
    assert_eq!(client.skipped(2, 0, &bind_bytes(99, &[0xff], 9), &globals), None);
    assert_eq!(client.skipped(7, 6, &[], &globals), None);
    assert_eq!(client.skipped(7, 7, &le(&[8]), &globals), None);
    assert_eq!(client.skipped(1, 0, &le(&[9]), &globals), None);
}

#[test]
fn whatever_is_passed_over_changes_nothing() {
    let (mut client, mut fds) = populated();
    fds.push_back(30);
    assert_eq!(send(&mut client, &mut fds, 2, 0, &bind(3, "xdg_wm_base", 8)), Ok(()));
    client.take_effects();
    let globals = CompositorGlobalState::default();
    let before = bound_ids(&client);
    for object_id in 0u32..10 {
        for op_code in 0u16..13 {
            for args in [le(&[60, 64]), bind(99, "wl_shm", 61), bind(1, "wl_seat", 62)] {
                if client.skipped(object_id, op_code, &args, &globals).is_some() {
                    assert_eq!(send(&mut client, &mut fds, object_id, op_code, &args), Ok(()));
                    assert_eq!(bound_ids(&client), before);
                    assert_eq!(fds.len(), 1);
                    assert!(client.take_effects().is_empty());
                }
            }
        }
    }
}

#[test]
fn the_requests_of_each_interface() {
    let counts = [
        (Interface::WlDisplay, 2u16),
        (Interface::WlRegistry, 1),
        (Interface::WlShm, 2),
        (Interface::WlShmPool, 3),
        (Interface::WlBuffer, 1),
        (Interface::WlCompositor, 2),
        (Interface::WlSurface, 11),
        (Interface::WlCallback, 0),
        (Interface::WlRegion, 0),
        (Interface::XdgWmBase, 0),
        (Interface::WlOutput, 0),
    ];
    for (interface, count) in counts {
        for op_code in 0u16..20 {
            assert_eq!(interface_has_request(interface, op_code), op_code < count);
        }
        assert!(!interface_has_request(interface, u16::MAX));
    }
}
