use stecker::dispatch::{DispatcherType, RoomDispatcherInput};
use stecker::events::RoomEvent;
use stecker::osc::{decode_frame, encode_packet, send_error, send_reply, Frame, OscArg, OscMessage, OscPacket};
use stecker::room::RoomType;

fn message(addr: &str, args: Vec<OscArg>) -> OscMessage {
    OscMessage { addr: addr.to_string(), args }
}

fn text(s: &str) -> OscArg {
    OscArg::Str(s.to_string())
}

fn as_message(p: OscPacket) -> OscMessage {
    match p {
        OscPacket::Message(m) => m,
        OscPacket::Bundle => panic!("expected a message"),
    }
}

fn arg_text(a: &OscArg) -> &str {
    match a {
        OscArg::Str(s) => s.as_str(),
        _ => panic!("expected a string argument"),
    }
}

fn encode_tcp(m: &OscMessage) -> Vec<u8> {
    encode_packet(&OscPacket::Message(OscMessage { addr: m.addr.clone(), args: m.args.iter().map(copy_arg).collect() }))
        .unwrap()
}

fn copy_arg(a: &OscArg) -> OscArg {
    match a {
        OscArg::Int(i) => OscArg::Int(*i),
        OscArg::Str(s) => OscArg::Str(s.clone()),
        OscArg::Other => OscArg::Other,
    }
}

#[test]
fn reply_message_encodes_as_osc_over_tcp() {
    let bytes = encode_packet(&send_reply("Created dispatcher")).unwrap();
    let mut expected = vec![0, 0, 0, 32];
    expected.extend_from_slice(b"/reply\0\0");
    expected.extend_from_slice(b",s\0\0");
    expected.extend_from_slice(b"Created dispatcher\0\0");
    assert_eq!(bytes, expected);
}

#[test]
fn integer_arguments_encode_big_endian() {
    let bytes = encode_tcp(&message("/room", vec![text("r"), OscArg::Int(-2)]));
    let mut expected = vec![0, 0, 0, 20];
    expected.extend_from_slice(b"/room\0\0\0");
    expected.extend_from_slice(b",si\0");
    expected.extend_from_slice(b"r\0\0\0");
    expected.extend_from_slice(&[0xff, 0xff, 0xff, 0xfe]);
    assert_eq!(bytes, expected);
}

#[test]
fn message_without_arguments_encodes() {
    let bytes = encode_tcp(&message("/ping", vec![]));
    let mut expected = vec![0, 0, 0, 12];
    expected.extend_from_slice(b"/ping\0\0\0");
    expected.extend_from_slice(b",\0\0\0");
    assert_eq!(bytes, expected);
}

#[test]
fn packets_with_other_arguments_or_bundles_are_not_encoded() {
    assert!(encode_packet(&OscPacket::Message(message("/x", vec![OscArg::Other]))).is_none());
    assert!(encode_packet(&OscPacket::Bundle).is_none());
}

#[test]
fn encoded_message_decodes_as_one_frame() {
    let original = message("/createDispatcher", vec![text("d"), text("pw"), text("^r"), OscArg::Int(30), text("back")]);
    let bytes = encode_tcp(&original);
    match decode_frame(&bytes) {
        Frame::Packet { consumed, packet } => {
            assert_eq!(consumed, bytes.len());
            let m = as_message(packet);
            assert_eq!(m.addr, "/createDispatcher");
            assert_eq!(m.args.len(), 5);
            assert_eq!(arg_text(&m.args[0]), "d");
            assert!(matches!(m.args[3], OscArg::Int(30)));
        }
        other => panic!("expected a packet, got {:?}", other),
    }
}

#[test]
fn frame_with_trailing_bytes_consumes_only_itself() {
    let mut bytes = encode_tcp(&message("/a", vec![OscArg::Int(1)]));
    let first_len = bytes.len();
    bytes.extend_from_slice(&[0, 0, 0]);
    match decode_frame(&bytes) {
        Frame::Packet { consumed, .. } => assert_eq!(consumed, first_len),
        other => panic!("expected a packet, got {:?}", other),
    }
}

#[test]
fn incomplete_frames_wait_for_more_bytes() {
    assert!(matches!(decode_frame(&[]), Frame::Incomplete));
    assert!(matches!(decode_frame(&[0, 0, 0]), Frame::Incomplete));
    let bytes = encode_tcp(&message("/a", vec![]));
    assert!(matches!(decode_frame(&bytes[..bytes.len() - 1]), Frame::Incomplete));
}

#[test]
fn garbage_frames_are_invalid() {
    let bytes = [0, 0, 0, 4, b'x', b'y', b'z', 0];
    assert!(matches!(decode_frame(&bytes), Frame::Invalid));
}

#[test]
fn replies_and_errors() {
    let r = as_message(send_reply("ok"));
    assert_eq!(r.addr, "/reply");
    assert_eq!(arg_text(&r.args[0]), "ok");
    let e = as_message(send_error("bad"));
    assert_eq!(e.addr, "/error");
    assert_eq!(arg_text(&e.args[0]), "bad");
}

#[test]
fn dispatcher_request_reads_five_arguments() {
    let m = message("/createDispatcher", vec![text("disp"), OscArg::Other, text("^a"), OscArg::Int(12), OscArg::Int(0)]);
    let input = RoomDispatcherInput::try_from(m).unwrap();
    assert_eq!(input.name, "disp");
    assert_eq!(input.admin_password, None);
    assert_eq!(input.rule, "^a");
    assert_eq!(input.timeout, 12);
    assert_eq!(input.return_room_prefix, None);
    assert_eq!(input.room_type, RoomType::Audio);
    assert_eq!(input.dispatcher_type, DispatcherType::Random);
    assert!(!input.add_random_postfix);

    let m = message("/createDispatcher", vec![text("disp"), text("pw"), text("^a"), OscArg::Int(12), text("back")]);
    let input = RoomDispatcherInput::try_from(m).unwrap();
    assert_eq!(input.admin_password, Some("pw".to_string()));
    assert_eq!(input.return_room_prefix, Some("back".to_string()));
}

#[test]
fn malformed_dispatcher_requests_are_refused() {
    let four = message("/createDispatcher", vec![text("d"), text("p"), text("r"), OscArg::Int(1)]);
    assert!(RoomDispatcherInput::try_from(four).is_err());
    let no_name = message("/createDispatcher", vec![OscArg::Int(1), text("p"), text("r"), OscArg::Int(1), text("x")]);
    assert!(RoomDispatcherInput::try_from(no_name).is_err());
    let text_timeout = message("/createDispatcher", vec![text("d"), text("p"), text("r"), text("1"), text("x")]);
    assert!(RoomDispatcherInput::try_from(text_timeout).is_err());
}

fn event_message(e: RoomEvent) -> (String, Vec<String>) {
    let m = as_message(e.into_osc_packet());
    let args = m
        .args
        .iter()
        .map(|a| match a {
            OscArg::Str(s) => s.clone(),
            OscArg::Int(i) => format!("#{}", i),
            OscArg::Other => "?".to_string(),
        })
        .collect();
    (m.addr, args)
}

#[test]
fn events_announce_as_osc_messages() {
    assert_eq!(event_message(RoomEvent::BroadcastRoomCreated("r".into())), ("/createdRoom".into(), vec!["r".into()]));
    assert_eq!(
        event_message(RoomEvent::BroadcastRoomUpdated("r".into())),
        ("/room/{room_name}".into(), vec!["updated".into(), "r".into()])
    );
    assert_eq!(
        event_message(RoomEvent::BroadcastRoomDeleted("r".into())),
        ("/room".into(), vec!["deleted".into(), "r".into()])
    );
    assert_eq!(
        event_message(RoomEvent::BroadcastRoomUserJoined("r".into(), 3)),
        ("/room".into(), vec!["r".into(), "joined".into(), "#3".into()])
    );
    assert_eq!(
        event_message(RoomEvent::BroadcastRoomUserLeft("r".into(), 2)),
        ("/room".into(), vec!["r".into(), "left".into(), "#2".into()])
    );
    assert_eq!(
        event_message(RoomEvent::RoomDispatcherCreated("d".into())),
        ("/createdDispatcher".into(), vec!["d".into()])
    );
    assert_eq!(
        event_message(RoomEvent::RoomDispatcherDeleted("d".into())),
        ("/deletedDispatcher".into(), vec!["d".into()])
    );
    assert_eq!(event_message(RoomEvent::RoomDispatcherReset()), ("/resetDispatcher".into(), vec![]));
}

#[test]
fn every_event_has_a_stream_encoding() {
    let events = vec![
        RoomEvent::BroadcastRoomCreated("r".into()),
        RoomEvent::BroadcastRoomUpdated("r".into()),
        RoomEvent::BroadcastRoomUserJoined("r".into(), 1),
        RoomEvent::BroadcastRoomUserLeft("r".into(), 0),
        RoomEvent::BroadcastRoomDeleted("r".into()),
        RoomEvent::RoomDispatcherCreated("d".into()),
        RoomEvent::RoomDispatcherDeleted("d".into()),
        RoomEvent::RoomDispatcherReset(),
    ];
    for e in events {
        let bytes = encode_packet(&e.into_osc_packet()).expect("events encode");
        match decode_frame(&bytes) {
            Frame::Packet { consumed, .. } => assert_eq!(consumed, bytes.len()),
            other => panic!("expected a packet, got {:?}", other),
        }
    }
}

fn frame(body: Vec<u8>) -> Vec<u8> {
    let mut out = (body.len() as u32).to_be_bytes().to_vec();
    out.extend(body);
    out
}

fn nested_bundles(depth: usize) -> Vec<u8> {
    let mut packet = b"/a\0\0,\0\0\0".to_vec();
    for _ in 0..depth {
        let mut bundle = b"#bundle\0".to_vec();
        bundle.extend_from_slice(&[0, 0, 0, 0, 0, 0, 0, 1]);
        bundle.extend_from_slice(&(packet.len() as u32).to_be_bytes());
        bundle.extend(packet);
        packet = bundle;
    }
    frame(packet)
}

fn nested_arrays(depth: usize) -> Vec<u8> {
    let mut tags = b",".to_vec();
    tags.extend(std::iter::repeat(b'[').take(depth));
    tags.extend(std::iter::repeat(b']').take(depth));
    tags.push(0);
    while tags.len() % 4 != 0 {
        tags.push(0);
    }
    let mut body = b"/a\0\0".to_vec();
    body.extend(tags);
    frame(body)
}

#[test]
fn nesting_up_to_the_bound_is_decoded() {
    let bytes = nested_bundles(256);
    match decode_frame(&bytes) {
        Frame::Packet { consumed, packet } => {
            assert_eq!(consumed, bytes.len());
            assert!(matches!(packet, OscPacket::Bundle));
        }
        other => panic!("expected a packet, got {:?}", other),
    }
    let bytes = nested_arrays(256);
    match decode_frame(&bytes) {
        Frame::Packet { packet, .. } => {
            let m = as_message(packet);
            assert_eq!(m.addr, "/a");
            assert!(matches!(m.args[..], [OscArg::Other]));
        }
        other => panic!("expected a packet, got {:?}", other),
    }
}

#[test]
fn nesting_beyond_the_bound_is_invalid() {
    assert!(matches!(decode_frame(&nested_bundles(257)), Frame::Invalid));
    assert!(matches!(decode_frame(&nested_arrays(257)), Frame::Invalid));
    assert!(matches!(decode_frame(&nested_bundles(2_000)), Frame::Invalid));
}
