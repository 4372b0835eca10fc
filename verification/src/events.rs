//! Events about rooms and dispatchers, and the OSC messages that announce them.
use vstd::prelude::*;

use crate::osc::{has_plain_args, OscArg, OscArgView, OscMessage, OscMessageView, OscPacket, OscPacketView};

verus! {

/// Something that happened to a room or a dispatcher.
#[derive(Debug, Clone)]
pub enum RoomEvent {
    BroadcastRoomCreated(String),
    BroadcastRoomUpdated(String),
    BroadcastRoomUserJoined(String, i32),
    BroadcastRoomUserLeft(String, i32),
    BroadcastRoomDeleted(String),
    RoomDispatcherCreated(String),
    RoomDispatcherDeleted(String),
    RoomDispatcherReset(),
}

/// A message with address `addr` and arguments `args`.
pub open spec fn message(addr: Seq<char>, args: Seq<OscArgView>) -> OscPacketView {
    OscPacketView::Message(OscMessageView { addr, args })
}

/// The OSC message that announces an event.
pub open spec fn spec_event_packet(e: RoomEvent) -> OscPacketView {
    match e {
        RoomEvent::BroadcastRoomCreated(n) => message("/createdRoom"@, seq![OscArgView::Str(n@)]),
        RoomEvent::BroadcastRoomUpdated(n) => message(
            "/room/{room_name}"@,
            seq![OscArgView::Str("updated"@), OscArgView::Str(n@)],
        ),
        RoomEvent::BroadcastRoomDeleted(n) => message(
            "/room"@,
            seq![OscArgView::Str("deleted"@), OscArgView::Str(n@)],
        ),
        RoomEvent::BroadcastRoomUserJoined(n, k) => message(
            "/room"@,
            seq![OscArgView::Str(n@), OscArgView::Str("joined"@), OscArgView::Int(k)],
        ),
        RoomEvent::BroadcastRoomUserLeft(n, k) => message(
            "/room"@,
            seq![OscArgView::Str(n@), OscArgView::Str("left"@), OscArgView::Int(k)],
        ),
        RoomEvent::RoomDispatcherCreated(n) => message("/createdDispatcher"@, seq![OscArgView::Str(n@)]),
        RoomEvent::RoomDispatcherDeleted(n) => message("/deletedDispatcher"@, seq![OscArgView::Str(n@)]),
        RoomEvent::RoomDispatcherReset() => message("/resetDispatcher"@, Seq::empty()),
    }
}

/// Every announcement is a message whose arguments are integers and
/// strings, so it always has a stream encoding.
pub proof fn law_event_packets_encodable(e: RoomEvent)
    ensures
        spec_event_packet(e) matches OscPacketView::Message(m) && has_plain_args(m),
{
}

/// A packet from an address and arguments.
fn packet(addr: &str, args: Vec<OscArg>) -> (r: OscPacket)
    ensures
        r@ == message(addr@, args@.map_values(|a: OscArg| a@)),
{
    OscPacket::Message(OscMessage { addr: addr.to_owned(), args })
}

impl RoomEvent {
    /// The OSC message that announces the event.
    pub fn into_osc_packet(self) -> (r: OscPacket)
        ensures
            r@ == spec_event_packet(self),
    {
        let ghost e = self;
        let mut args: Vec<OscArg> = Vec::new();
        match self {
            RoomEvent::BroadcastRoomCreated(room_name) => {
                args.push(OscArg::Str(room_name));
                let r = packet("/createdRoom", args);
                proof {
                    assert(args@.map_values(|a: OscArg| a@) =~= seq![OscArgView::Str(e->BroadcastRoomCreated_0@)]);
                }
                r
            },
            RoomEvent::BroadcastRoomUpdated(room_name) => {
                args.push(OscArg::Str("updated".to_owned()));
                args.push(OscArg::Str(room_name));
                let r = packet("/room/{room_name}", args);
                proof {
                    assert(args@.map_values(|a: OscArg| a@) =~= seq![
                        OscArgView::Str("updated"@),
                        OscArgView::Str(e->BroadcastRoomUpdated_0@),
                    ]);
                }
                r
            },
            RoomEvent::BroadcastRoomDeleted(room_name) => {
                args.push(OscArg::Str("deleted".to_owned()));
                args.push(OscArg::Str(room_name));
                let r = packet("/room", args);
                proof {
                    assert(args@.map_values(|a: OscArg| a@) =~= seq![
                        OscArgView::Str("deleted"@),
                        OscArgView::Str(e->BroadcastRoomDeleted_0@),
                    ]);
                }
                r
            },
            RoomEvent::BroadcastRoomUserJoined(room_name, new_num_listeners) => {
                args.push(OscArg::Str(room_name));
                args.push(OscArg::Str("joined".to_owned()));
                args.push(OscArg::Int(new_num_listeners));
                let r = packet("/room", args);
                proof {
                    assert(args@.map_values(|a: OscArg| a@) =~= seq![
                        OscArgView::Str(e->BroadcastRoomUserJoined_0@),
                        OscArgView::Str("joined"@),
                        OscArgView::Int(e->BroadcastRoomUserJoined_1),
                    ]);
                }
                r
            },
            RoomEvent::BroadcastRoomUserLeft(room_name, new_num_listeners) => {
                args.push(OscArg::Str(room_name));
                args.push(OscArg::Str("left".to_owned()));
                args.push(OscArg::Int(new_num_listeners));
                let r = packet("/room", args);
                proof {
                    assert(args@.map_values(|a: OscArg| a@) =~= seq![
                        OscArgView::Str(e->BroadcastRoomUserLeft_0@),
                        OscArgView::Str("left"@),
                        OscArgView::Int(e->BroadcastRoomUserLeft_1),
                    ]);
                }
                r
            },
            RoomEvent::RoomDispatcherCreated(name) => {
                args.push(OscArg::Str(name));
                let r = packet("/createdDispatcher", args);
                proof {
                    assert(args@.map_values(|a: OscArg| a@) =~= seq![OscArgView::Str(e->RoomDispatcherCreated_0@)]);
                }
                r
            },
            RoomEvent::RoomDispatcherDeleted(name) => {
                args.push(OscArg::Str(name));
                let r = packet("/deletedDispatcher", args);
                proof {
                    assert(args@.map_values(|a: OscArg| a@) =~= seq![OscArgView::Str(e->RoomDispatcherDeleted_0@)]);
                }
                r
            },
            RoomEvent::RoomDispatcherReset() => {
                let r = packet("/resetDispatcher", args);
                proof {
                    assert(args@.map_values(|a: OscArg| a@) =~= Seq::<OscArgView>::empty());
                }
                r
            },
        }
    }
}

} // verus!
