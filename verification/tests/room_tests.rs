use stecker::room::{
    BroadcastRoom, BroadcastRoomMeta, ChannelKind, ChannelType, DataChannelKind, ReplaceSenderError, Room,
    RoomCreationReply, RoomType,
};

fn room() -> BroadcastRoom {
    BroadcastRoom::new(
        "myRoom".to_string(),
        "secret".to_string(),
        "0f8fad5b-d9cb-469f-a165-70867728950e".to_string(),
        "a test room".to_string(),
    )
}

#[test]
fn new_room_has_metadata_and_no_channels() {
    let r = room();
    assert_eq!(r.meta().name, "myRoom");
    assert_eq!(r.meta().admin_password, "secret");
    assert_eq!(r.meta().uuid, "0f8fad5b-d9cb-469f-a165-70867728950e");
    assert_eq!(r.meta().description, "a test room");
    assert_eq!(r.meta().num_listeners, 0);
    assert!(r.get_current_channel_types().is_empty());
    assert_eq!(r.timeout_secs(), 30);
    assert_eq!(r.active_channels(), 0);
    assert!(!r.is_freed());
    assert_eq!(r.sequence_offset(), 0);
}

#[test]
fn meta_new_starts_without_listeners() {
    let m = BroadcastRoomMeta::new("n".to_string(), "u".to_string(), "p".to_string(), "d".to_string());
    assert_eq!(m.name, "n");
    assert_eq!(m.uuid, "u");
    assert_eq!(m.admin_password, "p");
    assert_eq!(m.description, "d");
    assert_eq!(m.num_listeners, 0);
}

#[test]
fn channel_types_come_audio_text_float() {
    let mut r = room();
    r.set_channel(ChannelKind::DataChannel(DataChannelKind::Float), true);
    r.set_channel(ChannelKind::AudioChannel, true);
    r.set_channel(ChannelKind::DataChannel(DataChannelKind::String), true);
    assert_eq!(
        r.get_current_channel_types(),
        vec![
            ChannelKind::AudioChannel,
            ChannelKind::DataChannel(DataChannelKind::String),
            ChannelKind::DataChannel(DataChannelKind::Float),
        ]
    );
    r.set_channel(ChannelKind::AudioChannel, false);
    assert_eq!(
        r.get_current_channel_types(),
        vec![
            ChannelKind::DataChannel(DataChannelKind::String),
            ChannelKind::DataChannel(DataChannelKind::Float),
        ]
    );
    assert!(r.has_channel(ChannelKind::DataChannel(DataChannelKind::Float)));
    assert!(!r.has_channel(ChannelKind::AudioChannel));
}

#[test]
fn replace_sender_checks_password_then_kind_then_audio() {
    let mut r = room();
    assert_eq!(r.replace_sender(ChannelKind::AudioChannel, None), Err(ReplaceSenderError::PasswordRequired));
    assert_eq!(
        r.replace_sender(ChannelKind::AudioChannel, Some("wrong".to_string())),
        Err(ReplaceSenderError::InvalidPassword)
    );
    assert_eq!(
        r.replace_sender(ChannelKind::DataChannel(DataChannelKind::Float), Some("secret".to_string())),
        Err(ReplaceSenderError::DataChannelNotSupported)
    );
    assert_eq!(
        r.replace_sender(ChannelKind::AudioChannel, Some("secret".to_string())),
        Err(ReplaceSenderError::NoAudioChannel)
    );
    r.set_channel(ChannelKind::AudioChannel, true);
    assert_eq!(r.replace_sender(ChannelKind::AudioChannel, Some("secret".to_string())), Ok(()));
    // a wrong password is refused even for a data channel
    assert_eq!(
        r.replace_sender(ChannelKind::DataChannel(DataChannelKind::String), Some("x".to_string())),
        Err(ReplaceSenderError::InvalidPassword)
    );
}

#[test]
fn last_connection_schedules_deletion_that_frees_room() {
    let mut r = room();
    r.channel_opened();
    r.channel_opened();
    assert_eq!(r.active_channels(), 2);
    assert_eq!(r.channel_closed(), None);
    let token = r.channel_closed().expect("the last connection schedules a deletion");
    assert_eq!(r.active_channels(), 0);
    assert!(r.deletion_due(token));
    assert!(r.is_freed());
    // a second firing of the same timer does nothing more
    assert!(!r.deletion_due(token));
}

#[test]
fn new_connection_cancels_scheduled_deletion() {
    let mut r = room();
    r.channel_opened();
    let token = r.channel_closed().unwrap();
    r.channel_opened();
    assert!(!r.deletion_due(token));
    assert!(!r.is_freed());
    let token2 = r.channel_closed().unwrap();
    assert_ne!(token, token2);
    assert!(!r.deletion_due(token));
    assert!(r.deletion_due(token2));
}

#[test]
fn replaced_sender_schedules_no_deletion() {
    let mut r = room();
    r.channel_opened();
    r.channel_opened();
    r.channel_replaced();
    assert_eq!(r.active_channels(), 1);
    let token = r.channel_closed().unwrap();
    assert!(r.deletion_due(token));
}

#[test]
fn sequence_numbers_are_offset_and_wrap() {
    let mut r = room();
    assert_eq!(r.forward_sequence_number(0, 100), 100);
    assert_eq!(r.sequence_offset(), 100);
    let offset = r.sequence_offset();
    assert_eq!(r.forward_sequence_number(offset, 7), 107);
    assert_eq!(r.forward_sequence_number(65530, 10), 4);
    assert_eq!(r.sequence_offset(), 4);
}

#[test]
fn consecutive_packets_stay_consecutive() {
    let mut r = room();
    for (offset, seq) in [(0u16, 0u16), (1000, 65535), (65535, 65535), (12345, 53190)] {
        let a = r.forward_sequence_number(offset, seq);
        let b = r.forward_sequence_number(offset, seq.wrapping_add(1));
        assert_eq!(b, a.wrapping_add(1));
    }
}

#[test]
fn room_listing_reflects_channels() {
    let mut r = room();
    r.set_channel(ChannelKind::DataChannel(DataChannelKind::String), true);
    let listed = Room::from_broadcast_room(&r);
    assert_eq!(listed.name, "myRoom");
    assert_eq!(listed.uuid, "0f8fad5b-d9cb-469f-a165-70867728950e");
    assert_eq!(listed.description, "a test room");
    assert!(!listed.audio_channel);
    assert!(listed.chat_channel);
    assert!(!listed.float_channel);
    assert_eq!(listed.num_listeners, 0);
}

#[test]
fn room_type_display_names() {
    assert_eq!(RoomType::Float.to_display_string(), "FloatRoom");
    assert_eq!(RoomType::Chat.to_display_string(), "ChatRoom");
    assert_eq!(RoomType::Audio.to_display_string(), "AudioRoom");
}

#[test]
fn channel_type_maps_to_kind() {
    assert_eq!(ChannelKind::from(ChannelType::Audio), ChannelKind::AudioChannel);
    assert_eq!(ChannelKind::from(ChannelType::Float), ChannelKind::DataChannel(DataChannelKind::Float));
    assert_eq!(ChannelKind::from(ChannelType::String), ChannelKind::DataChannel(DataChannelKind::String));
}

#[test]
fn creation_reply_holds_offer_and_password() {
    let reply = RoomCreationReply { offer: "o".to_string(), password: "p".to_string() };
    assert_eq!(reply.offer, "o");
    assert_eq!(reply.password, "p");
}

#[test]
fn ended_connection_releases_channel_unless_replaced() {
    let mut room = BroadcastRoom::new("r".to_string(), "pw".to_string(), "u".to_string(), "d".to_string());
    room.set_channel(ChannelKind::AudioChannel, true);
    room.channel_opened();
    room.channel_opened();
    // the replaced sender's connection ends: the channel stays, nothing is scheduled
    assert_eq!(room.connection_ended(ChannelKind::AudioChannel, true), None);
    assert!(room.has_channel(ChannelKind::AudioChannel));
    assert_eq!(room.active_channels(), 1);
    // the last sender's connection ends: the channel goes, a deletion is scheduled
    let token = room.connection_ended(ChannelKind::AudioChannel, false);
    assert!(token.is_some());
    assert!(!room.has_channel(ChannelKind::AudioChannel));
    assert_eq!(room.active_channels(), 0);
    assert!(room.deletion_due(token.unwrap()));
    assert!(room.is_freed());
}
