use stecker::models::{
    api_version, DataChannelEvent, PayloadError, RoomAudioData, RoomFloatData, RoomStringData,
    SteckerData,
};

#[test]
fn labels_name_the_channel_kinds() {
    assert_eq!(RoomFloatData::label(), "FLOAT");
    assert_eq!(RoomStringData::label(), "STRING");
    assert_eq!(RoomAudioData::label(), "AUDIO");
}

#[test]
fn matches_data_channel_compares_labels() {
    assert!(RoomFloatData::matches_data_channel("FLOAT"));
    assert!(!RoomFloatData::matches_data_channel("STRING"));
    assert!(RoomStringData::matches_data_channel("STRING"));
    assert!(!RoomStringData::matches_data_channel("string"));
}

#[test]
fn string_payload_is_utf8() {
    assert_eq!(RoomStringData::encode("Hello?".to_string()), b"Hello?".to_vec());
    assert_eq!(RoomStringData::encode("ü".to_string()), vec![0xc3, 0xbc]);
    assert_eq!(RoomStringData::decode(b"Hello?".to_vec()), Ok("Hello?".to_string()));
    assert_eq!(RoomStringData::decode(vec![0xff, 0x00]), Err(PayloadError::InvalidUtf8));
}

#[test]
fn audio_has_no_payload() {
    assert_eq!(RoomAudioData::encode(()), Err(PayloadError::AudioHasNoDataChannel));
    assert_eq!(RoomAudioData::decode(vec![1, 2]), Err(PayloadError::AudioHasNoDataChannel));
}

#[test]
fn api_version_is_fixed() {
    assert_eq!(api_version(), "0.1.0");
}

#[test]
fn data_channel_events_compare() {
    assert_eq!(DataChannelEvent::OpenedConnection, DataChannelEvent::OpenedConnection);
    assert_ne!(DataChannelEvent::OpenedConnection, DataChannelEvent::ClosedConnection);
}
