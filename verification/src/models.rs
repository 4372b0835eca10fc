//! The kinds of data that travel through a room's channels, and their labels.
use vstd::prelude::*;
use vstd::string::*;
use vstd::utf8::*;

use crate::codec::string_from_utf8;

verus! {

/// The version of the signalling API.
pub fn api_version() -> (r: String)
    ensures
        r@ == "0.1.0"@,
{
    "0.1.0".to_owned()
}

/// Float control values.
#[derive(Debug, Clone, Copy)]
pub struct RoomFloatData;

/// Text (chat) messages.
#[derive(Debug, Clone, Copy)]
pub struct RoomStringData;

/// Audio, which travels as an RTP track rather than over a data channel.
#[derive(Debug, Clone, Copy)]
pub struct RoomAudioData;

/// Each data channel carries a label that tells which kind of data it publishes.
pub trait SteckerData {
    /// The label of this kind of channel.
    spec fn spec_label() -> Seq<char>;

    /// The label of this kind of channel.
    fn label() -> (r: String)
        ensures
            r@ == Self::spec_label(),
    ;

    /// Whether a data channel with label `channel_label` carries this kind of data.
    fn matches_data_channel(channel_label: &str) -> (r: bool)
        ensures
            r == (channel_label@ == Self::spec_label()),
    {
        let own = Self::label();
        let other = channel_label.to_owned();
        own == other
    }
}

impl SteckerData for RoomFloatData {
    open spec fn spec_label() -> Seq<char> {
        "FLOAT"@
    }

    fn label() -> (r: String) {
        "FLOAT".to_owned()
    }
}

impl SteckerData for RoomStringData {
    open spec fn spec_label() -> Seq<char> {
        "STRING"@
    }

    fn label() -> (r: String) {
        "STRING".to_owned()
    }
}

impl SteckerData for RoomAudioData {
    open spec fn spec_label() -> Seq<char> {
        "AUDIO"@
    }

    fn label() -> (r: String) {
        "AUDIO".to_owned()
    }
}

/// Why a payload could not be encoded or decoded.
#[derive(Debug, Clone, Copy, PartialEq, Eq, Structural)]
pub enum PayloadError {
    /// Text messages must be valid UTF-8.
    InvalidUtf8,
    /// Audio rooms do not use data channel encoding.
    AudioHasNoDataChannel,
}

impl RoomStringData {
    /// The bytes that carry a text message: its UTF-8 encoding.
    pub fn encode(value: String) -> (r: Vec<u8>)
        ensures
            r@ == encode_utf8(value@),
    {
        value.as_str().as_bytes_vec()
    }

    /// The text message that `data` carries, where it is valid UTF-8.
    pub fn decode(data: Vec<u8>) -> (r: Result<String, PayloadError>)
        ensures
            r is Ok <==> valid_utf8(data@),
            r matches Ok(s) ==> s@ == decode_utf8(data@),
            r matches Err(e) ==> e == PayloadError::InvalidUtf8,
    {
        match string_from_utf8(data) {
            Ok(s) => Ok(s),
            Err(_) => Err(PayloadError::InvalidUtf8),
        }
    }
}

impl RoomAudioData {
    /// Audio has no data channel payload: encoding always fails.
    pub fn encode(value: ()) -> (r: Result<Vec<u8>, PayloadError>)
        ensures
            r == Err::<Vec<u8>, PayloadError>(PayloadError::AudioHasNoDataChannel),
    {
        Err(PayloadError::AudioHasNoDataChannel)
    }

    /// Audio has no data channel payload: decoding always fails.
    pub fn decode(data: Vec<u8>) -> (r: Result<(), PayloadError>)
        ensures
            r == Err::<(), PayloadError>(PayloadError::AudioHasNoDataChannel),
    {
        Err(PayloadError::AudioHasNoDataChannel)
    }
}

/// What happens to the connection behind a data channel.
#[derive(Debug, Clone, Copy, PartialEq, Eq, Structural)]
pub enum DataChannelEvent {
    OpenedConnection,
    ClosedConnection,
}

/// A channel that its owner can close.
pub trait SteckerChannel {
    fn close(&self);
}

} // verus!
