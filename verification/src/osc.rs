//! Open Sound Control over TCP: the messages of the control protocol, their
//! framing on the stream, and the requests that arrive in them.
use vstd::prelude::*;
use vstd::utf8::*;

use crate::dispatch::{DispatcherType, RoomDispatcherInput};
use crate::room::RoomType;

verus! {

/// An OSC argument. Integers and strings are the ones the protocol uses;
/// every other OSC type stands as `Other`.
#[derive(Debug)]
pub enum OscArg {
    Int(i32),
    Str(String),
    Other,
}

/// An OSC message: an address and its arguments.
#[derive(Debug)]
pub struct OscMessage {
    pub addr: String,
    pub args: Vec<OscArg>,
}

/// An OSC packet: a message, or a bundle (which the protocol ignores).
#[derive(Debug)]
pub enum OscPacket {
    Message(OscMessage),
    Bundle,
}

/// An OSC argument as a value.
pub ghost enum OscArgView {
    Int(i32),
    Str(Seq<char>),
    Other,
}

/// An OSC message as a value.
pub ghost struct OscMessageView {
    pub addr: Seq<char>,
    pub args: Seq<OscArgView>,
}

/// An OSC packet as a value.
pub ghost enum OscPacketView {
    Message(OscMessageView),
    Bundle,
}

impl View for OscArg {
    type V = OscArgView;

    open spec fn view(&self) -> OscArgView {
        match self {
            OscArg::Int(i) => OscArgView::Int(*i),
            OscArg::Str(s) => OscArgView::Str(s@),
            OscArg::Other => OscArgView::Other,
        }
    }
}

impl View for OscMessage {
    type V = OscMessageView;

    open spec fn view(&self) -> OscMessageView {
        OscMessageView { addr: self.addr@, args: self.args@.map_values(|a: OscArg| a@) }
    }
}

impl View for OscPacket {
    type V = OscPacketView;

    open spec fn view(&self) -> OscPacketView {
        match self {
            OscPacket::Message(m) => OscPacketView::Message(m@),
            OscPacket::Bundle => OscPacketView::Bundle,
        }
    }
}

/// The big-endian 32 bit number in the first four bytes of `b`.
pub open spec fn be_u32(b: Seq<u8>) -> int {
    b[0] as int * 16777216 + b[1] as int * 65536 + b[2] as int * 256 + b[3] as int
}

/// The four big-endian bytes of `x`.
pub open spec fn be_bytes(x: u32) -> Seq<u8> {
    seq![
        (x as int / 16777216) as u8,
        (x as int / 65536 % 256) as u8,
        (x as int / 256 % 256) as u8,
        (x as int % 256) as u8,
    ]
}

/// `n` rounded up to a multiple of four.
pub open spec fn pad4(n: int) -> int {
    if n % 4 == 0 {
        n
    } else {
        n + (4 - n % 4)
    }
}

/// An OSC string: the bytes, then one to four zero bytes up to a multiple of four.
pub open spec fn osc_string(s: Seq<u8>) -> Seq<u8> {
    s + Seq::new((pad4(s.len() as int + 1) - s.len()) as nat, |i: int| 0u8)
}

/// The type tag of an argument.
pub open spec fn type_tag(a: OscArgView) -> u8 {
    match a {
        OscArgView::Int(_) => 0x69u8,
        OscArgView::Str(_) => 0x73u8,
        OscArgView::Other => 0x4eu8,
    }
}

/// The encoded data of an argument.
pub open spec fn arg_data(a: OscArgView) -> Seq<u8> {
    match a {
        OscArgView::Int(i) => be_bytes(i as u32),
        OscArgView::Str(s) => osc_string(encode_utf8(s)),
        OscArgView::Other => Seq::empty(),
    }
}

/// The encoded data of a sequence of arguments.
pub open spec fn args_data(args: Seq<OscArgView>) -> Seq<u8>
    decreases args.len(),
{
    if args.len() == 0 {
        Seq::empty()
    } else {
        arg_data(args[0]) + args_data(args.drop_first())
    }
}

/// An OSC 1.0 message: address, type tag string, argument data.
pub open spec fn osc_message_bytes(m: OscMessageView) -> Seq<u8> {
    osc_string(encode_utf8(m.addr)) + osc_string(seq![0x2cu8] + m.args.map_values(|a: OscArgView| type_tag(a)))
        + args_data(m.args)
}

/// An OSC message framed for a stream: its length as a big-endian 32 bit
/// number, then the message.
pub open spec fn osc_tcp_message_bytes(m: OscMessageView) -> Seq<u8> {
    be_bytes(osc_message_bytes(m).len() as u32) + osc_message_bytes(m)
}

/// Whether every argument of `m` is an integer or a string.
pub open spec fn has_plain_args(m: OscMessageView) -> bool {
    forall|i: int| 0 <= i < m.args.len() ==> !(#[trigger] m.args[i] is Other)
}

/// Calls `rosc::encoder::encode_tcp` on the message. Claimed, as its
/// documentation and source show: the OSC 1.0 encoding of the message,
/// preceded by its length as a big-endian 32 bit number. It never fails for
/// a message.
#[verifier::external_body]
pub(crate) fn osc_encode_tcp(message: &OscMessage) -> (r: Vec<u8>)
    requires
        has_plain_args(message@),
    ensures
        r@ == osc_tcp_message_bytes(message@),
{
    let args = message.args.iter().map(|a| match a {
        OscArg::Int(i) => rosc::OscType::Int(*i),
        OscArg::Str(s) => rosc::OscType::String(s.clone()),
        OscArg::Other => rosc::OscType::Nil,
    }).collect();
    let packet = rosc::OscPacket::Message(rosc::OscMessage { addr: message.addr.clone(), args });
    rosc::encoder::encode_tcp(&packet).unwrap()
}

/// Encodes a packet for the stream: a message whose arguments are all
/// integers or strings gets its framed OSC encoding; anything else has none.
pub fn encode_packet(packet: &OscPacket) -> (r: Option<Vec<u8>>)
    ensures
        match packet@ {
            OscPacketView::Message(m) => if has_plain_args(m) {
                r matches Some(b) && b@ == osc_tcp_message_bytes(m)
            } else {
                r is None
            },
            OscPacketView::Bundle => r is None,
        },
{
    match packet {
        OscPacket::Message(message) => {
            let mut i: usize = 0;
            proof {
                assert(packet@ == OscPacketView::Message(message@));
            }
            while i < message.args.len()
                invariant
                    packet@ == OscPacketView::Message(message@),
                    i <= message.args@.len(),
                    forall|j: int| 0 <= j < i ==> !(#[trigger] message@.args[j] is Other),
                decreases message.args@.len() - i,
            {
                match &message.args[i] {
                    OscArg::Other => {
                        proof {
                            assert(message@.args[i as int] is Other);
                            assert(!has_plain_args(message@));
                            assert(packet@ == OscPacketView::Message(message@));
                        }
                        return None;
                    },
                    _ => {},
                }
                i = i + 1;
            }
            Some(osc_encode_tcp(message))
        },
        OscPacket::Bundle => None,
    }
}

/// The four big-endian bytes of a number read back as that number.
pub proof fn lemma_be_roundtrip(x: u32)
    ensures
        be_bytes(x).len() == 4,
        be_u32(be_bytes(x)) == x,
{
    let b = be_bytes(x);
    let v = x as int;
    assert(b[0] as int == v / 16777216);
    assert(b[1] as int == v / 65536 % 256);
    assert(b[2] as int == v / 256 % 256);
    assert(b[3] as int == v % 256);
    assert(v / 16777216 * 16777216 + v / 65536 % 256 * 65536 + v / 256 % 256 * 256 + v % 256 == v) by (nonlinear_arith)
        requires 0 <= v < 4294967296;
}

/// What this side sends is read back whole: the framed encoding of a
/// message is one complete frame whose declared length is the message's.
pub proof fn law_encoded_message_is_one_frame(m: OscMessageView)
    requires
        osc_message_bytes(m).len() < 4294967296,
    ensures
        frame_complete(osc_tcp_message_bytes(m)),
        be_u32(osc_tcp_message_bytes(m)) + 4 == osc_tcp_message_bytes(m).len(),
{
    let body = osc_message_bytes(m);
    let n = body.len() as u32;
    lemma_be_roundtrip(n);
    let b = osc_tcp_message_bytes(m);
    assert(b.subrange(0, 4) =~= be_bytes(n));
    assert(b[0] == be_bytes(n)[0] && b[1] == be_bytes(n)[1] && b[2] == be_bytes(n)[2] && b[3] == be_bytes(n)[3]);
}

/// What decoding the first packet of a stream buffer gave.
#[derive(Debug)]
pub enum OscDecoded {
    /// The bytes are not a valid packet.
    Failed,
    /// The declared length exceeds the buffer; all of it remains.
    NeedMore { remaining: usize },
    /// A packet, and how many bytes of the buffer follow it.
    Decoded { remaining: usize, packet: OscPacket },
}

/// What decoding gave, as a value.
pub ghost enum OscDecodedView {
    Failed,
    NeedMore { remaining: nat },
    Decoded { remaining: nat, packet: OscPacketView },
}

impl View for OscDecoded {
    type V = OscDecodedView;

    open spec fn view(&self) -> OscDecodedView {
        match self {
            OscDecoded::Failed => OscDecodedView::Failed,
            OscDecoded::NeedMore { remaining } => OscDecodedView::NeedMore { remaining: *remaining as nat },
            OscDecoded::Decoded { remaining, packet } => OscDecodedView::Decoded {
                remaining: *remaining as nat,
                packet: packet@,
            },
        }
    }
}

/// Whether the bytes of `b` from position `i` on start with the bundle tag
/// `#bundle` and its terminating zero byte.
pub open spec fn bundle_tag_at(b: Seq<u8>, i: int) -> bool {
    &&& 0 <= i
    &&& i + 8 <= b.len()
    &&& b[i] == 0x23u8 && b[i + 1] == 0x62u8 && b[i + 2] == 0x75u8 && b[i + 3] == 0x6eu8
    &&& b[i + 4] == 0x64u8 && b[i + 5] == 0x6cu8 && b[i + 6] == 0x65u8 && b[i + 7] == 0u8
}

/// How many of the first `n` positions of `b` start a bundle tag.
pub open spec fn count_bundle_tags(b: Seq<u8>, n: nat) -> nat
    decreases n,
{
    if n == 0 {
        0
    } else {
        count_bundle_tags(b, (n - 1) as nat) + if bundle_tag_at(b, n - 1) {
            1nat
        } else {
            0nat
        }
    }
}

/// How many of the first `n` bytes of `b` are `[` (the type tag that opens an array).
pub open spec fn count_array_opens(b: Seq<u8>, n: nat) -> nat
    decreases n,
{
    if n == 0 {
        0
    } else {
        count_array_opens(b, (n - 1) as nat) + if b[n - 1] == 0x5bu8 {
            1nat
        } else {
            0nat
        }
    }
}

/// The deepest nesting that the decoder is given: each level of nested
/// bundles starts with its own bundle tag, and each level of nested arrays
/// with its own `[`.
pub open spec fn max_nesting() -> nat {
    256
}

/// Whether the nesting of bundles and of arrays in `b` stays within
/// `max_nesting`: the decoder reads and drops nested bundles and arrays
/// recursively, one stack frame per level, so deeper input would exhaust the stack.
pub open spec fn nesting_bounded(b: Seq<u8>) -> bool {
    count_bundle_tags(b, b.len()) <= max_nesting() && count_array_opens(b, b.len()) <= max_nesting()
}

/// Whether the nesting in `buf` stays within `max_nesting`.
fn check_nesting(buf: &[u8]) -> (r: bool)
    ensures
        r == nesting_bounded(buf@),
{
    let mut tags: usize = 0;
    let mut opens: usize = 0;
    let mut i: usize = 0;
    while i < buf.len()
        invariant
            i <= buf@.len(),
            tags == count_bundle_tags(buf@, i as nat),
            opens == count_array_opens(buf@, i as nat),
            tags <= i,
            opens <= i,
        decreases buf@.len() - i,
    {
        if buf.len() - i >= 8 && buf[i] == 0x23 && buf[i + 1] == 0x62 && buf[i + 2] == 0x75 && buf[i + 3] == 0x6e
            && buf[i + 4] == 0x64 && buf[i + 5] == 0x6c && buf[i + 6] == 0x65 && buf[i + 7] == 0 {
            tags = tags + 1;
        }
        if buf[i] == 0x5b {
            opens = opens + 1;
        }
        i = i + 1;
    }
    tags <= 256 && opens <= 256
}

/// What `rosc::decoder::decode_tcp` gives for a buffer.
pub uninterp spec fn spec_osc_decode_tcp(buf: Seq<u8>) -> OscDecodedView;

/// Calls `rosc::decoder::decode_tcp`. Claimed: the named result; as its
/// source shows, it fails on fewer than four bytes, leaves the whole buffer
/// where the declared length exceeds it, and otherwise reads the packet
/// after the four length bytes. Integer and string arguments are kept,
/// other arguments stand as `Other`, bundles lose their content. The
/// decoder reads nested bundles and arrays recursively, without a limit on
/// the depth (and the conversion drops them recursively), so `requires`
/// bounds the nesting: beyond it the stack is exhausted and the process aborts.
#[verifier::external_body]
fn osc_decode_tcp(buf: &[u8]) -> (r: OscDecoded)
    requires
        nesting_bounded(buf@),
    ensures
        r@ == spec_osc_decode_tcp(buf@),
        buf.len() < 4 ==> r is Failed,
        buf.len() >= 4 && be_u32(buf@) > buf.len() ==> r@ == (OscDecodedView::NeedMore { remaining: buf.len() as nat }),
        r matches OscDecoded::Decoded { remaining, .. } ==> remaining + 4 <= buf.len(),
{
    match rosc::decoder::decode_tcp(buf) {
        Err(_) => OscDecoded::Failed,
        Ok((rest, None)) => OscDecoded::NeedMore { remaining: rest.len() },
        Ok((rest, Some(rosc::OscPacket::Bundle(_)))) => OscDecoded::Decoded { remaining: rest.len(), packet: OscPacket::Bundle },
        Ok((rest, Some(rosc::OscPacket::Message(m)))) => {
            let args = m.args.into_iter().map(|a| match a {
                rosc::OscType::Int(i) => OscArg::Int(i),
                rosc::OscType::String(s) => OscArg::Str(s),
                _ => OscArg::Other,
            }).collect();
            OscDecoded::Decoded { remaining: rest.len(), packet: OscPacket::Message(OscMessage { addr: m.addr, args }) }
        },
    }
}

/// What the next frame of a stream buffer holds.
#[derive(Debug)]
pub enum Frame {
    /// Not enough bytes for the frame yet.
    Incomplete,
    /// A packet, and how many bytes of the buffer it took.
    Packet { consumed: usize, packet: OscPacket },
    /// The frame does not hold a valid packet.
    Invalid,
}

/// Whether `buf` holds a whole frame: four length bytes and as many bytes as they declare.
pub open spec fn frame_complete(buf: Seq<u8>) -> bool {
    buf.len() >= 4 && buf.len() >= 4 + be_u32(buf)
}

/// Reads the next frame of a stream buffer: nothing while the frame is
/// incomplete, otherwise the packet that the decoder reads from it and the
/// number of bytes that it took, or that the frame is invalid. A buffer
/// whose bundles or arrays nest deeper than `max_nesting` is invalid.
pub fn decode_frame(buf: &[u8]) -> (r: Frame)
    ensures
        !frame_complete(buf@) ==> r is Incomplete,
        frame_complete(buf@) && !nesting_bounded(buf@) ==> r is Invalid,
        frame_complete(buf@) && nesting_bounded(buf@) ==> match spec_osc_decode_tcp(buf@) {
            OscDecodedView::Failed => r is Invalid,
            OscDecodedView::NeedMore { .. } => r is Incomplete,
            OscDecodedView::Decoded { remaining, packet } => r matches Frame::Packet { consumed, packet: p } && consumed
                + remaining == buf.len() && p@ == packet,
        },
{
    if buf.len() < 4 {
        return Frame::Incomplete;
    }
    let len: u64 = (buf[0] as u64) * 16777216 + (buf[1] as u64) * 65536 + (buf[2] as u64) * 256 + (buf[3] as u64);
    if (buf.len() as u64) < 4 + len {
        return Frame::Incomplete;
    }
    if !check_nesting(buf) {
        return Frame::Invalid;
    }
    match osc_decode_tcp(buf) {
        OscDecoded::Failed => Frame::Invalid,
        OscDecoded::NeedMore { .. } => Frame::Incomplete,
        OscDecoded::Decoded { remaining, packet } => Frame::Packet { consumed: buf.len() - remaining, packet },
    }
}

/// A message with address `addr` and the single string argument `text`.
pub open spec fn text_message(addr: Seq<char>, text: Seq<char>) -> OscPacketView {
    OscPacketView::Message(OscMessageView { addr, args: seq![OscArgView::Str(text)] })
}

/// A reply to a control request: `/reply` with the message.
pub fn send_reply(message: &str) -> (r: OscPacket)
    ensures
        r@ == text_message("/reply"@, message@),
{
    let mut args: Vec<OscArg> = Vec::new();
    args.push(OscArg::Str(message.to_owned()));
    let r = OscPacket::Message(OscMessage { addr: "/reply".to_owned(), args });
    proof {
        assert(r@ matches OscPacketView::Message(m) && m.args =~= seq![OscArgView::Str(message@)]);
    }
    r
}

/// An error reply to a control request: `/error` with the message.
pub fn send_error(message: &str) -> (r: OscPacket)
    ensures
        r@ == text_message("/error"@, message@),
{
    let mut args: Vec<OscArg> = Vec::new();
    args.push(OscArg::Str(message.to_owned()));
    let r = OscPacket::Message(OscMessage { addr: "/error".to_owned(), args });
    proof {
        assert(r@ matches OscPacketView::Message(m) && m.args =~= seq![OscArgView::Str(message@)]);
    }
    r
}

/// The string of an argument, if it is one.
pub open spec fn arg_string(a: OscArgView) -> Option<Seq<char>> {
    match a {
        OscArgView::Str(s) => Some(s),
        _ => None,
    }
}

/// The integer of an argument, if it is one.
pub open spec fn arg_int(a: OscArgView) -> Option<i32> {
    match a {
        OscArgView::Int(i) => Some(i),
        _ => None,
    }
}

fn take_string(a: OscArg) -> (r: Option<String>)
    ensures
        match r {
            Some(s) => arg_string(a@) == Some(s@),
            None => arg_string(a@) is None,
        },
{
    match a {
        OscArg::Str(s) => Some(s),
        _ => None,
    }
}

/// Whether a dispatcher request carries five arguments, of which the first
/// and the third are strings and the fourth an integer.
pub open spec fn is_dispatcher_request(m: OscMessageView) -> bool {
    &&& m.args.len() == 5
    &&& arg_string(m.args[0]) is Some
    &&& arg_string(m.args[2]) is Some
    &&& arg_int(m.args[3]) is Some
}

/// The view of an optional string.
pub open spec fn opt_seq(o: Option<String>) -> Option<Seq<char>> {
    match o {
        Some(s) => Some(s@),
        None => None,
    }
}

impl RoomDispatcherInput {
    /// Reads a dispatcher request from an OSC message: name, admin password
    /// (where a string), rule, timeout and return room prefix (where a
    /// string), for an audio room with the random strategy and no random
    /// postfix.
    pub fn try_from(message: OscMessage) -> (r: Result<RoomDispatcherInput, ()>)
        ensures
            r is Ok <==> is_dispatcher_request(message@),
            r matches Ok(input) ==> {
                &&& Some(input.name@) == arg_string(message@.args[0])
                &&& opt_seq(input.admin_password) == arg_string(message@.args[1])
                &&& Some(input.rule@) == arg_string(message@.args[2])
                &&& input.room_type == RoomType::Audio
                &&& input.dispatcher_type == DispatcherType::Random
                &&& Some(input.timeout) == arg_int(message@.args[3])
                &&& opt_seq(input.return_room_prefix) == arg_string(message@.args[4])
                &&& !input.add_random_postfix
            },
    {
        let ghost m = message@;
        let mut args = message.args;
        if args.len() != 5 {
            return Err(());
        }
        proof {
            assert(args@.map_values(|a: OscArg| a@) =~= m.args);
            assert(forall|i: int| 0 <= i < 5 ==> #[trigger] args@[i]@ == m.args[i]);
        }
        let a4 = args.pop().unwrap();
        let a3 = args.pop().unwrap();
        let a2 = args.pop().unwrap();
        let a1 = args.pop().unwrap();
        let a0 = args.pop().unwrap();
        let name = match take_string(a0) {
            Some(s) => s,
            None => return Err(()),
        };
        let admin_password = take_string(a1);
        let rule = match take_string(a2) {
            Some(s) => s,
            None => return Err(()),
        };
        let timeout = match a3 {
            OscArg::Int(i) => i,
            _ => return Err(()),
        };
        let return_room_prefix = take_string(a4);
        Ok(RoomDispatcherInput {
            name,
            admin_password,
            rule,
            room_type: RoomType::Audio,
            dispatcher_type: DispatcherType::Random,
            timeout,
            return_room_prefix,
            add_random_postfix: false,
        })
    }
}

} // verus!
