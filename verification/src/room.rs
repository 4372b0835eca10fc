//! A broadcast room: its metadata, which channels it currently carries, when
//! it may be freed, and how the sequence numbers of its audio stream are
//! carried over when the sender is replaced.
use vstd::prelude::*;

verus! {

/// The kind of a room as the public API names it.
#[derive(Debug, Clone, Copy, PartialEq, Eq, Structural)]
pub enum RoomType {
    Float,
    Chat,
    Audio,
}

impl RoomType {
    /// The human readable name of the room type.
    pub open spec fn spec_display(self) -> Seq<char> {
        match self {
            RoomType::Float => "FloatRoom"@,
            RoomType::Chat => "ChatRoom"@,
            RoomType::Audio => "AudioRoom"@,
        }
    }

    /// The human readable name of the room type.
    pub fn to_display_string(&self) -> (r: String)
        ensures
            r@ == self.spec_display(),
    {
        match self {
            RoomType::Float => "FloatRoom".to_owned(),
            RoomType::Chat => "ChatRoom".to_owned(),
            RoomType::Audio => "AudioRoom".to_owned(),
        }
    }
}

/// The kinds of data channel a room can carry.
#[derive(Debug, Clone, Copy, PartialEq, Eq, Structural)]
pub enum DataChannelKind {
    Float,
    String,
}

/// The kinds of channel a room can carry.
#[derive(Debug, Clone, Copy, PartialEq, Eq, Structural)]
pub enum ChannelKind {
    AudioChannel,
    DataChannel(DataChannelKind),
}

/// The flat channel type of the public API (its enums cannot nest).
#[derive(Debug, Clone, Copy, PartialEq, Eq, Structural)]
pub enum ChannelType {
    Audio,
    Float,
    String,
}

/// The nested channel kind that a flat channel type stands for.
pub open spec fn spec_channel_kind(value: ChannelType) -> ChannelKind {
    match value {
        ChannelType::Audio => ChannelKind::AudioChannel,
        ChannelType::Float => ChannelKind::DataChannel(DataChannelKind::Float),
        ChannelType::String => ChannelKind::DataChannel(DataChannelKind::String),
    }
}

impl From<ChannelType> for ChannelKind {
    fn from(value: ChannelType) -> (r: ChannelKind) {
        match value {
            ChannelType::Audio => ChannelKind::AudioChannel,
            ChannelType::Float => ChannelKind::DataChannel(DataChannelKind::Float),
            ChannelType::String => ChannelKind::DataChannel(DataChannelKind::String),
        }
    }
}

impl vstd::std_specs::convert::FromSpecImpl<ChannelType> for ChannelKind {
    open spec fn obeys_from_spec() -> bool {
        true
    }

    open spec fn from_spec(v: ChannelType) -> ChannelKind {
        spec_channel_kind(v)
    }
}

/// The metadata of a room.
pub struct BroadcastRoomMeta {
    pub name: String,
    pub uuid: String,
    pub admin_password: String,
    pub description: String,
    pub num_listeners: i32,
}

impl BroadcastRoomMeta {
    /// Metadata of a new room, which has no listeners yet.
    pub fn new(name: String, uuid: String, password: String, description: String) -> (r: Self)
        ensures
            r.name@ == name@,
            r.uuid@ == uuid@,
            r.admin_password@ == password@,
            r.description@ == description@,
            r.num_listeners == 0,
    {
        BroadcastRoomMeta { name, uuid, admin_password: password, description, num_listeners: 0 }
    }
}

/// What a room is: its metadata, its channels and its lifecycle.
pub ghost struct RoomView {
    pub name: Seq<char>,
    pub uuid: Seq<char>,
    pub admin_password: Seq<char>,
    pub description: Seq<char>,
    pub num_listeners: i32,
    pub audio: bool,
    pub chat: bool,
    pub float: bool,
    pub sequence_offset: u16,
    pub active_channels: nat,
    pub pending_deletion: Option<u64>,
    pub next_token: u64,
    pub freed: bool,
    pub timeout_secs: u64,
}

/// A broadcast room. A room carries at most one channel of each kind; it
/// counts the connections that are active on it and, once the last one
/// ends, schedules its own deletion, which a new connection cancels.
pub struct BroadcastRoom {
    meta: BroadcastRoomMeta,
    audio_channel: bool,
    chat_channel: bool,
    float_channel: bool,
    audio_sequence_offset: u16,
    active_channels: u32,
    pending_deletion: Option<u64>,
    next_token: u64,
    freed: bool,
    timeout_secs: u64,
}

impl View for BroadcastRoom {
    type V = RoomView;

    closed spec fn view(&self) -> RoomView {
        RoomView {
            name: self.meta.name@,
            uuid: self.meta.uuid@,
            admin_password: self.meta.admin_password@,
            description: self.meta.description@,
            num_listeners: self.meta.num_listeners,
            audio: self.audio_channel,
            chat: self.chat_channel,
            float: self.float_channel,
            sequence_offset: self.audio_sequence_offset,
            active_channels: self.active_channels as nat,
            pending_deletion: self.pending_deletion,
            next_token: self.next_token,
            freed: self.freed,
            timeout_secs: self.timeout_secs,
        }
    }
}

/// Whether a room carries a channel of kind `kind`.
pub open spec fn has_channel(v: RoomView, kind: ChannelKind) -> bool {
    match kind {
        ChannelKind::AudioChannel => v.audio,
        ChannelKind::DataChannel(DataChannelKind::String) => v.chat,
        ChannelKind::DataChannel(DataChannelKind::Float) => v.float,
    }
}

/// The channels of a room, in the order audio, text, float.
pub open spec fn spec_channel_types(v: RoomView) -> Seq<ChannelKind> {
    let a: Seq<ChannelKind> = if v.audio { seq![ChannelKind::AudioChannel] } else { Seq::empty() };
    let c: Seq<ChannelKind> = if v.chat {
        seq![ChannelKind::DataChannel(DataChannelKind::String)]
    } else {
        Seq::empty()
    };
    let f: Seq<ChannelKind> = if v.float {
        seq![ChannelKind::DataChannel(DataChannelKind::Float)]
    } else {
        Seq::empty()
    };
    a + c + f
}

/// A room's own state apart from its channels and lifecycle, unchanged.
pub open spec fn same_meta(a: RoomView, b: RoomView) -> bool {
    &&& a.name == b.name
    &&& a.uuid == b.uuid
    &&& a.admin_password == b.admin_password
    &&& a.description == b.description
    &&& a.num_listeners == b.num_listeners
    &&& a.timeout_secs == b.timeout_secs
}

/// Why the sender of a room could not be replaced.
#[derive(Debug, Clone, Copy, PartialEq, Eq, Structural)]
pub enum ReplaceSenderError {
    /// A password is required to replace a sender.
    PasswordRequired,
    /// The password is not the room's admin password.
    InvalidPassword,
    /// Replacing data channel senders is not supported.
    DataChannelNotSupported,
    /// The room has no audio channel to replace.
    NoAudioChannel,
}

/// The outcome of a request to replace the sender of a channel.
pub open spec fn spec_replace_sender(
    v: RoomView,
    kind: ChannelKind,
    password: Option<Seq<char>>,
) -> Result<(), ReplaceSenderError> {
    match password {
        None => Err(ReplaceSenderError::PasswordRequired),
        Some(pw) => if pw != v.admin_password {
            Err(ReplaceSenderError::InvalidPassword)
        } else {
            match kind {
                ChannelKind::DataChannel(_) => Err(ReplaceSenderError::DataChannelNotSupported),
                ChannelKind::AudioChannel => if v.audio {
                    Ok(())
                } else {
                    Err(ReplaceSenderError::NoAudioChannel)
                },
            }
        },
    }
}

/// A sender is only ever replaced with the room's admin password, for
/// audio, in a room that has an audio channel.
pub proof fn law_replace_sender_needs_admin_password(v: RoomView, kind: ChannelKind, password: Option<Seq<char>>)
    requires
        spec_replace_sender(v, kind, password) is Ok,
    ensures
        password == Some(v.admin_password),
        kind == ChannelKind::AudioChannel,
        v.audio,
{
}

/// The view of an optional string.
pub open spec fn opt_view(o: Option<String>) -> Option<Seq<char>> {
    match o {
        Some(s) => Some(s@),
        None => None,
    }
}

impl BroadcastRoom {
    /// A new room with the given metadata, no channels, no active connection
    /// and a deletion timeout of 30 seconds.
    pub fn new(name: String, password: String, uuid: String, description: String) -> (r: Self)
        ensures
            r@.name == name@,
            r@.admin_password == password@,
            r@.uuid == uuid@,
            r@.description == description@,
            r@.num_listeners == 0,
            !r@.audio && !r@.chat && !r@.float,
            r@.sequence_offset == 0,
            r@.active_channels == 0,
            r@.pending_deletion is None,
            !r@.freed,
            r@.timeout_secs == 30,
    {
        BroadcastRoom {
            meta: BroadcastRoomMeta::new(name, uuid, password, description),
            audio_channel: false,
            chat_channel: false,
            float_channel: false,
            audio_sequence_offset: 0,
            active_channels: 0,
            pending_deletion: None,
            next_token: 0,
            freed: false,
            timeout_secs: 30,
        }
    }

    /// The metadata of the room.
    pub fn meta(&self) -> (r: &BroadcastRoomMeta)
        ensures
            r.name@ == self@.name,
            r.uuid@ == self@.uuid,
            r.admin_password@ == self@.admin_password,
            r.description@ == self@.description,
            r.num_listeners == self@.num_listeners,
    {
        &self.meta
    }

    /// How long the room waits, once its last connection ended, before it is freed.
    pub fn timeout_secs(&self) -> (r: u64)
        ensures
            r == self@.timeout_secs,
    {
        self.timeout_secs
    }

    /// Whether the deletion timer has freed the room.
    pub fn is_freed(&self) -> (r: bool)
        ensures
            r == self@.freed,
    {
        self.freed
    }

    /// The number of connections that are active on the room.
    pub fn active_channels(&self) -> (r: u32)
        ensures
            r == self@.active_channels,
    {
        self.active_channels
    }

    /// The channels that the room currently carries: audio, then text, then float.
    pub fn get_current_channel_types(&self) -> (r: Vec<ChannelKind>)
        ensures
            r@ == spec_channel_types(self@),
    {
        let mut channels: Vec<ChannelKind> = Vec::new();
        if self.audio_channel {
            channels.push(ChannelKind::AudioChannel);
        }
        if self.chat_channel {
            channels.push(ChannelKind::DataChannel(DataChannelKind::String));
        }
        if self.float_channel {
            channels.push(ChannelKind::DataChannel(DataChannelKind::Float));
        }
        proof {
            let v = self@;
            assert(channels@ =~= spec_channel_types(v));
        }
        channels
    }

    /// Whether the room carries a channel of kind `kind`.
    pub fn has_channel(&self, kind: ChannelKind) -> (r: bool)
        ensures
            r == has_channel(self@, kind),
    {
        match kind {
            ChannelKind::AudioChannel => self.audio_channel,
            ChannelKind::DataChannel(DataChannelKind::String) => self.chat_channel,
            ChannelKind::DataChannel(DataChannelKind::Float) => self.float_channel,
        }
    }

    /// Records that the room now carries, or no longer carries, a channel of kind `kind`.
    pub fn set_channel(&mut self, kind: ChannelKind, present: bool)
        ensures
            has_channel(final(self)@, kind) == present,
            forall|k: ChannelKind| k != kind ==> has_channel(final(self)@, k) == has_channel(old(self)@, k),
            same_meta(final(self)@, old(self)@),
            final(self)@.sequence_offset == old(self)@.sequence_offset,
            final(self)@.active_channels == old(self)@.active_channels,
            final(self)@.pending_deletion == old(self)@.pending_deletion,
            final(self)@.next_token == old(self)@.next_token,
            final(self)@.freed == old(self)@.freed,
    {
        match kind {
            ChannelKind::AudioChannel => self.audio_channel = present,
            ChannelKind::DataChannel(DataChannelKind::String) => self.chat_channel = present,
            ChannelKind::DataChannel(DataChannelKind::Float) => self.float_channel = present,
        }
    }

    /// Decides whether the sender of a channel may be replaced: only with the
    /// room's admin password, only for audio, and only where the room has an
    /// audio channel.
    pub fn replace_sender(&self, kind: ChannelKind, password: Option<String>) -> (r: Result<
        (),
        ReplaceSenderError,
    >)
        ensures
            r == spec_replace_sender(self@, kind, opt_view(password)),
    {
        match password {
            None => Err(ReplaceSenderError::PasswordRequired),
            Some(pw) => {
                if pw != self.meta.admin_password {
                    Err(ReplaceSenderError::InvalidPassword)
                } else {
                    match kind {
                        ChannelKind::DataChannel(_) => Err(ReplaceSenderError::DataChannelNotSupported),
                        ChannelKind::AudioChannel => if self.audio_channel {
                            Ok(())
                        } else {
                            Err(ReplaceSenderError::NoAudioChannel)
                        },
                    }
                }
            },
        }
    }

    /// A connection starts on the room: a scheduled deletion is cancelled
    /// and the connection is counted.
    pub fn channel_opened(&mut self)
        requires
            old(self)@.active_channels < u32::MAX,
        ensures
            final(self)@ == spec_opened(old(self)@),
    {
        self.pending_deletion = None;
        self.active_channels = self.active_channels + 1;
    }

    /// A connection ends on the room. Where it was the last one, a deletion
    /// is scheduled and its token returned: the room is freed when the timer
    /// for that token fires, unless a new connection starts first.
    pub fn channel_closed(&mut self) -> (r: Option<u64>)
        requires
            old(self)@.active_channels > 0,
        ensures
            (final(self)@, r) == spec_closed(old(self)@),
    {
        self.active_channels = self.active_channels - 1;
        if self.active_channels > 0 {
            None
        } else {
            let token = self.next_token;
            self.next_token = self.next_token.wrapping_add(1);
            self.pending_deletion = Some(token);
            Some(token)
        }
    }

    /// A connection ends because its sender was replaced: it is no longer
    /// counted, and no deletion is scheduled for it.
    pub fn channel_replaced(&mut self)
        requires
            old(self)@.active_channels > 0,
        ensures
            final(self)@ == spec_replaced(old(self)@),
    {
        self.active_channels = self.active_channels - 1;
    }

    /// A connection of the room's channel of kind `kind` ends. Where its
    /// sender was replaced, the connection is only no longer counted (the
    /// channel stays, carried by the new sender). Otherwise the room no longer
    /// carries the channel, and where it was the last connection a deletion
    /// is scheduled and its token returned.
    pub fn connection_ended(&mut self, kind: ChannelKind, replaced: bool) -> (r: Option<u64>)
        requires
            old(self)@.active_channels > 0,
        ensures
            replaced ==> final(self)@ == spec_replaced(old(self)@) && r is None,
            !replaced ==> (final(self)@, r) == spec_closed(without_channel(old(self)@, kind)),
    {
        if replaced {
            self.channel_replaced();
            None
        } else {
            let ghost before = self@;
            self.set_channel(kind, false);
            proof {
                assert(has_channel(self@, ChannelKind::AudioChannel) == has_channel(
                    without_channel(before, kind),
                    ChannelKind::AudioChannel,
                ));
                assert(has_channel(self@, ChannelKind::DataChannel(DataChannelKind::String)) == has_channel(
                    without_channel(before, kind),
                    ChannelKind::DataChannel(DataChannelKind::String),
                ));
                assert(has_channel(self@, ChannelKind::DataChannel(DataChannelKind::Float)) == has_channel(
                    without_channel(before, kind),
                    ChannelKind::DataChannel(DataChannelKind::Float),
                ));
                assert(self@ == without_channel(before, kind));
            }
            self.channel_closed()
        }
    }

    /// The deletion timer for `token` fired. The room is freed exactly when
    /// that deletion is still the scheduled one; the result says whether it was.
    pub fn deletion_due(&mut self, token: u64) -> (r: bool)
        ensures
            (final(self)@, r) == spec_deletion_due(old(self)@, token),
    {
        match self.pending_deletion {
            Some(t) => {
                if t == token {
                    self.pending_deletion = None;
                    self.freed = true;
                    true
                } else {
                    false
                }
            },
            None => false,
        }
    }

    /// The offset that a sender that starts forwarding audio now adds to its
    /// sequence numbers: the last sequence number that the room sent.
    pub fn sequence_offset(&self) -> (r: u16)
        ensures
            r == self@.sequence_offset,
    {
        self.audio_sequence_offset
    }

    /// Forwards one RTP packet with sequence number `seq` from a sender that
    /// started with offset `offset`: the packet goes out with `seq + offset`
    /// (modulo 2^16), which the room remembers as its last sequence number.
    pub fn forward_sequence_number(&mut self, offset: u16, seq: u16) -> (r: u16)
        ensures
            r == rewrite_sequence_number(seq, offset),
            final(self)@ == (RoomView { sequence_offset: r, ..old(self)@ }),
    {
        let out = seq.wrapping_add(offset);
        self.audio_sequence_offset = out;
        out
    }
}

/// A room that no longer carries a channel of kind `kind` (the rest unchanged).
pub open spec fn without_channel(v: RoomView, kind: ChannelKind) -> RoomView {
    match kind {
        ChannelKind::AudioChannel => RoomView { audio: false, ..v },
        ChannelKind::DataChannel(DataChannelKind::String) => RoomView { chat: false, ..v },
        ChannelKind::DataChannel(DataChannelKind::Float) => RoomView { float: false, ..v },
    }
}

/// A connection starts: pending deletion cancelled, one more connection.
pub open spec fn spec_opened(v: RoomView) -> RoomView {
    RoomView { active_channels: v.active_channels + 1, pending_deletion: None, ..v }
}

/// A connection ends: one connection less; after the last one, a deletion
/// is scheduled under a fresh token, which is returned.
pub open spec fn spec_closed(v: RoomView) -> (RoomView, Option<u64>) {
    let a = (v.active_channels - 1) as nat;
    if a > 0 {
        (RoomView { active_channels: a, ..v }, None)
    } else {
        let t = v.next_token;
        (
            RoomView {
                active_channels: a,
                pending_deletion: Some(t),
                next_token: t.wrapping_add(1),
                ..v
            },
            Some(t),
        )
    }
}

/// A connection ends because its sender was replaced: one connection less.
pub open spec fn spec_replaced(v: RoomView) -> RoomView {
    RoomView { active_channels: (v.active_channels - 1) as nat, ..v }
}

/// The deletion timer for `t` fires: the room is freed where that deletion
/// is still the scheduled one.
pub open spec fn spec_deletion_due(v: RoomView, t: u64) -> (RoomView, bool) {
    if v.pending_deletion == Some(t) {
        (RoomView { pending_deletion: None, freed: true, ..v }, true)
    } else {
        (v, false)
    }
}

/// A deletion is only ever scheduled while no connection is active.
pub open spec fn lifecycle_inv(v: RoomView) -> bool {
    v.pending_deletion is Some ==> v.active_channels == 0
}

/// Every change of a room's connections keeps its lifecycle invariant, and
/// a new room has it.
pub proof fn law_lifecycle_invariant(v: RoomView, t: u64)
    requires
        lifecycle_inv(v),
    ensures
        lifecycle_inv(spec_opened(v)),
        v.active_channels > 0 ==> lifecycle_inv(spec_closed(v).0),
        v.active_channels > 0 ==> lifecycle_inv(spec_replaced(v)),
        lifecycle_inv(spec_deletion_due(v, t).0),
{
}

/// A room is only freed while no connection is active on it.
pub proof fn law_freed_only_when_idle(v: RoomView, t: u64)
    requires
        lifecycle_inv(v),
        spec_deletion_due(v, t).1,
    ensures
        v.active_channels == 0,
        spec_deletion_due(v, t).0.freed,
{
}

/// A new connection cancels any scheduled deletion: no timer that fires
/// afterwards frees the room.
pub proof fn law_new_connection_cancels_deletion(v: RoomView, t: u64)
    ensures
        !spec_deletion_due(spec_opened(v), t).1,
        spec_deletion_due(spec_opened(v), t).0 == spec_opened(v),
{
}

/// When the last connection ends, the deletion it schedules frees the room
/// once its timer fires, unless a connection starts in between.
pub proof fn law_last_close_frees_room(v: RoomView)
    requires
        v.active_channels == 1,
    ensures
        spec_closed(v).1 is Some,
        spec_deletion_due(spec_closed(v).0, spec_closed(v).1->0).1,
        spec_deletion_due(spec_closed(v).0, spec_closed(v).1->0).0.freed,
        !spec_deletion_due(spec_opened(spec_closed(v).0), spec_closed(v).1->0).1,
{
}

/// A connection that starts and ends leaves the count of active connections as it was.
pub proof fn law_open_close_balance(v: RoomView)
    ensures
        spec_closed(spec_opened(v)).0.active_channels == v.active_channels,
        v.active_channels > 0 ==> spec_closed(spec_opened(v)).1 is None,
{
}

/// Consecutive packets of a sender stay consecutive after rewriting, so
/// receivers see no gap in the sequence numbers.
pub proof fn law_sequence_continuity(seq: u16, offset: u16)
    ensures
        rewrite_sequence_number(seq.wrapping_add(1), offset) == rewrite_sequence_number(seq, offset).wrapping_add(1),
{
}

/// A connection that ends without its sender being replaced releases
/// exactly the channel of its own kind: the room no longer carries it and
/// keeps every other channel as it was. A replaced sender's connection
/// releases nothing.
pub proof fn law_ended_connection_releases_its_channel(v: RoomView, kind: ChannelKind)
    ensures
        ({
            let w = spec_closed(without_channel(v, kind)).0;
            match kind {
                ChannelKind::AudioChannel => !w.audio && w.chat == v.chat && w.float == v.float,
                ChannelKind::DataChannel(DataChannelKind::String) => !w.chat && w.audio == v.audio && w.float
                    == v.float,
                ChannelKind::DataChannel(DataChannelKind::Float) => !w.float && w.audio == v.audio && w.chat
                    == v.chat,
            }
        }),
        spec_replaced(v).audio == v.audio && spec_replaced(v).chat == v.chat && spec_replaced(v).float == v.float,
{
}

/// Rewriting adds the sender's offset to its sequence numbers modulo 2^16,
/// as `u16::wrapping_add` does: a replacing sender's first packet, numbered
/// 0, goes out with the offset, and a sender without offset is unchanged.
pub proof fn law_rewrite_is_wrapping_addition(seq: u16, offset: u16)
    ensures
        rewrite_sequence_number(seq, offset) == seq.wrapping_add(offset),
        rewrite_sequence_number(0, offset) == offset,
        rewrite_sequence_number(seq, 0) == seq,
        (seq as int) + (offset as int) < 65536 ==> rewrite_sequence_number(seq, offset) == seq + offset,
        (seq as int) + (offset as int) >= 65536 ==> rewrite_sequence_number(seq, offset) == seq + offset - 65536,
{
}

/// The sequence number with which a packet numbered `seq` is sent on when
/// its sender started at offset `offset`.
pub open spec fn rewrite_sequence_number(seq: u16, offset: u16) -> u16 {
    ((seq as int + offset as int) % 65536) as u16
}

/// What the room creation API replies: the answer to the offer and the
/// room's admin password.
pub struct RoomCreationReply {
    pub offer: String,
    pub password: String,
}

/// A room as the public API lists it.
pub struct Room {
    pub name: String,
    pub uuid: String,
    pub audio_channel: bool,
    pub chat_channel: bool,
    pub float_channel: bool,
    pub description: String,
    pub num_listeners: u32,
}

/// Whether `v` holds `k`.
fn contains_kind(v: &Vec<ChannelKind>, k: ChannelKind) -> (r: bool)
    ensures
        r == v@.contains(k),
{
    let mut i: usize = 0;
    while i < v.len()
        invariant
            i <= v.len(),
            forall|j: int| 0 <= j < i ==> v@[j] != k,
        decreases v.len() - i,
    {
        if v[i] == k {
            return true;
        }
        i = i + 1;
    }
    false
}

impl Room {
    /// The listing of a room: its name, uuid and description, which channels
    /// it carries, and no listeners.
    pub fn from_broadcast_room(broadcast_room: &BroadcastRoom) -> (r: Room)
        ensures
            r.name@ == broadcast_room@.name,
            r.uuid@ == broadcast_room@.uuid,
            r.description@ == broadcast_room@.description,
            r.audio_channel == broadcast_room@.audio,
            r.chat_channel == broadcast_room@.chat,
            r.float_channel == broadcast_room@.float,
            r.num_listeners == 0,
    {
        let current_channels = broadcast_room.get_current_channel_types();
        let audio = contains_kind(&current_channels, ChannelKind::AudioChannel);
        let chat = contains_kind(&current_channels, ChannelKind::DataChannel(DataChannelKind::String));
        let float = contains_kind(&current_channels, ChannelKind::DataChannel(DataChannelKind::Float));
        proof {
            let v = broadcast_room@;
            let s = spec_channel_types(v);
            if v.audio {
                assert(s[0] == ChannelKind::AudioChannel);
            }
            if v.chat {
                let i: int = if v.audio { 1 } else { 0 };
                assert(s[i] == ChannelKind::DataChannel(DataChannelKind::String));
            }
            if v.float {
                let i: int = (if v.audio { 1int } else { 0int }) + (if v.chat { 1int } else { 0int });
                assert(s[i] == ChannelKind::DataChannel(DataChannelKind::Float));
            }
        }
        let meta = broadcast_room.meta();
        Room {
            name: meta.name.clone(),
            uuid: meta.uuid.clone(),
            audio_channel: audio,
            chat_channel: chat,
            float_channel: float,
            description: meta.description.clone(),
            num_listeners: 0,
        }
    }
}

} // verus!
