//! The state of the server: its rooms and its dispatchers, by name, and the
//! decisions taken on them.
use vstd::prelude::*;

use crate::dispatch::{
    dispatcher_from_input, input_is_valid, is_generated_password, is_valid_choice, opt_str_view,
    regex_is_valid, spec_regex_is_match, spec_regex_valid, DispatcherView, RoomCandidate,
    RoomDispatcher, RoomDispatcherInput,
};
use crate::events::RoomEvent;
use crate::dispatch::DispatcherType;
use crate::osc::{
    arg_int, arg_string, is_dispatcher_request, opt_seq, send_error, send_reply, text_message,
    OscArg, OscArgView, OscMessageView, OscPacket, OscPacketView,
};
use crate::room::RoomType;
use crate::random::random_alphanumeric;

verus! {

/// A room known to the server: its name, its admin password, its number of
/// listeners, and the room itself.
pub struct RoomEntry<R> {
    pub name: String,
    pub admin_password: String,
    pub num_listeners: i32,
    pub room: R,
}

/// No two rooms share a name.
pub open spec fn room_names_unique<R>(rooms: Seq<RoomEntry<R>>) -> bool {
    forall|i: int, j: int| 0 <= i < j < rooms.len() ==> rooms[i].name@ != rooms[j].name@
}

/// No two dispatchers share a name.
pub open spec fn dispatcher_names_unique(ds: Seq<DispatcherView>) -> bool {
    forall|i: int, j: int| 0 <= i < j < ds.len() ==> ds[i].name != ds[j].name
}

/// Whether a room is named `name`.
pub open spec fn has_room<R>(rooms: Seq<RoomEntry<R>>, name: Seq<char>) -> bool {
    exists|i: int| 0 <= i < rooms.len() && (#[trigger] rooms[i]).name@ == name
}

/// Whether a dispatcher is named `name`.
pub open spec fn has_dispatcher(ds: Seq<DispatcherView>, name: Seq<char>) -> bool {
    exists|i: int| 0 <= i < ds.len() && (#[trigger] ds[i]).name == name
}

/// The rooms after adding `e`: a room of the same name is replaced in
/// place, otherwise `e` comes last.
pub open spec fn spec_insert_room<R>(rooms: Seq<RoomEntry<R>>, e: RoomEntry<R>) -> Seq<RoomEntry<R>> {
    if has_room(rooms, e.name@) {
        let i = choose|i: int| 0 <= i < rooms.len() && (#[trigger] rooms[i]).name@ == e.name@;
        rooms.update(i, e)
    } else {
        rooms.push(e)
    }
}

/// A room that was added is found by its name, with its password, and
/// room names stay unique; no other room comes or goes.
pub proof fn law_inserted_room_is_found<R>(rooms: Seq<RoomEntry<R>>, e: RoomEntry<R>, other: Seq<char>)
    requires
        room_names_unique(rooms),
    ensures
        room_names_unique(spec_insert_room(rooms, e)),
        has_room(spec_insert_room(rooms, e), e.name@),
        exists|i: int|
            0 <= i < spec_insert_room(rooms, e).len() && (#[trigger] spec_insert_room(rooms, e)[i]).name@ == e.name@
                && spec_insert_room(rooms, e)[i].admin_password@ == e.admin_password@,
        other != e.name@ ==> (has_room(spec_insert_room(rooms, e), other) == has_room(rooms, other)),
{
    let new = spec_insert_room(rooms, e);
    if has_room(rooms, e.name@) {
        let i = choose|i: int| 0 <= i < rooms.len() && (#[trigger] rooms[i]).name@ == e.name@;
        assert(new[i] == e);
        if other != e.name@ {
            if has_room(rooms, other) {
                let k = choose|k: int| 0 <= k < rooms.len() && (#[trigger] rooms[k]).name@ == other;
                assert(new[k] == rooms[k]);
            }
            if has_room(new, other) {
                let k = choose|k: int| 0 <= k < new.len() && (#[trigger] new[k]).name@ == other;
                assert(new[k] == rooms[k]);
            }
        }
    } else {
        assert(new[rooms.len() as int] == e);
        if other != e.name@ {
            if has_room(rooms, other) {
                let k = choose|k: int| 0 <= k < rooms.len() && (#[trigger] rooms[k]).name@ == other;
                assert(new[k] == rooms[k]);
            }
            if has_room(new, other) {
                let k = choose|k: int| 0 <= k < new.len() && (#[trigger] new[k]).name@ == other;
                assert(new[k] == rooms[k]);
            }
        }
    }
}

/// The positions of the rooms whose names the rule matches, among the first `n`.
pub open spec fn matching_positions<R>(rooms: Seq<RoomEntry<R>>, rule: Seq<char>, n: nat) -> Seq<int>
    decreases n,
{
    if n == 0 {
        Seq::empty()
    } else {
        let p = matching_positions(rooms, rule, (n - 1) as nat);
        if spec_regex_is_match(rule, rooms[n - 1].name@) {
            p.push(n - 1)
        } else {
            p
        }
    }
}

/// The candidates at the given positions.
pub open spec fn candidates_at<R>(rooms: Seq<RoomEntry<R>>, pos: Seq<int>) -> Seq<RoomCandidate> {
    pos.map_values(|i: int| RoomCandidate { name: rooms[i].name, num_listeners: rooms[i].num_listeners })
}

/// Every position among the first `n` rooms that the rule matches is the
/// position of a room, and the rule matches that room's name.
proof fn lemma_matching_positions<R>(rooms: Seq<RoomEntry<R>>, rule: Seq<char>, n: nat)
    requires
        n <= rooms.len(),
    ensures
        forall|k: int|
            0 <= k < matching_positions(rooms, rule, n).len() ==> {
                let p = #[trigger] matching_positions(rooms, rule, n)[k];
                0 <= p < n && spec_regex_is_match(rule, rooms[p].name@)
            },
    decreases n,
{
    if n > 0 {
        let prev = matching_positions(rooms, rule, (n - 1) as nat);
        lemma_matching_positions(rooms, rule, (n - 1) as nat);
        let cur = matching_positions(rooms, rule, n);
        assert forall|k: int| 0 <= k < cur.len() implies {
            let p = #[trigger] cur[k];
            0 <= p < n && spec_regex_is_match(rule, rooms[p].name@)
        } by {
            if k < prev.len() {
                assert(cur[k] == prev[k]);
            }
        }
    }
}

/// Every room whose name the rule matches is a candidate, whatever its
/// number of listeners: its position is among the matching positions.
pub proof fn law_matching_rooms_are_candidates<R>(rooms: Seq<RoomEntry<R>>, rule: Seq<char>, i: int)
    requires
        0 <= i < rooms.len(),
        spec_regex_is_match(rule, rooms[i].name@),
    ensures
        matching_positions(rooms, rule, rooms.len()).contains(i),
{
    lemma_matching_position_found(rooms, rule, rooms.len(), i);
}

/// A matching room among the first `n` is at one of the matching positions.
proof fn lemma_matching_position_found<R>(rooms: Seq<RoomEntry<R>>, rule: Seq<char>, n: nat, i: int)
    requires
        n <= rooms.len(),
        0 <= i < n,
        spec_regex_is_match(rule, rooms[i].name@),
    ensures
        matching_positions(rooms, rule, n).contains(i),
    decreases n,
{
    let prev = matching_positions(rooms, rule, (n - 1) as nat);
    let cur = matching_positions(rooms, rule, n);
    if i == n - 1 {
        assert(cur[cur.len() - 1] == i);
    } else {
        lemma_matching_position_found(rooms, rule, (n - 1) as nat, i);
        let k = choose|k: int| 0 <= k < prev.len() && prev[k] == i;
        if spec_regex_is_match(rule, rooms[n - 1].name@) {
            assert(cur[k] == prev[k]);
        }
    }
}

/// A dispatcher with the random strategy selects a room whenever the rule
/// matches some room, busy or not.
pub proof fn law_random_finds_a_matching_room<R>(rooms: Seq<RoomEntry<R>>, rule: Seq<char>, i: int, c: Option<usize>)
    requires
        0 <= i < rooms.len(),
        spec_regex_is_match(rule, rooms[i].name@),
        is_valid_choice(
            DispatcherType::Random,
            candidates_at(rooms, matching_positions(rooms, rule, rooms.len())),
            c,
        ),
    ensures
        c is Some,
{
    law_matching_rooms_are_candidates(rooms, rule, i);
}

/// A dispatcher request is refused only where its rule does not compile or
/// its timeout is negative: a `/createDispatcher` message with five
/// arguments, a string name, a string rule that compiles and a timeout that
/// is not negative describes a dispatcher and can be carried out, whatever
/// its password and return room prefix arguments are.
pub proof fn law_valid_request_is_acceptable(m: OscMessageView)
    requires
        m.addr == "/createDispatcher"@,
        m.args.len() == 5,
        m.args[0] is Str,
        m.args[2] matches OscArgView::Str(rule) && spec_regex_valid(rule),
        m.args[3] matches OscArgView::Int(t) && t >= 0,
    ensures
        is_dispatcher_request(m),
        packet_is_acceptable(OscPacketView::Message(m)),
{
}

/// A dispatcher only ever selects a room whose name its rule matches, and
/// with either of its free strategies only a room that nobody listens to.
pub proof fn law_selection_matches_rule<R>(
    rooms: Seq<RoomEntry<R>>,
    rule: Seq<char>,
    t: DispatcherType,
    c: Option<usize>,
)
    requires
        is_valid_choice(t, candidates_at(rooms, matching_positions(rooms, rule, rooms.len())), c),
        c is Some,
    ensures
        ({
            let k = matching_positions(rooms, rule, rooms.len())[c->0 as int];
            &&& 0 <= k < rooms.len()
            &&& spec_regex_is_match(rule, rooms[k].name@)
            &&& t != DispatcherType::Random ==> rooms[k].num_listeners <= 0
        }),
{
    let pos = matching_positions(rooms, rule, rooms.len());
    let i = c->0 as int;
    lemma_matching_positions(rooms, rule, rooms.len());
    assert(0 <= i < pos.len());
    let k = pos[i];
    assert(0 <= k < rooms.len() && spec_regex_is_match(rule, rooms[k].name@));
    if t != DispatcherType::Random {
        assert(candidates_at(rooms, pos)[i].num_listeners == rooms[k].num_listeners);
    }
}

/// Why a dispatcher could not be created or changed.
#[derive(Debug, Clone, Copy, PartialEq, Eq, Structural)]
pub enum CreateDispatcherError {
    /// The dispatcher exists and no password was provided.
    NoPasswordProvided,
    /// The password of the existing dispatcher does not match.
    PasswordMismatch,
}

/// A dispatcher that was created, or an existing one that was changed.
pub enum DispatcherCreation {
    Created(RoomDispatcher),
    Updated(RoomDispatcher),
}

impl DispatcherCreation {
    /// The dispatcher as it is now.
    pub fn dispatcher(&self) -> (r: &RoomDispatcher)
        ensures
            r == match self {
                DispatcherCreation::Created(d) => d,
                DispatcherCreation::Updated(d) => d,
            },
    {
        match self {
            DispatcherCreation::Created(d) => d,
            DispatcherCreation::Updated(d) => d,
        }
    }

    /// The event to announce: the creation of a new dispatcher; nothing for a change.
    pub fn event(&self) -> (r: Option<RoomEvent>)
        ensures
            match self {
                DispatcherCreation::Created(d) => r matches Some(RoomEvent::RoomDispatcherCreated(n)) && n@ == d@.name,
                DispatcherCreation::Updated(_) => r is None,
            },
    {
        match self {
            DispatcherCreation::Created(d) => Some(RoomEvent::RoomDispatcherCreated(d.name().clone())),
            DispatcherCreation::Updated(_) => None,
        }
    }
}

/// What a request for an existing dispatcher, the one at position `i`,
/// does: without a password, or with another than its admin password, it
/// fails and the dispatchers stay as they were; with it, the rule and the
/// timeout of that dispatcher are changed.
pub open spec fn changes_existing(
    old: Seq<DispatcherView>,
    input: RoomDispatcherInput,
    new: Seq<DispatcherView>,
    r: Result<DispatcherCreation, CreateDispatcherError>,
    i: int,
) -> bool {
    match input.admin_password {
        None => r == Err::<DispatcherCreation, CreateDispatcherError>(
            CreateDispatcherError::NoPasswordProvided,
        ) && new == old,
        Some(p) => if p@ != old[i].admin_password {
            r == Err::<DispatcherCreation, CreateDispatcherError>(
                CreateDispatcherError::PasswordMismatch,
            ) && new == old
        } else {
            let d = DispatcherView { rule: input.rule@, timeout_secs: input.timeout as u64, ..old[i] };
            &&& new == old.update(i, d)
            &&& r matches Ok(DispatcherCreation::Updated(x)) && x@ == d
        },
    }
}

/// What creating a dispatcher from `input` does to the dispatchers `old`:
/// a new name adds the dispatcher at the end; an existing name changes the
/// rule and timeout of that dispatcher, only with its admin password.
pub open spec fn creates_dispatcher(
    old: Seq<DispatcherView>,
    input: RoomDispatcherInput,
    new: Seq<DispatcherView>,
    r: Result<DispatcherCreation, CreateDispatcherError>,
) -> bool {
    if has_dispatcher(old, input.name@) {
        exists|i: int|
            0 <= i < old.len() && #[trigger] old[i].name == input.name@ && changes_existing(old, input, new, r, i)
    } else {
        r matches Ok(DispatcherCreation::Created(x)) && new == old.push(x@) && match input.admin_password {
            Some(p) => x@ == dispatcher_from_input(input, p@),
            None => x@ == dispatcher_from_input(input, x@.admin_password) && is_generated_password(
                x@.admin_password,
            ),
        }
    }
}

/// An existing dispatcher is only changed with its admin password: without
/// it, the request fails and the dispatchers stay as they were.
pub proof fn law_dispatcher_change_needs_password(
    old: Seq<DispatcherView>,
    input: RoomDispatcherInput,
    new: Seq<DispatcherView>,
    r: Result<DispatcherCreation, CreateDispatcherError>,
    i: int,
)
    requires
        dispatcher_names_unique(old),
        creates_dispatcher(old, input, new, r),
        0 <= i < old.len(),
        old[i].name == input.name@,
        match input.admin_password {
            None => true,
            Some(p) => p@ != old[i].admin_password,
        },
    ensures
        new == old,
        r is Err,
{
    assert(has_dispatcher(old, input.name@));
    let j = choose|j: int|
        0 <= j < old.len() && #[trigger] old[j].name == input.name@ && changes_existing(old, input, new, r, j);
    if j != i {
        if j < i {
            assert(old[j].name != old[i].name);
        } else {
            assert(old[i].name != old[j].name);
        }
    }
}

/// After a successful request the dispatcher exists under the requested
/// name with the requested rule and timeout, and names stay unique.
pub proof fn law_created_dispatcher_is_found(
    old: Seq<DispatcherView>,
    input: RoomDispatcherInput,
    new: Seq<DispatcherView>,
    r: Result<DispatcherCreation, CreateDispatcherError>,
)
    requires
        dispatcher_names_unique(old),
        creates_dispatcher(old, input, new, r),
        r is Ok,
    ensures
        dispatcher_names_unique(new),
        exists|i: int|
            0 <= i < new.len() && (#[trigger] new[i]).name == input.name@ && new[i].rule == input.rule@
                && new[i].timeout_secs == input.timeout as u64,
{
    if has_dispatcher(old, input.name@) {
        let j = choose|j: int|
            0 <= j < old.len() && #[trigger] old[j].name == input.name@ && changes_existing(old, input, new, r, j);
        assert(new[j].name == input.name@);
    } else {
        assert(new[old.len() as int].name == input.name@);
        assert forall|a: int, b: int| 0 <= a < b < new.len() implies new[a].name != new[b].name by {
            if b == old.len() {
                assert(old[a].name != input.name@);
            }
        }
    }
}

/// How a room creation request proceeds: an existing room gets a new
/// sender; otherwise a new room is created with the password.
pub enum CreateRoomPlan {
    ReplaceSender { reply_password: String },
    CreateNew { password: String },
}

/// What the control protocol does with a packet.
pub struct OscOutcome {
    /// The reply to send back, if any.
    pub reply: Option<OscPacket>,
    /// The dispatcher that the packet created or changed, if any.
    pub creation: Option<DispatcherCreation>,
}

/// The rooms and dispatchers of the server.
pub struct Registry<R> {
    rooms: Vec<RoomEntry<R>>,
    dispatchers: Vec<RoomDispatcher>,
}

impl<R> Registry<R> {
    /// The rooms, in the order in which they were added.
    pub closed spec fn rooms(&self) -> Seq<RoomEntry<R>> {
        self.rooms@
    }

    /// The dispatchers, in the order in which they were added.
    pub closed spec fn dispatchers(&self) -> Seq<DispatcherView> {
        self.dispatchers@.map_values(|d: RoomDispatcher| d@)
    }

    /// Names of rooms and of dispatchers are unique.
    pub open spec fn wf(&self) -> bool {
        room_names_unique(self.rooms()) && dispatcher_names_unique(self.dispatchers())
    }

    /// No rooms and no dispatchers.
    pub fn new() -> (r: Self)
        ensures
            r.wf(),
            r.rooms().len() == 0,
            r.dispatchers().len() == 0,
    {
        let r = Registry { rooms: Vec::new(), dispatchers: Vec::new() };
        proof {
            assert(r.dispatchers() =~= Seq::<DispatcherView>::empty());
        }
        r
    }

    /// The position of the room named `name`, if there is one.
    pub fn find_room(&self, name: &str) -> (r: Option<usize>)
        requires
            self.wf(),
        ensures
            r is None <==> !has_room(self.rooms(), name@),
            r matches Some(i) ==> i < self.rooms().len() && self.rooms()[i as int].name@ == name@,
    {
        let target = name.to_owned();
        let mut i: usize = 0;
        while i < self.rooms.len()
            invariant
                i <= self.rooms@.len(),
                target@ == name@,
                forall|j: int| 0 <= j < i ==> self.rooms@[j].name@ != name@,
            decreases self.rooms@.len() - i,
        {
            if self.rooms[i].name == target {
                return Some(i);
            }
            i = i + 1;
        }
        None
    }

    /// The room at position `i`.
    pub fn room_at(&self, i: usize) -> (r: &RoomEntry<R>)
        requires
            i < self.rooms().len(),
        ensures
            *r == self.rooms()[i as int],
    {
        &self.rooms[i]
    }

    /// All rooms.
    pub fn room_entries(&self) -> (r: &Vec<RoomEntry<R>>)
        ensures
            r@ == self.rooms(),
    {
        &self.rooms
    }

    /// Adds a room; a room of the same name is replaced in place.
    pub fn insert_room(&mut self, entry: RoomEntry<R>)
        requires
            old(self).wf(),
        ensures
            final(self).wf(),
            final(self).dispatchers() == old(self).dispatchers(),
            final(self).rooms() == spec_insert_room(old(self).rooms(), entry),
    {
        let ghost e = entry;
        match self.find_room(entry.name.as_str()) {
            Some(i) => {
                self.rooms.set(i, entry);
                proof {
                    let rooms = old(self).rooms();
                    let j = choose|j: int| 0 <= j < rooms.len() && (#[trigger] rooms[j]).name@ == e.name@;
                    if j != i as int {
                        if j < i as int {
                            assert(rooms[j].name@ != rooms[i as int].name@);
                        } else {
                            assert(rooms[i as int].name@ != rooms[j].name@);
                        }
                    }
                    assert(self.rooms@ == old(self).rooms@.update(i as int, e));
                }
            },
            None => {
                self.rooms.push(entry);
            },
        }
        proof {
            assert(self.dispatchers() =~= old(self).dispatchers());
        }
    }

    /// Removes the room named `name`, if there is one; the others keep their order.
    pub fn remove_room(&mut self, name: &str)
        requires
            old(self).wf(),
        ensures
            final(self).wf(),
            final(self).dispatchers() == old(self).dispatchers(),
            !has_room(final(self).rooms(), name@),
            has_room(old(self).rooms(), name@) ==> exists|i: int|
                0 <= i < old(self).rooms().len() && #[trigger] old(self).rooms()[i].name@ == name@
                    && final(self).rooms() == old(self).rooms().remove(i),
            !has_room(old(self).rooms(), name@) ==> final(self).rooms() == old(self).rooms(),
    {
        match self.find_room(name) {
            Some(i) => {
                let _ = self.rooms.remove(i);
                proof {
                    assert(old(self).rooms()[i as int].name@ == name@);
                    assert forall|j: int| 0 <= j < self.rooms@.len() implies #[trigger] self.rooms@[j].name@ != name@ by {
                        if j < i {
                            assert(self.rooms@[j] == old(self).rooms@[j]);
                        } else {
                            assert(self.rooms@[j] == old(self).rooms@[j + 1]);
                        }
                    }
                }
            },
            None => {},
        }
        proof {
            assert(self.dispatchers() =~= old(self).dispatchers());
        }
    }

    /// Removes every room, and announces it.
    pub fn reset_rooms(&mut self) -> (r: RoomEvent)
        requires
            old(self).wf(),
        ensures
            final(self).wf(),
            final(self).rooms().len() == 0,
            final(self).dispatchers() == old(self).dispatchers(),
            r matches RoomEvent::RoomDispatcherReset(),
    {
        self.rooms.clear();
        proof {
            assert(self.dispatchers() =~= old(self).dispatchers());
        }
        RoomEvent::RoomDispatcherReset()
    }

    /// Whether a room is named `room_name`.
    pub fn room_exists(&self, room_name: &str) -> (r: bool)
        requires
            self.wf(),
        ensures
            r == has_room(self.rooms(), room_name@),
    {
        self.find_room(room_name).is_some()
    }

    /// Whether the room named `room_name` exists and has the admin password `password`.
    pub fn room_password_match(&self, room_name: &str, password: &str) -> (r: bool)
        requires
            self.wf(),
        ensures
            r == exists|i: int|
                0 <= i < self.rooms().len() && #[trigger] self.rooms()[i].name@ == room_name@
                    && self.rooms()[i].admin_password@ == password@,
    {
        match self.find_room(room_name) {
            Some(i) => {
                let p = password.to_owned();
                let r = self.rooms[i].admin_password == p;
                proof {
                    if !r {
                        assert forall|j: int|
                            0 <= j < self.rooms().len() && #[trigger] self.rooms()[j].name@ == room_name@ implies self.rooms()[j].admin_password@
                            != password@ by {
                            if j != i {
                                if j < i {
                                    assert(self.rooms()[j].name@ != self.rooms()[i as int].name@);
                                } else {
                                    assert(self.rooms()[i as int].name@ != self.rooms()[j].name@);
                                }
                            }
                        }
                    }
                }
                r
            },
            None => false,
        }
    }

    /// How a request to create the room `name` proceeds. An existing room
    /// gets a new sender, and the reply repeats the given password (empty
    /// where none). A new room takes the given password, or a generated
    /// one of eight letters and digits.
    pub fn plan_create_room(&self, name: &str, password: Option<String>) -> (r: CreateRoomPlan)
        requires
            self.wf(),
        ensures
            has_room(self.rooms(), name@) ==> (r matches CreateRoomPlan::ReplaceSender { reply_password } && match password {
                Some(p) => reply_password@ == p@,
                None => reply_password@ == Seq::<char>::empty(),
            }),
            !has_room(self.rooms(), name@) ==> (r matches CreateRoomPlan::CreateNew { password: pw } && match password {
                Some(p) => pw@ == p@,
                None => is_generated_password(pw@),
            }),
    {
        if self.room_exists(name) {
            let reply_password = match password {
                Some(p) => p,
                None => String::new(),
            };
            CreateRoomPlan::ReplaceSender { reply_password }
        } else {
            let pw = match password {
                Some(p) => p,
                None => random_alphanumeric(8),
            };
            CreateRoomPlan::CreateNew { password: pw }
        }
    }

    /// The position of the dispatcher named `name`, if there is one.
    pub fn find_dispatcher(&self, name: &str) -> (r: Option<usize>)
        requires
            self.wf(),
        ensures
            r is None <==> !has_dispatcher(self.dispatchers(), name@),
            r matches Some(i) ==> i < self.dispatchers().len() && self.dispatchers()[i as int].name == name@,
    {
        let target = name.to_owned();
        let mut i: usize = 0;
        while i < self.dispatchers.len()
            invariant
                i <= self.dispatchers@.len(),
                target@ == name@,
                forall|j: int| 0 <= j < i ==> self.dispatchers()[j].name != name@,
            decreases self.dispatchers@.len() - i,
        {
            if *self.dispatchers[i].name() == target {
                return Some(i);
            }
            i = i + 1;
        }
        None
    }

    /// The dispatcher at position `i`.
    pub fn dispatcher_at(&self, i: usize) -> (r: &RoomDispatcher)
        requires
            i < self.dispatchers().len(),
        ensures
            r@ == self.dispatchers()[i as int],
    {
        &self.dispatchers[i]
    }

    /// Copies of all dispatchers.
    pub fn dispatcher_list(&self) -> (r: Vec<RoomDispatcher>)
        ensures
            r@.map_values(|d: RoomDispatcher| d@) == self.dispatchers(),
    {
        let mut r: Vec<RoomDispatcher> = Vec::new();
        let mut i: usize = 0;
        while i < self.dispatchers.len()
            invariant
                i <= self.dispatchers@.len(),
                r@.map_values(|d: RoomDispatcher| d@) =~= self.dispatchers().take(i as int),
            decreases self.dispatchers@.len() - i,
        {
            r.push(self.dispatchers[i].clone());
            proof {
                assert(self.dispatchers().take(i + 1) =~= self.dispatchers().take(i as int).push(
                    self.dispatchers@[i as int]@,
                ));
            }
            i = i + 1;
        }
        proof {
            assert(self.dispatchers().take(i as int) =~= self.dispatchers());
        }
        r
    }

    /// Creates the dispatcher that `input` describes, or, where one of that
    /// name exists, changes its rule and timeout, which takes its admin password.
    pub fn create_dispatcher(&mut self, input: RoomDispatcherInput) -> (r: Result<
        DispatcherCreation,
        CreateDispatcherError,
    >)
        requires
            old(self).wf(),
            input_is_valid(input),
        ensures
            final(self).wf(),
            final(self).rooms() == old(self).rooms(),
            creates_dispatcher(old(self).dispatchers(), input, final(self).dispatchers(), r),
    {
        let ghost inp = input;
        match self.find_dispatcher(input.name.as_str()) {
            Some(i) => {
                match &input.admin_password {
                    None => {
                        return Err(CreateDispatcherError::NoPasswordProvided);
                    },
                    Some(given) => {
                        if *given != *self.dispatchers[i].admin_password() {
                            return Err(CreateDispatcherError::PasswordMismatch);
                        }
                    },
                }
                let ghost old_ds = self.dispatchers();
                let timeout = input.timeout as u64;
                let mut d = self.dispatchers[i].clone();
                d.update(input.rule, timeout);
                let result = d.clone();
                self.dispatchers.set(i, d);
                proof {
                    assert(self.dispatchers() =~= old_ds.update(
                        i as int,
                        DispatcherView { rule: inp.rule@, timeout_secs: inp.timeout as u64, ..old_ds[i as int] },
                    ));
                    assert(old_ds[i as int].name == inp.name@);
                }
                Ok(DispatcherCreation::Updated(result))
            },
            None => {
                let d = RoomDispatcher::from(input);
                let result = d.clone();
                let ghost old_ds = self.dispatchers();
                self.dispatchers.push(d);
                proof {
                    assert(self.dispatchers() =~= old_ds.push(result@));
                }
                Ok(DispatcherCreation::Created(result))
            },
        }
    }

    /// Removes the dispatcher named `name` (its timeout elapsed), and
    /// announces it as a deleted room.
    pub fn remove_dispatcher(&mut self, name: &str) -> (r: RoomEvent)
        requires
            old(self).wf(),
        ensures
            final(self).wf(),
            final(self).rooms() == old(self).rooms(),
            !has_dispatcher(final(self).dispatchers(), name@),
            has_dispatcher(old(self).dispatchers(), name@) ==> exists|i: int|
                0 <= i < old(self).dispatchers().len() && #[trigger] old(self).dispatchers()[i].name == name@
                    && final(self).dispatchers() == old(self).dispatchers().remove(i),
            !has_dispatcher(old(self).dispatchers(), name@) ==> final(self).dispatchers() == old(
                self,
            ).dispatchers(),
            r matches RoomEvent::BroadcastRoomDeleted(n) && n@ == name@,
    {
        match self.find_dispatcher(name) {
            Some(i) => {
                let ghost old_ds = self.dispatchers();
                let _ = self.dispatchers.remove(i);
                proof {
                    assert(self.dispatchers() =~= old_ds.remove(i as int));
                    assert forall|j: int| 0 <= j < self.dispatchers().len() implies #[trigger] self.dispatchers()[j].name
                        != name@ by {
                        if j < i {
                            assert(self.dispatchers()[j] == old_ds[j]);
                        } else {
                            assert(self.dispatchers()[j] == old_ds[j + 1]);
                        }
                    }
                }
            },
            None => {},
        }
        RoomEvent::BroadcastRoomDeleted(name.to_owned())
    }

    /// Selects a room for a dispatcher: among the rooms whose names its rule
    /// matches, by its strategy.
    pub fn get_room(&self, dispatcher: &RoomDispatcher) -> (r: Option<usize>)
        requires
            self.wf(),
        ensures
            ({
                let pos = matching_positions(self.rooms(), dispatcher@.rule, self.rooms().len());
                exists|c: Option<usize>|
                    is_valid_choice(dispatcher@.dispatcher_type, candidates_at(self.rooms(), pos), c) && r == match c {
                        Some(k) => Some(pos[k as int] as usize),
                        None => None::<usize>,
                    }
            }),
    {
        let mut candidates: Vec<RoomCandidate> = Vec::new();
        let mut positions: Vec<usize> = Vec::new();
        let mut i: usize = 0;
        while i < self.rooms.len()
            invariant
                i <= self.rooms@.len(),
                candidates@.len() == positions@.len(),
                positions@.map_values(|p: usize| p as int) =~= matching_positions(self.rooms@, dispatcher@.rule, i as nat),
                candidates@ =~= candidates_at(self.rooms@, matching_positions(self.rooms@, dispatcher@.rule, i as nat)),
            decreases self.rooms@.len() - i,
        {
            if dispatcher.matches(self.rooms[i].name.as_str()) {
                candidates.push(RoomCandidate { name: self.rooms[i].name.clone(), num_listeners: self.rooms[i].num_listeners });
                positions.push(i);
            }
            i = i + 1;
        }
        let ghost pos = matching_positions(self.rooms@, dispatcher@.rule, self.rooms@.len());
        let choice = dispatcher.dispatcher_type().choose_room(&candidates);
        match choice {
            Some(k) => {
                proof {
                    assert(positions@[k as int] as int == pos[k as int]);
                }
                Some(positions[k])
            },
            None => None,
        }
    }

    /// Creates or changes a dispatcher as `create_dispatcher` does, where the
    /// input's rule compiles and its timeout is not negative; otherwise
    /// returns `None` and changes nothing (there the request cannot be
    /// carried out).
    pub fn create_dispatcher_checked(&mut self, input: RoomDispatcherInput) -> (r: Option<
        Result<DispatcherCreation, CreateDispatcherError>,
    >)
        requires
            old(self).wf(),
        ensures
            final(self).wf(),
            final(self).rooms() == old(self).rooms(),
            r is None <==> !input_is_valid(input),
            r is None ==> final(self).dispatchers() == old(self).dispatchers(),
            r matches Some(res) ==> creates_dispatcher(old(self).dispatchers(), input, final(self).dispatchers(), res),
    {
        if input.timeout >= 0 && regex_is_valid(input.rule.as_str()) {
            Some(self.create_dispatcher(input))
        } else {
            None
        }
    }

    /// Handles a control request that arrived over OSC. A `/createDispatcher`
    /// message whose arguments describe a dispatcher creates (or changes) it
    /// and is answered on `/reply`; a malformed one, and one that the
    /// registry refuses, are answered on `/error`. Anything else is ignored.
    /// A request whose rule does not compile or whose timeout is negative
    /// cannot be carried out; `process_osc_checked` tests for it.
    pub fn process_osc(&mut self, osc_packet: OscPacket) -> (r: OscOutcome)
        requires
            old(self).wf(),
            packet_is_acceptable(osc_packet@),
        ensures
            final(self).wf(),
            final(self).rooms() == old(self).rooms(),
            osc_outcome(old(self).dispatchers(), final(self).dispatchers(), osc_packet@, r),
    {
        let ghost pv = osc_packet@;
        match osc_packet {
            OscPacket::Message(osc_message) => {
                if osc_message.addr != "/createDispatcher".to_owned() {
                    return OscOutcome { reply: None, creation: None };
                }
                let ghost m = osc_message@;
                match RoomDispatcherInput::try_from(osc_message) {
                    Ok(dispatcher_input) => {
                        proof {
                            assert(is_request_for(m, dispatcher_input));
                        }
                        let ghost inp = dispatcher_input;
                        let ghost before = self.dispatchers();
                        match self.create_dispatcher(dispatcher_input) {
                            Ok(c) => {
                                let ghost res = Ok::<DispatcherCreation, CreateDispatcherError>(c);
                                proof {
                                    assert(creates_dispatcher(before, inp, self.dispatchers(), res));
                                }
                                OscOutcome { reply: Some(send_reply("Created dispatcher")), creation: Some(c) }
                            },
                            Err(e) => {
                                let ghost res = Err::<DispatcherCreation, CreateDispatcherError>(e);
                                proof {
                                    assert(creates_dispatcher(before, inp, self.dispatchers(), res));
                                }
                                OscOutcome { reply: Some(send_error("Error at creating dispatcher")), creation: None }
                            },
                        }
                    },
                    Err(_) => OscOutcome { reply: Some(send_error("Invalid create dispatcher message")), creation: None },
                }
            },
            OscPacket::Bundle => OscOutcome { reply: None, creation: None },
        }
    }

    /// Handles a control request as `process_osc` does, where it can be
    /// carried out; for a dispatcher request whose rule does not compile or
    /// whose timeout is negative, returns `None` and changes nothing.
    pub fn process_osc_checked(&mut self, osc_packet: OscPacket) -> (r: Option<OscOutcome>)
        requires
            old(self).wf(),
        ensures
            final(self).wf(),
            final(self).rooms() == old(self).rooms(),
            r is None <==> !packet_is_acceptable(osc_packet@),
            r is None ==> final(self).dispatchers() == old(self).dispatchers(),
            r matches Some(o) ==> osc_outcome(old(self).dispatchers(), final(self).dispatchers(), osc_packet@, o),
    {
        let acceptable = match &osc_packet {
            OscPacket::Message(m) => {
                if m.addr != "/createDispatcher".to_owned() || m.args.len() != 5 {
                    true
                } else {
                    match (&m.args[0], &m.args[2], &m.args[3]) {
                        (OscArg::Str(_), OscArg::Str(rule), OscArg::Int(t)) => *t >= 0 && regex_is_valid(
                            rule.as_str(),
                        ),
                        _ => true,
                    }
                }
            },
            OscPacket::Bundle => true,
        };
        if acceptable {
            Some(self.process_osc(osc_packet))
        } else {
            None
        }
    }
}

/// Whether a dispatcher request that arrived over OSC can be carried out:
/// where its arguments describe a dispatcher, the rule compiles and the
/// timeout is not negative.
pub open spec fn packet_is_acceptable(p: OscPacketView) -> bool {
    match p {
        OscPacketView::Message(m) => m.addr == "/createDispatcher"@ && is_dispatcher_request(m) ==> {
            &&& spec_regex_valid(arg_string(m.args[2])->0)
            &&& arg_int(m.args[3])->0 >= 0
        },
        OscPacketView::Bundle => true,
    }
}

/// What handling the packet `p` answers and does to the dispatchers `old`,
/// leaving `new`: a dispatcher request is answered on `/reply` where it
/// creates or changes a dispatcher, on `/error` where it is malformed or
/// refused; anything else gets no answer and changes nothing.
pub open spec fn osc_outcome(
    old: Seq<DispatcherView>,
    new: Seq<DispatcherView>,
    p: OscPacketView,
    r: OscOutcome,
) -> bool {
    match p {
        OscPacketView::Message(m) if m.addr == "/createDispatcher"@ => {
            if !is_dispatcher_request(m) {
                r.reply matches Some(p) && p@ == text_message("/error"@, "Invalid create dispatcher message"@)
                    && r.creation is None && new == old
            } else {
                exists|input: RoomDispatcherInput, res: Result<DispatcherCreation, CreateDispatcherError>|
                    #[trigger] is_request_for(m, input) && #[trigger] creates_dispatcher(old, input, new, res)
                        && match res {
                        Ok(c) => r.reply matches Some(p) && p@ == text_message("/reply"@, "Created dispatcher"@)
                            && r.creation == Some(c),
                        Err(_) => r.reply matches Some(p) && p@ == text_message(
                            "/error"@,
                            "Error at creating dispatcher"@,
                        ) && r.creation is None,
                    }
            }
        },
        _ => r.reply is None && r.creation is None && new == old,
    }
}

/// Whether `input` is what `RoomDispatcherInput::try_from` reads from `m`.
pub open spec fn is_request_for(m: crate::osc::OscMessageView, input: RoomDispatcherInput) -> bool {
    &&& Some(input.name@) == arg_string(m.args[0])
    &&& opt_seq(input.admin_password) == arg_string(m.args[1])
    &&& Some(input.rule@) == arg_string(m.args[2])
    &&& input.room_type == RoomType::Audio
    &&& input.dispatcher_type == DispatcherType::Random
    &&& Some(input.timeout) == arg_int(m.args[3])
    &&& opt_seq(input.return_room_prefix) == arg_string(m.args[4])
    &&& !input.add_random_postfix
}

} // verus!
