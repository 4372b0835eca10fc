//! Room dispatchers: a dispatcher selects one room among those whose names
//! match its rule, by one of three strategies.
use vstd::prelude::*;
use vstd::string::*;

use crate::random::{is_ascii_alphanumeric, random_alphanumeric, random_index};
use crate::room::RoomType;

verus! {

/// The strategy by which a dispatcher selects a room among its candidates.
#[derive(Debug, Clone, Copy, PartialEq, Eq, Structural)]
pub enum DispatcherType {
    /// Any candidate, at random.
    Random,
    /// The candidate without listeners whose name comes first.
    NextFreeAlphabetical,
    /// Any candidate without listeners, at random.
    NextFreeRandom,
}

/// `c` with ASCII upper case letters mapped to lower case.
pub open spec fn ascii_lower(c: char) -> char {
    if 'A' <= c <= 'Z' {
        ((c as u32) + 32) as char
    } else {
        c
    }
}

/// `s` with ASCII upper case letters mapped to lower case.
pub open spec fn ascii_lowercase(s: Seq<char>) -> Seq<char> {
    Seq::new(s.len(), |i: int| ascii_lower(s[i]))
}

/// The dispatcher type that a name stands for, compared without regard to
/// ASCII case.
pub open spec fn spec_parse_dispatcher_type(s: Seq<char>) -> Result<DispatcherType, ()> {
    let l = ascii_lowercase(s);
    if l == "random"@ {
        Ok(DispatcherType::Random)
    } else if l == "nextfreealpha"@ {
        Ok(DispatcherType::NextFreeAlphabetical)
    } else if l == "nextfreerandom"@ {
        Ok(DispatcherType::NextFreeRandom)
    } else {
        Err(())
    }
}

/// Dispatcher type names are read without regard to ASCII case.
pub proof fn law_parse_ignores_ascii_case(s: Seq<char>)
    ensures
        spec_parse_dispatcher_type(s) == spec_parse_dispatcher_type(ascii_lowercase(s)),
{
    assert forall|i: int| 0 <= i < s.len() implies ascii_lower(ascii_lower(s[i])) == ascii_lower(s[i]) by {
        let c = s[i];
        if 'A' <= c <= 'Z' {
            let u = (c as u32) + 32;
            assert(97 <= u <= 122);
            assert(((u as char) as u32) == u);
        }
    }
    assert(ascii_lowercase(ascii_lowercase(s)) =~= ascii_lowercase(s));
}

/// Whether `s`, mapped to ASCII lower case, is `target`.
fn ascii_lowercase_equals(s: &str, target: &str) -> (r: bool)
    ensures
        r == (ascii_lowercase(s@) == target@),
{
    let n = s.unicode_len();
    let m = target.unicode_len();
    if n != m {
        proof {
            assert(ascii_lowercase(s@).len() != target@.len());
        }
        return false;
    }
    let mut i: usize = 0;
    while i < n
        invariant
            n == s@.len(),
            m == target@.len(),
            n == m,
            i <= n,
            forall|j: int| 0 <= j < i ==> ascii_lower(s@[j]) == target@[j],
        decreases n - i,
    {
        let c = s.get_char(i);
        let t = target.get_char(i);
        let same = if 'A' <= c && c <= 'Z' {
            (c as u32) + 32 == (t as u32)
        } else {
            c == t
        };
        if !same {
            proof {
                assert(ascii_lowercase(s@)[i as int] != target@[i as int]);
            }
            return false;
        }
        i = i + 1;
    }
    proof {
        assert(ascii_lowercase(s@) =~= target@);
    }
    true
}

impl DispatcherType {
    /// Reads a dispatcher type from its name, without regard to ASCII case:
    /// "random", "nextfreealpha" or "nextfreerandom".
    pub fn try_from(value: String) -> (r: Result<DispatcherType, ()>)
        ensures
            r == spec_parse_dispatcher_type(value@),
    {
        if ascii_lowercase_equals(value.as_str(), "random") {
            Ok(DispatcherType::Random)
        } else if ascii_lowercase_equals(value.as_str(), "nextfreealpha") {
            Ok(DispatcherType::NextFreeAlphabetical)
        } else if ascii_lowercase_equals(value.as_str(), "nextfreerandom") {
            Ok(DispatcherType::NextFreeRandom)
        } else {
            Err(())
        }
    }
}

/// Whether `a` comes before `b`, comparing character by character (the
/// order of `str`).
pub open spec fn name_lt(a: Seq<char>, b: Seq<char>) -> bool
    decreases a.len(),
{
    if a.len() == 0 {
        b.len() > 0
    } else if b.len() == 0 {
        false
    } else if a[0] != b[0] {
        (a[0] as u32) < (b[0] as u32)
    } else {
        name_lt(a.drop_first(), b.drop_first())
    }
}

/// The order of names is lexicographic, whatever the lengths: where `a` and
/// `b` agree on their first `k` characters, `a` comes first if it ends
/// there and `b` goes on, or if at position `k` its character has the
/// smaller code point; `b` comes first if its character there is smaller;
/// and a name does not come before an equal one.
pub proof fn law_name_order_is_lexicographic(a: Seq<char>, b: Seq<char>, k: int)
    requires
        0 <= k <= a.len(),
        k <= b.len(),
        forall|i: int| 0 <= i < k ==> a[i] == b[i],
    ensures
        k == a.len() && k < b.len() ==> name_lt(a, b),
        k < a.len() && k < b.len() && (a[k] as u32) < (b[k] as u32) ==> name_lt(a, b),
        k < a.len() && k < b.len() && (b[k] as u32) < (a[k] as u32) ==> !name_lt(a, b),
        k == a.len() && k == b.len() ==> !name_lt(a, b),
    decreases k,
{
    if k > 0 {
        assert(a[0] == b[0]);
        assert forall|i: int| 0 <= i < k - 1 implies a.drop_first()[i] == b.drop_first()[i] by {
            assert(a[i + 1] == b[i + 1]);
        }
        law_name_order_is_lexicographic(a.drop_first(), b.drop_first(), k - 1);
        if k < a.len() {
            assert(a.drop_first()[k - 1] == a[k]);
        }
        if k < b.len() {
            assert(b.drop_first()[k - 1] == b[k]);
        }
    } else if k < a.len() && k < b.len() && a[0] != b[0] {
        vstd::utf8::char_u32_cast(a[0], a[0] as u32);
        vstd::utf8::char_u32_cast(b[0], b[0] as u32);
    }
}

/// The order of names is transitive.
pub proof fn lemma_name_lt_transitive(a: Seq<char>, b: Seq<char>, c: Seq<char>)
    requires
        name_lt(a, b),
        name_lt(b, c),
    ensures
        name_lt(a, c),
    decreases a.len(),
{
    if a.len() > 0 && b.len() > 0 && c.len() > 0 && a[0] == b[0] && b[0] == c[0] {
        lemma_name_lt_transitive(a.drop_first(), b.drop_first(), c.drop_first());
    }
}

/// No name comes before itself.
pub proof fn lemma_name_lt_irreflexive(a: Seq<char>)
    ensures
        !name_lt(a, a),
    decreases a.len(),
{
    if a.len() > 0 {
        lemma_name_lt_irreflexive(a.drop_first());
    }
}

/// Of two different names, one comes before the other.
pub proof fn lemma_name_lt_total(a: Seq<char>, b: Seq<char>)
    requires
        a != b,
    ensures
        name_lt(a, b) || name_lt(b, a),
    decreases a.len(),
{
    if a.len() > 0 && b.len() > 0 && a[0] == b[0] {
        if a.drop_first() == b.drop_first() {
            assert(a =~= seq![a[0]] + a.drop_first());
            assert(b =~= seq![b[0]] + b.drop_first());
        }
        lemma_name_lt_total(a.drop_first(), b.drop_first());
    } else if a.len() > 0 && b.len() > 0 {
        vstd::utf8::char_u32_cast(a[0], a[0] as u32);
        vstd::utf8::char_u32_cast(b[0], b[0] as u32);
    } else if a.len() == 0 && b.len() == 0 {
        assert(a =~= b);
    }
}

/// Whether `a` comes before `b` in the order of names.
fn str_lt(a: &str, b: &str) -> (r: bool)
    ensures
        r == name_lt(a@, b@),
{
    let n = a.unicode_len();
    let m = b.unicode_len();
    let mut i: usize = 0;
    proof {
        assert(a@.skip(0) =~= a@);
        assert(b@.skip(0) =~= b@);
    }
    while i < n && i < m
        invariant
            n == a@.len(),
            m == b@.len(),
            i <= n,
            i <= m,
            name_lt(a@, b@) == name_lt(a@.skip(i as int), b@.skip(i as int)),
        decreases n - i,
    {
        let ca = a.get_char(i);
        let cb = b.get_char(i);
        proof {
            let sa = a@.skip(i as int);
            let sb = b@.skip(i as int);
            assert(sa[0] == ca);
            assert(sb[0] == cb);
            assert(sa.drop_first() =~= a@.skip(i + 1));
            assert(sb.drop_first() =~= b@.skip(i + 1));
        }
        if ca != cb {
            return (ca as u32) < (cb as u32);
        }
        i = i + 1;
    }
    i < m
}

/// A room that a dispatcher may select: its name and number of listeners.
pub struct RoomCandidate {
    pub name: String,
    pub num_listeners: i32,
}

/// A candidate is free when nobody listens to it.
pub open spec fn is_free(c: RoomCandidate) -> bool {
    c.num_listeners <= 0
}

/// Whether some candidate is free.
pub open spec fn has_free(rooms: Seq<RoomCandidate>) -> bool {
    exists|j: int| 0 <= j < rooms.len() && is_free(#[trigger] rooms[j])
}

/// Candidate `i` is the free one whose name comes first; of several with
/// that name, the first in the sequence.
pub open spec fn is_first_free_alphabetical(rooms: Seq<RoomCandidate>, i: int) -> bool {
    &&& 0 <= i < rooms.len()
    &&& is_free(rooms[i])
    &&& forall|j: int|
        0 <= j < rooms.len() && is_free(#[trigger] rooms[j]) ==> !name_lt(rooms[j].name@, rooms[i].name@)
    &&& forall|j: int| 0 <= j < i && is_free(#[trigger] rooms[j]) ==> rooms[j].name@ != rooms[i].name@
}

/// The alphabetical strategy is deterministic: at most one candidate is
/// the free one whose name comes first.
pub proof fn law_first_free_alphabetical_unique(rooms: Seq<RoomCandidate>, i: int, j: int)
    requires
        is_first_free_alphabetical(rooms, i),
        is_first_free_alphabetical(rooms, j),
    ensures
        i == j,
{
    let ni = rooms[i].name@;
    let nj = rooms[j].name@;
    if ni != nj {
        lemma_name_lt_total(ni, nj);
    }
    assert(ni == nj);
    if i < j {
        assert(rooms[i].name@ != rooms[j].name@);
    } else if j < i {
        assert(rooms[j].name@ != rooms[i].name@);
    }
}

/// The alphabetical strategy takes a room nobody listens to, and no other
/// such room's name sorts before it: none is a proper prefix of the chosen
/// name, and none has, at the first position where the names differ, a
/// character with a smaller code point.
pub proof fn law_alphabetical_choice_sorts_first(rooms: Seq<RoomCandidate>, i: int, j: int, k: int)
    requires
        is_first_free_alphabetical(rooms, i),
        0 <= j < rooms.len(),
        rooms[j].num_listeners <= 0,
        0 <= k <= rooms[j].name@.len(),
        k <= rooms[i].name@.len(),
        forall|p: int| 0 <= p < k ==> rooms[j].name@[p] == rooms[i].name@[p],
    ensures
        rooms[i].num_listeners <= 0,
        !(k == rooms[j].name@.len() && k < rooms[i].name@.len()),
        !(k < rooms[j].name@.len() && k < rooms[i].name@.len() && (rooms[j].name@[k] as u32)
            < (rooms[i].name@[k] as u32)),
{
    assert(is_free(rooms[j]));
    law_name_order_is_lexicographic(rooms[j].name@, rooms[i].name@, k);
}

/// What a dispatcher of type `t` selects among `rooms`, for every outcome
/// of the random picks.
pub open spec fn is_valid_choice(t: DispatcherType, rooms: Seq<RoomCandidate>, r: Option<usize>) -> bool {
    match t {
        DispatcherType::Random => {
            &&& (r is None <==> rooms.len() == 0)
            &&& (r matches Some(i) ==> i < rooms.len())
        },
        DispatcherType::NextFreeAlphabetical => {
            &&& (r is None <==> !has_free(rooms))
            &&& (r matches Some(i) ==> is_first_free_alphabetical(rooms, i as int))
        },
        DispatcherType::NextFreeRandom => {
            &&& (r is None <==> !has_free(rooms))
            &&& (r matches Some(i) ==> i < rooms.len() && is_free(rooms[i as int]))
        },
    }
}

/// The positions of the free candidates, in order.
fn free_rooms(rooms: &Vec<RoomCandidate>) -> (r: Vec<usize>)
    ensures
        forall|k: int| 0 <= k < r.len() ==> r[k] < rooms.len() && is_free(rooms[r[k] as int]),
        forall|j: int| 0 <= j < rooms.len() && is_free(rooms[j]) ==> r@.contains(j as usize),
{
    let mut r: Vec<usize> = Vec::new();
    let mut i: usize = 0;
    while i < rooms.len()
        invariant
            i <= rooms.len(),
            forall|k: int| 0 <= k < r.len() ==> r[k] < rooms.len() && is_free(rooms[r[k] as int]),
            forall|j: int| 0 <= j < i && is_free(rooms[j]) ==> r@.contains(j as usize),
        decreases rooms.len() - i,
    {
        let ghost before = r@;
        if rooms[i].num_listeners <= 0 {
            r.push(i);
            proof {
                assert(r@[r.len() - 1] == i);
                assert forall|j: int| 0 <= j < i && is_free(rooms[j]) implies r@.contains(j as usize) by {
                    let k = choose|k: int| 0 <= k < before.len() && before[k] == j as usize;
                    assert(r@[k] == j as usize);
                }
            }
        }
        i = i + 1;
    }
    r
}

/// The free candidate whose name comes first (the first of several with that name).
fn first_free_alphabetical(rooms: &Vec<RoomCandidate>) -> (r: Option<usize>)
    ensures
        r is None <==> !has_free(rooms@),
        r matches Some(i) ==> is_first_free_alphabetical(rooms@, i as int),
{
    let mut best: Option<usize> = None;
    let mut i: usize = 0;
    while i < rooms.len()
        invariant
            i <= rooms.len(),
            best is None <==> (forall|j: int| 0 <= j < i ==> !is_free(#[trigger] rooms@[j])),
            best matches Some(b) ==> {
                &&& b < i
                &&& is_free(rooms@[b as int])
                &&& forall|j: int|
                    0 <= j < i && is_free(#[trigger] rooms@[j]) ==> !name_lt(rooms@[j].name@, rooms@[b as int].name@)
                &&& forall|j: int| 0 <= j < b && is_free(#[trigger] rooms@[j]) ==> rooms@[j].name@ != rooms@[b as int].name@
            },
        decreases rooms.len() - i,
    {
        if rooms[i].num_listeners <= 0 {
            match best {
                None => {
                    best = Some(i);
                    proof {
                        lemma_name_lt_irreflexive(rooms@[i as int].name@);
                    }
                },
                Some(b) => {
                    if str_lt(rooms[i].name.as_str(), rooms[b].name.as_str()) {
                        proof {
                            let ni = rooms@[i as int].name@;
                            let nb = rooms@[b as int].name@;
                            lemma_name_lt_irreflexive(ni);
                            assert forall|j: int| 0 <= j < i + 1 && is_free(#[trigger] rooms@[j]) implies !name_lt(
                                rooms@[j].name@,
                                ni,
                            ) by {
                                if j < i && name_lt(rooms@[j].name@, ni) {
                                    lemma_name_lt_transitive(rooms@[j].name@, ni, nb);
                                }
                            }
                            assert forall|j: int| 0 <= j < i && is_free(#[trigger] rooms@[j]) implies rooms@[j].name@
                                != ni by {
                                if rooms@[j].name@ == ni {
                                    assert(name_lt(rooms@[j].name@, nb));
                                }
                            }
                        }
                        best = Some(i);
                    }
                },
            }
        }
        i = i + 1;
    }
    proof {
        if best is None {
            assert(!has_free(rooms@));
        }
    }
    best
}

impl DispatcherType {
    /// Selects a room among `rooms` by this strategy: the position of the
    /// selected room, or `None` where there is nothing to select.
    pub fn choose_room(&self, rooms: &Vec<RoomCandidate>) -> (r: Option<usize>)
        ensures
            is_valid_choice(*self, rooms@, r),
    {
        match self {
            DispatcherType::Random => random_index(rooms.len()),
            DispatcherType::NextFreeAlphabetical => first_free_alphabetical(rooms),
            DispatcherType::NextFreeRandom => {
                let free = free_rooms(rooms);
                match random_index(free.len()) {
                    None => {
                        proof {
                            if has_free(rooms@) {
                                let j = choose|j: int| 0 <= j < rooms.len() && is_free(#[trigger] rooms@[j]);
                                assert(free@.contains(j as usize));
                            }
                        }
                        None
                    },
                    Some(k) => Some(free[k]),
                }
            },
        }
    }
}

/// Whether `pattern` compiles as a regular expression of the `regex` crate.
pub uninterp spec fn spec_regex_valid(pattern: Seq<char>) -> bool;

/// Whether the compiled `pattern` matches anywhere in `haystack`.
pub uninterp spec fn spec_regex_is_match(pattern: Seq<char>, haystack: Seq<char>) -> bool;

/// Calls `regex::Regex::new`. Claimed: whether it succeeds is the named
/// validity of the pattern.
#[verifier::external_body]
pub(crate) fn regex_is_valid(pattern: &str) -> (r: bool)
    ensures
        r == spec_regex_valid(pattern@),
{
    regex::Regex::new(pattern).is_ok()
}

/// Calls `regex::Regex::is_match` on the compiled `pattern`. Claimed: the
/// named match relation.
#[verifier::external_body]
pub(crate) fn regex_is_match(pattern: &str, haystack: &str) -> (r: bool)
    requires
        spec_regex_valid(pattern@),
    ensures
        r == spec_regex_is_match(pattern@, haystack@),
{
    regex::Regex::new(pattern).unwrap().is_match(haystack)
}

/// A request to create (or update) a dispatcher.
pub struct RoomDispatcherInput {
    pub name: String,
    pub admin_password: Option<String>,
    pub rule: String,
    pub room_type: RoomType,
    pub dispatcher_type: DispatcherType,
    pub timeout: i32,
    pub return_room_prefix: Option<String>,
    pub add_random_postfix: bool,
}

/// A dispatcher as a value.
pub ghost struct DispatcherView {
    pub name: Seq<char>,
    pub admin_password: Seq<char>,
    pub rule: Seq<char>,
    pub dispatcher_type: DispatcherType,
    pub timeout_secs: u64,
    pub return_room_prefix: Option<Seq<char>>,
    pub add_random_postfix: bool,
}

/// A dispatcher: its name (unique), the password that allows changing it,
/// the rule (a regular expression) that its candidate rooms' names match,
/// its strategy, its timeout, and what the stream page does for a back
/// channel. Its rule always compiles.
pub struct RoomDispatcher {
    name: String,
    admin_password: String,
    rule: String,
    dispatcher_type: DispatcherType,
    timeout_secs: u64,
    return_room_prefix: Option<String>,
    add_random_postfix: bool,
}

/// The view of an optional string.
pub open spec fn opt_str_view(o: Option<String>) -> Option<Seq<char>> {
    match o {
        Some(s) => Some(s@),
        None => None,
    }
}

fn clone_opt_string(o: &Option<String>) -> (r: Option<String>)
    ensures
        opt_str_view(r) == opt_str_view(*o),
{
    match o {
        Some(s) => Some(s.clone()),
        None => None,
    }
}

impl View for RoomDispatcher {
    type V = DispatcherView;

    closed spec fn view(&self) -> DispatcherView {
        DispatcherView {
            name: self.name@,
            admin_password: self.admin_password@,
            rule: self.rule@,
            dispatcher_type: self.dispatcher_type,
            timeout_secs: self.timeout_secs,
            return_room_prefix: opt_str_view(self.return_room_prefix),
            add_random_postfix: self.add_random_postfix,
        }
    }
}

/// Whether an input can become a dispatcher: its rule compiles and its
/// timeout is not negative.
pub open spec fn input_is_valid(value: RoomDispatcherInput) -> bool {
    spec_regex_valid(value.rule@) && value.timeout >= 0
}

/// The dispatcher that `value` describes, with `password` as its admin password.
pub open spec fn dispatcher_from_input(value: RoomDispatcherInput, password: Seq<char>) -> DispatcherView {
    DispatcherView {
        name: value.name@,
        admin_password: password,
        rule: value.rule@,
        dispatcher_type: value.dispatcher_type,
        timeout_secs: value.timeout as u64,
        return_room_prefix: opt_str_view(value.return_room_prefix),
        add_random_postfix: value.add_random_postfix,
    }
}

/// Whether `p` is a generated admin password: eight ASCII letters or digits.
pub open spec fn is_generated_password(p: Seq<char>) -> bool {
    p.len() == 8 && forall|i: int| 0 <= i < 8 ==> is_ascii_alphanumeric(#[trigger] p[i])
}

impl RoomDispatcher {
    #[verifier::type_invariant]
    spec fn rule_compiles(self) -> bool {
        spec_regex_valid(self.rule@)
    }

    /// The dispatcher that `value` describes, with `password` as its admin
    /// password where `value` names none.
    pub fn with_default_password(value: RoomDispatcherInput, password: String) -> (r: RoomDispatcher)
        requires
            input_is_valid(value),
        ensures
            r@ == dispatcher_from_input(
                value,
                match value.admin_password {
                    Some(p) => p@,
                    None => password@,
                },
            ),
    {
        let admin_password = match value.admin_password {
            Some(pw) => pw,
            None => password,
        };
        RoomDispatcher {
            name: value.name,
            admin_password,
            rule: value.rule,
            dispatcher_type: value.dispatcher_type,
            timeout_secs: value.timeout as u64,
            return_room_prefix: value.return_room_prefix,
            add_random_postfix: value.add_random_postfix,
        }
    }

    /// The dispatcher that `value` describes; where `value` names no admin
    /// password, a random one of eight letters and digits.
    pub fn from(value: RoomDispatcherInput) -> (r: RoomDispatcher)
        requires
            input_is_valid(value),
        ensures
            value.admin_password matches Some(p) ==> r@ == dispatcher_from_input(value, p@),
            value.admin_password is None ==> r@ == dispatcher_from_input(value, r@.admin_password)
                && is_generated_password(r@.admin_password),
    {
        let password = match &value.admin_password {
            Some(_) => String::new(),
            None => random_alphanumeric(8),
        };
        RoomDispatcher::with_default_password(value, password)
    }

    /// The dispatcher that `value` describes, where its rule compiles and its
    /// timeout is not negative; `None` otherwise.
    pub fn try_from_input(value: RoomDispatcherInput) -> (r: Option<RoomDispatcher>)
        ensures
            r is Some <==> input_is_valid(value),
            r matches Some(d) ==> (value.admin_password matches Some(p) ==> d@ == dispatcher_from_input(value, p@)),
            r matches Some(d) ==> (value.admin_password is None ==> d@ == dispatcher_from_input(
                value,
                d@.admin_password,
            ) && is_generated_password(d@.admin_password)),
    {
        if value.timeout >= 0 && regex_is_valid(value.rule.as_str()) {
            Some(RoomDispatcher::from(value))
        } else {
            None
        }
    }

    /// A copy of the dispatcher.
    pub fn clone(&self) -> (r: RoomDispatcher)
        ensures
            r@ == self@,
    {
        proof {
            use_type_invariant(self);
        }
        RoomDispatcher {
            name: self.name.clone(),
            admin_password: self.admin_password.clone(),
            rule: self.rule.clone(),
            dispatcher_type: self.dispatcher_type,
            timeout_secs: self.timeout_secs,
            return_room_prefix: clone_opt_string(&self.return_room_prefix),
            add_random_postfix: self.add_random_postfix,
        }
    }

    /// Replaces the rule and the timeout (the rest stays).
    pub fn update(&mut self, rule: String, timeout_secs: u64)
        requires
            spec_regex_valid(rule@),
        ensures
            final(self)@ == (DispatcherView { rule: rule@, timeout_secs, ..old(self)@ }),
    {
        self.rule = rule;
        self.timeout_secs = timeout_secs;
    }

    /// Whether the dispatcher's rule matches `name`.
    pub fn matches(&self, name: &str) -> (r: bool)
        ensures
            r == spec_regex_is_match(self@.rule, name@),
    {
        proof {
            use_type_invariant(self);
        }
        regex_is_match(self.rule.as_str(), name)
    }

    /// The name of the dispatcher.
    pub fn name(&self) -> (r: &String)
        ensures
            r@ == self@.name,
    {
        &self.name
    }

    /// The password that allows changing the dispatcher.
    pub fn admin_password(&self) -> (r: &String)
        ensures
            r@ == self@.admin_password,
    {
        &self.admin_password
    }

    /// The rule that the names of its candidate rooms match.
    pub fn rule(&self) -> (r: &String)
        ensures
            r@ == self@.rule,
    {
        &self.rule
    }

    /// The strategy by which the dispatcher selects a room.
    pub fn dispatcher_type(&self) -> (r: DispatcherType)
        ensures
            r == self@.dispatcher_type,
    {
        self.dispatcher_type
    }

    /// After how many seconds without a change the dispatcher is removed.
    pub fn timeout_secs(&self) -> (r: u64)
        ensures
            r == self@.timeout_secs,
    {
        self.timeout_secs
    }

    /// The prefix of the room that the stream page offers as a way back.
    pub fn return_room_prefix(&self) -> (r: Option<String>)
        ensures
            opt_str_view(r) == self@.return_room_prefix,
    {
        clone_opt_string(&self.return_room_prefix)
    }

    /// Whether the stream page adds a random postfix to that room's name.
    pub fn append_random_postfix(&self) -> (r: bool)
        ensures
            r == self@.add_random_postfix,
    {
        self.add_random_postfix
    }
}

} // verus!
