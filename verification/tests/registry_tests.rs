use stecker::dispatch::{DispatcherType, RoomDispatcherInput};
use stecker::events::RoomEvent;
use stecker::osc::{OscArg, OscMessage, OscPacket};
use stecker::registry::{CreateDispatcherError, CreateRoomPlan, DispatcherCreation, Registry, RoomEntry};
use stecker::room::RoomType;

fn entry(name: &str, password: &str, listeners: i32, id: u32) -> RoomEntry<u32> {
    RoomEntry { name: name.to_string(), admin_password: password.to_string(), num_listeners: listeners, room: id }
}

fn input(name: &str, password: Option<&str>, rule: &str, t: DispatcherType, timeout: i32) -> RoomDispatcherInput {
    RoomDispatcherInput {
        name: name.to_string(),
        admin_password: password.map(|p| p.to_string()),
        rule: rule.to_string(),
        room_type: RoomType::Audio,
        dispatcher_type: t,
        timeout,
        return_room_prefix: None,
        add_random_postfix: false,
    }
}

fn reply_of(p: Option<OscPacket>) -> (String, String) {
    match p {
        Some(OscPacket::Message(OscMessage { addr, args })) => match &args[0] {
            OscArg::Str(s) => (addr, s.clone()),
            _ => panic!("expected a text argument"),
        },
        _ => panic!("expected a message"),
    }
}

#[test]
fn inserted_room_is_found_with_its_password() {
    let mut reg: Registry<u32> = Registry::new();
    assert!(!reg.room_exists("a"));
    reg.insert_room(entry("a", "pw", 0, 1));
    assert!(reg.room_exists("a"));
    assert!(reg.room_password_match("a", "pw"));
    assert!(!reg.room_password_match("a", "other"));
    assert!(!reg.room_password_match("b", "pw"));
    assert_eq!(reg.room_at(reg.find_room("a").unwrap()).room, 1);
}

#[test]
fn inserting_an_existing_name_replaces_in_place() {
    let mut reg: Registry<u32> = Registry::new();
    reg.insert_room(entry("a", "1", 0, 1));
    reg.insert_room(entry("b", "2", 0, 2));
    reg.insert_room(entry("a", "3", 0, 3));
    assert_eq!(reg.room_entries().len(), 2);
    assert_eq!(reg.find_room("a"), Some(0));
    assert_eq!(reg.room_at(0).room, 3);
    assert!(reg.room_password_match("a", "3"));
}

#[test]
fn removed_and_reset_rooms_are_gone() {
    let mut reg: Registry<u32> = Registry::new();
    reg.insert_room(entry("a", "1", 0, 1));
    reg.insert_room(entry("b", "2", 0, 2));
    reg.insert_room(entry("c", "3", 0, 3));
    reg.remove_room("b");
    assert!(!reg.room_exists("b"));
    assert_eq!(reg.find_room("c"), Some(1));
    reg.remove_room("nothing");
    assert_eq!(reg.room_entries().len(), 2);
    assert!(matches!(reg.reset_rooms(), RoomEvent::RoomDispatcherReset()));
    assert!(reg.room_entries().is_empty());
}

#[test]
fn create_room_plan_depends_on_existence() {
    let mut reg: Registry<u32> = Registry::new();
    match reg.plan_create_room("a", Some("pw".to_string())) {
        CreateRoomPlan::CreateNew { password } => assert_eq!(password, "pw"),
        _ => panic!("a new room is created"),
    }
    match reg.plan_create_room("a", None) {
        CreateRoomPlan::CreateNew { password } => {
            assert_eq!(password.len(), 8);
            assert!(password.chars().all(|c| c.is_ascii_alphanumeric()));
        }
        _ => panic!("a new room is created"),
    }
    reg.insert_room(entry("a", "pw", 0, 1));
    match reg.plan_create_room("a", None) {
        CreateRoomPlan::ReplaceSender { reply_password } => assert_eq!(reply_password, ""),
        _ => panic!("the sender is replaced"),
    }
    match reg.plan_create_room("a", Some("x".to_string())) {
        CreateRoomPlan::ReplaceSender { reply_password } => assert_eq!(reply_password, "x"),
        _ => panic!("the sender is replaced"),
    }
}

#[test]
fn dispatcher_is_created_then_changed_only_with_password() {
    let mut reg: Registry<u32> = Registry::new();
    let created = reg.create_dispatcher(input("d", Some("pw"), "^a", DispatcherType::Random, 10)).unwrap();
    assert!(matches!(created, DispatcherCreation::Created(_)));
    match created.event() {
        Some(RoomEvent::RoomDispatcherCreated(n)) => assert_eq!(n, "d"),
        _ => panic!("a creation is announced"),
    }
    assert_eq!(
        reg.create_dispatcher(input("d", None, "^b", DispatcherType::Random, 20)).err(),
        Some(CreateDispatcherError::NoPasswordProvided)
    );
    assert_eq!(
        reg.create_dispatcher(input("d", Some("wrong"), "^b", DispatcherType::Random, 20)).err(),
        Some(CreateDispatcherError::PasswordMismatch)
    );
    let d = reg.dispatcher_at(reg.find_dispatcher("d").unwrap());
    assert_eq!(d.rule(), "^a");
    assert_eq!(d.timeout_secs(), 10);

    let updated = reg.create_dispatcher(input("d", Some("pw"), "^b", DispatcherType::NextFreeRandom, 20)).unwrap();
    assert!(matches!(updated, DispatcherCreation::Updated(_)));
    assert!(updated.event().is_none());
    let d = updated.dispatcher();
    assert_eq!(d.rule(), "^b");
    assert_eq!(d.timeout_secs(), 20);
    // only the rule and the timeout change
    assert_eq!(d.dispatcher_type(), DispatcherType::Random);
    assert_eq!(reg.dispatcher_list().len(), 1);
}

#[test]
fn removed_dispatcher_is_announced_as_deleted() {
    let mut reg: Registry<u32> = Registry::new();
    reg.create_dispatcher(input("d", Some("pw"), "x", DispatcherType::Random, 1)).unwrap();
    match reg.remove_dispatcher("d") {
        RoomEvent::BroadcastRoomDeleted(n) => assert_eq!(n, "d"),
        _ => panic!("the removal is announced"),
    }
    assert!(reg.find_dispatcher("d").is_none());
}

#[test]
fn get_room_selects_among_matching_rooms() {
    let mut reg: Registry<u32> = Registry::new();
    reg.insert_room(entry("stage-b", "p", 0, 1));
    reg.insert_room(entry("other", "p", 0, 2));
    reg.insert_room(entry("stage-a", "p", 4, 3));
    reg.insert_room(entry("stage-c", "p", 0, 4));
    let alpha = reg.create_dispatcher(input("alpha", Some("pw"), "^stage-", DispatcherType::NextFreeAlphabetical, 5)).unwrap();
    // stage-a has listeners, so stage-b is the first free match
    assert_eq!(reg.get_room(alpha.dispatcher()), Some(0));
    let random = reg.create_dispatcher(input("rand", Some("pw"), "^stage-", DispatcherType::Random, 5)).unwrap();
    for _ in 0..30 {
        let r = reg.get_room(random.dispatcher()).unwrap();
        assert!(r == 0 || r == 2 || r == 3);
    }
    let free = reg.create_dispatcher(input("free", Some("pw"), "^stage-", DispatcherType::NextFreeRandom, 5)).unwrap();
    for _ in 0..30 {
        let r = reg.get_room(free.dispatcher()).unwrap();
        assert!(r == 0 || r == 3);
    }
    let none = reg.create_dispatcher(input("none", Some("pw"), "^nothing$", DispatcherType::Random, 5)).unwrap();
    assert_eq!(reg.get_room(none.dispatcher()), None);
}

fn create_message(args: Vec<OscArg>) -> OscPacket {
    OscPacket::Message(OscMessage { addr: "/createDispatcher".to_string(), args })
}

fn s(x: &str) -> OscArg {
    OscArg::Str(x.to_string())
}

#[test]
fn osc_request_creates_dispatcher() {
    let mut reg: Registry<u32> = Registry::new();
    let out = reg.process_osc(create_message(vec![s("d"), s("pw"), s("^a"), OscArg::Int(30), s("back")]));
    assert_eq!(reply_of(out.reply), ("/reply".to_string(), "Created dispatcher".to_string()));
    assert!(matches!(out.creation, Some(DispatcherCreation::Created(_))));
    let d = reg.dispatcher_at(reg.find_dispatcher("d").unwrap());
    assert_eq!(d.return_room_prefix(), Some("back".to_string()));
    assert_eq!(d.dispatcher_type(), DispatcherType::Random);
    // the same request without password is refused
    let out = reg
        .process_osc_checked(create_message(vec![s("d"), OscArg::Int(0), s("^a"), OscArg::Int(30), s("back")]))
        .unwrap();
    assert_eq!(reply_of(out.reply), ("/error".to_string(), "Error at creating dispatcher".to_string()));
    assert!(out.creation.is_none());
}

#[test]
fn osc_request_errors_and_ignored_packets() {
    let mut reg: Registry<u32> = Registry::new();
    let out = reg.process_osc_checked(create_message(vec![s("d")])).unwrap();
    assert_eq!(reply_of(out.reply), ("/error".to_string(), "Invalid create dispatcher message".to_string()));
    let out = reg.process_osc_checked(OscPacket::Message(OscMessage { addr: "/other".to_string(), args: vec![] }));
    let out = out.unwrap();
    assert!(out.reply.is_none() && out.creation.is_none());
    let out = reg.process_osc_checked(OscPacket::Bundle).unwrap();
    assert!(out.reply.is_none() && out.creation.is_none());
    assert!(reg.dispatcher_list().is_empty());
}

#[test]
fn osc_request_that_cannot_be_carried_out_changes_nothing() {
    let mut reg: Registry<u32> = Registry::new();
    assert!(reg.process_osc_checked(create_message(vec![s("d"), s("pw"), s("("), OscArg::Int(30), s("back")])).is_none());
    assert!(reg.process_osc_checked(create_message(vec![s("d"), s("pw"), s("a"), OscArg::Int(-1), s("back")])).is_none());
    assert!(reg.dispatcher_list().is_empty());
    // an existing dispatcher is not changed either
    reg.process_osc(create_message(vec![s("d"), s("pw"), s("^a"), OscArg::Int(30), s("back")]));
    assert!(reg.process_osc_checked(create_message(vec![s("d"), s("pw"), s("["), OscArg::Int(5), s("back")])).is_none());
    let d = reg.dispatcher_at(reg.find_dispatcher("d").unwrap());
    assert_eq!(d.rule(), "^a");
    assert_eq!(d.timeout_secs(), 30);
}

#[test]
fn checked_creation_refuses_invalid_input() {
    let mut reg: Registry<u32> = Registry::new();
    assert!(reg.create_dispatcher_checked(input("d", Some("p"), "(", DispatcherType::Random, 5)).is_none());
    assert!(reg.create_dispatcher_checked(input("d", Some("p"), "a", DispatcherType::Random, -5)).is_none());
    assert!(reg.dispatcher_list().is_empty());
    let created = reg.create_dispatcher_checked(input("d", Some("p"), "a", DispatcherType::Random, 5)).unwrap();
    assert!(matches!(created, Ok(DispatcherCreation::Created(_))));
}
