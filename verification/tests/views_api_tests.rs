use stecker::api::{APIClient, DataRoomPublicType, SteckerAPIRoomType};
use stecker::client::{self, ClientRoomType};
use stecker::dispatch::{DispatcherType, RoomDispatcher, RoomDispatcherInput};
use stecker::room::RoomType;
use stecker::views::{dispatcher_redirect_uri, Template};

#[test]
fn template_file_names() {
    assert_eq!(Template::Debug.as_str(), "debug.html.jinja");
    assert_eq!(Template::Stream.as_str(), "stream.html.jinja");
    assert_eq!(Template::DispatcherNotFound.as_str(), "dispatcher_not_found.html.jinja");
    assert_eq!(Template::DispatcherNoRoomAvailable.as_str(), "dispatcher_no_room_available.html.jinja");
}

#[test]
fn redirect_uri_carries_prefix_and_postfix_flags() {
    assert_eq!(dispatcher_redirect_uri("room", None, false), "/s/room?");
    assert_eq!(dispatcher_redirect_uri("room", Some("back".to_string()), false), "/s/room?&returnRoomPrefix=back");
    assert_eq!(dispatcher_redirect_uri("room", None, true), "/s/room?&addRandomPostfix=1");
    assert_eq!(
        dispatcher_redirect_uri("room", Some("b".to_string()), true),
        "/s/room?&returnRoomPrefix=b&addRandomPostfix=1"
    );
}

#[test]
fn api_client_targets_graphql_endpoint() {
    let c = APIClient::new("http://127.0.0.1:8000".to_string());
    assert_eq!(c.url(), "http://127.0.0.1:8000/graphql");
}

#[test]
fn api_room_type_names() {
    assert_eq!(SteckerAPIRoomType::Audio.api_name(), "AUDIO");
    assert_eq!(SteckerAPIRoomType::Data(DataRoomPublicType::Float).api_name(), "FLOAT");
    assert_eq!(SteckerAPIRoomType::Data(DataRoomPublicType::Chat).api_name(), "CHAT");
}

#[test]
fn client_types() {
    let c = client::APIClient { host: "h".to_string() };
    assert_eq!(c.host, "h");
    assert_ne!(ClientRoomType::Chat, ClientRoomType::Float);
}

#[test]
fn generated_password_has_its_shape() {
    let d = RoomDispatcher::from(RoomDispatcherInput {
        name: "d".to_string(),
        admin_password: None,
        rule: "x".to_string(),
        room_type: RoomType::Audio,
        dispatcher_type: DispatcherType::Random,
        timeout: 5,
        return_room_prefix: None,
        add_random_postfix: false,
    });
    let p = d.admin_password();
    assert_eq!(p.chars().count(), 8);
    assert!(p.chars().all(|c| c.is_ascii_alphanumeric()));
}
