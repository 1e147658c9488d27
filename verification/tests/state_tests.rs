use yewchat::avatar::avatar_url;
use yewchat::state::{is_gif_body, Chat, DispatchResult, Msg};

const AVATAR_PREFIX: &str = "https://avatars.dicebear.com/api/adventurer-neutral/";

#[test]
fn roster_is_replaced_wholesale() {
    let mut chat = Chat::new();
    let r1 = chat.handle_payload("{\"messageType\":\"users\",\"dataArray\":[\"alice\"]}");
    assert_eq!(r1, DispatchResult::RosterReplaced);
    assert!(r1.needs_redraw());
    assert_eq!(chat.users.len(), 1);
    assert_eq!(chat.users[0].name, "alice");

    let r2 = chat.handle_payload("{\"messageType\":\"users\",\"dataArray\":[\"bob\",\"carol\"]}");
    assert_eq!(r2, DispatchResult::RosterReplaced);
    assert_eq!(chat.users.len(), 2);
    assert_eq!(chat.users[0].name, "bob");
    assert_eq!(chat.users[1].name, "carol");
    assert_eq!(chat.users[0].avatar, format!("{}bob.svg", AVATAR_PREFIX));
}

#[test]
fn roster_accepts_empty_and_duplicate_names() {
    let mut chat = Chat::new();
    chat.handle_payload("{\"messageType\":\"users\",\"dataArray\":[\"\",\"dup\",\"dup\"]}");
    assert_eq!(chat.users.len(), 3);
    assert_eq!(chat.users[0].name, "");
    assert_eq!(chat.users[1].name, "dup");
    assert_eq!(chat.users[2].name, "dup");
}

#[test]
fn roster_empty_when_data_array_absent() {
    let mut chat = Chat::new();
    chat.handle_payload("{\"messageType\":\"users\",\"dataArray\":[\"alice\"]}");
    let r = chat.handle_payload("{\"messageType\":\"users\"}");
    assert_eq!(r, DispatchResult::RosterReplaced);
    assert_eq!(chat.users.len(), 0);
}

#[test]
fn history_appends_in_arrival_order() {
    let mut chat = Chat::new();
    let p1 = "{\"messageType\":\"message\",\"data\":\"{\\\"from\\\":\\\"alice\\\",\\\"message\\\":\\\"hi\\\"}\"}";
    let p2 = "{\"messageType\":\"message\",\"data\":\"{\\\"from\\\":\\\"bob\\\",\\\"message\\\":\\\"yo\\\"}\"}";
    assert_eq!(chat.handle_payload(p1), DispatchResult::MessageAppended);
    assert_eq!(chat.handle_payload(p2), DispatchResult::MessageAppended);
    assert_eq!(chat.messages.len(), 2);
    assert_eq!(chat.messages[0].from, "alice");
    assert_eq!(chat.messages[0].message, "hi");
    assert_eq!(chat.messages[1].from, "bob");
    assert_eq!(chat.messages[1].message, "yo");
}

#[test]
fn message_from_sender_not_in_roster_is_kept() {
    let mut chat = Chat::new();
    chat.handle_payload("{\"messageType\":\"users\",\"dataArray\":[\"alice\"]}");
    let p = "{\"messageType\":\"message\",\"data\":\"{\\\"from\\\":\\\"ghost\\\",\\\"message\\\":\\\"boo\\\"}\"}";
    assert_eq!(chat.handle_payload(p), DispatchResult::MessageAppended);
    assert_eq!(chat.messages[0].from, "ghost");
}

#[test]
fn gif_body_is_preserved_unmodified() {
    let mut chat = Chat::new();
    let p = "{\"messageType\":\"message\",\"data\":\"{\\\"from\\\":\\\"a\\\",\\\"message\\\":\\\"https://x.test/cat.gif\\\"}\"}";
    chat.handle_payload(p);
    assert_eq!(chat.messages[0].message, "https://x.test/cat.gif");
}

#[test]
fn unrecognized_kind_leaves_state_unchanged() {
    let mut chat = Chat::new();
    chat.handle_payload("{\"messageType\":\"users\",\"dataArray\":[\"alice\"]}");
    let r = chat.handle_payload("{\"messageType\":\"presence\",\"data\":\"x\"}");
    assert_eq!(r, DispatchResult::Ignored);
    assert!(!r.needs_redraw());
    assert_eq!(chat.users.len(), 1);
    assert_eq!(chat.messages.len(), 0);
}

#[test]
fn malformed_payload_leaves_state_unchanged() {
    let mut chat = Chat::new();
    chat.handle_payload("{\"messageType\":\"users\",\"dataArray\":[\"alice\"]}");
    let r = chat.handle_payload("][ not an envelope");
    assert_eq!(r, DispatchResult::MalformedEnvelope);
    assert!(!r.needs_redraw());
    assert_eq!(chat.users.len(), 1);
    assert_eq!(chat.messages.len(), 0);
}

#[test]
fn malformed_nested_payload_is_dropped() {
    let mut chat = Chat::new();
    let r = chat.handle_payload("{\"messageType\":\"message\",\"data\":\"not nested\"}");
    assert_eq!(r, DispatchResult::MalformedMessagePayload);
    assert_eq!(chat.messages.len(), 0);
    let r2 = chat.handle_payload("{\"messageType\":\"message\"}");
    assert_eq!(r2, DispatchResult::MalformedMessagePayload);
    assert_eq!(chat.messages.len(), 0);
}

#[test]
fn inbound_register_echo_is_a_no_op() {
    let mut chat = Chat::new();
    let r = chat.handle_payload("{\"messageType\":\"register\",\"data\":\"alice\"}");
    assert_eq!(r, DispatchResult::Ignored);
    assert_eq!(chat.users.len(), 0);
    assert_eq!(chat.messages.len(), 0);
}

#[test]
fn create_returns_empty_store_and_registration() {
    let (chat, payload) = Chat::create("alice");
    assert_eq!(chat.users.len(), 0);
    assert_eq!(chat.messages.len(), 0);
    assert_eq!(payload, "{\"messageType\":\"register\",\"data\":\"alice\"}");
}

#[test]
fn update_routes_inbound_and_submission() {
    let mut chat = Chat::new();
    let (redraw, outbound) = chat.update(Msg::HandleMsg(
        "{\"messageType\":\"users\",\"dataArray\":[\"alice\"]}".to_string(),
    ));
    assert!(redraw);
    assert_eq!(outbound, None);
    assert_eq!(chat.users.len(), 1);

    let (redraw2, outbound2) = chat.update(Msg::SubmitMessage("hello".to_string()));
    assert!(!redraw2);
    assert_eq!(
        outbound2,
        Some("{\"messageType\":\"message\",\"data\":\"hello\"}".to_string())
    );
    assert_eq!(chat.users.len(), 1);
    assert_eq!(chat.messages.len(), 0);
}

#[test]
fn submitted_message_appears_only_after_server_echo() {
    let mut chat = Chat::new();
    let (_, outbound) = chat.update(Msg::SubmitMessage("hi".to_string()));
    assert!(outbound.is_some());
    assert_eq!(chat.messages.len(), 0);
    let echo = "{\"messageType\":\"message\",\"data\":\"{\\\"from\\\":\\\"me\\\",\\\"message\\\":\\\"hi\\\"}\"}";
    chat.handle_payload(echo);
    assert_eq!(chat.messages.len(), 1);
    assert_eq!(chat.messages[0].message, "hi");
}

#[test]
fn avatar_url_is_deterministic_and_stable() {
    let a = avatar_url("alice");
    let b = avatar_url("alice");
    assert_eq!(a, b);
    assert_eq!(a, format!("{}alice.svg", AVATAR_PREFIX));
}

#[test]
fn avatar_url_percent_encodes_reserved_and_non_ascii() {
    assert_eq!(avatar_url("a b/c"), format!("{}a%20b%2Fc.svg", AVATAR_PREFIX));
    assert_eq!(avatar_url("n\u{e9}e"), format!("{}n%C3%A9e.svg", AVATAR_PREFIX));
    assert_eq!(avatar_url("A-z_0.9~"), format!("{}A-z_0.9~.svg", AVATAR_PREFIX));
}

#[test]
fn find_profile_returns_first_match() {
    let mut chat = Chat::new();
    chat.handle_payload("{\"messageType\":\"users\",\"dataArray\":[\"a\",\"dup\",\"dup\"]}");
    assert_eq!(chat.find_profile("dup"), Some(1));
    assert_eq!(chat.find_profile("a"), Some(0));
    assert_eq!(chat.find_profile("ghost"), None);
}

#[test]
fn gif_bodies_are_recognized() {
    assert!(is_gif_body("https://x.test/cat.gif"));
    assert!(is_gif_body(".gif"));
    assert!(!is_gif_body("gif"));
    assert!(!is_gif_body("cat.gif "));
    assert!(!is_gif_body("plain text"));
}
