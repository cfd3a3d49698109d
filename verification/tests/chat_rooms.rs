use chat_notes::chat::{
    before_join, chat_line, connect_failure_notice, end_session, get_rooms, joined_announcement,
    left_announcement, name_taken_notice, start_session, while_chatting, ChatStep, ConnectRequest,
    Frame, JoinStep, SessionStart,
};
use chat_notes::logger::log_filter;
use chat_notes::rooms::ChatRooms;

fn request(user: &str, channel: &str) -> Option<ConnectRequest> {
    Some(ConnectRequest { username: String::from(user), channel: String::from(channel) })
}

fn sorted_names(rooms: &ChatRooms) -> Vec<String> {
    let mut names = rooms.room_names();
    names.sort();
    names
}

#[test]
fn messages_have_their_fixed_shape() {
    assert_eq!(connect_failure_notice(), "Failed to connect to room!");
    assert_eq!(name_taken_notice(), "Username already taken.");
    assert_eq!(joined_announcement("ann"), "ann joined the chat!");
    assert_eq!(chat_line("ann", "hello"), "ann: hello");
    assert_eq!(left_announcement("ann"), "ann left the chat!");
}

#[test]
fn fixed_room_list() {
    assert_eq!(get_rooms(), vec!["1", "2", "3"]);
}

#[test]
fn first_join_opens_the_room() {
    let mut rooms = ChatRooms::new();
    assert!(rooms.room_names().is_empty());
    assert!(rooms.join(String::from("lobby"), String::from("ann")));
    assert_eq!(rooms.room_names(), vec!["lobby"]);
}

#[test]
fn taken_name_is_refused_and_changes_nothing() {
    let mut rooms = ChatRooms::new();
    assert!(rooms.join(String::from("lobby"), String::from("ann")));
    assert!(!rooms.join(String::from("lobby"), String::from("ann")));
    assert_eq!(rooms.room_names(), vec!["lobby"]);
    // the only member leaves: the room closes, so the name was not added twice
    assert!(rooms.leave(&String::from("lobby"), &String::from("ann")));
    assert!(rooms.room_names().is_empty());
}

#[test]
fn same_name_in_other_room_is_fine() {
    let mut rooms = ChatRooms::new();
    assert!(rooms.join(String::from("lobby"), String::from("ann")));
    assert!(rooms.join(String::from("garden"), String::from("ann")));
    assert_eq!(sorted_names(&rooms), vec!["garden", "lobby"]);
}

#[test]
fn empty_name_is_refused_but_kept() {
    let mut rooms = ChatRooms::new();
    assert!(!rooms.join(String::from("lobby"), String::new()));
    assert_eq!(rooms.room_names(), vec!["lobby"]);
    assert!(rooms.join(String::from("lobby"), String::from("bob")));
    assert!(!rooms.leave(&String::from("lobby"), &String::from("bob")));
    assert_eq!(rooms.room_names(), vec!["lobby"]);
}

#[test]
fn room_closes_only_when_the_last_member_leaves() {
    let mut rooms = ChatRooms::new();
    assert!(rooms.join(String::from("lobby"), String::from("ann")));
    assert!(rooms.join(String::from("lobby"), String::from("bob")));
    assert!(!rooms.leave(&String::from("lobby"), &String::from("ann")));
    assert_eq!(rooms.room_names(), vec!["lobby"]);
    assert!(rooms.leave(&String::from("lobby"), &String::from("bob")));
    assert!(rooms.room_names().is_empty());
}

#[test]
fn leaving_under_an_unknown_name_changes_nothing() {
    let mut rooms = ChatRooms::new();
    assert!(rooms.join(String::from("lobby"), String::from("ann")));
    assert!(!rooms.leave(&String::from("lobby"), &String::from("zed")));
    assert_eq!(rooms.room_names(), vec!["lobby"]);
}

#[test]
fn join_then_leave_restores_the_rooms() {
    let mut rooms = ChatRooms::new();
    assert!(rooms.join(String::from("lobby"), String::from("ann")));
    let before = sorted_names(&rooms);
    assert!(rooms.join(String::from("garden"), String::from("cy")));
    assert!(rooms.leave(&String::from("garden"), &String::from("cy")));
    assert_eq!(sorted_names(&rooms), before);
}

#[test]
fn session_of_malformed_request() {
    let mut rooms = ChatRooms::new();
    match start_session(&mut rooms, None) {
        SessionStart::Malformed { notice } => assert_eq!(notice, "Failed to connect to room!"),
        other => panic!("unexpected {:?}", other),
    }
    assert!(rooms.room_names().is_empty());
}

#[test]
fn session_admitted_then_refused_then_ended() {
    let mut rooms = ChatRooms::new();
    match start_session(&mut rooms, request("ann", "lobby")) {
        SessionStart::Admitted { channel, username, announcement } => {
            assert_eq!(channel, "lobby");
            assert_eq!(username, "ann");
            assert_eq!(announcement, "ann joined the chat!");
        }
        other => panic!("unexpected {:?}", other),
    }
    match start_session(&mut rooms, request("ann", "lobby")) {
        SessionStart::Refused { notice } => assert_eq!(notice, "Username already taken."),
        other => panic!("unexpected {:?}", other),
    }
    let (announcement, closed) =
        end_session(&mut rooms, &String::from("lobby"), &String::from("ann"));
    assert_eq!(announcement, "ann left the chat!");
    assert!(closed);
    assert!(rooms.room_names().is_empty());
}

#[test]
fn joining_and_leaving_one_room_leaves_the_others() {
    let mut rooms = ChatRooms::new();
    assert!(rooms.join(String::from("lobby"), String::from("ann")));
    assert!(rooms.join(String::from("garden"), String::from("bob")));
    assert!(rooms.leave(&String::from("garden"), &String::from("bob")));
    assert_eq!(rooms.room_names(), vec!["lobby"]);
    // ann is still a member of the lobby: her name is still taken there
    assert!(!rooms.join(String::from("lobby"), String::from("ann")));
}

#[test]
fn before_joining_only_text_counts() {
    assert!(matches!(before_join(Frame::Other), JoinStep::Wait));
    assert!(matches!(before_join(Frame::End), JoinStep::GiveUp));
    match before_join(Frame::Text(String::from("{}"))) {
        JoinStep::Request(text) => assert_eq!(text, "{}"),
        other => panic!("unexpected {:?}", other),
    }
}

#[test]
fn chatting_stops_at_first_non_text() {
    match while_chatting("ann", Frame::Text(String::from("hi"))) {
        ChatStep::Send(line) => assert_eq!(line, "ann: hi"),
        other => panic!("unexpected {:?}", other),
    }
    assert!(matches!(while_chatting("ann", Frame::Other), ChatStep::Stop));
    assert!(matches!(while_chatting("ann", Frame::End), ChatStep::Stop));
}

#[test]
fn log_filter_names_the_service_and_tower_http() {
    assert_eq!(log_filter("chat_notes"), "chat_notes=INFO,tower_http=INFO");
}
