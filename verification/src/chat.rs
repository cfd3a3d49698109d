use vstd::prelude::*;

use crate::rooms::{admits, after_join, after_leave, lemma_join_then_leave_restores, ChatRooms};

verus! {

/// What a client sends to enter the chat: the name it goes by and the room
/// it wants.
#[derive(Debug, Clone)]
pub struct ConnectRequest {
    pub username: String,
    pub channel: String,
}

/// How a chat session begins after the first text message of a client.
#[derive(Debug)]
pub enum SessionStart {
    /// The message was not a connect request; the notice is sent back and the
    /// session cannot go on.
    Malformed { notice: String },
    /// The name is taken in the room (or empty); the notice is sent back and
    /// the session ends.
    Refused { notice: String },
    /// The client is in the room; the announcement goes to everyone in it.
    Admitted { channel: String, username: String, announcement: String },
}

/// Sent back when the first text message is not a connect request.
pub open spec fn connect_failure_text() -> Seq<char> {
    "Failed to connect to room!"@
}

/// Sent back when the name cannot be had in the room.
pub open spec fn name_taken_text() -> Seq<char> {
    "Username already taken."@
}

/// Announced when `username` enters a room.
pub open spec fn joined_text(username: Seq<char>) -> Seq<char> {
    username + " joined the chat!"@
}

/// What everyone in the room sees when `username` writes `text`.
pub open spec fn chat_line_text(username: Seq<char>, text: Seq<char>) -> Seq<char> {
    username + ": "@ + text
}

/// Announced when `username` leaves a room.
pub open spec fn left_text(username: Seq<char>) -> Seq<char> {
    username + " left the chat!"@
}

/// The notice for a first message that is not a connect request.
pub fn connect_failure_notice() -> (notice: String)
    ensures
        notice@ == connect_failure_text(),
{
    String::from_str("Failed to connect to room!")
}

/// The notice for a name that cannot be had.
pub fn name_taken_notice() -> (notice: String)
    ensures
        notice@ == name_taken_text(),
{
    String::from_str("Username already taken.")
}

/// The announcement that `username` entered the room.
pub fn joined_announcement(username: &str) -> (text: String)
    ensures
        text@ == joined_text(username@),
{
    let mut text = String::from_str(username);
    text.append(" joined the chat!");
    text
}

/// The line the room sees when `username` writes `message`.
pub fn chat_line(username: &str, message: &str) -> (text: String)
    ensures
        text@ == chat_line_text(username@, message@),
{
    let mut text = String::from_str(username);
    text.append(": ");
    text.append(message);
    text
}

/// The announcement that `username` left the room.
pub fn left_announcement(username: &str) -> (text: String)
    ensures
        text@ == left_text(username@),
{
    let mut text = String::from_str(username);
    text.append(" left the chat!");
    text
}

/// Decides how a session begins from the first text message of a client,
/// `request` being the connect request read from it, if it was one. A connect
/// request always adds the name to the room (opening it if need be); the
/// client is admitted where the name was free and is not empty.
pub fn start_session(rooms: &mut ChatRooms, request: Option<ConnectRequest>) -> (start: SessionStart)
    requires
        old(rooms).wf(),
    ensures
        final(rooms).wf(),
        match request {
            None => {
                &&& final(rooms)@ == old(rooms)@
                &&& start matches SessionStart::Malformed { notice } && notice@ == connect_failure_text()
            },
            Some(req) => {
                &&& final(rooms)@ == after_join(old(rooms)@, req.channel@, req.username@)
                &&& match start {
                    SessionStart::Admitted { channel, username, announcement } => {
                        &&& admits(old(rooms)@, req.channel@, req.username@)
                        &&& channel@ == req.channel@
                        &&& username@ == req.username@
                        &&& announcement@ == joined_text(req.username@)
                    },
                    SessionStart::Refused { notice } => {
                        &&& !admits(old(rooms)@, req.channel@, req.username@)
                        &&& notice@ == name_taken_text()
                    },
                    SessionStart::Malformed { .. } => false,
                }
            },
        },
{
    match request {
        None => SessionStart::Malformed { notice: connect_failure_notice() },
        Some(req) => {
            let channel = req.channel.clone();
            let username = req.username.clone();
            if rooms.join(req.channel, req.username) {
                let announcement = joined_announcement(username.as_str());
                SessionStart::Admitted { channel, username, announcement }
            } else {
                SessionStart::Refused { notice: name_taken_notice() }
            }
        },
    }
}

/// Ends the session of `username` in `channel`, which must be open: the name
/// leaves the room, which is closed if nobody is left. Gives the announcement
/// for the room and whether the room was closed.
pub fn end_session(rooms: &mut ChatRooms, channel: &String, username: &String) -> (ended: (String, bool))
    requires
        old(rooms).wf(),
        old(rooms)@.dom().contains(channel@),
    ensures
        final(rooms).wf(),
        final(rooms)@ == after_leave(old(rooms)@, channel@, username@),
        ended.0@ == left_text(username@),
        ended.1 == !final(rooms)@.dom().contains(channel@),
{
    let announcement = left_announcement(username.as_str());
    let closed = rooms.leave(channel, username);
    (announcement, closed)
}

/// A client that was admitted and then ends its session leaves the rooms as
/// they were before it came.
pub proof fn lemma_session_leaves_no_trace(rooms: ChatRooms, request: ConnectRequest)
    requires
        rooms.wf(),
        admits(rooms@, request.channel@, request.username@),
    ensures
        after_leave(
            after_join(rooms@, request.channel@, request.username@),
            request.channel@,
            request.username@,
        ) == rooms@,
{
    lemma_join_then_leave_restores(rooms, request.channel@, request.username@);
}

/// The fixed list of rooms the rooms endpoint of the API answers with.
pub fn get_rooms() -> (rooms: Vec<String>)
    ensures
        rooms@.len() == 3,
        rooms@[0]@ == "1"@,
        rooms@[1]@ == "2"@,
        rooms@[2]@ == "3"@,
{
    let mut rooms: Vec<String> = Vec::new();
    rooms.push(String::from_str("1"));
    rooms.push(String::from_str("2"));
    rooms.push(String::from_str("3"));
    rooms
}

/// One event on a client's web socket, as the session sees it.
#[derive(Debug, Clone)]
pub enum Frame {
    /// A text message.
    Text(String),
    /// Any other message: binary data, a ping, a pong or a close frame.
    Other,
    /// The socket gave no more messages, or failed.
    End,
}

/// What to do with a frame before the client has asked to join a room.
#[derive(Debug)]
pub enum JoinStep {
    /// Wait for the next frame.
    Wait,
    /// Read this text as the connect request; it decides how the session
    /// begins.
    Request(String),
    /// Stop waiting: no request will come.
    GiveUp,
}

/// What to do with a frame once the client is in a room.
#[derive(Debug)]
pub enum ChatStep {
    /// Send this line to everyone in the room.
    Send(String),
    /// The client is gone: end the session.
    Stop,
}

/// Before joining: a text message is the connect request, any other message
/// is passed over, and the end of the socket ends the wait.
pub fn before_join(frame: Frame) -> (step: JoinStep)
    ensures
        match frame {
            Frame::Text(text) => step matches JoinStep::Request(t) && t@ == text@,
            Frame::Other => step is Wait,
            Frame::End => step is GiveUp,
        },
{
    match frame {
        Frame::Text(text) => JoinStep::Request(text),
        Frame::Other => JoinStep::Wait,
        Frame::End => JoinStep::GiveUp,
    }
}

/// While chatting: each text message of `username` goes to the room as a
/// chat line; the first message that is not text, or the end of the socket,
/// ends the session.
pub fn while_chatting(username: &str, frame: Frame) -> (step: ChatStep)
    ensures
        match frame {
            Frame::Text(text) => step matches ChatStep::Send(line) && line@ == chat_line_text(username@, text@),
            _ => step is Stop,
        },
{
    match frame {
        Frame::Text(text) => ChatStep::Send(chat_line(username, text.as_str())),
        _ => ChatStep::Stop,
    }
}

/// The announcements and chat lines begin with the name of the user they
/// are about, and a chat line ends with the message as written.
pub proof fn lemma_lines_name_their_user(username: Seq<char>, message: Seq<char>)
    ensures
        joined_text(username).subrange(0, username.len() as int) == username,
        left_text(username).subrange(0, username.len() as int) == username,
        chat_line_text(username, message).subrange(0, username.len() as int) == username,
        chat_line_text(username, message).len() == username.len() + 2 + message.len(),
        chat_line_text(username, message).subrange(
            (username.len() + 2) as int,
            (username.len() + 2 + message.len()) as int,
        ) == message,
{
    reveal_strlit(": ");
    assert(joined_text(username).subrange(0, username.len() as int) =~= username);
    assert(left_text(username).subrange(0, username.len() as int) =~= username);
    assert(chat_line_text(username, message).subrange(0, username.len() as int) =~= username);
    assert(chat_line_text(username, message).subrange(
        (username.len() + 2) as int,
        (username.len() + 2 + message.len()) as int,
    ) =~= message);
}

} // verus!
