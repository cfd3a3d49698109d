use vstd::prelude::*;

use crate::model::NoteView;
use crate::note_schema::{changed, stored_with, ChangesView, UpdateView};
use crate::text::{contains, contains_text, format_uuid, uuid_text};

verus! {

/// The HTTP status of a plain success.
pub const STATUS_OK: u16 = 200;

/// The HTTP status of a created note.
pub const STATUS_CREATED: u16 = 201;

/// The HTTP status of a note that is not there.
pub const STATUS_NOT_FOUND: u16 = 404;

/// The HTTP status of a note whose title is taken.
pub const STATUS_CONFLICT: u16 = 409;

/// The HTTP status of a failure of the database.
pub const STATUS_INTERNAL_SERVER_ERROR: u16 = 500;

/// A failure of the database, as the text it displays and the text of its
/// debug form.
#[derive(Debug, Clone)]
pub struct DbError {
    pub text: String,
    pub debug: String,
}

/// An error answer: its HTTP status, the message it carries, and the key the
/// message stands under in the JSON body.
#[derive(Debug, Clone)]
pub struct ErrorReply {
    pub status: u16,
    pub message: String,
    pub key: String,
}

/// The key of the message in the error bodies.
pub open spec fn message_key_text() -> Seq<char> {
    "message"@
}

/// The key of the message in the error bodies of the change endpoint, which
/// spells it with three s.
pub open spec fn update_message_key_text() -> Seq<char> {
    "messsage"@
}

fn message_key() -> (key: String)
    ensures
        key@ == message_key_text(),
{
    String::from_str("message")
}

fn update_message_key() -> (key: String)
    ensures
        key@ == update_message_key_text(),
{
    String::from_str("messsage")
}

/// The message of a failure to list the notes.
pub open spec fn list_failure_text() -> Seq<char> {
    "Something bad happened while fetching all note items"@
}

/// What the database says when a unique key is taken.
pub open spec fn duplicate_key_text() -> Seq<char> {
    "duplicate key value violates unique constraint"@
}

/// The message of a note whose title is taken.
pub open spec fn title_taken_text() -> Seq<char> {
    "Note with that title already exists"@
}

/// The message of a note that is not there.
pub open spec fn not_found_text(id: u128) -> Seq<char> {
    "Note with ID: "@ + uuid_text(id) + " not found"@
}

fn not_found_message(id: u128) -> (message: String)
    ensures
        message@ == not_found_text(id),
{
    let mut message = String::from_str("Note with ID: ");
    let id_text = format_uuid(id);
    message.append(id_text.as_str());
    message.append(" not found");
    message
}

/// The answer that the note with `id` is not there, as the endpoints that
/// read and delete one note give it.
pub fn note_not_found(id: u128) -> (reply: ErrorReply)
    ensures
        reply.status == STATUS_NOT_FOUND,
        reply.message@ == not_found_text(id),
        reply.key@ == message_key_text(),
{
    ErrorReply { status: STATUS_NOT_FOUND, message: not_found_message(id), key: message_key() }
}

/// The answer that the note with `id`, which a change was asked for, is not
/// there.
pub fn update_target_missing(id: u128) -> (reply: ErrorReply)
    ensures
        reply.status == STATUS_NOT_FOUND,
        reply.message@ == not_found_text(id),
        reply.key@ == update_message_key_text(),
{
    ErrorReply { status: STATUS_NOT_FOUND, message: not_found_message(id), key: update_message_key() }
}

/// The answer to a request for the list of notes, from what the database
/// gave back.
pub fn list_notes_reply<T>(fetched: Result<T, DbError>) -> (reply: Result<(u16, T), ErrorReply>)
    ensures
        match fetched {
            Ok(notes) => reply == Ok::<(u16, T), ErrorReply>((STATUS_OK, notes)),
            Err(_) => reply matches Err(e) && e.status == STATUS_INTERNAL_SERVER_ERROR
                && e.message@ == list_failure_text() && e.key@ == message_key_text(),
        },
{
    match fetched {
        Ok(notes) => Ok((STATUS_OK, notes)),
        Err(_) => Err(
            ErrorReply {
                status: STATUS_INTERNAL_SERVER_ERROR,
                message: String::from_str("Something bad happened while fetching all note items"),
                key: message_key(),
            },
        ),
    }
}

/// The answer to a request to create a note, from what the database gave
/// back: a failure that names a taken unique key is a conflict, any other is
/// reported with its debug form.
pub fn create_note_reply<T>(inserted: Result<T, DbError>) -> (reply: Result<(u16, T), ErrorReply>)
    ensures
        match inserted {
            Ok(note) => reply == Ok::<(u16, T), ErrorReply>((STATUS_CREATED, note)),
            Err(err) => reply matches Err(e) && e.key@ == message_key_text() && if contains_text(err.text@, duplicate_key_text()) {
                e.status == STATUS_CONFLICT && e.message@ == title_taken_text()
            } else {
                e.status == STATUS_INTERNAL_SERVER_ERROR && e.message@ == err.debug@
            },
        },
{
    match inserted {
        Ok(note) => Ok((STATUS_CREATED, note)),
        Err(err) => {
            if contains(err.text.as_str(), "duplicate key value violates unique constraint") {
                Err(
                    ErrorReply {
                        status: STATUS_CONFLICT,
                        message: String::from_str("Note with that title already exists"),
                        key: message_key(),
                    },
                )
            } else {
                Err(
                    ErrorReply {
                        status: STATUS_INTERNAL_SERVER_ERROR,
                        message: err.debug,
                        key: message_key(),
                    },
                )
            }
        },
    }
}

/// The answer to a request for the note with `id`, from what the database
/// gave back: any failure means the note is not there.
pub fn get_note_reply<T>(fetched: Result<T, DbError>, id: u128) -> (reply: Result<(u16, T), ErrorReply>)
    ensures
        match fetched {
            Ok(note) => reply == Ok::<(u16, T), ErrorReply>((STATUS_OK, note)),
            Err(_) => reply matches Err(e) && e.status == STATUS_NOT_FOUND
                && e.message@ == not_found_text(id) && e.key@ == message_key_text(),
        },
{
    match fetched {
        Ok(note) => Ok((STATUS_OK, note)),
        Err(_) => Err(note_not_found(id)),
    }
}

/// The answer to a request to change a note, from what the database gave
/// back when the changes were stored.
pub fn update_note_reply<T>(stored: Result<T, DbError>) -> (reply: Result<(u16, T), ErrorReply>)
    ensures
        match stored {
            Ok(note) => reply == Ok::<(u16, T), ErrorReply>((STATUS_OK, note)),
            Err(err) => reply matches Err(e) && e.status == STATUS_INTERNAL_SERVER_ERROR
                && e.message@ == err.debug@ && e.key@ == update_message_key_text(),
        },
{
    match stored {
        Ok(note) => Ok((STATUS_OK, note)),
        Err(err) => Err(
            ErrorReply {
                status: STATUS_INTERNAL_SERVER_ERROR,
                message: err.debug,
                key: update_message_key(),
            },
        ),
    }
}

/// The status of the answer to a deletion that touched `rows_affected` rows.
pub open spec fn delete_status(rows_affected: int) -> u16 {
    if rows_affected == 0 {
        STATUS_NOT_FOUND
    } else {
        STATUS_OK
    }
}

/// The answer to a request to delete the note with `id`, from the number of
/// rows the deletion touched: none means the note was not there.
pub fn delete_note_reply(rows_affected: u64, id: u128) -> (reply: Result<u16, ErrorReply>)
    ensures
        match reply {
            Ok(status) => status == delete_status(rows_affected as int),
            Err(e) => e.status == delete_status(rows_affected as int),
        },
        rows_affected == 0 ==> (reply matches Err(e) && e.status == STATUS_NOT_FOUND
            && e.message@ == not_found_text(id) && e.key@ == message_key_text()),
        rows_affected != 0 ==> reply == Ok::<u16, ErrorReply>(STATUS_OK),
{
    if rows_affected == 0 {
        Err(note_not_found(id))
    } else {
        Ok(STATUS_OK)
    }
}

/// How many rows `DELETE FROM notes WHERE id = $1` touches in the table
/// `table`, where the notes are keyed by id.
pub open spec fn deleted_rows(table: Map<u128, NoteView>, id: u128) -> int {
    if table.dom().contains(id) {
        1
    } else {
        0
    }
}

/// The table after `DELETE FROM notes WHERE id = $1`.
pub open spec fn after_delete(table: Map<u128, NoteView>, id: u128) -> Map<u128, NoteView> {
    table.remove(id)
}

/// The table after the row of `id` is stored with `values` at time `at`, as
/// `UPDATE notes SET ... WHERE id = $6` does.
pub open spec fn after_update(
    table: Map<u128, NoteView>,
    id: u128,
    values: ChangesView,
    at: i64,
) -> Map<u128, NoteView> {
    if table.dom().contains(id) {
        table.insert(id, stored_with(table[id], values, at))
    } else {
        table
    }
}

/// Deleting a note twice: the second deletion touches no row, is answered
/// as not found, and leaves the table as the first left it.
pub proof fn lemma_second_delete_not_found(table: Map<u128, NoteView>, id: u128)
    ensures
        deleted_rows(after_delete(table, id), id) == 0,
        delete_status(deleted_rows(after_delete(table, id), id)) == STATUS_NOT_FOUND,
        after_delete(after_delete(table, id), id) == after_delete(table, id),
{
    assert(after_delete(after_delete(table, id), id) =~= after_delete(table, id));
}

/// Making the same change to a note twice, each time from the row as stored:
/// the second change stores the same values as the first, and only the time
/// of the last change differs; no other row is touched.
pub proof fn lemma_repeated_update_stores_same_note(
    table: Map<u128, NoteView>,
    id: u128,
    update: UpdateView,
    first_at: i64,
    second_at: i64,
)
    requires
        table.dom().contains(id),
        table[id].category is Some,
        table[id].published is Some,
    ensures
        ({
            let first = after_update(table, id, changed(update, table[id]), first_at);
            let second = after_update(first, id, changed(update, first[id]), second_at);
            &&& second.dom() == first.dom()
            &&& forall|k: u128| k != id && first.dom().contains(k) ==> second[k] == first[k]
            &&& second[id].id == first[id].id
            &&& second[id].title == first[id].title
            &&& second[id].content == first[id].content
            &&& second[id].category == first[id].category
            &&& second[id].published == first[id].published
            &&& second[id].created_at == first[id].created_at
            &&& second[id].updated_at == Some(second_at)
        }),
{
    let first = after_update(table, id, changed(update, table[id]), first_at);
    let second = after_update(first, id, changed(update, first[id]), second_at);
    assert(second.dom() =~= first.dom());
}

/// A deletion removes the note with that id and keeps every other note.
pub proof fn lemma_delete_removes_only_that_note(table: Map<u128, NoteView>, id: u128)
    ensures
        !after_delete(table, id).dom().contains(id),
        forall|k: u128| k != id ==> (#[trigger] after_delete(table, id).dom().contains(k)
            <==> table.dom().contains(k)),
        forall|k: u128| k != id && table.dom().contains(k) ==> #[trigger] after_delete(table, id)[k] == table[k],
        deleted_rows(table, id) == 1 <==> table.dom().contains(id),
        deleted_rows(table, id) == 0 <==> !table.dom().contains(id),
{
}

} // verus!
