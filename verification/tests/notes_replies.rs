use chat_notes::model::NoteModel;
use chat_notes::note_schema::UpdateNoteSchema;
use chat_notes::notes::{
    create_note_reply, delete_note_reply, get_note_reply, list_notes_reply, note_not_found,
    update_note_reply, update_target_missing, DbError,
};

const ID: u128 = 0x936da01f9abd4d9d80c702af85c822a8;

fn db_error(text: &str) -> DbError {
    DbError { text: String::from(text), debug: format!("Database({:?})", text) }
}

fn note() -> NoteModel {
    NoteModel {
        id: ID,
        title: String::from("old title"),
        content: String::from("old content"),
        category: Some(String::from("old category")),
        published: Some(false),
        created_at: Some(1_700_000_000_000_000),
        updated_at: None,
    }
}

#[test]
fn not_found_message_names_the_uuid() {
    let reply = note_not_found(ID);
    assert_eq!(reply.status, 404);
    assert_eq!(reply.message, "Note with ID: 936da01f-9abd-4d9d-80c7-02af85c822a8 not found");
    assert_eq!(reply.key, "message");
}

#[test]
fn missing_note_of_a_change_uses_the_misspelled_key() {
    let reply = update_target_missing(ID);
    assert_eq!(reply.status, 404);
    assert_eq!(reply.message, "Note with ID: 936da01f-9abd-4d9d-80c7-02af85c822a8 not found");
    assert_eq!(reply.key, "messsage");
}

#[test]
fn not_found_message_for_small_ids_pads_with_zeros() {
    let reply = note_not_found(1);
    assert_eq!(reply.message, "Note with ID: 00000000-0000-0000-0000-000000000001 not found");
}

#[test]
fn listing_success_and_failure() {
    let ok = list_notes_reply::<Vec<u32>>(Ok(vec![1, 2]));
    assert_eq!(ok.unwrap(), (200, vec![1, 2]));
    let err = list_notes_reply::<Vec<u32>>(Err(db_error("timeout"))).unwrap_err();
    assert_eq!(err.status, 500);
    assert_eq!(err.message, "Something bad happened while fetching all note items");
}

#[test]
fn create_success_is_created() {
    assert_eq!(create_note_reply::<u8>(Ok(5)).unwrap(), (201, 5));
}

#[test]
fn create_with_taken_title_is_conflict() {
    let err = create_note_reply::<u8>(Err(db_error(
        "error returned from database: duplicate key value violates unique constraint \"notes_title_key\"",
    )))
    .unwrap_err();
    assert_eq!(err.status, 409);
    assert_eq!(err.message, "Note with that title already exists");
    assert_eq!(err.key, "message");
}

#[test]
fn create_with_other_failure_reports_debug_form() {
    let e = db_error("error returned from database: relation \"notes\" does not exist");
    let debug = e.debug.clone();
    let err = create_note_reply::<u8>(Err(e)).unwrap_err();
    assert_eq!(err.status, 500);
    assert_eq!(err.message, debug);
}

#[test]
fn create_failure_with_partial_marker_is_not_conflict() {
    let err = create_note_reply::<u8>(Err(db_error("duplicate key value violates unique"))).unwrap_err();
    assert_eq!(err.status, 500);
}

#[test]
fn get_failure_is_not_found() {
    assert_eq!(get_note_reply::<u8>(Ok(1), ID).unwrap(), (200, 1));
    let err = get_note_reply::<u8>(Err(db_error("no rows returned")), ID).unwrap_err();
    assert_eq!(err.status, 404);
    assert_eq!(err.message, "Note with ID: 936da01f-9abd-4d9d-80c7-02af85c822a8 not found");
}

#[test]
fn update_reply_reports_debug_form() {
    assert_eq!(update_note_reply::<u8>(Ok(3)).unwrap(), (200, 3));
    let e = db_error("connection closed");
    let debug = e.debug.clone();
    let err = update_note_reply::<u8>(Err(e)).unwrap_err();
    assert_eq!(err.status, 500);
    assert_eq!(err.message, debug);
    assert_eq!(err.key, "messsage");
}

#[test]
fn delete_of_nothing_is_not_found() {
    let err = delete_note_reply(0, ID).unwrap_err();
    assert_eq!(err.status, 404);
    assert_eq!(err.message, "Note with ID: 936da01f-9abd-4d9d-80c7-02af85c822a8 not found");
    assert_eq!(delete_note_reply(1, ID).unwrap(), 200);
}

#[test]
fn update_with_some_fields_keeps_the_rest() {
    let update = UpdateNoteSchema {
        title: Some(String::from("new title")),
        content: None,
        category: None,
        published: Some(true),
    };
    let changes = update.changes_for(&note());
    assert_eq!(changes.title, "new title");
    assert_eq!(changes.content, "old content");
    assert_eq!(changes.category, "old category");
    assert!(changes.published);
}

#[test]
fn empty_update_keeps_the_note() {
    let update = UpdateNoteSchema { title: None, content: None, category: None, published: None };
    let changes = update.changes_for(&note());
    assert_eq!(changes.title, "old title");
    assert_eq!(changes.content, "old content");
    assert_eq!(changes.category, "old category");
    assert!(!changes.published);
}

#[test]
fn same_update_twice_gives_same_values() {
    let update = UpdateNoteSchema {
        title: None,
        content: Some(String::from("fresh")),
        category: Some(String::from("misc")),
        published: None,
    };
    let first = update.changes_for(&note());
    let mut stored = note();
    stored.title = first.title.clone();
    stored.content = first.content.clone();
    stored.category = Some(first.category.clone());
    stored.published = Some(first.published);
    stored.updated_at = Some(1_800_000_000_000_000);
    let second = update.changes_for(&stored);
    assert_eq!(second.title, first.title);
    assert_eq!(second.content, first.content);
    assert_eq!(second.category, first.category);
    assert_eq!(second.published, first.published);
}

#[test]
fn full_update_overrides_everything() {
    let update = UpdateNoteSchema {
        title: Some(String::from("a")),
        content: Some(String::from("b")),
        category: Some(String::from("c")),
        published: Some(true),
    };
    let changes = update.changes_for(&note());
    assert_eq!(
        (changes.title.as_str(), changes.content.as_str(), changes.category.as_str(), changes.published),
        ("a", "b", "c", true)
    );
}

#[test]
fn second_delete_of_a_note_is_not_found() {
    // the first deletion touched the row, the second finds none
    assert_eq!(delete_note_reply(1, ID).unwrap(), 200);
    let err = delete_note_reply(0, ID).unwrap_err();
    assert_eq!(err.status, 404);
    assert_eq!(err.key, "message");
}
