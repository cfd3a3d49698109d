use vstd::prelude::*;

use crate::model::{NoteModel, NoteView};

verus! {

/// Which page of the notes to list, and how many notes make a page. Pages
/// are counted from 1.
#[derive(Debug, Clone, Copy)]
pub struct Pagination {
    pub page: usize,
    pub limit: usize,
}

impl Default for Pagination {
    /// The first page, of ten notes.
    fn default() -> (pagination: Pagination)
        ensures
            pagination.page == 1,
            pagination.limit == 10,
    {
        Pagination { page: 1, limit: 10 }
    }
}

/// How many notes come before page `page` when a page holds `limit` notes.
pub open spec fn page_offset(page: int, limit: int) -> int {
    (page - 1) * limit
}

impl Pagination {
    /// The `LIMIT` and `OFFSET` of the query that lists this page, each cut
    /// down to 32 bits as Rust's `as i32` does. The page must be 1 or more,
    /// and the offset must fit in a `usize`.
    pub fn limit_and_offset(&self) -> (window: (i32, i32))
        requires
            self.page >= 1,
            page_offset(self.page as int, self.limit as int) <= usize::MAX,
        ensures
            window.0 == self.limit as i32,
            window.1 == page_offset(self.page as int, self.limit as int) as i32,
            window.1 == ((self.page - 1) * self.limit) as i32,
            self.page == 1 ==> window.1 == 0,
    {
        let offset = (self.page - 1) * self.limit;
        proof {
            if self.page == 1 {
                assert(offset == 0) by (nonlinear_arith)
                    requires
                        offset == (self.page - 1) * self.limit,
                        self.page == 1,
                ;
            }
            if offset == 0 {
                assert(offset as i32 == 0) by (bit_vector)
                    requires
                        offset == 0,
                ;
            }
        }
        (self.limit as i32, offset as i32)
    }
}

/// Page `page + 1` starts right where page `page` ends.
pub proof fn lemma_pages_are_adjacent(page: int, limit: int)
    ensures
        page_offset(page + 1, limit) == page_offset(page, limit) + limit,
{
    assert((page + 1 - 1) * limit == (page - 1) * limit + limit) by (nonlinear_arith);
}

/// With a page size that is not negative, an earlier page ends no later than
/// a later one starts: no note is listed on two pages.
pub proof fn lemma_pages_do_not_overlap(page: int, later: int, limit: int)
    requires
        page < later,
        limit >= 0,
    ensures
        page_offset(page, limit) + limit <= page_offset(later, limit),
{
    assert((page - 1) * limit + limit <= (later - 1) * limit) by (nonlinear_arith)
        requires
            page < later,
            limit >= 0,
    ;
}

/// The id in the path of a request about one note.
#[derive(Debug, Clone, Copy)]
pub struct ParamOptions {
    pub id: u128,
}

/// The body of a request to create a note.
#[derive(Debug, Clone)]
pub struct CreateNoteSchema {
    pub title: String,
    pub content: String,
    pub category: Option<String>,
    pub published: Option<bool>,
}

/// The values a new note is stored with.
#[derive(Debug, Clone)]
pub struct NoteInsert {
    pub title: String,
    pub content: String,
    pub category: String,
}

impl CreateNoteSchema {
    /// The values stored for the new note: its title and content, and its
    /// category, empty where none was given. Whether it is published is not
    /// stored.
    pub fn insert_values(&self) -> (values: NoteInsert)
        ensures
            values.title@ == self.title@,
            values.content@ == self.content@,
            values.category@ == match self.category {
                Some(c) => c@,
                None => Seq::<char>::empty(),
            },
    {
        let category = match &self.category {
            Some(c) => c.clone(),
            None => String::new(),
        };
        NoteInsert { title: self.title.clone(), content: self.content.clone(), category }
    }
}

/// The body of a request to change a note: each field given replaces the
/// note's own.
#[derive(Debug, Clone)]
pub struct UpdateNoteSchema {
    pub title: Option<String>,
    pub content: Option<String>,
    pub category: Option<String>,
    pub published: Option<bool>,
}

/// A change request, its texts taken as sequences of characters.
pub struct UpdateView {
    pub title: Option<Seq<char>>,
    pub content: Option<Seq<char>>,
    pub category: Option<Seq<char>>,
    pub published: Option<bool>,
}

impl View for UpdateNoteSchema {
    type V = UpdateView;

    open spec fn view(&self) -> UpdateView {
        UpdateView {
            title: self.title.deep_view(),
            content: self.content.deep_view(),
            category: self.category.deep_view(),
            published: self.published,
        }
    }
}

/// The values a note is stored with after a change.
#[derive(Debug, Clone)]
pub struct NoteChanges {
    pub title: String,
    pub content: String,
    pub category: String,
    pub published: bool,
}

/// Changed values, their texts taken as sequences of characters.
pub struct ChangesView {
    pub title: Seq<char>,
    pub content: Seq<char>,
    pub category: Seq<char>,
    pub published: bool,
}

impl View for NoteChanges {
    type V = ChangesView;

    open spec fn view(&self) -> ChangesView {
        ChangesView {
            title: self.title@,
            content: self.content@,
            category: self.category@,
            published: self.published,
        }
    }
}

/// The given value where there is one, else the current one.
pub open spec fn given_or<A>(given: Option<A>, current: A) -> A {
    match given {
        Some(v) => v,
        None => current,
    }
}

/// The values `note` is stored with after the change `update`. The note must
/// have a category and a publication flag.
pub open spec fn changed(update: UpdateView, note: NoteView) -> ChangesView {
    ChangesView {
        title: given_or(update.title, note.title),
        content: given_or(update.content, note.content),
        category: given_or(update.category, note.category.unwrap()),
        published: given_or(update.published, note.published.unwrap()),
    }
}

/// `note` as stored after taking the values `values` at time `at`.
pub open spec fn stored_with(note: NoteView, values: ChangesView, at: i64) -> NoteView {
    NoteView {
        id: note.id,
        title: values.title,
        content: values.content,
        category: Some(values.category),
        published: Some(values.published),
        created_at: note.created_at,
        updated_at: Some(at),
    }
}

/// A change request with nothing in it.
pub open spec fn empty_update() -> UpdateView {
    UpdateView { title: None, content: None, category: None, published: None }
}

impl UpdateNoteSchema {
    /// The values `note` is stored with after this change. Both the note's
    /// category and its publication flag must be there, whether or not the
    /// change gives new ones.
    pub fn changes_for(&self, note: &NoteModel) -> (values: NoteChanges)
        requires
            note.category is Some,
            note.published is Some,
        ensures
            values@ == changed(self@, note@),
            values.title@ == match self.title {
                Some(t) => t@,
                None => note.title@,
            },
            values.content@ == match self.content {
                Some(c) => c@,
                None => note.content@,
            },
            values.category@ == match self.category {
                Some(c) => c@,
                None => note.category.unwrap()@,
            },
            values.published == match self.published {
                Some(p) => p,
                None => note.published.unwrap(),
            },
    {
        let title = match &self.title {
            Some(t) => t.clone(),
            None => note.title.clone(),
        };
        let content = match &self.content {
            Some(c) => c.clone(),
            None => note.content.clone(),
        };
        let category = match &self.category {
            Some(c) => c.clone(),
            None => match &note.category {
                Some(c) => c.clone(),
                None => String::new(),
            },
        };
        let published = match self.published {
            Some(p) => p,
            None => match note.published {
                Some(p) => p,
                None => false,
            },
        };
        NoteChanges { title, content, category, published }
    }
}

/// A change with nothing in it keeps the note's values.
pub proof fn lemma_empty_update_keeps_note(note: NoteView)
    requires
        note.category is Some,
        note.published is Some,
    ensures
        changed(empty_update(), note) == (ChangesView {
            title: note.title,
            content: note.content,
            category: note.category.unwrap(),
            published: note.published.unwrap(),
        }),
{
}

/// Making the same change twice stores the same values as making it once.
pub proof fn lemma_update_is_idempotent(update: UpdateView, note: NoteView, at: i64)
    requires
        note.category is Some,
        note.published is Some,
    ensures
        changed(update, stored_with(note, changed(update, note), at)) == changed(update, note),
{
}

/// A change that gives every field stores exactly what it gives, whatever the
/// note held.
pub proof fn lemma_full_update_overrides(update: UpdateView, note: NoteView)
    requires
        update.title is Some,
        update.content is Some,
        update.category is Some,
        update.published is Some,
        note.category is Some,
        note.published is Some,
    ensures
        changed(update, note) == (ChangesView {
            title: update.title.unwrap(),
            content: update.content.unwrap(),
            category: update.category.unwrap(),
            published: update.published.unwrap(),
        }),
{
}

/// The first page starts at the first note, whatever the page size.
pub proof fn lemma_first_page_starts_at_zero(limit: int)
    ensures
        page_offset(1, limit) == 0,
{
}

/// Page `page` starts after the notes of the `page - 1` pages before it,
/// `limit` notes each.
pub proof fn lemma_offset_counts_earlier_pages(page: int, limit: int)
    requires
        page >= 1,
    ensures
        page_offset(page, limit) == (page - 1) * limit,
        page_offset(page, limit) >= 0 <== limit >= 0,
    decreases page,
{
    if page > 1 {
        lemma_offset_counts_earlier_pages(page - 1, limit);
        lemma_pages_are_adjacent(page - 1, limit);
        assert((page - 1) * limit == (page - 2) * limit + limit) by (nonlinear_arith);
    }
    if limit >= 0 {
        assert((page - 1) * limit >= 0) by (nonlinear_arith)
            requires
                page >= 1,
                limit >= 0,
        ;
    }
}

/// Field by field, a change keeps what it does not give and takes what it
/// gives, whatever the other fields of the change are.
pub proof fn lemma_change_field_by_field(update: UpdateView, note: NoteView)
    requires
        note.category is Some,
        note.published is Some,
    ensures
        update.title is None ==> changed(update, note).title == note.title,
        update.content is None ==> changed(update, note).content == note.content,
        update.category is None ==> changed(update, note).category == note.category.unwrap(),
        update.published is None ==> changed(update, note).published == note.published.unwrap(),
        update.title matches Some(t) ==> changed(update, note).title == t,
        update.content matches Some(c) ==> changed(update, note).content == c,
        update.category matches Some(c) ==> changed(update, note).category == c,
        update.published matches Some(p) ==> changed(update, note).published == p,
{
}

/// What a change stores in one field depends only on that field of the
/// change and of the note: changing the other fields of the request changes
/// nothing in it.
pub proof fn lemma_fields_change_independently(first: UpdateView, second: UpdateView, note: NoteView)
    requires
        note.category is Some,
        note.published is Some,
    ensures
        first.title == second.title ==> changed(first, note).title == changed(second, note).title,
        first.content == second.content ==> changed(first, note).content == changed(second, note).content,
        first.category == second.category ==> changed(first, note).category == changed(second, note).category,
        first.published == second.published ==> changed(first, note).published == changed(second, note).published,
{
}

} // verus!
