use vstd::prelude::*;

verus! {

/// A note as it is stored. The id holds the 128 bits of the note's UUID,
/// read big-endian; the times are microseconds since the Unix epoch, UTC.
#[derive(Debug, Clone)]
pub struct NoteModel {
    pub id: u128,
    pub title: String,
    pub content: String,
    pub category: Option<String>,
    pub published: Option<bool>,
    pub created_at: Option<i64>,
    pub updated_at: Option<i64>,
}

/// A stored note, its texts taken as sequences of characters.
pub struct NoteView {
    pub id: u128,
    pub title: Seq<char>,
    pub content: Seq<char>,
    pub category: Option<Seq<char>>,
    pub published: Option<bool>,
    pub created_at: Option<i64>,
    pub updated_at: Option<i64>,
}

impl View for NoteModel {
    type V = NoteView;

    open spec fn view(&self) -> NoteView {
        NoteView {
            id: self.id,
            title: self.title@,
            content: self.content@,
            category: self.category.deep_view(),
            published: self.published,
            created_at: self.created_at,
            updated_at: self.updated_at,
        }
    }
}

} // verus!
