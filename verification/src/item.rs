use vstd::prelude::*;

verus! {

/// What a list entry is, as plain values.
pub struct ItemView {
    pub id: Seq<char>,
    pub title: Seq<char>,
    pub completed: bool,
}

impl ItemView {
    /// This entry with its completion flag set to `completed`.
    pub open spec fn with_completed(self, completed: bool) -> ItemView {
        ItemView { completed, ..self }
    }

    /// This entry with its text replaced by `title`.
    pub open spec fn with_title(self, title: Seq<char>) -> ItemView {
        ItemView { title, ..self }
    }
}

/// One list entry: its identity, its text and whether it is done.
pub struct TodoItem {
    id: String,
    title: String,
    completed: bool,
}

/// The signal by which an entry asks its owner to remove it.
#[derive(Clone, Copy, Debug, PartialEq, Eq, Structural)]
pub struct DeleteTodo;

impl View for TodoItem {
    type V = ItemView;

    closed spec fn view(&self) -> ItemView {
        ItemView { id: self.id@, title: self.title@, completed: self.completed }
    }
}

/// A digit of lower-case hexadecimal notation.
pub open spec fn is_lower_hex(c: char) -> bool {
    ('0' <= c && c <= '9') || ('a' <= c && c <= 'f')
}

/// The shape of a random (version 4) UUID in its hyphenated lower-case form:
/// 36 characters in groups of 8, 4, 4, 4 and 12 hexadecimal digits, the third
/// group opening with the version digit `4` and the fourth with one of the
/// variant digits `8`, `9`, `a`, `b`.
pub open spec fn is_random_uuid_text(s: Seq<char>) -> bool {
    &&& s.len() == 36
    &&& forall|i: int|
        0 <= i < 36 ==> if i == 8 || i == 13 || i == 18 || i == 23 {
            #[trigger] s[i] == '-'
        } else {
            is_lower_hex(s[i])
        }
    &&& s[14] == '4'
    &&& (s[19] == '8' || s[19] == '9' || s[19] == 'a' || s[19] == 'b')
}

/// Draws a fresh identifier: `uuid::Uuid::new_v4()` written out by its
/// `to_string()`.
///
/// Trusted: the text has the shape of a hyphenated version 4 UUID. Which
/// digits it holds is left open, and so is whether two draws differ. The draw
/// relies on the operating system's random source being available.
#[verifier::external_body]
fn fresh_id() -> (id: String)
    ensures
        is_random_uuid_text(id@),
{
    uuid::Uuid::new_v4().to_string()
}

impl TodoItem {
    /// A new entry with the given text, not yet done, under a freshly drawn
    /// identifier.
    pub fn new(title: String) -> (item: Self)
        ensures
            item@.title == title@,
            !item@.completed,
            is_random_uuid_text(item@.id),
    {
        TodoItem::with_id(fresh_id(), title)
    }

    /// A new entry with the given identifier and text, not yet done.
    pub fn with_id(id: String, title: String) -> (item: Self)
        ensures
            item@ == (ItemView { id: id@, title: title@, completed: false }),
    {
        TodoItem { id, title, completed: false }
    }

    /// The identifier, which never changes.
    pub fn id(&self) -> (id: &String)
        ensures
            id@ == self@.id,
    {
        &self.id
    }

    /// The text of the entry.
    pub fn title(&self) -> (title: &String)
        ensures
            title@ == self@.title,
    {
        &self.title
    }

    /// Whether the entry is done.
    pub fn completed(&self) -> (completed: bool)
        ensures
            completed == self@.completed,
    {
        self.completed
    }

    /// Replaces the text and nothing else.
    pub fn set_title(&mut self, title: String)
        ensures
            final(self)@ == old(self)@.with_title(title@),
    {
        self.title = title;
    }

    /// Sets the completion flag to `new_value` and nothing else.
    pub fn toggle_completed(&mut self, new_value: bool)
        ensures
            final(self)@ == old(self)@.with_completed(new_value),
    {
        self.completed = new_value;
    }

    /// Emits the removal signal. The entry itself is left as it is: to
    /// destroy it is its owner's part.
    pub fn request_delete(&self) -> (signal: DeleteTodo)
        ensures
            signal == DeleteTodo,
    {
        DeleteTodo
    }
}

} // verus!
