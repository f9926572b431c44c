//! The stored redirect: one row of the redirect table.

use vstd::prelude::*;
use crate::system::now_micros;

verus! {

/// The mathematical value of a [`RedirectRecord`].
pub ghost struct RecordView {
    pub id: u128,
    pub user_email: Seq<char>,
    pub key: Seq<char>,
    pub target: Seq<char>,
    pub created_at: i64,
    pub updated_at: i64,
}

/// One redirect as it is stored. The identifier is a 128-bit UUID; the two
/// timestamps count microseconds since the Unix epoch.
#[derive(Debug)]
pub struct RedirectRecord {
    pub id: u128,
    pub user_email: String,
    pub key: String,
    pub target: String,
    pub created_at: i64,
    pub updated_at: i64,
}

impl View for RedirectRecord {
    type V = RecordView;

    open spec fn view(&self) -> RecordView {
        RecordView {
            id: self.id,
            user_email: self.user_email@,
            key: self.key@,
            target: self.target@,
            created_at: self.created_at,
            updated_at: self.updated_at,
        }
    }
}

impl Clone for RedirectRecord {
    fn clone(&self) -> (r: Self)
        ensures
            r@ == self@,
    {
        RedirectRecord {
            id: self.id,
            user_email: self.user_email.clone(),
            key: self.key.clone(),
            target: self.target.clone(),
            created_at: self.created_at,
            updated_at: self.updated_at,
        }
    }
}

/// The value of an optional record.
pub open spec fn view_of(record: Option<RedirectRecord>) -> Option<RecordView> {
    match record {
        Some(r) => Some(r@),
        None => None,
    }
}

/// The value of an optional text.
pub open spec fn text_of(text: Option<String>) -> Option<Seq<char>> {
    match text {
        Some(t) => Some(t@),
        None => None,
    }
}

impl RedirectRecord {
    /// The record with a new key and target, stamped as updated at `now`.
    /// Identifier, owner and creation time stay. The stamp is `now` as it
    /// is: where `now` is not before the creation time, the record is
    /// updated no earlier than it was created.
    pub fn rewritten(self, key: String, target: String, now: i64) -> (r: RedirectRecord)
        ensures
            r@ == rewritten_view(self@, key@, target@, now),
    {
        RedirectRecord {
            id: self.id,
            user_email: self.user_email,
            key,
            target,
            created_at: self.created_at,
            updated_at: now,
        }
    }

    /// The record with a new key and target, stamped as updated at the time
    /// of the clock, whatever that is.
    pub fn rewritten_now(self, key: String, target: String) -> (r: RedirectRecord)
        ensures
            exists|now: i64| now >= 0 && r@ == #[trigger] rewritten_view(self@, key@, target@, now),
    {
        let now: i64 = now_micros();
        let r = self.rewritten(key, target, now);
        assert(r@ == rewritten_view(self@, key@, target@, now));
        r
    }
}

/// `row` with a new key and target, updated at `now`.
pub open spec fn rewritten_view(
    row: RecordView,
    key: Seq<char>,
    target: Seq<char>,
    now: i64,
) -> RecordView {
    RecordView { key, target, updated_at: now, ..row }
}

/// A record is stamped in order when it was updated no earlier than it was
/// created.
pub open spec fn stamped_in_order(row: RecordView) -> bool {
    row.created_at <= row.updated_at
}

} // verus!
