//! The redirect table held in memory: rows with unique identifiers and
//! unique keys, and the statements the repository runs on it.

use vstd::prelude::*;
use crate::record::{RecordView, RedirectRecord, view_of};
use crate::text::{comes_before, lemma_text_total, lemma_text_transitive, same_text, text_before};
use crate::record::text_of;

verus! {

/// The name of the constraint that keeps identifiers unique.
pub const ID_CONSTRAINT: &'static str = "url_redirects_pkey";

/// The name of the constraint that keeps keys unique.
pub const KEY_CONSTRAINT: &'static str = "url_redirects_key_key";

/// The mathematical value of a [`StoreError`].
pub ghost enum StoreErrorView {
    UniqueViolation(Seq<char>),
    RecordNotUpdated,
    Other(Seq<char>),
}

/// Why the store refused a statement.
#[derive(Debug)]
pub enum StoreError {
    /// A uniqueness constraint was violated; the message names it.
    UniqueViolation(String),
    /// An update matched no row.
    RecordNotUpdated,
    /// Any other failure, with its description.
    Other(String),
}

impl View for StoreError {
    type V = StoreErrorView;

    open spec fn view(&self) -> StoreErrorView {
        match self {
            StoreError::UniqueViolation(message) => StoreErrorView::UniqueViolation(message@),
            StoreError::RecordNotUpdated => StoreErrorView::RecordNotUpdated,
            StoreError::Other(detail) => StoreErrorView::Other(detail@),
        }
    }
}

/// No two rows share an identifier, and no two rows share a key.
pub open spec fn consistent(rows: Seq<RecordView>) -> bool {
    forall|i: int, j: int|
        #![trigger rows[i], rows[j]]
        0 <= i < j < rows.len() ==> rows[i].id != rows[j].id && rows[i].key != rows[j].key
}

/// Some row has this key.
pub open spec fn holds_key(rows: Seq<RecordView>, key: Seq<char>) -> bool {
    exists|i: int| 0 <= i < rows.len() && (#[trigger] rows[i]).key == key
}

/// Some row has this identifier.
pub open spec fn holds_id(rows: Seq<RecordView>, id: u128) -> bool {
    exists|i: int| 0 <= i < rows.len() && (#[trigger] rows[i]).id == id
}

/// The index of the row with this identifier.
pub open spec fn position_of(rows: Seq<RecordView>, id: u128) -> int {
    choose|i: int| 0 <= i < rows.len() && (#[trigger] rows[i]).id == id
}

/// The row with this key, whoever owns it.
pub open spec fn row_with_key(rows: Seq<RecordView>, key: Seq<char>) -> Option<RecordView> {
    if holds_key(rows, key) {
        Some(rows[choose|i: int| 0 <= i < rows.len() && (#[trigger] rows[i]).key == key])
    } else {
        None
    }
}

/// The row with this identifier, if this owner has it. A row of another
/// owner is no more to be seen than a row that is not there.
pub open spec fn row_owned(rows: Seq<RecordView>, id: u128, owner: Seq<char>) -> Option<RecordView> {
    if holds_id(rows, id) && rows[position_of(rows, id)].user_email == owner {
        Some(rows[position_of(rows, id)])
    } else {
        None
    }
}

/// In a consistent table a row is found under its key.
pub proof fn lemma_row_with_key(rows: Seq<RecordView>, i: int)
    requires
        consistent(rows),
        0 <= i < rows.len(),
    ensures
        row_with_key(rows, rows[i].key) == Some(rows[i]),
{
    let c = choose|c: int| 0 <= c < rows.len() && (#[trigger] rows[c]).key == rows[i].key;
    if c < i {
        assert(rows[c].key != rows[i].key);
    } else if i < c {
        assert(rows[i].key != rows[c].key);
    }
}

/// In a consistent table a row stands where its identifier is found.
pub proof fn lemma_position_of(rows: Seq<RecordView>, i: int)
    requires
        consistent(rows),
        0 <= i < rows.len(),
    ensures
        holds_id(rows, rows[i].id),
        position_of(rows, rows[i].id) == i,
{
    let c = position_of(rows, rows[i].id);
    if c < i {
        assert(rows[c].id != rows[i].id);
    } else if i < c {
        assert(rows[i].id != rows[c].id);
    }
}

/// `key` lies behind the cursor: there is no cursor, or the cursor comes
/// strictly before `key`.
pub open spec fn behind(after: Option<Seq<char>>, key: Seq<char>) -> bool {
    match after {
        Some(cursor) => text_before(cursor, key),
        None => true,
    }
}

/// `row` is a row of this owner behind the cursor.
pub open spec fn in_scope(
    rows: Seq<RecordView>,
    owner: Seq<char>,
    after: Option<Seq<char>>,
    row: RecordView,
) -> bool {
    rows.contains(row) && row.user_email == owner && behind(after, row.key)
}

/// `page` is the page of at most `limit` rows of `owner` behind the cursor:
/// rows in scope only, in strictly ascending order of their keys, and every
/// row in scope that is left out comes after a full page.
pub open spec fn is_page(
    rows: Seq<RecordView>,
    owner: Seq<char>,
    after: Option<Seq<char>>,
    limit: nat,
    page: Seq<RecordView>,
) -> bool {
    &&& page.len() <= limit
    &&& forall|i: int| 0 <= i < page.len() ==> in_scope(rows, owner, after, #[trigger] page[i])
    &&& forall|i: int, j: int|
        #![trigger page[i], page[j]]
        0 <= i < j < page.len() ==> text_before(page[i].key, page[j].key)
    &&& forall|row: RecordView| #[trigger]
        in_scope(rows, owner, after, row) ==> page.contains(row) || (page.len() == limit && (limit
            > 0 ==> text_before(page.last().key, row.key)))
}

/// The values of a list of records.
pub open spec fn views_of(records: Seq<RedirectRecord>) -> Seq<RecordView> {
    Seq::new(records.len(), |i: int| records[i]@)
}

/// What an insert of `row` does: the rows afterwards and the answer. A key
/// that is taken is reported first, then an identifier that is taken; else
/// the row is added behind the others.
pub open spec fn inserted(rows: Seq<RecordView>, row: RecordView) -> (
    Seq<RecordView>,
    Result<RecordView, StoreErrorView>,
) {
    if holds_key(rows, row.key) {
        (rows, Err(StoreErrorView::UniqueViolation(KEY_CONSTRAINT@)))
    } else if holds_id(rows, row.id) {
        (rows, Err(StoreErrorView::UniqueViolation(ID_CONSTRAINT@)))
    } else {
        (rows.push(row), Ok(row))
    }
}

/// Some row other than the one with identifier `id` has this key.
pub open spec fn key_taken_by_other(rows: Seq<RecordView>, id: u128, key: Seq<char>) -> bool {
    exists|i: int| 0 <= i < rows.len() && (#[trigger] rows[i]).key == key && rows[i].id != id
}

/// What writing `row` over the row with its identifier does: the rows
/// afterwards and the answer. Without such a row nothing is updated; a key
/// that another row holds is a violation; else the row stands in the place
/// of the old one.
pub open spec fn updated(rows: Seq<RecordView>, row: RecordView) -> (
    Seq<RecordView>,
    Result<RecordView, StoreErrorView>,
) {
    if !holds_id(rows, row.id) {
        (rows, Err(StoreErrorView::RecordNotUpdated))
    } else if key_taken_by_other(rows, row.id, row.key) {
        (rows, Err(StoreErrorView::UniqueViolation(KEY_CONSTRAINT@)))
    } else {
        (rows.update(position_of(rows, row.id), row), Ok(row))
    }
}

/// What deleting the row with identifier `id` does: the rows afterwards,
/// the others in their order, and the number of rows that left.
pub open spec fn deleted(rows: Seq<RecordView>, id: u128) -> (Seq<RecordView>, nat) {
    if holds_id(rows, id) {
        (rows.remove(position_of(rows, id)), 1)
    } else {
        (rows, 0)
    }
}

/// The redirect table in memory.
#[derive(Debug)]
pub struct RedirectTable {
    rows: Vec<RedirectRecord>,
}

impl View for RedirectTable {
    type V = Seq<RecordView>;

    closed spec fn view(&self) -> Seq<RecordView> {
        views_of(self.rows@)
    }
}

impl RedirectTable {
    #[verifier::type_invariant]
    spec fn unique_columns(&self) -> bool {
        consistent(views_of(self.rows@))
    }

    /// The table without rows.
    pub fn new() -> (r: RedirectTable)
        ensures
            r@ == Seq::<RecordView>::empty(),
            consistent(r@),
    {
        let r = RedirectTable { rows: Vec::new() };
        assert(r@ =~= Seq::<RecordView>::empty());
        r
    }

    /// The number of rows.
    pub fn len(&self) -> (n: usize)
        ensures
            n == self@.len(),
            consistent(self@),
    {
        proof {
            use_type_invariant(self);
        }
        self.rows.len()
    }

    /// The index of the row with this key.
    fn position_of_key(&self, key: &str) -> (r: Option<usize>)
        ensures
            match r {
                Some(i) => i < self@.len() && self@[i as int].key == key@,
                None => !holds_key(self@, key@),
            },
    {
        let mut i: usize = 0;
        while i < self.rows.len()
            invariant
                i <= self.rows.len(),
                forall|j: int| 0 <= j < i ==> (#[trigger] self@[j]).key != key@,
            decreases self.rows.len() - i,
        {
            if same_text(self.rows[i].key.as_str(), key) {
                return Some(i);
            }
            i += 1;
        }
        None
    }

    /// The index of the row with this identifier.
    fn position_of_id(&self, id: u128) -> (r: Option<usize>)
        ensures
            match r {
                Some(i) => i < self@.len() && self@[i as int].id == id,
                None => !holds_id(self@, id),
            },
    {
        let mut i: usize = 0;
        while i < self.rows.len()
            invariant
                i <= self.rows.len(),
                forall|j: int| 0 <= j < i ==> (#[trigger] self@[j]).id != id,
            decreases self.rows.len() - i,
        {
            if self.rows[i].id == id {
                return Some(i);
            }
            i += 1;
        }
        None
    }

    /// The row with this key, whoever owns it.
    pub fn find_by_key(&self, key: &str) -> (r: Option<RedirectRecord>)
        ensures
            view_of(r) == row_with_key(self@, key@),
            consistent(self@),
    {
        proof {
            use_type_invariant(self);
        }
        match self.position_of_key(key) {
            Some(i) => {
                let row = self.rows[i].clone();
                proof {
                    assert(self@[i as int] == row@);
                    lemma_row_with_key(self@, i as int);
                }
                Some(row)
            },
            None => None,
        }
    }

    /// The row with this identifier, if this owner has it.
    pub fn find_by_id_and_email(&self, id: u128, user_email: &str) -> (r: Option<RedirectRecord>)
        ensures
            view_of(r) == row_owned(self@, id, user_email@),
            consistent(self@),
    {
        proof {
            use_type_invariant(self);
        }
        match self.position_of_id(id) {
            Some(i) => {
                proof {
                    lemma_position_of(self@, i as int);
                }
                if same_text(self.rows[i].user_email.as_str(), user_email) {
                    let row = self.rows[i].clone();
                    assert(self@[i as int] == row@);
                    Some(row)
                } else {
                    None
                }
            },
            None => None,
        }
    }

    /// Moves the rows out and leaves the table empty.
    fn take_rows(&mut self) -> (rows: Vec<RedirectRecord>)
        ensures
            views_of(rows@) == old(self)@,
            consistent(views_of(rows@)),
    {
        proof {
            use_type_invariant(&*self);
        }
        let mut taken = RedirectTable { rows: Vec::new() };
        core::mem::swap(self, &mut taken);
        taken.rows
    }

    /// Makes `rows` the rows of the table.
    fn put_rows(&mut self, rows: Vec<RedirectRecord>)
        requires
            consistent(views_of(rows@)),
        ensures
            final(self)@ == views_of(rows@),
    {
        *self = RedirectTable { rows };
    }

    /// Adds `row`, unless its key or its identifier is taken.
    pub fn insert(&mut self, row: RedirectRecord) -> (r: Result<RedirectRecord, StoreError>)
        ensures
            (final(self)@, outcome_of(r)) == inserted(old(self)@, row@),
            consistent(final(self)@),
    {
        proof {
            use_type_invariant(&*self);
        }
        if self.position_of_key(row.key.as_str()).is_some() {
            return Err(StoreError::UniqueViolation(KEY_CONSTRAINT.to_owned()));
        }
        if self.position_of_id(row.id).is_some() {
            return Err(StoreError::UniqueViolation(ID_CONSTRAINT.to_owned()));
        }
        let stored = row.clone();
        let ghost before = self@;
        let mut rows = self.take_rows();
        rows.push(row);
        proof {
            let after = views_of(rows@);
            assert(after =~= before.push(row@));
            assert forall|i: int, j: int| 0 <= i < j < after.len() implies (#[trigger] after[i]).id
                != (#[trigger] after[j]).id && after[i].key != after[j].key by {
                if j < before.len() {
                    assert(before[i].id != before[j].id && before[i].key != before[j].key);
                } else {
                    assert(before[i].id != row@.id && before[i].key != row@.key);
                }
            }
        }
        self.put_rows(rows);
        Ok(stored)
    }

    /// Writes `row` over the row with its identifier, unless there is none
    /// or another row holds its key.
    pub fn update(&mut self, row: RedirectRecord) -> (r: Result<RedirectRecord, StoreError>)
        ensures
            (final(self)@, outcome_of(r)) == updated(old(self)@, row@),
            consistent(final(self)@),
    {
        proof {
            use_type_invariant(&*self);
        }
        let ghost before = self@;
        let at: usize = match self.position_of_id(row.id) {
            Some(i) => i,
            None => {
                return Err(StoreError::RecordNotUpdated);
            },
        };
        let holder = self.position_of_key(row.key.as_str());
        match holder {
            Some(k) => {
                if k != at {
                    assert(before[k as int].id != before[at as int].id);
                    return Err(StoreError::UniqueViolation(KEY_CONSTRAINT.to_owned()));
                }
            },
            None => {},
        }
        proof {
            lemma_position_of(before, at as int);
            assert forall|i: int| 0 <= i < before.len() && (#[trigger] before[i]).key
                == row@.key implies before[i].id == row@.id by {
                if i != at {
                    assert(holder is Some);
                    assert(before[i].key != before[at as int].key);
                }
            }
        }
        let stored = row.clone();
        let mut rows = self.take_rows();
        rows.set(at, row);
        proof {
            let after = views_of(rows@);
            assert(after =~= before.update(at as int, row@));
            assert forall|i: int, j: int| 0 <= i < j < after.len() implies (#[trigger] after[i]).id
                != (#[trigger] after[j]).id && after[i].key != after[j].key by {
                assert(before[i].id != before[j].id && before[i].key != before[j].key);
            }
        }
        self.put_rows(rows);
        Ok(stored)
    }

    /// Deletes the row with this identifier; gives the number of rows that
    /// left.
    pub fn delete(&mut self, id: u128) -> (removed: u64)
        ensures
            (final(self)@, removed as nat) == deleted(old(self)@, id),
            consistent(final(self)@),
    {
        proof {
            use_type_invariant(&*self);
        }
        let ghost before = self@;
        match self.position_of_id(id) {
            Some(at) => {
                let mut rows = self.take_rows();
                let gone = rows.remove(at);
                proof {
                    let after = views_of(rows@);
                    lemma_position_of(before, at as int);
                    assert(after =~= before.remove(at as int));
                    assert forall|i: int, j: int| 0 <= i < j < after.len() implies (
                    #[trigger] after[i]).id != (#[trigger] after[j]).id && after[i].key
                        != after[j].key by {
                        let a = if i < at { i } else { i + 1 };
                        let b = if j < at { j } else { j + 1 };
                        assert(before[a].id != before[b].id && before[a].key != before[b].key);
                    }
                }
                self.put_rows(rows);
                1
            },
            None => 0,
        }
    }

    /// The index of the row of this owner with the least key behind the
    /// cursor.
    fn next_behind(&self, user_email: &str, after: &Option<String>) -> (r: Option<usize>)
        ensures
            match r {
                Some(b) => {
                    &&& b < self@.len()
                    &&& self@[b as int].user_email == user_email@
                    &&& behind(text_of(*after), self@[b as int].key)
                    &&& forall|j: int|
                        0 <= j < self@.len() && (#[trigger] self@[j]).user_email == user_email@
                            && behind(text_of(*after), self@[j].key) ==> !text_before(
                            self@[j].key,
                            self@[b as int].key,
                        )
                },
                None => forall|j: int|
                    0 <= j < self@.len() ==> !((#[trigger] self@[j]).user_email == user_email@
                        && behind(text_of(*after), self@[j].key)),
            },
    {
        let mut best: Option<usize> = None;
        let mut i: usize = 0;
        while i < self.rows.len()
            invariant
                i <= self.rows.len(),
                match best {
                    Some(b) => {
                        &&& b < i
                        &&& self@[b as int].user_email == user_email@
                        &&& behind(text_of(*after), self@[b as int].key)
                        &&& forall|j: int|
                            0 <= j < i && (#[trigger] self@[j]).user_email == user_email@
                                && behind(text_of(*after), self@[j].key) ==> !text_before(
                                self@[j].key,
                                self@[b as int].key,
                            )
                    },
                    None => forall|j: int|
                        0 <= j < i ==> !((#[trigger] self@[j]).user_email == user_email@
                            && behind(text_of(*after), self@[j].key)),
                },
            decreases self.rows.len() - i,
        {
            let row = &self.rows[i];
            assert(row@ == self@[i as int]);
            if same_text(row.user_email.as_str(), user_email) && is_behind(
                after,
                row.key.as_str(),
            ) {
                match best {
                    Some(b) => {
                        if comes_before(row.key.as_str(), self.rows[b].key.as_str()) {
                            proof {
                                assert forall|j: int|
                                    0 <= j < i + 1 && (#[trigger] self@[j]).user_email
                                        == user_email@ && behind(
                                        text_of(*after),
                                        self@[j].key,
                                    ) implies !text_before(self@[j].key, self@[i as int].key) by {
                                    lemma_text_total(self@[j].key, self@[i as int].key);
                                    if text_before(self@[j].key, self@[i as int].key) {
                                        lemma_text_transitive(
                                            self@[j].key,
                                            self@[i as int].key,
                                            self@[b as int].key,
                                        );
                                    }
                                }
                            }
                            best = Some(i);
                        }
                    },
                    None => {
                        proof {
                            lemma_text_total(self@[i as int].key, self@[i as int].key);
                        }
                        best = Some(i);
                    },
                }
            }
            i += 1;
        }
        best
    }

    /// The page of at most `limit` rows of this owner behind the cursor, in
    /// ascending order of their keys.
    pub fn page(&self, user_email: &str, after: &Option<String>, limit: u64) -> (r: Vec<
        RedirectRecord,
    >)
        ensures
            is_page(self@, user_email@, text_of(*after), limit as nat, views_of(r@)),
            consistent(self@),
    {
        proof {
            use_type_invariant(self);
        }
        let ghost rows = self@;
        let ghost owner = user_email@;
        let ghost start = text_of(*after);
        let mut out: Vec<RedirectRecord> = Vec::new();
        let mut bound: Option<String> = match after {
            Some(cursor) => Some(cursor.clone()),
            None => None,
        };
        let mut exhausted: bool = false;
        while !exhausted && (out.len() as u64) < limit
            invariant
                rows == self@,
                owner == user_email@,
                start == text_of(*after),
                consistent(rows),
                out.len() <= limit,
                forall|i: int|
                    0 <= i < out.len() ==> in_scope(rows, owner, start, #[trigger] views_of(
                        out@,
                    )[i]),
                forall|i: int, j: int|
                    #![trigger views_of(out@)[i], views_of(out@)[j]]
                    0 <= i < j < out.len() ==> text_before(
                        views_of(out@)[i].key,
                        views_of(out@)[j].key,
                    ),
                out.len() == 0 ==> text_of(bound) == start,
                out.len() > 0 ==> text_of(bound) == Some(views_of(out@).last().key),
                exhausted ==> forall|row: RecordView| #[trigger]
                    in_scope(rows, owner, start, row) ==> views_of(out@).contains(row),
                forall|row: RecordView| #[trigger]
                    in_scope(rows, owner, start, row) ==> views_of(out@).contains(row) || behind(
                        text_of(bound),
                        row.key,
                    ),
            decreases (if exhausted { 0int } else { 1int }) + limit - out.len(),
        {
            match self.next_behind(user_email, &bound) {
                Some(b) => {
                    let row = self.rows[b].clone();
                    let ghost before = views_of(out@);
                    let ghost lower = text_of(bound);
                    assert(row@ == rows[b as int]);
                    assert(rows.contains(row@));
                    proof {
                        if before.len() > 0 {
                            let last = before.last();
                            assert(in_scope(rows, owner, start, before[before.len() - 1]));
                            if let Some(cursor) = start {
                                lemma_text_transitive(cursor, last.key, row@.key);
                            }
                        }
                    }
                    bound = Some(row.key.clone());
                    out.push(row);
                    proof {
                        let now = views_of(out@);
                        assert(now =~= before.push(row@));
                        assert forall|i: int, j: int| 0 <= i < j < now.len() implies text_before(
                            (#[trigger] now[i]).key,
                            (#[trigger] now[j]).key,
                        ) by {
                            if j < before.len() {
                                assert(text_before(before[i].key, before[j].key));
                            } else if i < before.len() - 1 {
                                assert(text_before(before[i].key, before[before.len() - 1].key));
                                lemma_text_transitive(
                                    before[i].key,
                                    before.last().key,
                                    row@.key,
                                );
                            }
                        }
                        assert forall|other: RecordView| #[trigger]
                            in_scope(rows, owner, start, other) implies now.contains(other)
                            || behind(text_of(bound), other.key) by {
                            if before.contains(other) {
                                let k = choose|k: int| 0 <= k < before.len() && before[k] == other;
                                assert(now[k] == other);
                            } else {
                                assert(behind(lower, other.key));
                                let j = choose|j: int| 0 <= j < rows.len() && rows[j] == other;
                                if j == b {
                                    assert(now[now.len() - 1] == other);
                                } else {
                                    lemma_text_total(rows[j].key, rows[b as int].key);
                                    if j < b {
                                        assert(rows[j].key != rows[b as int].key);
                                    } else {
                                        assert(rows[b as int].key != rows[j].key);
                                    }
                                }
                            }
                        }
                    }
                },
                None => {
                    proof {
                        assert forall|other: RecordView| #[trigger]
                            in_scope(rows, owner, start, other) implies views_of(out@).contains(
                            other,
                        ) by {
                            if !views_of(out@).contains(other) {
                                let j = choose|j: int| 0 <= j < rows.len() && rows[j] == other;
                                assert(rows[j].user_email == owner);
                            }
                        }
                    }
                    exhausted = true;
                },
            }
        }
        out
    }
}

/// Whether `key` lies behind the cursor.
fn is_behind(after: &Option<String>, key: &str) -> (r: bool)
    ensures
        r == behind(text_of(*after), key@),
{
    match after {
        Some(cursor) => comes_before(cursor.as_str(), key),
        None => true,
    }
}

/// The value of what a statement gives.
pub open spec fn outcome_of(r: Result<RedirectRecord, StoreError>) -> Result<
    RecordView,
    StoreErrorView,
> {
    match r {
        Ok(row) => Ok(row@),
        Err(e) => Err(e@),
    }
}

} // verus!
