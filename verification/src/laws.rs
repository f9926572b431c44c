//! What holds of the repository whatever the rows, the owners and the keys,
//! and of introspection whatever the cache and the provider's answers.

use vstd::prelude::*;
use crate::authentication::{
    introspected, profile_outcome, token_key_of, AuthErrorView, IntrospectionView,
    ProfileAnswerView, TOKEN_TTL,
};
use crate::cache::{cached, deadline, stored_if_absent, SlotView};
use crate::record::{rewritten_view, stamped_in_order, RecordView};
use crate::responses::{shown, RedirectView};
use crate::service::{
    created, lists, removed, row_of, shown_if, updated_by, InsertErrorView, NewRedirectView,
};
use crate::table::{
    behind, consistent, holds_id, in_scope, is_page, lemma_position_of, lemma_row_with_key,
    position_of, row_owned, row_with_key,
};
use crate::text::{lemma_text_total, lemma_text_transitive, text_before};

verus! {

/// Creation keeps identifiers and keys unique.
pub proof fn lemma_creation_keeps_consistency(
    rows: Seq<RecordView>,
    id: u128,
    new_url: NewRedirectView,
    now: i64,
)
    requires
        consistent(rows),
    ensures
        consistent(created(rows, id, new_url, now).0),
{
    let after = created(rows, id, new_url, now).0;
    if after != rows {
        let row = row_of(new_url, id, now);
        assert forall|i: int, j: int| 0 <= i < j < after.len() implies (#[trigger] after[i]).id != (
        #[trigger] after[j]).id && after[i].key != after[j].key by {
            if j < rows.len() {
                assert(rows[i].id != rows[j].id && rows[i].key != rows[j].key);
            } else {
                assert(rows[i].id != row.id && rows[i].key != row.key);
            }
        }
    }
}

/// Of two creations with the same key the second is a conflict, whoever
/// the two owners are, and changes nothing; the first redirect stays
/// readable under the key.
pub proof fn lemma_second_creation_conflicts(
    rows: Seq<RecordView>,
    first_id: u128,
    first: NewRedirectView,
    first_now: i64,
    second_id: u128,
    second: NewRedirectView,
    second_now: i64,
)
    requires
        consistent(rows),
        first.key == second.key,
        created(rows, first_id, first, first_now).1 is Ok,
    ensures
        ({
            let between = created(rows, first_id, first, first_now).0;
            &&& created(between, second_id, second, second_now) == (
                between,
                Err::<RedirectView, InsertErrorView>(InsertErrorView::KeyAlreadyExists),
            )
            &&& shown_if(row_with_key(between, first.key)) == Some(
                shown(row_of(first, first_id, first_now)),
            )
            &&& consistent(between)
        }),
{
    let between = created(rows, first_id, first, first_now).0;
    let row = row_of(first, first_id, first_now);
    lemma_creation_keeps_consistency(rows, first_id, first, first_now);
    assert(between == rows.push(row));
    assert(between[rows.len() as int] == row);
    lemma_row_with_key(between, rows.len() as int);
}

/// A redirect of one owner is not there for another: the lookup by
/// identifier gives nothing, and a deletion gives nothing and changes
/// nothing, as if no redirect had the identifier.
pub proof fn lemma_ownership_isolates(rows: Seq<RecordView>, i: int, other: Seq<char>)
    requires
        consistent(rows),
        0 <= i < rows.len(),
        rows[i].user_email != other,
    ensures
        row_owned(rows, rows[i].id, other) == None::<RecordView>,
        removed(rows, rows[i].id, other) == (rows, None::<RedirectView>),
{
    lemma_position_of(rows, i);
}

/// What an owner is told of an identifier that another owner holds is what
/// the owner is told of an identifier that nobody holds.
pub proof fn lemma_absence_does_not_leak(
    rows: Seq<RecordView>,
    i: int,
    other: Seq<char>,
    free: u128,
    new_url: NewRedirectView,
    now: i64,
)
    requires
        consistent(rows),
        0 <= i < rows.len(),
        rows[i].user_email != other,
        !holds_id(rows, free),
        new_url.user_email == other,
    ensures
        row_owned(rows, rows[i].id, other) == row_owned(rows, free, other),
        removed(rows, rows[i].id, other) == removed(rows, free, other),
        updated_by(rows, rows[i].id, new_url, now) == updated_by(rows, free, new_url, now),
{
    lemma_position_of(rows, i);
}

/// An update of a redirect that the owner does not have returns nothing
/// and changes no row.
pub proof fn lemma_update_of_absent(
    rows: Seq<RecordView>,
    id: u128,
    new_url: NewRedirectView,
    now: i64,
)
    requires
        row_owned(rows, id, new_url.user_email) is None,
    ensures
        updated_by(rows, id, new_url, now) == (
            rows,
            Ok::<Option<RedirectView>, InsertErrorView>(None),
        ),
{
}

/// A deletion leaves identifiers and keys unique, and the redirect that
/// left is no longer there.
pub proof fn lemma_deletion_removes(rows: Seq<RecordView>, id: u128, owner: Seq<char>)
    requires
        consistent(rows),
    ensures
        consistent(removed(rows, id, owner).0),
        removed(rows, id, owner).1 is Some ==> !holds_id(removed(rows, id, owner).0, id),
        removed(rows, id, owner).1 is None ==> removed(rows, id, owner).0 == rows,
{
    let after = removed(rows, id, owner).0;
    if removed(rows, id, owner).1 is Some {
        let at = position_of(rows, id);
        assert(after == rows.remove(at));
        assert forall|i: int, j: int| 0 <= i < j < after.len() implies (#[trigger] after[i]).id != (
        #[trigger] after[j]).id && after[i].key != after[j].key by {
            let a = if i < at { i } else { i + 1 };
            let b = if j < at { j } else { j + 1 };
            assert(rows[a].id != rows[b].id && rows[a].key != rows[b].key);
        }
        assert forall|i: int| 0 <= i < after.len() implies (#[trigger] after[i]).id != id by {
            let a = if i < at { i } else { i + 1 };
            if a < at {
                assert(rows[a].id != rows[at].id);
            } else {
                assert(rows[at].id != rows[a].id);
            }
        }
    }
}

/// A deletion after a deletion of the same redirect returns nothing and
/// changes nothing.
pub proof fn lemma_second_deletion_is_empty(rows: Seq<RecordView>, id: u128, owner: Seq<char>)
    requires
        consistent(rows),
    ensures
        removed(removed(rows, id, owner).0, id, owner) == (
            removed(rows, id, owner).0,
            None::<RedirectView>,
        ),
{
    lemma_deletion_removes(rows, id, owner);
    let after = removed(rows, id, owner).0;
    if removed(rows, id, owner).1 is None {
        assert(after == rows);
    }
}

/// An update rewrites one row at most, and leaves that row's identifier,
/// owner and creation time as they were; identifiers and keys stay unique.
/// Stamped no earlier than the row was created, the row stays stamped in
/// order.
pub proof fn lemma_update_keeps_owner(
    rows: Seq<RecordView>,
    id: u128,
    new_url: NewRedirectView,
    now: i64,
)
    requires
        consistent(rows),
    ensures
        ({
            let after = updated_by(rows, id, new_url, now).0;
            &&& consistent(after)
            &&& after.len() == rows.len()
            &&& forall|i: int|
                0 <= i < rows.len() ==> {
                    &&& (#[trigger] after[i]).id == rows[i].id
                    &&& after[i].user_email == rows[i].user_email
                    &&& after[i].created_at == rows[i].created_at
                    &&& rows[i].id != id ==> after[i] == rows[i]
                    &&& stamped_in_order(rows[i]) && rows[i].created_at <= now
                        ==> stamped_in_order(after[i])
                }
        }),
{
    let after = updated_by(rows, id, new_url, now).0;
    if after != rows {
        let at = position_of(rows, id);
        let row = rewritten_view(rows[at], new_url.key, new_url.target, now);
        assert(after == rows.update(at, row));
        assert forall|i: int, j: int| 0 <= i < j < after.len() implies (#[trigger] after[i]).id != (
        #[trigger] after[j]).id && after[i].key != after[j].key by {
            assert(rows[i].id != rows[j].id && rows[i].key != rows[j].key);
        }
        assert forall|i: int| 0 <= i < rows.len() && rows[i].id != id implies #[trigger] after[i]
            == rows[i] by {}
    }
}

/// The page is determined: a table has one page at most for an owner, a
/// cursor and a limit.
pub proof fn lemma_page_is_unique(
    rows: Seq<RecordView>,
    owner: Seq<char>,
    after: Option<Seq<char>>,
    limit: nat,
    p: Seq<RecordView>,
    q: Seq<RecordView>,
)
    requires
        consistent(rows),
        is_page(rows, owner, after, limit, p),
        is_page(rows, owner, after, limit, q),
    ensures
        p == q,
{
    lemma_pages_agree(rows, owner, after, limit, p, q, p.len() as int);
    lemma_pages_agree(rows, owner, after, limit, q, p, q.len() as int);
    lemma_page_is_not_shorter(rows, owner, after, limit, p, q);
    lemma_page_is_not_shorter(rows, owner, after, limit, q, p);
    assert(p =~= q);
}

/// `item` is what callers see of a row of `owner`.
pub open spec fn shows_row_of(rows: Seq<RecordView>, owner: Seq<char>, item: RedirectView) -> bool {
    exists|row: RecordView|
        rows.contains(row) && row.user_email == owner && #[trigger] shown(row) == item
}

/// A listing holds at most `limit` redirects, all of them redirects of the
/// owner with keys strictly behind the cursor, in strictly ascending order
/// of their keys.
pub proof fn lemma_listing_is_ordered(
    rows: Seq<RecordView>,
    owner: Seq<char>,
    after: Option<Seq<char>>,
    limit: nat,
    out: Seq<RedirectView>,
)
    requires
        lists(rows, owner, after, limit, out),
    ensures
        out.len() <= limit,
        forall|i: int, j: int|
            #![trigger out[i], out[j]]
            0 <= i < j < out.len() ==> text_before(out[i].key, out[j].key),
        forall|i: int| 0 <= i < out.len() ==> behind(after, (#[trigger] out[i]).key),
        forall|i: int| 0 <= i < out.len() ==> shows_row_of(rows, owner, #[trigger] out[i]),
{
    let page = choose|page: Seq<RecordView>| #[trigger]
        is_page(rows, owner, after, limit, page) && out == crate::responses::all_shown(page);
    assert forall|i: int, j: int| 0 <= i < j < out.len() implies text_before(
        (#[trigger] out[i]).key,
        (#[trigger] out[j]).key,
    ) by {
        assert(text_before(page[i].key, page[j].key));
    }
    assert forall|i: int| 0 <= i < out.len() implies behind(after, (#[trigger] out[i]).key) by {
        assert(in_scope(rows, owner, after, page[i]));
    }
    assert forall|i: int| 0 <= i < out.len() implies shows_row_of(
        rows,
        owner,
        #[trigger] out[i],
    ) by {
        assert(in_scope(rows, owner, after, page[i]));
        assert(shown(page[i]) == out[i]);
    }
}

/// Paging on behind the last key of a full page continues the listing
/// without a gap or a repeat: the two pages, one after the other, are the
/// page of the two limits together.
pub proof fn lemma_pages_continue(
    rows: Seq<RecordView>,
    owner: Seq<char>,
    after: Option<Seq<char>>,
    first_limit: nat,
    first: Seq<RecordView>,
    second_limit: nat,
    second: Seq<RecordView>,
)
    requires
        is_page(rows, owner, after, first_limit, first),
        first.len() == first_limit,
        first_limit > 0,
        is_page(rows, owner, Some(first.last().key), second_limit, second),
    ensures
        is_page(rows, owner, after, first_limit + second_limit, first + second),
{
    let cursor = first.last().key;
    let both = first + second;
    assert(in_scope(rows, owner, after, first[first.len() - 1]));
    assert forall|i: int| 0 <= i < both.len() implies in_scope(
        rows,
        owner,
        after,
        #[trigger] both[i],
    ) by {
        if i < first.len() {
            assert(both[i] == first[i]);
        } else {
            assert(both[i] == second[i - first.len()]);
            assert(in_scope(rows, owner, Some(cursor), second[i - first.len()]));
            if let Some(start) = after {
                lemma_text_transitive(start, cursor, both[i].key);
            }
        }
    }
    assert forall|i: int, j: int| 0 <= i < j < both.len() implies text_before(
        (#[trigger] both[i]).key,
        (#[trigger] both[j]).key,
    ) by {
        if j < first.len() {
            assert(text_before(first[i].key, first[j].key));
        } else if i >= first.len() {
            assert(text_before(second[i - first.len()].key, second[j - first.len()].key));
        } else {
            assert(in_scope(rows, owner, Some(cursor), second[j - first.len()]));
            if i < first.len() - 1 {
                assert(text_before(first[i].key, first[first.len() - 1].key));
                lemma_text_transitive(first[i].key, cursor, both[j].key);
            }
        }
    }
    assert forall|row: RecordView| #[trigger] in_scope(rows, owner, after, row) implies both.contains(
        row,
    ) || (both.len() == first_limit + second_limit && (first_limit + second_limit > 0
        ==> text_before(both.last().key, row.key))) by {
        if first.contains(row) {
            let k = choose|k: int| 0 <= k < first.len() && first[k] == row;
            assert(both[k] == row);
        } else {
            assert(in_scope(rows, owner, Some(cursor), row));
            if second.contains(row) {
                let k = choose|k: int| 0 <= k < second.len() && second[k] == row;
                assert(both[first.len() + k] == row);
            } else if second.len() > 0 {
                assert(both.last() == second.last());
            } else {
                assert(both.last() == first.last());
            }
        }
    }
}

/// A page that is not full ends the listing: behind its last key there is
/// nothing to list.
pub proof fn lemma_short_page_is_last(
    rows: Seq<RecordView>,
    owner: Seq<char>,
    after: Option<Seq<char>>,
    limit: nat,
    page: Seq<RecordView>,
    next_limit: nat,
)
    requires
        is_page(rows, owner, after, limit, page),
        0 < page.len() < limit,
    ensures
        is_page(rows, owner, Some(page.last().key), next_limit, Seq::<RecordView>::empty()),
{
    let cursor = page.last().key;
    assert(in_scope(rows, owner, after, page[page.len() - 1]));
    assert forall|row: RecordView| !#[trigger] in_scope(rows, owner, Some(cursor), row) by {
        if in_scope(rows, owner, Some(cursor), row) {
            if let Some(start) = after {
                lemma_text_transitive(start, cursor, row.key);
            }
            assert(in_scope(rows, owner, after, row));
            let k = choose|k: int| 0 <= k < page.len() && page[k] == row;
            lemma_page_ascends(rows, owner, after, limit, page, k, page.len() - 1);
        }
    }
}

/// The page behind a cursor depends on the rows behind the cursor alone:
/// rows that come and go before it do not move the page.
pub proof fn lemma_page_looks_behind_cursor_only(
    rows: Seq<RecordView>,
    other_rows: Seq<RecordView>,
    owner: Seq<char>,
    after: Option<Seq<char>>,
    limit: nat,
    page: Seq<RecordView>,
)
    requires
        is_page(rows, owner, after, limit, page),
        forall|row: RecordView|
            in_scope(rows, owner, after, row) == #[trigger] in_scope(other_rows, owner, after, row),
    ensures
        is_page(other_rows, owner, after, limit, page),
{
    assert forall|i: int| 0 <= i < page.len() implies in_scope(
        other_rows,
        owner,
        after,
        #[trigger] page[i],
    ) by {
        assert(in_scope(rows, owner, after, page[i]));
    }
    assert forall|row: RecordView| #[trigger]
        in_scope(other_rows, owner, after, row) implies page.contains(row) || (page.len() == limit
        && (limit > 0 ==> text_before(page.last().key, row.key))) by {
        assert(in_scope(rows, owner, after, row));
    }
}

/// Two rows of a consistent table with the same key are the same row.
proof fn lemma_same_key_same_row(rows: Seq<RecordView>, a: RecordView, b: RecordView)
    requires
        consistent(rows),
        rows.contains(a),
        rows.contains(b),
        a.key == b.key,
    ensures
        a == b,
{
    let i = choose|i: int| 0 <= i < rows.len() && rows[i] == a;
    let j = choose|j: int| 0 <= j < rows.len() && rows[j] == b;
    if i < j {
        assert(rows[i].key != rows[j].key);
    } else if j < i {
        assert(rows[j].key != rows[i].key);
    }
}

/// The keys of a page ascend, so of two places the earlier has the key
/// that comes first or is the same.
proof fn lemma_page_ascends(
    rows: Seq<RecordView>,
    owner: Seq<char>,
    after: Option<Seq<char>>,
    limit: nat,
    p: Seq<RecordView>,
    i: int,
    j: int,
)
    requires
        is_page(rows, owner, after, limit, p),
        0 <= i <= j < p.len(),
    ensures
        !text_before(p[j].key, p[i].key),
{
    lemma_text_total(p[i].key, p[j].key);
    if i < j {
        assert(text_before(p[i].key, p[j].key));
    }
}

/// Two pages hold the same rows at the first `n` places that both have.
proof fn lemma_pages_agree(
    rows: Seq<RecordView>,
    owner: Seq<char>,
    after: Option<Seq<char>>,
    limit: nat,
    p: Seq<RecordView>,
    q: Seq<RecordView>,
    n: int,
)
    requires
        consistent(rows),
        is_page(rows, owner, after, limit, p),
        is_page(rows, owner, after, limit, q),
        0 <= n <= p.len(),
    ensures
        forall|i: int| 0 <= i < n && i < q.len() ==> p[i] == q[i],
    decreases n,
{
    if n > 0 {
        lemma_pages_agree(rows, owner, after, limit, p, q, n - 1);
        let i = n - 1;
        if i < q.len() {
            lemma_text_total(p[i].key, q[i].key);
            assert(in_scope(rows, owner, after, p[i]));
            assert(in_scope(rows, owner, after, q[i]));
            if text_before(p[i].key, q[i].key) {
                lemma_not_skipped(rows, owner, after, limit, p, q, i);
            } else if text_before(q[i].key, p[i].key) {
                lemma_pages_agree(rows, owner, after, limit, q, p, i);
                lemma_not_skipped(rows, owner, after, limit, q, p, i);
            } else {
                lemma_same_key_same_row(rows, p[i], q[i]);
            }
        }
    }
}

/// Where two pages agree below place `i`, the row of `p` at `i` does not
/// come before the row of `q` at `i`: `q` would have skipped a row in scope.
proof fn lemma_not_skipped(
    rows: Seq<RecordView>,
    owner: Seq<char>,
    after: Option<Seq<char>>,
    limit: nat,
    p: Seq<RecordView>,
    q: Seq<RecordView>,
    i: int,
)
    requires
        consistent(rows),
        is_page(rows, owner, after, limit, p),
        is_page(rows, owner, after, limit, q),
        0 <= i < p.len(),
        i < q.len(),
        forall|k: int| 0 <= k < i ==> p[k] == q[k],
    ensures
        !text_before(p[i].key, q[i].key),
{
    let row = p[i];
    assert(in_scope(rows, owner, after, row));
    if !text_before(p[i].key, q[i].key) {
    } else if q.contains(row) {
        let m = choose|m: int| 0 <= m < q.len() && q[m] == row;
        if m < i {
            assert(p[m] == q[m]);
            assert(text_before(p[m].key, p[i].key));
            lemma_text_total(p[m].key, p[i].key);
        } else {
            lemma_page_ascends(rows, owner, after, limit, q, i, m);
            lemma_text_total(p[i].key, q[i].key);
        }
    } else {
        assert(text_before(q.last().key, row.key));
        lemma_page_ascends(rows, owner, after, limit, q, i, q.len() - 1);
        lemma_text_transitive(q.last().key, row.key, q[i].key);
    }
}

/// Of two pages that agree where both have rows, the shorter is not short
/// of a row that the longer has.
proof fn lemma_page_is_not_shorter(
    rows: Seq<RecordView>,
    owner: Seq<char>,
    after: Option<Seq<char>>,
    limit: nat,
    p: Seq<RecordView>,
    q: Seq<RecordView>,
)
    requires
        consistent(rows),
        is_page(rows, owner, after, limit, p),
        is_page(rows, owner, after, limit, q),
        forall|i: int| 0 <= i < p.len() && i < q.len() ==> p[i] == q[i],
    ensures
        q.len() <= p.len(),
{
    if q.len() > p.len() {
        let row = q[p.len() as int];
        assert(in_scope(rows, owner, after, row));
        if p.contains(row) {
            let m = choose|m: int| 0 <= m < p.len() && p[m] == row;
            assert(q[m] == p[m]);
            assert(text_before(q[m].key, q[p.len() as int].key));
            lemma_text_total(q[m].key, row.key);
        }
    }
}

/// An introspection that finds the principal in the cache gives it without
/// asking the provider, whatever the provider would have said, and leaves
/// the cache as it is.
pub proof fn lemma_hit_skips_provider(
    cache: Map<Seq<char>, SlotView>,
    header: Seq<char>,
    answer: ProfileAnswerView,
    now: u64,
)
    requires
        cached(cache, token_key_of(header), now) is Some,
    ensures
        introspected(cache, header, answer, now) == (
            cache,
            IntrospectionView {
                outcome: Ok(cached(cache, token_key_of(header), now)->0),
                provider_called: false,
            },
        ),
{
}

/// An introspection that misses the cache asks the provider, once. Where
/// the provider names a principal, every introspection of the credential
/// from then until the cached token expires gives the same principal
/// without asking the provider, whatever the provider would say then.
pub proof fn lemma_miss_then_hit(
    cache: Map<Seq<char>, SlotView>,
    header: Seq<char>,
    answer: ProfileAnswerView,
    now: u64,
    later_answer: ProfileAnswerView,
    later: u64,
)
    requires
        cached(cache, token_key_of(header), now) is None,
        now <= later < deadline(now, TOKEN_TTL),
    ensures
        introspected(cache, header, answer, now).1.provider_called,
        introspected(cache, header, answer, now).1.outcome == profile_outcome(answer),
        profile_outcome(answer) is Ok ==> introspected(
            introspected(cache, header, answer, now).0,
            header,
            later_answer,
            later,
        ) == (
            introspected(cache, header, answer, now).0,
            IntrospectionView { outcome: profile_outcome(answer), provider_called: false },
        ),
        profile_outcome(answer) is Err ==> introspected(cache, header, answer, now).0 == cache,
{
}

/// A write to the cache never replaces a live text: what was read before
/// the write is read after it.
pub proof fn lemma_write_keeps_live_text(
    cache: Map<Seq<char>, SlotView>,
    key: Seq<char>,
    value: Seq<char>,
    seconds: u64,
    now: u64,
)
    requires
        cached(cache, key, now) is Some,
    ensures
        stored_if_absent(cache, key, value, seconds, now) == (cache, false),
{
}

/// Two introspections of one credential that both miss the cache before
/// either has written: both ask the provider, and where it names the same
/// principal to both, both give that principal. Of their two writes, in
/// whichever order they land, the first stands: while it lives the second
/// changes nothing, and after both the cache holds the principal under the
/// credential's key.
pub proof fn lemma_concurrent_misses_agree(
    cache: Map<Seq<char>, SlotView>,
    header: Seq<char>,
    email: Seq<char>,
    first_answer: ProfileAnswerView,
    first_now: u64,
    second_answer: ProfileAnswerView,
    second_now: u64,
)
    requires
        cached(cache, token_key_of(header), first_now) is None,
        cached(cache, token_key_of(header), second_now) is None,
        profile_outcome(first_answer) == Ok::<Seq<char>, AuthErrorView>(email),
        profile_outcome(second_answer) == Ok::<Seq<char>, AuthErrorView>(email),
    ensures
        introspected(cache, header, first_answer, first_now).1 == (IntrospectionView {
            outcome: Ok(email),
            provider_called: true,
        }),
        introspected(cache, header, second_answer, second_now).1 == (IntrospectionView {
            outcome: Ok(email),
            provider_called: true,
        }),
        ({
            let key = token_key_of(header);
            let one = stored_if_absent(cache, key, email, TOKEN_TTL, first_now);
            let both = stored_if_absent(one.0, key, email, TOKEN_TTL, second_now);
            &&& one.1
            &&& one.0 == introspected(cache, header, first_answer, first_now).0
            &&& second_now < deadline(first_now, TOKEN_TTL) ==> both == (one.0, false)
            &&& both.0.contains_key(key) && both.0[key].value == email
            &&& forall|other: Seq<char>| other != key ==> both.0.contains_key(other) == cache.contains_key(other)
                && (cache.contains_key(other) ==> both.0[other] == cache[other])
        }),
{
}

} // verus!
