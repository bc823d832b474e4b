use vstd::prelude::*;

use crate::auth::{
    has_token, lemma_session_remove_effects, sessions_wf, token_index,
};
use crate::catalog::tag_referenced;
use crate::records::{Item, Session};
use crate::table::{
    get_by_id, has_id, has_name, lemma_found_index, lemma_push_fresh_wf, rows_wf, Resource,
};

verus! {

/// Law: issuance never repeats a token. A session issued on some state
/// carries a token no live session held, so a second issuance, on the
/// state the first produced, carries a different token. This is what
/// `authenticate` establishes for each `Ok` it returns.
pub proof fn lemma_issued_tokens_distinct(sessions: Seq<Session>, first: Session, second: Session)
    requires
        !has_token(sessions, first.token@),
        !has_token(sessions.push(first), second.token@),
    ensures
        first.token@ != second.token@,
{
    let mid = sessions.push(first);
    assert(mid[sessions.len() as int] == first);
    assert(has_token(mid, first.token@));
}

/// Law: a revoked token is dead. Removing the session a token resolves
/// to leaves no live session holding that token, so, by their
/// contracts, `validate` answers `Unauthorized` for it afterwards and a
/// second `revoke` fails the same way without mutating anything.
pub proof fn lemma_revoked_token_rejected(sessions: Seq<Session>, token: Seq<char>)
    requires
        sessions_wf(sessions),
        has_token(sessions, token),
    ensures
        !has_token(sessions.remove(token_index(sessions, token)), token),
{
    let i = token_index(sessions, token);
    assert(0 <= i < sessions.len() && sessions[i].token@ == token);
    lemma_session_remove_effects(sessions, i);
}

/// Law: identical names conflict. After a first row is created under a
/// fresh id, its name is stored, so a second creation under the same
/// name is answered `Conflict` by the creation contract; and the first
/// row is still retrievable, unchanged, under its assigned id.
pub proof fn lemma_duplicate_name_conflict<T: Resource>(
    rows: Seq<T>,
    first: T,
    id: u64,
    second: T,
)
    requires
        rows_wf(rows),
        !has_name(rows, first.spec_name()),
        id != 0,
        !has_id(rows, id),
        second.spec_name() == first.spec_name(),
    ensures
        has_name(rows.push(first.spec_with_id(id)), second.spec_name()),
        has_id(rows.push(first.spec_with_id(id)), id),
        get_by_id(rows.push(first.spec_with_id(id)), id) == first.spec_with_id(id),
{
    first.lemma_with_id(id);
    let row = first.spec_with_id(id);
    let grown = rows.push(row);
    assert(grown[rows.len() as int] == row);
    assert(has_name(grown, second.spec_name()));
    lemma_push_fresh_wf(rows, row);
    lemma_found_index(grown, rows.len() as int);
}

/// Law: removing the one item that carried a tag frees the tag. When no
/// other item references it, the state after the removal references it
/// nowhere, so deleting the tag then succeeds by the deletion contract.
pub proof fn lemma_tag_free_after_item_removed(items: Seq<Item>, i: int, tag_id: u64)
    requires
        0 <= i < items.len(),
        forall|j: int|
            0 <= j < items.len() && j != i ==> !(#[trigger] items[j].tags@.contains(tag_id)),
    ensures
        !tag_referenced(items.remove(i), tag_id),
{
    let after = items.remove(i);
    items.remove_ensures(i);
    assert forall|j: int| 0 <= j < after.len() implies !(#[trigger] after[j].tags@.contains(
        tag_id,
    )) by {
        let j0 = if j < i {
            j
        } else {
            j + 1
        };
        assert(after[j] == items[j0]);
        assert(j0 != i);
    }
}

} // verus!
