//! The story that passages belong to, which every change to them refreshes.

use vstd::prelude::*;

use super::model::{Book, BookView};
use super::repository;
use crate::ledger::repository as ledger;
use crate::rows;
use crate::store::{Store, StoreView};

verus! {

/// The tables after a story was changed at a time.
pub open spec fn story_refreshed(store: StoreView, story_id: Seq<char>, now: Seq<char>) -> StoreView {
    StoreView { stories: ledger::touched(store.stories, story_id, now), ..store }
}

/// The tables after the story of a branch was changed at a time.
pub open spec fn refreshed(store: StoreView, book: BookView, branch_id: Seq<char>, now: Seq<char>) -> StoreView {
    match repository::story_of_branch(book, branch_id) {
        Ok(story_id) => story_refreshed(store, story_id, now),
        Err(_) => store,
    }
}

/// The tables after the story of a passage was changed at a time.
pub open spec fn refreshed_by_passage(store: StoreView, book: BookView, passage_id: Seq<char>, now: Seq<char>) -> StoreView {
    match rows::first_where(book.passages, repository::passage_is(passage_id)) {
        Some(passage) => refreshed(store, book, passage.branch_id, now),
        None => store,
    }
}

/// Notes that the story of a branch was changed at a time.
pub fn refresh(store: &mut Store, book: &Book, branch_id: &str, now: &str)
    ensures
        final(store)@ == refreshed(old(store)@, book@, branch_id@, now@),
{
    if let Ok(story_id) = repository::get_story_id_for_branch(book, branch_id) {
        ledger::touch_story(store, story_id.as_str(), now);
    }
}

/// Notes that the story of a passage was changed at a time.
pub fn refresh_by_passage(store: &mut Store, book: &Book, passage_id: &str, now: &str)
    ensures
        final(store)@ == refreshed_by_passage(old(store)@, book@, passage_id@, now@),
{
    if let Ok(passage) = repository::get_passage(book, passage_id) {
        refresh(store, book, passage.branch_id.as_str(), now);
    }
}

/// A change to a passage is seen in the story that it belongs to, and in no other.
pub proof fn law_change_refreshes_its_story(store: StoreView, book: BookView, branch_id: Seq<char>, now: Seq<char>, i: int)
    requires
        0 <= i < store.stories.len(),
        repository::story_of_branch(book, branch_id) is Ok,
    ensures
        ({
            let after = refreshed(store, book, branch_id, now).stories;
            if store.stories[i].id == repository::story_of_branch(book, branch_id)->Ok_0 {
                after[i].updated_at == now
            } else {
                after[i] == store.stories[i]
            }
        }),
{
}

} // verus!
