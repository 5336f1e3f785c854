//! Stories that are told in passages: each begins with a branch of its own.

use vstd::prelude::*;

use super::model::{Book, BookView, Branch, BranchView};
use super::repository;
use crate::error::{AppError, AppResult, ErrorView};
use crate::store::{Store, StoreView, StoryRow, StoryRowView};
use crate::{rows, sequence, stamp, stories, text};

verus! {

/// The message where an identifier is taken.
pub const BRANCH_TAKEN: &'static str = "branch identifier is already in use";

/// A story with the branch that it is told in.
#[derive(Debug, PartialEq)]
pub struct BranchedStory {
    pub story: StoryRow,
    pub default_branch_id: String,
}

/// The tables and the book after a story was begun, and the story.
pub open spec fn begun(
    store: StoreView,
    book: BookView,
    story_id: Seq<char>,
    branch_id: Seq<char>,
    now: Seq<char>,
    title: Seq<char>,
) -> Result<(StoreView, BookView, StoryRowView), ErrorView> {
    if text::blank(title) {
        Err(ErrorView::Invalid("title must not be empty"@))
    } else if rows::first_where(store.stories, stories::story_is(story_id)) is Some {
        Err(ErrorView::Db("story identifier is already in use"@))
    } else if repository::story_of_branch(book, branch_id) is Ok {
        Err(ErrorView::Db(BRANCH_TAKEN@))
    } else {
        let story = stories::fresh_story(story_id, title, now);
        Ok(
            (
                StoreView { stories: store.stories.push(story), ..store },
                BookView { branches: book.branches.push(BranchView { id: branch_id, story_id }), ..book },
                story,
            ),
        )
    }
}

/// Begins a story with a branch, both under given identifiers and at a given time.
pub fn create_story_at(store: &mut Store, book: &mut Book, story_id: &str, branch_id: &str, now: &str, title: &str) -> (r: AppResult<
    BranchedStory,
>)
    ensures
        match begun(old(store)@, old(book)@, story_id@, branch_id@, now@, title@) {
            Ok(done) => {
                &&& r is Ok
                &&& r->Ok_0.story@ == done.2
                &&& r->Ok_0.default_branch_id@ == branch_id@
                &&& final(store)@ == done.0
                &&& final(book)@ == done.1
            },
            Err(e) => {
                &&& r is Err
                &&& r->Err_0@ == e
                &&& final(store)@ == old(store)@
                &&& final(book)@ == old(book)@
            },
        },
{
    if text::is_blank(title) {
        return Err(AppError::Invalid("title must not be empty".to_string()));
    }
    if stories::story_position(&store.stories, story_id).is_some() {
        return Err(AppError::Db("story identifier is already in use".to_string()));
    }
    if repository::get_story_id_for_branch(book, branch_id).is_ok() {
        return Err(AppError::Db(BRANCH_TAKEN.to_string()));
    }
    let story = match stories::create_story_at(store, story_id, now, title) {
        Ok(story) => story,
        Err(e) => {
            return Err(e);
        },
    };
    let branch = Branch { id: branch_id.to_string(), story_id: story_id.to_string() };
    let ghost before = book.branches;
    let ghost added = branch;
    book.branches.push(branch);
    proof {
        rows::lemma_deep_push(before, book.branches, added);
    }
    Ok(BranchedStory { story, default_branch_id: branch_id.to_string() })
}

/// Begins a story with a branch at the present time.
pub fn create_story(store: &mut Store, book: &mut Book, title: &str) -> (r: AppResult<BranchedStory>)
    ensures
        exists|story_id: Seq<char>, branch_id: Seq<char>, now: Seq<char>|
            stamp::fresh_like(story_id) && stamp::fresh_like(branch_id) && match #[trigger] begun(old(store)@, old(book)@, story_id, branch_id, now, title@) {
                Ok(done) => {
                    &&& r is Ok
                    &&& r->Ok_0.story@ == done.2
                    &&& r->Ok_0.default_branch_id@ == branch_id
                    &&& final(store)@ == done.0
                    &&& final(book)@ == done.1
                },
                Err(e) => {
                    &&& r is Err
                    &&& r->Err_0@ == e
                    &&& final(store)@ == old(store)@
                    &&& final(book)@ == old(book)@
                },
            },
{
    let story_id = stamp::fresh_id();
    let branch_id = stamp::fresh_id();
    let now = stamp::now();
    create_story_at(store, book, story_id.as_str(), branch_id.as_str(), now.as_str(), title)
}

/// A story that was begun is there with a branch of its own, in which nothing is told yet.
pub proof fn law_begun_story_has_its_branch(
    store: StoreView,
    book: BookView,
    story_id: Seq<char>,
    branch_id: Seq<char>,
    now: Seq<char>,
    title: Seq<char>,
)
    requires
        forall|i: int| 0 <= i < book.passages.len() ==> (#[trigger] book.passages[i]).branch_id != branch_id,
    ensures
        begun(store, book, story_id, branch_id, now, title) matches Ok(done) ==> {
            &&& rows::first_where(done.0.stories, stories::story_is(story_id)) == Some(done.2)
            &&& repository::story_of_branch(done.1, branch_id) == Ok::<Seq<char>, ErrorView>(story_id)
            &&& repository::last_passage(done.1, branch_id) is None
        },
{
    if let Ok(done) = begun(store, book, story_id, branch_id, now, title) {
        let p = stories::story_is(story_id);
        let q = repository::branch_is(branch_id);
        rows::lemma_first_where(store.stories, p);
        rows::lemma_first_where_hit(done.0.stories, p, store.stories.len() as int);
        rows::lemma_first_where(book.branches, q);
        rows::lemma_first_where_hit(done.1.branches, q, book.branches.len() as int);
        let own = book.passages.filter(repository::of_branch(branch_id));
        let listed = repository::passages_of(done.1, branch_id);
        if listed.len() > 0 {
            let x = listed[0];
            assert(listed.contains(x));
            sequence::lemma_member(own, repository::passage_number(), x);
            rows::lemma_filter_member(book.passages, repository::of_branch(branch_id), x);
        }
    }
}

} // verus!
