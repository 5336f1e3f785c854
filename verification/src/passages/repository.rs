//! The passages of a branch.

use vstd::prelude::*;

use super::model::{Book, BookView, Branch, BranchView, Passage, PassageView};
use crate::error::{AppError, AppResult, ErrorView};
use crate::sequence::Numbered;
use crate::{rows, sequence, text};

verus! {

/// The condition of belonging to a branch.
pub open spec fn of_branch(branch_id: Seq<char>) -> spec_fn(PassageView) -> bool {
    |p: PassageView| p.branch_id == branch_id
}

/// The condition of having an identifier.
pub open spec fn passage_is(id: Seq<char>) -> spec_fn(PassageView) -> bool {
    |p: PassageView| p.id == id
}

/// The condition of having another identifier.
pub open spec fn passage_is_not(id: Seq<char>) -> spec_fn(PassageView) -> bool {
    |p: PassageView| p.id != id
}

/// The condition of being a branch.
pub open spec fn branch_is(id: Seq<char>) -> spec_fn(BranchView) -> bool {
    |b: BranchView| b.id == id
}

/// The highest sequence number of a branch.
pub open spec fn highest_seq(passages: Seq<PassageView>, branch_id: Seq<char>) -> Option<int>
    decreases passages.len(),
{
    if passages.len() == 0 {
        None
    } else {
        let before = highest_seq(passages.drop_last(), branch_id);
        let last = passages.last();
        if last.branch_id == branch_id && (before is None || last.seq > before->0) {
            Some(last.seq as int)
        } else {
            before
        }
    }
}

/// The sequence number that the next passage of a branch gets.
pub open spec fn following_seq(passages: Seq<PassageView>, branch_id: Seq<char>) -> int {
    match highest_seq(passages, branch_id) {
        Some(seq) => seq + 1,
        None => 0,
    }
}

fn next_seq(passages: &Vec<Passage>, branch_id: &str) -> (r: Option<i64>)
    ensures
        match r {
            Some(seq) => seq == following_seq(passages.deep_view(), branch_id@),
            None => following_seq(passages.deep_view(), branch_id@) > i64::MAX,
        },
{
    let ghost all = passages.deep_view();
    let mut highest: Option<i64> = None;
    let mut i: usize = 0;
    while i < passages.len()
        invariant
            0 <= i <= passages@.len(),
            all == passages.deep_view(),
            highest_seq(all.take(i as int), branch_id@) == (match highest {
                Some(seq) => Some(seq as int),
                None => None,
            }),
        decreases passages@.len() - i,
    {
        let passage = &passages[i];
        proof {
            assert(all[i as int] == passage@);
            assert(all.take(i + 1).drop_last() =~= all.take(i as int));
            assert(all.take(i + 1).last() == all[i as int]);
        }
        if text::same_text(passage.branch_id.as_str(), branch_id) {
            let higher = match highest {
                Some(seq) => passage.seq > seq,
                None => true,
            };
            if higher {
                highest = Some(passage.seq);
            }
        }
        i += 1;
    }
    proof {
        rows::lemma_take_all(all);
    }
    match highest {
        Some(seq) => if seq == i64::MAX {
            None
        } else {
            Some(seq + 1)
        },
        None => Some(0),
    }
}

/// Where a passage stands.
pub fn passage_position(passages: &Vec<Passage>, id: &str) -> (r: Option<usize>)
    ensures
        match r {
            Some(i) => {
                &&& i < passages@.len()
                &&& rows::first_where(passages.deep_view(), passage_is(id@)) == Some(passages@[i as int]@)
            },
            None => rows::first_where(passages.deep_view(), passage_is(id@)) is None,
        },
{
    let ghost p = passage_is(id@);
    let meant = |row: &Passage| -> (b: bool)
        ensures
            b == p(row.deep_view()),
    {
        text::same_text(row.id.as_str(), id)
    };
    rows::position(passages, meant, Ghost(p))
}

/// A passage.
pub fn get_passage(book: &Book, passage_id: &str) -> (r: AppResult<Passage>)
    ensures
        match rows::first_where(book@.passages, passage_is(passage_id@)) {
            Some(passage) => r is Ok && r->Ok_0@ == passage,
            None => r is Err && r->Err_0@ == ErrorView::NotFound("passage "@ + passage_id@ + " not found"@),
        },
{
    match passage_position(&book.passages, passage_id) {
        Some(i) => Ok(book.passages[i].copy()),
        None => Err(AppError::NotFound(text::concat3("passage ", passage_id, " not found"))),
    }
}

/// The story that a branch belongs to.
pub open spec fn story_of_branch(book: BookView, branch_id: Seq<char>) -> Result<Seq<char>, ErrorView> {
    match rows::first_where(book.branches, branch_is(branch_id)) {
        Some(branch) => Ok(branch.story_id),
        None => Err(ErrorView::NotFound("branch "@ + branch_id + " not found"@)),
    }
}

/// The story that a branch belongs to.
pub fn get_story_id_for_branch(book: &Book, branch_id: &str) -> (r: AppResult<String>)
    ensures
        match story_of_branch(book@, branch_id@) {
            Ok(story_id) => r is Ok && r->Ok_0@ == story_id,
            Err(e) => r is Err && r->Err_0@ == e,
        },
{
    let ghost p = branch_is(branch_id@);
    let meant = |row: &Branch| -> (b: bool)
        ensures
            b == p(row.deep_view()),
    {
        text::same_text(row.id.as_str(), branch_id)
    };
    match rows::position(&book.branches, meant, Ghost(p)) {
        Some(i) => Ok(book.branches[i].story_id.clone()),
        None => Err(AppError::NotFound(text::concat3("branch ", branch_id, " not found"))),
    }
}

impl Numbered for Passage {
    open spec fn number_of(row: PassageView) -> int {
        row.seq as int
    }

    fn number(&self) -> (r: i64) {
        self.seq
    }
}

/// The sequence number by which passages are ordered.
pub open spec fn passage_number() -> spec_fn(PassageView) -> int {
    sequence::number_fn::<Passage>()
}

/// The passages of a branch in the order of their sequence numbers.
pub open spec fn passages_of(book: BookView, branch_id: Seq<char>) -> Seq<PassageView> {
    sequence::in_sequence(book.passages.filter(of_branch(branch_id)), passage_number())
}

/// The last passage of a branch: the one with the highest sequence number.
pub open spec fn last_passage(book: BookView, branch_id: Seq<char>) -> Option<PassageView> {
    let own = passages_of(book, branch_id);
    if own.len() == 0 {
        None
    } else {
        Some(own.last())
    }
}

/// The last passage of a branch.
pub fn get_last_passage(book: &Book, branch_id: &str) -> (r: Option<Passage>)
    ensures
        r.deep_view() == last_passage(book@, branch_id@),
{
    let mut own = list_passages(book, branch_id);
    let ghost all = own.deep_view();
    assert(all.len() == own@.len());
    match own.pop() {
        Some(last) => {
            assert(all.last() == last@);
            Some(last)
        },
        None => None,
    }
}

/// The passages of a branch in the order of their sequence numbers.
pub fn list_passages(book: &Book, branch_id: &str) -> (r: Vec<Passage>)
    ensures
        r.deep_view() == passages_of(book@, branch_id@),
{
    let ghost p = of_branch(branch_id@);
    let keep = |passage: &Passage| -> (b: bool)
        ensures
            b == p(passage@),
    {
        text::same_text(passage.branch_id.as_str(), branch_id)
    };
    sequence::line_up(rows::kept_rows(&book.passages, keep, Ghost(p)))
}

/// Why a branch cannot get a passage with an identifier.
pub open spec fn passage_refusal(book: BookView, id: Seq<char>, branch_id: Seq<char>) -> Option<ErrorView> {
    if following_seq(book.passages, branch_id) > i64::MAX {
        Some(ErrorView::Db("passage sequence is exhausted"@))
    } else if rows::first_where(book.passages, passage_is(id)) is Some {
        Some(ErrorView::Db("passage identifier is already in use"@))
    } else {
        None
    }
}

/// The next passage of a branch.
pub open spec fn next_passage(
    book: BookView,
    id: Seq<char>,
    now: Seq<char>,
    branch_id: Seq<char>,
    role: Seq<char>,
    input_mode: Seq<char>,
    content: Seq<char>,
    thoughts: Option<Seq<char>>,
) -> PassageView {
    PassageView {
        id,
        branch_id,
        seq: following_seq(book.passages, branch_id) as i64,
        role,
        input_mode,
        content,
        thoughts,
        created_at: now,
        edited_at: None,
    }
}

/// The book after a passage was added, and the passage.
pub open spec fn inserted(
    book: BookView,
    id: Seq<char>,
    now: Seq<char>,
    branch_id: Seq<char>,
    role: Seq<char>,
    input_mode: Seq<char>,
    content: Seq<char>,
    thoughts: Option<Seq<char>>,
) -> Result<(BookView, PassageView), ErrorView> {
    match passage_refusal(book, id, branch_id) {
        Some(e) => Err(e),
        None => {
            let passage = next_passage(book, id, now, branch_id, role, input_mode, content, thoughts);
            Ok((BookView { passages: book.passages.push(passage), ..book }, passage))
        },
    }
}

/// Adds a passage behind those of its branch.
pub fn insert_passage_at(
    book: &mut Book,
    id: &str,
    now: &str,
    branch_id: &str,
    role: &str,
    input_mode: &str,
    content: &str,
    thoughts: Option<&str>,
) -> (r: AppResult<Passage>)
    ensures
        match inserted(
            old(book)@,
            id@,
            now@,
            branch_id@,
            role@,
            input_mode@,
            content@,
            thoughts.deep_view(),
        ) {
            Ok(done) => r is Ok && r->Ok_0@ == done.1 && final(book)@ == done.0,
            Err(e) => r is Err && r->Err_0@ == e && final(book)@ == old(book)@,
        },
{
    let seq = match next_seq(&book.passages, branch_id) {
        Some(seq) => seq,
        None => {
            return Err(AppError::Db("passage sequence is exhausted".to_string()));
        },
    };
    if passage_position(&book.passages, id).is_some() {
        return Err(AppError::Db("passage identifier is already in use".to_string()));
    }
    let passage = Passage {
        id: id.to_string(),
        branch_id: branch_id.to_string(),
        seq,
        role: role.to_string(),
        input_mode: input_mode.to_string(),
        content: content.to_string(),
        thoughts: text::owned_option(thoughts),
        created_at: now.to_string(),
        edited_at: None,
    };
    let copy = passage.copy();
    let ghost before = book.passages;
    let ghost value = copy;
    book.passages.push(copy);
    proof {
        rows::lemma_deep_push(before, book.passages, value);
    }
    Ok(passage)
}

/// The book without a passage.
pub open spec fn without_passage(book: BookView, id: Seq<char>) -> BookView {
    BookView { passages: book.passages.filter(passage_is_not(id)), ..book }
}

/// Removes a passage.
pub fn delete_passage(book: &mut Book, id: &str)
    ensures
        final(book)@ == without_passage(old(book)@, id@),
{
    let ghost p = passage_is_not(id@);
    let keep = |passage: &Passage| -> (b: bool)
        ensures
            b == p(passage@),
    {
        !text::same_text(passage.id.as_str(), id)
    };
    let left = rows::kept_rows(&book.passages, keep, Ghost(p));
    book.passages = left;
}

pub(crate) proof fn lemma_highest(passages: Seq<PassageView>, branch_id: Seq<char>, i: int)
    requires
        0 <= i < passages.len(),
        passages[i].branch_id == branch_id,
    ensures
        highest_seq(passages, branch_id) is Some,
        passages[i].seq <= highest_seq(passages, branch_id)->0,
    decreases passages.len(),
{
    if i < passages.len() - 1 {
        assert(passages.drop_last()[i] == passages[i]);
        lemma_highest(passages.drop_last(), branch_id, i);
    }
}

/// A passage that is added comes behind all others of its branch.
pub proof fn law_added_passage_is_last(
    book: BookView,
    id: Seq<char>,
    now: Seq<char>,
    branch_id: Seq<char>,
    role: Seq<char>,
    input_mode: Seq<char>,
    content: Seq<char>,
    thoughts: Option<Seq<char>>,
)
    ensures
        inserted(book, id, now, branch_id, role, input_mode, content, thoughts) matches Ok(done) ==> {
            &&& passages_of(done.0, branch_id) == passages_of(book, branch_id).push(done.1)
            &&& last_passage(done.0, branch_id) == Some(done.1)
        },
{
    if let Ok(done) = inserted(book, id, now, branch_id, role, input_mode, content, thoughts) {
        let p = of_branch(branch_id);
        let own = book.passages.filter(p);
        reveal(Seq::filter);
        assert(done.0.passages.drop_last() =~= book.passages);
        assert forall|i: int| 0 <= i < own.len() implies passage_number()(#[trigger] own[i]) <= passage_number()(
            done.1,
        ) by {
            assert(own.contains(own[i]));
            rows::lemma_filter_member(book.passages, p, own[i]);
            let k = choose|k: int| 0 <= k < book.passages.len() && book.passages[k] == own[i];
            lemma_highest(book.passages, branch_id, k);
        }
        sequence::lemma_push_highest(own, passage_number(), done.1);
    }
}

} // verus!
