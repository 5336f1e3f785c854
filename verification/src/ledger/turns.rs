//! Turns: what one submission and its answer added to the ledger.

use vstd::prelude::*;

use super::model::{TurnSummary, TurnSummaryView};
use super::repository;
use crate::error::{AppError, AppResult, ErrorView};
use crate::store::{Store, StoreView};
use crate::rows::Copied;
use crate::sequence::Numbered;
use crate::{rows, sequence, stamp, text};

verus! {

/// The status of a turn whose answer was written.
pub const COMPLETE: &'static str = "complete";

/// A turn of a story.
#[derive(Debug, PartialEq)]
pub struct Turn {
    pub id: String,
    pub story_id: String,
    pub seq: i64,
    pub status: String,
    pub created_at: String,
}

/// What a `Turn` stands for.
#[verifier::ext_equal]
pub struct TurnView {
    pub id: Seq<char>,
    pub story_id: Seq<char>,
    pub seq: i64,
    pub status: Seq<char>,
    pub created_at: Seq<char>,
}

impl View for Turn {
    type V = TurnView;

    open spec fn view(&self) -> TurnView {
        TurnView {
            id: self.id@,
            story_id: self.story_id@,
            seq: self.seq,
            status: self.status@,
            created_at: self.created_at@,
        }
    }
}

impl DeepView for Turn {
    type V = TurnView;

    open spec fn deep_view(&self) -> TurnView {
        self@
    }
}

impl Turn {
    /// The same row.
    pub fn copy(&self) -> (r: Turn)
        ensures
            r@ == self@,
    {
        Turn {
            id: self.id.clone(),
            story_id: self.story_id.clone(),
            seq: self.seq,
            status: self.status.clone(),
            created_at: self.created_at.clone(),
        }
    }
}

/// The highest sequence number of a story's turns.
pub open spec fn highest_turn(turns: Seq<TurnView>, story_id: Seq<char>) -> Option<int>
    decreases turns.len(),
{
    if turns.len() == 0 {
        None
    } else {
        let rest = highest_turn(turns.drop_last(), story_id);
        let last = turns.last();
        if last.story_id != story_id {
            rest
        } else {
            match rest {
                Some(seq) => if last.seq > seq {
                    Some(last.seq as int)
                } else {
                    Some(seq)
                },
                None => Some(last.seq as int),
            }
        }
    }
}

/// The sequence number of the next turn of a story.
pub open spec fn following_turn(turns: Seq<TurnView>, story_id: Seq<char>) -> int {
    match highest_turn(turns, story_id) {
        Some(seq) => seq + 1,
        None => 0,
    }
}

/// A new turn of a story.
pub open spec fn opened_turn(turns: Seq<TurnView>, id: Seq<char>, now: Seq<char>, story_id: Seq<char>) -> TurnView {
    TurnView {
        id,
        story_id,
        seq: following_turn(turns, story_id) as i64,
        status: COMPLETE@,
        created_at: now,
    }
}

/// Whether there is a turn with an identifier.
pub open spec fn holds_turn(turns: Seq<TurnView>, id: Seq<char>) -> bool {
    rows::any_where(turns, |t: TurnView| t.id == id)
}

fn next_turn(turns: &Vec<Turn>, story_id: &str) -> (r: Option<i64>)
    ensures
        match r {
            Some(seq) => seq == following_turn(turns.deep_view(), story_id@),
            None => following_turn(turns.deep_view(), story_id@) > i64::MAX,
        },
{
    let ghost all = turns.deep_view();
    let mut highest: Option<i64> = None;
    let mut i: usize = 0;
    while i < turns.len()
        invariant
            0 <= i <= turns@.len(),
            all == turns.deep_view(),
            highest_turn(all.take(i as int), story_id@) == (match highest {
                Some(seq) => Some(seq as int),
                None => None,
            }),
        decreases turns@.len() - i,
    {
        proof {
            assert(all.take(i + 1).drop_last() =~= all.take(i as int));
            assert(all.take(i + 1).last() == turns@[i as int]@);
        }
        if text::same_text(turns[i].story_id.as_str(), story_id) {
            let seq: i64 = turns[i].seq;
            highest = match highest {
                Some(known) => if seq > known {
                    Some(seq)
                } else {
                    Some(known)
                },
                None => Some(seq),
            };
        }
        i += 1;
    }
    proof {
        rows::lemma_take_all(all);
    }
    match highest {
        Some(seq) => if seq == i64::MAX {
            None
        } else {
            Some(seq + 1)
        },
        None => Some(0),
    }
}

/// Where the turn with an identifier stands.
fn turn_position(turns: &Vec<Turn>, id: &str) -> (r: Option<usize>)
    ensures
        match r {
            Some(i) => {
                &&& i < turns@.len()
                &&& rows::first_where(turns.deep_view(), |t: TurnView| t.id == id@) == Some(turns@[i as int]@)
                &&& holds_turn(turns.deep_view(), id@)
            },
            None => {
                &&& rows::first_where(turns.deep_view(), |t: TurnView| t.id == id@) is None
                &&& !holds_turn(turns.deep_view(), id@)
            },
        },
{
    let ghost p = |t: TurnView| t.id == id@;
    let meant = |row: &Turn| -> (b: bool)
        ensures
            b == p(row.deep_view()),
    {
        text::same_text(row.id.as_str(), id)
    };
    rows::position(turns, meant, Ghost(p))
}

/// Adds a turn with a given identifier at a given time.
pub fn create_turn_at(store: &mut Store, id: &str, now: &str, story_id: &str) -> (r: AppResult<String>)
    ensures
        if following_turn(old(store)@.turns, story_id@) > i64::MAX {
            r is Err && r->Err_0@ == ErrorView::Db("turn sequence is exhausted"@) && final(store)@
                == old(store)@
        } else if holds_turn(old(store)@.turns, id@) {
            r is Err && r->Err_0@ == ErrorView::Db("turn identifier is already in use"@) && final(store)@ == old(store)@
        } else {
            r is Ok && r->Ok_0@ == id@ && final(store)@ == (StoreView {
                turns: old(store)@.turns.push(opened_turn(old(store)@.turns, id@, now@, story_id@)),
                ..old(store)@
            })
        },
{
    let seq: i64 = match next_turn(&store.turns, story_id) {
        Some(seq) => seq,
        None => {
            return Err(AppError::Db("turn sequence is exhausted".to_string()));
        },
    };
    if turn_position(&store.turns, id).is_some() {
        return Err(AppError::Db("turn identifier is already in use".to_string()));
    }
    let turn = Turn {
        id: id.to_string(),
        story_id: story_id.to_string(),
        seq,
        status: COMPLETE.to_string(),
        created_at: now.to_string(),
    };
    let ghost before = store.turns;
    let ghost value = turn;
    store.turns.push(turn);
    proof {
        rows::lemma_deep_push(before, store.turns, value);
    }
    Ok(id.to_string())
}

/// Adds a turn behind the others of its story, with a new identifier, at the present time.
pub fn create_turn(store: &mut Store, story_id: &str) -> (r: AppResult<String>)
    ensures
        match r {
            Ok(id) => {
                &&& following_turn(old(store)@.turns, story_id@) <= i64::MAX
                &&& stamp::fresh_like(id@)
                &&& !holds_turn(old(store)@.turns, id@)
                &&& final(store)@.turns.len() == old(store)@.turns.len() + 1
                &&& final(store)@.turns.last() == opened_turn(
                    old(store)@.turns,
                    id@,
                    final(store)@.turns.last().created_at,
                    story_id@,
                )
                &&& final(store)@ == (StoreView {
                    turns: old(store)@.turns.push(final(store)@.turns.last()),
                    ..old(store)@
                })
            },
            Err(e) => {
                &&& final(store)@ == old(store)@
                &&& if following_turn(old(store)@.turns, story_id@) > i64::MAX {
                    e@ == ErrorView::Db("turn sequence is exhausted"@)
                } else {
                    &&& e@ == ErrorView::Db("turn identifier is already in use"@)
                    &&& exists|id: Seq<char>| stamp::fresh_like(id) && #[trigger] holds_turn(old(store)@.turns, id)
                }
            },
        },
{
    let id = stamp::fresh_id();
    let now = stamp::now();
    create_turn_at(store, id.as_str(), now.as_str(), story_id)
}

/// The condition of belonging to a story.
pub open spec fn of_story(story_id: Seq<char>) -> spec_fn(TurnView) -> bool {
    |t: TurnView| t.story_id == story_id
}

impl Numbered for Turn {
    open spec fn number_of(row: TurnView) -> int {
        row.seq as int
    }

    fn number(&self) -> (r: i64) {
        self.seq
    }
}

/// The turns of a story in the order of their sequence numbers.
pub open spec fn turns_of(turns: Seq<TurnView>, story_id: Seq<char>) -> Seq<TurnView> {
    sequence::in_sequence(turns.filter(of_story(story_id)), sequence::number_fn::<Turn>())
}

fn list_turns(store: &Store, story_id: &str) -> (r: Vec<Turn>)
    ensures
        r.deep_view() == turns_of(store@.turns, story_id@),
{
    let ghost p = of_story(story_id@);
    let keep = |turn: &Turn| -> (b: bool)
        ensures
            b == p(turn@),
    {
        text::same_text(turn.story_id.as_str(), story_id)
    };
    sequence::line_up(rows::kept_rows(&store.turns, keep, Ghost(p)))
}

/// The last turn of a story: the one with the highest sequence number.
pub open spec fn last_turn_of(turns: Seq<TurnView>, story_id: Seq<char>) -> Option<TurnView> {
    let own = turns_of(turns, story_id);
    if own.len() == 0 {
        None
    } else {
        Some(own.last())
    }
}

/// The last turn of a story.
pub fn last_turn(store: &Store, story_id: &str) -> (r: Option<Turn>)
    ensures
        r.deep_view() == last_turn_of(store@.turns, story_id@),
{
    let mut own = list_turns(store, story_id);
    let ghost all = own.deep_view();
    assert(all.len() == own@.len());
    match own.pop() {
        Some(last) => {
            assert(all.last() == last@);
            Some(last)
        },
        None => None,
    }
}

proof fn lemma_highest(turns: Seq<TurnView>, story_id: Seq<char>, i: int)
    requires
        0 <= i < turns.len(),
        turns[i].story_id == story_id,
    ensures
        highest_turn(turns, story_id) is Some,
        turns[i].seq <= highest_turn(turns, story_id)->0,
    decreases turns.len(),
{
    if i < turns.len() - 1 {
        assert(turns.drop_last()[i] == turns[i]);
        lemma_highest(turns.drop_last(), story_id, i);
    }
}

/// No turn of a story comes after its last, and a turn that is opened is the last.
pub proof fn law_opened_turn_is_the_last(turns: Seq<TurnView>, id: Seq<char>, now: Seq<char>, story_id: Seq<char>)
    requires
        following_turn(turns, story_id) <= i64::MAX,
    ensures
        last_turn_of(turns.push(opened_turn(turns, id, now, story_id)), story_id) == Some(
            opened_turn(turns, id, now, story_id),
        ),
        turns_of(turns.push(opened_turn(turns, id, now, story_id)), story_id) == turns_of(turns, story_id).push(
            opened_turn(turns, id, now, story_id),
        ),
        last_turn_of(turns, story_id) matches Some(last) ==> forall|i: int|
            0 <= i < turns.len() && (#[trigger] turns[i]).story_id == story_id ==> turns[i].seq <= last.seq,
{
    let p = of_story(story_id);
    let number = sequence::number_fn::<Turn>();
    let turn = opened_turn(turns, id, now, story_id);
    let own = turns.filter(p);
    reveal(Seq::filter);
    assert(turns.push(turn).drop_last() =~= turns);
    assert forall|i: int| 0 <= i < own.len() implies number(#[trigger] own[i]) <= number(turn) by {
        assert(own.contains(own[i]));
        rows::lemma_filter_member(turns, p, own[i]);
        let k = choose|k: int| 0 <= k < turns.len() && turns[k] == own[i];
        lemma_highest(turns, story_id, k);
    }
    sequence::lemma_push_highest(own, number, turn);
    if own.len() > 0 {
        sequence::lemma_last_is_highest(own, number);
        let last = sequence::in_sequence(own, number).last();
        assert forall|i: int| 0 <= i < turns.len() && (#[trigger] turns[i]).story_id == story_id implies turns[i].seq
            <= last.seq by {
            assert(turns.contains(turns[i]));
            rows::lemma_filter_member(turns, p, turns[i]);
            let k = choose|k: int| 0 <= k < own.len() && own[k] == turns[i];
            assert(number(own[k]) <= number(last));
        }
    } else {
        sequence::lemma_member(own, number, turn);
    }
}

/// The turn that an entry was written in.
pub open spec fn turn_of_entry(store: StoreView, entry_id: Seq<char>) -> Option<TurnView> {
    match repository::entry_with_id(store.entries, entry_id) {
        Some(entry) => match entry.turn_id {
            Some(turn_id) => rows::first_where(store.turns, |t: TurnView| t.id == turn_id),
            None => None,
        },
        None => None,
    }
}

/// The turn that an entry was written in.
pub fn turn_of(store: &Store, entry_id: &str) -> (r: Option<Turn>)
    ensures
        r.deep_view() == turn_of_entry(store@, entry_id@),
{
    match repository::entry_position(&store.entries, entry_id) {
        Some(i) => match &store.entries[i].turn_id {
            Some(turn_id) => match turn_position(&store.turns, turn_id.as_str()) {
                Some(k) => Some(store.turns[k].copy()),
                None => None,
            },
            None => None,
        },
        None => None,
    }
}

/// The turns of a story in the order of their sequence numbers, each by its status.
pub open spec fn summaries_of(turns: Seq<TurnView>, story_id: Seq<char>) -> Seq<TurnSummaryView> {
    turns_of(turns, story_id).map_values(|t: TurnView| TurnSummaryView { id: t.id, status: t.status })
}

/// The turns of a story in the order of their sequence numbers, each by its status.
pub fn list_summaries(store: &Store, story_id: &str) -> (r: Vec<TurnSummary>)
    ensures
        r.deep_view() == summaries_of(store@.turns, story_id@),
{
    let turns = list_turns(store, story_id);
    let ghost all = turns.deep_view();
    let mut out: Vec<TurnSummary> = Vec::new();
    let mut i: usize = 0;
    while i < turns.len()
        invariant
            0 <= i <= turns@.len(),
            all == turns.deep_view(),
            out@.len() == i,
            forall|k: int|
                0 <= k < i ==> (#[trigger] out@[k])@ == (TurnSummaryView { id: all[k].id, status: all[k].status }),
        decreases turns@.len() - i,
    {
        let turn = &turns[i];
        assert(all[i as int] == turn@);
        out.push(TurnSummary { id: turn.id.clone(), status: turn.status.clone() });
        i += 1;
    }
    assert(out.deep_view() =~= summaries_of(store@.turns, story_id@));
    out
}

impl Copied for Turn {
    fn copied(&self) -> (r: Turn) {
        self.copy()
    }
}

/// The turns of a story are listed in the order of their numbers, all of them and none of another
/// story, and each is told by its identifier and its state. A new turn is complete, comes behind
/// the others, and is the first of its story at 0.
pub proof fn law_turns_are_listed_in_sequence(turns: Seq<TurnView>, id: Seq<char>, now: Seq<char>, story_id: Seq<char>)
    ensures
        ({
            let list = turns_of(turns, story_id);
            &&& forall|t: TurnView| #[trigger] list.contains(t) <==> turns.contains(t) && t.story_id == story_id
            &&& forall|i: int, k: int| 0 <= i < k < list.len() ==> (#[trigger] list[i]).seq <= (#[trigger] list[k]).seq
            &&& list.len() == turns.filter(|t: TurnView| t.story_id == story_id).len()
            &&& summaries_of(turns, story_id).len() == list.len()
            &&& forall|i: int|
                #![trigger summaries_of(turns, story_id)[i]]
                0 <= i < list.len() ==> summaries_of(turns, story_id)[i].id == list[i].id && summaries_of(
                    turns,
                    story_id,
                )[i].status == list[i].status
        }),
        following_turn(turns, story_id) <= i64::MAX ==> {
            let opened = opened_turn(turns, id, now, story_id);
            &&& opened.id == id
            &&& opened.story_id == story_id
            &&& opened.status == "complete"@
            &&& opened.created_at == now
            &&& forall|i: int|
                0 <= i < turns.len() && (#[trigger] turns[i]).story_id == story_id ==> turns[i].seq < opened.seq
            &&& (forall|i: int| 0 <= i < turns.len() ==> (#[trigger] turns[i]).story_id != story_id) ==> opened.seq == 0
        },
{
    let own = of_story(story_id);
    let number = sequence::number_fn::<Turn>();
    let kept = turns.filter(own);
    let list = turns_of(turns, story_id);
    assert((|t: TurnView| t.story_id == story_id) =~= own);
    assert forall|t: TurnView| #[trigger] list.contains(t) <==> turns.contains(t) && t.story_id == story_id by {
        rows::lemma_filter_member(turns, own, t);
        sequence::lemma_member(kept, number, t);
    }
    sequence::lemma_rises(kept, number);
    sequence::lemma_member(kept, number, list[0]);
    assert forall|i: int, k: int| 0 <= i < k < list.len() implies (#[trigger] list[i]).seq <= (#[trigger] list[k]).seq by {
        assert(number(list[i]) <= number(list[k]));
    }
    lemma_highest_is_known(turns, story_id);
}

proof fn lemma_highest_is_known(turns: Seq<TurnView>, story_id: Seq<char>)
    ensures
        forall|i: int|
            0 <= i < turns.len() && (#[trigger] turns[i]).story_id == story_id ==> highest_turn(turns, story_id) is Some
                && turns[i].seq <= highest_turn(turns, story_id)->0,
        (forall|i: int| 0 <= i < turns.len() ==> (#[trigger] turns[i]).story_id != story_id) ==> highest_turn(
            turns,
            story_id,
        ) is None,
    decreases turns.len(),
{
    if turns.len() > 0 {
        let t = turns.drop_last();
        lemma_highest_is_known(t, story_id);
        assert forall|i: int| 0 <= i < turns.len() && (#[trigger] turns[i]).story_id == story_id implies highest_turn(
            turns,
            story_id,
        ) is Some && turns[i].seq <= highest_turn(turns, story_id)->0 by {
            if i < t.len() {
                assert(t[i] == turns[i]);
            }
        }
        if forall|i: int| 0 <= i < turns.len() ==> (#[trigger] turns[i]).story_id != story_id {
            assert forall|i: int| 0 <= i < t.len() implies (#[trigger] t[i]).story_id != story_id by {
                assert(t[i] == turns[i]);
            }
            assert(turns[turns.len() - 1].story_id != story_id);
        }
    }
}

/// The turn of an entry is the one that the entry names, where there is one with that identifier.
pub proof fn law_entry_belongs_to_the_turn_it_names(store: StoreView, entry_id: Seq<char>)
    ensures
        turn_of_entry(store, entry_id) matches Some(turn) ==> store.turns.contains(turn) && exists|i: int|
            0 <= i < store.entries.len() && (#[trigger] store.entries[i]).id == entry_id && store.entries[i].turn_id
                == Some(turn.id),
{
    if let Some(turn) = turn_of_entry(store, entry_id) {
        let i = rows::lemma_first_where(store.entries, repository::entry_is(entry_id));
        let turn_id = store.entries[i].turn_id->0;
        let k = rows::lemma_first_where(store.turns, |t: TurnView| t.id == turn_id);
        assert(store.turns[k] == turn);
        assert(store.entries[i].id == entry_id);
    }
}

} // verus!
