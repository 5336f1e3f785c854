//! What the narrator is told of the passages before.

use vstd::prelude::*;

use super::images;
use super::model::{Book, BookView, Passage, PassageView};
use super::repository;
use crate::ai::{HistoryTurn, HistoryTurnMarker, HistoryTurnView};
use crate::{rows, sequence, text};

verus! {

/// How many passages the narrator is told at most.
pub const HISTORY_LIMIT: usize = 60;

/// How many turns count as recent.
pub const RECENT_TURNS: usize = 4;

/// The condition of being a passage of a branch before a sequence number.
pub open spec fn told_before(branch_id: Seq<char>, before_seq: Option<i64>) -> spec_fn(PassageView) -> bool {
    |p: PassageView| p.branch_id == branch_id && (before_seq is Some ==> p.seq < before_seq->0)
}

/// A passage as the narrator is told it: with what its newest image shows.
pub open spec fn turn_of(book: BookView) -> spec_fn(PassageView) -> HistoryTurnView {
    |p: PassageView|
        {
            let shown = images::images_of(book, p.id);
            HistoryTurnView {
                entry_id: None,
                is_player: p.role == "player"@,
                content: if shown.len() == 0 {
                    p.content
                } else {
                    p.content + "\n\n[A scene image was generated here, depicting: "@ + shown.last().prompt + "]"@
                },
                marker: HistoryTurnMarker::Ledger,
            }
        }
}

/// The end of a list.
pub open spec fn ending<A>(s: Seq<A>, n: nat) -> Seq<A> {
    if s.len() <= n {
        s
    } else {
        s.skip(s.len() - n)
    }
}

/// The passages that the narrator is told, in the order of their sequence numbers.
pub open spec fn told_passages(book: BookView, branch_id: Seq<char>, before_seq: Option<i64>) -> Seq<PassageView> {
    ending(
        sequence::in_sequence(
            book.passages.filter(told_before(branch_id, before_seq)),
            repository::passage_number(),
        ),
        HISTORY_LIMIT as nat,
    )
}

/// The passages as the narrator is told them.
pub open spec fn history_of(book: BookView, branch_id: Seq<char>, before_seq: Option<i64>) -> Seq<HistoryTurnView> {
    told_passages(book, branch_id, before_seq).map_values(turn_of(book))
}

fn tell(book: &Book, passage: &Passage) -> (r: HistoryTurn)
    ensures
        r@ == turn_of(book@)(passage@),
{
    let shown = images::list_images_for_passage(book, passage.id.as_str());
    let content = if shown.len() == 0 {
        passage.content.clone()
    } else {
        let newest = &shown[shown.len() - 1];
        assert(shown.deep_view().last() == newest@);
        text::concat4(
            passage.content.as_str(),
            "\n\n[A scene image was generated here, depicting: ",
            newest.prompt.as_str(),
            "]",
        )
    };
    HistoryTurn {
        entry_id: None,
        is_player: text::same_text(passage.role.as_str(), "player"),
        content,
        marker: HistoryTurnMarker::Ledger,
    }
}

/// The passages that the narrator is told: the last of those before a sequence number, the oldest
/// first.
pub fn load_history(book: &Book, branch_id: &str, before_seq: Option<i64>) -> (r: Vec<HistoryTurn>)
    ensures
        r.deep_view() == history_of(book@, branch_id@, before_seq),
{
    let ghost p = told_before(branch_id@, before_seq);
    let keep = |passage: &Passage| -> (b: bool)
        ensures
            b == p(passage@),
    {
        text::same_text(passage.branch_id.as_str(), branch_id) && match before_seq {
            Some(seq) => passage.seq < seq,
            None => true,
        }
    };
    let own = sequence::line_up(rows::kept_rows(&book.passages, keep, Ghost(p)));
    let start: usize = if own.len() <= HISTORY_LIMIT {
        0
    } else {
        own.len() - HISTORY_LIMIT
    };
    let ghost all = own.deep_view();
    let ghost f = turn_of(book@);
    let mut out: Vec<HistoryTurn> = Vec::new();
    let mut i: usize = start;
    while i < own.len()
        invariant
            start <= i <= own@.len(),
            all == own.deep_view(),
            f == turn_of(book@),
            out@.len() == i - start,
            forall|k: int| 0 <= k < i - start ==> (#[trigger] out@[k])@ == f(all[start + k]),
        decreases own@.len() - i,
    {
        assert(all[i as int] == own@[i as int]@);
        out.push(tell(book, &own[i]));
        i += 1;
    }
    assert(out.deep_view() =~= ending(all, HISTORY_LIMIT as nat).map_values(f));
    out
}

/// A turn by who speaks.
pub open spec fn spoken() -> spec_fn(HistoryTurnView) -> Seq<char> {
    |turn: HistoryTurnView|
        (if turn.is_player {
            "Player"@
        } else {
            "Narrator"@
        }) + ": "@ + turn.content
}

/// The last turns, a line for each.
pub open spec fn recent_words(history: Seq<HistoryTurnView>) -> Seq<char> {
    text::joined(ending(history, RECENT_TURNS as nat).map_values(spoken()), "\n"@)
}

/// The last turns, a line for each.
pub fn recent_context(history: &Vec<HistoryTurn>) -> (r: String)
    ensures
        r@ == recent_words(history.deep_view()),
{
    let start: usize = if history.len() <= RECENT_TURNS {
        0
    } else {
        history.len() - RECENT_TURNS
    };
    let ghost all = history.deep_view();
    let ghost f = spoken();
    let mut lines: Vec<String> = Vec::new();
    let mut i: usize = start;
    while i < history.len()
        invariant
            start <= i <= history@.len(),
            all == history.deep_view(),
            f == spoken(),
            lines@.len() == i - start,
            forall|k: int| 0 <= k < i - start ==> (#[trigger] lines@[k])@ == f(all[start + k]),
        decreases history@.len() - i,
    {
        let turn = &history[i];
        assert(all[i as int] == turn@);
        let speaker = if turn.is_player {
            "Player"
        } else {
            "Narrator"
        };
        lines.push(text::concat3(speaker, ": ", turn.content.as_str()));
        i += 1;
    }
    assert(lines.deep_view() =~= ending(all, RECENT_TURNS as nat).map_values(f));
    text::join(&lines, "\n")
}

/// The narrator is told the newest passages before the cut, the oldest of them first, and never
/// more than the limit.
pub proof fn law_history_is_bounded(book: BookView, branch_id: Seq<char>, before_seq: Option<i64>)
    ensures
        history_of(book, branch_id, before_seq).len() <= HISTORY_LIMIT,
        forall|i: int|
            0 <= i < told_passages(book, branch_id, before_seq).len() ==> told_before(branch_id, before_seq)(
                #[trigger] told_passages(book, branch_id, before_seq)[i],
            ),
        sequence::rising(told_passages(book, branch_id, before_seq), repository::passage_number()),
{
    let p = told_before(branch_id, before_seq);
    let number = repository::passage_number();
    let own = book.passages.filter(p);
    let all = sequence::in_sequence(own, number);
    let end = told_passages(book, branch_id, before_seq);
    sequence::lemma_rises(own, number);
    assert forall|i: int| 0 <= i < end.len() implies p(#[trigger] end[i]) by {
        assert(all.contains(end[i]));
        sequence::lemma_member(own, number, end[i]);
        rows::lemma_filter_member(book.passages, p, end[i]);
    }
    assert forall|i: int, k: int| 0 <= i < k < end.len() implies number(#[trigger] end[i]) <= number(
        #[trigger] end[k],
    ) by {
        let c = all.len() - end.len();
        assert(end[i] == all[i + c] && end[k] == all[k + c]);
    }
}

} // verus!
