//! The conversation of a timeline, with every authoritative event that it tells of.

use vstd::prelude::*;

use crate::ai::{HistoryTurn, HistoryTurnMarker, HistoryTurnView};
use crate::ledger::kind;
use crate::ledger::model::{EntryView, LedgerEntry};
use crate::ledger::{reducer, repository};
use crate::mechanics::commands;
use crate::narration::author_note;
use crate::narrator::transcript;
use crate::store::Store;
use crate::{json, rows, text};

verus! {

/// The kind of an entry that picks one of several passages.
pub const NARRATION_SELECTED: &'static str = "narration_selected";

/// The kind of an entry that tells of the world.
pub const WORLD_EVENT: &'static str = "world_event";

/// Whether the narrator is told of entries of a kind.
pub open spec fn authoritative(k: Seq<char>) -> bool {
    ||| k == kind::CONTENT_EDITED@
    ||| k == NARRATION_SELECTED@
    ||| k == commands::MECHANICAL_RESULT@
    ||| k == kind::ENTITY_CREATED@
    ||| k == kind::ENTITY_UPDATED@
    ||| k == kind::ENTITY_DELETED@
    ||| k == kind::ENTITY_ATTRIBUTE_CHANGED@
    ||| k == kind::ENTITY_ATTRIBUTE_REMOVED@
    ||| k == kind::IMAGE_GENERATED@
    ||| k == author_note::NOTE_UPDATED@
    ||| k == commands::MECHANICS_SETTINGS_CHANGED@
    ||| k == WORLD_EVENT@
}

/// How an entry was put in, as its payload says.
pub open spec fn mode_of(entry: EntryView) -> Option<Seq<char>> {
    json::text_field(entry.payload, "input_mode"@)
}

/// Whether a story that was put in at a place was written out by the narrator later on.
pub open spec fn superseded(raw: Seq<EntryView>, i: int) -> bool {
    &&& mode_of(raw[i]) == Some("story"@)
    &&& exists|k: int| i < k < raw.len() && mode_of(#[trigger] raw[k]) == Some("generated_story"@)
}

/// What an event says: the passage that was picked, its content, or its payload.
pub open spec fn event_words(raw: Seq<EntryView>, entry: EntryView) -> Seq<char> {
    if entry.kind == NARRATION_SELECTED@ {
        match json::text_field(entry.payload, "selected_entry_id"@) {
            Some(id) => match repository::entry_with_id(raw, id) {
                Some(picked) => transcript::or_nothing(picked.content),
                None => Seq::empty(),
            },
            None => Seq::empty(),
        }
    } else {
        match entry.content {
            Some(content) => content,
            None => json::printed(entry.payload),
        }
    }
}

/// The turn of the conversation that the entry at a place is, if it is one.
pub open spec fn turn_at(raw: Seq<EntryView>, i: int) -> Option<HistoryTurnView> {
    let entry = raw[i];
    if entry.kind == kind::CONTEXT_SUMMARY@ {
        None
    } else if reducer::is_message(entry) {
        if superseded(raw, i) {
            None
        } else {
            Some(
                HistoryTurnView {
                    entry_id: Some(entry.id),
                    is_player: entry.kind == kind::PLAYER_MESSAGE@,
                    content: transcript::or_nothing(reducer::active(raw, entry).content),
                    marker: HistoryTurnMarker::Ledger,
                },
            )
        }
    } else if authoritative(entry.kind) {
        Some(
            HistoryTurnView {
                entry_id: Some(entry.id),
                is_player: false,
                content: "[Authoritative story event: "@ + entry.kind + "]\n"@ + event_words(raw, entry),
                marker: HistoryTurnMarker::Ledger,
            },
        )
    } else {
        None
    }
}

/// The turns of the entries from a place on, among the first `n`.
pub open spec fn turns_upto(raw: Seq<EntryView>, from: int, n: nat) -> Seq<HistoryTurnView>
    decreases n,
{
    if n == 0 {
        Seq::empty()
    } else {
        let before = turns_upto(raw, from, (n - 1) as nat);
        if n - 1 < from {
            before
        } else {
            match turn_at(raw, n - 1) {
                Some(turn) => before.push(turn),
                None => before,
            }
        }
    }
}

/// The conversation that a run of entries stands for: the newest summary in place of what it
/// covers, then the turns of what follows.
pub open spec fn history_of(raw: Seq<EntryView>) -> Seq<HistoryTurnView> {
    match transcript::newest_cover(raw, raw.len()) {
        Some(i) => seq![transcript::summary_turn(raw[i])] + turns_upto(
            raw,
            transcript::covered_by(raw, i)->0 + 1,
            raw.len(),
        ),
        None => turns_upto(raw, 0, raw.len()),
    }
}

fn is_authoritative(k: &str) -> (r: bool)
    ensures
        r == authoritative(k@),
{
    text::same_text(k, kind::CONTENT_EDITED) || text::same_text(k, NARRATION_SELECTED) || text::same_text(
        k,
        commands::MECHANICAL_RESULT,
    ) || text::same_text(k, kind::ENTITY_CREATED) || text::same_text(k, kind::ENTITY_UPDATED)
        || text::same_text(k, kind::ENTITY_DELETED) || text::same_text(k, kind::ENTITY_ATTRIBUTE_CHANGED)
        || text::same_text(k, kind::ENTITY_ATTRIBUTE_REMOVED) || text::same_text(k, kind::IMAGE_GENERATED)
        || text::same_text(k, author_note::NOTE_UPDATED) || text::same_text(
        k,
        commands::MECHANICS_SETTINGS_CHANGED,
    ) || text::same_text(k, WORLD_EVENT)
}

fn has_mode(entry: &LedgerEntry, mode: &str) -> (r: bool)
    ensures
        r == (mode_of(entry@) == Some(mode@)),
{
    match entry.payload.str_field("input_mode") {
        Some(own) => text::same_text(own, mode),
        None => false,
    }
}

fn is_superseded(raw: &Vec<LedgerEntry>, i: usize) -> (r: bool)
    requires
        i < raw@.len(),
    ensures
        r == superseded(raw.deep_view(), i as int),
{
    let ghost all = raw.deep_view();
    assert(all[i as int] == raw@[i as int]@);
    if !has_mode(&raw[i], "story") {
        return false;
    }
    let mut k: usize = i;
    while k < raw.len()
        invariant
            i <= k <= raw@.len(),
            all == raw.deep_view(),
            mode_of(all[i as int]) == Some("story"@),
            forall|n: int| i < n < k ==> mode_of(#[trigger] all[n]) != Some("generated_story"@),
        decreases raw@.len() - k,
    {
        assert(all[k as int] == raw@[k as int]@);
        if k > i && has_mode(&raw[k], "generated_story") {
            assert(mode_of(all[k as int]) == Some("generated_story"@));
            return true;
        }
        k += 1;
    }
    false
}

fn words_of(raw: &Vec<LedgerEntry>, entry: &LedgerEntry) -> (r: String)
    ensures
        r@ == event_words(raw.deep_view(), entry@),
{
    if text::same_text(entry.kind.as_str(), NARRATION_SELECTED) {
        return match entry.payload.str_field("selected_entry_id") {
            Some(id) => match repository::entry_position(raw, id) {
                Some(i) => transcript::text_or_nothing(&raw[i].content),
                None => String::new(),
            },
            None => String::new(),
        };
    }
    match &entry.content {
        Some(content) => content.clone(),
        None => json::print(&entry.payload),
    }
}

fn turn_for(raw: &Vec<LedgerEntry>, i: usize) -> (r: Option<HistoryTurn>)
    requires
        i < raw@.len(),
    ensures
        r.deep_view() == turn_at(raw.deep_view(), i as int),
{
    let entry = &raw[i];
    assert(raw.deep_view()[i as int] == entry@);
    let k = entry.kind.as_str();
    if text::same_text(k, kind::CONTEXT_SUMMARY) {
        return None;
    }
    if text::same_text(k, kind::PLAYER_MESSAGE) || text::same_text(k, kind::NARRATION) {
        if is_superseded(raw, i) {
            return None;
        }
        let visible = reducer::active_copy(raw, entry);
        return Some(
            HistoryTurn {
                entry_id: Some(entry.id.clone()),
                is_player: text::same_text(k, kind::PLAYER_MESSAGE),
                content: transcript::text_or_nothing(&visible.content),
                marker: HistoryTurnMarker::Ledger,
            },
        );
    }
    if !is_authoritative(k) {
        return None;
    }
    let words = words_of(raw, entry);
    Some(
        HistoryTurn {
            entry_id: Some(entry.id.clone()),
            is_player: false,
            content: text::concat4("[Authoritative story event: ", k, "]\n", words.as_str()),
            marker: HistoryTurnMarker::Ledger,
        },
    )
}

/// The conversation that a run of entries stands for.
pub fn history_from_entries(raw: &Vec<LedgerEntry>) -> (r: Vec<HistoryTurn>)
    ensures
        r.deep_view() == history_of(raw.deep_view()),
{
    let ghost all = raw.deep_view();
    let mut history: Vec<HistoryTurn> = Vec::new();
    let mut start: usize = 0;
    let found = transcript::newest_coverage(raw);
    if let Some((i, c)) = found {
        let content = transcript::text_or_nothing(&raw[i].content);
        let turn = HistoryTurn {
            entry_id: None,
            is_player: false,
            content: text::concat2("[Authoritative context summary]\n", content.as_str()),
            marker: HistoryTurnMarker::Summary,
        };
        history.push(turn);
        start = c + 1;
        assert(history.deep_view() =~= seq![transcript::summary_turn(all[i as int])]);
    } else {
        assert(history.deep_view() =~= Seq::empty());
    }
    let ghost head = history.deep_view();
    let mut k: usize = 0;
    assert(head + turns_upto(all, start as int, 0) =~= head);
    while k < raw.len()
        invariant
            0 <= k <= raw@.len(),
            all == raw.deep_view(),
            history.deep_view() == head + turns_upto(all, start as int, k as nat),
        decreases raw@.len() - k,
    {
        let ghost so_far = turns_upto(all, start as int, k as nat);
        if k >= start {
            if let Some(turn) = turn_for(raw, k) {
                let ghost before = history;
                let ghost value = turn;
                history.push(turn);
                proof {
                    rows::lemma_deep_push(before, history, value);
                    assert((head + so_far).push(value@) =~= head + so_far.push(value@));
                }
            }
        }
        k += 1;
    }
    proof {
        if found is None {
            assert(head + turns_upto(all, 0, all.len()) =~= turns_upto(all, 0, all.len()));
        }
    }
    history
}

/// The condition of standing before a cut, where there is one.
pub open spec fn before_cut(before_seq: Option<i64>) -> spec_fn(EntryView) -> bool {
    |e: EntryView|
        match before_seq {
            Some(cut) => e.seq < cut,
            None => true,
        }
}

/// The conversation of a timeline up to a cut.
pub fn load_history(store: &Store, branch_id: &str, before_seq: Option<i64>) -> (r: Vec<HistoryTurn>)
    ensures
        r.deep_view() == history_of(
            repository::story_entries(store@.entries, branch_id@).filter(before_cut(before_seq)),
        ),
{
    let raw = repository::list_logical_entries(store, branch_id);
    let ghost all = raw.deep_view();
    let ghost p = before_cut(before_seq);
    let mut kept: Vec<LedgerEntry> = Vec::new();
    let mut i: usize = 0;
    assert(kept.deep_view() =~= all.take(0).filter(p)) by {
        reveal(Seq::filter);
    }
    while i < raw.len()
        invariant
            0 <= i <= raw@.len(),
            all == raw.deep_view(),
            p == before_cut(before_seq),
            kept.deep_view() == all.take(i as int).filter(p),
        decreases raw@.len() - i,
    {
        let entry = &raw[i];
        proof {
            assert(all[i as int] == entry@);
            rows::lemma_filter_step(all, p, i as int);
        }
        let keep = match before_seq {
            Some(cut) => entry.seq < cut,
            None => true,
        };
        if keep {
            let copy = entry.copy();
            let ghost before = kept;
            let ghost value = copy;
            kept.push(copy);
            proof {
                rows::lemma_deep_push(before, kept, value);
            }
        }
        i += 1;
    }
    proof {
        rows::lemma_take_all(all);
    }
    history_from_entries(&kept)
}

} // verus!
