//! Who says what in the conversation of a timeline.

use vstd::prelude::*;

use super::history;
use crate::ai::{HistoryTurnMarker, HistoryTurnView};
use crate::json;
use crate::ledger::kind;
use crate::ledger::model::EntryView;
use crate::ledger::reducer;
use crate::ledger::repository;
use crate::narrator::told;
use crate::narrator::transcript;
use crate::rows;

verus! {

/// Whether a player's story was written out by the narrator behind it, so that it need not be told.
pub open spec fn written_out(raw: Seq<EntryView>, k: int) -> bool {
    &&& json::text_field(raw[k].payload, "input_mode"@) == Some("story"@)
    &&& exists|l: int|
        k < l < raw.len() && json::text_field((#[trigger] raw[l]).payload, "input_mode"@) == Some("generated_story"@)
}

/// Whether an entry is something that became of the story, which the narrator is told of.
pub open spec fn tells_of_the_story(entry: EntryView) -> bool {
    ||| entry.kind == kind::CONTENT_EDITED@
    ||| entry.kind == "narration_selected"@
    ||| entry.kind == "mechanical_result"@
    ||| entry.kind == kind::ENTITY_CREATED@
    ||| entry.kind == kind::ENTITY_UPDATED@
    ||| entry.kind == kind::ENTITY_DELETED@
    ||| entry.kind == kind::ENTITY_ATTRIBUTE_CHANGED@
    ||| entry.kind == kind::ENTITY_ATTRIBUTE_REMOVED@
    ||| entry.kind == kind::IMAGE_GENERATED@
    ||| entry.kind == "context_note_updated"@
    ||| entry.kind == "mechanics_settings_changed"@
    ||| entry.kind == "world_event"@
}

/// Whether the entry at a place is told: a message that was not written out later, or something
/// that became of the story.
pub open spec fn is_told(raw: Seq<EntryView>, k: int) -> bool {
    if raw[k].kind == kind::PLAYER_MESSAGE@ || raw[k].kind == kind::NARRATION@ {
        !written_out(raw, k)
    } else {
        tells_of_the_story(raw[k])
    }
}

/// Whether words are what an event says: for a passage that was picked, what the passage says;
/// else its content, or its payload where it has none.
pub open spec fn event_says(raw: Seq<EntryView>, entry: EntryView, words: Seq<char>) -> bool {
    if entry.kind == "narration_selected"@ {
        let picked = json::text_field(entry.payload, "selected_entry_id"@);
        ||| exists|j: int|
            0 <= j < raw.len() && picked == Some((#[trigger] raw[j]).id) && words == told::or_else(
                raw[j].content,
                Seq::empty(),
            )
        ||| words.len() == 0 && forall|j: int| 0 <= j < raw.len() ==> picked != Some((#[trigger] raw[j]).id)
    } else {
        words == told::or_else(entry.content, json::printed(entry.payload))
    }
}

/// Whether a turn tells what an entry says, as the one who said it.
pub open spec fn turn_tells(raw: Seq<EntryView>, entry: EntryView, turn: HistoryTurnView) -> bool {
    &&& turn.entry_id == Some(entry.id)
    &&& turn.marker == HistoryTurnMarker::Ledger
    &&& turn.is_player <==> entry.kind == kind::PLAYER_MESSAGE@
    &&& if entry.kind == kind::PLAYER_MESSAGE@ || entry.kind == kind::NARRATION@ {
        exists|words: Option<Seq<char>>| #[trigger]
            reducer::reads(raw, entry, words) && turn.content == told::or_else(words, Seq::empty())
    } else {
        exists|words: Seq<char>| #[trigger]
            event_says(raw, entry, words) && turn.content == "[Authoritative story event: "@ + entry.kind + "]\n"@ + words
    }
}

proof fn lemma_kinds()
    ensures
        kind::PLAYER_MESSAGE@ != kind::NARRATION@,
        kind::CONTEXT_SUMMARY@ != kind::PLAYER_MESSAGE@,
        kind::CONTEXT_SUMMARY@ != kind::NARRATION@,
        forall|entry: EntryView|
            entry.kind == kind::PLAYER_MESSAGE@ || entry.kind == kind::NARRATION@ || entry.kind
                == kind::CONTEXT_SUMMARY@ ==> !#[trigger] tells_of_the_story(entry),
{
    reveal_strlit("player_message");
    reveal_strlit("narration");
    reveal_strlit("context_summary");
    reveal_strlit("content_edited");
    reveal_strlit("narration_selected");
    reveal_strlit("mechanical_result");
    reveal_strlit("entity_created");
    reveal_strlit("entity_updated");
    reveal_strlit("entity_deleted");
    reveal_strlit("entity_attribute_changed");
    reveal_strlit("entity_attribute_removed");
    reveal_strlit("image_generated");
    reveal_strlit("context_note_updated");
    reveal_strlit("mechanics_settings_changed");
    reveal_strlit("world_event");
    assert(kind::PLAYER_MESSAGE@[0] == 'p');
    assert(kind::NARRATION@[0] == 'n' && kind::NARRATION@.len() == 9);
    assert(kind::CONTEXT_SUMMARY@[0] == 'c' && kind::CONTEXT_SUMMARY@.len() == 15);
    assert(kind::CONTENT_EDITED@[0] == 'c' && kind::CONTENT_EDITED@.len() == 14);
    assert("narration_selected"@.len() == 18 && "narration_selected"@[0] == 'n');
    assert("mechanical_result"@[0] == 'm');
    assert(kind::ENTITY_CREATED@[0] == 'e');
    assert(kind::ENTITY_UPDATED@[0] == 'e');
    assert(kind::ENTITY_DELETED@[0] == 'e');
    assert(kind::ENTITY_ATTRIBUTE_CHANGED@[0] == 'e');
    assert(kind::ENTITY_ATTRIBUTE_REMOVED@[0] == 'e');
    assert(kind::IMAGE_GENERATED@[0] == 'i');
    assert("context_note_updated"@.len() == 20 && "context_note_updated"@[0] == 'c');
    assert("mechanics_settings_changed"@[0] == 'm');
    assert("world_event"@[0] == 'w');
}

proof fn lemma_event_says(raw: Seq<EntryView>, entry: EntryView)
    ensures
        event_says(raw, entry, history::event_words(raw, entry)),
{
    if entry.kind == history::NARRATION_SELECTED@ {
        if let Some(id) = json::text_field(entry.payload, "selected_entry_id"@) {
            match repository::entry_with_id(raw, id) {
                Some(picked) => {
                    let j = rows::lemma_first_where(raw, repository::entry_is(id));
                    assert(raw[j].id == id);
                },
                None => {
                    assert forall|j: int| 0 <= j < raw.len() implies Some(id) != Some((#[trigger] raw[j]).id) by {
                        if raw[j].id == id {
                            let p = repository::entry_is(id);
                            assert(p(raw[j]));
                            lemma_found(raw, id, j);
                        }
                    }
                },
            }
        }
    }
}

proof fn lemma_found(raw: Seq<EntryView>, id: Seq<char>, j: int)
    requires
        0 <= j < raw.len(),
        raw[j].id == id,
    ensures
        repository::entry_with_id(raw, id) is Some,
    decreases raw.len(),
{
    let p = repository::entry_is(id);
    if j > 0 && !p(raw[0]) {
        assert(raw.drop_first()[j - 1] == raw[j]);
        lemma_found(raw.drop_first(), id, j - 1);
    }
}

proof fn lemma_turn_tells(raw: Seq<EntryView>, k: int)
    requires
        0 <= k < raw.len(),
    ensures
        match history::turn_at(raw, k) {
            Some(turn) => turn_tells(raw, raw[k], turn) && is_told(raw, k),
            None => !is_told(raw, k),
        },
{
    lemma_kinds();
    let entry = raw[k];
    assert(history::superseded(raw, k) == written_out(raw, k));
    if entry.kind == kind::PLAYER_MESSAGE@ || entry.kind == kind::NARRATION@ {
        reducer::law_entry_reads_as_last_edited(raw, entry);
        assert(reducer::reads(raw, entry, reducer::active(raw, entry).content));
    } else {
        lemma_event_says(raw, entry);
        assert(event_says(raw, entry, history::event_words(raw, entry)));
    }
}

proof fn lemma_places(raw: Seq<EntryView>, from: int, n: nat) -> (places: Seq<int>)
    requires
        n <= raw.len(),
    ensures
        rows::rising_places(places, n as int),
        places.len() == history::turns_upto(raw, from, n).len(),
        forall|m: int|
            0 <= m < places.len() ==> from <= #[trigger] places[m] && history::turn_at(raw, places[m]) == Some(
                history::turns_upto(raw, from, n)[m],
            ),
        forall|k: int| from <= k < n && 0 <= k && (#[trigger] history::turn_at(raw, k)) is Some ==> places.contains(k),
    decreases n,
{
    if n == 0 {
        Seq::empty()
    } else {
        let front = lemma_places(raw, from, (n - 1) as nat);
        let before = history::turns_upto(raw, from, (n - 1) as nat);
        if n - 1 >= from && history::turn_at(raw, n - 1) is Some {
            let places = front.push(n - 1);
            assert forall|k: int| from <= k < n && 0 <= k && (#[trigger] history::turn_at(raw, k)) is Some implies places.contains(
                k,
            ) by {
                if k < n - 1 {
                    let m = choose|m: int| 0 <= m < front.len() && front[m] == k;
                    assert(places[m] == k);
                } else {
                    assert(places[front.len() as int] == k);
                }
            }
            assert forall|m: int| 0 <= m < places.len() implies from <= #[trigger] places[m] && history::turn_at(
                raw,
                places[m],
            ) == Some(history::turns_upto(raw, from, n)[m]) by {
                if m < front.len() {
                    assert(places[m] == front[m]);
                    assert(history::turns_upto(raw, from, n)[m] == before[m]);
                }
            }
            places
        } else {
            front
        }
    }
}

/// The conversation of a timeline has what the player and the narrator said and what became of the
/// story, each once and in the order of the entries: the player's words as the player's, all else
/// not. The newest summary stands first, and the rest is told from behind the entry up to which it
/// speaks.
pub proof fn law_timeline_tells_who_said_what(raw: Seq<EntryView>) -> (r: (int, int, Seq<int>))
    requires
        transcript::distinct(raw),
    ensures
        ({
            let (from, i, places) = r;
            let turns = history::history_of(raw);
            let head: int = if from == 0 {
                0
            } else {
                1
            };
            &&& told::told_from(raw, from, i)
            &&& from > 0 ==> turns.len() > 0 && turns[0] == (HistoryTurnView {
                entry_id: None,
                is_player: false,
                content: "[Authoritative context summary]\n"@ + told::or_else(raw[i].content, Seq::empty()),
                marker: HistoryTurnMarker::Summary,
            })
            &&& rows::rising_places(places, raw.len() as int)
            &&& turns.len() == head + places.len()
            &&& forall|m: int|
                0 <= m < places.len() ==> from <= #[trigger] places[m] && is_told(raw, places[m]) && turn_tells(
                    raw,
                    raw[places[m]],
                    turns[head + m],
                )
            &&& forall|k: int| from <= k < raw.len() && #[trigger] is_told(raw, k) ==> places.contains(k)
        }),
{
    let turns = history::history_of(raw);
    let (from, i) = told::lemma_told_from(raw);
    let places = lemma_places(raw, from, raw.len());
    let head: int = if from == 0 {
        0
    } else {
        1
    };
    assert forall|m: int| 0 <= m < places.len() implies from <= #[trigger] places[m] && is_told(raw, places[m])
        && turn_tells(raw, raw[places[m]], turns[head + m]) by {
        lemma_turn_tells(raw, places[m]);
        assert(turns[head + m] == history::turns_upto(raw, from, raw.len())[m]);
    }
    assert forall|k: int| from <= k < raw.len() && #[trigger] is_told(raw, k) implies places.contains(k) by {
        lemma_turn_tells(raw, k);
    }
    (from, i, places)
}

/// Up to a cut, a timeline is told from the entries whose numbers are below it, all of them and in
/// their order.
pub proof fn law_cut_timeline_has_what_is_before(raw: Seq<EntryView>, before_seq: Option<i64>) -> (places: Seq<int>)
    ensures
        rows::rising_places(places, raw.len() as int),
        raw.filter(history::before_cut(before_seq)).len() == places.len(),
        forall|m: int|
            0 <= m < places.len() ==> raw.filter(history::before_cut(before_seq))[m] == raw[#[trigger] places[m]],
        forall|k: int|
            0 <= k < raw.len() ==> (places.contains(k) <==> (before_seq is Some ==> (#[trigger] raw[k]).seq
                < before_seq->0)),
{
    let p = history::before_cut(before_seq);
    let places = rows::lemma_filter_places(raw, p);
    assert forall|k: int| 0 <= k < raw.len() implies (places.contains(k) <==> (before_seq is Some ==> (#[trigger] raw[k]).seq
        < before_seq->0)) by {
        if p(raw[k]) {
            assert(places.contains(k));
        }
        if places.contains(k) {
            let m = choose|m: int| 0 <= m < places.len() && places[m] == k;
            assert(p(raw[places[m]]));
        }
    }
    places
}

} // verus!
