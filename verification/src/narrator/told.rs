//! Who says what in the conversation that the narrator reads.

use vstd::prelude::*;

use super::transcript;
use crate::ai::{HistoryTurnMarker, HistoryTurnView};
use crate::json;
use crate::ledger::kind;
use crate::ledger::model::EntryView;
use crate::ledger::reducer;
use crate::rows;

verus! {

/// Whether an entry is a summary that speaks up to an entry before it.
pub open spec fn sums_up_to(raw: Seq<EntryView>, i: int, c: int) -> bool {
    &&& 0 <= c < i < raw.len()
    &&& raw[i].kind == kind::CONTEXT_SUMMARY@
    &&& json::text_field(raw[i].payload, "through_entry_id"@) == Some(raw[c].id)
}

/// Whether entries are told from a place on: from the first one where no summary speaks of anything
/// before it, else from behind the entry up to which the newest one speaks, which stands at `i`.
pub open spec fn told_from(raw: Seq<EntryView>, from: int, i: int) -> bool {
    ||| from == 0 && forall|a: int, c: int| !#[trigger] sums_up_to(raw, a, c)
    ||| sums_up_to(raw, i, from - 1) && forall|a: int, c: int| #[trigger] sums_up_to(raw, a, c) ==> a <= i
}

/// A text, or another where there is none.
pub open spec fn or_else(s: Option<Seq<char>>, other: Seq<char>) -> Seq<char> {
    if s is Some {
        s->0
    } else {
        other
    }
}

/// Whether a turn is the words of a player between the tags of the mode in which they were said, or
/// the bare words where the mode is none of a player's.
pub open spec fn tagged(mode: Option<Seq<char>>, words: Seq<char>, told: Seq<char>) -> bool {
    if mode == Some("do"@) || mode == Some("say"@) || mode == Some("story"@) || mode == Some("guide"@) || mode == Some(
        "continue"@,
    ) || mode == Some("see"@) {
        told == "<"@ + mode->0 + ">"@ + words + "</"@ + mode->0 + ">"@
    } else {
        told == words
    }
}

/// Whether an entry is something that became of the world, which the narrator is told of.
pub open spec fn tells_of_the_world(entry: EntryView) -> bool {
    ||| entry.kind == kind::ENTITY_CREATED@ && json::text_field(entry.payload, "source"@) != Some("story_bootstrap"@)
    ||| entry.kind == kind::ENTITY_QUERIED@
    ||| entry.kind == kind::ENTITY_UPDATED@
    ||| entry.kind == kind::ENTITY_DELETED@
    ||| entry.kind == kind::ENTITY_ATTRIBUTE_CHANGED@
    ||| entry.kind == kind::ENTITY_ATTRIBUTE_REMOVED@
    ||| entry.kind == kind::IMAGE_GENERATED@
    ||| entry.kind == kind::DICEROLL@
}

/// Whether a turn tells what an entry says, as the one who said it.
pub open spec fn turn_tells(raw: Seq<EntryView>, entry: EntryView, turn: HistoryTurnView) -> bool {
    &&& turn.entry_id == Some(entry.id)
    &&& turn.marker == HistoryTurnMarker::Ledger
    &&& turn.is_player <==> entry.kind == kind::PLAYER_MESSAGE@
    &&& if entry.kind == kind::PLAYER_MESSAGE@ || entry.kind == kind::NARRATION@ {
        exists|words: Option<Seq<char>>| #[trigger]
            reducer::reads(raw, entry, words) && if turn.is_player {
                tagged(
                    json::text_field(entry.payload, "input_mode"@),
                    or_else(words, Seq::empty()),
                    turn.content,
                )
            } else {
                turn.content == or_else(words, Seq::empty())
            }
    } else {
        turn.content == "[Authoritative story event: "@ + entry.kind + "]\n"@ + or_else(
            entry.content,
            json::printed(entry.payload),
        )
    }
}

proof fn lemma_turn_tells(raw: Seq<EntryView>, entry: EntryView)
    ensures
        match transcript::turn_of(raw, entry) {
            Some(turn) => {
                &&& turn_tells(raw, entry, turn)
                &&& entry.kind == kind::PLAYER_MESSAGE@ || entry.kind == kind::NARRATION@ || tells_of_the_world(entry)
            },
            None => {
                &&& entry.kind != kind::PLAYER_MESSAGE@
                &&& entry.kind != kind::NARRATION@
                &&& !tells_of_the_world(entry)
            },
        },
{
    lemma_message_kinds();
    kind::lemma_kinds_differ();
    if entry.kind == kind::PLAYER_MESSAGE@ || entry.kind == kind::NARRATION@ {
        let read = reducer::active(raw, entry);
        reducer::law_entry_reads_as_last_edited(raw, entry);
        assert(reducer::reads(raw, entry, read.content));
        lemma_modes();
    }
}

proof fn lemma_modes()
    ensures
        forall|mode: Seq<char>| #[trigger] crate::prompts::turn_modes().contains(mode) <==> mode == "do"@ || mode == "say"@
            || mode == "story"@ || mode == "guide"@ || mode == "continue"@ || mode == "see"@,
        !crate::prompts::turn_modes().contains(Seq::empty()),
{
    let all = crate::prompts::turn_modes();
    assert(all[0] == "do"@ && all[1] == "say"@ && all[2] == "story"@);
    assert(all[3] == "guide"@ && all[4] == "continue"@ && all[5] == "see"@);
    reveal_strlit("do");
    reveal_strlit("say");
    reveal_strlit("story");
    reveal_strlit("guide");
    reveal_strlit("continue");
    reveal_strlit("see");
    assert(all.len() == 6);
    assert(forall|i: int| 0 <= i < all.len() ==> (#[trigger] all[i]).len() > 0);
}

/// A message is no summary and nothing that became of the world.
proof fn lemma_message_kinds()
    ensures
        kind::PLAYER_MESSAGE@ != kind::NARRATION@,
        forall|entry: EntryView|
            entry.kind == kind::PLAYER_MESSAGE@ || entry.kind == kind::NARRATION@ || entry.kind
                == kind::CONTEXT_SUMMARY@ ==> !#[trigger] tells_of_the_world(entry),
        kind::CONTEXT_SUMMARY@ != kind::PLAYER_MESSAGE@,
        kind::CONTEXT_SUMMARY@ != kind::NARRATION@,
        kind::ENTITY_CREATED@ != kind::ENTITY_QUERIED@,
        kind::ENTITY_CREATED@ != kind::IMAGE_GENERATED@,
        kind::ENTITY_CREATED@ != kind::DICEROLL@,
{
    reveal_strlit("player_message");
    reveal_strlit("narration");
    reveal_strlit("context_summary");
    reveal_strlit("entity_created");
    reveal_strlit("entity_queried");
    reveal_strlit("entity_updated");
    reveal_strlit("entity_deleted");
    reveal_strlit("entity_attribute_changed");
    reveal_strlit("entity_attribute_removed");
    reveal_strlit("image_generated");
    reveal_strlit("diceroll");
    assert(kind::PLAYER_MESSAGE@[0] == 'p');
    assert(kind::NARRATION@[0] == 'n');
    assert(kind::CONTEXT_SUMMARY@[0] == 'c');
    assert(kind::ENTITY_CREATED@[0] == 'e');
    assert(kind::ENTITY_QUERIED@[0] == 'e');
    assert(kind::ENTITY_UPDATED@[0] == 'e');
    assert(kind::ENTITY_DELETED@[0] == 'e');
    assert(kind::ENTITY_ATTRIBUTE_CHANGED@[0] == 'e');
    assert(kind::ENTITY_ATTRIBUTE_REMOVED@[0] == 'e');
    assert(kind::ENTITY_CREATED@[7] == 'c');
    assert(kind::ENTITY_QUERIED@[7] == 'q');
    assert(kind::IMAGE_GENERATED@[0] == 'i');
    assert(kind::DICEROLL@[0] == 'd');
}

proof fn lemma_places(raw: Seq<EntryView>, from: int, n: nat) -> (places: Seq<int>)
    requires
        n <= raw.len(),
    ensures
        rows::rising_places(places, n as int),
        places.len() == transcript::turns_between(raw, from, n).len(),
        forall|m: int|
            0 <= m < places.len() ==> from <= #[trigger] places[m] && transcript::turn_of(raw, raw[places[m]]) == Some(
                transcript::turns_between(raw, from, n)[m],
            ),
        forall|k: int| from <= k < n && 0 <= k && transcript::turn_of(raw, #[trigger] raw[k]) is Some ==> places.contains(k),
    decreases n,
{
    if n == 0 {
        Seq::empty()
    } else {
        let front = lemma_places(raw, from, (n - 1) as nat);
        let before = transcript::turns_between(raw, from, (n - 1) as nat);
        if n - 1 >= from && transcript::turn_of(raw, raw[n - 1]) is Some {
            let places = front.push(n - 1);
            assert forall|k: int| from <= k < n && 0 <= k && transcript::turn_of(raw, #[trigger] raw[k]) is Some implies places.contains(
                k,
            ) by {
                if k < n - 1 {
                    let m = choose|m: int| 0 <= m < front.len() && front[m] == k;
                    assert(places[m] == k);
                } else {
                    assert(places[front.len() as int] == k);
                }
            }
            assert forall|m: int| 0 <= m < places.len() implies from <= #[trigger] places[m] && transcript::turn_of(
                raw,
                raw[places[m]],
            ) == Some(transcript::turns_between(raw, from, n)[m]) by {
                if m < front.len() {
                    assert(places[m] == front[m]);
                    assert(transcript::turns_between(raw, from, n)[m] == before[m]);
                }
            }
            places
        } else {
            front
        }
    }
}

proof fn lemma_cover(raw: Seq<EntryView>, a: int)
    requires
        transcript::distinct(raw),
        0 <= a < raw.len(),
    ensures
        forall|c: int| #[trigger] sums_up_to(raw, a, c) <==> transcript::covered_by(raw, a) == Some(c),
{
    if let Some(id) = json::text_field(raw[a].payload, "through_entry_id"@) {
        rows::lemma_first_index(raw, transcript::id_is(id));
        assert forall|c: int| #[trigger] sums_up_to(raw, a, c) implies transcript::covered_by(raw, a) == Some(c) by {
            transcript::lemma_first_index_distinct(raw, id, c);
        }
    }
}

/// Where the telling begins.
pub(crate) proof fn lemma_told_from(raw: Seq<EntryView>) -> (r: (int, int))
    requires
        transcript::distinct(raw),
    ensures
        told_from(raw, r.0, r.1),
        0 <= r.0 <= raw.len(),
        match transcript::newest_cover(raw, raw.len()) {
            Some(i) => transcript::covered_by(raw, i) == Some(r.0 - 1) && r.1 == i && r.0 > 0,
            None => r.0 == 0,
        },
{
    transcript::lemma_newest_cover(raw, raw.len());
    let (from, i) = match transcript::newest_cover(raw, raw.len()) {
        Some(i) => (transcript::covered_by(raw, i)->0 + 1, i),
        None => (0, 0),
    };
    assert forall|a: int, c: int| #[trigger] sums_up_to(raw, a, c) implies transcript::covered_by(raw, a) == Some(c) by {
        lemma_cover(raw, a);
    }
    if transcript::newest_cover(raw, raw.len()) is Some {
        lemma_cover(raw, i);
        assert(sums_up_to(raw, i, from - 1));
    }
    (from, i)
}

/// The narrator reads what the player and the narrator said and what became of the world, each
/// once and in the order of the entries: the player's words as the player's, all else not. Where a
/// summary speaks of what is before it, the newest one stands first, and the rest is told from
/// behind the entry up to which it speaks.
pub proof fn law_conversation_tells_who_said_what(raw: Seq<EntryView>) -> (r: (int, int, Seq<int>))
    requires
        transcript::distinct(raw),
    ensures
        ({
            let (from, i, places) = r;
            let told = transcript::conversation(raw);
            let head: int = if from == 0 {
                0
            } else {
                1
            };
            &&& told_from(raw, from, i)
            &&& from > 0 ==> told.len() > 0 && told[0] == (HistoryTurnView {
                entry_id: None,
                is_player: false,
                content: "[Authoritative context summary]\n"@ + or_else(raw[i].content, Seq::empty()),
                marker: HistoryTurnMarker::Summary,
            })
            &&& rows::rising_places(places, raw.len() as int)
            &&& told.len() == head + places.len()
            &&& forall|m: int|
                0 <= m < places.len() ==> from <= #[trigger] places[m] && turn_tells(
                    raw,
                    raw[places[m]],
                    told[head + m],
                ) && (raw[places[m]].kind == kind::PLAYER_MESSAGE@ || raw[places[m]].kind == kind::NARRATION@
                    || tells_of_the_world(raw[places[m]]))
            &&& forall|k: int|
                from <= k < raw.len() && ((#[trigger] raw[k]).kind == kind::PLAYER_MESSAGE@ || raw[k].kind
                    == kind::NARRATION@ || tells_of_the_world(raw[k])) ==> places.contains(k)
        }),
{
    let told = transcript::conversation(raw);
    let (from, i) = lemma_told_from(raw);
    let places = lemma_places(raw, from, raw.len());
    let head: int = if from == 0 {
        0
    } else {
        1
    };
    assert forall|m: int| 0 <= m < places.len() implies from <= #[trigger] places[m] && turn_tells(
        raw,
        raw[places[m]],
        told[head + m],
    ) && (raw[places[m]].kind == kind::PLAYER_MESSAGE@ || raw[places[m]].kind == kind::NARRATION@ || tells_of_the_world(
        raw[places[m]],
    )) by {
        lemma_turn_tells(raw, raw[places[m]]);
        assert(told[head + m] == transcript::turns_between(raw, from, raw.len())[m]);
    }
    assert forall|k: int|
        from <= k < raw.len() && ((#[trigger] raw[k]).kind == kind::PLAYER_MESSAGE@ || raw[k].kind == kind::NARRATION@
            || tells_of_the_world(raw[k])) implies places.contains(k) by {
        lemma_turn_tells(raw, raw[k]);
    }
    (from, i, places)
}

} // verus!
