//! The conversation that a ledger stands for.

use vstd::prelude::*;

use crate::ai::{HistoryTurn, HistoryTurnMarker, HistoryTurnView};
use crate::compaction::summary;
use crate::ledger::kind;
use crate::ledger::model::{EntryView, LedgerEntry};
use crate::ledger::{reducer, repository};
use crate::store::Store;
use crate::{json, prompts, rows, text};

verus! {

/// The source of an entity that was there when its story began.
pub const STORY_BOOTSTRAP: &'static str = "story_bootstrap";

/// Whether the narrator is told of entries of a kind.
pub open spec fn contextual(k: Seq<char>) -> bool {
    ||| k == kind::ENTITY_CREATED@
    ||| k == kind::ENTITY_QUERIED@
    ||| k == kind::ENTITY_UPDATED@
    ||| k == kind::ENTITY_DELETED@
    ||| k == kind::ENTITY_ATTRIBUTE_CHANGED@
    ||| k == kind::ENTITY_ATTRIBUTE_REMOVED@
    ||| k == kind::IMAGE_GENERATED@
    ||| k == kind::DICEROLL@
}

/// A text that may be missing.
pub open spec fn or_nothing(s: Option<Seq<char>>) -> Seq<char> {
    match s {
        Some(s) => s,
        None => Seq::empty(),
    }
}

/// A message as the narrator reads it: that of the player between the tags of its mode.
pub open spec fn message_content(message: EntryView) -> Seq<char> {
    let content = or_nothing(message.content);
    if message.kind == kind::PLAYER_MESSAGE@ {
        let mode = or_nothing(json::text_field(message.payload, "input_mode"@));
        match prompts::rendered_turn(mode, content) {
            Some(rendered) => rendered,
            None => content,
        }
    } else {
        content
    }
}

/// A message as a turn of the conversation, with the content that it has now.
pub open spec fn message_turn(raw: Seq<EntryView>, entry: EntryView) -> HistoryTurnView {
    HistoryTurnView {
        entry_id: Some(entry.id),
        is_player: entry.kind == kind::PLAYER_MESSAGE@,
        content: message_content(reducer::active(raw, entry)),
        marker: HistoryTurnMarker::Ledger,
    }
}

/// An event as a turn of the conversation: its content, or its payload where it has none.
pub open spec fn event_turn(entry: EntryView) -> HistoryTurnView {
    HistoryTurnView {
        entry_id: Some(entry.id),
        is_player: false,
        content: "[Authoritative story event: "@ + entry.kind + "]\n"@ + (match entry.content {
            Some(content) => content,
            None => json::printed(entry.payload),
        }),
        marker: HistoryTurnMarker::Ledger,
    }
}

/// A summary as a turn of the conversation.
pub open spec fn summary_turn(entry: EntryView) -> HistoryTurnView {
    HistoryTurnView {
        entry_id: None,
        is_player: false,
        content: "[Authoritative context summary]\n"@ + or_nothing(entry.content),
        marker: HistoryTurnMarker::Summary,
    }
}

/// The turn of the conversation that an entry is, if it is one.
pub open spec fn turn_of(raw: Seq<EntryView>, entry: EntryView) -> Option<HistoryTurnView> {
    if entry.kind == kind::CONTEXT_SUMMARY@ {
        None
    } else if reducer::is_message(entry) {
        Some(message_turn(raw, entry))
    } else if entry.kind == kind::ENTITY_CREATED@ && json::text_field(entry.payload, "source"@) == Some(
        STORY_BOOTSTRAP@,
    ) {
        None
    } else if contextual(entry.kind) {
        Some(event_turn(entry))
    } else {
        None
    }
}

/// The condition of having an identifier.
pub open spec fn id_is(id: Seq<char>) -> spec_fn(EntryView) -> bool {
    |e: EntryView| e.id == id
}

/// Where the entry stands up to which the summary at a place speaks: nowhere where there is
/// no such summary, and where the entry does not stand before it.
pub open spec fn covered_by(raw: Seq<EntryView>, i: int) -> Option<int> {
    if raw[i].kind != kind::CONTEXT_SUMMARY@ {
        None
    } else {
        match json::text_field(raw[i].payload, "through_entry_id"@) {
            Some(id) => match rows::first_index(raw, id_is(id)) {
                Some(c) => if c < i {
                    Some(c)
                } else {
                    None
                },
                None => None,
            },
            None => None,
        }
    }
}

/// Where the newest summary stands that speaks of something before it, among the first `n`
/// entries.
pub open spec fn newest_cover(raw: Seq<EntryView>, n: nat) -> Option<int>
    decreases n,
{
    if n == 0 {
        None
    } else if covered_by(raw, n - 1) is Some {
        Some(n - 1)
    } else {
        newest_cover(raw, (n - 1) as nat)
    }
}

/// The turns of the entries from a place on, among the first `n`.
pub open spec fn turns_between(raw: Seq<EntryView>, from: int, n: nat) -> Seq<HistoryTurnView>
    decreases n,
{
    if n == 0 {
        Seq::empty()
    } else {
        let before = turns_between(raw, from, (n - 1) as nat);
        if n - 1 < from {
            before
        } else {
            match turn_of(raw, raw[n - 1]) {
                Some(turn) => before.push(turn),
                None => before,
            }
        }
    }
}

/// The conversation that a run of entries stands for: the newest summary in place of what it
/// covers, then the turns of what follows.
pub open spec fn conversation(raw: Seq<EntryView>) -> Seq<HistoryTurnView> {
    match newest_cover(raw, raw.len()) {
        Some(i) => seq![summary_turn(raw[i])] + turns_between(
            raw,
            covered_by(raw, i)->0 + 1,
            raw.len(),
        ),
        None => turns_between(raw, 0, raw.len()),
    }
}

fn is_contextual(k: &str) -> (r: bool)
    ensures
        r == contextual(k@),
{
    text::same_text(k, kind::ENTITY_CREATED) || text::same_text(k, kind::ENTITY_QUERIED) || text::same_text(
        k,
        kind::ENTITY_UPDATED,
    ) || text::same_text(k, kind::ENTITY_DELETED) || text::same_text(k, kind::ENTITY_ATTRIBUTE_CHANGED)
        || text::same_text(k, kind::ENTITY_ATTRIBUTE_REMOVED) || text::same_text(k, kind::IMAGE_GENERATED)
        || text::same_text(k, kind::DICEROLL)
}

/// A text that may be missing.
pub fn text_or_nothing(s: &Option<String>) -> (r: String)
    ensures
        r@ == or_nothing(s.deep_view()),
{
    match s {
        Some(s) => s.clone(),
        None => String::new(),
    }
}

fn render_message(message: &LedgerEntry) -> (r: String)
    ensures
        r@ == message_content(message@),
{
    let content = text_or_nothing(&message.content);
    if !text::same_text(message.kind.as_str(), kind::PLAYER_MESSAGE) {
        return content;
    }
    let mode = match message.payload.str_field("input_mode") {
        Some(mode) => mode.to_string(),
        None => String::new(),
    };
    match prompts::render_turn(mode.as_str(), content.as_str()) {
        Some(rendered) => rendered,
        None => content,
    }
}

fn turn_for(raw: &Vec<LedgerEntry>, entry: &LedgerEntry) -> (r: Option<HistoryTurn>)
    ensures
        r.deep_view() == turn_of(raw.deep_view(), entry@),
{
    let k = entry.kind.as_str();
    if text::same_text(k, kind::CONTEXT_SUMMARY) {
        return None;
    }
    if text::same_text(k, kind::PLAYER_MESSAGE) || text::same_text(k, kind::NARRATION) {
        let visible = reducer::active_copy(raw, entry);
        return Some(
            HistoryTurn {
                entry_id: Some(entry.id.clone()),
                is_player: text::same_text(k, kind::PLAYER_MESSAGE),
                content: render_message(&visible),
                marker: HistoryTurnMarker::Ledger,
            },
        );
    }
    if text::same_text(k, kind::ENTITY_CREATED) {
        if let Some(source) = entry.payload.str_field("source") {
            if text::same_text(source, STORY_BOOTSTRAP) {
                return None;
            }
        }
    }
    if !is_contextual(k) {
        return None;
    }
    let content = match &entry.content {
        Some(content) => content.clone(),
        None => json::print(&entry.payload),
    };
    Some(
        HistoryTurn {
            entry_id: Some(entry.id.clone()),
            is_player: false,
            content: text::concat4("[Authoritative story event: ", k, "]\n", content.as_str()),
            marker: HistoryTurnMarker::Ledger,
        },
    )
}

/// Where the first entry with an identifier stands.
pub fn index_of_id(raw: &Vec<LedgerEntry>, id: &str) -> (r: Option<usize>)
    ensures
        match r {
            Some(i) => i < raw@.len() && rows::first_index(raw.deep_view(), id_is(id@)) == Some(i as int),
            None => rows::first_index(raw.deep_view(), id_is(id@)) is None,
        },
{
    let ghost p = id_is(id@);
    let meant = |row: &LedgerEntry| -> (b: bool)
        ensures
            b == p(row.deep_view()),
    {
        text::same_text(row.id.as_str(), id)
    };
    rows::position(raw, meant, Ghost(p))
}

fn coverage(raw: &Vec<LedgerEntry>, i: usize) -> (r: Option<usize>)
    requires
        i < raw@.len(),
    ensures
        match r {
            Some(c) => c < i && covered_by(raw.deep_view(), i as int) == Some(c as int),
            None => covered_by(raw.deep_view(), i as int) is None,
        },
{
    let entry = &raw[i];
    if !text::same_text(entry.kind.as_str(), kind::CONTEXT_SUMMARY) {
        return None;
    }
    match entry.payload.str_field("through_entry_id") {
        Some(id) => match index_of_id(raw, id) {
            Some(c) => if c < i {
                Some(c)
            } else {
                None
            },
            None => None,
        },
        None => None,
    }
}

/// Where the newest summary stands that speaks of something before it, and where the entry
/// stands up to which it speaks.
pub fn newest_coverage(raw: &Vec<LedgerEntry>) -> (r: Option<(usize, usize)>)
    ensures
        match r {
            Some((i, c)) => {
                &&& i < raw@.len()
                &&& newest_cover(raw.deep_view(), raw@.len()) == Some(i as int)
                &&& covered_by(raw.deep_view(), i as int) == Some(c as int)
                &&& c < i
            },
            None => newest_cover(raw.deep_view(), raw@.len()) is None,
        },
{
    let ghost all = raw.deep_view();
    let mut found: Option<(usize, usize)> = None;
    let mut n: usize = raw.len();
    while n > 0 && found.is_none()
        invariant
            0 <= n <= raw@.len(),
            all == raw.deep_view(),
            match found {
                Some((i, c)) => {
                    &&& i < raw@.len()
                    &&& newest_cover(all, all.len()) == Some(i as int)
                    &&& covered_by(all, i as int) == Some(c as int)
                    &&& c < i
                },
                None => newest_cover(all, all.len()) == newest_cover(all, n as nat),
            },
        decreases n,
    {
        n -= 1;
        if let Some(c) = coverage(raw, n) {
            found = Some((n, c));
        }
    }
    found
}

/// The conversation that a run of entries stands for. The newest summary takes the place of
/// what it covers; what follows is there in its order, each message with its last edit.
pub fn history_from_entries(raw: &Vec<LedgerEntry>) -> (r: Vec<HistoryTurn>)
    ensures
        r.deep_view() == conversation(raw.deep_view()),
{
    let ghost all = raw.deep_view();
    let found = newest_coverage(raw);
    let mut history: Vec<HistoryTurn> = Vec::new();
    let mut start: usize = 0;
    if let Some((i, c)) = found {
        let content = text_or_nothing(&raw[i].content);
        let turn = HistoryTurn {
            entry_id: None,
            is_player: false,
            content: text::concat2("[Authoritative context summary]\n", content.as_str()),
            marker: HistoryTurnMarker::Summary,
        };
        history.push(turn);
        start = c + 1;
        assert(history.deep_view() =~= seq![summary_turn(all[i as int])]);
    } else {
        assert(history.deep_view() =~= Seq::empty());
    }
    let ghost head = history.deep_view();
    let mut k: usize = 0;
    assert(head + turns_between(all, start as int, 0) =~= head);
    while k < raw.len()
        invariant
            0 <= k <= raw@.len(),
            all == raw.deep_view(),
            history.deep_view() == head + turns_between(all, start as int, k as nat),
        decreases raw@.len() - k,
    {
        assert(all[k as int] == raw@[k as int]@);
        let ghost so_far = turns_between(all, start as int, k as nat);
        if k >= start {
            if let Some(turn) = turn_for(raw, &raw[k]) {
                let ghost before = history;
                let ghost value = turn;
                history.push(turn);
                proof {
                    rows::lemma_deep_push(before, history, value);
                    assert((head + so_far).push(value@) =~= head + so_far.push(value@));
                }
            }
        }
        k += 1;
    }
    proof {
        if found is None {
            assert(head + turns_between(all, 0, all.len()) =~= turns_between(all, 0, all.len()));
        }
    }
    history
}

/// The entries that the conversation of a story is made from: those from the entry on up to
/// which the newest summary that holds speaks, or all of them.
pub open spec fn recent_entries(entries: Seq<EntryView>, story_id: Seq<char>) -> Seq<EntryView> {
    match summary::newest_summary(entries, story_id, None) {
        Some(e) => repository::entries_since(entries, story_id, (summary::through(e)->0).0),
        None => repository::story_entries(entries, story_id),
    }
}

/// The conversation of a story so far.
pub fn load_transcript(store: &Store, story_id: &str) -> (r: Vec<HistoryTurn>)
    ensures
        r.deep_view() == conversation(recent_entries(store@.entries, story_id@)),
{
    let raw = match summary::boundary_for(store, story_id, None) {
        Some(boundary) => repository::list_logical_entries_since(store, story_id, boundary.through_seq),
        None => repository::list_logical_entries(store, story_id),
    };
    history_from_entries(&raw)
}

/// Every turn behind a summary is that of an entry behind the last one that the summary
/// covers.
pub proof fn law_summary_replaces_what_it_covers(raw: Seq<EntryView>, from: int, n: nat, i: int)
    requires
        n <= raw.len(),
        0 <= i < turns_between(raw, from, n).len(),
    ensures
        exists|k: int|
            from <= k < n && 0 <= k && turn_of(raw, #[trigger] raw[k]) == Some(turns_between(raw, from, n)[i]),
    decreases n,
{
    let before = turns_between(raw, from, (n - 1) as nat);
    if i < before.len() {
        law_summary_replaces_what_it_covers(raw, from, (n - 1) as nat, i);
    } else {
        assert(turn_of(raw, raw[n - 1]) == Some(turns_between(raw, from, n)[i]));
    }
}

/// Every entry behind the last one that a summary covers is still told of.
pub proof fn law_later_events_are_kept(raw: Seq<EntryView>, from: int, n: nat, k: int)
    requires
        n <= raw.len(),
        from <= k < n,
        0 <= k,
        turn_of(raw, raw[k]) is Some,
    ensures
        turns_between(raw, from, n).contains(turn_of(raw, raw[k])->0),
    decreases n,
{
    let before = turns_between(raw, from, (n - 1) as nat);
    let whole = turns_between(raw, from, n);
    if k == n - 1 {
        assert(whole.last() == turn_of(raw, raw[k])->0);
    } else {
        law_later_events_are_kept(raw, from, (n - 1) as nat, k);
        let m = choose|m: int| 0 <= m < before.len() && before[m] == turn_of(raw, raw[k])->0;
        assert(whole[m] == before[m]);
    }
}

proof fn lemma_newest_cover_none(raw: Seq<EntryView>, n: nat)
    requires
        forall|i: int| 0 <= i < n ==> covered_by(raw, i) is None,
    ensures
        newest_cover(raw, n) is None,
    decreases n,
{
    if n > 0 {
        lemma_newest_cover_none(raw, (n - 1) as nat);
    }
}

/// A summary that speaks up to an entry that is not there hides nothing: where no summary
/// covers an entry before it, the conversation has the turns of all entries.
pub proof fn law_stale_summary_hides_nothing(raw: Seq<EntryView>)
    requires
        forall|i: int| 0 <= i < raw.len() ==> covered_by(raw, i) is None,
    ensures
        conversation(raw) == turns_between(raw, 0, raw.len()),
{
    lemma_newest_cover_none(raw, raw.len());
}

/// Whether edits stand behind what they edit.
pub open spec fn edits_follow(entries: Seq<EntryView>) -> bool {
    forall|a: int, b: int|
        0 <= a < b < entries.len() ==> !reducer::edits(#[trigger] entries[a], (#[trigger] entries[b]).id)
}

/// Whether no two entries have the same identifier.
pub open spec fn distinct(raw: Seq<EntryView>) -> bool {
    forall|i: int, k: int| 0 <= i < k < raw.len() ==> (#[trigger] raw[i]).id != (#[trigger] raw[k]).id
}

pub(crate) proof fn lemma_first_index_distinct(raw: Seq<EntryView>, id: Seq<char>, c: int)
    requires
        distinct(raw),
        0 <= c < raw.len(),
        raw[c].id == id,
    ensures
        rows::first_index(raw, id_is(id)) == Some(c),
{
    assert forall|k: int| 0 <= k < c implies !id_is(id)(#[trigger] raw[k]) by {
        assert(raw[k].id != raw[c].id);
    }
    rows::lemma_first_index_hit(raw, id_is(id), c);
}

pub(crate) proof fn lemma_newest_cover(raw: Seq<EntryView>, n: nat)
    ensures
        match newest_cover(raw, n) {
            Some(i) => {
                &&& 0 <= i < n
                &&& covered_by(raw, i) is Some
                &&& forall|j: int| i < j < n ==> (#[trigger] covered_by(raw, j)) is None
            },
            None => forall|j: int| 0 <= j < n ==> (#[trigger] covered_by(raw, j)) is None,
        },
    decreases n,
{
    if n > 0 {
        lemma_newest_cover(raw, (n - 1) as nat);
    }
}

proof fn lemma_newest_cover_at(raw: Seq<EntryView>, n: nat, i: int)
    requires
        0 <= i < n,
        covered_by(raw, i) is Some,
        forall|j: int| i < j < n ==> (#[trigger] covered_by(raw, j)) is None,
    ensures
        newest_cover(raw, n) == Some(i),
    decreases n,
{
    if i < n - 1 {
        assert(covered_by(raw, n - 1) is None);
        lemma_newest_cover_at(raw, (n - 1) as nat, i);
    }
}

proof fn lemma_covered_by_skip(raw: Seq<EntryView>, c: int, j: int)
    requires
        distinct(raw),
        0 <= c <= raw.len(),
        0 <= j < raw.len() - c,
    ensures
        covered_by(raw.skip(c), j) == (match covered_by(raw, j + c) {
            Some(x) => if x >= c {
                Some(x - c)
            } else {
                None
            },
            None => None,
        }),
{
    let tail = raw.skip(c);
    assert(tail[j] == raw[j + c]);
    if raw[j + c].kind == kind::CONTEXT_SUMMARY@ {
        if let Some(id) = json::text_field(raw[j + c].payload, "through_entry_id"@) {
            rows::lemma_first_index(raw, id_is(id));
            rows::lemma_first_index(tail, id_is(id));
            assert(distinct(tail)) by {
                assert forall|i: int, k: int| 0 <= i < k < tail.len() implies (#[trigger] tail[i]).id != (
                #[trigger] tail[k]).id by {
                    assert(tail[i] == raw[i + c]);
                    assert(tail[k] == raw[k + c]);
                }
            }
            match rows::first_index(raw, id_is(id)) {
                Some(x) => {
                    if x >= c {
                        assert(tail[x - c] == raw[x]);
                        lemma_first_index_distinct(tail, id, x - c);
                    } else {
                        if let Some(y) = rows::first_index(tail, id_is(id)) {
                            assert(raw[y + c] == tail[y]);
                            assert(raw[x].id != raw[y + c].id);
                        }
                    }
                },
                None => {
                    if let Some(y) = rows::first_index(tail, id_is(id)) {
                        assert(raw[y + c] == tail[y]);
                        assert(!id_is(id)(raw[y + c]));
                    }
                },
            }
        }
    }
}

proof fn lemma_turn_of_skip(raw: Seq<EntryView>, c: int, k: int)
    requires
        edits_follow(raw),
        0 <= c <= k < raw.len(),
    ensures
        turn_of(raw.skip(c), raw[k]) == turn_of(raw, raw[k]),
{
    let p = |e: EntryView| reducer::edits(e, raw[k].id);
    assert forall|a: int| 0 <= a < c implies !p(#[trigger] raw[a]) by {
        assert(!reducer::edits(raw[a], raw[k].id));
    }
    rows::lemma_last_where_skip(raw, p, c);
}

proof fn lemma_turns_between_skip(raw: Seq<EntryView>, c: int, from: int, n: nat)
    requires
        edits_follow(raw),
        0 <= c <= from,
        c + n <= raw.len(),
    ensures
        turns_between(raw.skip(c), from - c, n) == turns_between(raw, from, (c + n) as nat),
    decreases n,
{
    if n == 0 {
        lemma_turns_between_none(raw, from, c as nat);
    } else {
        lemma_turns_between_skip(raw, c, from, (n - 1) as nat);
        assert(raw.skip(c)[n - 1] == raw[c + n - 1]);
        if n - 1 >= from - c {
            lemma_turn_of_skip(raw, c, c + n - 1);
        }
    }
}

proof fn lemma_turns_between_none(raw: Seq<EntryView>, from: int, n: nat)
    requires
        n <= from,
    ensures
        turns_between(raw, from, n) == Seq::<HistoryTurnView>::empty(),
    decreases n,
{
    if n > 0 {
        lemma_turns_between_none(raw, from, (n - 1) as nat);
    }
}

/// What stands before the entry up to which the newest summary speaks has no part in the
/// conversation.
pub proof fn law_covered_entries_have_no_part(raw: Seq<EntryView>, i: int, c: int)
    requires
        distinct(raw),
        edits_follow(raw),
        newest_cover(raw, raw.len()) == Some(i),
        covered_by(raw, i) == Some(c),
    ensures
        conversation(raw.skip(c)) == conversation(raw),
{
    lemma_newest_cover(raw, raw.len());
    if let Some(id) = json::text_field(raw[i].payload, "through_entry_id"@) {
        rows::lemma_first_index(raw, id_is(id));
    }
    let tail = raw.skip(c);
    let m = tail.len();
    assert forall|j: int| i - c < j < m implies (#[trigger] covered_by(tail, j)) is None by {
        lemma_covered_by_skip(raw, c, j);
        assert(covered_by(raw, j + c) is None);
    }
    lemma_covered_by_skip(raw, c, i - c);
    lemma_newest_cover_at(tail, m, i - c);
    assert(tail[i - c] == raw[i]);
    lemma_turns_between_skip(raw, c, c + 1, m);
}

/// Whether a summary of a story that speaks up to an entry that is there gives that entry's
/// sequence number with it, and stands behind the entry, in the same story.
pub open spec fn sound_summary(entries: Seq<EntryView>, story_id: Seq<char>, i: int) -> bool {
    let e = entries[i];
    e.story_id == story_id && e.kind == kind::CONTEXT_SUMMARY@ ==> match json::text_field(
        e.payload,
        "through_entry_id"@,
    ) {
        Some(id) => repository::holds_id(entries, id) ==> exists|j: int|
            0 <= j < i && (#[trigger] entries[j]).id == id && entries[j].story_id == story_id
                && json::int_field(e.payload, "through_seq"@) == Some(entries[j].seq),
        None => true,
    }
}

proof fn lemma_story_order(entries: Seq<EntryView>, story_id: Seq<char>)
    requires
        repository::in_order(entries),
        repository::distinct_ids(entries),
        edits_follow(entries),
    ensures
        distinct(repository::story_entries(entries, story_id)),
        edits_follow(repository::story_entries(entries, story_id)),
        forall|i: int, k: int|
            0 <= i < k < repository::story_entries(entries, story_id).len() ==> (
            #[trigger] repository::story_entries(entries, story_id)[i]).seq < (
            #[trigger] repository::story_entries(entries, story_id)[k]).seq,
{
    let own = repository::own_since(story_id, i64::MIN);
    let raw = repository::story_entries(entries, story_id);
    let by_id = |a: EntryView, b: EntryView| a.id != b.id;
    let by_edit = |a: EntryView, b: EntryView| !reducer::edits(a, b.id);
    let by_seq = |a: EntryView, b: EntryView| a.story_id == b.story_id ==> a.seq < b.seq;
    repository::lemma_listed_as_they_stand(entries, story_id, i64::MIN);
    rows::lemma_filter_pairwise(entries, own, by_id);
    rows::lemma_filter_pairwise(entries, own, by_edit);
    rows::lemma_filter_pairwise(entries, own, by_seq);
    assert forall|i: int, k: int| 0 <= i < k < raw.len() implies (#[trigger] raw[i]).id != (#[trigger] raw[k]).id by {
        assert(by_id(raw[i], raw[k]));
    }
    assert forall|i: int, k: int| 0 <= i < k < raw.len() implies !reducer::edits(
        #[trigger] raw[i],
        (#[trigger] raw[k]).id,
    ) by {
        assert(by_edit(raw[i], raw[k]));
    }
    assert forall|i: int, k: int| 0 <= i < k < raw.len() implies (#[trigger] raw[i]).seq < (#[trigger] raw[k]).seq by {
        assert(by_seq(raw[i], raw[k]));
        assert(raw.contains(raw[i]) && raw.contains(raw[k]));
        repository::lemma_listed(entries, story_id, i64::MIN, raw[i]);
        repository::lemma_listed(entries, story_id, i64::MIN, raw[k]);
    }
}

/// Where an entry of a story stands among the story's entries.
proof fn lemma_place(entries: Seq<EntryView>, story_id: Seq<char>, j: int) -> (c: int)
    requires
        0 <= j < entries.len(),
        entries[j].story_id == story_id,
    ensures
        0 <= c < repository::story_entries(entries, story_id).len(),
        repository::story_entries(entries, story_id)[c] == entries[j],
{
    assert(entries.contains(entries[j]));
    repository::lemma_listed(entries, story_id, i64::MIN, entries[j]);
    let raw = repository::story_entries(entries, story_id);
    choose|c: int| 0 <= c < raw.len() && raw[c] == entries[j]
}

/// Where an entry among those of a story stands in the ledger.
proof fn lemma_origin(entries: Seq<EntryView>, story_id: Seq<char>, k: int) -> (j: int)
    requires
        0 <= k < repository::story_entries(entries, story_id).len(),
    ensures
        0 <= j < entries.len(),
        entries[j] == repository::story_entries(entries, story_id)[k],
        entries[j].story_id == story_id,
{
    let raw = repository::story_entries(entries, story_id);
    assert(raw.contains(raw[k]));
    repository::lemma_listed(entries, story_id, i64::MIN, raw[k]);
    choose|j: int| 0 <= j < entries.len() && entries[j] == raw[k]
}

proof fn lemma_cover_is_holding(entries: Seq<EntryView>, story_id: Seq<char>, k: int)
    requires
        repository::in_order(entries),
        repository::distinct_ids(entries),
        edits_follow(entries),
        forall|i: int| 0 <= i < entries.len() ==> #[trigger] sound_summary(entries, story_id, i),
        0 <= k < repository::story_entries(entries, story_id).len(),
    ensures
        ({
            let raw = repository::story_entries(entries, story_id);
            &&& covered_by(raw, k) is Some <==> summary::holding(entries, story_id, None)(raw[k])
            &&& match covered_by(raw, k) {
                Some(c) => 0 <= c < k && raw[c].seq == (summary::through(raw[k])->0).0,
                None => true,
            }
        }),
{
    let raw = repository::story_entries(entries, story_id);
    lemma_story_order(entries, story_id);
    let i = lemma_origin(entries, story_id, k);
    assert(sound_summary(entries, story_id, i));
    if raw[k].kind == kind::CONTEXT_SUMMARY@ {
        if let Some(id) = json::text_field(raw[k].payload, "through_entry_id"@) {
            rows::lemma_first_index(raw, id_is(id));
            if repository::holds_id(entries, id) {
                let j = choose|j: int|
                    0 <= j < i && (#[trigger] entries[j]).id == id && entries[j].story_id == story_id
                        && json::int_field(entries[i].payload, "through_seq"@) == Some(entries[j].seq);
                let c = lemma_place(entries, story_id, j);
                assert(entries[j].seq < entries[i].seq);
                if c >= k {
                    if c > k {
                        assert(raw[k].seq < raw[c].seq);
                    }
                    assert(false);
                }
                lemma_first_index_distinct(raw, id, c);
            } else {
                if let Some(c) = rows::first_index(raw, id_is(id)) {
                    let j = lemma_origin(entries, story_id, c);
                    assert(entries[j].id == id);
                    assert(repository::holds_id(entries, id));
                }
            }
        }
    }
}

proof fn lemma_cover_is_last(raw: Seq<EntryView>, p: spec_fn(EntryView) -> bool, n: nat)
    requires
        n <= raw.len(),
        forall|k: int| 0 <= k < n ==> ((#[trigger] covered_by(raw, k)) is Some <==> p(raw[k])),
    ensures
        match rows::last_where(raw.take(n as int), p) {
            Some(x) => newest_cover(raw, n) is Some && raw[newest_cover(raw, n)->0] == x,
            None => newest_cover(raw, n) is None,
        },
    decreases n,
{
    if n > 0 {
        assert(raw.take(n as int).drop_last() =~= raw.take(n - 1));
        assert(raw.take(n as int).last() == raw[n - 1]);
        assert(covered_by(raw, n - 1) is Some <==> p(raw[n - 1]));
        lemma_cover_is_last(raw, p, (n - 1) as nat);
    }
}

/// The conversation of a story can be told from its newest summary on: reading the entries
/// from there gives the same conversation as reading all of them.
pub proof fn law_recent_entries_tell_the_whole_story(entries: Seq<EntryView>, story_id: Seq<char>)
    requires
        repository::in_order(entries),
        repository::distinct_ids(entries),
        edits_follow(entries),
        forall|i: int| 0 <= i < entries.len() ==> #[trigger] sound_summary(entries, story_id, i),
    ensures
        conversation(recent_entries(entries, story_id)) == conversation(
            repository::story_entries(entries, story_id),
        ),
{
    let raw = repository::story_entries(entries, story_id);
    let p = summary::holding(entries, story_id, None);
    lemma_story_order(entries, story_id);
    if let Some(e) = summary::newest_summary(entries, story_id, None) {
        assert forall|k: int| 0 <= k < raw.len() implies ((#[trigger] covered_by(raw, k)) is Some <==> p(
            raw[k],
        )) by {
            lemma_cover_is_holding(entries, story_id, k);
        }
        lemma_cover_is_last(raw, p, raw.len());
        rows::lemma_take_all(raw);
        let i = newest_cover(raw, raw.len())->0;
        lemma_newest_cover(raw, raw.len());
        lemma_cover_is_holding(entries, story_id, i);
        let c = covered_by(raw, i)->0;
        let since = (summary::through(e)->0).0;
        let q = repository::own_since(story_id, since);
        assert forall|k: int| 0 <= k < raw.len() implies q(#[trigger] raw[k]) == (k >= c) by {
            let j = lemma_origin(entries, story_id, k);
            if k < c {
                assert(raw[k].seq < raw[c].seq);
            } else if k > c {
                assert(raw[c].seq < raw[k].seq);
            }
        }
        rows::lemma_filter_suffix(raw, q, c);
        repository::lemma_listed_since(entries, story_id, since);
        law_covered_entries_have_no_part(raw, i, c);
    }
}

} // verus!
