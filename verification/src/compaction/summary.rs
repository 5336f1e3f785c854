//! What a summary says, how far it reaches, and when it no longer holds.

use vstd::prelude::*;

use crate::json::{Json, JsonView};
use crate::ledger::kind;
use crate::ledger::model::{EntryView, LedgerEntry};
use crate::ledger::repository;
use crate::store::{Store, StoreView};
use crate::{json, rows, text};

verus! {

/// How far a summary reaches.
#[derive(Debug, PartialEq)]
pub struct SummaryBoundary {
    pub summary_entry_id: String,
    pub through_seq: i64,
}

/// The entry up to which a summary speaks, by its payload.
pub open spec fn through(entry: EntryView) -> Option<(i64, Seq<char>)> {
    match (
        json::int_field(entry.payload, "through_seq"@),
        json::text_field(entry.payload, "through_entry_id"@),
    ) {
        (Some(seq), Some(id)) => Some((seq, id)),
        _ => None,
    }
}

/// Whether an entry is a summary of a story that holds: the entry up to which it speaks
/// is there, and where there is a cut, both stand before it.
pub open spec fn holding(entries: Seq<EntryView>, story_id: Seq<char>, before_seq: Option<i64>) -> spec_fn(
    EntryView,
) -> bool {
    |e: EntryView|
        {
            &&& e.story_id == story_id
            &&& e.kind == kind::CONTEXT_SUMMARY@
            &&& through(e) is Some
            &&& repository::holds_id(entries, (through(e)->0).1)
            &&& match before_seq {
                Some(cut) => e.seq < cut && (through(e)->0).0 < cut,
                None => true,
            }
        }
}

/// The newest summary of a story that holds.
pub open spec fn newest_summary(entries: Seq<EntryView>, story_id: Seq<char>, before_seq: Option<i64>) -> Option<
    EntryView,
> {
    rows::last_where(repository::story_entries(entries, story_id), holding(entries, story_id, before_seq))
}

/// The entry up to which a summary speaks, by its payload.
fn through_of(entry: &LedgerEntry) -> (r: Option<(i64, String)>)
    ensures
        r.deep_view() == through(entry@),
{
    match (entry.payload.int_field("through_seq"), entry.payload.str_field("through_entry_id")) {
        (Some(seq), Some(id)) => Some((seq, id.to_string())),
        _ => None,
    }
}

fn is_holding(entries: &Vec<LedgerEntry>, entry: &LedgerEntry, story_id: &str, before_seq: Option<i64>) -> (r: bool)
    ensures
        r == holding(entries.deep_view(), story_id@, before_seq)(entry@),
{
    if !text::same_text(entry.story_id.as_str(), story_id) || !text::same_text(
        entry.kind.as_str(),
        kind::CONTEXT_SUMMARY,
    ) {
        return false;
    }
    match through_of(entry) {
        Some((seq, id)) => {
            repository::has_entry(entries, id.as_str()) && match before_seq {
                Some(cut) => entry.seq < cut && seq < cut,
                None => true,
            }
        },
        None => false,
    }
}

/// How far the newest summary of a story reaches that holds. Where a retry looks at the
/// story before a cut, both the summary and what it reaches must stand before it.
pub fn boundary_for(store: &Store, story_id: &str, before_seq: Option<i64>) -> (r: Option<SummaryBoundary>)
    ensures
        match newest_summary(store@.entries, story_id@, before_seq) {
            Some(e) => {
                &&& r is Some
                &&& r->0.summary_entry_id@ == e.id
                &&& r->0.through_seq == (through(e)->0).0
            },
            None => r is None,
        },
{
    let listed = repository::list_logical_entries(store, story_id);
    let ghost all = listed.deep_view();
    let ghost p = holding(store@.entries, story_id@, before_seq);
    let mut i: usize = listed.len();
    while i > 0
        invariant
            0 <= i <= listed@.len(),
            all == listed.deep_view(),
            all == repository::story_entries(store@.entries, story_id@),
            p == holding(store@.entries, story_id@, before_seq),
            forall|k: int| i <= k < all.len() ==> !p(#[trigger] all[k]),
        decreases i,
    {
        i -= 1;
        assert(all[i as int] == listed@[i as int]@);
        let entry = &listed[i];
        if is_holding(&store.entries, entry, story_id, before_seq) {
            proof {
                rows::lemma_last_where_hit(all, p, i as int);
            }
            return match through_of(entry) {
                Some((through_seq, _)) => Some(
                    SummaryBoundary { summary_entry_id: entry.id.clone(), through_seq },
                ),
                None => None,
            };
        }
    }
    proof {
        rows::lemma_last_where_miss(all, p);
    }
    None
}

/// What a story has come to, in sections.
#[derive(Debug, PartialEq)]
pub struct ContextSummary {
    pub prose: String,
    pub facts: Vec<String>,
    pub entity_notes: Vec<String>,
    pub open_threads: Vec<String>,
    pub unresolved_mechanics: Vec<String>,
}

/// What a `ContextSummary` stands for.
#[verifier::ext_equal]
pub struct ContextSummaryView {
    pub prose: Seq<char>,
    pub facts: Seq<Seq<char>>,
    pub entity_notes: Seq<Seq<char>>,
    pub open_threads: Seq<Seq<char>>,
    pub unresolved_mechanics: Seq<Seq<char>>,
}

impl View for ContextSummary {
    type V = ContextSummaryView;

    open spec fn view(&self) -> ContextSummaryView {
        ContextSummaryView {
            prose: self.prose@,
            facts: self.facts.deep_view(),
            entity_notes: self.entity_notes.deep_view(),
            open_threads: self.open_threads.deep_view(),
            unresolved_mechanics: self.unresolved_mechanics.deep_view(),
        }
    }
}

/// A summary that takes the place of what it sums up.
#[derive(Debug, PartialEq)]
pub struct SummaryArtifact(pub ContextSummary);

/// A summary as the narrator reads it: the prose, then each section as a list.
pub open spec fn summary_text(s: ContextSummaryView) -> Seq<char> {
    s.prose + "\n\nFacts:\n- "@ + text::joined(s.facts, "\n- "@) + "\nEntity notes:\n- "@ + text::joined(
        s.entity_notes,
        "\n- "@,
    ) + "\nOpen threads:\n- "@ + text::joined(s.open_threads, "\n- "@) + "\nUnresolved mechanics:\n- "@
        + text::joined(s.unresolved_mechanics, "\n- "@)
}

/// A summary as the narrator reads it: the prose, then each section as a list.
pub fn format_summary(summary: &ContextSummary) -> (r: String)
    ensures
        r@ == summary_text(summary@),
{
    let facts = text::join(&summary.facts, "\n- ");
    let notes = text::join(&summary.entity_notes, "\n- ");
    let threads = text::join(&summary.open_threads, "\n- ");
    let mechanics = text::join(&summary.unresolved_mechanics, "\n- ");
    let head = text::concat5(
        summary.prose.as_str(),
        "\n\nFacts:\n- ",
        facts.as_str(),
        "\nEntity notes:\n- ",
        notes.as_str(),
    );
    text::concat5(
        head.as_str(),
        "\nOpen threads:\n- ",
        threads.as_str(),
        "\nUnresolved mechanics:\n- ",
        mechanics.as_str(),
    )
}

/// The summary that a payload holds.
pub open spec fn summary_of(payload: JsonView) -> Option<ContextSummaryView> {
    match (
        json::text_field(payload, "prose"@),
        json::texts_field(payload, "facts"@),
        json::texts_field(payload, "entity_notes"@),
        json::texts_field(payload, "open_threads"@),
        json::texts_field(payload, "unresolved_mechanics"@),
    ) {
        (
            Some(prose),
            Some(facts),
            Some(entity_notes),
            Some(open_threads),
            Some(unresolved_mechanics),
        ) => Some(
            ContextSummaryView { prose, facts, entity_notes, open_threads, unresolved_mechanics },
        ),
        _ => None,
    }
}

fn read_summary(payload: &Json) -> (r: Option<ContextSummary>)
    ensures
        match r {
            Some(s) => summary_of(payload@) == Some(s@),
            None => summary_of(payload@) is None,
        },
{
    let prose = payload.str_field("prose");
    let facts = payload.texts_field("facts");
    let entity_notes = payload.texts_field("entity_notes");
    let open_threads = payload.texts_field("open_threads");
    let unresolved_mechanics = payload.texts_field("unresolved_mechanics");
    match (prose, facts, entity_notes, open_threads, unresolved_mechanics) {
        (
            Some(prose),
            Some(facts),
            Some(entity_notes),
            Some(open_threads),
            Some(unresolved_mechanics),
        ) => Some(
            ContextSummary {
                prose: prose.to_string(),
                facts,
                entity_notes,
                open_threads,
                unresolved_mechanics,
            },
        ),
        _ => None,
    }
}

/// The summary that the newest entry that holds one keeps, if it can be read.
pub open spec fn newest_artifact(entries: Seq<EntryView>, story_id: Seq<char>, before_seq: Option<i64>) -> Option<
    ContextSummaryView,
> {
    match newest_summary(entries, story_id, before_seq) {
        Some(e) => match repository::entry_with_id(entries, e.id) {
            Some(found) => summary_of(found.payload),
            None => None,
        },
        None => None,
    }
}

/// The summary that the newest entry that holds one keeps, if it can be read.
pub fn latest_summary_artifact(store: &Store, story_id: &str, before_seq: Option<i64>) -> (r: Option<
    SummaryArtifact,
>)
    ensures
        match r {
            Some(a) => newest_artifact(store@.entries, story_id@, before_seq) == Some(a.0@),
            None => newest_artifact(store@.entries, story_id@, before_seq) is None,
        },
{
    let boundary = match boundary_for(store, story_id, before_seq) {
        Some(boundary) => boundary,
        None => {
            return None;
        },
    };
    match repository::entry_position(&store.entries, boundary.summary_entry_id.as_str()) {
        Some(i) => match read_summary(&store.entries[i].payload) {
            Some(summary) => Some(SummaryArtifact(summary)),
            None => None,
        },
        None => None,
    }
}

/// What a model is asked in order to sum up the older part of a story.
pub fn compaction_prompt(carry_over: Option<&SummaryArtifact>, transcript: &str) -> (r: String)
    ensures
        r@ == "Previous summary:\n"@ + (match carry_over {
            Some(a) => summary_text(a.0@),
            None => Seq::empty(),
        }) + "\n\nOlder timeline messages to compact:\n"@ + transcript@,
{
    let prior = match carry_over {
        Some(a) => format_summary(&a.0),
        None => String::new(),
    };
    text::concat4(
        "Previous summary:\n",
        prior.as_str(),
        "\n\nOlder timeline messages to compact:\n",
        transcript,
    )
}

/// Whether an entry is a summary of a story that speaks up to an entry that goes away.
pub open spec fn covers(story_id: Seq<char>, doomed: Seq<Seq<char>>) -> spec_fn(EntryView) -> bool {
    |e: EntryView|
        {
            &&& e.story_id == story_id
            &&& e.kind == kind::CONTEXT_SUMMARY@
            &&& match json::text_field(e.payload, "through_entry_id"@) {
                Some(id) => doomed.contains(id),
                None => false,
            }
        }
}

/// Whether an entry stays where the summaries that cover an entry that goes away are removed.
pub open spec fn uncovered(story_id: Seq<char>, doomed: Seq<Seq<char>>) -> spec_fn(EntryView) -> bool {
    |e: EntryView| !covers(story_id, doomed)(e)
}

fn is_covering(entry: &LedgerEntry, story_id: &str, doomed: &Vec<String>) -> (r: bool)
    ensures
        r == covers(story_id@, doomed.deep_view())(entry@),
{
    if !text::same_text(entry.story_id.as_str(), story_id) || !text::same_text(
        entry.kind.as_str(),
        kind::CONTEXT_SUMMARY,
    ) {
        return false;
    }
    match entry.payload.str_field("through_entry_id") {
        Some(id) => text::list_contains(doomed, id),
        None => false,
    }
}

/// Removes the summaries of a story that speak up to an entry that goes away.
pub fn prune_summaries_covering(store: &mut Store, story_id: &str, doomed_ids: &Vec<String>)
    ensures
        final(store)@ == (StoreView {
            entries: old(store)@.entries.filter(uncovered(story_id@, doomed_ids.deep_view())),
            ..old(store)@
        }),
{
    let ghost all = store.entries.deep_view();
    let ghost p = uncovered(story_id@, doomed_ids.deep_view());
    let mut kept: Vec<LedgerEntry> = Vec::new();
    let mut i: usize = 0;
    assert(all.take(0).filter(p) =~= Seq::empty()) by {
        reveal(Seq::filter);
    }
    while i < store.entries.len()
        invariant
            0 <= i <= store.entries@.len(),
            store@ == old(store)@,
            all == store.entries.deep_view(),
            p == uncovered(story_id@, doomed_ids.deep_view()),
            kept.deep_view() == all.take(i as int).filter(p),
        decreases store.entries@.len() - i,
    {
        let entry = &store.entries[i];
        proof {
            assert(all[i as int] == entry@);
            rows::lemma_filter_step(all, p, i as int);
        }
        if !is_covering(entry, story_id, doomed_ids) {
            let copy = entry.copy();
            let ghost before = kept;
            let ghost value = copy;
            kept.push(copy);
            proof {
                rows::lemma_deep_push(before, kept, value);
            }
        }
        i += 1;
    }
    proof {
        rows::lemma_take_all(all);
    }
    store.entries = kept;
}

/// After the summaries that cover entries that go away were removed, no summary of the
/// story speaks up to one of them; every other entry is still there.
pub proof fn law_pruning_leaves_no_stale_summary(
    entries: Seq<EntryView>,
    story_id: Seq<char>,
    doomed: Seq<Seq<char>>,
    entry: EntryView,
)
    ensures
        entries.filter(uncovered(story_id, doomed)).contains(entry) <==> entries.contains(entry) && !covers(
            story_id,
            doomed,
        )(entry),
{
    rows::lemma_filter_member(entries, uncovered(story_id, doomed), entry);
}

/// Whether an entry is a summary of a story that says up to where it speaks, that entry is still
/// there, and both come before a cut, where there is one.
pub open spec fn speaks_up_to(
    entries: Seq<EntryView>,
    story_id: Seq<char>,
    cut: Option<i64>,
    e: EntryView,
    seq: i64,
    id: Seq<char>,
) -> bool {
    &&& e.story_id == story_id
    &&& e.kind == "context_summary"@
    &&& json::int_field(e.payload, "through_seq"@) == Some(seq)
    &&& json::text_field(e.payload, "through_entry_id"@) == Some(id)
    &&& exists|i: int| 0 <= i < entries.len() && (#[trigger] entries[i]).id == id
    &&& cut is Some ==> e.seq < cut->0 && seq < cut->0
}

/// The summary that counts is one that speaks up to an entry that is still there, before the cut,
/// and no other such summary of the story comes after it. There is none only where the story has
/// no such summary.
pub proof fn law_newest_sound_summary_counts(entries: Seq<EntryView>, story_id: Seq<char>, cut: Option<i64>)
    ensures
        match newest_summary(entries, story_id, cut) {
            Some(e) => {
                &&& entries.contains(e)
                &&& through(e) is Some
                &&& speaks_up_to(entries, story_id, cut, e, (through(e)->0).0, (through(e)->0).1)
                &&& forall|i: int, seq: i64, id: Seq<char>|
                    0 <= i < entries.len() && #[trigger] speaks_up_to(entries, story_id, cut, entries[i], seq, id)
                        ==> entries[i].seq <= e.seq
            },
            None => forall|i: int, seq: i64, id: Seq<char>|
                0 <= i < entries.len() ==> !#[trigger] speaks_up_to(entries, story_id, cut, entries[i], seq, id),
        },
{
    let list = repository::story_entries(entries, story_id);
    let p = holding(entries, story_id, cut);
    repository::law_story_is_listed_in_sequence(entries, story_id, i64::MIN);
    rows::lemma_last_where_places(list, p);
    assert forall|i: int, seq: i64, id: Seq<char>|
        0 <= i < entries.len() && #[trigger] speaks_up_to(entries, story_id, cut, entries[i], seq, id) implies exists|
        k: int,
    | 0 <= k < list.len() && #[trigger] list[k] == entries[i] && p(list[k]) by {
        assert(entries.contains(entries[i]));
        assert(list.contains(entries[i]));
        let k = choose|k: int| 0 <= k < list.len() && list[k] == entries[i];
        assert(repository::holds_id(entries, id));
        assert(p(list[k]));
    }
    match newest_summary(entries, story_id, cut) {
        Some(e) => {
            let j = choose|j: int|
                0 <= j < list.len() && #[trigger] list[j] == e && p(list[j]) && forall|l: int|
                    j < l < list.len() ==> !p(#[trigger] list[l]);
            assert(list.contains(e));
            let there = choose|i: int| 0 <= i < entries.len() && (#[trigger] entries[i]).id == (through(e)->0).1;
            assert(entries[there].id == (through(e)->0).1);
            assert forall|i: int, seq: i64, id: Seq<char>|
                0 <= i < entries.len() && #[trigger] speaks_up_to(entries, story_id, cut, entries[i], seq, id)
                    implies entries[i].seq <= e.seq by {
                let k = choose|k: int| 0 <= k < list.len() && #[trigger] list[k] == entries[i] && p(list[k]);
                if k < j {
                    assert(list[k].seq <= list[j].seq);
                }
            }
        },
        None => {
            assert forall|i: int, seq: i64, id: Seq<char>| 0 <= i < entries.len() implies !#[trigger] speaks_up_to(
                entries,
                story_id,
                cut,
                entries[i],
                seq,
                id,
            ) by {
                if speaks_up_to(entries, story_id, cut, entries[i], seq, id) {
                    let k = choose|k: int| 0 <= k < list.len() && #[trigger] list[k] == entries[i] && p(list[k]);
                    assert(!p(list[k]));
                }
            }
        },
    }
}

/// Pruning takes the summaries of the story that speak up to an entry that goes away, and no other
/// entry, and leaves the rest in its order.
pub proof fn law_pruning_takes_stale_summaries_only(entries: Seq<EntryView>, story_id: Seq<char>, doomed: Seq<Seq<char>>)
    ensures
        entries.filter(uncovered(story_id, doomed)) == entries.filter(
            |e: EntryView|
                !(e.story_id == story_id && e.kind == "context_summary"@ && json::text_field(
                    e.payload,
                    "through_entry_id"@,
                ) is Some && doomed.contains(json::text_field(e.payload, "through_entry_id"@)->0)),
        ),
{
    assert((|e: EntryView|
        !(e.story_id == story_id && e.kind == "context_summary"@ && json::text_field(
            e.payload,
            "through_entry_id"@,
        ) is Some && doomed.contains(json::text_field(e.payload, "through_entry_id"@)->0))) =~= uncovered(
        story_id,
        doomed,
    ));
}

/// A summary is read from its fields, all of them or not at all.
pub proof fn law_summary_is_read_whole(payload: JsonView)
    ensures
        match summary_of(payload) {
            Some(s) => {
                &&& json::text_field(payload, "prose"@) == Some(s.prose)
                &&& json::texts_field(payload, "facts"@) == Some(s.facts)
                &&& json::texts_field(payload, "entity_notes"@) == Some(s.entity_notes)
                &&& json::texts_field(payload, "open_threads"@) == Some(s.open_threads)
                &&& json::texts_field(payload, "unresolved_mechanics"@) == Some(s.unresolved_mechanics)
            },
            None => json::text_field(payload, "prose"@) is None || json::texts_field(payload, "facts"@) is None
                || json::texts_field(payload, "entity_notes"@) is None || json::texts_field(
                payload,
                "open_threads"@,
            ) is None || json::texts_field(payload, "unresolved_mechanics"@) is None,
        },
{
}

/// What is told of a summary begins with its prose and has, in order, each list under its heading.
pub proof fn law_summary_tells_all_of_it(s: ContextSummaryView)
    ensures
        summary_text(s).take(s.prose.len() as int) == s.prose,
        summary_text(s) == s.prose + summary_text((ContextSummaryView { prose: Seq::empty(), ..s })),
        s.facts.len() == 1 && s.entity_notes.len() == 1 && s.open_threads.len() == 1 && s.unresolved_mechanics.len()
            == 1 ==> summary_text(s) == s.prose + "\n\nFacts:\n- "@ + s.facts[0] + "\nEntity notes:\n- "@
            + s.entity_notes[0] + "\nOpen threads:\n- "@ + s.open_threads[0] + "\nUnresolved mechanics:\n- "@
            + s.unresolved_mechanics[0],
{
    assert(summary_text(s).take(s.prose.len() as int) =~= s.prose);
    assert(summary_text(s) =~= s.prose + summary_text((ContextSummaryView { prose: Seq::empty(), ..s })));
}

} // verus!
