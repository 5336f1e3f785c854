//! What the tables hold of an entity stems from an entry of the ledger.

use vstd::prelude::*;

use super::events;
use super::events::EventView;
use super::projection;
use super::projection::ReplayScope;
use crate::error::ErrorView;
use crate::ledger::model::EntryView;
use crate::ledger::repository as ledger;
use crate::ledger::repository::DraftView;
use crate::rows;
use crate::store::{AttributeRowView, StateRowView, StoreView};

verus! {

/// Whether an entry with an identifier tells, in a story, what became of an entity.
pub open spec fn told_of(entries: Seq<EntryView>, id: Seq<char>, story_id: Seq<char>, entity_id: Seq<char>) -> bool {
    exists|k: int|
        0 <= k < entries.len() && (#[trigger] entries[k]).id == id && entries[k].story_id == story_id
            && projection::is_subject(entries[k], entity_id)
}

/// Whether a state stems from an entry that is there, where it stems from one.
pub open spec fn state_rooted(entries: Seq<EntryView>, row: StateRowView) -> bool {
    row.last_event_id is Some ==> told_of(entries, row.last_event_id->0, row.story_id, row.entity_id)
}

/// Whether a value stems from an entry that is there, where it stems from one.
pub open spec fn value_rooted(entries: Seq<EntryView>, row: AttributeRowView) -> bool {
    row.last_event_id is Some ==> told_of(entries, row.last_event_id->0, row.story_id, row.entity_id)
}

/// Whether the states and the values of all entities stem from entries that are there.
pub open spec fn rooted(store: StoreView) -> bool {
    &&& forall|i: int| 0 <= i < store.states.len() ==> state_rooted(store.entries, #[trigger] store.states[i])
    &&& forall|i: int| 0 <= i < store.attributes.len() ==> value_rooted(store.entries, #[trigger] store.attributes[i])
}

/// What entries tell is told where there are more of them.
pub proof fn lemma_told_on(
    entries: Seq<EntryView>,
    more: Seq<EntryView>,
    id: Seq<char>,
    story_id: Seq<char>,
    entity_id: Seq<char>,
)
    requires
        told_of(entries, id, story_id, entity_id),
        forall|e: EntryView| #[trigger] entries.contains(e) ==> more.contains(e),
    ensures
        told_of(more, id, story_id, entity_id),
{
    let k = choose|k: int|
        0 <= k < entries.len() && (#[trigger] entries[k]).id == id && entries[k].story_id == story_id
            && projection::is_subject(entries[k], entity_id);
    assert(entries.contains(entries[k]));
    let j = choose|j: int| 0 <= j < more.len() && more[j] == entries[k];
    assert(more[j].id == id);
}

/// Rows stay rooted where entries are added.
pub proof fn lemma_more_entries(store: StoreView, after: StoreView)
    requires
        rooted(store),
        after.states == store.states,
        after.attributes == store.attributes,
        forall|e: EntryView| #[trigger] store.entries.contains(e) ==> after.entries.contains(e),
    ensures
        rooted(after),
{
    assert forall|i: int| 0 <= i < after.states.len() implies state_rooted(after.entries, #[trigger] after.states[i]) by {
        let row = store.states[i];
        if row.last_event_id is Some {
            lemma_told_on(store.entries, after.entries, row.last_event_id->0, row.story_id, row.entity_id);
        }
    }
    assert forall|i: int| 0 <= i < after.attributes.len() implies value_rooted(
        after.entries,
        #[trigger] after.attributes[i],
    ) by {
        let row = store.attributes[i];
        if row.last_event_id is Some {
            lemma_told_on(store.entries, after.entries, row.last_event_id->0, row.story_id, row.entity_id);
        }
    }
}

/// Rows stay rooted where an event of the ledger is followed.
pub proof fn lemma_followed(store: StoreView, entry: EntryView, now: Seq<char>)
    requires
        rooted(store),
        store.entries.contains(entry),
        events::event_of(entry) is Some,
    ensures
        rooted(projection::applied(store, entry.story_id, entry.id, now, events::event_of(entry)->0)),
{
    let event = events::event_of(entry)->0;
    let story_id = entry.story_id;
    let after = projection::applied(store, story_id, entry.id, now, event);
    let at = choose|at: int| 0 <= at < store.entries.len() && store.entries[at] == entry;
    assert(projection::is_subject(store.entries[at], events::subject(event)));
    assert(told_of(store.entries, entry.id, story_id, events::subject(event)));
    assert forall|i: int| 0 <= i < after.states.len() implies state_rooted(after.entries, #[trigger] after.states[i]) by {
        match event {
            EventView::Created { entity_id, name, appearance_anchor, .. } => {
                let row = StateRowView {
                    story_id,
                    entity_id,
                    name,
                    appearance_anchor,
                    is_present: true,
                    updated_at: now,
                    last_event_id: Some(entry.id),
                };
                rows::lemma_upserted_member(store.states, projection::state_of(story_id, entity_id), row, i);
                if after.states[i] != row {
                    let k = choose|k: int| 0 <= k < store.states.len() && store.states[k] == after.states[i];
                    assert(state_rooted(store.entries, store.states[k]));
                }
            },
            _ => {
                assert(state_rooted(store.entries, store.states[i]));
            },
        }
    }
    assert forall|i: int| 0 <= i < after.attributes.len() implies value_rooted(
        after.entries,
        #[trigger] after.attributes[i],
    ) by {
        let x = after.attributes[i];
        match event {
            EventView::AttributeChanged { entity_id, attribute_id, after: value, source, .. } => {
                let row = AttributeRowView {
                    story_id,
                    entity_id,
                    attribute_id,
                    value,
                    source,
                    updated_at: now,
                    last_event_id: Some(entry.id),
                };
                rows::lemma_upserted_member(
                    store.attributes,
                    projection::value_of(story_id, entity_id, attribute_id),
                    row,
                    i,
                );
                if x != row {
                    let k = choose|k: int| 0 <= k < store.attributes.len() && store.attributes[k] == x;
                    assert(value_rooted(store.entries, store.attributes[k]));
                }
            },
            EventView::AttributeRemoved { entity_id, attribute_id, .. } => {
                assert(after.attributes.contains(x));
                rows::lemma_filter_member(
                    store.attributes,
                    projection::not_value_of(story_id, entity_id, attribute_id),
                    x,
                );
                let k = choose|k: int| 0 <= k < store.attributes.len() && store.attributes[k] == x;
                assert(value_rooted(store.entries, store.attributes[k]));
            },
            _ => {
                assert(value_rooted(store.entries, store.attributes[i]));
            },
        }
    }
}

/// Rows stay rooted through a replay of entries that are there.
pub proof fn lemma_replayed(scope: ReplayScope, start: StoreView, entries: Seq<EntryView>)
    requires
        rooted(start),
        forall|i: int|
            0 <= i < entries.len() ==> start.entries.contains(#[trigger] entries[i]) && entries[i].story_id
                == scope.story_id,
    ensures
        rooted(projection::replay_fold(scope, start, entries).store),
        projection::replay_fold(scope, start, entries).store.entries == start.entries,
    decreases entries.len(),
{
    if entries.len() > 0 {
        let t = entries.drop_last();
        assert forall|i: int| 0 <= i < t.len() implies start.entries.contains(#[trigger] t[i]) && t[i].story_id
            == scope.story_id by {
            assert(t[i] == entries[i]);
        }
        lemma_replayed(scope, start, t);
        let at = projection::replay_fold(scope, start, t);
        let entry = entries[entries.len() - 1];
        if events::event_of(entry) is Some {
            lemma_followed(at.store, entry, scope.now);
        }
    }
}

/// Writing an event down and following it keeps every row rooted.
pub proof fn law_recording_keeps_rows_rooted(before: StoreView, after: StoreView, draft: DraftView)
    requires
        rooted(before),
        projection::record_step(before, after, draft),
    ensures
        rooted(after),
{
    let entry = after.entries.last();
    let now = choose|now: Seq<char>|
        #[trigger] projection::recorded(before, draft.story_id, now, entry) == (after, None::<ErrorView>);
    let written = ledger::appended(before, entry);
    assert forall|e: EntryView| #[trigger] before.entries.contains(e) implies written.entries.contains(e) by {
        rows::lemma_push_contains(before.entries, entry, e);
    }
    lemma_more_entries(before, written);
    rows::lemma_push_contains(before.entries, entry, entry);
    lemma_followed(written, entry, now);
}

} // verus!
