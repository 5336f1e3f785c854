//! Whatever is written keeps the tables in step with the ledger, so that a story can be rebuilt from
//! its ledger at any time.

use vstd::prelude::*;

use super::attributes;
use super::attributes::{ClampedView, ReadingView};
use super::consistency;
use super::consistency::{creation_told, in_step, projection_of, tells_creation};
use super::events;
use super::events::{EventView, NameAnchorView};
use super::model::{Entity, EntityAttributeValue, RegistryView};
use super::projection;
use super::projection::ReplayScope;
use super::registry;
use super::repository;
use crate::double::{Double, DoubleView};
use crate::error::{AppResult, ErrorView};
use crate::ledger::kind;
use crate::ledger::model::{EntryView, LedgerEntry};
use crate::ledger::repository as ledger;
use crate::ledger::repository::DraftView;
use crate::rows;
use crate::stamp;
use crate::store::{AttributeRowView, EntityRowView, StateRowView, StoreView};
use crate::text;

verus! {

/// Whether each state and each value in a story is that of an entity whose creation the ledger of
/// the story tells of.
pub open spec fn rows_told(store: StoreView, story_id: Seq<char>) -> bool {
    let told = ledger::story_entries(store.entries, story_id);
    &&& forall|i: int|
        0 <= i < store.states.len() && (#[trigger] store.states[i]).story_id == story_id ==> creation_told(
            told,
            store.states[i].entity_id,
        )
    &&& forall|i: int|
        0 <= i < store.attributes.len() && (#[trigger] store.attributes[i]).story_id == story_id ==> creation_told(
            told,
            store.attributes[i].entity_id,
        )
}

/// Whether the tables hold of a story's entities what its ledger tells of them, and of no others.
pub open spec fn sound(store: StoreView, story_id: Seq<char>) -> bool {
    in_step(store, story_id) && rows_told(store, story_id)
}

/// Whether the tables hold a state or a value of an entity in a story.
pub open spec fn has_row(store: StoreView, story_id: Seq<char>, id: Seq<char>) -> bool {
    ||| exists|i: int|
        0 <= i < store.states.len() && (#[trigger] store.states[i]).story_id == story_id && store.states[i].entity_id
            == id
    ||| exists|i: int|
        0 <= i < store.attributes.len() && (#[trigger] store.attributes[i]).story_id == story_id
            && store.attributes[i].entity_id == id
}

/// Whether two tables hold the same entries and the same of all entities.
pub open spec fn same_record(a: StoreView, b: StoreView) -> bool {
    a.entries == b.entries && a.entities == b.entities && a.states == b.states && a.attributes == b.attributes
}

/// Whether an entry was added behind all of its story that tells nothing of an entity, and nothing
/// else of the record changed.
pub open spec fn noted(before: StoreView, after: StoreView, entry: EntryView) -> bool {
    &&& events::event_of(entry) is None
    &&& ledger::newest(before.entries, entry)
    &&& same_record(after, StoreView { entries: before.entries.push(entry), ..before })
}

/// Whether an event was written down and followed: a creation, or what happened to an entity that
/// the tables know in its story.
pub open spec fn followed(before: StoreView, after: StoreView, draft: DraftView) -> bool {
    &&& projection::record_step(before, after, draft)
    &&& match events::event_of(after.entries.last()) {
        Some(event) => event is Created || has_row(before, draft.story_id, events::subject(event)),
        None => false,
    }
}

/// Whether one thing was written, or nothing.
pub open spec fn wrote(before: StoreView, after: StoreView) -> bool {
    ||| same_record(before, after)
    ||| exists|entry: EntryView| #[trigger] noted(before, after, entry)
    ||| exists|draft: DraftView| #[trigger] followed(before, after, draft)
}

/// Whether two tables hold the same of a story's own entities.
spec fn same_own(a: StoreView, b: StoreView, story_id: Seq<char>) -> bool {
    &&& projection_of(a, story_id).entities == projection_of(b, story_id).entities
    &&& projection_of(a, story_id).states == projection_of(b, story_id).states
    &&& projection_of(a, story_id).attributes == projection_of(b, story_id).attributes
}

/// Whether an entity with an identifier belongs to another story.
spec fn is_elsewhere(store: StoreView, story_id: Seq<char>, id: Seq<char>) -> bool {
    rows::any_where(projection_of(store, story_id).elsewhere, projection::entity_id_is(id))
}

proof fn lemma_fold_own(scope_a: ReplayScope, scope_b: ReplayScope, a: StoreView, b: StoreView, entries: Seq<EntryView>)
    requires
        scope_a.story_id == scope_b.story_id,
        scope_a.exclude_turn == scope_b.exclude_turn,
        same_own(a, b, scope_a.story_id),
        forall|i: int, id: Seq<char>|
            0 <= i < entries.len() && #[trigger] projection::is_subject(entries[i], id) ==> scope_a.ids.contains(id)
                == scope_b.ids.contains(id),
        forall|i: int, id: Seq<char>|
            0 <= i < entries.len() && #[trigger] tells_creation(entries[i], id) ==> is_elsewhere(
                a,
                scope_a.story_id,
                id,
            ) == is_elsewhere(b, scope_a.story_id, id),
    ensures
        same_own(
            projection::replay_fold(scope_a, a, entries).store,
            projection::replay_fold(scope_b, b, entries).store,
            scope_a.story_id,
        ),
        projection::replay_fold(scope_a, a, entries).created == projection::replay_fold(scope_b, b, entries).created,
        projection_of(projection::replay_fold(scope_a, a, entries).store, scope_a.story_id).elsewhere == projection_of(
            a,
            scope_a.story_id,
        ).elsewhere,
        projection_of(projection::replay_fold(scope_b, b, entries).store, scope_a.story_id).elsewhere == projection_of(
            b,
            scope_a.story_id,
        ).elsewhere,
    decreases entries.len(),
{
    if entries.len() > 0 {
        let t = entries.drop_last();
        assert forall|i: int, id: Seq<char>| 0 <= i < t.len() && #[trigger] projection::is_subject(t[i], id) implies
            scope_a.ids.contains(id) == scope_b.ids.contains(id) by {
            assert(entries[i] == t[i]);
            assert(projection::is_subject(entries[i], id));
        }
        assert forall|i: int, id: Seq<char>| 0 <= i < t.len() && #[trigger] tells_creation(t[i], id) implies is_elsewhere(
            a,
            scope_a.story_id,
            id,
        ) == is_elsewhere(b, scope_a.story_id, id) by {
            assert(entries[i] == t[i]);
            assert(tells_creation(entries[i], id));
        }
        lemma_fold_own(scope_a, scope_b, a, b, t);
        let at_a = projection::replay_fold(scope_a, a, t);
        let at_b = projection::replay_fold(scope_b, b, t);
        let last = entries.last();
        if let Some(event) = events::event_of(last) {
            let n = entries.len() - 1;
            assert(projection::is_subject(entries[n], events::subject(event)));
            consistency::lemma_applied(at_a.store, scope_a.story_id, last.id, scope_a.now, event);
            consistency::lemma_applied(at_b.store, scope_a.story_id, last.id, scope_b.now, event);
            if let EventView::Created { entity_id, .. } = event {
                assert(tells_creation(entries[n], entity_id));
                consistency::lemma_entity_found(at_a.store, scope_a.story_id, entity_id);
                consistency::lemma_entity_found(at_b.store, scope_a.story_id, entity_id);
            }
        }
    }
}

proof fn lemma_created_is_there(scope: ReplayScope, start: StoreView, entries: Seq<EntryView>, id: Seq<char>)
    requires
        scope.exclude_turn is None,
        scope.ids.contains(id),
        creation_told(entries, id),
    ensures
        rows::any_where(projection::replay_fold(scope, start, entries).store.entities, projection::entity_id_is(id)),
    decreases entries.len(),
{
    let p = projection::entity_id_is(id);
    let i = choose|i: int| 0 <= i < entries.len() && tells_creation(#[trigger] entries[i], id);
    let at = projection::replay_fold(scope, start, entries.drop_last());
    let after = projection::replay_fold(scope, start, entries);
    if i < entries.len() - 1 {
        assert(tells_creation(entries.drop_last()[i], id));
        lemma_created_is_there(scope, start, entries.drop_last(), id);
        let k = choose|k: int| 0 <= k < at.store.entities.len() && p(#[trigger] at.store.entities[k]);
        assert(after.store.entities[k] == at.store.entities[k]);
    } else if !rows::any_where(at.store.entities, p) {
        let k = at.store.entities.len() as int;
        assert(p(after.store.entities[k]));
    }
}

/// An entity whose creation the ledger tells of is there, in this story or in another.
proof fn lemma_told_is_there(store: StoreView, story_id: Seq<char>, id: Seq<char>)
    requires
        in_step(store, story_id),
        creation_told(ledger::story_entries(store.entries, story_id), id),
    ensures
        rows::any_where(store.entities, projection::entity_id_is(id)),
{
    let now = Seq::<char>::empty();
    let told = ledger::story_entries(store.entries, story_id);
    let ids = projection::known_ids(store, story_id);
    let i = choose|i: int| 0 <= i < told.len() && tells_creation(#[trigger] told[i], id);
    assert(projection::is_subject(told[i], id));
    assert(ids.contains(id));
    let scope = ReplayScope { story_id, ids, exclude_turn: None, now };
    let again = projection::rebuilt(store, story_id, None, now);
    lemma_created_is_there(scope, projection::cleared(store, story_id, ids), told, id);
    consistency::lemma_entity_found(again, story_id, id);
    consistency::lemma_entity_found(store, story_id, id);
}

/// Tables that hold the same record are in step with it alike.
proof fn lemma_same_record(a: StoreView, b: StoreView, story_id: Seq<char>)
    requires
        same_record(a, b),
        sound(a, story_id),
    ensures
        sound(b, story_id),
{
    let told = ledger::story_entries(a.entries, story_id);
    let ids = projection::known_ids(a, story_id);
    assert(projection::known_ids(b, story_id) =~= ids);
    assert forall|now: Seq<char>|
        projection_of(#[trigger] projection::rebuilt(b, story_id, None, now), story_id) == projection_of(b, story_id) by {
        let scope = ReplayScope { story_id, ids, exclude_turn: None, now };
        consistency::lemma_fold_agree(
            scope,
            scope,
            projection::cleared(a, story_id, ids),
            projection::cleared(b, story_id, ids),
            told,
        );
        assert(projection_of(projection::rebuilt(a, story_id, None, now), story_id) == projection_of(a, story_id));
    }
}

/// An entry that tells nothing of an entity leaves every story in step.
pub proof fn law_note_keeps_in_step(before: StoreView, after: StoreView, entry: EntryView, story_id: Seq<char>)
    requires
        sound(before, story_id),
        noted(before, after, entry),
    ensures
        sound(after, story_id),
{
    let told = ledger::story_entries(before.entries, story_id);
    let told_after = ledger::story_entries(after.entries, story_id);
    ledger::lemma_listed_push(before.entries, entry, story_id, i64::MIN);
    if entry.story_id == story_id {
        assert(told_after.drop_last() =~= told);
    }
    assert forall|id: Seq<char>| #[trigger] creation_told(told, id) implies creation_told(told_after, id) by {
        let i = choose|i: int| 0 <= i < told.len() && tells_creation(#[trigger] told[i], id);
        assert(tells_creation(told_after[i], id));
    }
    let ids = projection::known_ids(before, story_id);
    assert forall|id: Seq<char>| ids.contains(id) <==> #[trigger] projection::known_ids(after, story_id).contains(id) by {
        if exists|i: int| 0 <= i < told.len() && projection::is_subject(#[trigger] told[i], id) {
            let i = choose|i: int| 0 <= i < told.len() && projection::is_subject(#[trigger] told[i], id);
            assert(projection::is_subject(told_after[i], id));
        }
        if exists|i: int| 0 <= i < told_after.len() && projection::is_subject(#[trigger] told_after[i], id) {
            let i = choose|i: int| 0 <= i < told_after.len() && projection::is_subject(#[trigger] told_after[i], id);
            assert(projection::is_subject(told[i], id));
        }
    }
    assert(projection::known_ids(after, story_id) =~= ids);
    assert forall|now: Seq<char>|
        projection_of(#[trigger] projection::rebuilt(after, story_id, None, now), story_id) == projection_of(
            after,
            story_id,
        ) by {
        let scope = ReplayScope { story_id, ids, exclude_turn: None, now };
        consistency::lemma_fold_agree(
            scope,
            scope,
            projection::cleared(before, story_id, ids),
            projection::cleared(after, story_id, ids),
            told,
        );
        assert(projection_of(projection::rebuilt(before, story_id, None, now), story_id) == projection_of(
            before,
            story_id,
        ));
        assert(projection::replay_fold(scope, projection::cleared(after, story_id, ids), told_after).store
            == projection::replay_fold(scope, projection::cleared(after, story_id, ids), told).store);
    }
}

/// An event of one story leaves the rows of every other as they are.
proof fn lemma_rows_elsewhere(
    store: StoreView,
    story_id: Seq<char>,
    event_id: Seq<char>,
    now: Seq<char>,
    event: EventView,
    other: Seq<char>,
)
    requires
        story_id != other,
    ensures
        ({
            let after = projection::applied(store, story_id, event_id, now, event);
            &&& after.entities.filter(consistency::own_entity(other)) == store.entities.filter(
                consistency::own_entity(other),
            )
            &&& after.states.filter(consistency::own_state(other)) == store.states.filter(
                consistency::own_state(other),
            )
            &&& after.attributes.filter(consistency::own_value(other)) == store.attributes.filter(
                consistency::own_value(other),
            )
        }),
{
    let own = consistency::own_state(other);
    match event {
        EventView::Created { entity_id, kind, name, appearance_anchor, created_at, .. } => {
            let row = StateRowView {
                story_id,
                entity_id,
                name,
                appearance_anchor,
                is_present: true,
                updated_at: now,
                last_event_id: Some(event_id),
            };
            rows::lemma_filter_upserted_elsewhere(store.states, own, projection::state_of(story_id, entity_id), row);
            consistency::lemma_push_filter(
                store.entities,
                consistency::own_entity(other),
                EntityRowView { id: entity_id, story_id, kind, created_at },
            );
        },
        EventView::Updated { entity_id, after, .. } => {
            let f = projection::renamed(story_id, entity_id, after, now, event_id);
            lemma_map_elsewhere(store.states, f, other);
        },
        EventView::Deleted { entity_id, .. } => {
            let f = projection::dismissed(story_id, entity_id, now, event_id);
            lemma_map_elsewhere(store.states, f, other);
        },
        EventView::AttributeChanged { entity_id, attribute_id, after, source, .. } => {
            let row = AttributeRowView {
                story_id,
                entity_id,
                attribute_id,
                value: after,
                source,
                updated_at: now,
                last_event_id: Some(event_id),
            };
            rows::lemma_filter_upserted_elsewhere(
                store.attributes,
                consistency::own_value(other),
                projection::value_of(story_id, entity_id, attribute_id),
                row,
            );
        },
        EventView::AttributeRemoved { entity_id, attribute_id, .. } => {
            rows::lemma_filter_implied(
                store.attributes,
                projection::not_value_of(story_id, entity_id, attribute_id),
                consistency::own_value(other),
            );
        },
    }
}

proof fn lemma_map_elsewhere(states: Seq<StateRowView>, f: spec_fn(StateRowView) -> StateRowView, other: Seq<char>)
    requires
        forall|s: StateRowView| (#[trigger] f(s)).story_id == s.story_id,
        forall|s: StateRowView| s.story_id == other ==> #[trigger] f(s) == s,
    ensures
        states.map_values(f).filter(consistency::own_state(other)) == states.filter(consistency::own_state(other)),
{
    let own = consistency::own_state(other);
    rows::lemma_filter_map(states, f, own);
    let kept = states.filter(own);
    assert forall|i: int| 0 <= i < kept.len() implies f(#[trigger] kept[i]) == kept[i] by {
        assert(kept.contains(kept[i]));
        rows::lemma_filter_member(states, own, kept[i]);
    }
    assert(kept.map_values(f) =~= kept);
}

/// A row that a table holds behind a filter is one of the table.
proof fn lemma_kept_state(a: Seq<StateRowView>, b: Seq<StateRowView>, story_id: Seq<char>, i: int)
    requires
        a.filter(consistency::own_state(story_id)) == b.filter(consistency::own_state(story_id)),
        0 <= i < a.len(),
        a[i].story_id == story_id,
    ensures
        b.contains(a[i]),
{
    assert(a.contains(a[i]));
    rows::lemma_filter_member(a, consistency::own_state(story_id), a[i]);
    rows::lemma_filter_member(b, consistency::own_state(story_id), a[i]);
}

proof fn lemma_kept_value(a: Seq<AttributeRowView>, b: Seq<AttributeRowView>, story_id: Seq<char>, i: int)
    requires
        a.filter(consistency::own_value(story_id)) == b.filter(consistency::own_value(story_id)),
        0 <= i < a.len(),
        a[i].story_id == story_id,
    ensures
        b.contains(a[i]),
{
    assert(a.contains(a[i]));
    rows::lemma_filter_member(a, consistency::own_value(story_id), a[i]);
    rows::lemma_filter_member(b, consistency::own_value(story_id), a[i]);
}

proof fn lemma_own_entities(a: Seq<EntityRowView>, b: Seq<EntityRowView>, story_id: Seq<char>, id: Seq<char>)
    requires
        a.filter(consistency::own_entity(story_id)) == b.filter(consistency::own_entity(story_id)),
        exists|i: int| 0 <= i < a.len() && (#[trigger] a[i]).id == id && a[i].story_id == story_id,
    ensures
        exists|i: int| 0 <= i < b.len() && (#[trigger] b[i]).id == id && b[i].story_id == story_id,
{
    let i = choose|i: int| 0 <= i < a.len() && (#[trigger] a[i]).id == id && a[i].story_id == story_id;
    assert(a.contains(a[i]));
    rows::lemma_filter_member(a, consistency::own_entity(story_id), a[i]);
    rows::lemma_filter_member(b, consistency::own_entity(story_id), a[i]);
    let k = choose|k: int| 0 <= k < b.len() && b[k] == a[i];
    assert(b[k].id == id);
}

/// An event of one story leaves every other in step.
pub proof fn law_other_storys_event_keeps_in_step(
    store: StoreView,
    now: Seq<char>,
    entry: EntryView,
    story_id: Seq<char>,
)
    requires
        sound(store, story_id),
        entry.story_id != story_id,
        ledger::newest(store.entries, entry),
        events::event_of(entry) is Some,
    ensures
        sound(projection::recorded(store, entry.story_id, now, entry).0, story_id),
{
    let event = events::event_of(entry)->0;
    let written = ledger::appended(store, entry);
    let after = projection::recorded(store, entry.story_id, now, entry).0;
    let told = ledger::story_entries(store.entries, story_id);
    ledger::lemma_listed_push(store.entries, entry, story_id, i64::MIN);
    assert(ledger::story_entries(after.entries, story_id) == told);
    lemma_rows_elsewhere(written, entry.story_id, entry.id, now, event, story_id);
    assert(same_own(after, store, story_id));
    assert forall|i: int| 0 <= i < after.states.len() && (#[trigger] after.states[i]).story_id == story_id implies
        creation_told(told, after.states[i].entity_id) && projection::known_ids(store, story_id).contains(
        after.states[i].entity_id,
    ) by {
        lemma_kept_state(after.states, store.states, story_id, i);
        let k = choose|k: int| 0 <= k < store.states.len() && store.states[k] == after.states[i];
        assert(store.states[k].story_id == story_id);
    }
    assert forall|i: int| 0 <= i < after.attributes.len() && (#[trigger] after.attributes[i]).story_id == story_id implies
        creation_told(told, after.attributes[i].entity_id) && projection::known_ids(store, story_id).contains(
        after.attributes[i].entity_id,
    ) by {
        lemma_kept_value(after.attributes, store.attributes, story_id, i);
        let k = choose|k: int| 0 <= k < store.attributes.len() && store.attributes[k] == after.attributes[i];
        assert(store.attributes[k].story_id == story_id);
    }
    let ids = projection::known_ids(store, story_id);
    assert forall|id: Seq<char>| ids.contains(id) <==> #[trigger] projection::known_ids(after, story_id).contains(id) by {
        if exists|i: int|
            0 <= i < store.entities.len() && (#[trigger] store.entities[i]).id == id && store.entities[i].story_id
                == story_id {
            lemma_own_entities(store.entities, after.entities, story_id, id);
        }
        if exists|i: int|
            0 <= i < after.entities.len() && (#[trigger] after.entities[i]).id == id && after.entities[i].story_id
                == story_id {
            lemma_own_entities(after.entities, store.entities, story_id, id);
        }
    }
    assert(projection::known_ids(after, story_id) =~= ids);
    assert forall|later: Seq<char>|
        projection_of(#[trigger] projection::rebuilt(after, story_id, None, later), story_id) == projection_of(
            after,
            story_id,
        ) by {
        let scope = ReplayScope { story_id, ids, exclude_turn: None, now: later };
        let start = projection::cleared(store, story_id, ids);
        let start_after = projection::cleared(after, story_id, ids);
        consistency::lemma_own_rows_known(store, story_id, ids);
        consistency::lemma_own_rows_known(after, story_id, ids);
        assert forall|i: int, id: Seq<char>| 0 <= i < told.len() && #[trigger] tells_creation(told[i], id) implies
            is_elsewhere(start, story_id, id) == is_elsewhere(start_after, story_id, id) by {
            assert(creation_told(told, id));
            lemma_told_is_there(store, story_id, id);
            lemma_elsewhere_grows(written, entry.story_id, entry.id, now, event, story_id, id);
        }
        lemma_fold_own(scope, scope, start, start_after, told);
        assert(projection_of(projection::rebuilt(store, story_id, None, later), story_id) == projection_of(
            store,
            story_id,
        ));
    }
}

/// An event adds no entity to other stories whose identifier is already taken.
proof fn lemma_elsewhere_grows(
    store: StoreView,
    story_id: Seq<char>,
    event_id: Seq<char>,
    now: Seq<char>,
    event: EventView,
    other: Seq<char>,
    id: Seq<char>,
)
    requires
        story_id != other,
        rows::any_where(store.entities, projection::entity_id_is(id)),
    ensures
        is_elsewhere(projection::applied(store, story_id, event_id, now, event), other, id) == is_elsewhere(
            store,
            other,
            id,
        ),
{
    let p = projection::entity_id_is(id);
    if let EventView::Created { entity_id, kind, created_at, .. } = event {
        let row = EntityRowView { id: entity_id, story_id, kind, created_at };
        let elsewhere = projection_of(store, other).elsewhere;
        consistency::lemma_push_filter(store.entities, consistency::other_entity(other), row);
        if !rows::any_where(store.entities, projection::entity_id_is(entity_id)) {
            assert(entity_id != id);
            let more = elsewhere.push(row);
            if rows::any_where(elsewhere, p) {
                let k = choose|k: int| 0 <= k < elsewhere.len() && p(#[trigger] elsewhere[k]);
                assert(p(more[k]));
            }
            if rows::any_where(more, p) {
                let k = choose|k: int| 0 <= k < more.len() && p(#[trigger] more[k]);
                assert(p(elsewhere[k]));
            }
        }
    }
}

/// After an event of a story, its states and values are those of entities that had some before, or
/// of the one that the event is about.
proof fn lemma_applied_rows(
    store: StoreView,
    story_id: Seq<char>,
    event_id: Seq<char>,
    now: Seq<char>,
    event: EventView,
    id: Seq<char>,
)
    requires
        has_row(projection::applied(store, story_id, event_id, now, event), story_id, id),
    ensures
        id == events::subject(event) || has_row(store, story_id, id),
{
    let after = projection::applied(store, story_id, event_id, now, event);
    if exists|i: int|
        0 <= i < after.states.len() && (#[trigger] after.states[i]).story_id == story_id && after.states[i].entity_id
            == id {
        let i = choose|i: int|
            0 <= i < after.states.len() && (#[trigger] after.states[i]).story_id == story_id && after.states[i].entity_id
                == id;
        match event {
            EventView::Created { entity_id, name, appearance_anchor, .. } => {
                let row = StateRowView {
                    story_id,
                    entity_id,
                    name,
                    appearance_anchor,
                    is_present: true,
                    updated_at: now,
                    last_event_id: Some(event_id),
                };
                rows::lemma_upserted_member(store.states, projection::state_of(story_id, entity_id), row, i);
                if after.states[i] != row {
                    let k = choose|k: int| 0 <= k < store.states.len() && store.states[k] == after.states[i];
                    assert(store.states[k].story_id == story_id);
                }
            },
            _ => {
                assert(store.states[i].story_id == story_id && store.states[i].entity_id == id);
            },
        }
    } else {
        let i = choose|i: int|
            0 <= i < after.attributes.len() && (#[trigger] after.attributes[i]).story_id == story_id
                && after.attributes[i].entity_id == id;
        let x = after.attributes[i];
        match event {
            EventView::AttributeChanged { entity_id, attribute_id, after: value, source, .. } => {
                let row = AttributeRowView {
                    story_id,
                    entity_id,
                    attribute_id,
                    value,
                    source,
                    updated_at: now,
                    last_event_id: Some(event_id),
                };
                rows::lemma_upserted_member(
                    store.attributes,
                    projection::value_of(story_id, entity_id, attribute_id),
                    row,
                    i,
                );
                if x != row {
                    let k = choose|k: int| 0 <= k < store.attributes.len() && store.attributes[k] == x;
                    assert(store.attributes[k].story_id == story_id);
                }
            },
            EventView::AttributeRemoved { entity_id, attribute_id, .. } => {
                assert(after.attributes.contains(x));
                rows::lemma_filter_member(
                    store.attributes,
                    projection::not_value_of(story_id, entity_id, attribute_id),
                    x,
                );
                let k = choose|k: int| 0 <= k < store.attributes.len() && store.attributes[k] == x;
                assert(store.attributes[k].story_id == story_id);
            },
            _ => {
                assert(store.attributes[i].story_id == story_id && store.attributes[i].entity_id == id);
            },
        }
    }
}

/// An event of a story leaves it in step: a creation, or what happened to an entity that the tables
/// know in the story.
pub proof fn law_own_event_keeps_in_step(store: StoreView, now: Seq<char>, entry: EntryView)
    requires
        sound(store, entry.story_id),
        ledger::newest(store.entries, entry),
        events::event_of(entry) is Some,
        events::event_of(entry)->0 is Created || has_row(
            store,
            entry.story_id,
            events::subject(events::event_of(entry)->0),
        ),
    ensures
        sound(projection::recorded(store, entry.story_id, now, entry).0, entry.story_id),
{
    let story_id = entry.story_id;
    let event = events::event_of(entry)->0;
    let written = ledger::appended(store, entry);
    let after = projection::recorded(store, story_id, now, entry).0;
    let told = ledger::story_entries(store.entries, story_id);
    let told_after = ledger::story_entries(after.entries, story_id);
    ledger::law_appended_entry_is_listed_last(store, entry, i64::MIN);
    assert(told_after == told.push(entry));
    consistency::law_recording_keeps_in_step(store, story_id, now, entry);
    assert(creation_told(told_after, events::subject(event))) by {
        if event is Created {
            assert(tells_creation(told_after[told.len() as int], events::subject(event)));
        } else {
            let id = events::subject(event);
            let i = choose|i: int| 0 <= i < told.len() && tells_creation(#[trigger] told[i], id);
            assert(tells_creation(told_after[i], id));
        }
    }
    assert forall|id: Seq<char>| #[trigger] has_row(after, story_id, id) implies creation_told(told_after, id) by {
        lemma_applied_rows(written, story_id, entry.id, now, event, id);
        if id != events::subject(event) {
            assert(has_row(store, story_id, id));
            let i = choose|i: int| 0 <= i < told.len() && tells_creation(#[trigger] told[i], id);
            assert(tells_creation(told_after[i], id));
        }
    }
    assert forall|i: int| 0 <= i < after.states.len() && (#[trigger] after.states[i]).story_id == story_id implies
        creation_told(told_after, after.states[i].entity_id) by {
        assert(has_row(after, story_id, after.states[i].entity_id));
    }
    assert forall|i: int| 0 <= i < after.attributes.len() && (#[trigger] after.attributes[i]).story_id == story_id implies
        creation_told(told_after, after.attributes[i].entity_id) by {
        assert(has_row(after, story_id, after.attributes[i].entity_id));
    }
}

/// Whatever is written, every story stays in step: its own events and those of other stories,
/// and entries that tell nothing of an entity.
pub proof fn law_writing_keeps_in_step(before: StoreView, after: StoreView, story_id: Seq<char>)
    requires
        sound(before, story_id),
        wrote(before, after),
    ensures
        sound(after, story_id),
{
    if same_record(before, after) {
        lemma_same_record(before, after, story_id);
    } else if exists|entry: EntryView| #[trigger] noted(before, after, entry) {
        let entry = choose|entry: EntryView| #[trigger] noted(before, after, entry);
        law_note_keeps_in_step(before, after, entry, story_id);
    } else {
        let draft = choose|draft: DraftView| #[trigger] followed(before, after, draft);
        let entry = after.entries.last();
        let now = choose|now: Seq<char>|
            #[trigger] projection::recorded(before, draft.story_id, now, entry) == (after, None::<ErrorView>);
        ledger::lemma_drafted_is_newest(before, entry.id, entry.created_at, draft);
        if draft.story_id == story_id {
            law_own_event_keeps_in_step(before, now, entry);
        } else {
            law_other_storys_event_keeps_in_step(before, now, entry, story_id);
        }
    }
}

/// Whether the ledger and the tables hold nothing of a story.
pub open spec fn untold(store: StoreView, story_id: Seq<char>) -> bool {
    &&& forall|i: int| 0 <= i < store.entries.len() ==> (#[trigger] store.entries[i]).story_id != story_id
    &&& forall|i: int| 0 <= i < store.entities.len() ==> (#[trigger] store.entities[i]).story_id != story_id
    &&& forall|i: int| 0 <= i < store.states.len() ==> (#[trigger] store.states[i]).story_id != story_id
    &&& forall|i: int| 0 <= i < store.attributes.len() ==> (#[trigger] store.attributes[i]).story_id != story_id
}

/// From a store that holds nothing of a story, whatever is written one after the other, in this story
/// and in others, a rebuild of the story gives back what the tables hold of its entities.
pub proof fn law_rebuild_restores_what_was_written(states: Seq<StoreView>, story_id: Seq<char>, now: Seq<char>)
    requires
        states.len() > 0,
        untold(states[0], story_id),
        forall|i: int| 0 < i < states.len() ==> wrote(states[i - 1], #[trigger] states[i]),
    ensures
        sound(states.last(), story_id),
        projection_of(projection::rebuilt(states.last(), story_id, None, now), story_id) == projection_of(
            states.last(),
            story_id,
        ),
    decreases states.len(),
{
    if states.len() == 1 {
        consistency::law_new_story_is_in_step(states[0], story_id);
    } else {
        let t = states.drop_last();
        assert forall|i: int| 0 < i < t.len() implies wrote(t[i - 1], #[trigger] t[i]) by {
            assert(wrote(states[i - 1], states[i]));
        }
        law_rebuild_restores_what_was_written(t, story_id, now);
        assert(wrote(states[states.len() - 2], states[states.len() - 1]));
        law_writing_keeps_in_step(t.last(), states.last(), story_id);
    }
}

/// Whether an entry of some kind tells nothing of an entity.
pub open spec fn plain_kind(kind: Seq<char>) -> bool {
    &&& kind != kind::ENTITY_CREATED@
    &&& kind != kind::ENTITY_UPDATED@
    &&& kind != kind::ENTITY_DELETED@
    &&& kind != kind::ENTITY_ATTRIBUTE_CHANGED@
    &&& kind != kind::ENTITY_ATTRIBUTE_REMOVED@
}

/// Messages, edits, rolls, tool calls, looks at an entity, images, settings and summaries tell nothing
/// of what became of an entity.
pub proof fn law_other_kinds_are_plain()
    ensures
        plain_kind(kind::PLAYER_MESSAGE@),
        plain_kind(kind::NARRATION@),
        plain_kind(kind::CONTENT_EDITED@),
        plain_kind(kind::DICEROLL@),
        plain_kind(kind::TOOL_CALL@),
        plain_kind(kind::ENTITY_QUERIED@),
        plain_kind(kind::IMAGE_GENERATED@),
        plain_kind(kind::DICEROLL_SETTINGS_CHANGED@),
        plain_kind(kind::CONTEXT_SUMMARY@),
{
    reveal_strlit("player_message");
    reveal_strlit("narration");
    reveal_strlit("content_edited");
    reveal_strlit("diceroll");
    reveal_strlit("tool_call");
    reveal_strlit("entity_queried");
    reveal_strlit("image_generated");
    reveal_strlit("diceroll_settings_changed");
    reveal_strlit("context_summary");
    reveal_strlit("entity_created");
    reveal_strlit("entity_updated");
    reveal_strlit("entity_deleted");
    reveal_strlit("entity_attribute_changed");
    reveal_strlit("entity_attribute_removed");
    assert(kind::PLAYER_MESSAGE@[0] == 'p');
    assert(kind::NARRATION@[0] == 'n');
    assert(kind::CONTENT_EDITED@[0] == 'c');
    assert(kind::DICEROLL@[0] == 'd');
    assert(kind::TOOL_CALL@[0] == 't');
    assert(kind::IMAGE_GENERATED@[0] == 'i');
    assert(kind::DICEROLL_SETTINGS_CHANGED@[0] == 'd');
    assert(kind::CONTEXT_SUMMARY@[0] == 'c');
    assert(kind::ENTITY_QUERIED@[7] == 'q');
    assert(kind::ENTITY_CREATED@[0] == 'e' && kind::ENTITY_CREATED@[7] == 'c');
    assert(kind::ENTITY_UPDATED@[0] == 'e' && kind::ENTITY_UPDATED@[7] == 'u');
    assert(kind::ENTITY_DELETED@[0] == 'e' && kind::ENTITY_DELETED@[7] == 'd');
    assert(kind::ENTITY_ATTRIBUTE_CHANGED@[0] == 'e' && kind::ENTITY_ATTRIBUTE_CHANGED@[7] == 'a');
    assert(kind::ENTITY_ATTRIBUTE_REMOVED@[0] == 'e' && kind::ENTITY_ATTRIBUTE_REMOVED@[7] == 'a');
}

/// Adding an entry of a plain kind, or failing to, keeps every story in step.
pub proof fn law_plain_entry_keeps_in_step(
    before: StoreView,
    after: StoreView,
    draft: DraftView,
    r: AppResult<LedgerEntry>,
    other: Seq<char>,
)
    requires
        ledger::append_outcome(before, after, draft, r),
        plain_kind(draft.kind),
    ensures
        wrote(before, after),
        sound(before, other) ==> sound(after, other),
{
    if let Ok(entry) = r {
        ledger::lemma_drafted_is_newest(before, entry@.id, entry@.created_at, draft);
        assert(noted(before, after, entry@));
    }
    if sound(before, other) {
        law_writing_keeps_in_step(before, after, other);
    }
}

/// Writing down an event keeps every story in step: of a creation always, of another event where the
/// tables know the entity. An event that cannot be read back changes nothing of an entity.
proof fn lemma_recording(
    before: StoreView,
    after: StoreView,
    story_id: Seq<char>,
    target_entry_id: Option<Seq<char>>,
    content: Seq<char>,
    event: EventView,
    turn_id: Option<Seq<char>>,
    other: Seq<char>,
)
    requires
        event is Created || has_row(before, story_id, events::subject(event)),
        ({
            let draft = projection::event_draft(story_id, target_entry_id, content, event, turn_id);
            ||| projection::record_step(before, after, draft)
            ||| exists|e: ErrorView| #[trigger] projection::record_failure(before, after, draft, e)
        }),
    ensures
        wrote(before, after),
        sound(before, other) ==> sound(after, other),
{
    let draft = projection::event_draft(story_id, target_entry_id, content, event, turn_id);
    if projection::record_step(before, after, draft) {
        let entry = after.entries.last();
        events::lemma_told_sort(event, entry);
        assert(events::event_of(entry) is Some);
        assert(followed(before, after, draft));
    } else {
        let e = choose|e: ErrorView| #[trigger] projection::record_failure(before, after, draft, e);
        if !projection::unwritten(before, after, draft, e) {
            let (now, id, created_at) = choose|now: Seq<char>, id: Seq<char>, created_at: Seq<char>|
                stamp::fresh_like(id) && ledger::append_refusal(before, id, draft) is None
                    && #[trigger] projection::recorded(
                    before,
                    story_id,
                    now,
                    ledger::drafted_entry(before, id, created_at, draft),
                ) == (after, Some(e));
            ledger::lemma_drafted_is_newest(before, id, created_at, draft);
            assert(noted(before, after, ledger::drafted_entry(before, id, created_at, draft)));
        }
    }
    if sound(before, other) {
        law_writing_keeps_in_step(before, after, other);
    }
}

proof fn lemma_present_has_row(store: StoreView, story_id: Seq<char>, entity_id: Seq<char>)
    requires
        rows::first_where(store.states, attributes::present_as(story_id, entity_id)) is Some,
    ensures
        has_row(store, story_id, entity_id),
{
    let i = rows::lemma_first_where(store.states, attributes::present_as(story_id, entity_id));
    assert(store.states[i].story_id == story_id);
}

/// Creating an entity, or failing to, keeps every story in step.
pub proof fn law_creation_keeps_in_step(
    before: StoreView,
    after: StoreView,
    id: Seq<char>,
    story_id: Seq<char>,
    entity_kind: Seq<char>,
    name: Seq<char>,
    appearance_anchor: Option<Seq<char>>,
    source: Seq<char>,
    target_entry_id: Option<Seq<char>>,
    turn_id: Option<Seq<char>>,
    r: AppResult<Entity>,
    other: Seq<char>,
)
    requires
        repository::creation_outcome(
            before,
            after,
            id,
            repository::creation_draft(
                id,
                story_id,
                entity_kind,
                name,
                appearance_anchor,
                source,
                target_entry_id,
                turn_id,
            ),
            entity_kind,
            name,
            appearance_anchor,
            r,
        ),
    ensures
        wrote(before, after),
        sound(before, other) ==> sound(after, other),
{
    if before != after {
        lemma_recording(
            before,
            after,
            story_id,
            target_entry_id,
            text::trimmed(name) + " was added as a "@ + entity_kind + "."@,
            EventView::Created {
                entity_id: id,
                kind: entity_kind,
                name: text::trimmed(name),
                appearance_anchor: text::non_blank(appearance_anchor),
                source,
                created_at: Seq::empty(),
            },
            turn_id,
            other,
        );
    }
}

/// Updating an entity, or failing to, keeps every story in step.
pub proof fn law_update_keeps_in_step(
    before: StoreView,
    after: StoreView,
    story_id: Seq<char>,
    entity_id: Seq<char>,
    name: Seq<char>,
    appearance_anchor: Option<Seq<char>>,
    source: Seq<char>,
    target_entry_id: Option<Seq<char>>,
    turn_id: Option<Seq<char>>,
    r: AppResult<Entity>,
    other: Seq<char>,
)
    requires
        repository::update_outcome(
            before,
            after,
            story_id,
            entity_id,
            name,
            appearance_anchor,
            source,
            target_entry_id,
            turn_id,
            r,
        ),
    ensures
        wrote(before, after),
        sound(before, other) ==> sound(after, other),
{
    if before != after {
        let entity = repository::present_entity(before, story_id, entity_id)->0;
        lemma_present_has_row(before, story_id, entity_id);
        lemma_recording(
            before,
            after,
            story_id,
            target_entry_id,
            entity.name + " is now named "@ + text::trimmed(name) + "; appearance details were updated."@,
            EventView::Updated {
                entity_id,
                before: NameAnchorView { name: entity.name, appearance_anchor: entity.appearance_anchor },
                after: NameAnchorView {
                    name: text::trimmed(name),
                    appearance_anchor: text::non_blank(appearance_anchor),
                },
                source,
            },
            turn_id,
            other,
        );
    }
}

/// Removing an entity, or failing to, keeps every story in step.
pub proof fn law_deletion_keeps_in_step(
    before: StoreView,
    after: StoreView,
    story_id: Seq<char>,
    entity_id: Seq<char>,
    r: AppResult<()>,
    other: Seq<char>,
)
    requires
        repository::deletion_outcome(before, after, story_id, entity_id, r),
    ensures
        wrote(before, after),
        sound(before, other) ==> sound(after, other),
{
    if before != after {
        let state = rows::first_where(before.states, attributes::present_as(story_id, entity_id))->0;
        lemma_present_has_row(before, story_id, entity_id);
        lemma_recording(
            before,
            after,
            story_id,
            None,
            state.name + " was removed from the authoritative entity state."@,
            EventView::Deleted { entity_id, name: state.name, source: attributes::USER@ },
            None,
            other,
        );
    }
}

/// An inferred change of an attribute of an entity that the tables know, whatever the arithmetic
/// gives, keeps every story in step.
pub proof fn law_delta_keeps_in_step(
    before: StoreView,
    after: StoreView,
    story_id: Seq<char>,
    entity_id: Seq<char>,
    attribute: RegistryView,
    reading: ReadingView,
    clamped: ClampedView,
    cause: Seq<char>,
    entry_id: Seq<char>,
    turn_id: Option<Seq<char>>,
    r: AppResult<(Double, Double)>,
    other: Seq<char>,
)
    requires
        has_row(before, story_id, entity_id),
        attributes::delta_outcome(
            before,
            after,
            story_id,
            entity_id,
            attribute,
            reading,
            clamped,
            cause,
            entry_id,
            turn_id,
            r,
        ),
    ensures
        wrote(before, after),
        sound(before, other) ==> sound(after, other),
{
    if before != after {
        let value = attributes::value_before(reading, clamped);
        lemma_recording(
            before,
            after,
            story_id,
            Some(entry_id),
            attribute.canonical_name + " changed from "@ + value.display + " to "@ + clamped.after.display + ": "@ + cause,
            EventView::AttributeChanged {
                entity_id,
                attribute_id: attribute.id,
                attribute_name: attribute.canonical_name,
                before: Some(value),
                after: clamped.after,
                source: attributes::INFERRED@,
                delta: Some(clamped.change),
                cause: Some(cause),
            },
            turn_id,
            other,
        );
    }
}

/// Setting a value by hand, or failing to, keeps every story in step.
pub proof fn law_setting_keeps_in_step(
    before: StoreView,
    after: StoreView,
    story_id: Seq<char>,
    entity_id: Seq<char>,
    attribute_id: Seq<char>,
    value: DoubleView,
    r: AppResult<EntityAttributeValue>,
    other: Seq<char>,
)
    requires
        attributes::set_outcome(before, after, story_id, entity_id, attribute_id, value, r),
    ensures
        wrote(before, after),
        sound(before, other) ==> sound(after, other),
{
    if before != after {
        let attribute = rows::first_where(before.registry, registry::attribute_id_is(attribute_id))->0;
        let stored = attributes::stored_value(before, story_id, entity_id, attribute_id);
        lemma_present_has_row(before, story_id, entity_id);
        lemma_recording(
            before,
            after,
            story_id,
            None,
            "User changed "@ + attribute.canonical_name + " from "@ + (match stored {
                Some(row) => row.value.display,
                None => "unset"@,
            }) + " to "@ + value.display + "."@,
            EventView::AttributeChanged {
                entity_id,
                attribute_id,
                attribute_name: attribute.canonical_name,
                before: match stored {
                    Some(row) => Some(row.value),
                    None => None,
                },
                after: value,
                source: attributes::USER@,
                delta: None,
                cause: None,
            },
            None,
            other,
        );
    }
}

/// Removing a value, or finding none, keeps every story in step.
pub proof fn law_removal_keeps_in_step(
    before: StoreView,
    after: StoreView,
    story_id: Seq<char>,
    entity_id: Seq<char>,
    attribute_id: Seq<char>,
    r: AppResult<()>,
    other: Seq<char>,
)
    requires
        attributes::removal_outcome(before, after, story_id, entity_id, attribute_id, r),
    ensures
        wrote(before, after),
        sound(before, other) ==> sound(after, other),
{
    if before != after {
        let prior = attributes::removable(before, story_id, entity_id, attribute_id)->0;
        let i = rows::lemma_first_where(
            before.attributes,
            projection::value_of(story_id, entity_id, attribute_id),
        );
        assert(before.attributes[i].story_id == story_id);
        lemma_recording(
            before,
            after,
            story_id,
            None,
            "User removed "@ + prior.1 + " (previously "@ + prior.0.display + ")."@,
            EventView::AttributeRemoved {
                entity_id,
                attribute_id,
                attribute_name: prior.1,
                before: prior.0,
                source: attributes::USER@,
            },
            None,
            other,
        );
    }
}

/// What a replay leaves of states and values belongs to entities that had some at the start, or that
/// the entries tell of.
proof fn lemma_fold_rows(scope: ReplayScope, start: StoreView, entries: Seq<EntryView>, id: Seq<char>)
    requires
        has_row(projection::replay_fold(scope, start, entries).store, scope.story_id, id),
    ensures
        has_row(start, scope.story_id, id) || exists|i: int|
            0 <= i < entries.len() && projection::is_subject(#[trigger] entries[i], id),
    decreases entries.len(),
{
    if entries.len() > 0 {
        let t = entries.drop_last();
        let at = projection::replay_fold(scope, start, t);
        let entry = entries.last();
        if projection::replay_step(scope, at, entry).store != at.store {
            let event = events::event_of(entry)->0;
            lemma_applied_rows(at.store, scope.story_id, entry.id, scope.now, event, id);
        }
        if has_row(at.store, scope.story_id, id) {
            lemma_fold_rows(scope, start, t, id);
            if !has_row(start, scope.story_id, id) {
                let i = choose|i: int| 0 <= i < t.len() && projection::is_subject(#[trigger] t[i], id);
                assert(projection::is_subject(entries[i], id));
            }
        } else {
            assert(projection::is_subject(entries[entries.len() - 1], id));
        }
    }
}

/// A replay writes nothing to the ledger.
proof fn lemma_fold_entries(scope: ReplayScope, start: StoreView, entries: Seq<EntryView>)
    ensures
        projection::replay_fold(scope, start, entries).store.entries == start.entries,
    decreases entries.len(),
{
    if entries.len() > 0 {
        lemma_fold_entries(scope, start, entries.drop_last());
    }
}

/// Without own rows in the tables, a story has no states and no values.
proof fn lemma_no_rows(store: StoreView, story_id: Seq<char>, id: Seq<char>)
    requires
        projection_of(store, story_id).states == Seq::<StateRowView>::empty(),
        projection_of(store, story_id).attributes == Seq::<AttributeRowView>::empty(),
    ensures
        !has_row(store, story_id, id),
{
    let states = store.states.filter(consistency::own_state(story_id));
    let values = store.attributes.filter(consistency::own_value(story_id));
    assert(states.len() == projection_of(store, story_id).states.len());
    assert(values.len() == projection_of(store, story_id).attributes.len());
    assert forall|i: int| 0 <= i < store.states.len() implies (#[trigger] store.states[i]).story_id != story_id by {
        assert(store.states.contains(store.states[i]));
        rows::lemma_filter_member(store.states, consistency::own_state(story_id), store.states[i]);
    }
    assert forall|i: int| 0 <= i < store.attributes.len() implies (#[trigger] store.attributes[i]).story_id
        != story_id by {
        assert(store.attributes.contains(store.attributes[i]));
        rows::lemma_filter_member(store.attributes, consistency::own_value(story_id), store.attributes[i]);
    }
}

/// Tables that hold the same of a story's entities have states and values of the same ones.
proof fn lemma_same_rows(a: StoreView, b: StoreView, story_id: Seq<char>, id: Seq<char>)
    requires
        projection_of(a, story_id) == projection_of(b, story_id),
        has_row(a, story_id, id),
    ensures
        has_row(b, story_id, id),
{
    if exists|i: int|
        0 <= i < a.states.len() && (#[trigger] a.states[i]).story_id == story_id && a.states[i].entity_id == id {
        let own = consistency::own_state(story_id);
        let i = choose|i: int|
            0 <= i < a.states.len() && (#[trigger] a.states[i]).story_id == story_id && a.states[i].entity_id == id;
        assert(a.states.contains(a.states[i]));
        rows::lemma_filter_member(a.states, own, a.states[i]);
        let k = choose|k: int| 0 <= k < a.states.filter(own).len() && a.states.filter(own)[k] == a.states[i];
        let row = b.states.filter(own)[k];
        assert(projection_of(a, story_id).states.len() == a.states.filter(own).len());
        assert(projection_of(b, story_id).states.len() == b.states.filter(own).len());
        assert(projection_of(a, story_id).states[k] == projection_of(b, story_id).states[k]);
        assert(row.entity_id == id);
        assert(b.states.filter(own).contains(row));
        rows::lemma_filter_member(b.states, own, row);
        let j = choose|j: int| 0 <= j < b.states.len() && b.states[j] == row;
        assert(b.states[j].story_id == story_id);
    } else {
        let own = consistency::own_value(story_id);
        let i = choose|i: int|
            0 <= i < a.attributes.len() && (#[trigger] a.attributes[i]).story_id == story_id
                && a.attributes[i].entity_id == id;
        assert(a.attributes.contains(a.attributes[i]));
        rows::lemma_filter_member(a.attributes, own, a.attributes[i]);
        let k = choose|k: int|
            0 <= k < a.attributes.filter(own).len() && a.attributes.filter(own)[k] == a.attributes[i];
        let row = b.attributes.filter(own)[k];
        assert(projection_of(a, story_id).attributes.len() == a.attributes.filter(own).len());
        assert(projection_of(b, story_id).attributes.len() == b.attributes.filter(own).len());
        assert(projection_of(a, story_id).attributes[k] == projection_of(b, story_id).attributes[k]);
        assert(row.entity_id == id);
        assert(b.attributes.filter(own).contains(row));
        rows::lemma_filter_member(b.attributes, own, row);
        let j = choose|j: int| 0 <= j < b.attributes.len() && b.attributes[j] == row;
        assert(b.attributes[j].story_id == story_id);
    }
}

/// A story that was rebuilt stays as it is when it is rebuilt again, whether or not a turn is left
/// out both times.
pub proof fn law_second_rebuild_changes_nothing(
    store: StoreView,
    story_id: Seq<char>,
    exclude_turn: Option<Seq<char>>,
    now: Seq<char>,
    later: Seq<char>,
)
    requires
        consistency::rows_known(store, story_id),
    ensures
        ({
            let once = projection::rebuilt(store, story_id, exclude_turn, now);
            &&& consistency::rows_known(once, story_id)
            &&& projection_of(projection::rebuilt(once, story_id, exclude_turn, later), story_id) == projection_of(
                once,
                story_id,
            )
        }),
{
    let once = projection::rebuilt(store, story_id, exclude_turn, now);
    let told = ledger::story_entries(store.entries, story_id);
    let ids = projection::known_ids(store, story_id);
    let ids_once = projection::known_ids(once, story_id);
    let scope = ReplayScope { story_id, ids, exclude_turn, now };
    let scope_once = ReplayScope { story_id, ids: ids_once, exclude_turn, now: later };
    let start = projection::cleared(store, story_id, ids);
    let start_once = projection::cleared(once, story_id, ids_once);
    lemma_fold_entries(scope, start, told);
    consistency::lemma_own_rows_known(store, story_id, ids);
    assert forall|id: Seq<char>| #[trigger] has_row(once, story_id, id) implies ids_once.contains(id) by {
        lemma_no_rows(start, story_id, id);
        lemma_fold_rows(scope, start, told, id);
    }
    assert forall|i: int| 0 <= i < once.states.len() && (#[trigger] once.states[i]).story_id == story_id implies
        ids_once.contains(once.states[i].entity_id) by {
        assert(has_row(once, story_id, once.states[i].entity_id));
    }
    assert forall|i: int| 0 <= i < once.attributes.len() && (#[trigger] once.attributes[i]).story_id == story_id implies
        ids_once.contains(once.attributes[i].entity_id) by {
        assert(has_row(once, story_id, once.attributes[i].entity_id));
    }
    consistency::lemma_own_rows_known(once, story_id, ids_once);
    lemma_fold_own(scope, scope, start, start, told);
    assert(projection_of(start_once, story_id) == projection_of(start, story_id));
    consistency::lemma_fold_agree(scope_once, scope, start_once, start, told);
}

/// Rebuilding a story that is in step leaves it in step.
pub proof fn law_rebuild_keeps_in_step(store: StoreView, story_id: Seq<char>, now: Seq<char>)
    requires
        sound(store, story_id),
    ensures
        sound(projection::rebuilt(store, story_id, None, now), story_id),
{
    let once = projection::rebuilt(store, story_id, None, now);
    let told = ledger::story_entries(store.entries, story_id);
    let ids = projection::known_ids(store, story_id);
    lemma_fold_entries(
        ReplayScope { story_id, ids, exclude_turn: None, now },
        projection::cleared(store, story_id, ids),
        told,
    );
    assert forall|id: Seq<char>| #[trigger] has_row(once, story_id, id) implies creation_told(told, id) by {
        lemma_same_rows(once, store, story_id, id);
    }
    assert forall|i: int| 0 <= i < once.states.len() && (#[trigger] once.states[i]).story_id == story_id implies
        creation_told(told, once.states[i].entity_id) by {
        assert(has_row(once, story_id, once.states[i].entity_id));
    }
    assert forall|i: int| 0 <= i < once.attributes.len() && (#[trigger] once.attributes[i]).story_id == story_id implies
        creation_told(told, once.attributes[i].entity_id) by {
        assert(has_row(once, story_id, once.attributes[i].entity_id));
    }
    assert forall|later: Seq<char>|
        projection_of(#[trigger] projection::rebuilt(once, story_id, None, later), story_id) == projection_of(
            once,
            story_id,
        ) by {
        law_second_rebuild_changes_nothing(store, story_id, None, now, later);
    }
    law_second_rebuild_changes_nothing(store, story_id, None, now, now);
}

} // verus!
