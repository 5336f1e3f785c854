//! The present state of a story's entities, as the events in the ledger make it.

use vstd::prelude::*;

use super::events;
use super::events::{EntityEvent, EventView};
use crate::error::{AppError, AppResult, ErrorView};
use crate::ledger::model::{EntryView, LedgerEntry, HIDDEN};
use crate::ledger::repository;
use crate::ledger::repository::{Draft, DraftView};
use crate::store::{
    AttributeRow, AttributeRowView, EntityRow, EntityRowView, StateRow, StateRowView, Store, StoreView,
};
use crate::{rows, stamp, text};

verus! {

/// The condition of having an identifier.
pub open spec fn entity_id_is(id: Seq<char>) -> spec_fn(EntityRowView) -> bool {
    |e: EntityRowView| e.id == id
}

/// The condition of being the state of an entity.
pub open spec fn state_of(story_id: Seq<char>, entity_id: Seq<char>) -> spec_fn(StateRowView) -> bool {
    |s: StateRowView| s.story_id == story_id && s.entity_id == entity_id
}

/// The condition of being the value of an attribute.
pub open spec fn value_of(story_id: Seq<char>, entity_id: Seq<char>, attribute_id: Seq<char>) -> spec_fn(
    AttributeRowView,
) -> bool {
    |a: AttributeRowView|
        a.story_id == story_id && a.entity_id == entity_id && a.attribute_id == attribute_id
}

/// The condition of being any other row than the value of an attribute.
pub open spec fn not_value_of(story_id: Seq<char>, entity_id: Seq<char>, attribute_id: Seq<char>) -> spec_fn(
    AttributeRowView,
) -> bool {
    |a: AttributeRowView|
        !(a.story_id == story_id && a.entity_id == entity_id && a.attribute_id == attribute_id)
}

/// What an update makes of a state.
pub open spec fn renamed(
    story_id: Seq<char>,
    entity_id: Seq<char>,
    after: events::NameAnchorView,
    now: Seq<char>,
    event_id: Seq<char>,
) -> spec_fn(StateRowView) -> StateRowView {
    |s: StateRowView|
        if s.story_id == story_id && s.entity_id == entity_id {
            StateRowView {
                name: after.name,
                appearance_anchor: after.appearance_anchor,
                is_present: true,
                updated_at: now,
                last_event_id: Some(event_id),
                ..s
            }
        } else {
            s
        }
}

/// What a removal makes of a state.
pub open spec fn dismissed(story_id: Seq<char>, entity_id: Seq<char>, now: Seq<char>, event_id: Seq<char>) -> spec_fn(
    StateRowView,
) -> StateRowView {
    |s: StateRowView|
        if s.story_id == story_id && s.entity_id == entity_id {
            StateRowView {
                is_present: false,
                updated_at: now,
                last_event_id: Some(event_id),
                ..s
            }
        } else {
            s
        }
}

/// The tables after an event.
pub open spec fn applied(
    store: StoreView,
    story_id: Seq<char>,
    event_id: Seq<char>,
    now: Seq<char>,
    event: EventView,
) -> StoreView {
    match event {
        EventView::Created { entity_id, kind, name, appearance_anchor, created_at, .. } => StoreView {
            entities: if rows::any_where(store.entities, entity_id_is(entity_id)) {
                store.entities
            } else {
                store.entities.push(EntityRowView { id: entity_id, story_id, kind, created_at })
            },
            states: rows::upserted(
                store.states,
                state_of(story_id, entity_id),
                StateRowView {
                    story_id,
                    entity_id,
                    name,
                    appearance_anchor,
                    is_present: true,
                    updated_at: now,
                    last_event_id: Some(event_id),
                },
            ),
            ..store
        },
        EventView::Updated { entity_id, after, .. } => StoreView {
            states: store.states.map_values(renamed(story_id, entity_id, after, now, event_id)),
            ..store
        },
        EventView::Deleted { entity_id, .. } => StoreView {
            states: store.states.map_values(dismissed(story_id, entity_id, now, event_id)),
            ..store
        },
        EventView::AttributeChanged { entity_id, attribute_id, after, source, .. } => StoreView {
            attributes: rows::upserted(
                store.attributes,
                value_of(story_id, entity_id, attribute_id),
                AttributeRowView {
                    story_id,
                    entity_id,
                    attribute_id,
                    value: after,
                    source,
                    updated_at: now,
                    last_event_id: Some(event_id),
                },
            ),
            ..store
        },
        EventView::AttributeRemoved { entity_id, attribute_id, .. } => StoreView {
            attributes: store.attributes.filter(not_value_of(story_id, entity_id, attribute_id)),
            ..store
        },
    }
}

/// Adds an entity, unless there is one with its identifier.
fn insert_entity(entities: &mut Vec<EntityRow>, row: EntityRow)
    ensures
        final(entities).deep_view() == (if rows::any_where(
            old(entities).deep_view(),
            entity_id_is(row@.id),
        ) {
            old(entities).deep_view()
        } else {
            old(entities).deep_view().push(row@)
        }),
{
    let ghost all = entities.deep_view();
    let ghost p = entity_id_is(row@.id);
    let mut i: usize = 0;
    while i < entities.len()
        invariant
            0 <= i <= entities@.len(),
            all == entities.deep_view(),
            *entities == *old(entities),
            p == entity_id_is(row@.id),
            forall|k: int| 0 <= k < i ==> !p(#[trigger] all[k]),
        decreases entities@.len() - i,
    {
        assert(all[i as int] == entities@[i as int]@);
        if entities[i].id == row.id {
            assert(p(all[i as int]));
            return ;
        }
        i += 1;
    }
    let ghost before = *entities;
    let ghost value = row;
    entities.push(row);
    proof {
        rows::lemma_deep_push(before, *entities, value);
    }
}

/// Replaces the state of an entity, or adds it.
fn upsert_state(states: &mut Vec<StateRow>, row: StateRow)
    ensures
        final(states).deep_view() == rows::upserted(
            old(states).deep_view(),
            state_of(row@.story_id, row@.entity_id),
            row@,
        ),
{
    let ghost all = states.deep_view();
    let ghost p = state_of(row@.story_id, row@.entity_id);
    let ghost value = row;
    let ghost before = *states;
    let mut i: usize = 0;
    while i < states.len()
        invariant
            0 <= i <= states@.len(),
            all == states.deep_view(),
            *states == before,
            p == state_of(row@.story_id, row@.entity_id),
            forall|k: int| 0 <= k < i ==> !p(#[trigger] all[k]),
        ensures
            0 <= i <= states@.len(),
            forall|k: int| 0 <= k < i ==> !p(#[trigger] all[k]),
            *states == before,
            i < states@.len() ==> p(all[i as int]),
        decreases states@.len() - i,
    {
        assert(all[i as int] == states@[i as int]@);
        if states[i].story_id == row.story_id && states[i].entity_id == row.entity_id {
            break;
        }
        i += 1;
    }
    if i < states.len() {
        states.set(i, row);
        proof {
            rows::lemma_upserted_hit(all, p, value@, i as int);
            rows::lemma_deep_update(before, *states, i as int, value);
        }
    } else {
        states.push(row);
        proof {
            rows::lemma_upserted_miss(all, p, value@);
            rows::lemma_deep_push(before, *states, value);
        }
    }
}

/// Replaces the value of an attribute, or adds it.
fn upsert_attribute(attributes: &mut Vec<AttributeRow>, row: AttributeRow)
    ensures
        final(attributes).deep_view() == rows::upserted(
            old(attributes).deep_view(),
            value_of(row@.story_id, row@.entity_id, row@.attribute_id),
            row@,
        ),
{
    let ghost all = attributes.deep_view();
    let ghost p = value_of(row@.story_id, row@.entity_id, row@.attribute_id);
    let ghost value = row;
    let ghost before = *attributes;
    let mut i: usize = 0;
    while i < attributes.len()
        invariant
            0 <= i <= attributes@.len(),
            all == attributes.deep_view(),
            *attributes == before,
            p == value_of(row@.story_id, row@.entity_id, row@.attribute_id),
            forall|k: int| 0 <= k < i ==> !p(#[trigger] all[k]),
        ensures
            0 <= i <= attributes@.len(),
            forall|k: int| 0 <= k < i ==> !p(#[trigger] all[k]),
            *attributes == before,
            i < attributes@.len() ==> p(all[i as int]),
        decreases attributes@.len() - i,
    {
        assert(all[i as int] == attributes@[i as int]@);
        if attributes[i].story_id == row.story_id && attributes[i].entity_id == row.entity_id
            && attributes[i].attribute_id == row.attribute_id {
            break;
        }
        i += 1;
    }
    if i < attributes.len() {
        attributes.set(i, row);
        proof {
            rows::lemma_upserted_hit(all, p, value@, i as int);
            rows::lemma_deep_update(before, *attributes, i as int, value);
        }
    } else {
        attributes.push(row);
        proof {
            rows::lemma_upserted_miss(all, p, value@);
            rows::lemma_deep_push(before, *attributes, value);
        }
    }
}

/// Removes the value of an attribute.
fn remove_attribute(attributes: &mut Vec<AttributeRow>, story_id: &str, entity_id: &str, attribute_id: &str)
    ensures
        final(attributes).deep_view() == old(attributes).deep_view().filter(
            not_value_of(story_id@, entity_id@, attribute_id@),
        ),
{
    let ghost all = attributes.deep_view();
    let ghost p = not_value_of(story_id@, entity_id@, attribute_id@);
    let mut out: Vec<AttributeRow> = Vec::new();
    let mut i: usize = 0;
    proof {
        assert(all.take(0).filter(p) =~= Seq::empty()) by {
            reveal(Seq::filter);
        }
    }
    while i < attributes.len()
        invariant
            0 <= i <= attributes@.len(),
            all == attributes.deep_view(),
            p == not_value_of(story_id@, entity_id@, attribute_id@),
            out.deep_view() == all.take(i as int).filter(p),
        decreases attributes@.len() - i,
    {
        let row = &attributes[i];
        proof {
            assert(all[i as int] == row@);
            rows::lemma_filter_step(all, p, i as int);
        }
        if !(text::same_text(row.story_id.as_str(), story_id) && text::same_text(
            row.entity_id.as_str(),
            entity_id,
        ) && text::same_text(row.attribute_id.as_str(), attribute_id)) {
            let copy = row.copy();
            let ghost before = out;
            let ghost value = copy;
            out.push(copy);
            proof {
                rows::lemma_deep_push(before, out, value);
            }
        }
        i += 1;
    }
    proof {
        rows::lemma_take_all(all);
    }
    *attributes = out;
}

/// Changes the states of an entity: renamed where a new name and look is given, dismissed
/// where none is.
fn change_state(
    states: &mut Vec<StateRow>,
    story_id: &str,
    entity_id: &str,
    after: Option<&events::NameAnchor>,
    now: &str,
    event_id: &str,
)
    ensures
        final(states).deep_view() == old(states).deep_view().map_values(
            match after {
                Some(after) => renamed(story_id@, entity_id@, after@, now@, event_id@),
                None => dismissed(story_id@, entity_id@, now@, event_id@),
            },
        ),
{
    let ghost f = match after {
        Some(after) => renamed(story_id@, entity_id@, after@, now@, event_id@),
        None => dismissed(story_id@, entity_id@, now@, event_id@),
    };
    let ghost target = states.deep_view().map_values(f);
    let ghost start = *states;
    let mut i: usize = 0;
    while i < states.len()
        invariant
            0 <= i <= states@.len(),
            states@.len() == start@.len(),
            target == start.deep_view().map_values(f),
            f == (match after {
                Some(after) => renamed(story_id@, entity_id@, after@, now@, event_id@),
                None => dismissed(story_id@, entity_id@, now@, event_id@),
            }),
            forall|k: int| 0 <= k < i ==> (#[trigger] states@[k])@ == target[k],
            forall|k: int| i <= k < start@.len() ==> (#[trigger] states@[k]) == start@[k],
        decreases states@.len() - i,
    {
        assert(target[i as int] == f(states@[i as int]@));
        if text::same_text(states[i].story_id.as_str(), story_id) && text::same_text(
            states[i].entity_id.as_str(),
            entity_id,
        ) {
            let mut row = states[i].copy();
            match after {
                Some(after) => {
                    row.name = after.name.clone();
                    row.appearance_anchor = text::copy_option(&after.appearance_anchor);
                    row.is_present = true;
                },
                None => {
                    row.is_present = false;
                },
            }
            row.updated_at = now.to_string();
            row.last_event_id = Some(event_id.to_string());
            states.set(i, row);
        }
        i += 1;
    }
    assert(states.deep_view() =~= target);
}

/// Makes the tables follow an event.
pub fn apply(store: &mut Store, story_id: &str, event_id: &str, now: &str, event: &EntityEvent)
    ensures
        final(store)@ == applied(old(store)@, story_id@, event_id@, now@, event@),
{
    match event {
        EntityEvent::Created { entity_id, kind, name, appearance_anchor, created_at, .. } => {
            insert_entity(
                &mut store.entities,
                EntityRow {
                    id: entity_id.clone(),
                    story_id: story_id.to_string(),
                    kind: kind.clone(),
                    created_at: created_at.clone(),
                },
            );
            upsert_state(
                &mut store.states,
                StateRow {
                    story_id: story_id.to_string(),
                    entity_id: entity_id.clone(),
                    name: name.clone(),
                    appearance_anchor: text::copy_option(appearance_anchor),
                    is_present: true,
                    updated_at: now.to_string(),
                    last_event_id: Some(event_id.to_string()),
                },
            );
        },
        EntityEvent::Updated { entity_id, after, .. } => {
            change_state(
                &mut store.states,
                story_id,
                entity_id.as_str(),
                Some(after),
                now,
                event_id,
            );
        },
        EntityEvent::Deleted { entity_id, .. } => {
            change_state(&mut store.states, story_id, entity_id.as_str(), None, now, event_id);
        },
        EntityEvent::AttributeChanged { entity_id, attribute_id, after, source, .. } => {
            upsert_attribute(
                &mut store.attributes,
                AttributeRow {
                    story_id: story_id.to_string(),
                    entity_id: entity_id.clone(),
                    attribute_id: attribute_id.clone(),
                    value: after.copy(),
                    source: source.clone(),
                    updated_at: now.to_string(),
                    last_event_id: Some(event_id.to_string()),
                },
            );
        },
        EntityEvent::AttributeRemoved { entity_id, attribute_id, .. } => {
            remove_attribute(
                &mut store.attributes,
                story_id,
                entity_id.as_str(),
                attribute_id.as_str(),
            );
        },
    }
}

/// The draft of the entry that an event is written to.
pub open spec fn event_draft(
    story_id: Seq<char>,
    target_entry_id: Option<Seq<char>>,
    content: Seq<char>,
    event: EventView,
    turn_id: Option<Seq<char>>,
) -> DraftView {
    DraftView {
        story_id,
        kind: events::kind_of(event),
        visibility: HIDDEN@,
        content: Some(content),
        payload: events::payload_of(event),
        target_entry_id,
        turn_id,
    }
}

/// The tables after an event was written down as `entry` and followed, and what is said to
/// the caller.
pub open spec fn recorded(store: StoreView, story_id: Seq<char>, now: Seq<char>, entry: EntryView) -> (
    StoreView,
    Option<ErrorView>,
) {
    let written = repository::appended(store, entry);
    match events::event_of(entry) {
        Some(event) => (applied(written, story_id, entry.id, now, event), None),
        None => (written, Some(ErrorView::Other("recorded entity event could not be parsed"@))),
    }
}

/// Writes an event to the ledger, with a given identifier and time, and makes the tables
/// follow it.
pub fn record_at(
    store: &mut Store,
    id: &str,
    created_at: &str,
    now: &str,
    story_id: &str,
    target_entry_id: Option<&str>,
    content: &str,
    event: &EntityEvent,
    turn_id: Option<&str>,
) -> (r: AppResult<LedgerEntry>)
    ensures
        ({
            let draft = event_draft(
                story_id@,
                target_entry_id.deep_view(),
                content@,
                event@,
                turn_id.deep_view(),
            );
            let entry = repository::drafted_entry(old(store)@, id@, created_at@, draft);
            let outcome = recorded(old(store)@, story_id@, now@, entry);
            match repository::append_refusal(old(store)@, id@, draft) {
                Some(refusal) => r is Err && r->Err_0@ == refusal && final(store)@ == old(store)@,
                None => final(store)@ == outcome.0 && match outcome.1 {
                    Some(e) => r is Err && r->Err_0@ == e,
                    None => r is Ok && r->Ok_0@ == entry,
                },
            }
        }),
{
    let payload = event.payload();
    let draft = Draft {
        story_id,
        kind: event.kind(),
        visibility: HIDDEN,
        content: Some(content),
        payload: &payload,
        target_entry_id,
        turn_id,
    };
    let entry = match repository::append_entry_at(store, id, created_at, &draft) {
        Ok(entry) => entry,
        Err(e) => {
            return Err(e);
        },
    };
    match EntityEvent::from_entry(&entry) {
        Some(recorded_event) => {
            apply(store, story_id, entry.id.as_str(), now, &recorded_event);
            Ok(entry)
        },
        None => Err(AppError::Other("recorded entity event could not be parsed".to_string())),
    }
}

/// Whether an event was written down behind all other entries, with an identifier and a
/// time of its own, and the tables follow it.
pub open spec fn record_step(before: StoreView, after: StoreView, draft: DraftView) -> bool {
    let entry = after.entries.last();
    &&& after.entries.len() > 0
    &&& repository::append_refusal(before, entry.id, draft) is None
    &&& entry == repository::drafted_entry(before, entry.id, entry.created_at, draft)
    &&& exists|now: Seq<char>|
        #[trigger] recorded(before, draft.story_id, now, entry) == (after, None::<ErrorView>)
}

/// Whether an event could not be written down, so that nothing changed.
pub open spec fn unwritten(before: StoreView, after: StoreView, draft: DraftView, e: ErrorView) -> bool {
    after == before && repository::append_failed(before, draft, e)
}

/// Whether an event could not be written down, or could not be read back from its entry.
pub open spec fn record_failure(before: StoreView, after: StoreView, draft: DraftView, e: ErrorView) -> bool {
    ||| unwritten(before, after, draft, e)
    ||| exists|now: Seq<char>, id: Seq<char>, created_at: Seq<char>|
        stamp::fresh_like(id) && repository::append_refusal(before, id, draft) is None && #[trigger] recorded(
            before,
            draft.story_id,
            now,
            repository::drafted_entry(before, id, created_at, draft),
        ) == (after, Some(e))
}

/// What writing an event with a new identifier at the present time comes to.
pub open spec fn record_outcome(
    before: StoreView,
    after: StoreView,
    draft: DraftView,
    r: AppResult<LedgerEntry>,
) -> bool {
    match r {
        Ok(entry) => record_step(before, after, draft) && entry@ == after.entries.last(),
        Err(e) => record_failure(before, after, draft, e@),
    }
}

/// Writes an event to the ledger, with a new identifier and at the present time, and makes
/// the tables follow it.
pub fn record(
    store: &mut Store,
    story_id: &str,
    target_entry_id: Option<&str>,
    content: &str,
    event: &EntityEvent,
    turn_id: Option<&str>,
) -> (r: AppResult<LedgerEntry>)
    ensures
        record_outcome(
            old(store)@,
            final(store)@,
            event_draft(
                story_id@,
                target_entry_id.deep_view(),
                content@,
                event@,
                turn_id.deep_view(),
            ),
            r,
        ),
        events::legible(event@) && r is Err ==> unwritten(
            old(store)@,
            final(store)@,
            event_draft(
                story_id@,
                target_entry_id.deep_view(),
                content@,
                event@,
                turn_id.deep_view(),
            ),
            r->Err_0@,
        ),
{
    let id = stamp::fresh_id();
    let created_at = stamp::now();
    let now = stamp::now();
    let ghost draft = event_draft(
        story_id@,
        target_entry_id.deep_view(),
        content@,
        event@,
        turn_id.deep_view(),
    );
    proof {
        if events::legible(event@) {
            events::lemma_legible_told(event@, repository::drafted_entry(store@, id@, created_at@, draft));
        }
    }
    let ghost outcome = recorded(
        store@,
        draft.story_id,
        now@,
        repository::drafted_entry(store@, id@, created_at@, draft),
    );
    record_at(
        store,
        id.as_str(),
        created_at.as_str(),
        now.as_str(),
        story_id,
        target_entry_id,
        content,
        event,
        turn_id,
    )
}

/// The condition of being a row that a replay of some entities keeps.
pub open spec fn entity_kept(story_id: Seq<char>, ids: Set<Seq<char>>) -> spec_fn(EntityRowView) -> bool {
    |e: EntityRowView| !(e.story_id == story_id && ids.contains(e.id))
}

/// The condition of being a row that a replay of some entities keeps.
pub open spec fn state_kept(story_id: Seq<char>, ids: Set<Seq<char>>) -> spec_fn(StateRowView) -> bool {
    |s: StateRowView| !(s.story_id == story_id && ids.contains(s.entity_id))
}

/// The condition of being a row that a replay of some entities keeps.
pub open spec fn value_kept(story_id: Seq<char>, ids: Set<Seq<char>>) -> spec_fn(AttributeRowView) -> bool {
    |a: AttributeRowView| !(a.story_id == story_id && ids.contains(a.entity_id))
}

/// The tables without what they hold of some entities.
pub open spec fn cleared(store: StoreView, story_id: Seq<char>, ids: Set<Seq<char>>) -> StoreView {
    StoreView {
        entities: store.entities.filter(entity_kept(story_id, ids)),
        states: store.states.filter(state_kept(story_id, ids)),
        attributes: store.attributes.filter(value_kept(story_id, ids)),
        ..store
    }
}

/// What a replay is told to follow.
pub struct ReplayScope {
    pub story_id: Seq<char>,
    pub ids: Set<Seq<char>>,
    pub exclude_turn: Option<Seq<char>>,
    pub now: Seq<char>,
}

/// The tables part way through a replay, and the entities that it has created.
pub struct Replayed {
    pub store: StoreView,
    pub created: Set<Seq<char>>,
}

/// Whether a replay leaves an entry out because of its turn.
pub open spec fn excluded(scope: ReplayScope, entry: EntryView) -> bool {
    scope.exclude_turn is Some && entry.turn_id == scope.exclude_turn
}

/// A replay after one more entry: a creation is followed, and any other event of an
/// entity that the replay has created.
pub open spec fn replay_step(scope: ReplayScope, at: Replayed, entry: EntryView) -> Replayed {
    match events::event_of(entry) {
        Some(event) => if excluded(scope, entry) || !scope.ids.contains(events::subject(event)) {
            at
        } else if event is Created {
            Replayed {
                store: applied(at.store, scope.story_id, entry.id, scope.now, event),
                created: at.created.insert(events::subject(event)),
            }
        } else if at.created.contains(events::subject(event)) {
            Replayed {
                store: applied(at.store, scope.story_id, entry.id, scope.now, event),
                ..at
            }
        } else {
            at
        },
        None => at,
    }
}

/// A replay after some entries.
pub open spec fn replay_fold(scope: ReplayScope, start: StoreView, entries: Seq<EntryView>) -> Replayed
    decreases entries.len(),
{
    if entries.len() == 0 {
        Replayed { store: start, created: Set::empty() }
    } else {
        replay_step(scope, replay_fold(scope, start, entries.drop_last()), entries.last())
    }
}

/// The tables after the state of some entities was made anew from the ledger.
pub open spec fn replayed(store: StoreView, scope: ReplayScope) -> StoreView {
    replay_fold(
        scope,
        cleared(store, scope.story_id, scope.ids),
        repository::story_entries(store.entries, scope.story_id),
    ).store
}

fn clear_entities(entities: &mut Vec<EntityRow>, story_id: &str, ids: &Vec<String>)
    ensures
        final(entities).deep_view() == old(entities).deep_view().filter(
            entity_kept(story_id@, ids.deep_view().to_set()),
        ),
{
    let ghost all = entities.deep_view();
    let ghost p = entity_kept(story_id@, ids.deep_view().to_set());
    let mut out: Vec<EntityRow> = Vec::new();
    let mut i: usize = 0;
    proof {
        assert(all.take(0).filter(p) =~= Seq::empty()) by {
            reveal(Seq::filter);
        }
    }
    while i < entities.len()
        invariant
            0 <= i <= entities@.len(),
            all == entities.deep_view(),
            p == entity_kept(story_id@, ids.deep_view().to_set()),
            out.deep_view() == all.take(i as int).filter(p),
        decreases entities@.len() - i,
    {
        let row = &entities[i];
        proof {
            assert(all[i as int] == row@);
            rows::lemma_filter_step(all, p, i as int);
        }
        if !(text::same_text(row.story_id.as_str(), story_id) && text::list_contains(
            ids,
            row.id.as_str(),
        )) {
            let copy = row.copy();
            let ghost before = out;
            let ghost value = copy;
            out.push(copy);
            proof {
                rows::lemma_deep_push(before, out, value);
            }
        }
        i += 1;
    }
    proof {
        rows::lemma_take_all(all);
    }
    *entities = out;
}

fn clear_states(states: &mut Vec<StateRow>, story_id: &str, ids: &Vec<String>)
    ensures
        final(states).deep_view() == old(states).deep_view().filter(
            state_kept(story_id@, ids.deep_view().to_set()),
        ),
{
    let ghost all = states.deep_view();
    let ghost p = state_kept(story_id@, ids.deep_view().to_set());
    let mut out: Vec<StateRow> = Vec::new();
    let mut i: usize = 0;
    proof {
        assert(all.take(0).filter(p) =~= Seq::empty()) by {
            reveal(Seq::filter);
        }
    }
    while i < states.len()
        invariant
            0 <= i <= states@.len(),
            all == states.deep_view(),
            p == state_kept(story_id@, ids.deep_view().to_set()),
            out.deep_view() == all.take(i as int).filter(p),
        decreases states@.len() - i,
    {
        let row = &states[i];
        proof {
            assert(all[i as int] == row@);
            rows::lemma_filter_step(all, p, i as int);
        }
        if !(text::same_text(row.story_id.as_str(), story_id) && text::list_contains(
            ids,
            row.entity_id.as_str(),
        )) {
            let copy = row.copy();
            let ghost before = out;
            let ghost value = copy;
            out.push(copy);
            proof {
                rows::lemma_deep_push(before, out, value);
            }
        }
        i += 1;
    }
    proof {
        rows::lemma_take_all(all);
    }
    *states = out;
}

fn clear_values(attributes: &mut Vec<AttributeRow>, story_id: &str, ids: &Vec<String>)
    ensures
        final(attributes).deep_view() == old(attributes).deep_view().filter(
            value_kept(story_id@, ids.deep_view().to_set()),
        ),
{
    let ghost all = attributes.deep_view();
    let ghost p = value_kept(story_id@, ids.deep_view().to_set());
    let mut out: Vec<AttributeRow> = Vec::new();
    let mut i: usize = 0;
    proof {
        assert(all.take(0).filter(p) =~= Seq::empty()) by {
            reveal(Seq::filter);
        }
    }
    while i < attributes.len()
        invariant
            0 <= i <= attributes@.len(),
            all == attributes.deep_view(),
            p == value_kept(story_id@, ids.deep_view().to_set()),
            out.deep_view() == all.take(i as int).filter(p),
        decreases attributes@.len() - i,
    {
        let row = &attributes[i];
        proof {
            assert(all[i as int] == row@);
            rows::lemma_filter_step(all, p, i as int);
        }
        if !(text::same_text(row.story_id.as_str(), story_id) && text::list_contains(
            ids,
            row.entity_id.as_str(),
        )) {
            let copy = row.copy();
            let ghost before = out;
            let ghost value = copy;
            out.push(copy);
            proof {
                rows::lemma_deep_push(before, out, value);
            }
        }
        i += 1;
    }
    proof {
        rows::lemma_take_all(all);
    }
    *attributes = out;
}

/// Whether a turn is the one to leave out.
fn is_excluded(entry: &LedgerEntry, exclude_turn: Option<&str>) -> (r: bool)
    ensures
        r == (exclude_turn is Some && entry@.turn_id == exclude_turn.deep_view()),
{
    match (exclude_turn, &entry.turn_id) {
        (Some(turn), Some(own)) => text::same_text(own.as_str(), turn),
        _ => false,
    }
}

/// Makes the state of some entities anew from the ledger, as if nothing had happened in the
/// turn that is left out. Rows of other entities stay as they are.
pub fn replay(store: &mut Store, story_id: &str, entity_ids: &Vec<String>, exclude_turn: Option<&str>, now: &str)
    ensures
        final(store)@ == replayed(
            old(store)@,
            (ReplayScope {
                story_id: story_id@,
                ids: entity_ids.deep_view().to_set(),
                exclude_turn: exclude_turn.deep_view(),
                now: now@,
            }),
        ),
{
    let ghost scope = ReplayScope {
        story_id: story_id@,
        ids: entity_ids.deep_view().to_set(),
        exclude_turn: exclude_turn.deep_view(),
        now: now@,
    };
    let entries = repository::list_logical_entries(store, story_id);
    clear_values(&mut store.attributes, story_id, entity_ids);
    clear_states(&mut store.states, story_id, entity_ids);
    clear_entities(&mut store.entities, story_id, entity_ids);
    let ghost start = store@;
    let ghost all = entries.deep_view();
    let mut created: Vec<String> = Vec::new();
    let mut i: usize = 0;
    proof {
        assert(created.deep_view().to_set() =~= Set::empty());
    }
    while i < entries.len()
        invariant
            0 <= i <= entries@.len(),
            all == entries.deep_view(),
            scope == (ReplayScope {
                story_id: story_id@,
                ids: entity_ids.deep_view().to_set(),
                exclude_turn: exclude_turn.deep_view(),
                now: now@,
            }),
            store@ == replay_fold(scope, start, all.take(i as int)).store,
            created.deep_view().to_set() == replay_fold(scope, start, all.take(i as int)).created,
        decreases entries@.len() - i,
    {
        let entry = &entries[i];
        proof {
            assert(all.take(i + 1).drop_last() =~= all.take(i as int));
            assert(all.take(i + 1).last() == entry@);
        }
        if !is_excluded(entry, exclude_turn) {
            if let Some(event) = EntityEvent::from_entry(entry) {
                if text::list_contains(entity_ids, event.entity_id()) {
                    let creation = match &event {
                        EntityEvent::Created { .. } => true,
                        _ => false,
                    };
                    if creation {
                        apply(store, story_id, entry.id.as_str(), now, &event);
                        let ghost before = created;
                        let subject = event.entity_id().to_string();
                        let ghost value = subject;
                        created.push(subject);
                        proof {
                            rows::lemma_deep_push(before, created, value);
                            assert(created.deep_view().to_set() =~= before.deep_view().to_set().insert(
                                value@,
                            )) by {
                                lemma_push_to_set(before.deep_view(), value@);
                            }
                        }
                    } else if text::list_contains(&created, event.entity_id()) {
                        apply(store, story_id, entry.id.as_str(), now, &event);
                    }
                }
            }
        }
        i += 1;
    }
    proof {
        rows::lemma_take_all(all);
    }
}

proof fn lemma_push_to_set(s: Seq<Seq<char>>, x: Seq<char>)
    ensures
        s.push(x).to_set() == s.to_set().insert(x),
{
    assert forall|y: Seq<char>|
        s.push(x).to_set().contains(y) == s.to_set().insert(x).contains(y) by {
        rows::lemma_push_contains(s, x, y);
    }
    assert(s.push(x).to_set() =~= s.to_set().insert(x));
}

/// The entities that a story has, or that its ledger tells of.
pub open spec fn known_ids(store: StoreView, story_id: Seq<char>) -> Set<Seq<char>> {
    Set::new(
        |id: Seq<char>|
            {
                ||| exists|i: int|
                    0 <= i < store.entities.len() && (#[trigger] store.entities[i]).id == id
                        && store.entities[i].story_id == story_id
                ||| exists|i: int|
                    0 <= i < repository::story_entries(store.entries, story_id).len()
                        && is_subject(#[trigger] repository::story_entries(store.entries, story_id)[i], id)
            },
    )
}

/// Whether an entry tells of something that happened to an entity.
pub open spec fn is_subject(entry: EntryView, id: Seq<char>) -> bool {
    events::event_of(entry) is Some && events::subject(events::event_of(entry)->0) == id
}

/// The tables after the state of all entities of a story was made anew from the ledger.
pub open spec fn rebuilt(store: StoreView, story_id: Seq<char>, exclude_turn: Option<Seq<char>>, now: Seq<char>) -> StoreView {
    replayed(store, ReplayScope { story_id, ids: known_ids(store, story_id), exclude_turn, now })
}

/// The entities that a story has.
fn entity_ids(store: &Store, story_id: &str) -> (r: Vec<String>)
    ensures
        forall|id: Seq<char>|
            #[trigger] r.deep_view().contains(id) <==> exists|i: int|
                0 <= i < store@.entities.len() && (#[trigger] store@.entities[i]).id == id
                    && store@.entities[i].story_id == story_id@,
{
    let ghost all = store@.entities;
    let mut out: Vec<String> = Vec::new();
    let mut i: usize = 0;
    while i < store.entities.len()
        invariant
            0 <= i <= store.entities@.len(),
            all == store@.entities,
            forall|id: Seq<char>|
                #[trigger] out.deep_view().contains(id) <==> exists|k: int|
                    0 <= k < i && (#[trigger] all[k]).id == id && all[k].story_id == story_id@,
        decreases store.entities@.len() - i,
    {
        let row = &store.entities[i];
        assert(all[i as int] == row@);
        let ghost before = out;
        if text::same_text(row.story_id.as_str(), story_id) {
            let id = row.id.clone();
            let ghost value = id;
            out.push(id);
            proof {
                rows::lemma_deep_push(before, out, value);
                assert forall|id: Seq<char>|
                    #[trigger] out.deep_view().contains(id) <==> before.deep_view().contains(id)
                        || id == row@.id by {
                    rows::lemma_push_contains(before.deep_view(), value@, id);
                }
            }
        }
        i += 1;
    }
    out
}

/// Makes the state of all entities of a story anew from the ledger, as if nothing had
/// happened in the turn that is left out.
pub fn rebuild_story(store: &mut Store, story_id: &str, exclude_turn: Option<&str>, now: &str)
    ensures
        final(store)@ == rebuilt(old(store)@, story_id@, exclude_turn.deep_view(), now@),
{
    let mut ids = entity_ids(store, story_id);
    let ghost held = ids.deep_view();
    let entries = repository::list_logical_entries(store, story_id);
    let ghost all = entries.deep_view();
    let mut i: usize = 0;
    while i < entries.len()
        invariant
            0 <= i <= entries@.len(),
            all == entries.deep_view(),
            forall|id: Seq<char>|
                #[trigger] ids.deep_view().contains(id) <==> held.contains(id) || exists|k: int|
                    0 <= k < i && is_subject(#[trigger] all[k], id),
        decreases entries@.len() - i,
    {
        let entry = &entries[i];
        assert(all[i as int] == entry@);
        let ghost before = ids;
        if let Some(event) = EntityEvent::from_entry(entry) {
            let id = event.entity_id().to_string();
            let ghost value = id;
            ids.push(id);
            proof {
                rows::lemma_deep_push(before, ids, value);
                assert forall|id: Seq<char>|
                    #[trigger] ids.deep_view().contains(id) <==> before.deep_view().contains(id)
                        || is_subject(entry@, id) by {
                    rows::lemma_push_contains(before.deep_view(), value@, id);
                }
            }
        }
        i += 1;
    }
    proof {
        assert(ids.deep_view().to_set() =~= known_ids(store@, story_id@));
    }
    replay(store, story_id, &ids, exclude_turn, now);
}

/// A replay touches nothing but what is known of entities.
pub proof fn law_replay_keeps_the_record(store: StoreView, scope: ReplayScope)
    ensures
        replayed(store, scope).entries == store.entries,
        replayed(store, scope).stories == store.stories,
        replayed(store, scope).turns == store.turns,
        replayed(store, scope).registry == store.registry,
        replayed(store, scope).images == store.images,
        replayed(store, scope).blobs == store.blobs,
{
    lemma_fold_keeps(
        scope,
        cleared(store, scope.story_id, scope.ids),
        repository::story_entries(store.entries, scope.story_id),
    );
}

proof fn lemma_fold_keeps(scope: ReplayScope, start: StoreView, entries: Seq<EntryView>)
    ensures
        ({
            let after = replay_fold(scope, start, entries).store;
            &&& after.entries == start.entries
            &&& after.stories == start.stories
            &&& after.turns == start.turns
            &&& after.registry == start.registry
            &&& after.images == start.images
            &&& after.blobs == start.blobs
        }),
    decreases entries.len(),
{
    if entries.len() > 0 {
        lemma_fold_keeps(scope, start, entries.drop_last());
    }
}

} // verus!
