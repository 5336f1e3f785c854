//! The state of the entities and the ledger tell the same story: what was written event
//! by event is what a replay of the ledger gives.

use vstd::prelude::*;

use super::events;
use super::events::EventView;
use super::projection;
use super::projection::ReplayScope;
use crate::ledger::model::EntryView;
use crate::ledger::repository;
use crate::rows;
use crate::store::{AttributeRowView, EntityRowView, StateRowView, StoreView};

verus! {

/// What the tables hold of a story's entities, without the times at which rows were
/// written, beside the entities of other stories.
#[verifier::ext_equal]
pub struct Projection {
    pub entities: Seq<EntityRowView>,
    pub elsewhere: Seq<EntityRowView>,
    pub states: Seq<StateRowView>,
    pub attributes: Seq<AttributeRowView>,
}

pub open spec fn own_entity(story_id: Seq<char>) -> spec_fn(EntityRowView) -> bool {
    |e: EntityRowView| e.story_id == story_id
}

pub open spec fn other_entity(story_id: Seq<char>) -> spec_fn(EntityRowView) -> bool {
    |e: EntityRowView| e.story_id != story_id
}

pub open spec fn own_state(story_id: Seq<char>) -> spec_fn(StateRowView) -> bool {
    |s: StateRowView| s.story_id == story_id
}

pub open spec fn own_value(story_id: Seq<char>) -> spec_fn(AttributeRowView) -> bool {
    |a: AttributeRowView| a.story_id == story_id
}

pub open spec fn timeless_state() -> spec_fn(StateRowView) -> StateRowView {
    |s: StateRowView| StateRowView { updated_at: Seq::empty(), ..s }
}

pub open spec fn timeless_value() -> spec_fn(AttributeRowView) -> AttributeRowView {
    |a: AttributeRowView| AttributeRowView { updated_at: Seq::empty(), ..a }
}

/// What the tables hold of a story's entities.
pub open spec fn projection_of(store: StoreView, story_id: Seq<char>) -> Projection {
    Projection {
        entities: store.entities.filter(own_entity(story_id)),
        elsewhere: store.entities.filter(other_entity(story_id)),
        states: store.states.filter(own_state(story_id)).map_values(timeless_state()),
        attributes: store.attributes.filter(own_value(story_id)).map_values(timeless_value()),
    }
}

/// Whether the ledger of a story tells of the creation of an entity.
pub open spec fn creation_told(entries: Seq<EntryView>, id: Seq<char>) -> bool {
    exists|i: int| 0 <= i < entries.len() && tells_creation(#[trigger] entries[i], id)
}

/// Whether an entry tells of the creation of an entity.
pub open spec fn tells_creation(entry: EntryView, id: Seq<char>) -> bool {
    events::event_of(entry) is Some && events::event_of(entry)->0 is Created && events::subject(
        events::event_of(entry)->0,
    ) == id
}

/// Whether each state and each value in a story is that of an entity that the story has or
/// that its ledger tells of.
pub open spec fn rows_known(store: StoreView, story_id: Seq<char>) -> bool {
    &&& forall|i: int|
        0 <= i < store.states.len() && (#[trigger] store.states[i]).story_id == story_id
            ==> projection::known_ids(store, story_id).contains(store.states[i].entity_id)
    &&& forall|i: int|
        0 <= i < store.attributes.len() && (#[trigger] store.attributes[i]).story_id == story_id
            ==> projection::known_ids(store, story_id).contains(store.attributes[i].entity_id)
}

/// Whether the tables hold of a story's entities what a replay of its ledger gives.
pub open spec fn in_step(store: StoreView, story_id: Seq<char>) -> bool {
    &&& rows_known(store, story_id)
    &&& forall|now: Seq<char>|
        projection_of(#[trigger] projection::rebuilt(store, story_id, None, now), story_id)
            == projection_of(store, story_id)
}

pub proof fn lemma_entity_found(store: StoreView, story_id: Seq<char>, id: Seq<char>)
    ensures
        rows::any_where(store.entities, projection::entity_id_is(id)) <==> rows::any_where(
            projection_of(store, story_id).entities,
            projection::entity_id_is(id),
        ) || rows::any_where(projection_of(store, story_id).elsewhere, projection::entity_id_is(id)),
{
    let all = store.entities;
    let p = projection::entity_id_is(id);
    let own = all.filter(own_entity(story_id));
    let other = all.filter(other_entity(story_id));
    if rows::any_where(all, p) {
        let i = choose|i: int| 0 <= i < all.len() && p(#[trigger] all[i]);
        let x = all[i];
        assert(all.contains(x));
        rows::lemma_filter_member(all, own_entity(story_id), x);
        rows::lemma_filter_member(all, other_entity(story_id), x);
        if x.story_id == story_id {
            let k = choose|k: int| 0 <= k < own.len() && own[k] == x;
            assert(p(own[k]));
        } else {
            let k = choose|k: int| 0 <= k < other.len() && other[k] == x;
            assert(p(other[k]));
        }
    }
    if rows::any_where(own, p) {
        let k = choose|k: int| 0 <= k < own.len() && p(#[trigger] own[k]);
        assert(own.contains(own[k]));
        rows::lemma_filter_member(all, own_entity(story_id), own[k]);
        let i = choose|i: int| 0 <= i < all.len() && all[i] == own[k];
        assert(p(all[i]));
    }
    if rows::any_where(other, p) {
        let k = choose|k: int| 0 <= k < other.len() && p(#[trigger] other[k]);
        assert(other.contains(other[k]));
        rows::lemma_filter_member(all, other_entity(story_id), other[k]);
        let i = choose|i: int| 0 <= i < all.len() && all[i] == other[k];
        assert(p(all[i]));
    }
}

pub proof fn lemma_push_filter<A>(s: Seq<A>, p: spec_fn(A) -> bool, x: A)
    ensures
        s.push(x).filter(p) == (if p(x) {
            s.filter(p).push(x)
        } else {
            s.filter(p)
        }),
{
    reveal(Seq::filter);
    assert(s.push(x).drop_last() =~= s);
}

/// What an event makes of a story's part of the tables.
pub proof fn lemma_applied(
    store: StoreView,
    story_id: Seq<char>,
    event_id: Seq<char>,
    now: Seq<char>,
    event: EventView,
)
    ensures
        ({
            let p = projection_of(store, story_id);
            let after = projection_of(
                projection::applied(store, story_id, event_id, now, event),
                story_id,
            );
            let none = Seq::<char>::empty();
            match event {
                EventView::Created { entity_id, kind, name, appearance_anchor, created_at, .. } => {
                    &&& after.entities == (if rows::any_where(
                        store.entities,
                        projection::entity_id_is(entity_id),
                    ) {
                        p.entities
                    } else {
                        p.entities.push(EntityRowView { id: entity_id, story_id, kind, created_at })
                    })
                    &&& after.elsewhere == p.elsewhere
                    &&& after.attributes == p.attributes
                    &&& after.states == rows::upserted(
                        p.states,
                        projection::state_of(story_id, entity_id),
                        StateRowView {
                            story_id,
                            entity_id,
                            name,
                            appearance_anchor,
                            is_present: true,
                            updated_at: none,
                            last_event_id: Some(event_id),
                        },
                    )
                },
                EventView::Updated { entity_id, after: anchor, .. } => after == (Projection {
                    states: p.states.map_values(
                        projection::renamed(story_id, entity_id, anchor, none, event_id),
                    ),
                    ..p
                }),
                EventView::Deleted { entity_id, .. } => after == (Projection {
                    states: p.states.map_values(
                        projection::dismissed(story_id, entity_id, none, event_id),
                    ),
                    ..p
                }),
                EventView::AttributeChanged { entity_id, attribute_id, after: value, source, .. } => after
                    == (Projection {
                    attributes: rows::upserted(
                        p.attributes,
                        projection::value_of(story_id, entity_id, attribute_id),
                        AttributeRowView {
                            story_id,
                            entity_id,
                            attribute_id,
                            value,
                            source,
                            updated_at: none,
                            last_event_id: Some(event_id),
                        },
                    ),
                    ..p
                }),
                EventView::AttributeRemoved { entity_id, attribute_id, .. } => after == (Projection {
                    attributes: p.attributes.filter(
                        projection::not_value_of(story_id, entity_id, attribute_id),
                    ),
                    ..p
                }),
            }
        }),
{
    let none = Seq::<char>::empty();
    let own = own_state(story_id);
    let strip = timeless_state();
    match event {
        EventView::Created { entity_id, kind, name, appearance_anchor, created_at, .. } => {
            let row = StateRowView {
                story_id,
                entity_id,
                name,
                appearance_anchor,
                is_present: true,
                updated_at: now,
                last_event_id: Some(event_id),
            };
            let key = projection::state_of(story_id, entity_id);
            rows::lemma_filter_upserted(store.states, own, key, row);
            rows::lemma_map_upserted(store.states.filter(own), strip, key, row);
            let entity = EntityRowView { id: entity_id, story_id, kind, created_at };
            lemma_push_filter(store.entities, own_entity(story_id), entity);
            lemma_push_filter(store.entities, other_entity(story_id), entity);
        },
        EventView::Updated { entity_id, after, .. } => {
            let f = projection::renamed(story_id, entity_id, after, now, event_id);
            let g = projection::renamed(story_id, entity_id, after, none, event_id);
            rows::lemma_filter_map(store.states, f, own);
            let s = store.states.filter(own);
            assert(s.map_values(f).map_values(strip) =~= s.map_values(strip).map_values(g));
        },
        EventView::Deleted { entity_id, .. } => {
            let f = projection::dismissed(story_id, entity_id, now, event_id);
            let g = projection::dismissed(story_id, entity_id, none, event_id);
            rows::lemma_filter_map(store.states, f, own);
            let s = store.states.filter(own);
            assert(s.map_values(f).map_values(strip) =~= s.map_values(strip).map_values(g));
        },
        EventView::AttributeChanged { entity_id, attribute_id, after, source, .. } => {
            let row = AttributeRowView {
                story_id,
                entity_id,
                attribute_id,
                value: after,
                source,
                updated_at: now,
                last_event_id: Some(event_id),
            };
            let key = projection::value_of(story_id, entity_id, attribute_id);
            rows::lemma_filter_upserted(store.attributes, own_value(story_id), key, row);
            rows::lemma_map_upserted(
                store.attributes.filter(own_value(story_id)),
                timeless_value(),
                key,
                row,
            );
        },
        EventView::AttributeRemoved { entity_id, attribute_id, .. } => {
            let q = projection::not_value_of(story_id, entity_id, attribute_id);
            rows::lemma_filter_filter(store.attributes, q, own_value(story_id));
            rows::lemma_filter_map(store.attributes.filter(own_value(story_id)), timeless_value(), q);
        },
    }
}

/// An event has the same effect on a story's part of the tables wherever that part is the
/// same.
proof fn lemma_applied_agree(
    a: StoreView,
    b: StoreView,
    story_id: Seq<char>,
    event_id: Seq<char>,
    now_a: Seq<char>,
    now_b: Seq<char>,
    event: EventView,
)
    requires
        projection_of(a, story_id) == projection_of(b, story_id),
    ensures
        projection_of(projection::applied(a, story_id, event_id, now_a, event), story_id)
            == projection_of(projection::applied(b, story_id, event_id, now_b, event), story_id),
{
    lemma_applied(a, story_id, event_id, now_a, event);
    lemma_applied(b, story_id, event_id, now_b, event);
    if let EventView::Created { entity_id, .. } = event {
        lemma_entity_found(a, story_id, entity_id);
        lemma_entity_found(b, story_id, entity_id);
    }
}

/// Two replays that agree on the entities that the entries tell of, from tables that agree
/// on the story's part, agree in the end.
pub proof fn lemma_fold_agree(
    scope_a: ReplayScope,
    scope_b: ReplayScope,
    a: StoreView,
    b: StoreView,
    entries: Seq<EntryView>,
)
    requires
        scope_a.story_id == scope_b.story_id,
        scope_a.exclude_turn == scope_b.exclude_turn,
        projection_of(a, scope_a.story_id) == projection_of(b, scope_a.story_id),
        forall|i: int, id: Seq<char>|
            0 <= i < entries.len() && #[trigger] projection::is_subject(entries[i], id)
                ==> scope_a.ids.contains(id) == scope_b.ids.contains(id),
    ensures
        projection_of(projection::replay_fold(scope_a, a, entries).store, scope_a.story_id)
            == projection_of(projection::replay_fold(scope_b, b, entries).store, scope_a.story_id),
        projection::replay_fold(scope_a, a, entries).created == projection::replay_fold(
            scope_b,
            b,
            entries,
        ).created,
    decreases entries.len(),
{
    if entries.len() > 0 {
        let t = entries.drop_last();
        assert forall|i: int, id: Seq<char>|
            0 <= i < t.len() && #[trigger] projection::is_subject(t[i], id) implies scope_a.ids.contains(
            id,
        ) == scope_b.ids.contains(id) by {
            assert(entries[i] == t[i]);
            assert(projection::is_subject(entries[i], id));
        }
        lemma_fold_agree(scope_a, scope_b, a, b, t);
        let at_a = projection::replay_fold(scope_a, a, t);
        let at_b = projection::replay_fold(scope_b, b, t);
        let last = entries.last();
        if let Some(event) = events::event_of(last) {
            assert(projection::is_subject(entries[entries.len() - 1], events::subject(event)));
            lemma_applied_agree(
                at_a.store,
                at_b.store,
                scope_a.story_id,
                last.id,
                scope_a.now,
                scope_b.now,
                event,
            );
        }
    }
}

/// Clearing some entities, seen on the story's part of the tables.
proof fn lemma_cleared(store: StoreView, story_id: Seq<char>, ids: Set<Seq<char>>)
    ensures
        projection_of(projection::cleared(store, story_id, ids), story_id) == (Projection {
            entities: projection_of(store, story_id).entities.filter(
                projection::entity_kept(story_id, ids),
            ),
            elsewhere: projection_of(store, story_id).elsewhere,
            states: projection_of(store, story_id).states.filter(
                projection::state_kept(story_id, ids),
            ),
            attributes: projection_of(store, story_id).attributes.filter(
                projection::value_kept(story_id, ids),
            ),
        }),
{
    let ek = projection::entity_kept(story_id, ids);
    let sk = projection::state_kept(story_id, ids);
    let vk = projection::value_kept(story_id, ids);
    rows::lemma_filter_filter(store.entities, ek, own_entity(story_id));
    rows::lemma_filter_implied(store.entities, ek, other_entity(story_id));
    rows::lemma_filter_filter(store.states, sk, own_state(story_id));
    rows::lemma_filter_map(store.states.filter(own_state(story_id)), timeless_state(), sk);
    rows::lemma_filter_filter(store.attributes, vk, own_value(story_id));
    rows::lemma_filter_map(store.attributes.filter(own_value(story_id)), timeless_value(), vk);
}

/// The entities that a replay has created are those whose creation the entries tell of.
pub proof fn lemma_created(scope: ReplayScope, start: StoreView, entries: Seq<EntryView>, id: Seq<char>)
    requires
        scope.exclude_turn is None,
        scope.ids.contains(id),
        creation_told(entries, id),
    ensures
        projection::replay_fold(scope, start, entries).created.contains(id),
    decreases entries.len(),
{
    let i = choose|i: int| 0 <= i < entries.len() && tells_creation(#[trigger] entries[i], id);
    if i < entries.len() - 1 {
        assert(tells_creation(entries.drop_last()[i], id));
        lemma_created(scope, start, entries.drop_last(), id);
    }
}

/// The entities that a story has or tells of, after an event was written down and followed.
proof fn lemma_known_after(store: StoreView, story_id: Seq<char>, now: Seq<char>, entry: EntryView, id: Seq<char>)
    requires
        entry.story_id == story_id,
        repository::newest(store.entries, entry),
        events::event_of(entry) is Some,
    ensures
        projection::known_ids(projection::recorded(store, story_id, now, entry).0, story_id).contains(id)
            <==> projection::known_ids(store, story_id).contains(id) || id == events::subject(
            events::event_of(entry)->0,
        ),
{
    let event = events::event_of(entry)->0;
    let after = projection::recorded(store, story_id, now, entry).0;
    let told = repository::story_entries(store.entries, story_id);
    let told_after = repository::story_entries(after.entries, story_id);
    repository::law_appended_entry_is_listed_last(store, entry, i64::MIN);
    assert(told_after == told.push(entry));
    assert(told_after[told.len() as int] == entry);
    if projection::known_ids(store, story_id).contains(id) {
        if exists|i: int|
            0 <= i < store.entities.len() && (#[trigger] store.entities[i]).id == id
                && store.entities[i].story_id == story_id {
            let i = choose|i: int|
                0 <= i < store.entities.len() && (#[trigger] store.entities[i]).id == id
                    && store.entities[i].story_id == story_id;
            assert(after.entities[i] == store.entities[i]);
        } else {
            let i = choose|i: int|
                0 <= i < told.len() && projection::is_subject(#[trigger] told[i], id);
            assert(told_after[i] == told[i]);
        }
    }
    if id == events::subject(event) {
        assert(projection::is_subject(told_after[told.len() as int], id));
    }
    if projection::known_ids(after, story_id).contains(id) && id != events::subject(event) {
        if exists|i: int|
            0 <= i < after.entities.len() && (#[trigger] after.entities[i]).id == id
                && after.entities[i].story_id == story_id {
            let i = choose|i: int|
                0 <= i < after.entities.len() && (#[trigger] after.entities[i]).id == id
                    && after.entities[i].story_id == story_id;
            assert(i < store.entities.len());
            assert(store.entities[i] == after.entities[i]);
        } else {
            let i = choose|i: int|
                0 <= i < told_after.len() && projection::is_subject(#[trigger] told_after[i], id);
            assert(told[i] == told_after[i]);
        }
    }
}

/// All of a story's own rows go when the entities that it has or tells of are cleared.
pub proof fn lemma_own_rows_known(store: StoreView, story_id: Seq<char>, ids: Set<Seq<char>>)
    requires
        rows_known(store, story_id),
        forall|id: Seq<char>|
            #[trigger] projection::known_ids(store, story_id).contains(id) ==> ids.contains(id),
    ensures
        projection_of(projection::cleared(store, story_id, ids), story_id) == (Projection {
            entities: Seq::empty(),
            elsewhere: projection_of(store, story_id).elsewhere,
            states: Seq::empty(),
            attributes: Seq::empty(),
        }),
{
    let p = projection_of(store, story_id);
    lemma_cleared(store, story_id, ids);
    let ek = projection::entity_kept(story_id, ids);
    let sk = projection::state_kept(story_id, ids);
    let vk = projection::value_kept(story_id, ids);
    let entities = p.entities.filter(ek);
    let states = p.states.filter(sk);
    let attributes = p.attributes.filter(vk);
    if entities.len() > 0 {
        let x = entities[0];
        assert(entities.contains(x));
        rows::lemma_filter_member(p.entities, ek, x);
        rows::lemma_filter_member(store.entities, own_entity(story_id), x);
        let i = choose|i: int| 0 <= i < store.entities.len() && store.entities[i] == x;
        assert(projection::known_ids(store, story_id).contains(store.entities[i].id));
    }
    if states.len() > 0 {
        let x = states[0];
        assert(states.contains(x));
        rows::lemma_filter_member(p.states, sk, x);
        let own = store.states.filter(own_state(story_id));
        let k = choose|k: int| 0 <= k < p.states.len() && p.states[k] == x;
        assert(own.contains(own[k]));
        rows::lemma_filter_member(store.states, own_state(story_id), own[k]);
        let i = choose|i: int| 0 <= i < store.states.len() && store.states[i] == own[k];
        assert(projection::known_ids(store, story_id).contains(store.states[i].entity_id));
    }
    if attributes.len() > 0 {
        let x = attributes[0];
        assert(attributes.contains(x));
        rows::lemma_filter_member(p.attributes, vk, x);
        let own = store.attributes.filter(own_value(story_id));
        let k = choose|k: int| 0 <= k < p.attributes.len() && p.attributes[k] == x;
        assert(own.contains(own[k]));
        rows::lemma_filter_member(store.attributes, own_value(story_id), own[k]);
        let i = choose|i: int| 0 <= i < store.attributes.len() && store.attributes[i] == own[k];
        assert(projection::known_ids(store, story_id).contains(store.attributes[i].entity_id));
    }
    assert(entities =~= Seq::empty());
    assert(states =~= Seq::empty());
    assert(attributes =~= Seq::empty());
}

proof fn lemma_rows_known_after(store: StoreView, story_id: Seq<char>, now: Seq<char>, entry: EntryView)
    requires
        rows_known(store, story_id),
        entry.story_id == story_id,
        repository::newest(store.entries, entry),
        events::event_of(entry) is Some,
    ensures
        rows_known(projection::recorded(store, story_id, now, entry).0, story_id),
{
    let event = events::event_of(entry)->0;
    let after = projection::recorded(store, story_id, now, entry).0;
    assert forall|i: int|
        0 <= i < after.states.len() && (#[trigger] after.states[i]).story_id
            == story_id implies projection::known_ids(after, story_id).contains(
        after.states[i].entity_id,
    ) by {
        let id = after.states[i].entity_id;
        lemma_known_after(store, story_id, now, entry, id);
        match event {
            EventView::Created { entity_id, name, appearance_anchor, .. } => {
                let row = StateRowView {
                    story_id,
                    entity_id,
                    name,
                    appearance_anchor,
                    is_present: true,
                    updated_at: now,
                    last_event_id: Some(entry.id),
                };
                rows::lemma_upserted_member(
                    store.states,
                    projection::state_of(story_id, entity_id),
                    row,
                    i,
                );
                if after.states[i] != row {
                    let k = choose|k: int|
                        0 <= k < store.states.len() && store.states[k] == after.states[i];
                    assert(projection::known_ids(store, story_id).contains(store.states[k].entity_id));
                }
            },
            _ => {
                assert(store.states[i].entity_id == id && store.states[i].story_id == story_id);
            },
        }
    }
    assert forall|i: int|
        0 <= i < after.attributes.len() && (#[trigger] after.attributes[i]).story_id
            == story_id implies projection::known_ids(after, story_id).contains(
        after.attributes[i].entity_id,
    ) by {
        let x = after.attributes[i];
        lemma_known_after(store, story_id, now, entry, x.entity_id);
        match event {
            EventView::AttributeChanged { entity_id, attribute_id, after: value, source, .. } => {
                let row = AttributeRowView {
                    story_id,
                    entity_id,
                    attribute_id,
                    value,
                    source,
                    updated_at: now,
                    last_event_id: Some(entry.id),
                };
                rows::lemma_upserted_member(
                    store.attributes,
                    projection::value_of(story_id, entity_id, attribute_id),
                    row,
                    i,
                );
                if x != row {
                    let k = choose|k: int|
                        0 <= k < store.attributes.len() && store.attributes[k] == x;
                    assert(projection::known_ids(store, story_id).contains(
                        store.attributes[k].entity_id,
                    ));
                }
            },
            EventView::AttributeRemoved { entity_id, attribute_id, .. } => {
                assert(after.attributes.contains(x));
                rows::lemma_filter_member(
                    store.attributes,
                    projection::not_value_of(story_id, entity_id, attribute_id),
                    x,
                );
                let k = choose|k: int| 0 <= k < store.attributes.len() && store.attributes[k] == x;
                assert(projection::known_ids(store, story_id).contains(store.attributes[k].entity_id));
            },
            _ => {
                assert(store.attributes[i] == x);
            },
        }
    }
}

/// Writing an event down and following it keeps the tables in step with the ledger: of a
/// creation always, of any other event where the ledger tells of the entity's creation.
pub proof fn law_recording_keeps_in_step(store: StoreView, story_id: Seq<char>, now: Seq<char>, entry: EntryView)
    requires
        in_step(store, story_id),
        entry.story_id == story_id,
        repository::newest(store.entries, entry),
        events::event_of(entry) is Some,
        events::event_of(entry)->0 is Created || creation_told(
            repository::story_entries(store.entries, story_id),
            events::subject(events::event_of(entry)->0),
        ),
    ensures
        in_step(projection::recorded(store, story_id, now, entry).0, story_id),
{
    let event = events::event_of(entry)->0;
    let id = events::subject(event);
    let written = repository::appended(store, entry);
    let after = projection::recorded(store, story_id, now, entry).0;
    let told = repository::story_entries(store.entries, story_id);
    let told_after = repository::story_entries(after.entries, story_id);
    repository::law_appended_entry_is_listed_last(store, entry, i64::MIN);
    assert(told_after == told.push(entry));
    assert(told.push(entry).drop_last() =~= told);
    let ids = projection::known_ids(store, story_id);
    let ids_after = projection::known_ids(after, story_id);
    assert forall|x: Seq<char>| #[trigger]
        ids_after.contains(x) <==> ids.contains(x) || x == id by {
        lemma_known_after(store, story_id, now, entry, x);
    }
    lemma_rows_known_after(store, story_id, now, entry);
    assert forall|later: Seq<char>|
        projection_of(#[trigger] projection::rebuilt(after, story_id, None, later), story_id)
            == projection_of(after, story_id) by {
        let scope = ReplayScope { story_id, ids, exclude_turn: None, now: later };
        let scope_after = ReplayScope { story_id, ids: ids_after, exclude_turn: None, now: later };
        let start = projection::cleared(store, story_id, ids);
        let start_after = projection::cleared(after, story_id, ids_after);
        lemma_own_rows_known(store, story_id, ids);
        lemma_own_rows_known(after, story_id, ids_after);
        lemma_applied(written, story_id, entry.id, now, event);
        assert(projection_of(written, story_id) == projection_of(store, story_id));
        assert(projection_of(start, story_id) == projection_of(start_after, story_id));
        assert forall|i: int, x: Seq<char>|
            0 <= i < told.len() && #[trigger] projection::is_subject(told[i], x) implies scope.ids.contains(
            x,
        ) == scope_after.ids.contains(x) by {
            assert(ids.contains(x));
            assert(ids_after.contains(x));
        }
        lemma_fold_agree(scope, scope_after, start, start_after, told);
        let at = projection::replay_fold(scope_after, start_after, told);
        assert(projection::rebuilt(store, story_id, None, later) == projection::replay_fold(
            scope,
            start,
            told,
        ).store);
        assert(projection_of(at.store, story_id) == projection_of(store, story_id));
        assert(ids_after.contains(id));
        if !(event is Created) {
            lemma_created(scope_after, start_after, told, id);
        }
        lemma_applied_agree(written, at.store, story_id, entry.id, now, later, event);
        assert(projection::replay_fold(scope_after, start_after, told_after)
            == projection::replay_step(scope_after, at, entry));
    }
}

/// Where the tables are in step with the ledger, rebuilding a story gives back what they
/// hold of its entities: names, looks, presence, values, and the events they stem from.
pub proof fn law_rebuild_restores(store: StoreView, story_id: Seq<char>, now: Seq<char>)
    requires
        in_step(store, story_id),
    ensures
        projection_of(projection::rebuilt(store, story_id, None, now), story_id) == projection_of(
            store,
            story_id,
        ),
{
}

/// A story of which the ledger and the tables hold nothing is in step.
pub proof fn law_new_story_is_in_step(store: StoreView, story_id: Seq<char>)
    requires
        forall|i: int| 0 <= i < store.entries.len() ==> (#[trigger] store.entries[i]).story_id != story_id,
        forall|i: int| 0 <= i < store.entities.len() ==> (#[trigger] store.entities[i]).story_id != story_id,
        forall|i: int| 0 <= i < store.states.len() ==> (#[trigger] store.states[i]).story_id != story_id,
        forall|i: int|
            0 <= i < store.attributes.len() ==> (#[trigger] store.attributes[i]).story_id != story_id,
    ensures
        in_step(store, story_id),
{
    let told = repository::story_entries(store.entries, story_id);
    if told.len() > 0 {
        assert(told.contains(told[0]));
        repository::lemma_listed(store.entries, story_id, i64::MIN, told[0]);
        let i = choose|i: int| 0 <= i < store.entries.len() && store.entries[i] == told[0];
        assert(store.entries[i].story_id != story_id);
    }
    let ids = projection::known_ids(store, story_id);
    assert forall|now: Seq<char>|
        projection_of(#[trigger] projection::rebuilt(store, story_id, None, now), story_id)
            == projection_of(store, story_id) by {
        lemma_cleared(store, story_id, ids);
        let q = projection_of(store, story_id);
        if q.entities.len() > 0 {
            assert(q.entities.contains(q.entities[0]));
            rows::lemma_filter_member(store.entities, own_entity(story_id), q.entities[0]);
        }
        let own_states = store.states.filter(own_state(story_id));
        if own_states.len() > 0 {
            assert(own_states.contains(own_states[0]));
            rows::lemma_filter_member(store.states, own_state(story_id), own_states[0]);
        }
        let own_values = store.attributes.filter(own_value(story_id));
        if own_values.len() > 0 {
            assert(own_values.contains(own_values[0]));
            rows::lemma_filter_member(store.attributes, own_value(story_id), own_values[0]);
        }
        reveal(Seq::filter);
        assert(q.entities.filter(projection::entity_kept(story_id, ids)) =~= q.entities);
        assert(q.states.filter(projection::state_kept(story_id, ids)) =~= q.states);
        assert(q.attributes.filter(projection::value_kept(story_id, ids)) =~= q.attributes);
    }
}

/// The entries that a replay does not leave out because of their turn.
pub open spec fn outside_turn(turn_id: Seq<char>) -> spec_fn(EntryView) -> bool {
    |e: EntryView| e.turn_id != Some(turn_id)
}

/// A replay that leaves a turn out does what a replay of the entries outside that turn does.
pub proof fn law_excluded_turn_has_no_effect(scope: ReplayScope, turn_id: Seq<char>, start: StoreView, entries: Seq<EntryView>)
    requires
        scope.exclude_turn == Some(turn_id),
    ensures
        projection::replay_fold(scope, start, entries) == projection::replay_fold(
            ReplayScope { exclude_turn: None, ..scope },
            start,
            entries.filter(outside_turn(turn_id)),
        ),
    decreases entries.len(),
{
    reveal(Seq::filter);
    if entries.len() > 0 {
        let rest = entries.drop_last().filter(outside_turn(turn_id));
        law_excluded_turn_has_no_effect(scope, turn_id, start, entries.drop_last());
        if outside_turn(turn_id)(entries.last()) {
            assert(rest.push(entries.last()).drop_last() =~= rest);
        }
    }
}

} // verus!
