//! What the tables give back of an entity after it was created, changed or removed.

use vstd::prelude::*;

use super::attributes;
use super::events;
use super::events::{EventView, NameAnchorView};
use super::model::{Entity, EntityView};
use super::projection;
use super::repository;
use crate::error::AppResult;
use crate::ledger::repository as ledger;
use crate::ledger::repository::DraftView;
use crate::store::{EntityRowView, StateRowView, StoreView};
use crate::{rows, sorting, text};

verus! {

/// Whether the first state that an entity has while it is there stands at a place.
pub open spec fn is_there(store: StoreView, story_id: Seq<char>, entity_id: Seq<char>, j: int) -> bool {
    &&& 0 <= j < store.states.len()
    &&& store.states[j].story_id == story_id
    &&& store.states[j].entity_id == entity_id
    &&& store.states[j].is_present
    &&& forall|i: int|
        0 <= i < j && (#[trigger] store.states[i]).story_id == story_id && store.states[i].entity_id == entity_id
            ==> !store.states[i].is_present
}

/// Whether an entity is there.
pub open spec fn there(store: StoreView, story_id: Seq<char>, entity_id: Seq<char>) -> bool {
    exists|j: int|
        0 <= j < store.states.len() && (#[trigger] store.states[j]).story_id == story_id && store.states[j].entity_id
            == entity_id && store.states[j].is_present
}

/// A look as it is kept: without the whitespace around it, and none where nothing is left of it.
pub open spec fn look_kept(look: Option<Seq<char>>) -> Option<Seq<char>> {
    if look is Some && text::trimmed(look->0).len() > 0 {
        Some(text::trimmed(look->0))
    } else {
        None
    }
}

pub(crate) proof fn lemma_there(store: StoreView, story_id: Seq<char>, entity_id: Seq<char>) -> (j: int)
    ensures
        rows::first_where(store.states, attributes::present_as(story_id, entity_id)) is Some <==> there(
            store,
            story_id,
            entity_id,
        ),
        there(store, story_id, entity_id) ==> is_there(store, story_id, entity_id, j) && rows::first_where(
            store.states,
            attributes::present_as(story_id, entity_id),
        ) == Some(store.states[j]),
{
    let p = attributes::present_as(story_id, entity_id);
    let j = rows::lemma_first_where(store.states, p);
    if there(store, story_id, entity_id) {
        let k = choose|k: int|
            0 <= k < store.states.len() && (#[trigger] store.states[k]).story_id == story_id
                && store.states[k].entity_id == entity_id && store.states[k].is_present;
        assert(p(store.states[k]));
        assert forall|i: int|
            0 <= i < j && (#[trigger] store.states[i]).story_id == story_id && store.states[i].entity_id
                == entity_id implies !store.states[i].is_present by {
            assert(!p(store.states[i]));
        }
    } else if rows::any_where(store.states, p) {
        assert(p(store.states[j]));
    }
    j
}

/// A list of a story's entities has each entity of the story once that is there, of the kind that
/// is asked for, with the name and the look of its state, the ones that were created first in front.
pub proof fn law_list_has_whoever_is_there(store: StoreView, story_id: Seq<char>, filter_kind: Option<Seq<char>>) -> (places: Seq<
    int,
>)
    ensures
        ({
            let list = repository::listed_entities(store, story_id, filter_kind);
            &&& list.len() == places.len()
            &&& forall|m: int|
                #![trigger places[m]]
                0 <= m < places.len() ==> {
                    let row = store.entities[places[m]];
                    &&& 0 <= places[m] < store.entities.len()
                    &&& row.story_id == story_id
                    &&& filter_kind is Some ==> row.kind == filter_kind->0
                    &&& list[m].id == row.id
                    &&& list[m].story_id == story_id
                    &&& list[m].kind == row.kind
                    &&& list[m].created_at == row.created_at
                    &&& exists|j: int|
                        #[trigger] is_there(store, story_id, row.id, j) && list[m].name == store.states[j].name
                            && list[m].appearance_anchor == store.states[j].appearance_anchor
                }
            &&& forall|a: int, b: int| 0 <= a < b < places.len() ==> #[trigger] places[a] != #[trigger] places[b]
            &&& forall|k: int|
                0 <= k < store.entities.len() && (#[trigger] store.entities[k]).story_id == story_id && (
                filter_kind is Some ==> store.entities[k].kind == filter_kind->0) && there(
                    store,
                    story_id,
                    store.entities[k].id,
                ) ==> places.contains(k)
            &&& forall|a: int, b: int|
                0 <= a < b < list.len() ==> !text::precedes(
                    (#[trigger] list[b]).created_at,
                    (#[trigger] list[a]).created_at,
                )
        }),
{
    let p = repository::listed(store, story_id, filter_kind);
    let f = repository::with_state(store, story_id);
    let key = sorting::key_fn::<Entity>();
    let list = repository::listed_entities(store, story_id, filter_kind);
    let places = sorting::lemma_listed_places(store.entities, p, f, key);
    assert forall|m: int|
        #![trigger places[m]]
        0 <= m < places.len() implies ({
        let row = store.entities[places[m]];
        &&& 0 <= places[m] < store.entities.len()
        &&& row.story_id == story_id
        &&& filter_kind is Some ==> row.kind == filter_kind->0
        &&& list[m].id == row.id
        &&& list[m].story_id == story_id
        &&& list[m].kind == row.kind
        &&& list[m].created_at == row.created_at
        &&& exists|j: int|
            #[trigger] is_there(store, story_id, row.id, j) && list[m].name == store.states[j].name
                && list[m].appearance_anchor == store.states[j].appearance_anchor
    }) by {
        let row = store.entities[places[m]];
        assert(p(row));
        let j = lemma_there(store, story_id, row.id);
        assert(is_there(store, story_id, row.id, j));
    }
    assert forall|k: int|
        0 <= k < store.entities.len() && (#[trigger] store.entities[k]).story_id == story_id && (filter_kind is Some
            ==> store.entities[k].kind == filter_kind->0) && there(
            store,
            story_id,
            store.entities[k].id,
        ) implies places.contains(k) by {
        let j = lemma_there(store, story_id, store.entities[k].id);
        assert(p(store.entities[k]));
    }
    assert forall|a: int, b: int| 0 <= a < b < list.len() implies !text::precedes(
        (#[trigger] list[b]).created_at,
        (#[trigger] list[a]).created_at,
    ) by {
        assert(key(list[b]) == list[b].created_at);
        assert(key(list[a]) == list[a].created_at);
    }
    places
}

/// An entity is found by its identifier exactly where it was created and is there, and it has the
/// name and the look of its state.
pub proof fn law_found_entity_is_there(store: StoreView, story_id: Seq<char>, entity_id: Seq<char>) -> (at: (int, int))
    ensures
        match repository::present_entity(store, story_id, entity_id) {
            Some(entity) => {
                &&& 0 <= at.0 < store.entities.len()
                &&& is_there(store, story_id, entity_id, at.1)
                &&& store.entities[at.0].id == entity_id
                &&& entity.id == entity_id
                &&& entity.story_id == store.entities[at.0].story_id
                &&& entity.kind == store.entities[at.0].kind
                &&& entity.created_at == store.entities[at.0].created_at
                &&& entity.name == store.states[at.1].name
                &&& entity.appearance_anchor == store.states[at.1].appearance_anchor
            },
            None => there(store, story_id, entity_id) ==> forall|i: int|
                0 <= i < store.entities.len() ==> (#[trigger] store.entities[i]).id != entity_id,
        },
{
    let p = projection::entity_id_is(entity_id);
    let i = rows::lemma_first_where(store.entities, p);
    let j = lemma_there(store, story_id, entity_id);
    if there(store, story_id, entity_id) && repository::present_entity(store, story_id, entity_id) is None {
        assert forall|k: int| 0 <= k < store.entities.len() implies (#[trigger] store.entities[k]).id != entity_id by {
            if store.entities[k].id == entity_id {
                assert(p(store.entities[k]));
            }
        }
    }
    (i, j)
}

proof fn lemma_first_where_untouched<A>(s: Seq<A>, p: spec_fn(A) -> bool, f: spec_fn(A) -> A)
    requires
        forall|x: A| #[trigger] p(f(x)) == p(x),
        forall|x: A| p(x) ==> #[trigger] f(x) == x,
    ensures
        rows::first_where(s.map_values(f), p) == rows::first_where(s, p),
    decreases s.len(),
{
    if s.len() > 0 {
        assert(s.map_values(f)[0] == f(s[0]));
        assert(p(f(s[0])) == p(s[0]));
        assert(s.map_values(f).drop_first() =~= s.drop_first().map_values(f));
        lemma_first_where_untouched(s.drop_first(), p, f);
    }
}

/// An entity with another name and look, if it is a certain one.
pub open spec fn known_as(entity_id: Seq<char>, name: Seq<char>, look: Option<Seq<char>>) -> spec_fn(EntityView) -> EntityView {
    |e: EntityView|
        if e.id == entity_id {
            EntityView { name, appearance_anchor: look, ..e }
        } else {
            e
        }
}

proof fn lemma_list_renamed(
    before: StoreView,
    after: StoreView,
    story_id: Seq<char>,
    entity_id: Seq<char>,
    name: Seq<char>,
    look: Option<Seq<char>>,
    other: Seq<char>,
    filter_kind: Option<Seq<char>>,
)
    requires
        after.entities == before.entities,
        there(before, story_id, entity_id),
        forall|s: Seq<char>, e: Seq<char>|
            !(s == story_id && e == entity_id) ==> #[trigger] rows::first_where(
                after.states,
                attributes::present_as(s, e),
            ) == rows::first_where(before.states, attributes::present_as(s, e)),
        ({
            let now = rows::first_where(after.states, attributes::present_as(story_id, entity_id));
            now is Some && now->0.name == name && now->0.appearance_anchor == look
        }),
    ensures
        repository::listed_entities(after, other, filter_kind) == (if other == story_id {
            repository::listed_entities(before, other, filter_kind).map_values(known_as(entity_id, name, look))
        } else {
            repository::listed_entities(before, other, filter_kind)
        }),
{
    let j = lemma_there(before, story_id, entity_id);
    let p = repository::listed(before, other, filter_kind);
    let q = repository::listed(after, other, filter_kind);
    let f = repository::with_state(before, other);
    let h = repository::with_state(after, other);
    let g = known_as(entity_id, name, look);
    let key = sorting::key_fn::<Entity>();
    assert forall|e: EntityRowView| #[trigger] p(e) == q(e) by {
        if !(other == story_id && e.id == entity_id) {
            assert(rows::first_where(after.states, attributes::present_as(other, e.id)) == rows::first_where(
                before.states,
                attributes::present_as(other, e.id),
            ));
        }
    }
    assert(p =~= q);
    let kept = before.entities.filter(p);
    if other == story_id {
        assert forall|e: EntityRowView| #[trigger] h(e) == g(f(e)) by {
            if e.id != entity_id {
                assert(rows::first_where(after.states, attributes::present_as(other, e.id)) == rows::first_where(
                    before.states,
                    attributes::present_as(other, e.id),
                ));
            }
        }
        assert(kept.map_values(h) =~= kept.map_values(f).map_values(g));
        assert forall|e: EntityView| key(#[trigger] g(e)) == key(e) by {}
        sorting::lemma_ordered_map(kept.map_values(f), g, key);
    } else {
        assert forall|e: EntityRowView| #[trigger] h(e) == f(e) by {
            assert(rows::first_where(after.states, attributes::present_as(other, e.id)) == rows::first_where(
                before.states,
                attributes::present_as(other, e.id),
            ));
        }
        assert(kept.map_values(h) =~= kept.map_values(f));
    }
}

/// Whether an operation wrote one entry of a story behind the others, which the player does not
/// see, and nothing else of the ledger changed.
pub open spec fn one_hidden_entry(
    before: StoreView,
    after: StoreView,
    story_id: Seq<char>,
    kind: Seq<char>,
    target_entry_id: Option<Seq<char>>,
    turn_id: Option<Seq<char>>,
) -> bool {
    let entry = after.entries.last();
    &&& after.entries == before.entries.push(entry)
    &&& entry.story_id == story_id
    &&& entry.kind == kind
    &&& entry.visibility == "hidden"@
    &&& entry.target_entry_id == target_entry_id
    &&& entry.turn_id == turn_id
}

pub(crate) proof fn lemma_recorded_entry(before: StoreView, after: StoreView, draft: DraftView)
    requires
        projection::record_step(before, after, draft),
    ensures
        after.entries == before.entries.push(after.entries.last()),
        after.entries.last().kind == draft.kind,
        after.entries.last().payload == draft.payload,
        after.entries.last().story_id == draft.story_id,
        after.entries.last().visibility == draft.visibility,
        after.entries.last().target_entry_id == draft.target_entry_id,
        after.entries.last().turn_id == draft.turn_id,
        events::event_of(after.entries.last()) is Some,
        exists|now: Seq<char>|
            after == #[trigger] projection::applied(
                ledger::appended(before, after.entries.last()),
                draft.story_id,
                after.entries.last().id,
                now,
                events::event_of(after.entries.last())->0,
            ),
{
    let entry = after.entries.last();
    let now = choose|now: Seq<char>|
        #[trigger] projection::recorded(before, draft.story_id, now, entry) == (after, None::<crate::error::ErrorView>);
    let event = events::event_of(entry)->0;
    assert(after == projection::applied(ledger::appended(before, entry), draft.story_id, entry.id, now, event));
}

/// After an update the entity is found and listed with the name and the look that it was given,
/// without the whitespace around them, and it is what the caller gets. Every other entity is found
/// and listed as before, no value of an attribute changes, and one hidden entry says what happened.
pub proof fn law_update_is_read_back(
    before: StoreView,
    after: StoreView,
    story_id: Seq<char>,
    entity_id: Seq<char>,
    name: Seq<char>,
    appearance_anchor: Option<Seq<char>>,
    source: Seq<char>,
    target_entry_id: Option<Seq<char>>,
    turn_id: Option<Seq<char>>,
    r: AppResult<Entity>,
)
    requires
        repository::update_outcome(
            before,
            after,
            story_id,
            entity_id,
            name,
            appearance_anchor,
            source,
            target_entry_id,
            turn_id,
            r,
        ),
        r is Ok,
    ensures
        text::trimmed(name).len() > 0,
        repository::present_entity(before, story_id, entity_id) is Some,
        r->Ok_0@ == (EntityView {
            name: text::trimmed(name),
            appearance_anchor: look_kept(appearance_anchor),
            ..repository::present_entity(before, story_id, entity_id)->0
        }),
        repository::present_entity(after, story_id, entity_id) == Some(r->Ok_0@),
        forall|s: Seq<char>, e: Seq<char>|
            !(s == story_id && e == entity_id) ==> #[trigger] repository::present_entity(after, s, e)
                == repository::present_entity(before, s, e),
        forall|s: Seq<char>, filter_kind: Option<Seq<char>>|
            #[trigger] repository::listed_entities(after, s, filter_kind) == (if s == story_id {
                repository::listed_entities(before, s, filter_kind).map_values(
                    |e: EntityView|
                        if e.id == entity_id {
                            EntityView {
                                name: text::trimmed(name),
                                appearance_anchor: look_kept(appearance_anchor),
                                ..e
                            }
                        } else {
                            e
                        },
                )
            } else {
                repository::listed_entities(before, s, filter_kind)
            }),
        after.entities == before.entities,
        after.attributes == before.attributes,
        after.registry == before.registry,
        one_hidden_entry(before, after, story_id, "entity_updated"@, target_entry_id, turn_id),
{
    let entity = repository::present_entity(before, story_id, entity_id)->0;
    let kept = NameAnchorView {
        name: text::trimmed(name),
        appearance_anchor: text::non_blank(appearance_anchor),
    };
    let event = EventView::Updated {
        entity_id,
        before: NameAnchorView { name: entity.name, appearance_anchor: entity.appearance_anchor },
        after: kept,
        source,
    };
    let draft = repository::update_draft(
        entity,
        story_id,
        entity_id,
        name,
        appearance_anchor,
        source,
        target_entry_id,
        turn_id,
    );
    lemma_recorded_entry(before, after, draft);
    let entry = after.entries.last();
    events::law_written_event_reads_back(event, entry);
    let now = choose|now: Seq<char>|
        after == #[trigger] projection::applied(
            ledger::appended(before, entry),
            story_id,
            entry.id,
            now,
            events::event_of(entry)->0,
        );
    let f = projection::renamed(story_id, entity_id, kept, now, entry.id);
    assert(after.states == before.states.map_values(f));
    let j = lemma_there(before, story_id, entity_id);
    assert(f(before.states[j]) == after.states[j]);
    assert(after.states[j].is_present);
    assert(there(after, story_id, entity_id));
    let k = lemma_there(after, story_id, entity_id);
    assert(after.states[k] == f(before.states[k]));
    assert forall|s: Seq<char>, e: Seq<char>| !(s == story_id && e == entity_id) implies #[trigger] rows::first_where(
        after.states,
        attributes::present_as(s, e),
    ) == rows::first_where(before.states, attributes::present_as(s, e)) by {
        lemma_first_where_untouched(before.states, attributes::present_as(s, e), f);
    }
    let at = law_found_entity_is_there(before, story_id, entity_id);
    assert(repository::present_entity(after, story_id, entity_id) == Some(r->Ok_0@));
    let g = |e: EntityView|
        if e.id == entity_id {
            EntityView { name: text::trimmed(name), appearance_anchor: look_kept(appearance_anchor), ..e }
        } else {
            e
        };
    assert(g =~= known_as(entity_id, kept.name, kept.appearance_anchor));
    assert forall|s: Seq<char>, filter_kind: Option<Seq<char>>|
        #[trigger] repository::listed_entities(after, s, filter_kind) == (if s == story_id {
            repository::listed_entities(before, s, filter_kind).map_values(g)
        } else {
            repository::listed_entities(before, s, filter_kind)
        }) by {
        lemma_list_renamed(
            before,
            after,
            story_id,
            entity_id,
            kept.name,
            kept.appearance_anchor,
            s,
            filter_kind,
        );
    }
}

proof fn lemma_first_where_upserted_within<A>(s: Seq<A>, key: spec_fn(A) -> bool, row: A, p: spec_fn(A) -> bool)
    requires
        p(row),
        forall|x: A| #[trigger] p(x) ==> key(x),
    ensures
        rows::first_where(rows::upserted(s, key, row), p) == Some(row),
    decreases s.len(),
{
    let after = rows::upserted(s, key, row);
    if s.len() == 0 || key(s[0]) {
        assert(after[0] == row);
    } else {
        lemma_first_where_upserted_within(s.drop_first(), key, row, p);
        assert(after[0] == s[0]);
        assert(!p(s[0]));
        assert(after.drop_first() =~= rows::upserted(s.drop_first(), key, row));
    }
}

proof fn lemma_first_where_pushed<A>(s: Seq<A>, row: A, p: spec_fn(A) -> bool)
    ensures
        rows::first_where(s.push(row), p) == (match rows::first_where(s, p) {
            Some(found) => Some(found),
            None => if p(row) {
                Some(row)
            } else {
                None
            },
        }),
    decreases s.len(),
{
    if s.len() == 0 {
        reveal_with_fuel(rows::first_where, 2);
        assert(s.push(row)[0] == row);
        assert(s.push(row).drop_first() =~= s);
    } else {
        assert(s.push(row)[0] == s[0]);
        assert(s.push(row).drop_first() =~= s.drop_first().push(row));
        lemma_first_where_pushed(s.drop_first(), row, p);
    }
}

/// A created entity is found with the name, the kind and the look that it was given, and it is what
/// the caller gets. Where its identifier is new, each list of its story for which its kind is asked
/// has it beside the ones that it had. Entities with other identifiers are found as before, the
/// lists of other stories stay the same, no value of an attribute changes, and one hidden entry
/// says what happened.
pub proof fn law_created_entity_is_read_back(
    before: StoreView,
    after: StoreView,
    id: Seq<char>,
    story_id: Seq<char>,
    entity_kind: Seq<char>,
    name: Seq<char>,
    appearance_anchor: Option<Seq<char>>,
    source: Seq<char>,
    target_entry_id: Option<Seq<char>>,
    turn_id: Option<Seq<char>>,
    r: AppResult<Entity>,
)
    requires
        repository::creation_outcome(
            before,
            after,
            id,
            repository::creation_draft(
                id,
                story_id,
                entity_kind,
                name,
                appearance_anchor,
                source,
                target_entry_id,
                turn_id,
            ),
            entity_kind,
            name,
            appearance_anchor,
            r,
        ),
        r is Ok,
    ensures
        text::trimmed(name).len() > 0,
        r->Ok_0@ == (EntityView {
            id,
            story_id,
            kind: entity_kind,
            name: text::trimmed(name),
            appearance_anchor: look_kept(appearance_anchor),
            created_at: after.entries.last().created_at,
        }),
        repository::present_entity(after, story_id, id) is Some,
        repository::present_entity(after, story_id, id)->0.id == id,
        repository::present_entity(after, story_id, id)->0.name == text::trimmed(name),
        repository::present_entity(after, story_id, id)->0.appearance_anchor == look_kept(appearance_anchor),
        (forall|i: int| 0 <= i < before.entities.len() ==> (#[trigger] before.entities[i]).id != id)
            ==> repository::present_entity(after, story_id, id) == Some(r->Ok_0@) && (forall|filter_kind: Option<Seq<char>>|
            #[trigger] repository::listed_entities(after, story_id, filter_kind).to_multiset() == (
            if filter_kind is None || filter_kind->0 == entity_kind {
                repository::listed_entities(before, story_id, filter_kind).to_multiset().insert(r->Ok_0@)
            } else {
                repository::listed_entities(before, story_id, filter_kind).to_multiset()
            })),
        forall|s: Seq<char>, e: Seq<char>|
            e != id ==> #[trigger] repository::present_entity(after, s, e) == repository::present_entity(before, s, e),
        forall|s: Seq<char>, filter_kind: Option<Seq<char>>|
            s != story_id ==> #[trigger] repository::listed_entities(after, s, filter_kind)
                == repository::listed_entities(before, s, filter_kind),
        after.attributes == before.attributes,
        after.registry == before.registry,
        one_hidden_entry(before, after, story_id, "entity_created"@, target_entry_id, turn_id),
{
    let draft = repository::creation_draft(
        id,
        story_id,
        entity_kind,
        name,
        appearance_anchor,
        source,
        target_entry_id,
        turn_id,
    );
    let event = EventView::Created {
        entity_id: id,
        kind: entity_kind,
        name: text::trimmed(name),
        appearance_anchor: text::non_blank(appearance_anchor),
        source,
        created_at: Seq::empty(),
    };
    lemma_recorded_entry(before, after, draft);
    let entry = after.entries.last();
    events::law_written_event_reads_back(event, entry);
    let now = choose|now: Seq<char>|
        after == #[trigger] projection::applied(
            ledger::appended(before, entry),
            story_id,
            entry.id,
            now,
            events::event_of(entry)->0,
        );
    let key = projection::state_of(story_id, id);
    let state = StateRowView {
        story_id,
        entity_id: id,
        name: text::trimmed(name),
        appearance_anchor: text::non_blank(appearance_anchor),
        is_present: true,
        updated_at: now,
        last_event_id: Some(entry.id),
    };
    let row = EntityRowView { id, story_id, kind: entity_kind, created_at: entry.created_at };
    assert(after.states == rows::upserted(before.states, key, state));
    lemma_first_where_upserted_within(before.states, key, state, attributes::present_as(story_id, id));
    assert forall|s: Seq<char>, e: Seq<char>| !(s == story_id && e == id) implies #[trigger] rows::first_where(
        after.states,
        attributes::present_as(s, e),
    ) == rows::first_where(before.states, attributes::present_as(s, e)) by {
        rows::lemma_first_where_upserted_elsewhere(before.states, key, state, attributes::present_as(s, e));
    }
    let known = rows::any_where(before.entities, projection::entity_id_is(id));
    let i = rows::lemma_first_where(before.entities, projection::entity_id_is(id));
    assert forall|s: Seq<char>, e: Seq<char>| e != id implies #[trigger] repository::present_entity(after, s, e)
        == repository::present_entity(before, s, e) by {
        assert(rows::first_where(after.states, attributes::present_as(s, e)) == rows::first_where(
            before.states,
            attributes::present_as(s, e),
        ));
        if !known {
            lemma_first_where_pushed(before.entities, row, projection::entity_id_is(e));
        }
    }
    if !known {
        lemma_first_where_pushed(before.entities, row, projection::entity_id_is(id));
    }
    assert forall|s: Seq<char>, filter_kind: Option<Seq<char>>| s != story_id implies #[trigger] repository::listed_entities(
        after,
        s,
        filter_kind,
    ) == repository::listed_entities(before, s, filter_kind) by {
        lemma_list_with(before, after, story_id, id, s, filter_kind, row, known);
    }
    if forall|i: int| 0 <= i < before.entities.len() ==> (#[trigger] before.entities[i]).id != id {
        assert(!known);
        assert forall|filter_kind: Option<Seq<char>>|
            #[trigger] repository::listed_entities(after, story_id, filter_kind).to_multiset() == (if filter_kind is None
                || filter_kind->0 == entity_kind {
                repository::listed_entities(before, story_id, filter_kind).to_multiset().insert(r->Ok_0@)
            } else {
                repository::listed_entities(before, story_id, filter_kind).to_multiset()
            }) by {
            broadcast use vstd::seq_lib::group_to_multiset_ensures;

            lemma_list_with(before, after, story_id, id, story_id, filter_kind, row, known);
            let f = repository::with_state(after, story_id);
            let kind_asked = filter_kind is None || filter_kind->0 == entity_kind;
            let p = repository::listed(before, story_id, filter_kind);
            let g = repository::with_state(before, story_id);
            let key_of = sorting::key_fn::<Entity>();
            let old_rows = before.entities.filter(p).map_values(g);
            assert(f(row) == r->Ok_0@);
            sorting::law_ordered(old_rows, key_of);
            if kind_asked {
                sorting::law_ordered(old_rows.push(f(row)), key_of);
            }
        }
    }
}

proof fn lemma_list_with(
    before: StoreView,
    after: StoreView,
    story_id: Seq<char>,
    id: Seq<char>,
    other: Seq<char>,
    filter_kind: Option<Seq<char>>,
    row: EntityRowView,
    known: bool,
)
    requires
        row.id == id,
        row.story_id == story_id,
        after.entities == (if known {
            before.entities
        } else {
            before.entities.push(row)
        }),
        other == story_id ==> forall|i: int| 0 <= i < before.entities.len() ==> (#[trigger] before.entities[i]).id != id,
        other == story_id ==> !known,
        rows::first_where(after.states, attributes::present_as(story_id, id)) is Some,
        forall|s: Seq<char>, e: Seq<char>|
            !(s == story_id && e == id) ==> #[trigger] rows::first_where(after.states, attributes::present_as(s, e))
                == rows::first_where(before.states, attributes::present_as(s, e)),
    ensures
        ({
            let old_rows = before.entities.filter(repository::listed(before, other, filter_kind)).map_values(
                repository::with_state(before, other),
            );
            let key = sorting::key_fn::<Entity>();
            &&& repository::listed_entities(before, other, filter_kind) == sorting::ordered(old_rows, key)
            &&& repository::listed_entities(after, other, filter_kind) == (if other == story_id && (filter_kind is None
                || filter_kind->0 == row.kind) {
                sorting::ordered(old_rows.push(repository::with_state(after, other)(row)), key)
            } else {
                sorting::ordered(old_rows, key)
            })
        }),
{
    reveal(Seq::filter);
    let p = repository::listed(before, other, filter_kind);
    let q = repository::listed(after, other, filter_kind);
    let f = repository::with_state(before, other);
    let h = repository::with_state(after, other);
    assert forall|i: int| 0 <= i < before.entities.len() implies p(#[trigger] before.entities[i]) == q(
        before.entities[i],
    ) && (h(before.entities[i]) == f(before.entities[i])) by {
        let e = before.entities[i];
        assert(!(other == story_id && e.id == id));
        assert(rows::first_where(after.states, attributes::present_as(other, e.id)) == rows::first_where(
            before.states,
            attributes::present_as(other, e.id),
        ));
    }
    lemma_kept_alike(before.entities, p, q, f, h);
    let kept = before.entities.filter(q);
    if !known {
        assert(after.entities.drop_last() =~= before.entities);
        if q(row) {
            assert(kept.push(row).map_values(h) =~= kept.map_values(h).push(h(row)));
        }
    }
}

proof fn lemma_kept_alike<A, B>(
    s: Seq<A>,
    p: spec_fn(A) -> bool,
    q: spec_fn(A) -> bool,
    f: spec_fn(A) -> B,
    h: spec_fn(A) -> B,
)
    requires
        forall|i: int| 0 <= i < s.len() ==> p(#[trigger] s[i]) == q(s[i]) && h(s[i]) == f(s[i]),
    ensures
        s.filter(p).map_values(f) == s.filter(q).map_values(h),
    decreases s.len(),
{
    reveal(Seq::filter);
    if s.len() > 0 {
        let t = s.drop_last();
        assert forall|i: int| 0 <= i < t.len() implies p(#[trigger] t[i]) == q(t[i]) && h(t[i]) == f(t[i]) by {
            assert(t[i] == s[i]);
        }
        lemma_kept_alike(t, p, q, f, h);
        let x = s[s.len() - 1];
        assert(p(x) == q(x));
        if p(x) {
            rows::lemma_map_push(t.filter(p), x, f);
            rows::lemma_map_push(t.filter(q), x, h);
        }
    }
}

/// A removed entity is neither found nor listed, however often it was. Every other entity is found
/// and listed as before, the values of its attributes stay where they are, and one hidden entry
/// says what happened.
pub proof fn law_removed_entity_is_not_there(
    before: StoreView,
    after: StoreView,
    story_id: Seq<char>,
    entity_id: Seq<char>,
    r: AppResult<()>,
)
    requires
        repository::deletion_outcome(before, after, story_id, entity_id, r),
    ensures
        !there(before, story_id, entity_id) ==> r is Err && after == before,
        r is Ok ==> {
            &&& there(before, story_id, entity_id)
            &&& !there(after, story_id, entity_id)
            &&& repository::present_entity(after, story_id, entity_id) is None
            &&& forall|s: Seq<char>, e: Seq<char>|
                !(s == story_id && e == entity_id) ==> #[trigger] repository::present_entity(after, s, e)
                    == repository::present_entity(before, s, e)
            &&& forall|s: Seq<char>, filter_kind: Option<Seq<char>>|
                #[trigger] repository::listed_entities(after, s, filter_kind) == (if s == story_id {
                    repository::listed_entities(before, s, filter_kind).filter(|e: EntityView| e.id != entity_id)
                } else {
                    repository::listed_entities(before, s, filter_kind)
                })
            &&& after.entities == before.entities
            &&& after.attributes == before.attributes
            &&& after.registry == before.registry
            &&& one_hidden_entry(before, after, story_id, "entity_deleted"@, None, None)
        },
{
    let j = lemma_there(before, story_id, entity_id);
    if r is Ok {
        let name = before.states[j].name;
        let event = EventView::Deleted { entity_id, name, source: attributes::USER@ };
        let draft = repository::deletion_draft(story_id, entity_id, name);
        lemma_recorded_entry(before, after, draft);
        let entry = after.entries.last();
        events::law_written_event_reads_back(event, entry);
        let now = choose|now: Seq<char>|
            after == #[trigger] projection::applied(
                ledger::appended(before, entry),
                story_id,
                entry.id,
                now,
                events::event_of(entry)->0,
            );
        let f = projection::dismissed(story_id, entity_id, now, entry.id);
        assert(after.states == before.states.map_values(f));
        assert(!there(after, story_id, entity_id)) by {
            if there(after, story_id, entity_id) {
                let k = choose|k: int|
                    0 <= k < after.states.len() && (#[trigger] after.states[k]).story_id == story_id
                        && after.states[k].entity_id == entity_id && after.states[k].is_present;
                assert(after.states[k] == f(before.states[k]));
            }
        }
        let k = lemma_there(after, story_id, entity_id);
        assert forall|s: Seq<char>, e: Seq<char>| !(s == story_id && e == entity_id) implies #[trigger] rows::first_where(
            after.states,
            attributes::present_as(s, e),
        ) == rows::first_where(before.states, attributes::present_as(s, e)) by {
            lemma_first_where_untouched(before.states, attributes::present_as(s, e), f);
        }
        let keep = |e: EntityView| e.id != entity_id;
        assert forall|s: Seq<char>, filter_kind: Option<Seq<char>>|
            #[trigger] repository::listed_entities(after, s, filter_kind) == (if s == story_id {
                repository::listed_entities(before, s, filter_kind).filter(keep)
            } else {
                repository::listed_entities(before, s, filter_kind)
            }) by {
            lemma_list_without(before, after, story_id, entity_id, s, filter_kind, keep);
        }
    }
}

proof fn lemma_list_without(
    before: StoreView,
    after: StoreView,
    story_id: Seq<char>,
    entity_id: Seq<char>,
    other: Seq<char>,
    filter_kind: Option<Seq<char>>,
    keep: spec_fn(EntityView) -> bool,
)
    requires
        after.entities == before.entities,
        rows::first_where(after.states, attributes::present_as(story_id, entity_id)) is None,
        forall|s: Seq<char>, e: Seq<char>|
            !(s == story_id && e == entity_id) ==> #[trigger] rows::first_where(
                after.states,
                attributes::present_as(s, e),
            ) == rows::first_where(before.states, attributes::present_as(s, e)),
        forall|e: EntityView| #[trigger] keep(e) == (e.id != entity_id),
    ensures
        repository::listed_entities(after, other, filter_kind) == (if other == story_id {
            repository::listed_entities(before, other, filter_kind).filter(keep)
        } else {
            repository::listed_entities(before, other, filter_kind)
        }),
{
    let p = repository::listed(before, other, filter_kind);
    let q = repository::listed(after, other, filter_kind);
    let f = repository::with_state(before, other);
    let h = repository::with_state(after, other);
    let key = sorting::key_fn::<Entity>();
    assert forall|e: EntityRowView| !(other == story_id && e.id == entity_id) implies #[trigger] p(e) == q(e) && h(e)
        == f(e) by {
        assert(rows::first_where(after.states, attributes::present_as(other, e.id)) == rows::first_where(
            before.states,
            attributes::present_as(other, e.id),
        ));
    }
    if other == story_id {
        lemma_kept_without(before.entities, p, q, f, h, keep, entity_id);
        sorting::lemma_ordered_filter(before.entities.filter(p).map_values(f), keep, key);
    } else {
        lemma_kept_alike(before.entities, p, q, f, h);
    }
}

proof fn lemma_kept_without(
    s: Seq<EntityRowView>,
    p: spec_fn(EntityRowView) -> bool,
    q: spec_fn(EntityRowView) -> bool,
    f: spec_fn(EntityRowView) -> EntityView,
    h: spec_fn(EntityRowView) -> EntityView,
    keep: spec_fn(EntityView) -> bool,
    entity_id: Seq<char>,
)
    requires
        forall|e: EntityRowView| e.id != entity_id ==> #[trigger] p(e) == q(e) && h(e) == f(e),
        forall|e: EntityRowView| e.id == entity_id ==> !#[trigger] q(e),
        forall|e: EntityView| #[trigger] keep(e) == (e.id != entity_id),
        forall|e: EntityRowView| (#[trigger] f(e)).id == e.id,
    ensures
        s.filter(q).map_values(h) == s.filter(p).map_values(f).filter(keep),
    decreases s.len(),
{
    reveal(Seq::filter);
    if s.len() > 0 {
        let t = s.drop_last();
        let x = s[s.len() - 1];
        lemma_kept_without(t, p, q, f, h, keep, entity_id);
        assert(p(x) == p(x) && q(x) == q(x) && f(x).id == x.id);
        let made = t.filter(p).map_values(f);
        if p(x) {
            rows::lemma_map_push(t.filter(p), x, f);
            assert(made.push(f(x)).drop_last() =~= made);
            assert(keep(f(x)) == (x.id != entity_id));
        }
        if q(x) {
            rows::lemma_map_push(t.filter(q), x, h);
        }
    } else {
        assert(s.filter(q).map_values(h) =~= s.filter(p).map_values(f).filter(keep));
    }
}

} // verus!
