//! What the tables give back of a value after it was set, changed or removed.

use vstd::prelude::*;

use super::attributes;
use super::attributes::{ClampedView, ReadingView};
use super::events;
use super::events::EventView;
use super::model::{AttributeValueView, EntityAttributeValue, RegistryView};
use super::projection;
use super::reads;
use super::registry;
use crate::double;
use crate::double::{Double, DoubleView};
use crate::error::AppResult;
use crate::ledger::repository as ledger;
use crate::ledger::repository::DraftView;
use crate::store::{AttributeRowView, StoreView};
use crate::{rows, sorting, text};

verus! {

/// Whether the value of an attribute of an entity stands at a place, before any other of it.
pub open spec fn is_value(store: StoreView, story_id: Seq<char>, entity_id: Seq<char>, attribute_id: Seq<char>, k: int) -> bool {
    &&& 0 <= k < store.attributes.len()
    &&& store.attributes[k].story_id == story_id
    &&& store.attributes[k].entity_id == entity_id
    &&& store.attributes[k].attribute_id == attribute_id
    &&& forall|i: int|
        0 <= i < k ==> !((#[trigger] store.attributes[i]).story_id == story_id && store.attributes[i].entity_id
            == entity_id && store.attributes[i].attribute_id == attribute_id)
}

/// Whether an attribute stands at a place in the registry, before any other with its identifier.
pub open spec fn is_attribute(store: StoreView, attribute_id: Seq<char>, k: int) -> bool {
    &&& 0 <= k < store.registry.len()
    &&& store.registry[k].id == attribute_id
    &&& forall|i: int| 0 <= i < k ==> (#[trigger] store.registry[i]).id != attribute_id
}

proof fn lemma_attribute(store: StoreView, attribute_id: Seq<char>) -> (k: int)
    ensures
        match rows::first_where(store.registry, registry::attribute_id_is(attribute_id)) {
            Some(attribute) => is_attribute(store, attribute_id, k) && attribute == store.registry[k],
            None => forall|i: int| 0 <= i < store.registry.len() ==> (#[trigger] store.registry[i]).id != attribute_id,
        },
{
    let p = registry::attribute_id_is(attribute_id);
    let k = rows::lemma_first_where(store.registry, p);
    match rows::first_where(store.registry, p) {
        Some(_) => {
            assert forall|i: int| 0 <= i < k implies (#[trigger] store.registry[i]).id != attribute_id by {
                assert(!p(store.registry[i]));
            }
        },
        None => {
            assert forall|i: int| 0 <= i < store.registry.len() implies (#[trigger] store.registry[i]).id
                != attribute_id by {
                if store.registry[i].id == attribute_id {
                    assert(p(store.registry[i]));
                }
            }
        },
    }
    k
}

/// A value is found by its story, its entity and its attribute, exactly where one is kept.
pub proof fn law_found_value_is_kept(store: StoreView, story_id: Seq<char>, entity_id: Seq<char>, attribute_id: Seq<char>) -> (k: int)
    ensures
        match attributes::stored_value(store, story_id, entity_id, attribute_id) {
            Some(row) => is_value(store, story_id, entity_id, attribute_id, k) && row == store.attributes[k],
            None => forall|i: int|
                0 <= i < store.attributes.len() ==> !((#[trigger] store.attributes[i]).story_id == story_id
                    && store.attributes[i].entity_id == entity_id && store.attributes[i].attribute_id == attribute_id),
        },
{
    let p = projection::value_of(story_id, entity_id, attribute_id);
    let k = rows::lemma_first_where(store.attributes, p);
    match attributes::stored_value(store, story_id, entity_id, attribute_id) {
        Some(_) => {
            assert forall|i: int|
                0 <= i < k implies !((#[trigger] store.attributes[i]).story_id == story_id
                && store.attributes[i].entity_id == entity_id && store.attributes[i].attribute_id == attribute_id) by {
                assert(!p(store.attributes[i]));
            }
        },
        None => {
            assert forall|i: int|
                0 <= i < store.attributes.len() implies !((#[trigger] store.attributes[i]).story_id == story_id
                && store.attributes[i].entity_id == entity_id && store.attributes[i].attribute_id == attribute_id) by {
                assert(p(store.attributes[i]) == p(store.attributes[i]));
            }
        },
    }
    k
}

/// A list of an entity's values has each value once that is kept of it for a known attribute, with
/// the attribute's name and scale, in the order of the names.
pub proof fn law_list_has_every_value(store: StoreView, story_id: Seq<char>, entity_id: Seq<char>) -> (places: Seq<int>)
    ensures
        ({
            let list = attributes::listed_values(store, story_id, entity_id);
            &&& list.len() == places.len()
            &&& forall|m: int|
                #![trigger places[m]]
                0 <= m < places.len() ==> {
                    let row = store.attributes[places[m]];
                    &&& 0 <= places[m] < store.attributes.len()
                    &&& row.story_id == story_id
                    &&& row.entity_id == entity_id
                    &&& exists|k: int|
                        #[trigger] is_attribute(store, row.attribute_id, k) && list[m] == (AttributeValueView {
                            story_id,
                            entity_id,
                            attribute_id: row.attribute_id,
                            canonical_name: store.registry[k].canonical_name,
                            value: row.value,
                            min: store.registry[k].min,
                            max: store.registry[k].max,
                            updated_at: row.updated_at,
                            source: row.source,
                        })
                }
            &&& forall|a: int, b: int| 0 <= a < b < places.len() ==> #[trigger] places[a] != #[trigger] places[b]
            &&& forall|i: int, k: int|
                0 <= i < store.attributes.len() && (#[trigger] store.attributes[i]).story_id == story_id
                    && store.attributes[i].entity_id == entity_id && 0 <= k < store.registry.len() && (
                #[trigger] store.registry[k]).id == store.attributes[i].attribute_id ==> places.contains(i)
            &&& forall|a: int, b: int|
                0 <= a < b < list.len() ==> !text::precedes(
                    (#[trigger] list[b]).canonical_name,
                    (#[trigger] list[a]).canonical_name,
                )
        }),
{
    let p = attributes::listed_for(store, story_id, entity_id);
    let f = attributes::with_attribute(store);
    let key = sorting::key_fn::<EntityAttributeValue>();
    let list = attributes::listed_values(store, story_id, entity_id);
    let places = sorting::lemma_listed_places(store.attributes, p, f, key);
    assert forall|m: int|
        #![trigger places[m]]
        0 <= m < places.len() implies ({
        let row = store.attributes[places[m]];
        &&& 0 <= places[m] < store.attributes.len()
        &&& row.story_id == story_id
        &&& row.entity_id == entity_id
        &&& exists|k: int|
            #[trigger] is_attribute(store, row.attribute_id, k) && list[m] == (AttributeValueView {
                story_id,
                entity_id,
                attribute_id: row.attribute_id,
                canonical_name: store.registry[k].canonical_name,
                value: row.value,
                min: store.registry[k].min,
                max: store.registry[k].max,
                updated_at: row.updated_at,
                source: row.source,
            })
    }) by {
        let row = store.attributes[places[m]];
        assert(p(row));
        let k = lemma_attribute(store, row.attribute_id);
        assert(is_attribute(store, row.attribute_id, k));
    }
    assert forall|i: int, k: int|
        0 <= i < store.attributes.len() && (#[trigger] store.attributes[i]).story_id == story_id
            && store.attributes[i].entity_id == entity_id && 0 <= k < store.registry.len() && (
        #[trigger] store.registry[k]).id == store.attributes[i].attribute_id implies places.contains(i) by {
        let at = lemma_attribute(store, store.attributes[i].attribute_id);
        assert(p(store.attributes[i]));
    }
    assert forall|a: int, b: int| 0 <= a < b < list.len() implies !text::precedes(
        (#[trigger] list[b]).canonical_name,
        (#[trigger] list[a]).canonical_name,
    ) by {
        assert(key(list[b]) == list[b].canonical_name);
        assert(key(list[a]) == list[a].canonical_name);
    }
    places
}

/// Whether of all values just one is another than before, or new, and the attributes, the entities
/// and their states are the same.
pub open spec fn only_value_changed(
    before: StoreView,
    after: StoreView,
    story_id: Seq<char>,
    entity_id: Seq<char>,
    attribute_id: Seq<char>,
) -> bool {
    &&& forall|s: Seq<char>, e: Seq<char>, a: Seq<char>|
        !(s == story_id && e == entity_id && a == attribute_id) ==> #[trigger] attributes::stored_value(after, s, e, a)
            == attributes::stored_value(before, s, e, a)
    &&& forall|s: Seq<char>, e: Seq<char>|
        !(s == story_id && e == entity_id) ==> #[trigger] attributes::listed_values(after, s, e)
            == attributes::listed_values(before, s, e)
    &&& after.registry == before.registry
    &&& after.entities == before.entities
    &&& after.states == before.states
}

proof fn lemma_changed(
    before: StoreView,
    after: StoreView,
    draft: DraftView,
    event: EventView,
    story_id: Seq<char>,
    entity_id: Seq<char>,
    attribute_id: Seq<char>,
    value: DoubleView,
    source: Seq<char>,
)
    requires
        projection::record_step(before, after, draft),
        draft.story_id == story_id,
        draft.kind == events::kind_of(event),
        draft.payload == events::payload_of(event),
        event is AttributeChanged,
        event->AttributeChanged_entity_id == entity_id,
        event->AttributeChanged_attribute_id == attribute_id,
        event->AttributeChanged_after == value,
        event->AttributeChanged_source == source,
        double::finite(value.bits),
    ensures
        only_value_changed(before, after, story_id, entity_id, attribute_id),
        ({
            let row = attributes::stored_value(after, story_id, entity_id, attribute_id);
            row is Some && row->0.value == value && row->0.source == source && row->0.last_event_id == Some(
                after.entries.last().id,
            )
        }),
{
    reads::lemma_recorded_entry(before, after, draft);
    let entry = after.entries.last();
    events::lemma_change_told(event, entry);
    let now = choose|now: Seq<char>|
        after == #[trigger] projection::applied(
            ledger::appended(before, entry),
            story_id,
            entry.id,
            now,
            events::event_of(entry)->0,
        );
    let key = projection::value_of(story_id, entity_id, attribute_id);
    let row = AttributeRowView {
        story_id,
        entity_id,
        attribute_id,
        value,
        source,
        updated_at: now,
        last_event_id: Some(entry.id),
    };
    assert(after.attributes == rows::upserted(before.attributes, key, row));
    rows::lemma_first_where_upserted(before.attributes, key, row);
    assert forall|s: Seq<char>, e: Seq<char>, a: Seq<char>| !(s == story_id && e == entity_id && a
        == attribute_id) implies #[trigger] attributes::stored_value(after, s, e, a) == attributes::stored_value(
        before,
        s,
        e,
        a,
    ) by {
        rows::lemma_first_where_upserted_elsewhere(before.attributes, key, row, projection::value_of(s, e, a));
    }
    assert forall|s: Seq<char>, e: Seq<char>| !(s == story_id && e == entity_id) implies #[trigger] attributes::listed_values(
        after,
        s,
        e,
    ) == attributes::listed_values(before, s, e) by {
        let own = attributes::listed_for(before, s, e);
        assert(own =~= attributes::listed_for(after, s, e));
        assert(attributes::with_attribute(before) =~= attributes::with_attribute(after));
        rows::lemma_filter_upserted_elsewhere(before.attributes, own, key, row);
    }
}

proof fn lemma_listed_as_kept(
    before: StoreView,
    after: StoreView,
    story_id: Seq<char>,
    entity_id: Seq<char>,
    attribute_id: Seq<char>,
)
    requires
        only_value_changed(before, after, story_id, entity_id, attribute_id),
        attributes::stored_value(after, story_id, entity_id, attribute_id) is Some,
        rows::first_where(after.registry, registry::attribute_id_is(attribute_id)) is Some,
    ensures
        ({
            let row = attributes::stored_value(after, story_id, entity_id, attribute_id)->0;
            let attribute = rows::first_where(after.registry, registry::attribute_id_is(attribute_id))->0;
            attributes::listed_values(after, story_id, entity_id).contains(
                (AttributeValueView {
                    story_id,
                    entity_id,
                    attribute_id,
                    canonical_name: attribute.canonical_name,
                    value: row.value,
                    min: attribute.min,
                    max: attribute.max,
                    updated_at: row.updated_at,
                    source: row.source,
                }),
            )
        }),
{
    let k = law_found_value_is_kept(after, story_id, entity_id, attribute_id);
    let n = lemma_attribute(after, attribute_id);
    let places = law_list_has_every_value(after, story_id, entity_id);
    assert(after.attributes[k].story_id == story_id);
    assert(after.registry[n].id == after.attributes[k].attribute_id);
    assert(places.contains(k));
    let m = choose|m: int| 0 <= m < places.len() && places[m] == k;
    let list = attributes::listed_values(after, story_id, entity_id);
    let row = after.attributes[places[m]];
    let x = choose|x: int|
        #[trigger] is_attribute(after, row.attribute_id, x) && list[m] == (AttributeValueView {
            story_id,
            entity_id,
            attribute_id: row.attribute_id,
            canonical_name: after.registry[x].canonical_name,
            value: row.value,
            min: after.registry[x].min,
            max: after.registry[x].max,
            updated_at: row.updated_at,
            source: row.source,
        });
    assert(x == n) by {
        if x < n {
            assert(after.registry[x].id != attribute_id);
        } else if n < x {
            assert(after.registry[n].id != attribute_id);
        }
    }
    assert(list[m] == list[m]);
}

/// After the player set an attribute, which the registry knows and an entity that is there has,
/// to a value on its scale, that is the value that is kept and listed, as the player's; it is what
/// the caller gets. No other value changes, and one hidden entry says what happened. Anything else
/// is refused, and nothing changes.
pub proof fn law_set_value_is_read_back(
    before: StoreView,
    after: StoreView,
    story_id: Seq<char>,
    entity_id: Seq<char>,
    attribute_id: Seq<char>,
    value: DoubleView,
    r: AppResult<EntityAttributeValue>,
)
    requires
        attributes::set_outcome(before, after, story_id, entity_id, attribute_id, value, r),
    ensures
        r is Err ==> after == before,
        r is Ok ==> {
            &&& reads::there(before, story_id, entity_id)
            &&& exists|k: int|
                #[trigger] is_attribute(before, attribute_id, k) && double::finite(value.bits) && !double::below(
                    value.bits,
                    before.registry[k].min.bits,
                ) && !double::below(before.registry[k].max.bits, value.bits) && r->Ok_0@.canonical_name
                    == before.registry[k].canonical_name && r->Ok_0@.min == before.registry[k].min && r->Ok_0@.max
                    == before.registry[k].max
            &&& r->Ok_0@.story_id == story_id
            &&& r->Ok_0@.entity_id == entity_id
            &&& r->Ok_0@.attribute_id == attribute_id
            &&& r->Ok_0@.value == value
            &&& r->Ok_0@.source == "user"@
            &&& attributes::listed_values(after, story_id, entity_id).contains(r->Ok_0@)
            &&& attributes::stored_value(after, story_id, entity_id, attribute_id) is Some
            &&& attributes::stored_value(after, story_id, entity_id, attribute_id)->0.value == value
            &&& attributes::stored_value(after, story_id, entity_id, attribute_id)->0.source == "user"@
            &&& only_value_changed(before, after, story_id, entity_id, attribute_id)
            &&& reads::one_hidden_entry(before, after, story_id, "entity_attribute_changed"@, None, None)
        },
{
    if r is Ok {
        let k = lemma_attribute(before, attribute_id);
        let j = reads::lemma_there(before, story_id, entity_id);
        assert(is_attribute(before, attribute_id, k));
        let attribute = before.registry[k];
        let stored = attributes::stored_value(before, story_id, entity_id, attribute_id);
        let draft = attributes::set_draft(
            before,
            story_id,
            entity_id,
            attribute_id,
            attribute.canonical_name,
            value,
        );
        let event = EventView::AttributeChanged {
            entity_id,
            attribute_id,
            attribute_name: attribute.canonical_name,
            before: match stored {
                Some(row) => Some(row.value),
                None => None,
            },
            after: value,
            source: attributes::USER@,
            delta: None,
            cause: None,
        };
        lemma_changed(
            before,
            after,
            draft,
            event,
            story_id,
            entity_id,
            attribute_id,
            value,
            attributes::USER@,
        );
        reads::lemma_recorded_entry(before, after, draft);
        lemma_listed_as_kept(before, after, story_id, entity_id, attribute_id);
    }
}

/// A change that is inferred leaves a value that the player set alone; otherwise the value that the
/// arithmetic gives is the one that is kept, as an inferred one. The caller gets the value before,
/// which is the one that was kept, if any was, and the value after. No other value changes.
pub proof fn law_inferred_change_is_read_back(
    before: StoreView,
    after: StoreView,
    story_id: Seq<char>,
    entity_id: Seq<char>,
    attribute: RegistryView,
    reading: ReadingView,
    clamped: ClampedView,
    cause: Seq<char>,
    entry_id: Seq<char>,
    turn_id: Option<Seq<char>>,
    r: AppResult<(Double, Double)>,
)
    requires
        attributes::delta_outcome(
            before,
            after,
            story_id,
            entity_id,
            attribute,
            reading,
            clamped,
            cause,
            entry_id,
            turn_id,
            r,
        ),
        reading.stored == (match attributes::stored_value(before, story_id, entity_id, attribute.id) {
            Some(row) => Some(row.value),
            None => None,
        }),
        double::finite(clamped.after.bits),
    ensures
        r is Err ==> after == before,
        r is Ok ==> {
            let kept = attributes::stored_value(before, story_id, entity_id, attribute.id);
            &&& kept is Some ==> r->Ok_0.0@ == kept->0.value
            &&& kept is None ==> r->Ok_0.0@ == clamped.before
            &&& kept is Some && kept->0.source == "user"@ ==> after == before && r->Ok_0.1@ == kept->0.value
            &&& !(kept is Some && kept->0.source == "user"@) ==> {
                let row = attributes::stored_value(after, story_id, entity_id, attribute.id);
                &&& r->Ok_0.1@ == clamped.after
                &&& row is Some
                &&& row->0.value == clamped.after
                &&& row->0.source == "inferred"@
                &&& only_value_changed(before, after, story_id, entity_id, attribute.id)
                &&& reads::one_hidden_entry(
                    before,
                    after,
                    story_id,
                    "entity_attribute_changed"@,
                    Some(entry_id),
                    turn_id,
                )
            }
        },
{
    let value = attributes::value_before(reading, clamped);
    let draft = attributes::inferred_draft(
        story_id,
        entity_id,
        attribute,
        value,
        clamped,
        cause,
        entry_id,
        turn_id,
    );
    let event = EventView::AttributeChanged {
        entity_id,
        attribute_id: attribute.id,
        attribute_name: attribute.canonical_name,
        before: Some(value),
        after: clamped.after,
        source: attributes::INFERRED@,
        delta: Some(clamped.change),
        cause: Some(cause),
    };
    if r is Ok && !attributes::locked(before, story_id, entity_id, attribute.id) {
        lemma_changed(
            before,
            after,
            draft,
            event,
            story_id,
            entity_id,
            attribute.id,
            clamped.after,
            attributes::INFERRED@,
        );
        reads::lemma_recorded_entry(before, after, draft);
    }
}

/// After a value was removed none is kept of it, and it is not listed; every other value is kept as
/// before. Where none was kept of a known attribute, nothing happens.
pub proof fn law_removed_value_is_gone(
    before: StoreView,
    after: StoreView,
    story_id: Seq<char>,
    entity_id: Seq<char>,
    attribute_id: Seq<char>,
    r: AppResult<()>,
)
    requires
        attributes::removal_outcome(before, after, story_id, entity_id, attribute_id, r),
    ensures
        r is Err ==> after == before,
        (forall|i: int|
            0 <= i < before.attributes.len() ==> !((#[trigger] before.attributes[i]).story_id == story_id
                && before.attributes[i].entity_id == entity_id && before.attributes[i].attribute_id == attribute_id))
            ==> after == before && r is Ok,
        r is Ok && (exists|k: int| #[trigger] is_attribute(before, attribute_id, k)) ==> {
            &&& forall|i: int|
                0 <= i < after.attributes.len() ==> !((#[trigger] after.attributes[i]).story_id == story_id
                    && after.attributes[i].entity_id == entity_id && after.attributes[i].attribute_id == attribute_id)
            &&& forall|m: int|
                0 <= m < attributes::listed_values(after, story_id, entity_id).len() ==> (
                #[trigger] attributes::listed_values(after, story_id, entity_id)[m]).attribute_id != attribute_id
            &&& only_value_changed(before, after, story_id, entity_id, attribute_id)
        },
        r is Ok && after != before ==> reads::one_hidden_entry(
            before,
            after,
            story_id,
            "entity_attribute_removed"@,
            None,
            None,
        ),
{
    let at = law_found_value_is_kept(before, story_id, entity_id, attribute_id);
    let n = lemma_attribute(before, attribute_id);
    let prior = attributes::removable(before, story_id, entity_id, attribute_id);
    if exists|k: int| #[trigger] is_attribute(before, attribute_id, k) {
        let k = choose|k: int| #[trigger] is_attribute(before, attribute_id, k);
        assert(before.registry[k].id == attribute_id);
    }
    if r is Ok {
        if prior is Some {
            let taken = prior->0;
            let draft = attributes::removal_draft(story_id, entity_id, attribute_id, taken.0, taken.1);
            let event = EventView::AttributeRemoved {
                entity_id,
                attribute_id,
                attribute_name: taken.1,
                before: taken.0,
                source: attributes::USER@,
            };
            reads::lemma_recorded_entry(before, after, draft);
            let entry = after.entries.last();
            events::lemma_removal_told(event, entry);
            let now = choose|now: Seq<char>|
                after == #[trigger] projection::applied(
                    ledger::appended(before, entry),
                    story_id,
                    entry.id,
                    now,
                    events::event_of(entry)->0,
                );
            let keep = projection::not_value_of(story_id, entity_id, attribute_id);
            assert(after.attributes == before.attributes.filter(keep));
            lemma_values_without(before, after, story_id, entity_id, attribute_id);
        }
        let kept = law_found_value_is_kept(after, story_id, entity_id, attribute_id);
        let places = law_list_has_every_value(after, story_id, entity_id);
        let list = attributes::listed_values(after, story_id, entity_id);
        if exists|k: int| #[trigger] is_attribute(before, attribute_id, k) {
            assert forall|m: int| 0 <= m < list.len() implies (#[trigger] list[m]).attribute_id != attribute_id by {
                let row = after.attributes[places[m]];
                assert(row.story_id == story_id && row.entity_id == entity_id);
                let x = choose|x: int|
                    #[trigger] is_attribute(after, row.attribute_id, x) && list[m] == (AttributeValueView {
                        story_id,
                        entity_id,
                        attribute_id: row.attribute_id,
                        canonical_name: after.registry[x].canonical_name,
                        value: row.value,
                        min: after.registry[x].min,
                        max: after.registry[x].max,
                        updated_at: row.updated_at,
                        source: row.source,
                    });
            }
        }
    }
}

proof fn lemma_values_without(
    before: StoreView,
    after: StoreView,
    story_id: Seq<char>,
    entity_id: Seq<char>,
    attribute_id: Seq<char>,
)
    requires
        after.attributes == before.attributes.filter(projection::not_value_of(story_id, entity_id, attribute_id)),
        after.registry == before.registry,
        after.entities == before.entities,
        after.states == before.states,
    ensures
        only_value_changed(before, after, story_id, entity_id, attribute_id),
{
    let keep = projection::not_value_of(story_id, entity_id, attribute_id);
    assert forall|s: Seq<char>, e: Seq<char>, a: Seq<char>| !(s == story_id && e == entity_id && a
        == attribute_id) implies #[trigger] attributes::stored_value(after, s, e, a) == attributes::stored_value(
        before,
        s,
        e,
        a,
    ) by {
        rows::lemma_first_where_kept(before.attributes, keep, projection::value_of(s, e, a));
    }
    assert forall|s: Seq<char>, e: Seq<char>| !(s == story_id && e == entity_id) implies #[trigger] attributes::listed_values(
        after,
        s,
        e,
    ) == attributes::listed_values(before, s, e) by {
        let own = attributes::listed_for(before, s, e);
        assert(own =~= attributes::listed_for(after, s, e));
        assert(attributes::with_attribute(before) =~= attributes::with_attribute(after));
        rows::lemma_filter_implied(before.attributes, keep, own);
    }
}

/// A change is worked out from the value that is kept, if one is, on the scale of its attribute, by as
/// much as is asked for.
pub proof fn law_change_starts_from_what_is_kept(
    store: StoreView,
    story_id: Seq<char>,
    entity_id: Seq<char>,
    attribute: RegistryView,
    delta: DoubleView,
    dramatic: bool,
)
    ensures
        ({
            let reading = attributes::reading_for(store, story_id, entity_id, attribute, delta, dramatic);
            let kept = attributes::stored_value(store, story_id, entity_id, attribute.id);
            &&& reading.min == attribute.min
            &&& reading.max == attribute.max
            &&& reading.delta == delta
            &&& reading.dramatic == dramatic
            &&& kept is Some ==> reading.stored == Some(kept->0.value)
            &&& kept is None ==> reading.stored is None
        }),
{
}

} // verus!
