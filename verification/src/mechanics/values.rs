//! The values that entities have on their attributes, and the record of how they came about.

use vstd::prelude::*;

use crate::double;
use crate::double::{Double, DoubleView};
use crate::entities::attributes;
use crate::entities::attributes::{Clamped, ClampedView, Reading, ReadingView};
use crate::entities::model::{AttributeRegistryEntry, RegistryView};
use crate::{rows, stamp, text};

verus! {

/// The value that an entity has on an attribute.
#[derive(Debug, PartialEq)]
pub struct ValueRow {
    pub entity_id: String,
    pub attribute_id: String,
    pub value: Double,
    pub updated_at: String,
}

/// What a `ValueRow` stands for.
#[verifier::ext_equal]
pub struct ValueRowView {
    pub entity_id: Seq<char>,
    pub attribute_id: Seq<char>,
    pub value: DoubleView,
    pub updated_at: Seq<char>,
}

impl View for ValueRow {
    type V = ValueRowView;

    open spec fn view(&self) -> ValueRowView {
        ValueRowView {
            entity_id: self.entity_id@,
            attribute_id: self.attribute_id@,
            value: self.value@,
            updated_at: self.updated_at@,
        }
    }
}

impl DeepView for ValueRow {
    type V = ValueRowView;

    open spec fn deep_view(&self) -> ValueRowView {
        self@
    }
}

/// A change of a value, and what brought it about.
#[derive(Debug, PartialEq)]
pub struct ValueEvent {
    pub id: String,
    pub entity_id: String,
    pub attribute_id: String,
    pub before: Double,
    pub after: Double,
    pub delta: Double,
    pub cause: String,
    pub passage_id: String,
    pub created_at: String,
}

/// What a `ValueEvent` stands for.
#[verifier::ext_equal]
pub struct ValueEventView {
    pub id: Seq<char>,
    pub entity_id: Seq<char>,
    pub attribute_id: Seq<char>,
    pub before: DoubleView,
    pub after: DoubleView,
    pub delta: DoubleView,
    pub cause: Seq<char>,
    pub passage_id: Seq<char>,
    pub created_at: Seq<char>,
}

impl View for ValueEvent {
    type V = ValueEventView;

    open spec fn view(&self) -> ValueEventView {
        ValueEventView {
            id: self.id@,
            entity_id: self.entity_id@,
            attribute_id: self.attribute_id@,
            before: self.before@,
            after: self.after@,
            delta: self.delta@,
            cause: self.cause@,
            passage_id: self.passage_id@,
            created_at: self.created_at@,
        }
    }
}

impl DeepView for ValueEvent {
    type V = ValueEventView;

    open spec fn deep_view(&self) -> ValueEventView {
        self@
    }
}

/// The values of all entities, and the changes that led to them.
#[derive(Debug, PartialEq)]
pub struct Values {
    pub current: Vec<ValueRow>,
    pub events: Vec<ValueEvent>,
}

/// What `Values` hold.
#[verifier::ext_equal]
pub struct ValuesView {
    pub current: Seq<ValueRowView>,
    pub events: Seq<ValueEventView>,
}

impl View for Values {
    type V = ValuesView;

    open spec fn view(&self) -> ValuesView {
        ValuesView { current: self.current.deep_view(), events: self.events.deep_view() }
    }
}

/// The condition of being the value of an entity on an attribute.
pub open spec fn value_on(entity_id: Seq<char>, attribute_id: Seq<char>) -> spec_fn(ValueRowView) -> bool {
    |row: ValueRowView| row.entity_id == entity_id && row.attribute_id == attribute_id
}

/// The value that an entity has on an attribute, if it has one.
pub open spec fn kept_value(values: ValuesView, entity_id: Seq<char>, attribute_id: Seq<char>) -> Option<DoubleView> {
    match rows::first_where(values.current, value_on(entity_id, attribute_id)) {
        Some(row) => Some(row.value),
        None => None,
    }
}

/// Values with one for an entity on an attribute: the one that it has, else a new one.
pub open spec fn initialised(
    values: ValuesView,
    entity_id: Seq<char>,
    attribute_id: Seq<char>,
    midpoint: DoubleView,
    now: Seq<char>,
) -> ValuesView {
    if kept_value(values, entity_id, attribute_id) is Some {
        values
    } else {
        ValuesView {
            current: values.current.push(
                ValueRowView { entity_id, attribute_id, value: midpoint, updated_at: now },
            ),
            ..values
        }
    }
}

/// What becomes of a value by a change on an attribute of an entity.
pub open spec fn changed_row(
    entity_id: Seq<char>,
    attribute_id: Seq<char>,
    after: DoubleView,
    now: Seq<char>,
) -> spec_fn(ValueRowView) -> ValueRowView {
    |row: ValueRowView|
        if value_on(entity_id, attribute_id)(row) {
            ValueRowView { value: after, updated_at: now, ..row }
        } else {
            row
        }
}

/// Values after a change that is written down.
pub open spec fn changed(values: ValuesView, event: ValueEventView) -> ValuesView {
    ValuesView {
        current: values.current.map_values(
            changed_row(event.entity_id, event.attribute_id, event.after, event.created_at),
        ),
        events: values.events.push(event),
    }
}

/// What the arithmetic of a proposed change starts from.
pub open spec fn reading_of(
    values: ValuesView,
    entity_id: Seq<char>,
    attribute: RegistryView,
    delta: DoubleView,
    dramatic: bool,
) -> ReadingView {
    ReadingView {
        stored: kept_value(values, entity_id, attribute.id),
        min: attribute.min,
        max: attribute.max,
        delta,
        dramatic,
    }
}

/// What is written down of a change.
pub open spec fn event_for(
    id: Seq<char>,
    now: Seq<char>,
    entity_id: Seq<char>,
    attribute_id: Seq<char>,
    before: DoubleView,
    clamped: ClampedView,
    cause: Seq<char>,
    passage_id: Seq<char>,
) -> ValueEventView {
    ValueEventView {
        id,
        entity_id,
        attribute_id,
        before,
        after: clamped.after,
        delta: clamped.change,
        cause,
        passage_id,
        created_at: now,
    }
}

/// Values after a proposed change, by what the arithmetic gives.
pub open spec fn after_delta(
    values: ValuesView,
    entity_id: Seq<char>,
    attribute_id: Seq<char>,
    reading: ReadingView,
    clamped: ClampedView,
    cause: Seq<char>,
    passage_id: Seq<char>,
    id: Seq<char>,
    now: Seq<char>,
) -> ValuesView {
    let before = attributes::value_before(reading, clamped);
    changed(
        initialised(values, entity_id, attribute_id, before, now),
        event_for(id, now, entity_id, attribute_id, before, clamped, cause, passage_id),
    )
}

impl Values {
    fn kept(&self, entity_id: &str, attribute_id: &str) -> (r: Option<Double>)
        ensures
            r.deep_view() == kept_value(self@, entity_id@, attribute_id@),
    {
        let ghost all = self@.current;
        let ghost p = value_on(entity_id@, attribute_id@);
        let mut i: usize = 0;
        while i < self.current.len()
            invariant
                0 <= i <= self.current@.len(),
                all == self.current.deep_view(),
                p == value_on(entity_id@, attribute_id@),
                forall|k: int| 0 <= k < i ==> !p(#[trigger] all[k]),
            decreases self.current@.len() - i,
        {
            let row = &self.current[i];
            assert(all[i as int] == row@);
            if text::same_text(row.entity_id.as_str(), entity_id) && text::same_text(
                row.attribute_id.as_str(),
                attribute_id,
            ) {
                proof {
                    rows::lemma_first_where_hit(all, p, i as int);
                }
                return Some(row.value.copy());
            }
            i += 1;
        }
        proof {
            rows::lemma_first_where_miss(all, p);
        }
        None
    }

    /// Sets the value of an entity on an attribute wherever it is held.
    fn put(&mut self, entity_id: &str, attribute_id: &str, value: &Double, now: &str)
        ensures
            final(self)@ == (ValuesView {
                current: old(self)@.current.map_values(changed_row(entity_id@, attribute_id@, value@, now@)),
                ..old(self)@
            }),
    {
        let ghost all = self@.current;
        let ghost f = changed_row(entity_id@, attribute_id@, value@, now@);
        let mut i: usize = 0;
        while i < self.current.len()
            invariant
                0 <= i <= self.current@.len(),
                self.current@.len() == all.len(),
                self.events == old(self).events,
                f == changed_row(entity_id@, attribute_id@, value@, now@),
                forall|k: int| 0 <= k < i ==> (#[trigger] self.current@[k])@ == f(all[k]),
                forall|k: int| i <= k < all.len() ==> (#[trigger] self.current@[k])@ == all[k],
            decreases self.current@.len() - i,
        {
            assert(self.current@[i as int]@ == all[i as int]);
            if text::same_text(self.current[i].entity_id.as_str(), entity_id) && text::same_text(
                self.current[i].attribute_id.as_str(),
                attribute_id,
            ) {
                let row = ValueRow {
                    entity_id: self.current[i].entity_id.clone(),
                    attribute_id: self.current[i].attribute_id.clone(),
                    value: value.copy(),
                    updated_at: now.to_string(),
                };
                assert(row@ == f(all[i as int]));
                self.current.set(i, row);
            }
            i += 1;
        }
        assert(self.current.deep_view() =~= all.map_values(f));
    }
}

/// The value that an entity has on an attribute at a time; one that has none is given the midpoint
/// of the scale, which is the caller's to compute.
pub fn get_or_init_entity_attribute_at(
    values: &mut Values,
    entity_id: &str,
    attribute: &AttributeRegistryEntry,
    midpoint: &Double,
    now: &str,
) -> (r: Double)
    ensures
        match kept_value(old(values)@, entity_id@, attribute@.id) {
            Some(value) => r@ == value,
            None => r@ == midpoint@,
        },
        final(values)@ == initialised(old(values)@, entity_id@, attribute@.id, midpoint@, now@),
{
    if let Some(value) = values.kept(entity_id, attribute.id.as_str()) {
        return value;
    }
    let row = ValueRow {
        entity_id: entity_id.to_string(),
        attribute_id: attribute.id.clone(),
        value: midpoint.copy(),
        updated_at: now.to_string(),
    };
    let ghost before = values.current;
    let ghost added = row;
    values.current.push(row);
    proof {
        rows::lemma_deep_push(before, values.current, added);
    }
    midpoint.copy()
}

/// The value that an entity has on an attribute; one that has none is given the midpoint of the
/// scale, which is the caller's to compute.
pub fn get_or_init_entity_attribute(
    values: &mut Values,
    entity_id: &str,
    attribute: &AttributeRegistryEntry,
    midpoint: &Double,
) -> (r: Double)
    ensures
        match kept_value(old(values)@, entity_id@, attribute@.id) {
            Some(value) => r@ == value,
            None => r@ == midpoint@,
        },
        exists|now: Seq<char>|
            final(values)@ == #[trigger] initialised(old(values)@, entity_id@, attribute@.id, midpoint@, now),
{
    let now = stamp::now();
    get_or_init_entity_attribute_at(values, entity_id, attribute, midpoint, now.as_str())
}

/// Whether a proposed change came out as it should, at a time and under an identifier.
pub open spec fn delta_ended<F: Fn(Reading) -> Clamped>(
    clamp: &F,
    before: ValuesView,
    after: ValuesView,
    entity_id: Seq<char>,
    attribute: RegistryView,
    delta: DoubleView,
    cause: Seq<char>,
    passage_id: Seq<char>,
    dramatic: bool,
    r: (Double, Double),
    id: Seq<char>,
    now: Seq<char>,
) -> bool {
    exists|reading: Reading, clamped: Clamped|
        #[trigger] call_ensures(clamp, (reading,), clamped) && reading@ == reading_of(
            before,
            entity_id,
            attribute,
            delta,
            dramatic,
        ) && r.0@ == attributes::value_before(reading@, clamped@) && r.1@ == clamped@.after && after == after_delta(
            before,
            entity_id,
            attribute.id,
            reading@,
            clamped@,
            cause,
            passage_id,
            id,
            now,
        )
}

/// Changes the value of an entity on an attribute by a proposed delta at a time, and writes the
/// change down. The arithmetic is `clamp`'s. Returns the value before and the value after.
pub fn apply_attribute_delta_at<F: Fn(Reading) -> Clamped>(
    values: &mut Values,
    entity_id: &str,
    attribute: &AttributeRegistryEntry,
    delta: &Double,
    cause: &str,
    passage_id: &str,
    dramatic: bool,
    clamp: &F,
    id: &str,
    now: &str,
) -> (r: (Double, Double))
    requires
        forall|reading: Reading| call_requires(clamp, (reading,)),
    ensures
        delta_ended(
            clamp,
            old(values)@,
            final(values)@,
            entity_id@,
            attribute@,
            delta@,
            cause@,
            passage_id@,
            dramatic,
            r,
            id@,
            now@,
        ),
{
    let stored = values.kept(entity_id, attribute.id.as_str());
    let kept = double::copy_option(&stored);
    let reading = Reading {
        stored,
        min: attribute.min.copy(),
        max: attribute.max.copy(),
        delta: delta.copy(),
        dramatic,
    };
    let ghost asked = reading;
    let clamped = clamp(reading);
    let ghost given = clamped;
    assert(call_ensures(clamp, (asked,), given));
    let start = match kept {
        Some(value) => value,
        None => clamped.before,
    };
    let before = get_or_init_entity_attribute_at(values, entity_id, attribute, &start, now);
    values.put(entity_id, attribute.id.as_str(), &clamped.after, now);
    let event = ValueEvent {
        id: id.to_string(),
        entity_id: entity_id.to_string(),
        attribute_id: attribute.id.clone(),
        before: before.copy(),
        after: clamped.after.copy(),
        delta: clamped.change,
        cause: cause.to_string(),
        passage_id: passage_id.to_string(),
        created_at: now.to_string(),
    };
    let ghost earlier = values.events;
    let ghost added = event;
    values.events.push(event);
    proof {
        rows::lemma_deep_push(earlier, values.events, added);
    }
    (before, clamped.after)
}

/// Changes the value of an entity on an attribute by a proposed delta, and writes the change
/// down. The arithmetic is `clamp`'s. Returns the value before and the value after.
pub fn apply_attribute_delta<F: Fn(Reading) -> Clamped>(
    values: &mut Values,
    entity_id: &str,
    attribute: &AttributeRegistryEntry,
    delta: &Double,
    cause: &str,
    passage_id: &str,
    dramatic: bool,
    clamp: &F,
) -> (r: (Double, Double))
    requires
        forall|reading: Reading| call_requires(clamp, (reading,)),
    ensures
        exists|id: Seq<char>, now: Seq<char>|
            stamp::fresh_like(id) && #[trigger] delta_ended(
                clamp,
                old(values)@,
                final(values)@,
                entity_id@,
                attribute@,
                delta@,
                cause@,
                passage_id@,
                dramatic,
                r,
                id,
                now,
            ),
{
    let id = stamp::fresh_id();
    let now = stamp::now();
    let r = apply_attribute_delta_at(
        values,
        entity_id,
        attribute,
        delta,
        cause,
        passage_id,
        dramatic,
        clamp,
        id.as_str(),
        now.as_str(),
    );
    r
}

/// After a change the entity has on the attribute what the change made of it, and every other
/// value is as before.
pub proof fn law_change_is_read_back(
    values: ValuesView,
    entity_id: Seq<char>,
    attribute_id: Seq<char>,
    reading: ReadingView,
    clamped: ClampedView,
    cause: Seq<char>,
    passage_id: Seq<char>,
    id: Seq<char>,
    now: Seq<char>,
)
    ensures
        ({
            let after = after_delta(
                values,
                entity_id,
                attribute_id,
                reading,
                clamped,
                cause,
                passage_id,
                id,
                now,
            );
            &&& kept_value(after, entity_id, attribute_id) == Some(clamped.after)
            &&& forall|other: Seq<char>, on: Seq<char>| other != entity_id || on != attribute_id ==> #[trigger] kept_value(
                after,
                other,
                on,
            ) == kept_value(values, other, on)
        }),
{
    let before = attributes::value_before(reading, clamped);
    let start = initialised(values, entity_id, attribute_id, before, now);
    let f = changed_row(entity_id, attribute_id, clamped.after, now);
    let p = value_on(entity_id, attribute_id);
    if rows::first_where(values.current, p) is None {
        rows::lemma_first_where(values.current, p);
        rows::lemma_first_where_hit(start.current, p, values.current.len() as int);
    }
    let i = rows::lemma_first_where(start.current, p);
    rows::lemma_first_where_hit(start.current.map_values(f), p, i);
    assert forall|other: Seq<char>, on: Seq<char>| other != entity_id || on != attribute_id implies #[trigger] kept_value(
        changed(start, event_for(id, now, entity_id, attribute_id, before, clamped, cause, passage_id)),
        other,
        on,
    ) == kept_value(values, other, on) by {
        let q = value_on(other, on);
        let after = start.current.map_values(f);
        match rows::first_where(values.current, q) {
            Some(_) => {
                let k = rows::lemma_first_where(values.current, q);
                assert forall|j: int| 0 <= j < k implies !q(#[trigger] after[j]) by {
                    assert(!q(values.current[j]));
                }
                rows::lemma_first_where_hit(after, q, k);
            },
            None => {
                rows::lemma_first_where(values.current, q);
                assert forall|j: int| 0 <= j < after.len() implies !q(#[trigger] after[j]) by {
                    if j < values.current.len() {
                        assert(!q(values.current[j]));
                    }
                }
                rows::lemma_first_where_miss(after, q);
            },
        }
    }
}

/// A change is worked out from the value that is kept, on the scale of the attribute, by the change
/// that is asked for. The caller gets the value before and the value after; the latter is kept, no
/// other value changes, and one event behind the others says what changed it and why.
pub proof fn law_change_is_worked_out_and_told<F: Fn(Reading) -> Clamped>(
    clamp: &F,
    before: ValuesView,
    after: ValuesView,
    entity_id: Seq<char>,
    attribute: RegistryView,
    delta: DoubleView,
    cause: Seq<char>,
    passage_id: Seq<char>,
    dramatic: bool,
    r: (Double, Double),
    id: Seq<char>,
    now: Seq<char>,
)
    requires
        delta_ended(clamp, before, after, entity_id, attribute, delta, cause, passage_id, dramatic, r, id, now),
    ensures
        exists|reading: Reading, clamped: Clamped|
            {
                &&& #[trigger] call_ensures(clamp, (reading,), clamped)
                &&& reading@.stored == kept_value(before, entity_id, attribute.id)
                &&& reading@.min == attribute.min
                &&& reading@.max == attribute.max
                &&& reading@.delta == delta
                &&& reading@.dramatic == dramatic
                &&& r.1@ == clamped@.after
                &&& reading@.stored is Some ==> r.0@ == reading@.stored->0
                &&& reading@.stored is None ==> r.0@ == clamped@.before
                &&& after.events == before.events.push(after.events.last())
                &&& after.events.last().delta == clamped@.change
            },
        kept_value(after, entity_id, attribute.id) == Some(r.1@),
        forall|other: Seq<char>, on: Seq<char>|
            other != entity_id || on != attribute.id ==> #[trigger] kept_value(after, other, on) == kept_value(
                before,
                other,
                on,
            ),
        after.events.last().id == id,
        after.events.last().entity_id == entity_id,
        after.events.last().attribute_id == attribute.id,
        after.events.last().before == r.0@,
        after.events.last().after == r.1@,
        after.events.last().cause == cause,
        after.events.last().passage_id == passage_id,
        after.events.last().created_at == now,
{
    let (reading, clamped) = choose|reading: Reading, clamped: Clamped|
        #[trigger] call_ensures(clamp, (reading,), clamped) && reading@ == reading_of(
            before,
            entity_id,
            attribute,
            delta,
            dramatic,
        ) && r.0@ == attributes::value_before(reading@, clamped@) && r.1@ == clamped@.after && after == after_delta(
            before,
            entity_id,
            attribute.id,
            reading@,
            clamped@,
            cause,
            passage_id,
            id,
            now,
        );
    law_change_is_read_back(before, entity_id, attribute.id, reading@, clamped@, cause, passage_id, id, now);
    assert(call_ensures(clamp, (reading,), clamped));
}

} // verus!
