//! The values of an entity's attributes: reading, inferring, setting and removing them.
//!
//! The arithmetic on doubles is the caller's: the midpoint of a scale, the value that a
//! proposed change is clamped to, and the difference between two values come from outside.

use vstd::prelude::*;

use super::events;
use super::events::{EntityEvent, EventView};
use super::model::{AttributeRegistryEntry, AttributeValueView, EntityAttributeValue, RegistryView};
use super::projection;
use super::registry;
use crate::double::{Double, DoubleView};
use crate::error::{AppError, AppResult, ErrorView};
use crate::sorting::Keyed;
use crate::store::{AttributeRow, AttributeRowView, StateRow, StateRowView, Store, StoreView};
use crate::{double, rows, sorting, text};

verus! {

/// The source of a value that the player set.
pub const USER: &'static str = "user";

/// The source of a value that the narrator inferred.
pub const INFERRED: &'static str = "inferred";

/// The row that holds the value of an attribute.
pub open spec fn stored_value(store: StoreView, story_id: Seq<char>, entity_id: Seq<char>, attribute_id: Seq<char>) -> Option<
    AttributeRowView,
> {
    rows::first_where(store.attributes, projection::value_of(story_id, entity_id, attribute_id))
}

/// Where the value of an attribute is held.
fn value_position(attributes: &Vec<AttributeRow>, story_id: &str, entity_id: &str, attribute_id: &str) -> (r: Option<usize>)
    ensures
        match r {
            Some(i) => i < attributes@.len() && rows::first_where(
                attributes.deep_view(),
                projection::value_of(story_id@, entity_id@, attribute_id@),
            ) == Some(attributes@[i as int]@),
            None => rows::first_where(
                attributes.deep_view(),
                projection::value_of(story_id@, entity_id@, attribute_id@),
            ) is None,
        },
{
    let ghost p = projection::value_of(story_id@, entity_id@, attribute_id@);
    let meant = |row: &AttributeRow| -> (b: bool)
        ensures
            b == p(row.deep_view()),
    {
        text::same_text(row.story_id.as_str(), story_id) && text::same_text(
            row.entity_id.as_str(),
            entity_id,
        ) && text::same_text(row.attribute_id.as_str(), attribute_id)
    };
    rows::position(attributes, meant, Ghost(p))
}

/// The value that an attribute of an entity has now, and where it comes from: the midpoint of
/// its scale, from nowhere, where none is stored.
pub fn peek_entity_attribute(
    store: &Store,
    story_id: &str,
    entity_id: &str,
    attribute: &AttributeRegistryEntry,
    midpoint: &Double,
) -> (r: (Double, Option<String>))
    ensures
        match stored_value(store@, story_id@, entity_id@, attribute@.id) {
            Some(row) => r.0@ == row.value && r.1.deep_view() == Some(row.source),
            None => r.0@ == midpoint@ && r.1 is None,
        },
{
    match value_position(&store.attributes, story_id, entity_id, attribute.id.as_str()) {
        Some(i) => (
            store.attributes[i].value.copy(),
            Some(store.attributes[i].source.clone()),
        ),
        None => (midpoint.copy(), None),
    }
}

/// What the arithmetic of a change starts from: the value that is stored, if any, the scale of
/// the attribute, the change that is proposed, and whether it is a dramatic one.
#[derive(Debug, PartialEq)]
pub struct Reading {
    pub stored: Option<Double>,
    pub min: Double,
    pub max: Double,
    pub delta: Double,
    pub dramatic: bool,
}

/// What a `Reading` stands for.
#[verifier::ext_equal]
pub struct ReadingView {
    pub stored: Option<DoubleView>,
    pub min: DoubleView,
    pub max: DoubleView,
    pub delta: DoubleView,
    pub dramatic: bool,
}

impl View for Reading {
    type V = ReadingView;

    open spec fn view(&self) -> ReadingView {
        ReadingView {
            stored: self.stored.deep_view(),
            min: self.min@,
            max: self.max@,
            delta: self.delta@,
            dramatic: self.dramatic,
        }
    }
}

impl DeepView for Reading {
    type V = ReadingView;

    open spec fn deep_view(&self) -> ReadingView {
        self@
    }
}

/// What the arithmetic of a change gives: the value before, which is the midpoint of the scale
/// where none is stored, the value after, and the difference between the two.
#[derive(Debug, PartialEq)]
pub struct Clamped {
    pub before: Double,
    pub after: Double,
    pub change: Double,
}

/// What a `Clamped` stands for.
#[verifier::ext_equal]
pub struct ClampedView {
    pub before: DoubleView,
    pub after: DoubleView,
    pub change: DoubleView,
}

impl View for Clamped {
    type V = ClampedView;

    open spec fn view(&self) -> ClampedView {
        ClampedView {
            before: self.before@,
            after: self.after@,
            change: self.change@,
        }
    }
}

impl DeepView for Clamped {
    type V = ClampedView;

    open spec fn deep_view(&self) -> ClampedView {
        self@
    }
}

/// Whether the player set the value of an attribute, so that nothing inferred changes it.
pub open spec fn locked(store: StoreView, story_id: Seq<char>, entity_id: Seq<char>, attribute_id: Seq<char>) -> bool {
    match stored_value(store, story_id, entity_id, attribute_id) {
        Some(row) => row.source == USER@,
        None => false,
    }
}

/// What the arithmetic of a proposed change starts from.
pub open spec fn reading_for(
    store: StoreView,
    story_id: Seq<char>,
    entity_id: Seq<char>,
    attribute: RegistryView,
    delta: DoubleView,
    dramatic: bool,
) -> ReadingView {
    ReadingView {
        stored: match stored_value(store, story_id, entity_id, attribute.id) {
            Some(row) => Some(row.value),
            None => None,
        },
        min: attribute.min,
        max: attribute.max,
        delta,
        dramatic,
    }
}

/// The value that a change starts from.
pub open spec fn value_before(reading: ReadingView, clamped: ClampedView) -> DoubleView {
    match reading.stored {
        Some(value) => value,
        None => clamped.before,
    }
}

/// The entry that an inferred change is written to.
pub open spec fn inferred_draft(
    story_id: Seq<char>,
    entity_id: Seq<char>,
    attribute: RegistryView,
    before: DoubleView,
    clamped: ClampedView,
    cause: Seq<char>,
    entry_id: Seq<char>,
    turn_id: Option<Seq<char>>,
) -> crate::ledger::repository::DraftView {
    projection::event_draft(
        story_id,
        Some(entry_id),
        attribute.canonical_name + " changed from "@ + before.display + " to "@
            + clamped.after.display + ": "@ + cause,
        EventView::AttributeChanged {
            entity_id,
            attribute_id: attribute.id,
            attribute_name: attribute.canonical_name,
            before: Some(before),
            after: clamped.after,
            source: INFERRED@,
            delta: Some(clamped.change),
            cause: Some(cause),
        },
        turn_id,
    )
}

/// What an inferred change comes to, by what the arithmetic gives: nothing where the player
/// set the value, and otherwise a change that is written down.
pub open spec fn delta_outcome(
    store: StoreView,
    after: StoreView,
    story_id: Seq<char>,
    entity_id: Seq<char>,
    attribute: RegistryView,
    reading: ReadingView,
    clamped: ClampedView,
    cause: Seq<char>,
    entry_id: Seq<char>,
    turn_id: Option<Seq<char>>,
    r: AppResult<(Double, Double)>,
) -> bool {
    let before = value_before(reading, clamped);
    let draft = inferred_draft(
        story_id,
        entity_id,
        attribute,
        before,
        clamped,
        cause,
        entry_id,
        turn_id,
    );
    if locked(store, story_id, entity_id, attribute.id) {
        r is Ok && r->Ok_0.0@ == before && r->Ok_0.1@ == before && after == store
    } else {
        match r {
            Ok(v) => v.0@ == before && v.1@ == clamped.after && projection::record_step(
                store,
                after,
                draft,
            ),
            Err(e) => {
                &&& projection::record_failure(store, after, draft, e@)
                &&& double::finite(clamped.after.bits) ==> projection::unwritten(store, after, draft, e@)
            },
        }
    }
}

/// Writes down an inferred change of an attribute by a proposed delta. The arithmetic is
/// `clamp`'s. A value that the player set stays as it is, whatever the delta.
pub fn apply_attribute_delta<F: Fn(Reading) -> Clamped>(
    store: &mut Store,
    story_id: &str,
    entity_id: &str,
    attribute: &AttributeRegistryEntry,
    delta: &Double,
    cause: &str,
    entry_id: &str,
    dramatic: bool,
    turn_id: Option<&str>,
    clamp: &F,
) -> (r: AppResult<(Double, Double)>)
    requires
        forall|reading: Reading| call_requires(clamp, (reading,)),
    ensures
        exists|reading: Reading, clamped: Clamped|
            #[trigger] call_ensures(clamp, (reading,), clamped) && reading@ == reading_for(
                old(store)@,
                story_id@,
                entity_id@,
                attribute@,
                delta@,
                dramatic,
            ) && delta_outcome(
                old(store)@,
                final(store)@,
                story_id@,
                entity_id@,
                attribute@,
                reading@,
                clamped@,
                cause@,
                entry_id@,
                turn_id.deep_view(),
                r,
            ),
{
    let position = value_position(&store.attributes, story_id, entity_id, attribute.id.as_str());
    let (stored, from_player) = match position {
        Some(i) => (
            Some(store.attributes[i].value.copy()),
            text::same_text(store.attributes[i].source.as_str(), USER),
        ),
        None => (None, false),
    };
    let kept = double::copy_option(&stored);
    let reading = Reading {
        stored,
        min: attribute.min.copy(),
        max: attribute.max.copy(),
        delta: delta.copy(),
        dramatic,
    };
    let ghost asked = reading;
    let clamped = clamp(reading);
    let ghost given = clamped;
    assert(call_ensures(clamp, (asked,), given));
    let before = match kept {
        Some(value) => value,
        None => clamped.before,
    };
    if from_player {
        let same = before.copy();
        return Ok((before, same));
    }
    let event = EntityEvent::AttributeChanged {
        entity_id: entity_id.to_string(),
        attribute_id: attribute.id.clone(),
        attribute_name: attribute.canonical_name.clone(),
        before: Some(before.copy()),
        after: clamped.after.copy(),
        source: INFERRED.to_string(),
        delta: Some(clamped.change),
        cause: Some(cause.to_string()),
    };
    let mut content = text::concat5(
        attribute.canonical_name.as_str(),
        " changed from ",
        before.display.as_str(),
        " to ",
        clamped.after.display.as_str(),
    );
    content.append(": ");
    content.append(cause);
    match projection::record(store, story_id, Some(entry_id), content.as_str(), &event, turn_id) {
        Ok(_) => Ok((before, clamped.after)),
        Err(e) => Err(e),
    }
}

/// The condition of being the state of an entity that is there.
pub open spec fn present_as(story_id: Seq<char>, entity_id: Seq<char>) -> spec_fn(StateRowView) -> bool {
    |s: StateRowView| s.story_id == story_id && s.entity_id == entity_id && s.is_present
}

/// Where the state of an entity stands that is there.
pub fn present_position(states: &Vec<StateRow>, story_id: &str, entity_id: &str) -> (r: Option<usize>)
    ensures
        match r {
            Some(i) => i < states@.len() && rows::first_where(
                states.deep_view(),
                present_as(story_id@, entity_id@),
            ) == Some(states@[i as int]@),
            None => rows::first_where(states.deep_view(), present_as(story_id@, entity_id@)) is None,
        },
{
    let ghost p = present_as(story_id@, entity_id@);
    let meant = |row: &StateRow| -> (b: bool)
        ensures
            b == p(row.deep_view()),
    {
        row.is_present && text::same_text(row.story_id.as_str(), story_id) && text::same_text(
            row.entity_id.as_str(),
            entity_id,
        )
    };
    rows::position(states, meant, Ghost(p))
}

/// Whether a value lies on the scale of an attribute.
pub open spec fn on_scale(value: DoubleView, min: DoubleView, max: DoubleView) -> bool {
    double::finite(value.bits) && !double::below(value.bits, min.bits) && !double::below(
        max.bits,
        value.bits,
    )
}

/// Why the player cannot set an attribute to a value.
pub open spec fn set_refusal(
    store: StoreView,
    story_id: Seq<char>,
    entity_id: Seq<char>,
    attribute_id: Seq<char>,
    value: DoubleView,
) -> Option<ErrorView> {
    match rows::first_where(store.registry, registry::attribute_id_is(attribute_id)) {
        None => Some(ErrorView::NotFound("attribute "@ + attribute_id + " not found"@)),
        Some(attribute) => if !on_scale(value, attribute.min, attribute.max) {
            Some(
                ErrorView::Invalid(
                    attribute.canonical_name + " must be between "@ + attribute.min.display
                        + " and "@ + attribute.max.display,
                ),
            )
        } else if rows::first_where(store.states, present_as(story_id, entity_id)) is None {
            Some(ErrorView::NotFound("entity "@ + entity_id + " not found"@))
        } else {
            None
        },
    }
}

/// The entry that a value set by the player is written to.
pub open spec fn set_draft(
    store: StoreView,
    story_id: Seq<char>,
    entity_id: Seq<char>,
    attribute_id: Seq<char>,
    name: Seq<char>,
    value: DoubleView,
) -> crate::ledger::repository::DraftView {
    let stored = stored_value(store, story_id, entity_id, attribute_id);
    projection::event_draft(
        story_id,
        None,
        "User changed "@ + name + " from "@ + (match stored {
            Some(row) => row.value.display,
            None => "unset"@,
        }) + " to "@ + value.display + "."@,
        EventView::AttributeChanged {
            entity_id,
            attribute_id,
            attribute_name: name,
            before: match stored {
                Some(row) => Some(row.value),
                None => None,
            },
            after: value,
            source: USER@,
            delta: None,
            cause: None,
        },
        None,
    )
}

/// What setting a value by hand comes to.
pub open spec fn set_outcome(
    before: StoreView,
    after: StoreView,
    story_id: Seq<char>,
    entity_id: Seq<char>,
    attribute_id: Seq<char>,
    value: DoubleView,
    r: AppResult<EntityAttributeValue>,
) -> bool {
    match set_refusal(before, story_id, entity_id, attribute_id, value) {
        Some(refusal) => r is Err && r->Err_0@ == refusal && after == before,
        None => {
            let attribute = rows::first_where(
                before.registry,
                registry::attribute_id_is(attribute_id),
            )->0;
            let draft = set_draft(
                before,
                story_id,
                entity_id,
                attribute_id,
                attribute.canonical_name,
                value,
            );
            match r {
                Ok(v) => {
                    &&& projection::record_step(before, after, draft)
                    &&& v@ == (AttributeValueView {
                        story_id,
                        entity_id,
                        attribute_id,
                        canonical_name: attribute.canonical_name,
                        value,
                        min: attribute.min,
                        max: attribute.max,
                        updated_at: v@.updated_at,
                        source: USER@,
                    })
                    &&& stored_value(after, story_id, entity_id, attribute_id) is Some
                    &&& v@.updated_at == stored_value(
                        after,
                        story_id,
                        entity_id,
                        attribute_id,
                    )->0.updated_at
                    &&& stored_value(after, story_id, entity_id, attribute_id)->0.value == value
                    &&& locked(after, story_id, entity_id, attribute_id)
                },
                Err(e) => projection::unwritten(before, after, draft, e@),
            }
        },
    }
}

/// Sets an attribute of an entity to a value that the player gives.
pub fn set_entity_attribute_sync(
    store: &mut Store,
    story_id: &str,
    entity_id: &str,
    attribute_id: &str,
    value: &Double,
) -> (r: AppResult<EntityAttributeValue>)
    ensures
        set_outcome(old(store)@, final(store)@, story_id@, entity_id@, attribute_id@, value@, r),
{
    let position = match registry::attribute_position(&store.registry, attribute_id) {
        Some(i) => i,
        None => {
            return Err(AppError::NotFound(text::concat3("attribute ", attribute_id, " not found")));
        },
    };
    let attribute = store.registry[position].copy();
    if !value.is_finite() || value.is_below(&attribute.min) || attribute.max.is_below(value) {
        let mut message = text::concat4(
            attribute.canonical_name.as_str(),
            " must be between ",
            attribute.min.display.as_str(),
            " and ",
        );
        message.append(attribute.max.display.as_str());
        return Err(AppError::Invalid(message));
    }
    if present_position(&store.states, story_id, entity_id).is_none() {
        return Err(AppError::NotFound(text::concat3("entity ", entity_id, " not found")));
    }
    let before = match value_position(&store.attributes, story_id, entity_id, attribute_id) {
        Some(i) => Some(store.attributes[i].value.copy()),
        None => None,
    };
    let mut content = text::concat4(
        "User changed ",
        attribute.canonical_name.as_str(),
        " from ",
        match &before {
            Some(v) => v.display.as_str(),
            None => "unset",
        },
    );
    content.append(" to ");
    content.append(value.display.as_str());
    content.append(".");
    let event = EntityEvent::AttributeChanged {
        entity_id: entity_id.to_string(),
        attribute_id: attribute_id.to_string(),
        attribute_name: attribute.canonical_name.clone(),
        before,
        after: value.copy(),
        source: USER.to_string(),
        delta: None,
        cause: None,
    };
    let ghost start = store@;
    match projection::record(store, story_id, None, content.as_str(), &event, None) {
        Ok(entry) => {
            proof {
                let now = choose|now: Seq<char>|
                    #[trigger] projection::recorded(start, story_id@, now, entry@) == (
                        store@,
                        None::<ErrorView>,
                    );
                events::lemma_change_told(event@, entry@);
                rows::lemma_first_where_upserted(
                    start.attributes,
                    projection::value_of(story_id@, entity_id@, attribute_id@),
                    AttributeRowView {
                        story_id: story_id@,
                        entity_id: entity_id@,
                        attribute_id: attribute_id@,
                        value: value@,
                        source: USER@,
                        updated_at: now,
                        last_event_id: Some(entry@.id),
                    },
                );
            }
            let updated_at = match value_position(&store.attributes, story_id, entity_id, attribute_id) {
                Some(i) => store.attributes[i].updated_at.clone(),
                None => String::new(),
            };
            Ok(
                EntityAttributeValue {
                    story_id: story_id.to_string(),
                    entity_id: entity_id.to_string(),
                    attribute_id: attribute_id.to_string(),
                    canonical_name: attribute.canonical_name,
                    value: value.copy(),
                    min: attribute.min,
                    max: attribute.max,
                    updated_at,
                    source: USER.to_string(),
                },
            )
        },
        Err(e) => Err(e),
    }
}

/// The value that is removed and the name of its attribute, where there is such a value.
pub open spec fn removable(store: StoreView, story_id: Seq<char>, entity_id: Seq<char>, attribute_id: Seq<char>) -> Option<
    (DoubleView, Seq<char>),
> {
    match (
        stored_value(store, story_id, entity_id, attribute_id),
        rows::first_where(store.registry, registry::attribute_id_is(attribute_id)),
    ) {
        (Some(row), Some(attribute)) => Some((row.value, attribute.canonical_name)),
        _ => None,
    }
}

/// The entry that a removal by the player is written to.
pub open spec fn removal_draft(
    story_id: Seq<char>,
    entity_id: Seq<char>,
    attribute_id: Seq<char>,
    value: DoubleView,
    name: Seq<char>,
) -> crate::ledger::repository::DraftView {
    projection::event_draft(
        story_id,
        None,
        "User removed "@ + name + " (previously "@ + value.display + ")."@,
        EventView::AttributeRemoved {
            entity_id,
            attribute_id,
            attribute_name: name,
            before: value,
            source: USER@,
        },
        None,
    )
}

/// What removing a value comes to.
pub open spec fn removal_outcome(
    before: StoreView,
    after: StoreView,
    story_id: Seq<char>,
    entity_id: Seq<char>,
    attribute_id: Seq<char>,
    r: AppResult<()>,
) -> bool {
    match removable(before, story_id, entity_id, attribute_id) {
        None => r is Ok && after == before,
        Some(prior) => {
            let draft = removal_draft(story_id, entity_id, attribute_id, prior.0, prior.1);
            match r {
                Ok(_) => {
                    &&& projection::record_step(before, after, draft)
                    &&& stored_value(after, story_id, entity_id, attribute_id) is None
                    &&& removable(after, story_id, entity_id, attribute_id) is None
                },
                Err(e) => projection::unwritten(before, after, draft, e@),
            }
        },
    }
}

/// Removes the value of an attribute. Where there is none, nothing is written; after a
/// removal there is none.
pub fn remove_entity_attribute_sync(store: &mut Store, story_id: &str, entity_id: &str, attribute_id: &str) -> (r: AppResult<()>)
    ensures
        removal_outcome(old(store)@, final(store)@, story_id@, entity_id@, attribute_id@, r),
{
    let (before, name) = match (
        value_position(&store.attributes, story_id, entity_id, attribute_id),
        registry::attribute_position(&store.registry, attribute_id),
    ) {
        (Some(i), Some(k)) => (
            store.attributes[i].value.copy(),
            store.registry[k].canonical_name.clone(),
        ),
        _ => {
            return Ok(());
        },
    };
    let content = text::concat5(
        "User removed ",
        name.as_str(),
        " (previously ",
        before.display.as_str(),
        ").",
    );
    let event = EntityEvent::AttributeRemoved {
        entity_id: entity_id.to_string(),
        attribute_id: attribute_id.to_string(),
        attribute_name: name,
        before,
        source: USER.to_string(),
    };
    let ghost start = store@;
    match projection::record(store, story_id, None, content.as_str(), &event, None) {
        Ok(entry) => {
            proof {
                let now = choose|now: Seq<char>|
                    #[trigger] projection::recorded(start, story_id@, now, entry@) == (
                        store@,
                        None::<ErrorView>,
                    );
                events::lemma_removal_told(event@, entry@);
                rows::lemma_first_where_filtered(
                    start.attributes,
                    projection::value_of(story_id@, entity_id@, attribute_id@),
                    projection::not_value_of(story_id@, entity_id@, attribute_id@),
                );
            }
            Ok(())
        },
        Err(e) => Err(e),
    }
}

impl Keyed for EntityAttributeValue {
    open spec fn key_of(row: AttributeValueView) -> Seq<char> {
        row.canonical_name
    }

    fn key(&self) -> (r: &str) {
        self.canonical_name.as_str()
    }
}

/// The condition of being a value of an entity whose attribute the registry knows.
pub open spec fn listed_for(store: StoreView, story_id: Seq<char>, entity_id: Seq<char>) -> spec_fn(AttributeRowView) -> bool {
    |a: AttributeRowView|
        a.story_id == story_id && a.entity_id == entity_id && rows::first_where(
            store.registry,
            registry::attribute_id_is(a.attribute_id),
        ) is Some
}

/// A value with what the registry says of its attribute.
pub open spec fn with_attribute(store: StoreView) -> spec_fn(AttributeRowView) -> AttributeValueView {
    |a: AttributeRowView|
        {
            let attribute = rows::first_where(
                store.registry,
                registry::attribute_id_is(a.attribute_id),
            )->0;
            AttributeValueView {
                story_id: a.story_id,
                entity_id: a.entity_id,
                attribute_id: a.attribute_id,
                canonical_name: attribute.canonical_name,
                value: a.value,
                min: attribute.min,
                max: attribute.max,
                updated_at: a.updated_at,
                source: a.source,
            }
        }
}

/// The values of an entity's attributes, in the order of the attributes' names.
pub open spec fn listed_values(store: StoreView, story_id: Seq<char>, entity_id: Seq<char>) -> Seq<AttributeValueView> {
    sorting::ordered(
        store.attributes.filter(listed_for(store, story_id, entity_id)).map_values(
            with_attribute(store),
        ),
        sorting::key_fn::<EntityAttributeValue>(),
    )
}

/// The values of an entity's attributes, in the order of the attributes' names.
pub fn list_entity_attributes_sync(store: &Store, story_id: &str, entity_id: &str) -> (r: Vec<EntityAttributeValue>)
    ensures
        r.deep_view() == listed_values(store@, story_id@, entity_id@),
{
    let ghost all = store@.attributes;
    let ghost p = listed_for(store@, story_id@, entity_id@);
    let ghost f = with_attribute(store@);
    let mut out: Vec<EntityAttributeValue> = Vec::new();
    let mut i: usize = 0;
    proof {
        assert(all.take(0).filter(p).map_values(f) =~= Seq::empty()) by {
            reveal(Seq::filter);
        }
    }
    while i < store.attributes.len()
        invariant
            0 <= i <= store.attributes@.len(),
            all == store@.attributes,
            p == listed_for(store@, story_id@, entity_id@),
            f == with_attribute(store@),
            out.deep_view() == all.take(i as int).filter(p).map_values(f),
        decreases store.attributes@.len() - i,
    {
        let row = &store.attributes[i];
        proof {
            assert(all[i as int] == row@);
            rows::lemma_filter_step(all, p, i as int);
            rows::lemma_map_push(all.take(i as int).filter(p), row@, f);
        }
        if text::same_text(row.story_id.as_str(), story_id) && text::same_text(
            row.entity_id.as_str(),
            entity_id,
        ) {
            if let Some(k) = registry::attribute_position(&store.registry, row.attribute_id.as_str()) {
                let attribute = &store.registry[k];
                let value = EntityAttributeValue {
                    story_id: row.story_id.clone(),
                    entity_id: row.entity_id.clone(),
                    attribute_id: row.attribute_id.clone(),
                    canonical_name: attribute.canonical_name.clone(),
                    value: row.value.copy(),
                    min: attribute.min.copy(),
                    max: attribute.max.copy(),
                    updated_at: row.updated_at.clone(),
                    source: row.source.clone(),
                };
                let ghost before = out;
                let ghost kept = value;
                out.push(value);
                proof {
                    rows::lemma_deep_push(before, out, kept);
                }
            }
        }
        i += 1;
    }
    proof {
        rows::lemma_take_all(all);
    }
    sorting::sort_rows(out)
}

/// The values of several entities' attributes, each list beside the entity that it was asked
/// for.
pub fn list_entity_attributes_for_entities_sync(store: &Store, story_id: &str, entity_ids: &Vec<String>) -> (r: Vec<
    (String, Vec<EntityAttributeValue>),
>)
    ensures
        r@.len() == entity_ids@.len(),
        forall|i: int|
            0 <= i < r@.len() ==> (#[trigger] r@[i]).0@ == entity_ids@[i]@ && r@[i].1.deep_view()
                == listed_values(store@, story_id@, entity_ids@[i]@),
{
    let mut out: Vec<(String, Vec<EntityAttributeValue>)> = Vec::new();
    let mut i: usize = 0;
    while i < entity_ids.len()
        invariant
            0 <= i <= entity_ids@.len(),
            out@.len() == i,
            forall|k: int|
                0 <= k < i ==> (#[trigger] out@[k]).0@ == entity_ids@[k]@ && out@[k].1.deep_view()
                    == listed_values(store@, story_id@, entity_ids@[k]@),
        decreases entity_ids@.len() - i,
    {
        out.push(
            (
                entity_ids[i].clone(),
                list_entity_attributes_sync(store, story_id, entity_ids[i].as_str()),
            ),
        );
        i += 1;
    }
    out
}

} // verus!
