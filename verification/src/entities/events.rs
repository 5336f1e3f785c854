//! What can happen to an entity, and how the ledger writes it down.

use vstd::prelude::*;

use crate::double::{Double, DoubleView};
use crate::json::{Json, JsonView};
use crate::ledger::kind;
use crate::ledger::model::{EntryView, LedgerEntry};
use crate::{double, json, rows, text};

verus! {

/// What an entity is called and looks like.
#[derive(Debug, PartialEq)]
pub struct NameAnchor {
    pub name: String,
    pub appearance_anchor: Option<String>,
}

/// What a `NameAnchor` stands for.
#[verifier::ext_equal]
pub struct NameAnchorView {
    pub name: Seq<char>,
    pub appearance_anchor: Option<Seq<char>>,
}

impl View for NameAnchor {
    type V = NameAnchorView;

    open spec fn view(&self) -> NameAnchorView {
        NameAnchorView { name: self.name@, appearance_anchor: self.appearance_anchor.deep_view() }
    }
}

/// Something that happened to an entity.
#[allow(inconsistent_fields)]
#[derive(Debug, PartialEq)]
pub enum EntityEvent {
    Created {
        entity_id: String,
        kind: String,
        name: String,
        appearance_anchor: Option<String>,
        source: String,
        created_at: String,
    },
    Updated { entity_id: String, before: NameAnchor, after: NameAnchor, source: String },
    Deleted { entity_id: String, name: String, source: String },
    AttributeChanged {
        entity_id: String,
        attribute_id: String,
        attribute_name: String,
        before: Option<Double>,
        after: Double,
        source: String,
        delta: Option<Double>,
        cause: Option<String>,
    },
    AttributeRemoved {
        entity_id: String,
        attribute_id: String,
        attribute_name: String,
        before: Double,
        source: String,
    },
}

/// What an `EntityEvent` stands for.
#[allow(inconsistent_fields)]
#[verifier::ext_equal]
pub enum EventView {
    Created {
        entity_id: Seq<char>,
        kind: Seq<char>,
        name: Seq<char>,
        appearance_anchor: Option<Seq<char>>,
        source: Seq<char>,
        created_at: Seq<char>,
    },
    Updated {
        entity_id: Seq<char>,
        before: NameAnchorView,
        after: NameAnchorView,
        source: Seq<char>,
    },
    Deleted { entity_id: Seq<char>, name: Seq<char>, source: Seq<char> },
    AttributeChanged {
        entity_id: Seq<char>,
        attribute_id: Seq<char>,
        attribute_name: Seq<char>,
        before: Option<DoubleView>,
        after: DoubleView,
        source: Seq<char>,
        delta: Option<DoubleView>,
        cause: Option<Seq<char>>,
    },
    AttributeRemoved {
        entity_id: Seq<char>,
        attribute_id: Seq<char>,
        attribute_name: Seq<char>,
        before: DoubleView,
        source: Seq<char>,
    },
}

impl View for EntityEvent {
    type V = EventView;

    open spec fn view(&self) -> EventView {
        match *self {
            EntityEvent::Created { entity_id, kind, name, appearance_anchor, source, created_at } => {
                EventView::Created {
                    entity_id: entity_id@,
                    kind: kind@,
                    name: name@,
                    appearance_anchor: appearance_anchor.deep_view(),
                    source: source@,
                    created_at: created_at@,
                }
            },
            EntityEvent::Updated { entity_id, before, after, source } => EventView::Updated {
                entity_id: entity_id@,
                before: before@,
                after: after@,
                source: source@,
            },
            EntityEvent::Deleted { entity_id, name, source } => EventView::Deleted {
                entity_id: entity_id@,
                name: name@,
                source: source@,
            },
            EntityEvent::AttributeChanged {
                entity_id,
                attribute_id,
                attribute_name,
                before,
                after,
                source,
                delta,
                cause,
            } => EventView::AttributeChanged {
                entity_id: entity_id@,
                attribute_id: attribute_id@,
                attribute_name: attribute_name@,
                before: before.deep_view(),
                after: after@,
                source: source@,
                delta: delta.deep_view(),
                cause: cause.deep_view(),
            },
            EntityEvent::AttributeRemoved {
                entity_id,
                attribute_id,
                attribute_name,
                before,
                source,
            } => EventView::AttributeRemoved {
                entity_id: entity_id@,
                attribute_id: attribute_id@,
                attribute_name: attribute_name@,
                before: before@,
                source: source@,
            },
        }
    }
}

impl DeepView for EntityEvent {
    type V = EventView;

    open spec fn deep_view(&self) -> EventView {
        self@
    }
}

/// The kind of entry that an event is written as.
pub open spec fn kind_of(event: EventView) -> Seq<char> {
    match event {
        EventView::Created { .. } => kind::ENTITY_CREATED@,
        EventView::Updated { .. } => kind::ENTITY_UPDATED@,
        EventView::Deleted { .. } => kind::ENTITY_DELETED@,
        EventView::AttributeChanged { .. } => kind::ENTITY_ATTRIBUTE_CHANGED@,
        EventView::AttributeRemoved { .. } => kind::ENTITY_ATTRIBUTE_REMOVED@,
    }
}

/// The entity that an event is about.
pub open spec fn subject(event: EventView) -> Seq<char> {
    match event {
        EventView::Created { entity_id, .. } => entity_id,
        EventView::Updated { entity_id, .. } => entity_id,
        EventView::Deleted { entity_id, .. } => entity_id,
        EventView::AttributeChanged { entity_id, .. } => entity_id,
        EventView::AttributeRemoved { entity_id, .. } => entity_id,
    }
}

/// The value that a name and a look are written as.
pub open spec fn anchor_value(anchor: NameAnchorView) -> JsonView {
    JsonView::Object(
        seq![
            ("appearance_anchor"@, json::optional_text(anchor.appearance_anchor)),
            ("name"@, JsonView::Str(anchor.name)),
        ],
    )
}

/// The cause and the delta of a change, as far as there are any.
pub open spec fn change_details(delta: Option<DoubleView>, cause: Option<Seq<char>>) -> Seq<(Seq<char>, JsonView)> {
    (match cause {
        Some(cause) => seq![("cause"@, JsonView::Str(cause))],
        None => Seq::empty(),
    }) + (match delta {
        Some(delta) => seq![("delta"@, json::double_value(delta))],
        None => Seq::empty(),
    })
}

/// The payload that an event is written with.
pub open spec fn payload_of(event: EventView) -> JsonView {
    match event {
        EventView::Created { entity_id, kind, name, appearance_anchor, source, .. } => JsonView::Object(
            seq![
                ("appearance_anchor"@, json::optional_text(appearance_anchor)),
                ("entity_id"@, JsonView::Str(entity_id)),
                ("kind"@, JsonView::Str(kind)),
                ("name"@, JsonView::Str(name)),
                ("source"@, JsonView::Str(source)),
            ],
        ),
        EventView::Updated { entity_id, before, after, source } => JsonView::Object(
            seq![
                ("after"@, anchor_value(after)),
                ("before"@, anchor_value(before)),
                ("entity_id"@, JsonView::Str(entity_id)),
                ("source"@, JsonView::Str(source)),
            ],
        ),
        EventView::Deleted { entity_id, name, source } => JsonView::Object(
            seq![
                ("entity_id"@, JsonView::Str(entity_id)),
                ("name"@, JsonView::Str(name)),
                ("source"@, JsonView::Str(source)),
            ],
        ),
        EventView::AttributeChanged {
            entity_id,
            attribute_id,
            attribute_name,
            before,
            after,
            source,
            delta,
            cause,
        } => JsonView::Object(
            seq![
                ("after"@, json::double_value(after)),
                ("attribute_id"@, JsonView::Str(attribute_id)),
                ("attribute_name"@, JsonView::Str(attribute_name)),
                ("before"@, json::optional_double(before)),
            ] + change_details(delta, cause) + seq![
                ("entity_id"@, JsonView::Str(entity_id)),
                ("source"@, JsonView::Str(source)),
            ],
        ),
        EventView::AttributeRemoved { entity_id, attribute_id, attribute_name, before, source } => JsonView::Object(
            seq![
                ("attribute_id"@, JsonView::Str(attribute_id)),
                ("attribute_name"@, JsonView::Str(attribute_name)),
                ("before"@, json::double_value(before)),
                ("entity_id"@, JsonView::Str(entity_id)),
                ("source"@, JsonView::Str(source)),
            ],
        ),
    }
}

/// A text, or nothing written where there is none.
pub open spec fn or_empty(s: Option<Seq<char>>) -> Seq<char> {
    match s {
        Some(s) => s,
        None => Seq::empty(),
    }
}

/// The text of a field of a value that may be missing.
pub open spec fn text_within(v: Option<JsonView>, name: Seq<char>) -> Option<Seq<char>> {
    match v {
        Some(v) => json::text_field(v, name),
        None => None,
    }
}

/// The event that an entry tells of, if it tells of one.
pub open spec fn event_of(entry: EntryView) -> Option<EventView> {
    let payload = entry.payload;
    match json::text_field(payload, "entity_id"@) {
        None => None,
        Some(entity_id) => if entry.kind == kind::ENTITY_CREATED@ {
            match (json::text_field(payload, "kind"@), json::text_field(payload, "name"@)) {
                (Some(kind), Some(name)) => Some(
                    EventView::Created {
                        entity_id,
                        kind,
                        name,
                        appearance_anchor: json::text_field(payload, "appearance_anchor"@),
                        source: or_empty(json::text_field(payload, "source"@)),
                        created_at: entry.created_at,
                    },
                ),
                _ => None,
            }
        } else if entry.kind == kind::ENTITY_UPDATED@ {
            let after = json::field(payload, "after"@);
            let before = json::field(payload, "before"@);
            match text_within(after, "name"@) {
                Some(after_name) => Some(
                    EventView::Updated {
                        entity_id,
                        before: NameAnchorView {
                            name: match text_within(before, "name"@) {
                                Some(name) => name,
                                None => after_name,
                            },
                            appearance_anchor: text_within(before, "appearance_anchor"@),
                        },
                        after: NameAnchorView {
                            name: after_name,
                            appearance_anchor: text_within(after, "appearance_anchor"@),
                        },
                        source: or_empty(json::text_field(payload, "source"@)),
                    },
                ),
                None => None,
            }
        } else if entry.kind == kind::ENTITY_DELETED@ {
            Some(
                EventView::Deleted {
                    entity_id,
                    name: or_empty(json::text_field(payload, "name"@)),
                    source: or_empty(json::text_field(payload, "source"@)),
                },
            )
        } else if entry.kind == kind::ENTITY_ATTRIBUTE_CHANGED@ {
            match (
                json::text_field(payload, "attribute_id"@),
                json::real_field(payload, "after"@),
            ) {
                (Some(attribute_id), Some(after)) => Some(
                    EventView::AttributeChanged {
                        entity_id,
                        attribute_id,
                        attribute_name: or_empty(json::text_field(payload, "attribute_name"@)),
                        before: json::real_field(payload, "before"@),
                        after,
                        source: match json::text_field(payload, "source"@) {
                            Some(source) => source,
                            None => "inferred"@,
                        },
                        delta: json::real_field(payload, "delta"@),
                        cause: json::text_field(payload, "cause"@),
                    },
                ),
                _ => None,
            }
        } else if entry.kind == kind::ENTITY_ATTRIBUTE_REMOVED@ {
            match json::text_field(payload, "attribute_id"@) {
                Some(attribute_id) => Some(
                    EventView::AttributeRemoved {
                        entity_id,
                        attribute_id,
                        attribute_name: or_empty(json::text_field(payload, "attribute_name"@)),
                        before: match json::real_field(payload, "before"@) {
                            Some(before) => before,
                            None => double::zero_view(),
                        },
                        source: or_empty(json::text_field(payload, "source"@)),
                    },
                ),
                None => None,
            }
        } else {
            None
        },
    }
}

fn text_or_empty(s: Option<&str>) -> (r: String)
    ensures
        r@ == or_empty(s.deep_view()),
{
    match s {
        Some(s) => s.to_string(),
        None => String::new(),
    }
}

fn anchor_json(anchor: &NameAnchor) -> (r: Json)
    ensures
        r@ == anchor_value(anchor@),
{
    let mut fields: Vec<(String, Json)> = Vec::new();
    fields.push(json::pair("appearance_anchor", json::of_option(&anchor.appearance_anchor)));
    fields.push(json::pair("name", json::of_text(anchor.name.as_str())));
    let r = Json::Object(fields);
    assert(r@->Object_0 =~= anchor_value(anchor@)->Object_0);
    r
}

impl EntityEvent {
    /// The kind of entry that the event is written as.
    pub fn kind(&self) -> (r: &'static str)
        ensures
            r@ == kind_of(self@),
    {
        match self {
            EntityEvent::Created { .. } => kind::ENTITY_CREATED,
            EntityEvent::Updated { .. } => kind::ENTITY_UPDATED,
            EntityEvent::Deleted { .. } => kind::ENTITY_DELETED,
            EntityEvent::AttributeChanged { .. } => kind::ENTITY_ATTRIBUTE_CHANGED,
            EntityEvent::AttributeRemoved { .. } => kind::ENTITY_ATTRIBUTE_REMOVED,
        }
    }

    /// The payload that the event is written with.
    pub fn payload(&self) -> (r: Json)
        ensures
            r@ == payload_of(self@),
    {
        let mut fields: Vec<(String, Json)> = Vec::new();
        match self {
            EntityEvent::Created { entity_id, kind, name, appearance_anchor, source, .. } => {
                fields.push(json::pair("appearance_anchor", json::of_option(appearance_anchor)));
                fields.push(json::pair("entity_id", json::of_text(entity_id.as_str())));
                fields.push(json::pair("kind", json::of_text(kind.as_str())));
                fields.push(json::pair("name", json::of_text(name.as_str())));
                fields.push(json::pair("source", json::of_text(source.as_str())));
            },
            EntityEvent::Updated { entity_id, before, after, source } => {
                fields.push(json::pair("after", anchor_json(after)));
                fields.push(json::pair("before", anchor_json(before)));
                fields.push(json::pair("entity_id", json::of_text(entity_id.as_str())));
                fields.push(json::pair("source", json::of_text(source.as_str())));
            },
            EntityEvent::Deleted { entity_id, name, source } => {
                fields.push(json::pair("entity_id", json::of_text(entity_id.as_str())));
                fields.push(json::pair("name", json::of_text(name.as_str())));
                fields.push(json::pair("source", json::of_text(source.as_str())));
            },
            EntityEvent::AttributeChanged {
                entity_id,
                attribute_id,
                attribute_name,
                before,
                after,
                source,
                delta,
                cause,
            } => {
                fields.push(json::pair("after", json::of_double(after)));
                fields.push(json::pair("attribute_id", json::of_text(attribute_id.as_str())));
                fields.push(json::pair("attribute_name", json::of_text(attribute_name.as_str())));
                fields.push(json::pair("before", json::of_optional_double(before)));
                if let Some(cause) = cause {
                    fields.push(json::pair("cause", json::of_text(cause.as_str())));
                }
                if let Some(delta) = delta {
                    fields.push(json::pair("delta", json::of_double(delta)));
                }
                fields.push(json::pair("entity_id", json::of_text(entity_id.as_str())));
                fields.push(json::pair("source", json::of_text(source.as_str())));
            },
            EntityEvent::AttributeRemoved {
                entity_id,
                attribute_id,
                attribute_name,
                before,
                source,
            } => {
                fields.push(json::pair("attribute_id", json::of_text(attribute_id.as_str())));
                fields.push(json::pair("attribute_name", json::of_text(attribute_name.as_str())));
                fields.push(json::pair("before", json::of_double(before)));
                fields.push(json::pair("entity_id", json::of_text(entity_id.as_str())));
                fields.push(json::pair("source", json::of_text(source.as_str())));
            },
        }
        let r = Json::Object(fields);
        assert(r@->Object_0 =~= payload_of(self@)->Object_0);
        r
    }

    /// The entity that the event is about.
    pub fn entity_id(&self) -> (r: &str)
        ensures
            r@ == subject(self@),
    {
        match self {
            EntityEvent::Created { entity_id, .. } => entity_id.as_str(),
            EntityEvent::Updated { entity_id, .. } => entity_id.as_str(),
            EntityEvent::Deleted { entity_id, .. } => entity_id.as_str(),
            EntityEvent::AttributeChanged { entity_id, .. } => entity_id.as_str(),
            EntityEvent::AttributeRemoved { entity_id, .. } => entity_id.as_str(),
        }
    }

    /// The event that an entry tells of, if it tells of one.
    pub fn from_entry(entry: &LedgerEntry) -> (r: Option<EntityEvent>)
        ensures
            r.deep_view() == event_of(entry@),
    {
        let payload = &entry.payload;
        let entity_id = match payload.str_field("entity_id") {
            Some(entity_id) => entity_id.to_string(),
            None => {
                return None;
            },
        };
        let entry_kind = entry.kind.as_str();
        let source = payload.str_field("source");
        if text::same_text(entry_kind, kind::ENTITY_CREATED) {
            match (payload.str_field("kind"), payload.str_field("name")) {
                (Some(kind), Some(name)) => Some(
                    EntityEvent::Created {
                        entity_id,
                        kind: kind.to_string(),
                        name: name.to_string(),
                        appearance_anchor: text::owned_option(
                            payload.str_field("appearance_anchor"),
                        ),
                        source: text_or_empty(source),
                        created_at: entry.created_at.clone(),
                    },
                ),
                _ => None,
            }
        } else if text::same_text(entry_kind, kind::ENTITY_UPDATED) {
            let after = payload.get("after");
            let before = payload.get("before");
            match field_text(after, "name") {
                Some(after_name) => {
                    let before_name = match field_text(before, "name") {
                        Some(name) => name,
                        None => after_name.clone(),
                    };
                    Some(
                        EntityEvent::Updated {
                            entity_id,
                            before: NameAnchor {
                                name: before_name,
                                appearance_anchor: field_text(before, "appearance_anchor"),
                            },
                            after: NameAnchor {
                                name: after_name,
                                appearance_anchor: field_text(after, "appearance_anchor"),
                            },
                            source: text_or_empty(source),
                        },
                    )
                },
                None => None,
            }
        } else if text::same_text(entry_kind, kind::ENTITY_DELETED) {
            Some(
                EntityEvent::Deleted {
                    entity_id,
                    name: text_or_empty(payload.str_field("name")),
                    source: text_or_empty(source),
                },
            )
        } else if text::same_text(entry_kind, kind::ENTITY_ATTRIBUTE_CHANGED) {
            match (payload.str_field("attribute_id"), payload.double_field("after")) {
                (Some(attribute_id), Some(after)) => Some(
                    EntityEvent::AttributeChanged {
                        entity_id,
                        attribute_id: attribute_id.to_string(),
                        attribute_name: text_or_empty(payload.str_field("attribute_name")),
                        before: payload.double_field("before"),
                        after,
                        source: match source {
                            Some(source) => source.to_string(),
                            None => "inferred".to_string(),
                        },
                        delta: payload.double_field("delta"),
                        cause: text::owned_option(payload.str_field("cause")),
                    },
                ),
                _ => None,
            }
        } else if text::same_text(entry_kind, kind::ENTITY_ATTRIBUTE_REMOVED) {
            match payload.str_field("attribute_id") {
                Some(attribute_id) => Some(
                    EntityEvent::AttributeRemoved {
                        entity_id,
                        attribute_id: attribute_id.to_string(),
                        attribute_name: text_or_empty(payload.str_field("attribute_name")),
                        before: match payload.double_field("before") {
                            Some(before) => before,
                            None => double::zero(),
                        },
                        source: text_or_empty(source),
                    },
                ),
                None => None,
            }
        } else {
            None
        }
    }
}

fn field_text(v: Option<&Json>, name: &str) -> (r: Option<String>)
    ensures
        r.deep_view() == text_within(v.deep_view(), name@),
{
    match v {
        Some(v) => text::owned_option(v.str_field(name)),
        None => None,
    }
}

proof fn lemma_field_names()
    ensures
        "appearance_anchor"@.len() == 17,
        "entity_id"@.len() == 9,
        "kind"@.len() == 4 && "kind"@[0] == 'k',
        "name"@.len() == 4 && "name"@[0] == 'n',
        "source"@.len() == 6 && "source"@[0] == 's',
        "before"@.len() == 6 && "before"@[0] == 'b',
        "after"@.len() == 5 && "after"@[0] == 'a',
        "cause"@.len() == 5 && "cause"@[0] == 'c',
        "delta"@.len() == 5 && "delta"@[0] == 'd',
        "attribute_id"@.len() == 12,
        "attribute_name"@.len() == 14,
{
    reveal_strlit("appearance_anchor");
    reveal_strlit("entity_id");
    reveal_strlit("kind");
    reveal_strlit("name");
    reveal_strlit("source");
    reveal_strlit("before");
    reveal_strlit("after");
    reveal_strlit("cause");
    reveal_strlit("delta");
    reveal_strlit("attribute_id");
    reveal_strlit("attribute_name");
}

/// Whether the doubles of an event are numbers, as the ledger can write them down.
pub open spec fn writable(event: EventView) -> bool {
    match event {
        EventView::AttributeChanged { before, after, delta, .. } => {
            &&& double::finite(after.bits)
            &&& before is Some ==> double::finite(before->0.bits)
            &&& delta is Some ==> double::finite(delta->0.bits)
        },
        EventView::AttributeRemoved { before, .. } => double::finite(before.bits),
        _ => true,
    }
}

/// Whether an event can be told from its entry: of a change, that the value after is a number.
pub open spec fn legible(event: EventView) -> bool {
    event is AttributeChanged ==> double::finite(event->AttributeChanged_after.bits)
}

/// An event with the time at which its entry was written.
pub open spec fn stamped(event: EventView, created_at: Seq<char>) -> EventView {
    match event {
        EventView::Created { entity_id, kind, name, appearance_anchor, source, .. } => EventView::Created {
            entity_id,
            kind,
            name,
            appearance_anchor,
            source,
            created_at,
        },
        other => other,
    }
}

/// An entry that an event was written to tells of that event; of a creation it gives the
/// time at which it was written.
pub proof fn law_written_event_reads_back(event: EventView, entry: EntryView)
    requires
        writable(event),
        entry.kind == kind_of(event),
        entry.payload == payload_of(event),
    ensures
        event_of(entry) == Some(stamped(event, entry.created_at)),
{
    lemma_field_names();
    kind::lemma_kinds_differ();
    reveal_with_fuel(rows::first_where, 9);
    let fields = entry.payload->Object_0;
    match event {
        EventView::Created { .. } => {},
        EventView::Updated { before, after, .. } => {
            assert(json::field(entry.payload, "after"@) == Some(anchor_value(after)));
            assert(json::field(entry.payload, "before"@) == Some(anchor_value(before)));
            assert(json::text_field(anchor_value(after), "name"@) == Some(after.name));
            assert(json::text_field(anchor_value(before), "name"@) == Some(before.name));
            assert(json::text_field(anchor_value(after), "appearance_anchor"@) == after.appearance_anchor);
            assert(json::text_field(anchor_value(before), "appearance_anchor"@) == before.appearance_anchor);
        },
        EventView::Deleted { .. } => {},
        EventView::AttributeChanged { .. } => {},
        EventView::AttributeRemoved { .. } => {},
    }
}

/// The entry of a change to a number tells of the attribute, the value and where it comes
/// from, also where the value before was no number.
pub proof fn lemma_change_told(event: EventView, entry: EntryView)
    requires
        event is AttributeChanged,
        double::finite(event->AttributeChanged_after.bits),
        entry.kind == kind_of(event),
        entry.payload == payload_of(event),
    ensures
        event_of(entry) is Some,
        event_of(entry)->0 is AttributeChanged,
        ({
            let told = event_of(entry)->0;
            &&& told->AttributeChanged_entity_id == event->AttributeChanged_entity_id
            &&& told->AttributeChanged_attribute_id == event->AttributeChanged_attribute_id
            &&& told->AttributeChanged_after == event->AttributeChanged_after
            &&& told->AttributeChanged_source == event->AttributeChanged_source
        }),
{
    lemma_field_names();
    kind::lemma_kinds_differ();
    reveal_with_fuel(rows::first_where, 9);
}

/// The entry of a removal tells of the attribute, also where the value before was no number.
pub proof fn lemma_removal_told(event: EventView, entry: EntryView)
    requires
        event is AttributeRemoved,
        entry.kind == kind_of(event),
        entry.payload == payload_of(event),
    ensures
        event_of(entry) is Some,
        event_of(entry)->0 is AttributeRemoved,
        ({
            let told = event_of(entry)->0;
            &&& told->AttributeRemoved_entity_id == event->AttributeRemoved_entity_id
            &&& told->AttributeRemoved_attribute_id == event->AttributeRemoved_attribute_id
        }),
{
    lemma_field_names();
    kind::lemma_kinds_differ();
    reveal_with_fuel(rows::first_where, 9);
}

/// The entry of a legible event tells of an event.
pub proof fn lemma_legible_told(event: EventView, entry: EntryView)
    requires
        legible(event),
        entry.kind == kind_of(event),
        entry.payload == payload_of(event),
    ensures
        event_of(entry) is Some,
{
    match event {
        EventView::AttributeChanged { .. } => lemma_change_told(event, entry),
        EventView::AttributeRemoved { .. } => lemma_removal_told(event, entry),
        _ => law_written_event_reads_back(event, entry),
    }
}

/// What an entry tells of is of the sort of the event that it was written for, and of the same entity;
/// of a change it is of the attribute that was changed.
pub proof fn lemma_told_sort(event: EventView, entry: EntryView)
    requires
        entry.kind == kind_of(event),
        entry.payload == payload_of(event),
    ensures
        match event_of(entry) {
            None => true,
            Some(told) => subject(told) == subject(event) && match event {
                EventView::Created { .. } => told is Created,
                EventView::Updated { .. } => told is Updated,
                EventView::Deleted { .. } => told is Deleted,
                EventView::AttributeChanged { entity_id, attribute_id, .. } => told is AttributeChanged
                    && told->AttributeChanged_entity_id == entity_id && told->AttributeChanged_attribute_id
                    == attribute_id,
                EventView::AttributeRemoved { .. } => told is AttributeRemoved,
            },
        },
{
    lemma_field_names();
    kind::lemma_kinds_differ();
    reveal_with_fuel(rows::first_where, 9);
}

} // verus!
