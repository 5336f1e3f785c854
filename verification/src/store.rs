//! The tables that a story is kept in.
//!
//! Rows of one story stand in the order of their sequence numbers, and every operation
//! of this crate keeps that order.

use vstd::prelude::*;

use crate::double::{Double, DoubleView};
use crate::entities::model::{AttributeRegistryEntry, RegistryView};
use crate::images::model::{ImageBlob, ImageBlobView, StoryImage, StoryImageView};
use crate::ledger::model::{EntryView, LedgerEntry};
use crate::ledger::turns::{Turn, TurnView};
use crate::{rows, text};
use crate::rows::Copied;

verus! {

/// A story.
#[derive(Debug, PartialEq)]
pub struct StoryRow {
    pub id: String,
    pub title: String,
    pub created_at: String,
    pub updated_at: String,
    pub settings_json: String,
}

/// What a `StoryRow` stands for.
#[verifier::ext_equal]
pub struct StoryRowView {
    pub id: Seq<char>,
    pub title: Seq<char>,
    pub created_at: Seq<char>,
    pub updated_at: Seq<char>,
    pub settings_json: Seq<char>,
}

impl View for StoryRow {
    type V = StoryRowView;

    open spec fn view(&self) -> StoryRowView {
        StoryRowView {
            id: self.id@,
            title: self.title@,
            created_at: self.created_at@,
            updated_at: self.updated_at@,
            settings_json: self.settings_json@,
        }
    }
}

impl DeepView for StoryRow {
    type V = StoryRowView;

    open spec fn deep_view(&self) -> StoryRowView {
        self@
    }
}

impl StoryRow {
    /// The same row.
    pub fn copy(&self) -> (r: StoryRow)
        ensures
            r@ == self@,
    {
        StoryRow {
            id: self.id.clone(),
            title: self.title.clone(),
            created_at: self.created_at.clone(),
            updated_at: self.updated_at.clone(),
            settings_json: self.settings_json.clone(),
        }
    }
}

/// An entity of a story, by what never changes of it.
#[derive(Debug, PartialEq)]
pub struct EntityRow {
    pub id: String,
    pub story_id: String,
    pub kind: String,
    pub created_at: String,
}

/// What an `EntityRow` stands for.
#[verifier::ext_equal]
pub struct EntityRowView {
    pub id: Seq<char>,
    pub story_id: Seq<char>,
    pub kind: Seq<char>,
    pub created_at: Seq<char>,
}

impl View for EntityRow {
    type V = EntityRowView;

    open spec fn view(&self) -> EntityRowView {
        EntityRowView {
            id: self.id@,
            story_id: self.story_id@,
            kind: self.kind@,
            created_at: self.created_at@,
        }
    }
}

impl DeepView for EntityRow {
    type V = EntityRowView;

    open spec fn deep_view(&self) -> EntityRowView {
        self@
    }
}

impl EntityRow {
    /// The same row.
    pub fn copy(&self) -> (r: EntityRow)
        ensures
            r@ == self@,
    {
        EntityRow {
            id: self.id.clone(),
            story_id: self.story_id.clone(),
            kind: self.kind.clone(),
            created_at: self.created_at.clone(),
        }
    }
}

/// What an entity is called and looks like now.
#[derive(Debug, PartialEq)]
pub struct StateRow {
    pub story_id: String,
    pub entity_id: String,
    pub name: String,
    pub appearance_anchor: Option<String>,
    pub is_present: bool,
    pub updated_at: String,
    pub last_event_id: Option<String>,
}

/// What a `StateRow` stands for.
#[verifier::ext_equal]
pub struct StateRowView {
    pub story_id: Seq<char>,
    pub entity_id: Seq<char>,
    pub name: Seq<char>,
    pub appearance_anchor: Option<Seq<char>>,
    pub is_present: bool,
    pub updated_at: Seq<char>,
    pub last_event_id: Option<Seq<char>>,
}

impl View for StateRow {
    type V = StateRowView;

    open spec fn view(&self) -> StateRowView {
        StateRowView {
            story_id: self.story_id@,
            entity_id: self.entity_id@,
            name: self.name@,
            appearance_anchor: self.appearance_anchor.deep_view(),
            is_present: self.is_present,
            updated_at: self.updated_at@,
            last_event_id: self.last_event_id.deep_view(),
        }
    }
}

impl DeepView for StateRow {
    type V = StateRowView;

    open spec fn deep_view(&self) -> StateRowView {
        self@
    }
}

impl StateRow {
    /// The same row.
    pub fn copy(&self) -> (r: StateRow)
        ensures
            r@ == self@,
    {
        StateRow {
            story_id: self.story_id.clone(),
            entity_id: self.entity_id.clone(),
            name: self.name.clone(),
            appearance_anchor: text::copy_option(&self.appearance_anchor),
            is_present: self.is_present,
            updated_at: self.updated_at.clone(),
            last_event_id: text::copy_option(&self.last_event_id),
        }
    }
}

/// The value that an attribute of an entity has now.
#[derive(Debug, PartialEq)]
pub struct AttributeRow {
    pub story_id: String,
    pub entity_id: String,
    pub attribute_id: String,
    pub value: Double,
    pub source: String,
    pub updated_at: String,
    pub last_event_id: Option<String>,
}

/// What an `AttributeRow` stands for.
#[verifier::ext_equal]
pub struct AttributeRowView {
    pub story_id: Seq<char>,
    pub entity_id: Seq<char>,
    pub attribute_id: Seq<char>,
    pub value: DoubleView,
    pub source: Seq<char>,
    pub updated_at: Seq<char>,
    pub last_event_id: Option<Seq<char>>,
}

impl View for AttributeRow {
    type V = AttributeRowView;

    open spec fn view(&self) -> AttributeRowView {
        AttributeRowView {
            story_id: self.story_id@,
            entity_id: self.entity_id@,
            attribute_id: self.attribute_id@,
            value: self.value@,
            source: self.source@,
            updated_at: self.updated_at@,
            last_event_id: self.last_event_id.deep_view(),
        }
    }
}

impl DeepView for AttributeRow {
    type V = AttributeRowView;

    open spec fn deep_view(&self) -> AttributeRowView {
        self@
    }
}

impl AttributeRow {
    /// The same row.
    pub fn copy(&self) -> (r: AttributeRow)
        ensures
            r@ == self@,
    {
        AttributeRow {
            story_id: self.story_id.clone(),
            entity_id: self.entity_id.clone(),
            attribute_id: self.attribute_id.clone(),
            value: self.value.copy(),
            source: self.source.clone(),
            updated_at: self.updated_at.clone(),
            last_event_id: text::copy_option(&self.last_event_id),
        }
    }
}

/// The tables.
#[derive(Debug, PartialEq)]
pub struct Store {
    pub stories: Vec<StoryRow>,
    pub entries: Vec<LedgerEntry>,
    pub turns: Vec<Turn>,
    pub entities: Vec<EntityRow>,
    pub states: Vec<StateRow>,
    pub attributes: Vec<AttributeRow>,
    pub registry: Vec<AttributeRegistryEntry>,
    pub images: Vec<StoryImage>,
    pub blobs: Vec<ImageBlob>,
}

/// What a `Store` holds.
#[verifier::ext_equal]
pub struct StoreView {
    pub stories: Seq<StoryRowView>,
    pub entries: Seq<EntryView>,
    pub turns: Seq<TurnView>,
    pub entities: Seq<EntityRowView>,
    pub states: Seq<StateRowView>,
    pub attributes: Seq<AttributeRowView>,
    pub registry: Seq<RegistryView>,
    pub images: Seq<StoryImageView>,
    pub blobs: Seq<ImageBlobView>,
}

impl View for Store {
    type V = StoreView;

    open spec fn view(&self) -> StoreView {
        StoreView {
            stories: self.stories.deep_view(),
            entries: self.entries.deep_view(),
            turns: self.turns.deep_view(),
            entities: self.entities.deep_view(),
            states: self.states.deep_view(),
            attributes: self.attributes.deep_view(),
            registry: self.registry.deep_view(),
            images: self.images.deep_view(),
            blobs: self.blobs.deep_view(),
        }
    }
}

impl Store {
    /// Tables without a row.
    pub fn new() -> (r: Store)
        ensures
            r@.stories.len() == 0,
            r@.entries.len() == 0,
            r@.turns.len() == 0,
            r@.entities.len() == 0,
            r@.states.len() == 0,
            r@.attributes.len() == 0,
            r@.registry.len() == 0,
            r@.images.len() == 0,
            r@.blobs.len() == 0,
    {
        Store {
            stories: Vec::new(),
            entries: Vec::new(),
            turns: Vec::new(),
            entities: Vec::new(),
            states: Vec::new(),
            attributes: Vec::new(),
            registry: Vec::new(),
            images: Vec::new(),
            blobs: Vec::new(),
        }
    }
}

impl Store {
    /// The same tables.
    pub fn copy(&self) -> (r: Store)
        ensures
            r@ == self@,
    {
        Store {
            stories: rows::copy_rows(&self.stories),
            entries: rows::copy_rows(&self.entries),
            turns: rows::copy_rows(&self.turns),
            entities: rows::copy_rows(&self.entities),
            states: rows::copy_rows(&self.states),
            attributes: rows::copy_rows(&self.attributes),
            registry: rows::copy_rows(&self.registry),
            images: rows::copy_rows(&self.images),
            blobs: rows::copy_rows(&self.blobs),
        }
    }
}

impl Copied for StoryRow {
    fn copied(&self) -> (r: StoryRow) {
        self.copy()
    }
}

impl Copied for EntityRow {
    fn copied(&self) -> (r: EntityRow) {
        self.copy()
    }
}

impl Copied for StateRow {
    fn copied(&self) -> (r: StateRow) {
        self.copy()
    }
}

impl Copied for AttributeRow {
    fn copied(&self) -> (r: AttributeRow) {
        self.copy()
    }
}

} // verus!
