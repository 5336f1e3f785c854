//! Entities and the attributes that they can have.

use vstd::prelude::*;

use crate::double::{Double, DoubleView};
use crate::text;
use crate::rows::Copied;

verus! {

/// An entity of a story as it is now.
#[derive(Debug, PartialEq)]
pub struct Entity {
    pub id: String,
    pub story_id: String,
    pub kind: String,
    pub name: String,
    pub appearance_anchor: Option<String>,
    pub created_at: String,
}

/// What an `Entity` stands for.
#[verifier::ext_equal]
pub struct EntityView {
    pub id: Seq<char>,
    pub story_id: Seq<char>,
    pub kind: Seq<char>,
    pub name: Seq<char>,
    pub appearance_anchor: Option<Seq<char>>,
    pub created_at: Seq<char>,
}

impl View for Entity {
    type V = EntityView;

    open spec fn view(&self) -> EntityView {
        EntityView {
            id: self.id@,
            story_id: self.story_id@,
            kind: self.kind@,
            name: self.name@,
            appearance_anchor: self.appearance_anchor.deep_view(),
            created_at: self.created_at@,
        }
    }
}

impl DeepView for Entity {
    type V = EntityView;

    open spec fn deep_view(&self) -> EntityView {
        self@
    }
}

impl Entity {
    /// The same row.
    pub fn copy(&self) -> (r: Entity)
        ensures
            r@ == self@,
    {
        Entity {
            id: self.id.clone(),
            story_id: self.story_id.clone(),
            kind: self.kind.clone(),
            name: self.name.clone(),
            appearance_anchor: text::copy_option(&self.appearance_anchor),
            created_at: self.created_at.clone(),
        }
    }
}

/// An attribute that entities can have.
#[derive(Debug, PartialEq)]
pub struct AttributeRegistryEntry {
    pub id: String,
    pub canonical_name: String,
    pub aliases_json: String,
    pub entity_kinds_json: String,
    pub min: Double,
    pub max: Double,
    pub category: String,
    pub is_user_created: bool,
    pub created_in_story_id: Option<String>,
    pub created_at: String,
}

/// What an `AttributeRegistryEntry` stands for.
#[verifier::ext_equal]
pub struct RegistryView {
    pub id: Seq<char>,
    pub canonical_name: Seq<char>,
    pub aliases_json: Seq<char>,
    pub entity_kinds_json: Seq<char>,
    pub min: DoubleView,
    pub max: DoubleView,
    pub category: Seq<char>,
    pub is_user_created: bool,
    pub created_in_story_id: Option<Seq<char>>,
    pub created_at: Seq<char>,
}

impl View for AttributeRegistryEntry {
    type V = RegistryView;

    open spec fn view(&self) -> RegistryView {
        RegistryView {
            id: self.id@,
            canonical_name: self.canonical_name@,
            aliases_json: self.aliases_json@,
            entity_kinds_json: self.entity_kinds_json@,
            min: self.min@,
            max: self.max@,
            category: self.category@,
            is_user_created: self.is_user_created,
            created_in_story_id: self.created_in_story_id.deep_view(),
            created_at: self.created_at@,
        }
    }
}

impl DeepView for AttributeRegistryEntry {
    type V = RegistryView;

    open spec fn deep_view(&self) -> RegistryView {
        self@
    }
}

impl AttributeRegistryEntry {
    /// The same row.
    pub fn copy(&self) -> (r: AttributeRegistryEntry)
        ensures
            r@ == self@,
    {
        AttributeRegistryEntry {
            id: self.id.clone(),
            canonical_name: self.canonical_name.clone(),
            aliases_json: self.aliases_json.clone(),
            entity_kinds_json: self.entity_kinds_json.clone(),
            min: self.min.copy(),
            max: self.max.copy(),
            category: self.category.clone(),
            is_user_created: self.is_user_created,
            created_in_story_id: text::copy_option(&self.created_in_story_id),
            created_at: self.created_at.clone(),
        }
    }
}

/// The value of an attribute of an entity, with what the registry says of the attribute.
#[derive(Debug, PartialEq)]
pub struct EntityAttributeValue {
    pub story_id: String,
    pub entity_id: String,
    pub attribute_id: String,
    pub canonical_name: String,
    pub value: Double,
    pub min: Double,
    pub max: Double,
    pub updated_at: String,
    pub source: String,
}

/// What an `EntityAttributeValue` stands for.
#[verifier::ext_equal]
pub struct AttributeValueView {
    pub story_id: Seq<char>,
    pub entity_id: Seq<char>,
    pub attribute_id: Seq<char>,
    pub canonical_name: Seq<char>,
    pub value: DoubleView,
    pub min: DoubleView,
    pub max: DoubleView,
    pub updated_at: Seq<char>,
    pub source: Seq<char>,
}

impl View for EntityAttributeValue {
    type V = AttributeValueView;

    open spec fn view(&self) -> AttributeValueView {
        AttributeValueView {
            story_id: self.story_id@,
            entity_id: self.entity_id@,
            attribute_id: self.attribute_id@,
            canonical_name: self.canonical_name@,
            value: self.value@,
            min: self.min@,
            max: self.max@,
            updated_at: self.updated_at@,
            source: self.source@,
        }
    }
}

impl DeepView for EntityAttributeValue {
    type V = AttributeValueView;

    open spec fn deep_view(&self) -> AttributeValueView {
        self@
    }
}

impl EntityAttributeValue {
    /// The same row.
    pub fn copy(&self) -> (r: EntityAttributeValue)
        ensures
            r@ == self@,
    {
        EntityAttributeValue {
            story_id: self.story_id.clone(),
            entity_id: self.entity_id.clone(),
            attribute_id: self.attribute_id.clone(),
            canonical_name: self.canonical_name.clone(),
            value: self.value.copy(),
            min: self.min.copy(),
            max: self.max.copy(),
            updated_at: self.updated_at.clone(),
            source: self.source.clone(),
        }
    }
}

impl Copied for Entity {
    fn copied(&self) -> (r: Entity) {
        self.copy()
    }
}

impl Copied for AttributeRegistryEntry {
    fn copied(&self) -> (r: AttributeRegistryEntry) {
        self.copy()
    }
}

impl Copied for EntityAttributeValue {
    fn copied(&self) -> (r: EntityAttributeValue) {
        self.copy()
    }
}

} // verus!
