//! What a roll of the dice is, and how often one is asked for.

use vstd::prelude::*;

use crate::double::{Double, DoubleView};
use crate::entities::model::{AttributeValueView, EntityAttributeValue};
use crate::text;

verus! {

/// How often the narrator rolls.
#[derive(Debug, Clone, Copy, PartialEq, Eq, Structural)]
pub enum DiceMode {
    Always,
    Classifier,
    Never,
}

/// The mode that a word stands for; where it stands for none, the narrator decides.
pub open spec fn mode_named(word: Seq<char>) -> DiceMode {
    if word == "always"@ {
        DiceMode::Always
    } else if word == "never"@ {
        DiceMode::Never
    } else {
        DiceMode::Classifier
    }
}

/// The word for a mode.
pub open spec fn word_for(mode: DiceMode) -> Seq<char> {
    match mode {
        DiceMode::Always => "always"@,
        DiceMode::Classifier => "classifier"@,
        DiceMode::Never => "never"@,
    }
}

impl DiceMode {
    /// The mode that a word stands for; where it stands for none, the narrator decides.
    pub fn from_str_or_default(s: &str) -> (r: DiceMode)
        ensures
            r == mode_named(s@),
    {
        if text::same_text(s, "always") {
            DiceMode::Always
        } else if text::same_text(s, "never") {
            DiceMode::Never
        } else {
            DiceMode::Classifier
        }
    }

    /// The word for a mode.
    pub fn as_str(self) -> (r: &'static str)
        ensures
            r@ == word_for(self),
    {
        match self {
            DiceMode::Always => "always",
            DiceMode::Classifier => "classifier",
            DiceMode::Never => "never",
        }
    }
}

/// The word for a mode stands for that mode.
pub proof fn law_mode_reads_back(mode: DiceMode)
    ensures
        mode_named(word_for(mode)) == mode,
{
    reveal_strlit("always");
    reveal_strlit("classifier");
    reveal_strlit("never");
    assert("always"@.len() == 6);
    assert("classifier"@.len() == 10);
    assert("never"@.len() == 5);
}

/// A roll of the dice.
#[derive(Debug, PartialEq)]
pub struct Roll {
    pub id: String,
    pub entry_id: String,
    pub actor_entity_id: String,
    pub target_entity_id: Option<String>,
    pub actor_attribute_id: Option<String>,
    pub target_attribute_id: Option<String>,
    pub actor_value: Option<Double>,
    pub target_value: Option<Double>,
    pub p_success: Double,
    pub seed: i64,
    pub roll: i64,
    pub outcome: String,
    pub degree: String,
    pub modifiers_json: String,
    pub created_at: String,
}

/// What a `Roll` stands for.
#[verifier::ext_equal]
pub struct RollView {
    pub id: Seq<char>,
    pub entry_id: Seq<char>,
    pub actor_entity_id: Seq<char>,
    pub target_entity_id: Option<Seq<char>>,
    pub actor_attribute_id: Option<Seq<char>>,
    pub target_attribute_id: Option<Seq<char>>,
    pub actor_value: Option<DoubleView>,
    pub target_value: Option<DoubleView>,
    pub p_success: DoubleView,
    pub seed: i64,
    pub roll: i64,
    pub outcome: Seq<char>,
    pub degree: Seq<char>,
    pub modifiers_json: Seq<char>,
    pub created_at: Seq<char>,
}

impl View for Roll {
    type V = RollView;

    open spec fn view(&self) -> RollView {
        RollView {
            id: self.id@,
            entry_id: self.entry_id@,
            actor_entity_id: self.actor_entity_id@,
            target_entity_id: self.target_entity_id.deep_view(),
            actor_attribute_id: self.actor_attribute_id.deep_view(),
            target_attribute_id: self.target_attribute_id.deep_view(),
            actor_value: self.actor_value.deep_view(),
            target_value: self.target_value.deep_view(),
            p_success: self.p_success@,
            seed: self.seed,
            roll: self.roll,
            outcome: self.outcome@,
            degree: self.degree@,
            modifiers_json: self.modifiers_json@,
            created_at: self.created_at@,
        }
    }
}

impl DeepView for Roll {
    type V = RollView;

    open spec fn deep_view(&self) -> RollView {
        self@
    }
}

/// A roll with the names of those that it is about.
#[derive(Debug, PartialEq)]
pub struct RollDetail {
    pub roll: Roll,
    pub actor_name: String,
    pub actor_attribute_name: Option<String>,
    pub target_name: Option<String>,
    pub target_attribute_name: Option<String>,
    pub actor_attributes: Vec<EntityAttributeValue>,
    pub target_attributes: Vec<EntityAttributeValue>,
}

/// What a `RollDetail` stands for.
#[verifier::ext_equal]
pub struct RollDetailView {
    pub roll: RollView,
    pub actor_name: Seq<char>,
    pub actor_attribute_name: Option<Seq<char>>,
    pub target_name: Option<Seq<char>>,
    pub target_attribute_name: Option<Seq<char>>,
    pub actor_attributes: Seq<AttributeValueView>,
    pub target_attributes: Seq<AttributeValueView>,
}

impl View for RollDetail {
    type V = RollDetailView;

    open spec fn view(&self) -> RollDetailView {
        RollDetailView {
            roll: self.roll@,
            actor_name: self.actor_name@,
            actor_attribute_name: self.actor_attribute_name.deep_view(),
            target_name: self.target_name.deep_view(),
            target_attribute_name: self.target_attribute_name.deep_view(),
            actor_attributes: self.actor_attributes.deep_view(),
            target_attributes: self.target_attributes.deep_view(),
        }
    }
}

impl DeepView for RollDetail {
    type V = RollDetailView;

    open spec fn deep_view(&self) -> RollDetailView {
        self@
    }
}

} // verus!
