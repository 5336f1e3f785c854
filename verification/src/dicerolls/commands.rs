//! The dice settings of a story, and the rolls that its ledger tells of.

use vstd::prelude::*;

use super::model;
use super::model::{DiceMode, Roll, RollDetail, RollDetailView, RollView};
use crate::entities::attributes;
use crate::entities::model::AttributeValueView;
use crate::entities::projection;
use crate::entities::registry;
use crate::error::{AppError, AppResult, ErrorView};
use crate::json::{Json, JsonView};
use crate::ledger::kind;
use crate::ledger::model::{EntryView, LedgerEntry, HIDDEN};
use crate::ledger::repository;
use crate::ledger::repository::{Draft, DraftView};
use crate::store::{StateRow, Store, StoreView};
use crate::{json, rows, stories, text};

verus! {

/// The dice settings of a story.
#[derive(Debug, PartialEq)]
pub struct DicerollSettings {
    pub dice_mode: String,
    pub attributes_enabled: bool,
    pub reasoning_effort: Option<String>,
}

/// What a `DicerollSettings` stands for.
#[verifier::ext_equal]
pub struct DicerollSettingsView {
    pub dice_mode: Seq<char>,
    pub attributes_enabled: bool,
    pub reasoning_effort: Option<Seq<char>>,
}

impl View for DicerollSettings {
    type V = DicerollSettingsView;

    open spec fn view(&self) -> DicerollSettingsView {
        DicerollSettingsView {
            dice_mode: self.dice_mode@,
            attributes_enabled: self.attributes_enabled,
            reasoning_effort: self.reasoning_effort.deep_view(),
        }
    }
}

/// The efforts of reasoning that can be asked for.
pub open spec fn effort_levels() -> Seq<Seq<char>> {
    seq!["none"@, "minimal"@, "low"@, "medium"@, "high"@, "xhigh"@, "max"@]
}

/// The effort that a word stands for, whatever its case and the whitespace around it.
pub open spec fn effort_named(word: Seq<char>) -> Option<Seq<char>> {
    let level = text::ascii_lowered(text::trimmed(word));
    if effort_levels().contains(level) {
        Some(level)
    } else {
        None
    }
}

proof fn lemma_levels_are_lower()
    ensures
        forall|i: int|
            0 <= i < effort_levels().len() ==> text::ascii_lowered(#[trigger] effort_levels()[i])
                == effort_levels()[i],
{
    reveal_strlit("none");
    reveal_strlit("minimal");
    reveal_strlit("low");
    reveal_strlit("medium");
    reveal_strlit("high");
    reveal_strlit("xhigh");
    reveal_strlit("max");
    assert(text::ascii_lowered("none"@) =~= "none"@);
    assert(text::ascii_lowered("minimal"@) =~= "minimal"@);
    assert(text::ascii_lowered("low"@) =~= "low"@);
    assert(text::ascii_lowered("medium"@) =~= "medium"@);
    assert(text::ascii_lowered("high"@) =~= "high"@);
    assert(text::ascii_lowered("xhigh"@) =~= "xhigh"@);
    assert(text::ascii_lowered("max"@) =~= "max"@);
}

/// The effort that a word stands for, whatever its case and the whitespace around it;
/// nothing for any other word.
pub fn normalize_reasoning_effort(value: &str) -> (r: Option<&'static str>)
    ensures
        r.deep_view() == effort_named(value@),
{
    let word = text::trim(value);
    let ghost levels = effort_levels();
    proof {
        lemma_levels_are_lower();
        assert(levels[0] == "none"@ && levels[1] == "minimal"@ && levels[2] == "low"@);
        assert(levels[3] == "medium"@ && levels[4] == "high"@ && levels[5] == "xhigh"@);
        assert(levels[6] == "max"@);
    }
    if text::eq_ignore_ascii_case(word.as_str(), "none") {
        Some("none")
    } else if text::eq_ignore_ascii_case(word.as_str(), "minimal") {
        Some("minimal")
    } else if text::eq_ignore_ascii_case(word.as_str(), "low") {
        Some("low")
    } else if text::eq_ignore_ascii_case(word.as_str(), "medium") {
        Some("medium")
    } else if text::eq_ignore_ascii_case(word.as_str(), "high") {
        Some("high")
    } else if text::eq_ignore_ascii_case(word.as_str(), "xhigh") {
        Some("xhigh")
    } else if text::eq_ignore_ascii_case(word.as_str(), "max") {
        Some("max")
    } else {
        None
    }
}

/// An effort that can be asked for, without whitespace in its name, stands for itself.
pub proof fn law_effort_stands_for_itself(level: Seq<char>)
    requires
        effort_levels().contains(level),
        forall|i: int| 0 <= i < level.len() ==> !text::whitespace(#[trigger] level[i]),
    ensures
        effort_named(level) == Some(level),
{
    lemma_levels_are_lower();
    let i = choose|i: int| 0 <= i < effort_levels().len() && effort_levels()[i] == level;
    assert(text::trimmed(level) == level);
}

/// The dice settings that the settings of a story hold.
pub open spec fn dice_settings(settings: JsonView) -> DicerollSettingsView {
    DicerollSettingsView {
        dice_mode: model::word_for(
            model::mode_named(
                match json::text_field(settings, "dice_mode"@) {
                    Some(word) => word,
                    None => "classifier"@,
                },
            ),
        ),
        attributes_enabled: match json::bool_field(settings, "attributes_enabled"@) {
            Some(enabled) => enabled,
            None => false,
        },
        reasoning_effort: match json::text_field(settings, "reasoning_effort"@) {
            Some(word) => effort_named(word),
            None => None,
        },
    }
}

fn owned_effort(effort: Option<&'static str>) -> (r: Option<String>)
    ensures
        r.deep_view() == effort.deep_view(),
{
    match effort {
        Some(effort) => Some(effort.to_string()),
        None => None,
    }
}

/// The dice settings of a story.
pub fn read_story_diceroll_settings(store: &Store, story_id: &str) -> (r: AppResult<DicerollSettings>)
    ensures
        match stories::settings_of(store@, story_id@) {
            Some(settings) => r is Ok && r->Ok_0@ == dice_settings(settings),
            None => r is Err && r->Err_0@ == stories::no_story(story_id@),
        },
{
    let settings = match stories::read_settings(store, story_id) {
        Ok(settings) => settings,
        Err(e) => {
            return Err(e);
        },
    };
    let word = match settings.str_field("dice_mode") {
        Some(word) => word,
        None => "classifier",
    };
    let attributes_enabled = match settings.bool_field("attributes_enabled") {
        Some(enabled) => enabled,
        None => false,
    };
    let reasoning_effort = match settings.str_field("reasoning_effort") {
        Some(word) => owned_effort(normalize_reasoning_effort(word)),
        None => None,
    };
    Ok(
        DicerollSettings {
            dice_mode: DiceMode::from_str_or_default(word).as_str().to_string(),
            attributes_enabled,
            reasoning_effort,
        },
    )
}

/// The settings of a story after its dice settings were written.
pub open spec fn with_dice_settings(settings: JsonView, mode: Seq<char>, enabled: bool, effort: Option<Seq<char>>) -> JsonView {
    let written = json::assigned(
        json::assigned(settings, "dice_mode"@, JsonView::Str(model::word_for(model::mode_named(mode)))),
        "attributes_enabled"@,
        JsonView::Bool(enabled),
    );
    match level_asked(effort) {
        Some(level) => json::assigned(written, "reasoning_effort"@, JsonView::Str(level)),
        None => json::removed(written, "reasoning_effort"@),
    }
}

/// The effort that was asked for, if it can be.
pub open spec fn level_asked(effort: Option<Seq<char>>) -> Option<Seq<char>> {
    match effort {
        Some(word) => effort_named(word),
        None => None,
    }
}

/// What the entry that tells of new dice settings is made from.
pub open spec fn dice_draft(story_id: Seq<char>, mode: Seq<char>, enabled: bool, effort: Option<Seq<char>>) -> DraftView {
    let word = model::word_for(model::mode_named(mode));
    let level = level_asked(effort);
    DraftView {
        story_id,
        kind: kind::DICEROLL_SETTINGS_CHANGED@,
        visibility: HIDDEN@,
        content: Some(
            "Dice-roll settings changed: dice mode "@ + word + ", attributes enabled "@ + bool_word(enabled)
                + ", reasoning effort "@ + (match level {
                Some(level) => level,
                None => "model default"@,
            }) + "."@,
        ),
        payload: JsonView::Object(
            seq![
                ("attributes_enabled"@, JsonView::Bool(enabled)),
                ("dice_mode"@, JsonView::Str(word)),
                ("reasoning_effort"@, json::optional_text(level)),
            ],
        ),
        target_entry_id: None,
        turn_id: None,
    }
}

/// The word for a truth value.
pub open spec fn bool_word(b: bool) -> Seq<char> {
    if b {
        "true"@
    } else {
        "false"@
    }
}

/// Writes the dice settings of a story. An effort that cannot be asked for is not kept.
pub fn save_story_diceroll_settings(
    store: &mut Store,
    story_id: &str,
    dice_mode: &str,
    attributes_enabled: bool,
    reasoning_effort: Option<&str>,
) -> (r: AppResult<()>)
    requires
        match stories::settings_of(old(store)@, story_id@) {
            Some(settings) => json::assignable(settings),
            None => true,
        },
    ensures
        match stories::settings_of(old(store)@, story_id@) {
            Some(settings) => stories::settings_outcome(
                old(store)@,
                final(store)@,
                story_id@,
                with_dice_settings(settings, dice_mode@, attributes_enabled, reasoning_effort.deep_view()),
                dice_draft(story_id@, dice_mode@, attributes_enabled, reasoning_effort.deep_view()),
                r,
            ),
            None => r is Err && r->Err_0@ == stories::no_story(story_id@) && final(store)@ == old(store)@,
        },
{
    let mode = DiceMode::from_str_or_default(dice_mode).as_str();
    let level = match reasoning_effort {
        Some(word) => owned_effort(normalize_reasoning_effort(word)),
        None => None,
    };
    let mut settings = match stories::read_settings(store, story_id) {
        Ok(settings) => settings,
        Err(e) => {
            return Err(e);
        },
    };
    settings.assign("dice_mode", json::of_text(mode));
    settings.assign("attributes_enabled", Json::Bool(attributes_enabled));
    match &level {
        Some(effort) => {
            settings.assign("reasoning_effort", json::of_text(effort.as_str()));
        },
        None => {
            settings = settings.without("reasoning_effort");
        },
    }
    let told = match &level {
        Some(effort) => effort.as_str(),
        None => "model default",
    };
    let enabled_word = if attributes_enabled {
        "true"
    } else {
        "false"
    };
    let head = text::concat4(
        "Dice-roll settings changed: dice mode ",
        mode,
        ", attributes enabled ",
        enabled_word,
    );
    let content = text::concat4(head.as_str(), ", reasoning effort ", told, ".");
    let payload = Json::Object(
        vec![
            json::pair("attributes_enabled", Json::Bool(attributes_enabled)),
            json::pair("dice_mode", json::of_text(mode)),
            json::pair("reasoning_effort", json::of_option(&level)),
        ],
    );
    assert(payload@->Object_0 =~= dice_draft(
        story_id@,
        dice_mode@,
        attributes_enabled,
        reasoning_effort.deep_view(),
    ).payload->Object_0);
    stories::record_settings(
        store,
        story_id,
        &settings,
        &Draft {
            story_id,
            kind: kind::DICEROLL_SETTINGS_CHANGED,
            visibility: HIDDEN,
            content: Some(content.as_str()),
            payload: &payload,
            target_entry_id: None,
            turn_id: None,
        },
    )
}

proof fn lemma_field_names_differ()
    ensures
        "dice_mode"@ != "attributes_enabled"@,
        "dice_mode"@ != "reasoning_effort"@,
        "attributes_enabled"@ != "reasoning_effort"@,
{
    reveal_strlit("dice_mode");
    reveal_strlit("attributes_enabled");
    reveal_strlit("reasoning_effort");
    assert("dice_mode"@.len() == 9);
    assert("attributes_enabled"@.len() == 18);
    assert("reasoning_effort"@.len() == 16);
}

/// Dice settings that were written read as they were written: the mode by its word, the
/// switch as it was set, and the effort that was asked for as it reads by itself.
pub proof fn law_dice_settings_read_back(settings: JsonView, mode: Seq<char>, enabled: bool, effort: Option<Seq<char>>)
    requires
        json::assignable(settings),
    ensures
        dice_settings(with_dice_settings(settings, mode, enabled, effort)) == (DicerollSettingsView {
            dice_mode: model::word_for(model::mode_named(mode)),
            attributes_enabled: enabled,
            reasoning_effort: match level_asked(effort) {
                Some(level) => effort_named(level),
                None => None,
            },
        }),
{
    lemma_field_names_differ();
    let word = JsonView::Str(model::word_for(model::mode_named(mode)));
    let first = json::assigned(settings, "dice_mode"@, word);
    let second = json::assigned(first, "attributes_enabled"@, JsonView::Bool(enabled));
    json::law_assigned_field_reads_back(settings, "dice_mode"@, word, "attributes_enabled"@);
    json::law_assigned_field_reads_back(
        first,
        "attributes_enabled"@,
        JsonView::Bool(enabled),
        "dice_mode"@,
    );
    match level_asked(effort) {
        Some(level) => {
            json::law_assigned_field_reads_back(
                second,
                "reasoning_effort"@,
                JsonView::Str(level),
                "dice_mode"@,
            );
            json::law_assigned_field_reads_back(
                second,
                "reasoning_effort"@,
                JsonView::Str(level),
                "attributes_enabled"@,
            );
        },
        None => {
            json::law_removed_field_is_gone(second, "reasoning_effort"@, "dice_mode"@);
            json::law_removed_field_is_gone(second, "reasoning_effort"@, "attributes_enabled"@);
        },
    }
    model::law_mode_reads_back(model::mode_named(mode));
}

/// The text of the modifiers of a roll.
pub open spec fn modifiers_text(payload: JsonView) -> Seq<char> {
    json::printed(
        match json::field(payload, "modifiers"@) {
            Some(v) => v,
            None => JsonView::Object(Seq::empty()),
        },
    )
}

/// The roll that an entry tells of, if it tells all of it.
pub open spec fn roll_of(entry: EntryView) -> Option<RollView> {
    let p = entry.payload;
    match (
        entry.target_entry_id,
        json::text_field(p, "actor_entity_id"@),
        json::real_field(p, "p_success"@),
        json::int_field(p, "seed"@),
        json::int_field(p, "roll"@),
        json::text_field(p, "outcome"@),
        json::text_field(p, "degree"@),
    ) {
        (
            Some(entry_id),
            Some(actor_entity_id),
            Some(p_success),
            Some(seed),
            Some(roll),
            Some(outcome),
            Some(degree),
        ) => Some(
            RollView {
                id: entry.id,
                entry_id,
                actor_entity_id,
                target_entity_id: json::text_field(p, "target_entity_id"@),
                actor_attribute_id: json::text_field(p, "actor_attribute_id"@),
                target_attribute_id: json::text_field(p, "target_attribute_id"@),
                actor_value: json::real_field(p, "actor_value"@),
                target_value: json::real_field(p, "target_value"@),
                p_success,
                seed,
                roll,
                outcome,
                degree,
                modifiers_json: modifiers_text(p),
                created_at: entry.created_at,
            },
        ),
        _ => None,
    }
}

/// The roll that an entry tells of, if it tells all of it.
pub fn parse_roll(entry: &LedgerEntry) -> (r: Option<Roll>)
    ensures
        r.deep_view() == roll_of(entry@),
{
    let p = &entry.payload;
    let entry_id = text::copy_option(&entry.target_entry_id);
    let actor = p.str_field("actor_entity_id");
    let chance = p.double_field("p_success");
    let seed = p.int_field("seed");
    let drawn = p.int_field("roll");
    let outcome = p.str_field("outcome");
    let degree = p.str_field("degree");
    match (entry_id, actor, chance, seed, drawn, outcome, degree) {
        (
            Some(entry_id),
            Some(actor_entity_id),
            Some(p_success),
            Some(seed),
            Some(roll),
            Some(outcome),
            Some(degree),
        ) => {
            let modifiers_json = match p.get("modifiers") {
                Some(v) => json::print(v),
                None => {
                    let none = Json::Object(Vec::new());
                    assert(none@->Object_0 =~= Seq::empty());
                    json::print(&none)
                },
            };
            Some(
                Roll {
                    id: entry.id.clone(),
                    entry_id,
                    actor_entity_id: actor_entity_id.to_string(),
                    target_entity_id: text::owned_option(p.str_field("target_entity_id")),
                    actor_attribute_id: text::owned_option(p.str_field("actor_attribute_id")),
                    target_attribute_id: text::owned_option(p.str_field("target_attribute_id")),
                    actor_value: p.double_field("actor_value"),
                    target_value: p.double_field("target_value"),
                    p_success,
                    seed,
                    roll,
                    outcome: outcome.to_string(),
                    degree: degree.to_string(),
                    modifiers_json,
                    created_at: entry.created_at.clone(),
                },
            )
        },
        _ => None,
    }
}

/// What an entity is called in a story; its identifier where the story does not know it.
pub open spec fn name_of(store: StoreView, story_id: Seq<char>, id: Seq<char>) -> Seq<char> {
    match rows::first_where(store.states, projection::state_of(story_id, id)) {
        Some(state) => state.name,
        None => id,
    }
}

fn entity_name(store: &Store, story_id: &str, id: &str) -> (r: String)
    ensures
        r@ == name_of(store@, story_id@, id@),
{
    let ghost p = projection::state_of(story_id@, id@);
    let meant = |row: &StateRow| -> (b: bool)
        ensures
            b == p(row.deep_view()),
    {
        text::same_text(row.story_id.as_str(), story_id) && text::same_text(row.entity_id.as_str(), id)
    };
    match rows::position(&store.states, meant, Ghost(p)) {
        Some(i) => store.states[i].name.clone(),
        None => id.to_string(),
    }
}

/// What an attribute is called.
pub open spec fn attribute_named(store: StoreView, id: Option<Seq<char>>) -> Option<Seq<char>> {
    match id {
        Some(id) => match rows::first_where(store.registry, registry::attribute_id_is(id)) {
            Some(attribute) => Some(attribute.canonical_name),
            None => None,
        },
        None => None,
    }
}

fn attribute_name(store: &Store, id: &Option<String>) -> (r: Option<String>)
    ensures
        r.deep_view() == attribute_named(store@, id.deep_view()),
{
    match id {
        Some(id) => match registry::attribute_position(&store.registry, id.as_str()) {
            Some(i) => Some(store.registry[i].canonical_name.clone()),
            None => None,
        },
        None => None,
    }
}

/// A roll with the names of those that it is about, and with their attributes where those
/// are asked for.
pub open spec fn detail_of(store: StoreView, story_id: Seq<char>, roll: RollView, snapshots: bool) -> RollDetailView {
    RollDetailView {
        roll,
        actor_name: name_of(store, story_id, roll.actor_entity_id),
        actor_attribute_name: attribute_named(store, roll.actor_attribute_id),
        target_name: match roll.target_entity_id {
            Some(id) => Some(name_of(store, story_id, id)),
            None => None,
        },
        target_attribute_name: attribute_named(store, roll.target_attribute_id),
        actor_attributes: if snapshots {
            attributes::listed_values(store, story_id, roll.actor_entity_id)
        } else {
            Seq::<AttributeValueView>::empty()
        },
        target_attributes: match roll.target_entity_id {
            Some(id) => if snapshots {
                attributes::listed_values(store, story_id, id)
            } else {
                Seq::<AttributeValueView>::empty()
            },
            None => Seq::<AttributeValueView>::empty(),
        },
    }
}

/// A roll with the names of those that it is about, and with their attributes where those
/// are asked for.
pub fn detail(store: &Store, story_id: &str, roll: Roll, snapshots: bool) -> (r: RollDetail)
    ensures
        r@ == detail_of(store@, story_id@, roll@, snapshots),
{
    let actor_name = entity_name(store, story_id, roll.actor_entity_id.as_str());
    let target_name = match &roll.target_entity_id {
        Some(id) => Some(entity_name(store, story_id, id.as_str())),
        None => None,
    };
    let actor_attribute_name = attribute_name(store, &roll.actor_attribute_id);
    let target_attribute_name = attribute_name(store, &roll.target_attribute_id);
    let actor_attributes = if snapshots {
        attributes::list_entity_attributes_sync(store, story_id, roll.actor_entity_id.as_str())
    } else {
        Vec::new()
    };
    let target_attributes = match &roll.target_entity_id {
        Some(id) => if snapshots {
            attributes::list_entity_attributes_sync(store, story_id, id.as_str())
        } else {
            Vec::new()
        },
        None => Vec::new(),
    };
    let ghost expected = detail_of(store@, story_id@, roll@, snapshots);
    assert(actor_attributes.deep_view() =~= expected.actor_attributes);
    assert(target_attributes.deep_view() =~= expected.target_attributes);
    RollDetail {
        roll,
        actor_name,
        actor_attribute_name,
        target_name,
        target_attribute_name,
        actor_attributes,
        target_attributes,
    }
}

/// The condition of being a roll that a ledger tells of in full.
pub open spec fn tells_roll(roll_kind: Seq<char>, target: Option<Seq<char>>) -> spec_fn(EntryView) -> bool {
    |e: EntryView|
        {
            &&& e.kind == roll_kind
            &&& target is Some ==> e.target_entry_id == target
            &&& roll_of(e) is Some
        }
}

/// The roll that an entry tells of in full, with the names of those that it is about.
pub open spec fn told_detail(store: StoreView, story_id: Seq<char>, snapshots: bool) -> spec_fn(EntryView) -> RollDetailView {
    |e: EntryView| detail_of(store, story_id, roll_of(e)->0, snapshots)
}

/// The rolls of a story, in the order in which they were made; only those of an entry where
/// one is asked for.
pub open spec fn rolls_of(store: StoreView, story_id: Seq<char>, roll_kind: Seq<char>, target: Option<Seq<char>>, snapshots: bool) -> Seq<
    RollDetailView,
> {
    repository::story_entries(store.entries, story_id).filter(tells_roll(roll_kind, target)).map_values(
        told_detail(store, story_id, snapshots),
    )
}

fn has_target(entry: &LedgerEntry, target: Option<&str>) -> (r: bool)
    ensures
        r == (target is Some ==> entry@.target_entry_id == target.deep_view()),
{
    match target {
        Some(id) => match &entry.target_entry_id {
            Some(own) => text::same_text(own.as_str(), id),
            None => false,
        },
        None => true,
    }
}

/// The rolls of a story that are kept under a kind, in the order in which they were made.
pub fn list_rolls(store: &Store, story_id: &str, roll_kind: &str, target: Option<&str>, snapshots: bool) -> (r: Vec<
    RollDetail,
>)
    ensures
        r.deep_view() == rolls_of(store@, story_id@, roll_kind@, target.deep_view(), snapshots),
{
    let entries = repository::list_logical_entries(store, story_id);
    let ghost all = entries.deep_view();
    let ghost p = tells_roll(roll_kind@, target.deep_view());
    let ghost f = told_detail(store@, story_id@, snapshots);
    let mut out: Vec<RollDetail> = Vec::new();
    let mut i: usize = 0;
    assert(all.take(0).filter(p).map_values(f) =~= Seq::empty()) by {
        reveal(Seq::filter);
    }
    while i < entries.len()
        invariant
            0 <= i <= entries@.len(),
            all == entries.deep_view(),
            p == tells_roll(roll_kind@, target.deep_view()),
            f == told_detail(store@, story_id@, snapshots),
            out.deep_view() == all.take(i as int).filter(p).map_values(f),
        decreases entries@.len() - i,
    {
        let entry = &entries[i];
        proof {
            assert(all[i as int] == entry@);
            rows::lemma_filter_step(all, p, i as int);
            rows::lemma_map_push(all.take(i as int).filter(p), entry@, f);
        }
        if text::same_text(entry.kind.as_str(), roll_kind) && has_target(entry, target) {
            if let Some(roll) = parse_roll(entry) {
                let found = detail(store, story_id, roll, snapshots);
                let ghost before = out;
                let ghost value = found;
                out.push(found);
                proof {
                    rows::lemma_deep_push(before, out, value);
                }
            }
        }
        i += 1;
    }
    proof {
        rows::lemma_take_all(all);
    }
    out
}

/// The rolls of a story.
pub fn list_rolls_for_story(store: &Store, story_id: &str) -> (r: Vec<RollDetail>)
    ensures
        r.deep_view() == rolls_of(store@, story_id@, kind::DICEROLL@, None, false),
{
    list_rolls(store, story_id, kind::DICEROLL, None, false)
}

/// The rolls that were made for an entry of a story, each with the attributes of those that
/// it is about.
pub fn list_roll_details_for_entry(store: &Store, story_id: &str, entry_id: &str) -> (r: AppResult<
    Vec<RollDetail>,
>)
    ensures
        match repository::entry_with_id(store@.entries, entry_id@) {
            Some(base) => if base.story_id == story_id@ {
                &&& r is Ok
                &&& r->Ok_0.deep_view() == rolls_of(
                    store@,
                    story_id@,
                    kind::DICEROLL@,
                    Some(entry_id@),
                    true,
                )
            } else {
                r is Err && r->Err_0@ == ErrorView::NotFound(
                    "ledger entry "@ + entry_id@ + " not found in story "@ + story_id@,
                )
            },
            None => r is Err && r->Err_0@ == ErrorView::NotFound("ledger entry "@ + entry_id@ + " not found"@),
        },
{
    let base = match repository::get_entry(store, entry_id) {
        Ok(base) => base,
        Err(e) => {
            return Err(e);
        },
    };
    if !text::same_text(base.story_id.as_str(), story_id) {
        return Err(
            AppError::NotFound(
                text::concat4("ledger entry ", entry_id, " not found in story ", story_id),
            ),
        );
    }
    Ok(list_rolls(store, story_id, kind::DICEROLL, Some(entry_id), true))
}

/// The settings of the dice say what was chosen: a mode other than always or never leaves it to the
/// judgement of the case, attributes count only where they are switched on, and an effort is one of
/// the levels, whatever its case and the space around it.
pub proof fn law_dice_settings_say_what_was_chosen(settings: JsonView)
    ensures
        ({
            let chosen = dice_settings(settings);
            let word = json::text_field(settings, "dice_mode"@);
            let effort = json::text_field(settings, "reasoning_effort"@);
            &&& word == Some("always"@) ==> chosen.dice_mode == "always"@
            &&& word == Some("never"@) ==> chosen.dice_mode == "never"@
            &&& word != Some("always"@) && word != Some("never"@) ==> chosen.dice_mode == "classifier"@
            &&& chosen.attributes_enabled == (json::bool_field(settings, "attributes_enabled"@) == Some(true))
            &&& effort is None ==> chosen.reasoning_effort is None
            &&& effort is Some && text::ascii_lowered(text::trimmed(effort->0)) == "high"@
                ==> chosen.reasoning_effort == Some("high"@)
            &&& effort is Some && text::ascii_lowered(text::trimmed(effort->0)) == "none"@
                ==> chosen.reasoning_effort == Some("none"@)
            &&& chosen.reasoning_effort matches Some(level) ==> {
                &&& level == text::ascii_lowered(text::trimmed(effort->0))
                &&& level == "none"@ || level == "minimal"@ || level == "low"@ || level == "medium"@ || level
                    == "high"@ || level == "xhigh"@ || level == "max"@
            }
        }),
{
    reveal_strlit("always");
    reveal_strlit("never");
    reveal_strlit("classifier");
    assert("always"@[0] == 'a');
    assert("never"@[0] == 'n');
    assert("classifier"@[0] == 'c');
    let levels = effort_levels();
    assert(levels.len() == 7);
    assert(levels[0] == "none"@ && levels[4] == "high"@);
    if let Some(word) = json::text_field(settings, "reasoning_effort"@) {
        let level = text::ascii_lowered(text::trimmed(word));
        if levels.contains(level) {
            let i = choose|i: int| 0 <= i < levels.len() && levels[i] == level;
            assert(levels[0] == "none"@ && levels[1] == "minimal"@ && levels[2] == "low"@ && levels[3] == "medium"@
                && levels[4] == "high"@ && levels[5] == "xhigh"@ && levels[6] == "max"@);
        }
    }
}

/// The checks of a story that are listed are its entries of the kind that is asked for, about the
/// entry that is asked for, if one is, and that can be read, in their order, each with the names
/// that its entities and attributes have now.
pub proof fn law_checks_are_listed_with_their_names(
    store: StoreView,
    story_id: Seq<char>,
    roll_kind: Seq<char>,
    target: Option<Seq<char>>,
    snapshots: bool,
) -> (places: Seq<int>)
    ensures
        ({
            let entries = repository::story_entries(store.entries, story_id);
            let list = rolls_of(store, story_id, roll_kind, target, snapshots);
            &&& list.len() == places.len()
            &&& rows::rising_places(places, entries.len() as int)
            &&& forall|m: int|
                #![trigger places[m]]
                0 <= m < places.len() ==> {
                    let entry = entries[places[m]];
                    let told = list[m].roll;
                    &&& entry.kind == roll_kind
                    &&& target is Some ==> entry.target_entry_id == target
                    &&& told.id == entry.id
                    &&& entry.target_entry_id == Some(told.entry_id)
                    &&& json::text_field(entry.payload, "actor_entity_id"@) == Some(told.actor_entity_id)
                    &&& json::text_field(entry.payload, "target_entity_id"@) == told.target_entity_id
                    &&& json::text_field(entry.payload, "outcome"@) == Some(told.outcome)
                    &&& json::text_field(entry.payload, "degree"@) == Some(told.degree)
                    &&& json::int_field(entry.payload, "roll"@) == Some(told.roll)
                    &&& json::int_field(entry.payload, "seed"@) == Some(told.seed)
                    &&& json::real_field(entry.payload, "p_success"@) == Some(told.p_success)
                    &&& told.created_at == entry.created_at
                    &&& list[m].actor_name == name_of(store, story_id, told.actor_entity_id)
                    &&& told.target_entity_id is Some ==> list[m].target_name == Some(
                        name_of(store, story_id, told.target_entity_id->0),
                    )
                    &&& told.target_entity_id is None ==> list[m].target_name is None
                    &&& snapshots ==> list[m].actor_attributes == attributes::listed_values(
                        store,
                        story_id,
                        told.actor_entity_id,
                    )
                    &&& snapshots && told.target_entity_id is Some ==> list[m].target_attributes
                        == attributes::listed_values(store, story_id, told.target_entity_id->0)
                    &&& !snapshots ==> list[m].actor_attributes.len() == 0 && list[m].target_attributes.len() == 0
                    &&& told.actor_attribute_id == json::text_field(entry.payload, "actor_attribute_id"@)
                    &&& told.target_attribute_id == json::text_field(entry.payload, "target_attribute_id"@)
                    &&& told.actor_value == json::real_field(entry.payload, "actor_value"@)
                    &&& told.target_value == json::real_field(entry.payload, "target_value"@)
                    &&& list[m].actor_attribute_name == attribute_named(store, told.actor_attribute_id)
                    &&& list[m].target_attribute_name == attribute_named(store, told.target_attribute_id)
                }
            &&& forall|i: int|
                0 <= i < entries.len() && (#[trigger] entries[i]).kind == roll_kind && (target is Some
                    ==> entries[i].target_entry_id == target) && roll_of(entries[i]) is Some ==> places.contains(i)
        }),
{
    let entries = repository::story_entries(store.entries, story_id);
    let p = tells_roll(roll_kind, target);
    let places = rows::lemma_filter_places(entries, p);
    let kept = entries.filter(p);
    let list = rolls_of(store, story_id, roll_kind, target, snapshots);
    assert forall|m: int| #![trigger places[m]] 0 <= m < places.len() implies list[m] == detail_of(
        store,
        story_id,
        roll_of(entries[places[m]])->0,
        snapshots,
    ) && p(entries[places[m]]) by {
        assert(kept[m] == entries[places[m]]);
    }
    assert forall|i: int|
        0 <= i < entries.len() && (#[trigger] entries[i]).kind == roll_kind && (target is Some
            ==> entries[i].target_entry_id == target) && roll_of(entries[i]) is Some implies places.contains(i) by {
        assert(p(entries[i]));
    }
    places
}

/// An entity is named as its first state in the story has it, or by its identifier where it has
/// none there; an attribute is named as the registry has it.
pub proof fn law_names_are_those_of_the_tables(store: StoreView, story_id: Seq<char>, id: Seq<char>)
    ensures
        (exists|i: int|
            0 <= i < store.states.len() && (#[trigger] store.states[i]).story_id == story_id && store.states[i].entity_id
                == id && store.states[i].name == name_of(store, story_id, id)) || (name_of(store, story_id, id) == id
            && forall|i: int|
            0 <= i < store.states.len() ==> !((#[trigger] store.states[i]).story_id == story_id
                && store.states[i].entity_id == id)),
        attribute_named(store, Some(id)) matches Some(name) ==> exists|i: int|
            0 <= i < store.registry.len() && (#[trigger] store.registry[i]).id == id
                && store.registry[i].canonical_name == name,
        attribute_named(store, None) is None,
{
    let p = projection::state_of(story_id, id);
    let i = rows::lemma_first_where(store.states, p);
    if rows::first_where(store.states, p) is Some {
        assert(store.states[i].story_id == story_id);
    } else {
        assert forall|k: int| 0 <= k < store.states.len() implies !((#[trigger] store.states[k]).story_id == story_id
            && store.states[k].entity_id == id) by {
            assert(p(store.states[k]) == p(store.states[k]));
        }
    }
    let q = registry::attribute_id_is(id);
    let k = rows::lemma_first_where(store.registry, q);
    if rows::first_where(store.registry, q) is Some {
        assert(store.registry[k].id == id);
    }
}

/// The entry that tells of new dice settings is a hidden one of the story that has them as they were
/// chosen, with an effort only where it can be asked for.
pub proof fn law_dice_settings_are_told_of(
    story_id: Seq<char>,
    mode: Seq<char>,
    enabled: bool,
    effort: Option<Seq<char>>,
)
    ensures
        ({
            let draft = dice_draft(story_id, mode, enabled, effort);
            &&& draft.story_id == story_id
            &&& draft.kind == "diceroll_settings_changed"@
            &&& draft.visibility == "hidden"@
            &&& draft.target_entry_id is None && draft.turn_id is None
            &&& json::bool_field(draft.payload, "attributes_enabled"@) == Some(enabled)
            &&& mode == "always"@ ==> json::text_field(draft.payload, "dice_mode"@) == Some("always"@)
            &&& mode == "never"@ ==> json::text_field(draft.payload, "dice_mode"@) == Some("never"@)
            &&& mode == "classifier"@ ==> json::text_field(draft.payload, "dice_mode"@) == Some("classifier"@)
            &&& effort is None ==> json::text_field(draft.payload, "reasoning_effort"@) is None
            &&& effort is Some ==> json::text_field(draft.payload, "reasoning_effort"@) == effort_named(effort->0)
            &&& mode == "never"@ && enabled && effort is None ==> draft.content == Some(
                "Dice-roll settings changed: dice mode "@ + "never"@ + ", attributes enabled "@ + "true"@
                    + ", reasoning effort "@ + "model default"@ + "."@,
            )
        }),
{
    reveal_with_fuel(rows::first_where, 4);
    lemma_field_names_differ();
    reveal_strlit("always");
    reveal_strlit("never");
    reveal_strlit("classifier");
    assert("always"@[0] == 'a');
    assert("never"@[0] == 'n');
    assert("classifier"@[0] == 'c');
}

} // verus!
