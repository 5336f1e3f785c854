//! The mechanics settings of a story, and the results that a timeline tells of.

use vstd::prelude::*;

use crate::dicerolls::commands;
use crate::dicerolls::model;
use crate::dicerolls::model::{DiceMode, Roll, RollDetail, RollView};
use crate::error::{AppResult, ErrorView};
use crate::json::{Json, JsonView};
use crate::ledger::model::{EntryView, LedgerEntry, HIDDEN};
use crate::ledger::repository;
use crate::ledger::repository::{Draft, DraftView};
use crate::store::Store;
use crate::{json, rows, stories, text};

verus! {

/// The kind of an entry that tells of a result.
pub const MECHANICAL_RESULT: &'static str = "mechanical_result";

/// The kind of an entry that tells of new settings.
pub const MECHANICS_SETTINGS_CHANGED: &'static str = "mechanics_settings_changed";

/// The mechanics settings of a story.
#[derive(Debug, PartialEq)]
pub struct MechanicsSettings {
    pub dice_mode: String,
    pub attributes_enabled: bool,
}

/// What a `MechanicsSettings` stands for.
#[verifier::ext_equal]
pub struct MechanicsSettingsView {
    pub dice_mode: Seq<char>,
    pub attributes_enabled: bool,
}

impl View for MechanicsSettings {
    type V = MechanicsSettingsView;

    open spec fn view(&self) -> MechanicsSettingsView {
        MechanicsSettingsView {
            dice_mode: self.dice_mode@,
            attributes_enabled: self.attributes_enabled,
        }
    }
}

/// The mechanics settings that the settings of a story hold.
pub open spec fn mechanics_of(settings: JsonView) -> MechanicsSettingsView {
    MechanicsSettingsView {
        dice_mode: model::word_for(
            model::mode_named(
                match json::text_field(settings, "dice_mode"@) {
                    Some(word) => word,
                    None => "classifier"@,
                },
            ),
        ),
        attributes_enabled: match json::bool_field(settings, "attributes_enabled"@) {
            Some(enabled) => enabled,
            None => true,
        },
    }
}

/// The mechanics settings of a story.
pub fn get_story_mechanics_settings(store: &Store, story_id: &str) -> (r: AppResult<MechanicsSettings>)
    ensures
        match stories::settings_of(store@, story_id@) {
            Some(settings) => r is Ok && r->Ok_0@ == mechanics_of(settings),
            None => r is Err && r->Err_0@ == stories::no_story(story_id@),
        },
{
    let settings = match stories::read_settings(store, story_id) {
        Ok(settings) => settings,
        Err(e) => {
            return Err(e);
        },
    };
    let word = match settings.str_field("dice_mode") {
        Some(word) => word,
        None => "classifier",
    };
    let attributes_enabled = match settings.bool_field("attributes_enabled") {
        Some(enabled) => enabled,
        None => true,
    };
    Ok(
        MechanicsSettings {
            dice_mode: DiceMode::from_str_or_default(word).as_str().to_string(),
            attributes_enabled,
        },
    )
}

/// The settings of a story after its mechanics settings were written.
pub open spec fn with_mechanics(settings: JsonView, mode: Seq<char>, enabled: bool) -> JsonView {
    json::assigned(
        json::assigned(settings, "dice_mode"@, JsonView::Str(model::word_for(model::mode_named(mode)))),
        "attributes_enabled"@,
        JsonView::Bool(enabled),
    )
}

/// What the entry that tells of new mechanics settings is made from.
pub open spec fn mechanics_draft(branch_id: Seq<char>, mode: Seq<char>, enabled: bool) -> DraftView {
    let word = model::word_for(model::mode_named(mode));
    DraftView {
        story_id: branch_id,
        kind: MECHANICS_SETTINGS_CHANGED@,
        visibility: HIDDEN@,
        content: Some(
            "Mechanics settings changed: dice mode "@ + word + ", attributes enabled "@
                + commands::bool_word(enabled) + "."@,
        ),
        payload: JsonView::Object(
            seq![
                ("attributes_enabled"@, JsonView::Bool(enabled)),
                ("dice_mode"@, JsonView::Str(word)),
            ],
        ),
        target_entry_id: None,
        turn_id: None,
    }
}

/// Writes the mechanics settings of a story and tells of it on one of its timelines.
pub fn save_story_mechanics_settings(
    store: &mut Store,
    story_id: &str,
    branch_id: &str,
    dice_mode: &str,
    attributes_enabled: bool,
) -> (r: AppResult<()>)
    requires
        match stories::settings_of(old(store)@, story_id@) {
            Some(settings) => json::assignable(settings),
            None => true,
        },
    ensures
        match stories::settings_of(old(store)@, story_id@) {
            Some(settings) => stories::settings_outcome(
                old(store)@,
                final(store)@,
                story_id@,
                with_mechanics(settings, dice_mode@, attributes_enabled),
                mechanics_draft(branch_id@, dice_mode@, attributes_enabled),
                r,
            ),
            None => r is Err && r->Err_0@ == stories::no_story(story_id@) && final(store)@ == old(store)@,
        },
{
    let mut settings = match stories::read_settings(store, story_id) {
        Ok(settings) => settings,
        Err(e) => {
            return Err(e);
        },
    };
    let mode = DiceMode::from_str_or_default(dice_mode).as_str();
    settings.assign("dice_mode", json::of_text(mode));
    settings.assign("attributes_enabled", Json::Bool(attributes_enabled));
    let enabled_word = if attributes_enabled {
        "true"
    } else {
        "false"
    };
    let content = text::concat5(
        "Mechanics settings changed: dice mode ",
        mode,
        ", attributes enabled ",
        enabled_word,
        ".",
    );
    let payload = Json::Object(
        vec![
            json::pair("attributes_enabled", Json::Bool(attributes_enabled)),
            json::pair("dice_mode", json::of_text(mode)),
        ],
    );
    assert(payload@->Object_0 =~= mechanics_draft(branch_id@, dice_mode@, attributes_enabled).payload->Object_0);
    stories::record_settings(
        store,
        story_id,
        &settings,
        &Draft {
            story_id: branch_id,
            kind: MECHANICS_SETTINGS_CHANGED,
            visibility: HIDDEN,
            content: Some(content.as_str()),
            payload: &payload,
            target_entry_id: None,
            turn_id: None,
        },
    )
}

/// The roll that an entry tells of in full.
pub open spec fn told_roll() -> spec_fn(EntryView) -> RollView {
    |e: EntryView| commands::roll_of(e)->0
}

/// The results of an entry, on the timeline that it belongs to, in the order in which they
/// came.
pub fn list_rolls_for_entry(store: &Store, entry_id: &str) -> (r: AppResult<Vec<Roll>>)
    ensures
        match repository::entry_with_id(store@.entries, entry_id@) {
            Some(base) => {
                &&& r is Ok
                &&& r->Ok_0.deep_view() == repository::story_entries(
                    store@.entries,
                    base.story_id,
                ).filter(commands::tells_roll(MECHANICAL_RESULT@, Some(entry_id@))).map_values(told_roll())
            },
            None => r is Err && r->Err_0@ == ErrorView::NotFound("ledger entry "@ + entry_id@ + " not found"@),
        },
{
    let base = match repository::get_entry(store, entry_id) {
        Ok(base) => base,
        Err(e) => {
            return Err(e);
        },
    };
    let entries = repository::list_logical_entries(store, base.story_id.as_str());
    let ghost all = entries.deep_view();
    let ghost p = commands::tells_roll(MECHANICAL_RESULT@, Some(entry_id@));
    let ghost f = told_roll();
    let mut out: Vec<Roll> = Vec::new();
    let mut i: usize = 0;
    assert(all.take(0).filter(p).map_values(f) =~= Seq::empty()) by {
        reveal(Seq::filter);
    }
    while i < entries.len()
        invariant
            0 <= i <= entries@.len(),
            all == entries.deep_view(),
            p == commands::tells_roll(MECHANICAL_RESULT@, Some(entry_id@)),
            f == told_roll(),
            out.deep_view() == all.take(i as int).filter(p).map_values(f),
        decreases entries@.len() - i,
    {
        let entry = &entries[i];
        proof {
            assert(all[i as int] == entry@);
            rows::lemma_filter_step(all, p, i as int);
            rows::lemma_map_push(all.take(i as int).filter(p), entry@, f);
        }
        if is_result_for(entry, entry_id) {
            if let Some(roll) = commands::parse_roll(entry) {
                let ghost before = out;
                let ghost value = roll;
                out.push(roll);
                proof {
                    rows::lemma_deep_push(before, out, value);
                }
            }
        }
        i += 1;
    }
    proof {
        rows::lemma_take_all(all);
    }
    Ok(out)
}

/// The condition of being a result of an entry, told in full or not.
pub open spec fn result_for(entry_id: Seq<char>) -> spec_fn(EntryView) -> bool {
    |e: EntryView| e.kind == MECHANICAL_RESULT@ && e.target_entry_id == Some(entry_id)
}

fn is_result_for(entry: &LedgerEntry, entry_id: &str) -> (r: bool)
    ensures
        r == result_for(entry_id@)(entry@),
{
    text::same_text(entry.kind.as_str(), MECHANICAL_RESULT) && match &entry.target_entry_id {
        Some(target) => text::same_text(target.as_str(), entry_id),
        None => false,
    }
}

/// The results of a timeline.
pub fn list_rolls_for_branch(store: &Store, branch_id: &str) -> (r: Vec<RollDetail>)
    ensures
        r.deep_view() == commands::rolls_of(store@, branch_id@, MECHANICAL_RESULT@, None, false),
{
    commands::list_rolls(store, branch_id, MECHANICAL_RESULT, None, false)
}

/// The last result of an entry, if it is told in full, with the attributes of those that it
/// is about.
pub fn get_roll_detail(store: &Store, entry_id: &str) -> (r: AppResult<Option<RollDetail>>)
    ensures
        match repository::entry_with_id(store@.entries, entry_id@) {
            Some(base) => {
                &&& r is Ok
                &&& r->Ok_0.deep_view() == (match rows::last_where(
                    repository::story_entries(store@.entries, base.story_id),
                    result_for(entry_id@),
                ) {
                    Some(e) => match commands::roll_of(e) {
                        Some(roll) => Some(commands::detail_of(store@, base.story_id, roll, true)),
                        None => None,
                    },
                    None => None,
                })
            },
            None => r is Err && r->Err_0@ == ErrorView::NotFound("ledger entry "@ + entry_id@ + " not found"@),
        },
{
    let base = match repository::get_entry(store, entry_id) {
        Ok(base) => base,
        Err(e) => {
            return Err(e);
        },
    };
    let entries = repository::list_logical_entries(store, base.story_id.as_str());
    let ghost all = entries.deep_view();
    let ghost p = result_for(entry_id@);
    let mut i: usize = entries.len();
    while i > 0
        invariant
            0 <= i <= entries@.len(),
            all == entries.deep_view(),
            all == repository::story_entries(store@.entries, base@.story_id),
            repository::entry_with_id(store@.entries, entry_id@) == Some(base@),
            p == result_for(entry_id@),
            forall|k: int| i <= k < all.len() ==> !p(#[trigger] all[k]),
        decreases i,
    {
        i -= 1;
        assert(all[i as int] == entries@[i as int]@);
        if is_result_for(&entries[i], entry_id) {
            proof {
                rows::lemma_last_where_hit(all, p, i as int);
            }
            return match commands::parse_roll(&entries[i]) {
                Some(roll) => Ok(Some(commands::detail(store, base.story_id.as_str(), roll, true))),
                None => Ok(None),
            };
        }
    }
    proof {
        rows::lemma_last_where_miss(all, p);
    }
    Ok(None)
}

/// The settings of the mechanics say what was chosen: a mode other than always or never leaves it to
/// the judgement of the case, and attributes count unless they are switched off.
pub proof fn law_mechanics_say_what_was_chosen(settings: JsonView)
    ensures
        ({
            let chosen = mechanics_of(settings);
            let word = json::text_field(settings, "dice_mode"@);
            &&& word == Some("always"@) ==> chosen.dice_mode == "always"@
            &&& word == Some("never"@) ==> chosen.dice_mode == "never"@
            &&& word != Some("always"@) && word != Some("never"@) ==> chosen.dice_mode == "classifier"@
            &&& chosen.attributes_enabled == (json::bool_field(settings, "attributes_enabled"@) != Some(false))
        }),
{
    reveal_strlit("always");
    reveal_strlit("never");
    reveal_strlit("classifier");
    assert("always"@[0] == 'a');
    assert("never"@[0] == 'n');
    assert("classifier"@[0] == 'c');
}

/// Mechanics that were written read as they were written, and leave every other setting as it was.
pub proof fn law_mechanics_read_back(settings: JsonView, mode: Seq<char>, enabled: bool, name: Seq<char>)
    requires
        json::assignable(settings),
    ensures
        ({
            let written = with_mechanics(settings, mode, enabled);
            &&& mechanics_of(written).attributes_enabled == enabled
            &&& mode == "always"@ ==> mechanics_of(written).dice_mode == "always"@
            &&& mode == "never"@ ==> mechanics_of(written).dice_mode == "never"@
            &&& mode != "always"@ && mode != "never"@ ==> mechanics_of(written).dice_mode == "classifier"@
            &&& name != "dice_mode"@ && name != "attributes_enabled"@ ==> json::field(written, name) == json::field(
                settings,
                name,
            )
        }),
{
    reveal_strlit("dice_mode");
    reveal_strlit("attributes_enabled");
    assert("dice_mode"@.len() == 9);
    assert("attributes_enabled"@.len() == 18);
    let word = JsonView::Str(model::word_for(model::mode_named(mode)));
    let first = json::assigned(settings, "dice_mode"@, word);
    json::law_assigned_field_reads_back(settings, "dice_mode"@, word, name);
    json::law_assigned_field_reads_back(first, "attributes_enabled"@, JsonView::Bool(enabled), "dice_mode"@);
    json::law_assigned_field_reads_back(first, "attributes_enabled"@, JsonView::Bool(enabled), name);
    model::law_mode_reads_back(model::mode_named(mode));
    law_mechanics_say_what_was_chosen(with_mechanics(settings, mode, enabled));
    reveal_strlit("always");
    reveal_strlit("never");
    reveal_strlit("classifier");
    assert("always"@[0] == 'a');
    assert("never"@[0] == 'n');
    assert("classifier"@[0] == 'c');
}

/// The entry that tells of new mechanics is a hidden one of the story that has them as they were
/// chosen.
pub proof fn law_mechanics_are_told_of(branch_id: Seq<char>, mode: Seq<char>, enabled: bool)
    ensures
        ({
            let draft = mechanics_draft(branch_id, mode, enabled);
            &&& draft.story_id == branch_id
            &&& draft.kind == "mechanics_settings_changed"@
            &&& draft.visibility == "hidden"@
            &&& draft.target_entry_id is None && draft.turn_id is None
            &&& json::bool_field(draft.payload, "attributes_enabled"@) == Some(enabled)
            &&& mode == "always"@ ==> json::text_field(draft.payload, "dice_mode"@) == Some("always"@)
            &&& mode == "never"@ ==> json::text_field(draft.payload, "dice_mode"@) == Some("never"@)
            &&& mode == "classifier"@ ==> json::text_field(draft.payload, "dice_mode"@) == Some("classifier"@)
            &&& mode == "never"@ && enabled ==> draft.content == Some(
                "Mechanics settings changed: dice mode "@ + "never"@ + ", attributes enabled "@ + "true"@ + "."@,
            )
            &&& mode == "always"@ && !enabled ==> draft.content == Some(
                "Mechanics settings changed: dice mode "@ + "always"@ + ", attributes enabled "@ + "false"@ + "."@,
            )
        }),
{
    reveal_with_fuel(rows::first_where, 3);
    reveal_strlit("dice_mode");
    reveal_strlit("attributes_enabled");
    assert("dice_mode"@.len() == 9);
    assert("attributes_enabled"@.len() == 18);
    reveal_strlit("always");
    reveal_strlit("never");
    reveal_strlit("classifier");
    assert("always"@[0] == 'a');
    assert("never"@[0] == 'n');
    assert("classifier"@[0] == 'c');
}

} // verus!
