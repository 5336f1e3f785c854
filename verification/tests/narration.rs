use dungeon::ai::{HistoryTurn, HistoryTurnMarker};
use dungeon::compaction::budget::Limits;
use dungeon::dicerolls::commands as dicerolls;
use dungeon::dicerolls::model::DiceMode;
use dungeon::double::Double;
use dungeon::entities::attributes;
use dungeon::entities::attributes::{Clamped, Reading};
use dungeon::entities::model::AttributeRegistryEntry;
use dungeon::entities::registry;
use dungeon::entities::registry::{AttributeResolution, ResolutionStep};
use dungeon::entities::repository as entities;
use dungeon::error::AppError;
use dungeon::images::model::{ImageRequest, StoryImage};
use dungeon::json::Json;
use dungeon::ledger::kind;
use dungeon::ledger::model::LedgerEntry;
use dungeon::ledger::repository as ledger;
use dungeon::ledger::turns;
use dungeon::mechanics::commands::MECHANICAL_RESULT;
use dungeon::narration::author_note;
use dungeon::narration::commands;
use dungeon::narration::commands::Ending;
use dungeon::narration::context;
use dungeon::narration::edit;
use dungeon::narration::entity_context;
use dungeon::narration::history;
use dungeon::narration::notes;
use dungeon::narration::replacement;
use dungeon::narration::repository as messages;
use dungeon::narration::retry;
use dungeon::narration::rewind;
use dungeon::narration::staged;
use dungeon::narration::staged::{CheckInput, CheckOutput, Note, Noted, PendingCheck};
use dungeon::narration::tools;
use dungeon::narrator::catalog::NarratorToolSettings;
use dungeon::narrator::dice;
use dungeon::narrator::dice::RollFactor;
use dungeon::narrator::staging::{PendingOp, TurnStaging};
use dungeon::narrator::tool_error::ToolError;
use dungeon::passages::commands as passages;
use dungeon::settings::{ImageModelSettings, Preferences};
use dungeon::store::{AttributeRow, StateRow, Store, StoryRow};
use dungeon::stories;

fn double(x: f64) -> Double {
    Double { bits: x.to_bits(), display: x.to_string(), literal: serde_json::Value::from(x).to_string() }
}

fn number(x: &Double) -> f64 {
    f64::from_bits(x.bits)
}

fn tree(text: &str) -> Json {
    ledger::payload_of_row(text)
}

fn clamp(reading: Reading) -> Clamped {
    let min = number(&reading.min);
    let max = number(&reading.max);
    let before = match &reading.stored {
        Some(value) => number(value),
        None => (min + max) / 2.0,
    };
    let step = if reading.dramatic { max - min } else { (max - min) * 0.3 };
    let after = (before + number(&reading.delta).clamp(-step, step)).clamp(min, max);
    Clamped { before: double(before), after: double(after), change: double(after - before) }
}

fn attribute(id: &str, name: &str, min: f64, max: f64) -> AttributeRegistryEntry {
    AttributeRegistryEntry {
        id: id.to_string(),
        canonical_name: name.to_string(),
        aliases_json: "[]".to_string(),
        entity_kinds_json: "[\"character\"]".to_string(),
        min: double(min),
        max: double(max),
        category: "test".to_string(),
        is_user_created: false,
        created_in_story_id: None,
        created_at: "now".to_string(),
    }
}

fn tables(story_id: &str) -> Store {
    let mut store = Store::new();
    store.stories.push(StoryRow {
        id: story_id.to_string(),
        title: "Story".to_string(),
        created_at: "now".to_string(),
        updated_at: "now".to_string(),
        settings_json: "{}".to_string(),
    });
    store.registry.push(attribute("accuracy", "Accuracy", 0.0, 10.0));
    store.registry.push(attribute("trust", "Trust", -10.0, 10.0));
    store.registry.push(attribute("health", "Health", 0.0, 10.0));
    store.registry.push(attribute("stealth", "Stealth", 0.0, 10.0));
    store
}

fn limits() -> Limits {
    Limits { context_window: 32768, trigger: 29491, target: 24576 }
}

fn item(list: &Json, i: usize) -> &Json {
    match list {
        Json::Array(items) => &items[i],
        other => panic!("{:?}", other),
    }
}

fn append(store: &mut Store, event_kind: &str, visibility: &str, content: &str, payload: &str, target: Option<&str>) -> LedgerEntry {
    ledger::append_entry(store, "s", event_kind, visibility, Some(content), &tree(payload), target, None).unwrap()
}

fn row(id: &str, seq: i64, event_kind: &str, content: Option<&str>, payload: &str) -> LedgerEntry {
    let shown = event_kind == kind::PLAYER_MESSAGE || event_kind == kind::NARRATION;
    LedgerEntry {
        id: id.to_string(),
        story_id: "b".to_string(),
        seq,
        kind: event_kind.to_string(),
        visibility: if shown { "visible".to_string() } else { "hidden".to_string() },
        content: content.map(str::to_string),
        payload: tree(payload),
        target_entry_id: None,
        turn_id: None,
        created_at: "now".to_string(),
    }
}

fn name_of(store: &Store, id: &str) -> String {
    entities::list_entities_sync(store, "s", None).into_iter().find(|e| e.id == id).unwrap().name
}

fn image(id: &str, entry_id: &str, path: &str) -> StoryImage {
    StoryImage {
        id: id.to_string(),
        entry_id: entry_id.to_string(),
        path: path.to_string(),
        prompt: "prompt".to_string(),
        created_at: "now".to_string(),
    }
}

fn turn_with_passage(store: &mut Store) -> (String, String) {
    let turn_id = turns::create_turn(store, "s").unwrap();
    let passage = ledger::append_entry(store, "s", "narration", "visible", Some("scene"), &tree("{}"), None, Some(&turn_id)).unwrap();
    (turn_id, passage.id)
}

fn persist(store: &mut Store, staging: &TurnStaging) {
    let (turn_id, passage) = turn_with_passage(store);
    staging.commit(store, &passage, &turn_id, &clamp).unwrap();
}

fn persist_with(store: &mut Store, staging: &TurnStaging, noted: &Vec<Noted>) -> (String, String) {
    let (turn_id, passage) = turn_with_passage(store);
    notes::commit_with_notes(staging, noted, store, &passage, &turn_id, &clamp).unwrap();
    (turn_id, passage)
}

fn rolls(store: &Store) -> Vec<LedgerEntry> {
    ledger::list_logical_entries(store, "s").into_iter().filter(|e| e.kind == kind::DICEROLL).collect()
}

fn resolved(store: &mut Store, name: &str, entity_kind: &str) -> AttributeRegistryEntry {
    match registry::resolve_by_name(store, name, entity_kind, "s").unwrap() {
        ResolutionStep::Done(resolution) => tools::settle_attribute(store, resolution).unwrap(),
        other => panic!("{:?}", other),
    }
}

fn check_result(input: CheckInput) -> CheckOutput {
    let share = number(&input.actor.value) / number(&input.actor.max);
    CheckOutput {
        p_success: double(share),
        seed: 7,
        roll: 50,
        needed: (100.0 - 100.0 * share) as i64,
        outcome: "success".to_string(),
        degree: "partial".to_string(),
    }
}

#[test]
fn context_pipeline_builds_all_blocks_in_fixed_order() {
    let mut store = tables("s");
    store.stories[0].settings_json = "{\"author_note\":\"Keep it terse.\"}".to_string();
    entities::create_entity_with_id_sync(&mut store, "bob", "s", "character", "Bob", Some("a red cloak"), "test", None).unwrap();
    let query = append(&mut store, kind::ENTITY_QUERIED, "hidden", "Looked up: Bob", "{\"entity_ids\":[\"bob\"]}", None);
    let history = vec![HistoryTurn {
        entry_id: Some(query.id),
        is_player: false,
        content: "[Authoritative story event: entity_queried]\nLooked up: Bob".to_string(),
        marker: HistoryTurnMarker::Ledger,
    }];
    let on = NarratorToolSettings::default();
    let plan = context::build_message_context(&store, "s", &history, limits(), "preamble", "scoped", Some(&on), true).unwrap();
    assert!(plan.live.contains("- Bob (character); appearance: a red cloak"));
    let listed = plan.live.find("<entities>").unwrap();
    let note = plan.live.find("<author_note>").unwrap();
    let tools_position = plan.live.find("<additional_instructions>").unwrap();
    assert!(listed < note && note < tools_position);
    assert!(plan.live.contains(&context::tool_context(Some(&on), true)));
    assert!(plan.full.contains(&context::tool_context(Some(&on), true)));
    assert!(plan.full.contains("<entities>"));
}

#[test]
fn context_tool_instructions_name_only_available_tools() {
    let mut settings = NarratorToolSettings {
        get_entities: false,
        create_entity: false,
        update_entity: false,
        adjust_entity_attribute: false,
        roll_check: false,
        ..NarratorToolSettings::default()
    };
    assert_eq!(context::tool_context(Some(&settings), false), "");
    let image = context::tool_context(None, true);
    assert!(image.starts_with("<additional_instructions>\n"));
    assert!(image.contains("illustrate_scene"));
    assert!(!image.contains("roll_check"));
    assert!(!image.contains("get_entities"));

    settings.roll_check = true;
    let roll = context::tool_context(Some(&settings), false);
    assert!(roll.contains("roll_check"));
    assert!(!roll.contains("illustrate_scene"));
}

#[test]
fn scoped_context_details_touched_entities_and_lists_the_rest() {
    let mut store = tables("s");
    entities::create_entity_with_id_sync(&mut store, "bob", "s", "character", "Bob", Some("a red cloak"), "test", None).unwrap();
    entities::create_entity_with_id_sync(&mut store, "mill", "s", "location", "Old Mill", Some("a mossy waterwheel"), "test", None).unwrap();
    for (entity_id, value) in [("bob", 7.0), ("mill", 3.0)] {
        store.attributes.push(AttributeRow {
            story_id: "s".to_string(),
            entity_id: entity_id.to_string(),
            attribute_id: "trust".to_string(),
            value: double(value),
            source: "user".to_string(),
            updated_at: "now".to_string(),
            last_event_id: None,
        });
    }
    let query = append(&mut store, kind::ENTITY_QUERIED, "hidden", "Looked up: Bob", "{\"entity_ids\":[\"bob\"]}", None);
    let history = vec![HistoryTurn {
        entry_id: Some(query.id),
        is_player: false,
        content: "[Authoritative story event: entity_queried]\nLooked up: Bob".to_string(),
        marker: HistoryTurnMarker::Ledger,
    }];
    let plan = entity_context::build_entity_context(&store, "s", &history, limits(), "You tell the story.", "scoped");
    let live = plan.live_context.unwrap();
    assert!(live.contains("- Bob (character); appearance: a red cloak; attributes: Trust=7"));
    assert!(live.contains("- Old Mill (location)"));
    assert!(!live.contains("Old Mill (location); appearance:"));
    assert!(plan.full_context.unwrap().contains("Old Mill (location); appearance: a mossy waterwheel; attributes: Trust=3"));

    let none = entity_context::build_entity_context(&store, "s", &history, limits(), "You tell the story.", "none");
    assert_eq!((none.live_context, none.full_context), (None, None));
}

#[test]
fn history_newest_summary_replaces_covered_prefix_and_keeps_later_events() {
    let rows = vec![
        row("p1", 0, kind::PLAYER_MESSAGE, Some("old action"), "{\"input_mode\":\"do\"}"),
        row("n1", 1, kind::NARRATION, Some("old narration"), "{\"input_mode\":\"generated\"}"),
        row("sum", 2, kind::CONTEXT_SUMMARY, Some("The archive was entered."), "{\"through_entry_id\":\"n1\"}"),
        row("mechanic", 3, MECHANICAL_RESULT, Some("Stealth succeeded."), "{}"),
        row("p2", 4, kind::PLAYER_MESSAGE, Some("I take the key."), "{\"input_mode\":\"do\"}"),
    ];
    let turns = history::history_from_entries(&rows);
    assert_eq!(turns.len(), 3);
    assert!(turns[0].content.contains("The archive was entered."));
    assert!(turns[1].content.contains("Stealth succeeded."));
    assert_eq!(turns[2].content, "I take the key.");
    assert!(!turns.iter().any(|turn| turn.content.contains("old narration")));
}

#[test]
fn history_invalid_summary_boundary_is_ignored() {
    let rows = vec![
        row("p1", 0, kind::PLAYER_MESSAGE, Some("keep me"), "{\"input_mode\":\"do\"}"),
        row("sum", 1, kind::CONTEXT_SUMMARY, Some("bad summary"), "{\"through_entry_id\":\"missing\"}"),
    ];
    let turns = history::history_from_entries(&rows);
    assert_eq!(turns.len(), 1);
    assert_eq!(turns[0].content, "keep me");
}

#[test]
fn note_round_trips_through_story_settings_and_can_be_muted() {
    let mut store = tables("s");
    author_note::write_author_note(&mut store, "s", "  Keep it terse.  ").unwrap();
    assert_eq!(author_note::read_author_note(&store, "s").unwrap(), "Keep it terse.");
    assert_eq!(author_note::context_block(&store, "s").unwrap(), "<author_note>Keep it terse.</author_note>");

    author_note::write_author_note_enabled(&mut store, "s", false).unwrap();
    assert!(!author_note::read_author_note_enabled(&store, "s").unwrap());
    assert_eq!(author_note::context_block(&store, "s").unwrap(), "");

    author_note::write_author_note_enabled(&mut store, "s", true).unwrap();
    author_note::write_author_note(&mut store, "s", "   ").unwrap();
    assert_eq!(author_note::read_author_note(&store, "s").unwrap(), "");
    assert_eq!(author_note::context_block(&store, "s").unwrap(), "");
    let settings = stories::read_settings(&store, "s").unwrap();
    assert!(settings.get("author_note").is_none());
    let latest = store
        .entries
        .iter()
        .filter(|e| e.story_id == "s" && e.kind == "context_note_updated")
        .max_by_key(|e| e.seq)
        .unwrap();
    assert_eq!(latest.payload.str_field("author_note"), Some(""));
    assert!(matches!(author_note::read_author_note(&store, "other"), Err(AppError::NotFound(_))));
}

#[test]
fn image_tools_include_only_illustration_when_enabled() {
    let enabled = commands::narrator_image_tools(true);
    let disabled = commands::narrator_image_tools(false);
    assert_eq!(enabled.len(), 1);
    assert_eq!(enabled[0], "illustrate_scene");
    assert!(disabled.is_empty());
}

fn retry_fixture() -> (Store, String, String) {
    let mut store = tables("s");
    entities::create_entity_with_id_sync(&mut store, "mira", "s", "character", "Mira", Some("old cloak"), "test", None).unwrap();
    entities::create_entity_with_id_sync(&mut store, "you", "s", "character", "You", None, "test", None).unwrap();
    let action = messages::insert_story_entry(&mut store, "s", "player", "do", "Open the door", None, None).unwrap();
    let reply = messages::insert_story_entry(&mut store, "s", "narrator", "generated", "Original", None, None).unwrap();
    entities::update_entity_sync(&mut store, "s", "mira", "Mira Changed", Some("new cloak"), "narrator_tool", Some(&reply.id)).unwrap();
    append(
        &mut store,
        kind::DICEROLL,
        "hidden",
        "Old roll",
        "{\"roll\":99,\"chance_percent\":50,\"seed\":123,\"outcome\":\"success\"}",
        Some(&reply.id),
    );
    (store, action.id, reply.id)
}

fn replace(store: &mut Store, snapshot: &retry::RetrySnapshot, reply: &str, visible: &str, staging: Option<&TurnStaging>) -> Result<(LedgerEntry, Vec<String>), AppError> {
    let turn_id = "turn".to_string();
    retry::replace_narration_entry(store, snapshot, "s", reply, visible, None, staging, &turn_id, "later", &clamp)
}

#[test]
fn retry_snapshot_reads_pre_turn_state_without_damaging_live_reply() {
    let (store, action, reply) = retry_fixture();
    let snapshot = retry::snapshot_for_retry(&store, "s", &reply, "later").unwrap();
    assert_eq!(name_of(&snapshot.scratch, "mira"), "Mira");
    assert_eq!(messages::get_last_story_entry(&snapshot.scratch, "s").unwrap().id, action);
    assert!(!ledger::list_logical_entries(&snapshot.scratch, "s").iter().any(|e| e.kind == kind::DICEROLL));
    let turns = history::load_history(&snapshot.scratch, "s", None);
    assert_eq!(turns.last().and_then(|turn| turn.entry_id.as_deref()), Some(action.as_str()));
    assert!(!turns.iter().any(|turn| turn.content.contains("Original") || turn.content.contains("Old roll")));
    assert_eq!(messages::get_last_story_entry(&store, "s").unwrap().id, reply);
    assert_eq!(name_of(&store, "mira"), "Mira Changed");
}

#[test]
fn migrated_player_bootstrap_after_reply_does_not_block_retry() {
    let (mut store, action, reply) = retry_fixture();
    append(
        &mut store,
        kind::ENTITY_CREATED,
        "hidden",
        "You was added as a character.",
        "{\"entity_id\":\"you\",\"name\":\"You\",\"source\":\"story_bootstrap\"}",
        None,
    );
    let snapshot = retry::snapshot_for_retry(&store, "s", &reply, "later").unwrap();
    let turns = dungeon::narrator::transcript::load_transcript(&snapshot.scratch, "s");
    assert_eq!(turns.last().and_then(|turn| turn.entry_id.as_deref()), Some(action.as_str()));
}

#[test]
fn retry_replays_you_creation_without_losing_canonical_player() {
    let (mut store, _, reply) = retry_fixture();
    let trust = registry::find_attribute_by_id(&store, "trust").unwrap();
    attributes::apply_attribute_delta(&mut store, "s", "you", &trust, &double(2.0), "original reply", &reply, false, None, &clamp).unwrap();
    let snapshot = retry::snapshot_for_retry(&store, "s", &reply, "later").unwrap();
    assert!(entities::list_entities_sync(&snapshot.scratch, "s", None).iter().any(|e| e.id == "you" && e.name == "You"));
    assert_eq!(snapshot.scratch.attributes.iter().filter(|a| a.story_id == "s" && a.entity_id == "you").count(), 0);
    replace(&mut store, &snapshot, &reply, "New", None).unwrap();
    assert!(entities::list_entities_sync(&store, "s", None).iter().any(|e| e.id == "you" && e.name == "You"));
    assert_eq!(store.attributes.iter().filter(|a| a.story_id == "s" && a.entity_id == "you").count(), 0);
}

#[test]
fn replacement_removes_old_roll_and_effects_but_keeps_action() {
    let (mut store, action, reply) = retry_fixture();
    store.images.push(image("old-image", &reply, "old-image.png"));
    let snapshot = retry::snapshot_for_retry(&store, "s", &reply, "later").unwrap();
    let (new_reply, paths) = replace(&mut store, &snapshot, &reply, "New outcome", None).unwrap();
    assert_eq!(paths, vec!["old-image.png"]);
    assert_ne!(new_reply.id, reply);
    let entries = ledger::list_logical_entries(&store, "s");
    assert!(entries.iter().any(|e| e.id == action));
    assert!(!entries.iter().any(|e| e.id == reply || e.kind == kind::DICEROLL));
    assert_eq!(new_reply.content.as_deref(), Some("New outcome"));
    assert_eq!(name_of(&store, "mira"), "Mira");
    assert_eq!(store.images.len(), 0);
}

#[test]
fn retry_can_stage_fresh_roll_and_entity_changes_against_pre_turn_world() {
    let (mut store, _, reply) = retry_fixture();
    let snapshot = retry::snapshot_for_retry(&store, "s", &reply, "later").unwrap();
    let mut staging = TurnStaging::new("s");
    let mut notes: Vec<Noted> = Vec::new();
    let found = staged::get_entities(&staging, &snapshot.scratch, &mut notes, &tree("{\"name\":\"Mira\"}"), false, &clamp);
    assert_eq!(item(found.get("entities").unwrap(), 0).str_field("name"), Some("Mira"));
    let request = dice::roll_request(&tree("{\"chance_percent\":100,\"reason\":\"retry\"}")).unwrap();
    let roll = staging.stage_roll(request.chance_percent.unwrap(), request.reason, "narrator", Vec::<RollFactor>::new());
    assert_eq!(roll.outcome, "success");
    staged::update_entity(&mut staging, &snapshot.scratch, &tree("{\"id\":\"mira\", \"name\":\"Mira Retried\"}")).unwrap();
    staged::create_entity(&mut staging, &snapshot.scratch, &tree("{\"kind\":\"location\", \"name\":\"New chamber\"}")).unwrap();
    let (entry, _) = replace(&mut store, &snapshot, &reply, "Retried", Some(&staging)).unwrap();
    let entries = ledger::list_logical_entries(&store, "s");
    let rolls: Vec<&LedgerEntry> = entries.iter().filter(|e| e.kind == kind::DICEROLL).collect();
    assert_eq!(rolls.len(), 1);
    assert_eq!(rolls[0].target_entry_id.as_deref(), Some(entry.id.as_str()));
    assert_eq!(rolls[0].payload.int_field("chance_percent"), Some(100));
    assert_eq!(name_of(&store, "mira"), "Mira Retried");
    assert!(entities::list_entities_sync(&store, "s", None).iter().any(|e| e.name == "New chamber"));
}

fn aethercraft(id: &str) -> AttributeRegistryEntry {
    let mut made = attribute(id, "Aethercraft", 0.0, 10.0);
    made.category = "user".to_string();
    made.is_user_created = true;
    made.created_in_story_id = Some("s".to_string());
    made
}

#[test]
fn scratch_registry_changes_commit_only_with_a_successful_replacement() {
    let (mut store, _, reply) = retry_fixture();
    let mut snapshot = retry::snapshot_for_retry(&store, "s", &reply, "later").unwrap();
    registry::add_alias(&mut snapshot.scratch, "trust", "Confidence").unwrap();
    snapshot.scratch.registry.push(aethercraft("new-attribute"));
    assert!(!registry::find_attribute_by_id(&store, "trust").unwrap().aliases_json.contains("Confidence"));
    assert_eq!(store.registry.iter().filter(|a| a.canonical_name == "Aethercraft").count(), 0);
    replace(&mut store, &snapshot, &reply, "New", None).unwrap();
    assert!(registry::find_attribute_by_id(&store, "trust").unwrap().aliases_json.contains("Confidence"));
    assert_eq!(store.registry.iter().find(|a| a.canonical_name == "Aethercraft").unwrap().id, "new-attribute");
}

#[test]
fn registry_collision_rolls_back_reply_removal_and_entity_replay() {
    let (mut store, _, reply) = retry_fixture();
    let mut snapshot = retry::snapshot_for_retry(&store, "s", &reply, "later").unwrap();
    snapshot.scratch.registry.push(aethercraft("scratch-id"));
    store.registry.push(aethercraft("live-id"));
    assert!(replace(&mut store, &snapshot, &reply, "New", None).is_err());
    assert_eq!(messages::get_last_story_entry(&store, "s").unwrap().id, reply);
    assert!(ledger::list_logical_entries(&store, "s").iter().any(|e| e.kind == kind::DICEROLL));
    assert_eq!(name_of(&store, "mira"), "Mira Changed");
}

#[test]
fn empty_generation_and_concurrent_edit_preserve_original_and_roll() {
    let (mut store, action, reply) = retry_fixture();
    let snapshot = retry::snapshot_for_retry(&store, "s", &reply, "later").unwrap();
    assert_eq!(
        replace(&mut store, &snapshot, &reply, " ", None).unwrap_err(),
        AppError::Invalid("retry generated no narration; original was preserved".to_string())
    );
    append(&mut store, kind::CONTENT_EDITED, "hidden", "Player edited while retry ran", "{\"reason\":\"user_edit\"}", Some(&action));
    assert_eq!(
        replace(&mut store, &snapshot, &reply, "New", None).unwrap_err(),
        AppError::Invalid("story changed during retry; original narration was preserved".to_string())
    );
    let entries = ledger::list_logical_entries(&store, "s");
    assert!(entries.iter().any(|e| e.id == reply && e.content.as_deref() == Some("Original")));
    assert!(entries.iter().any(|e| e.kind == kind::DICEROLL));
    assert_eq!(name_of(&store, "mira"), "Mira Changed");
}

#[test]
fn changed_story_settings_reject_retry_even_when_timestamp_is_unchanged() {
    let (mut store, _, reply) = retry_fixture();
    let snapshot = retry::snapshot_for_retry(&store, "s", &reply, "later").unwrap();
    store.stories[0].settings_json = "{\"author_note\":\"new guidance\"}".to_string();
    assert!(replace(&mut store, &snapshot, &reply, "New", None).is_err());
    assert_eq!(messages::get_last_story_entry(&store, "s").unwrap().id, reply);
    assert!(ledger::list_logical_entries(&store, "s").iter().any(|e| e.kind == kind::DICEROLL));
}

#[test]
fn erase_removes_the_action_and_generated_response_for_every_mode() {
    for mode in ["do", "say", "story", "guide", "continue", "see"] {
        let mut store = tables("s");
        let content = if mode == "continue" || mode == "see" { "" } else { "action" };
        let action = append(&mut store, kind::PLAYER_MESSAGE, "visible", content, &format!("{{\"input_mode\":\"{}\"}}", mode), None);
        let response = append(&mut store, kind::NARRATION, "visible", "response", "{\"input_mode\":\"generated\"}", None);
        let (removed, _) = rewind::erase_last_exchange(&mut store, "s").unwrap();
        assert_eq!(removed, vec![response.id, action.id], "mode {}", mode);
    }
}

#[test]
fn erase_trailing_see_removes_its_image_from_the_prior_narration() {
    let mut store = tables("s");
    let narration = append(&mut store, kind::NARRATION, "visible", "A moonlit harbor.", "{\"input_mode\":\"generated\"}", None);
    let see = append(&mut store, kind::PLAYER_MESSAGE, "visible", "", "{\"input_mode\":\"see\"}", None);
    store.images.push(image("image", &narration.id, "C:/tmp/see.png"));
    let image_event = append(&mut store, kind::IMAGE_GENERATED, "hidden", "image", "{\"asset_id\":\"image\"}", Some(&see.id));
    let (removed, paths) = rewind::erase_last_exchange(&mut store, "s").unwrap();
    assert_eq!(removed, vec![see.id]);
    assert_eq!(paths, vec!["C:/tmp/see.png"]);
    assert_eq!(store.images.len(), 0);
    assert_eq!(store.entries.iter().filter(|e| e.id == image_event.id).count(), 0);
    assert_eq!(store.entries.iter().filter(|e| e.id == narration.id).count(), 1);
}

fn state<'a>(store: &'a Store, entity_id: &str) -> Option<&'a StateRow> {
    store.states.iter().find(|s| s.story_id == "s" && s.entity_id == entity_id)
}

#[test]
fn hard_erase_removes_exchange_derivatives_summaries_and_projections() {
    let mut store = tables("s");
    let baseline = append(&mut store, kind::NARRATION, "visible", "Earlier scene", "{\"input_mode\":\"generated\"}", None);
    entities::create_entity_with_id_sync(&mut store, "mira", "s", "character", "Mira", Some("silver hair"), "test", None).unwrap();
    entities::create_entity_with_id_sync(&mut store, "unrelated", "s", "character", "Tomas", None, "test", None).unwrap();
    let trust = registry::find_attribute_by_id(&store, "trust").unwrap();
    attributes::apply_attribute_delta(&mut store, "s", "mira", &trust, &double(2.0), "earlier event", &baseline.id, false, None, &clamp).unwrap();
    let mira_last_event_id = state(&store, "mira").unwrap().last_event_id.clone();
    let attribute_last_event_id = store.attributes.iter().find(|a| a.entity_id == "mira").unwrap().last_event_id.clone();
    let unrelated_projection = state(&store, "unrelated").unwrap().copy();
    let covered = format!("{{\"through_entry_id\":\"{}\"}}", baseline.id);
    let older_summary = append(&mut store, kind::CONTEXT_SUMMARY, "hidden", "older summary", &covered, None);

    let player = append(&mut store, kind::PLAYER_MESSAGE, "visible", "act", "{\"input_mode\":\"do\"}", None);
    let narration = append(&mut store, kind::NARRATION, "visible", "result", "{\"input_mode\":\"generated\"}", None);
    entities::update_entity_sync(&mut store, "s", "mira", "Mira Changed", Some("black armor"), "narrator_tool", Some(&narration.id)).unwrap();
    attributes::apply_attribute_delta(&mut store, "s", "mira", &trust, &double(3.0), "latest event", &narration.id, false, None, &clamp).unwrap();
    entities::create_entity_with_id_sync(&mut store, "temporary", "s", "character", "Temporary", None, "narrator_tool", Some(&narration.id)).unwrap();
    let query = append(&mut store, kind::ENTITY_QUERIED, "hidden", "Looked up Mira", "{\"entity_ids\":[\"mira\"]}", Some(&narration.id));
    for event_kind in [kind::DICEROLL, kind::CONTENT_EDITED, kind::IMAGE_GENERATED] {
        append(&mut store, event_kind, "hidden", "derivative", "{}", Some(&narration.id));
    }
    let doomed = format!("{{\"through_entry_id\":\"{}\"}}", query.id);
    let doomed_summary = append(&mut store, kind::CONTEXT_SUMMARY, "hidden", "summary", &doomed, None);
    store.images.push(image("image", &narration.id, "C:/tmp/image.png"));

    let (removed, paths) = rewind::erase_last_exchange(&mut store, "s").unwrap();
    assert_eq!(removed, vec![narration.id, player.id]);
    assert_eq!(paths, vec!["C:/tmp/image.png"]);
    assert_eq!(store.entries.iter().filter(|e| e.id == doomed_summary.id).count(), 0);
    assert_eq!(store.entries.iter().filter(|e| e.id == older_summary.id).count(), 1);
    let mira = state(&store, "mira").unwrap();
    assert_eq!(mira.name, "Mira");
    assert_eq!(mira.appearance_anchor.as_deref(), Some("silver hair"));
    assert_eq!(mira.last_event_id, mira_last_event_id);
    let restored = store.attributes.iter().find(|a| a.entity_id == "mira" && a.attribute_id == "trust").unwrap();
    assert_eq!(number(&restored.value), 2.0);
    assert_eq!(restored.source, "inferred");
    assert_eq!(restored.last_event_id, attribute_last_event_id);
    assert!(state(&store, "temporary").is_none());
    assert_eq!(state(&store, "unrelated").unwrap(), &unrelated_projection);
    assert_eq!(store.entities.iter().filter(|e| e.id == "temporary").count(), 1);
    assert_eq!(store.images.len(), 0);
}

#[test]
fn erasing_an_empty_story_removes_nothing() {
    let mut store = tables("s");
    assert_eq!(rewind::erase_last_exchange(&mut store, "s").unwrap(), (Vec::new(), Vec::new()));
}

#[test]
fn an_edited_message_reads_as_changed() {
    let (mut store, action, _) = retry_fixture();
    let (edited, _) = edit::edit_ledger_entry(&mut store, &action, " Close the door ").unwrap();
    assert_eq!(edited.id, action);
    assert_eq!(edited.content.as_deref(), Some("Close the door"));
    assert!(edit::edit_ledger_entry(&mut store, &action, "  ").is_err());
    assert!(matches!(edit::edit_ledger_entry(&mut store, "missing", "text"), Err(AppError::NotFound(_))));
}

#[test]
fn an_action_needs_words_and_a_known_mode() {
    let mut store = tables("s");
    let turn = commands::submit_turn(&mut store, "s", "do", " open the door ", None).unwrap();
    assert_eq!(turn.entry.content.as_deref(), Some("open the door"));
    assert_eq!(turn.entry.payload.str_field("input_mode"), Some("do"));
    assert!(commands::submit_turn(&mut store, "s", "do", "   ", None).is_err());
    assert!(commands::submit_turn(&mut store, "s", "dance", "around", None).is_err());
}

fn images_on(on: bool) -> ImageModelSettings {
    ImageModelSettings {
        enabled: on,
        model: "m".to_string(),
        resolution: String::new(),
        has_api_key: true,
        style: String::new(),
    }
}

#[test]
fn seeing_draws_the_last_scene_and_telling_needs_words() {
    let (store, _, reply) = retry_fixture();
    let on = NarratorToolSettings::default();
    let plan = commands::plan_action(&store, "s", "see", &on, &images_on(true), "").unwrap();
    assert!(plan.is_see);
    assert_eq!(plan.scene, Some((reply.clone(), "Original".to_string())));
    let request = ImageRequest { description: "a door".to_string(), character_ids: Vec::new() };
    let ending = commands::end_action(&plan, "", vec![request]).unwrap();
    assert_eq!(
        ending,
        Ending::Illustrate {
            scene_id: reply,
            scene: "Original".to_string(),
            request: ImageRequest { description: "a door".to_string(), character_ids: Vec::new() },
        }
    );
    assert!(commands::end_action(&plan, "", Vec::new()).is_err());
    let told = commands::plan_action(&store, "s", "do", &on, &images_on(false), "high").unwrap();
    assert_eq!(commands::end_action(&told, "", Vec::new()).unwrap(), Ending::Nothing);
    assert_eq!(commands::end_action(&told, "It opens.", Vec::new()).unwrap(), Ending::Tell { requests: Vec::new() });
}

#[test]
fn only_the_last_message_of_the_narrator_is_told_anew() {
    let (store, action, reply) = retry_fixture();
    let (_, asked) = commands::retry_narration(&store, "s", &reply).unwrap();
    assert_eq!(asked.entry_id, reply);
    assert!(commands::plan_retry(&store, "s", &action).is_err());
    assert!(commands::plan_retry(&store, "other", &reply).is_err());
}

fn model() -> Preferences {
    let mut preferences = Preferences::new();
    preferences.save_text_model_settings("openrouter", "writer", Some("key"));
    preferences
}

fn begin(store: &Store, preferences: &Preferences, story_id: &str, entry_id: &str, effort: &str) -> Result<replacement::ReplacementPlan, AppError> {
    let on = NarratorToolSettings::default();
    replacement::start_replacement_generation(store, preferences, story_id, entry_id, "later", &on, &images_on(true), effort)
}

#[test]
fn a_replacement_is_refused_in_order() {
    let (mut store, action, reply) = retry_fixture();
    assert_eq!(begin(&store, &model(), "other", &reply, ""), Err(AppError::Invalid(retry::NOTHING_TO_RETRY.to_string())));
    assert_eq!(begin(&store, &model(), "s", &action, ""), Err(AppError::Invalid(retry::ONLY_LATEST.to_string())));
    assert_eq!(
        begin(&store, &Preferences::new(), "s", &reply, ""),
        Err(AppError::Invalid(passages::NO_MODEL.to_string()))
    );
    let next = messages::insert_story_entry(&mut store, "s", "player", "do", "Step in", None, None).unwrap();
    assert_eq!(
        begin(&store, &model(), "s", &next.id, ""),
        Err(AppError::Invalid("only a narration entry can be retried".to_string()))
    );
}

#[test]
fn a_replacement_is_told_from_what_came_before_the_message() {
    let (store, action, reply) = retry_fixture();
    let plan = begin(&store, &model(), "s", &reply, "high").unwrap();
    assert_eq!(plan.history.last().and_then(|turn| turn.entry_id.as_deref()), Some(action.as_str()));
    assert_eq!(name_of(&plan.snapshot.scratch, "mira"), "Mira");
    assert_eq!((plan.model.model.as_str(), plan.model.api_key.as_str()), ("writer", "key"));
    assert!(plan.image_enabled && plan.with_world);
    assert_eq!(plan.reasoning_effort.as_deref(), Some("high"));
    assert_eq!(begin(&store, &model(), "s", &reply, "").unwrap().reasoning_effort, None);
    assert_eq!(messages::get_last_story_entry(&store, "s").unwrap().id, reply);
}

fn told_messages(store: &Store) -> Vec<LedgerEntry> {
    ledger::list_logical_entries(store, "s")
        .into_iter()
        .filter(|e| e.kind == kind::PLAYER_MESSAGE || e.kind == kind::NARRATION)
        .collect()
}

#[test]
fn a_replacement_is_the_last_message_and_the_others_stay() {
    let (mut store, action, reply) = retry_fixture();
    let earlier = told_messages(&store);
    let snapshot = retry::snapshot_for_retry(&store, "s", &reply, "later").unwrap();
    let (told, _) = replace(&mut store, &snapshot, &reply, "New outcome", None).unwrap();
    let after = told_messages(&store);
    assert_eq!(after.len(), earlier.len());
    assert_eq!(after[0], earlier[0]);
    assert_eq!(after[0].id, action);
    let last = after.last().unwrap();
    assert_eq!((last.id.as_str(), last.content.as_deref()), (told.id.as_str(), Some("New outcome")));
    assert_eq!(
        replace(&mut store, &snapshot, &reply, "Again", None).map(|_| ()),
        Err(AppError::Invalid(retry::STORY_CHANGED.to_string()))
    );
}

#[test]
fn nothing_is_left_of_what_a_replaced_message_did() {
    let (mut store, _, reply) = retry_fixture();
    let trust = registry::find_attribute_by_id(&store, "trust").unwrap();
    attributes::apply_attribute_delta(&mut store, "s", "mira", &trust, &double(2.0), "old", &reply, false, None, &clamp).unwrap();
    let snapshot = retry::snapshot_for_retry(&store, "s", &reply, "later").unwrap();
    let mut staging = TurnStaging::new("s");
    staging.pending.push(PendingOp::AdjustAttribute {
        entity_id: "mira".to_string(),
        attribute: trust.copy(),
        delta: double(-1.0),
        cause: "new".to_string(),
        dramatic: false,
    });
    replace(&mut store, &snapshot, &reply, "New outcome", Some(&staging)).unwrap();
    let held = |id: &Option<String>| match id {
        Some(id) => store.entries.iter().any(|e| &e.id == id),
        None => true,
    };
    assert!(store.states.iter().all(|row| held(&row.last_event_id)));
    assert!(store.attributes.iter().all(|row| held(&row.last_event_id)));
    assert_eq!(name_of(&store, "mira"), "Mira");
    let values: Vec<f64> = store.attributes.iter().filter(|a| a.entity_id == "mira").map(|a| number(&a.value)).collect();
    assert_eq!(values, vec![-1.0]);
}

#[test]
fn never_dice_mode_omits_only_the_roll_tool() {
    assert_eq!(
        tools::narrator_portable_tools(DiceMode::Never),
        vec!["get_entities", "create_entity", "update_entity", "adjust_entity_attribute"]
    );
    assert_eq!(tools::narrator_portable_tools(DiceMode::Classifier)[0], "roll_check");
}

#[test]
fn tools_staged_entity_is_visible_before_commit_and_not_duplicated() {
    let store = tables("s");
    let mut staging = TurnStaging::new("s");
    let (created, was_new) = staging.resolve_or_stage_entity(&store, "character", "Mira", Some("silver hair"));
    assert!(was_new);
    assert!(staging.find_effective_entity(&store, &created.id).is_some());
    let (found, was_new_again) = staging.resolve_or_stage_entity(&store, "character", "mira", None);
    assert!(!was_new_again);
    assert_eq!(found.id, created.id);
    assert_eq!(staging.pending.len(), 1);
}

#[test]
fn tools_staged_attribute_delta_folds_onto_the_registry_midpoint() {
    let store = tables("s");
    let trust = registry::find_attribute_by_id(&store, "trust").unwrap();
    let mut staging = TurnStaging::new("s");
    let (entity, _) = staging.resolve_or_stage_entity(&store, "character", "Mira", None);
    let midpoint = (number(&trust.min) + number(&trust.max)) / 2.0;
    assert_eq!(number(&staging.effective_attribute_state(&store, &entity.id, &trust, &clamp).0), midpoint);
    staging.pending.push(PendingOp::AdjustAttribute {
        entity_id: entity.id.clone(),
        attribute: trust.copy(),
        delta: double(2.0),
        cause: "test".to_string(),
        dramatic: false,
    });
    assert_eq!(number(&staging.effective_attribute_state(&store, &entity.id, &trust, &clamp).0), midpoint + 2.0);
}

#[test]
fn newly_minted_attributes_are_resolved_and_reused_immediately() {
    let mut store = tables("s");
    let first = resolved(&mut store, "Resonance", "artifact");
    let second = resolved(&mut store, "resonance", "artifact");
    assert_eq!(first.id, second.id);
    assert_eq!(store.registry.iter().filter(|a| a.id == first.id).count(), 1);
}

#[test]
fn tools_commit_applies_every_staged_op_atomically() {
    let mut store = tables("s");
    let trust = registry::find_attribute_by_id(&store, "trust").unwrap();
    let mut staging = TurnStaging::new("s");
    let (entity, _) = staging.resolve_or_stage_entity(&store, "character", "Mira", Some("silver hair"));
    staging.pending.push(PendingOp::AdjustAttribute {
        entity_id: entity.id.clone(),
        attribute: trust.copy(),
        delta: double(3.0),
        cause: "test".to_string(),
        dramatic: false,
    });
    persist(&mut store, &staging);
    assert_eq!(state(&store, &entity.id).unwrap().name, "Mira");
    let value = store.attributes.iter().find(|a| a.entity_id == entity.id && a.attribute_id == "trust").unwrap();
    assert_eq!(number(&value.value), (number(&trust.min) + number(&trust.max)) / 2.0 + 3.0);
}

#[test]
fn query_entities_commit_writes_entity_ids_to_the_timeline() {
    let mut store = tables("s");
    let mut staging = TurnStaging::new("s");
    let (bob, _) = staging.resolve_or_stage_entity(&store, "character", "Bob", Some("a weathered coat"));
    let (turn_id, passage) = turn_with_passage(&mut store);
    let mut noted: Vec<Noted> = Vec::new();
    let args = tree("{\"kind\": \"character\", \"name\": \"Bob\"}");
    staged::get_entities(&staging, &store, &mut noted, &args, true, &clamp);
    notes::commit_with_notes(&staging, &noted, &mut store, &passage, &turn_id, &clamp).unwrap();
    let query = store.entries.iter().find(|e| e.kind == kind::ENTITY_QUERIED).unwrap();
    assert_eq!(query.content.as_deref(), Some("Looked up: Bob"));
    assert_eq!(query.payload.texts_field("entity_ids"), Some(vec![bob.id]));
    assert_eq!(query.payload.str_field("kind_filter"), Some("character"));
    assert_eq!(query.payload.str_field("name_filter"), Some("Bob"));
    assert_eq!(query.target_entry_id, Some(passage));
}

#[test]
fn friendly_labels_describe_each_tool_and_degrade_safely() {
    assert_eq!(tools::friendly_tool_label("roll_check", "{\"attribute\":\"Stealth\"}"), "Rolling for Stealth…");
    assert_eq!(tools::friendly_tool_label("get_entities", "{}"), "Checking who's here…");
    assert_eq!(tools::friendly_tool_label("create_entity", "{\"name\":\"Mira\"}"), "Introducing Mira…");
    assert_eq!(tools::friendly_tool_label("adjust_entity_attribute", "{\"attribute\":\"Trust\"}"), "Adjusting Trust…");
    assert_eq!(tools::friendly_tool_label("illustrate_scene", "{}"), "Sketching the scene…");
    assert_eq!(tools::friendly_tool_label("roll_check", "{}"), "Rolling for a check…");
    assert_eq!(tools::friendly_tool_label("roll_check", "not json"), "Rolling for a check…");
    assert_eq!(tools::friendly_tool_label("mystery_tool", "{}"), "Running mystery_tool…");
}

#[test]
fn staged_tools_are_idempotent_by_name_and_overlay_renames() {
    let store = tables("s");
    let mut staging = TurnStaging::new("s");
    let first = staged::create_entity(
        &mut staging,
        &store,
        &tree("{\"kind\": \"character\", \"name\": \"Mira\", \"appearance_anchor\": \"silver hair\"}"),
    )
    .unwrap();
    assert_eq!(first.bool_field("created"), Some(true));
    let second = staged::create_entity(&mut staging, &store, &tree("{\"kind\": \"character\", \"name\": \"mira\"}")).unwrap();
    assert_eq!(second.bool_field("created"), Some(false));
    assert_eq!(second.get("id"), first.get("id"));
    assert_eq!(staging.pending.len(), 1);
    assert_eq!(
        staged::create_entity(&mut staging, &store, &tree("{\"kind\": \"character\", \"name\": \"   \"}")).unwrap_err(),
        ToolError::InvalidArgs("name is required".to_string())
    );
    assert_eq!(
        staged::update_entity(&mut staging, &store, &tree("{\"id\":\"does-not-exist\",\"name\":\"Nobody\"}")).unwrap_err(),
        ToolError::InvalidArgs("no such entity: does-not-exist".to_string())
    );
    let id = first.str_field("id").unwrap().to_string();
    staged::update_entity(&mut staging, &store, &tree(&format!("{{\"id\":\"{}\",\"name\":\"Mira the Bold\"}}", id))).unwrap();
    assert_eq!(staging.find_effective_entity(&store, &id).unwrap().name, "Mira the Bold");
}

#[test]
fn staged_changes_of_attributes_are_previewed_and_honor_the_player() {
    let mut store = tables("s");
    entities::create_entity_with_id_sync(&mut store, "mira", "s", "character", "Mira", None, "test", None).unwrap();
    let mut staging = TurnStaging::new("s");
    assert_eq!(
        staged::begin_adjustment(&staging, &store, &tree("{\"entity_id\":\"ghost\",\"attribute\":\"Stealth\",\"delta\":1}")).unwrap_err(),
        ToolError::InvalidArgs("no such entity: ghost".to_string())
    );
    let args = tree("{\"entity_id\":\"mira\",\"attribute\":\"Stealth\",\"delta\":9,\"reason\":\"sneaking\"}");
    let (asked, entity, step) = staged::begin_adjustment(&staging, &store, &args).unwrap();
    let resolution = match step {
        ResolutionStep::Done(resolution) => resolution,
        other => panic!("{:?}", other),
    };
    let told = staged::finish_adjustment(&mut staging, &mut store, &entity, &asked, resolution, &clamp).unwrap();
    assert_eq!(told, tree("{\"before\":5.0,\"after\":8.0,\"applied\":true}"));
    attributes::set_entity_attribute_sync(&mut store, "s", "mira", "stealth", &double(7.0)).unwrap();
    let known = AttributeResolution::Existing(registry::find_attribute_by_id(&store, "stealth").unwrap());
    let locked = staged::finish_adjustment(&mut staging, &mut store, &entity, &asked, known, &clamp).unwrap();
    assert_eq!(
        locked,
        tree("{\"before\":7.0,\"after\":7.0,\"applied\":false,\"reason\":\"locked to a player-set value\"}")
    );
}

#[test]
fn roll_check_tool_stages_a_player_roll_against_a_target() {
    let mut store = tables("s");
    store.registry.push(attribute("perception", "Perception", 0.0, 10.0));
    let mut staging = TurnStaging::new("s");
    let mut notes: Vec<Noted> = Vec::new();
    let (ghoul, _) = staging.resolve_or_stage_entity(&store, "character", "Ghoul", None);
    let args = tree(&format!(
        "{{\"attribute\":\"Stealth\",\"target_entity_id\":\"{}\",\"target_attribute\":\"Perception\",\"modifier\":0.1}}",
        ghoul.id
    ));
    let start = staged::begin_check(&mut staging, &store, &args).unwrap();
    assert_eq!(start.opposed(), Some(("character", "Perception")));
    let stealth = resolved(&mut store, "Stealth", "character");
    let perception = resolved(&mut store, "Perception", "character");
    let out = staged::finish_check(&staging, &store, &mut notes, &start, &stealth, Some(&perception), &clamp, &check_result);
    let player = staging.effective_entities(&store, Some("character"), Some("You"));
    match &notes[0].note {
        Note::Check(check) => {
            assert_eq!(check.actor_entity_id, player[0].id);
            assert_eq!(check.target_entity_id.as_deref(), Some(ghoul.id.as_str()));
            assert_eq!(number(&check.actor_value), 5.0);
            assert_eq!(number(check.target_value.as_ref().unwrap()), 5.0);
            assert_eq!(number(&check.modifier), 0.1);
        }
        other => panic!("{:?}", other),
    }
    assert_eq!(out.int_field("roll"), Some(50));
    assert_eq!(out.int_field("needed"), Some(50));
    assert_eq!(out.str_field("outcome"), Some("success"));
    persist_with(&mut store, &staging, &notes);
    let roll = rolls(&store).pop().unwrap();
    assert_eq!(roll.visibility, "hidden");
    assert_eq!(number(&roll.payload.get("modifiers").unwrap().double_field("situational").unwrap()), 0.1);
    let told = dicerolls::parse_roll(&roll).unwrap();
    assert_eq!(told.actor_entity_id, player[0].id);
    assert_eq!(told.actor_attribute_id.as_deref(), Some("stealth"));
    assert_eq!(told.target_attribute_id.as_deref(), Some("perception"));
    assert_eq!((told.seed, told.roll), (7, 50));
    assert_eq!((told.outcome.as_str(), told.degree.as_str()), ("success", "partial"));
    assert_eq!(number(&told.p_success), 0.5);
    assert_eq!(told.modifiers_json, "{\"situational\":0.1}");
    assert_eq!(
        staged::begin_check(&mut staging, &store, &tree("{\"attribute\":\" \"}")).unwrap_err(),
        ToolError::InvalidArgs("attribute is required".to_string())
    );
}

#[test]
fn roll_check_without_target_attribute_persists_no_target_value() {
    let mut store = tables("s");
    let mut staging = TurnStaging::new("s");
    let mut notes: Vec<Noted> = Vec::new();
    let start = staged::begin_check(&mut staging, &store, &tree("{\"attribute\": \"Stealth\"}")).unwrap();
    let stealth = resolved(&mut store, "Stealth", "character");
    let out = staged::finish_check(&staging, &store, &mut notes, &start, &stealth, None, &clamp, &check_result);
    assert_eq!(out.get("target_value"), Some(&Json::Null));
    assert!(matches!(&notes[0].note, Note::Check(check) if check.target_value.is_none()));
    persist_with(&mut store, &staging, &notes);
    assert_eq!(rolls(&store).pop().unwrap().payload.get("target_value"), Some(&Json::Null));
}

#[test]
fn independently_staged_same_name_mints_commit_to_one_canonical_attribute() {
    let mut store = tables("s");
    let mut first = TurnStaging::new("s");
    let mut second = TurnStaging::new("s");
    let (first_entity, _) = first.resolve_or_stage_entity(&store, "artifact", "First Prism", None);
    let (second_entity, _) = second.resolve_or_stage_entity(&store, "artifact", "Second Prism", None);
    let first_attribute = resolved(&mut store, "Resonance", "artifact");
    let second_attribute = resolved(&mut store, "resonance", "artifact");
    assert_eq!(first_attribute.id, second_attribute.id);
    for (staging, entity, attribute, modifier) in [
        (&mut first, &first_entity, &first_attribute, 0.1),
        (&mut second, &second_entity, &second_attribute, -0.1),
    ] {
        staging.pending.push(PendingOp::AdjustAttribute {
            entity_id: entity.id.clone(),
            attribute: attribute.copy(),
            delta: double(1.0),
            cause: "test".to_string(),
            dramatic: false,
        });
        let check = Noted {
            changes: staging.pending.len(),
            note: Note::Check(PendingCheck {
                actor_entity_id: entity.id.clone(),
                target_entity_id: Some(entity.id.clone()),
                actor_attribute_id: Some(attribute.id.clone()),
                target_attribute_id: Some(attribute.id.clone()),
                actor_value: double(5.0),
                target_value: Some(double(5.0)),
                modifier: double(modifier),
                output: CheckOutput {
                    p_success: double(0.5),
                    seed: 1,
                    roll: 50,
                    needed: 50,
                    outcome: "success".to_string(),
                    degree: "marginal".to_string(),
                },
            }),
        };
        persist_with(&mut store, staging, &vec![check]);
    }
    let known: Vec<&AttributeRegistryEntry> =
        store.registry.iter().filter(|r| r.canonical_name.eq_ignore_ascii_case("Resonance")).collect();
    assert_eq!(known.len(), 1);
    let canonical_id = known[0].id.clone();
    let values: Vec<&AttributeRow> = store
        .attributes
        .iter()
        .filter(|a| a.entity_id == first_entity.id || a.entity_id == second_entity.id)
        .collect();
    assert_eq!(values.len(), 2);
    assert!(values.iter().all(|a| a.attribute_id == canonical_id));
    let told = rolls(&store);
    assert_eq!(told.len(), 2);
    for roll in &told {
        assert_eq!(roll.payload.str_field("actor_attribute_id"), Some(canonical_id.as_str()));
        assert_eq!(roll.payload.str_field("target_attribute_id"), Some(canonical_id.as_str()));
    }
    let changes: Vec<&LedgerEntry> = store
        .entries
        .iter()
        .filter(|e| e.kind == kind::ENTITY_ATTRIBUTE_CHANGED && e.payload.str_field("source") == Some("inferred"))
        .collect();
    assert_eq!(changes.len(), 2);
    for change in changes {
        assert!(change.content.as_deref().unwrap().starts_with("Resonance changed"));
        assert_eq!(change.payload.str_field("attribute_name"), Some("Resonance"));
        assert_eq!(change.payload.str_field("attribute_id"), Some(canonical_id.as_str()));
    }
}

#[test]
fn notes_are_written_between_the_changes_that_they_were_taken_between() {
    let mut store = tables("s");
    let mut staging = TurnStaging::new("s");
    let mut noted: Vec<Noted> = Vec::new();
    let args = tree("{\"kind\": \"character\"}");
    staged::get_entities(&staging, &store, &mut noted, &args, true, &clamp);
    let (mira, _) = staging.resolve_or_stage_entity(&store, "character", "Mira", None);
    staged::get_entities(&staging, &store, &mut noted, &args, true, &clamp);
    let renamed = tree(&format!("{{\"id\":\"{}\",\"name\":\"Mira the Bold\"}}", mira.id));
    staged::update_entity(&mut staging, &store, &renamed).unwrap();
    staged::get_entities(&staging, &store, &mut noted, &args, true, &clamp);
    assert_eq!(noted.iter().map(|n| n.changes).collect::<Vec<_>>(), vec![0, 1, 2]);
    let (_, passage) = persist_with(&mut store, &staging, &noted);
    let written: Vec<(&str, Option<&str>)> = store
        .entries
        .iter()
        .filter(|e| e.target_entry_id.as_deref() == Some(passage.as_str()))
        .map(|e| (e.kind.as_str(), if e.kind == kind::ENTITY_QUERIED { e.content.as_deref() } else { None }))
        .collect();
    assert_eq!(
        written,
        vec![
            (kind::ENTITY_QUERIED, Some("Looked up: no matching entities")),
            (kind::ENTITY_CREATED, None),
            (kind::ENTITY_QUERIED, Some("Looked up: Mira")),
            (kind::ENTITY_UPDATED, None),
            (kind::ENTITY_QUERIED, Some("Looked up: Mira the Bold")),
        ]
    );
}

#[test]
fn a_message_stands_with_its_notes_or_not_at_all() {
    let mut store = tables("s");
    let turn_id = turns::create_turn(&mut store, "s").unwrap();
    let mut staging = TurnStaging::new("s");
    let mut noted: Vec<Noted> = Vec::new();
    staging.resolve_or_stage_entity(&store, "character", "Mira", None);
    staged::get_entities(&staging, &store, &mut noted, &tree("{}"), true, &clamp);
    let told =
        notes::append_noted_narration(&mut store, "s", "generated", "Mira comes in.", None, &staging, &noted, &turn_id, &clamp)
            .unwrap();
    let kinds: Vec<&str> = store.entries.iter().map(|e| e.kind.as_str()).collect();
    assert_eq!(kinds, vec![kind::NARRATION, kind::ENTITY_CREATED, kind::ENTITY_QUERIED]);
    assert_eq!(store.entries[2].target_entry_id.as_deref(), Some(told.id.as_str()));
    assert_eq!(store.entries[2].content.as_deref(), Some("Looked up: Mira"));
    let before = store.entries.len();
    staging.pending.push(PendingOp::UpdateEntity { id: "gone".to_string(), name: "Nobody".to_string(), appearance_anchor: None });
    assert!(notes::append_noted_narration(
        &mut store, "s", "generated", "Nobody comes in.", None, &staging, &noted, &turn_id, &clamp
    )
    .is_err());
    assert_eq!(store.entries.len(), before);
}

#[test]
fn a_note_about_a_missing_passage_is_refused() {
    let mut store = tables("s");
    let staging = TurnStaging::new("s");
    let noted = vec![Noted {
        changes: 0,
        note: Note::Query { entity_ids: Vec::new(), kind_filter: None, name_filter: None },
    }];
    let turn_id = turns::create_turn(&mut store, "s").unwrap();
    assert!(notes::commit_with_notes(&staging, &noted, &mut store, "gone", &turn_id, &clamp).is_err());
    assert!(store.entries.is_empty());
}

#[test]
fn get_entities_tool_reports_staged_entities_with_attributes() {
    let store = tables("s");
    let mut staging = TurnStaging::new("s");
    let mut notes: Vec<Noted> = Vec::new();
    staging.resolve_or_stage_entity(&store, "location", "The Drowned Keep", None);
    let out = staged::get_entities(&staging, &store, &mut notes, &tree("{\"kind\": \"location\"}"), true, &clamp);
    let found = match out.get("entities").unwrap() {
        Json::Array(items) => items,
        other => panic!("{:?}", other),
    };
    assert_eq!(found.len(), 1);
    assert_eq!(found[0].str_field("name"), Some("The Drowned Keep"));
    assert_eq!(found[0].str_field("kind"), Some("location"));
    assert_eq!(found[0].get("attributes"), Some(&Json::Array(Vec::new())));
    assert!(notes.iter().any(|noted| matches!(
        &noted.note,
        Note::Query { entity_ids, kind_filter: Some(kind), name_filter: None } if entity_ids.len() == 1 && kind == "location"
    )));
}

#[test]
fn get_entities_stays_ephemeral_when_persistence_is_disabled() {
    let store = tables("s");
    let staging = TurnStaging::new("s");
    let mut notes: Vec<Noted> = Vec::new();
    staged::get_entities(&staging, &store, &mut notes, &tree("{}"), false, &clamp);
    assert!(!notes.iter().any(|noted| matches!(noted.note, Note::Query { .. })));
}
