use dungeon::ai;
use dungeon::ai::{
    Answer, HistoryTurn, HistoryTurnMarker, NarratorChunk, StreamItem, StreamStep, ToolActivityPhase, ToolCallCapture, ToolResultAction,
};
use dungeon::compaction::budget::Limits;
use dungeon::double::Double;
use dungeon::entities::attributes;
use dungeon::entities::attributes::{Clamped, Reading};
use dungeon::entities::model::AttributeRegistryEntry;
use dungeon::entities::registry;
use dungeon::entities::registry::{AttributeResolution, ResolutionStep};
use dungeon::error::AppError;
use dungeon::json::Json;
use dungeon::ledger::cascade;
use dungeon::ledger::kind;
use dungeon::ledger::model::LedgerEntry;
use dungeon::ledger::repository as ledger;
use dungeon::ledger::turns;
use dungeon::narration::staged;
use dungeon::narrator::catalog;
use dungeon::narrator::catalog::{NarratorToolSettings, ToolAvailability};
use dungeon::narrator::dice;
use dungeon::narrator::dice::{RollFactor, RollPayload};
use dungeon::narrator::injection;
use dungeon::narrator::staged_roll;
use dungeon::narrator::staging::{PendingOp, TurnStaging};
use dungeon::narrator::stream;
use dungeon::narrator::stream::StreamEvent;
use dungeon::narrator::tool_error::ToolError;
use dungeon::narrator::tools;
use dungeon::narrator::transcript;
use dungeon::prompts;
use dungeon::entities::repository as entities;
use dungeon::store::{AttributeRow, Store, StoryRow};
use rand::{Rng, SeedableRng};

fn double(x: f64) -> Double {
    Double { bits: x.to_bits(), display: x.to_string(), literal: serde_json::Value::from(x).to_string() }
}

fn number(x: &Double) -> f64 {
    f64::from_bits(x.bits)
}

fn tree(text: &str) -> Json {
    ledger::payload_of_row(text)
}

fn clamp(reading: Reading) -> Clamped {
    let min = number(&reading.min);
    let max = number(&reading.max);
    let before = match &reading.stored {
        Some(value) => number(value),
        None => (min + max) / 2.0,
    };
    let step = if reading.dramatic { max - min } else { (max - min) * 0.3 };
    let after = (before + number(&reading.delta).clamp(-step, step)).clamp(min, max);
    Clamped { before: double(before), after: double(after), change: double(after - before) }
}

fn attribute(id: &str, name: &str, min: f64, max: f64) -> AttributeRegistryEntry {
    AttributeRegistryEntry {
        id: id.to_string(),
        canonical_name: name.to_string(),
        aliases_json: "[]".to_string(),
        entity_kinds_json: "[\"character\"]".to_string(),
        min: double(min),
        max: double(max),
        category: "test".to_string(),
        is_user_created: false,
        created_in_story_id: None,
        created_at: "now".to_string(),
    }
}

fn tables(story_id: &str) -> Store {
    let mut store = Store::new();
    store.stories.push(StoryRow {
        id: story_id.to_string(),
        title: "Story".to_string(),
        created_at: "now".to_string(),
        updated_at: "now".to_string(),
        settings_json: "{}".to_string(),
    });
    store.registry.push(attribute("accuracy", "Accuracy", 0.0, 10.0));
    store.registry.push(attribute("trust", "Trust", -10.0, 10.0));
    store.registry.push(attribute("health", "Health", 0.0, 10.0));
    store.registry.push(attribute("stealth", "Stealth", 0.0, 10.0));
    store
}

fn limits() -> Limits {
    Limits { context_window: 32768, trigger: 29491, target: 24576 }
}

fn entry(id: &str, seq: i64, event_kind: &str, content: Option<&str>, payload: &str) -> LedgerEntry {
    let shown = event_kind == kind::PLAYER_MESSAGE || event_kind == kind::NARRATION;
    LedgerEntry {
        id: id.to_string(),
        story_id: "s".to_string(),
        seq,
        kind: event_kind.to_string(),
        visibility: if shown { "visible".to_string() } else { "hidden".to_string() },
        content: content.map(str::to_string),
        payload: tree(payload),
        target_entry_id: None,
        turn_id: None,
        created_at: "now".to_string(),
    }
}

fn item(list: &Json, i: usize) -> &Json {
    match list {
        Json::Array(items) => &items[i],
        other => panic!("{:?}", other),
    }
}

fn length(tree: &Json) -> usize {
    match tree {
        Json::Array(items) => items.len(),
        Json::Object(fields) => fields.len(),
        other => panic!("{:?}", other),
    }
}

fn turn_with_passage(store: &mut Store) -> (String, String) {
    let turn_id = turns::create_turn(store, "s").unwrap();
    let passage = ledger::append_entry(store, "s", "narration", "visible", Some("scene"), &tree("{}"), None, Some(&turn_id)).unwrap();
    (turn_id, passage.id)
}

fn persist(store: &mut Store, staging: &TurnStaging) {
    let (turn_id, passage) = turn_with_passage(store);
    staging.commit(store, &passage, &turn_id, &clamp).unwrap();
}

fn staged_adjust(staging: &mut TurnStaging, store: &mut Store, args: &str) -> Result<Json, ToolError> {
    let (asked, entity, step) = staged::begin_adjustment(staging, store, &tree(args))?;
    match step {
        ResolutionStep::Done(resolution) => staged::finish_adjustment(staging, store, &entity, &asked, resolution, &clamp),
        other => panic!("{:?}", other),
    }
}

fn chance_of(factors: Vec<RollFactor>) -> u8 {
    let share = |f: &RollFactor| (number(&f.value) - number(&f.min)) / (number(&f.max) - number(&f.min));
    let actor = share(&factors[0]);
    let opponent = factors.get(1).map(share).unwrap_or(0.5);
    (50.0 + 50.0 * (actor - opponent)).round().clamp(0.0, 100.0) as u8
}

#[test]
fn decision_tool_result_stops_and_ends_the_stream_cleanly() {
    let stop_reason = "decision captured/test-call";
    assert_eq!(
        ai::tool_result_action(Some(stop_reason), prompts::ILLUSTRATE_SCENE_TOOL_NAME),
        ToolResultAction::Stop(stop_reason.to_string())
    );
    assert_eq!(ai::tool_result_action(Some(stop_reason), "get_entities"), ToolResultAction::Keep);

    assert!(ai::is_expected_tool_stop(Some(stop_reason), stop_reason));
    assert!(!ai::is_expected_tool_stop(None, stop_reason));
    assert!(!ai::is_expected_tool_stop(Some("decision captured/other-call"), stop_reason));

    let mut answer = Answer::new();
    let step = answer.take(
        Some(stop_reason),
        StreamItem::Cancelled { reason: stop_reason.to_string(), message: "cancelled".to_string() },
    );
    assert_eq!(step, StreamStep::End);
    assert_eq!((answer.visible.as_str(), answer.thoughts.as_str()), ("", ""));
}

#[test]
fn an_answer_is_gathered_piece_by_piece() {
    let mut answer = Answer::new();
    assert_eq!(answer.take(None, StreamItem::Text("The ".to_string())), StreamStep::Emit(NarratorChunk::Text("The ".to_string())));
    answer.take(None, StreamItem::Reasoning("hm".to_string()));
    assert_eq!(answer.take(None, StreamItem::Quiet), StreamStep::Quiet);
    answer.take(None, StreamItem::Text("door.".to_string()));
    assert!(matches!(
        answer.take(None, StreamItem::Failed { message: "broken".to_string() }),
        StreamStep::Fail(AppError::Other(_))
    ));
    assert_eq!((answer.visible.as_str(), answer.thoughts.as_str()), ("The door.", "hm"));
    let made = stream::candidate("  The door. ", "  ", Vec::new());
    assert_eq!((made.visible.as_str(), made.thoughts), ("The door.", None));
}

#[test]
fn completed_calls_preserve_canonical_results_and_rig_success_semantics() {
    let applied = tree("{\"applied\": false}");
    let captured = ai::completed_tool_call("adjust_entity_attribute", "{\"delta\":1}", Some(&applied), "", true);
    assert_eq!(captured.args, tree("{\"delta\": 1}"));
    assert_eq!(captured.result, tree("{\"applied\": false}"));
    assert!(captured.ok);

    let captured = ai::completed_tool_call("roll_check", "not-json", None, "bad arguments", false);
    assert_eq!(captured.args, Json::Str("not-json".to_string()));
    assert_eq!(captured.result, Json::Str("bad arguments".to_string()));
    assert!(!captured.ok);
}

#[test]
fn completed_calls_follow_call_start_order() {
    let mut capture = ToolCallCapture::default();
    capture.start("first");
    capture.start("second");
    let result = tree("{\"ok\": true}");
    capture.finish("second", ai::completed_tool_call("second", "{}", Some(&result), "", true));
    capture.finish("first", ai::completed_tool_call("first", "{}", Some(&result), "", true));
    let tools: Vec<String> = capture.take_completed().into_iter().map(|call| call.tool).collect();
    assert_eq!(tools, ["first", "second"]);
}

#[test]
fn tool_activity_is_shown_with_its_label() {
    let shown = stream::stream_event(NarratorChunk::ToolActivity {
        call_id: "call-1".to_string(),
        tool_name: "illustrate_scene".to_string(),
        args: "{}".to_string(),
        phase: ToolActivityPhase::Finished { ok: true },
    });
    assert_eq!(
        shown,
        StreamEvent::ToolActivity {
            call_id: "call-1".to_string(),
            label: "Sketching the scene…".to_string(),
            phase: "finished",
            ok: Some(true),
        }
    );
}

#[test]
fn a_request_needs_an_action_at_its_end() {
    let turn = |is_player: bool, content: &str| HistoryTurn {
        entry_id: None,
        is_player,
        content: content.to_string(),
        marker: HistoryTurnMarker::Ledger,
    };
    assert_eq!(
        stream::request_turns(Vec::new(), "live").unwrap_err(),
        AppError::Other("the narration history has no action turn".to_string())
    );
    assert_eq!(
        stream::request_turns(vec![turn(false, "told")], "live").unwrap_err(),
        AppError::Other("the narration history does not end with an action turn".to_string())
    );
    let (before, prompt) = stream::request_turns(vec![turn(false, "told"), turn(true, "act")], "live").unwrap();
    assert_eq!(before.len(), 1);
    assert_eq!(prompt, "live\n\nact");
}

#[test]
fn legacy_author_note_events_are_inert() {
    let note = entry("note", 0, "context_note_updated", Some("Author's note was updated"), "{\"author_note\":\"old direction\"}");
    assert!(transcript::history_from_entries(&vec![note]).is_empty());
}

#[test]
fn migrated_player_bootstrap_does_not_trail_narration_history() {
    let rows = vec![
        entry("p1", 0, kind::PLAYER_MESSAGE, Some("Open the door"), "{\"input_mode\":\"do\"}"),
        entry("n1", 1, kind::NARRATION, Some("It opens."), "{}"),
        entry("bootstrap", 2, kind::ENTITY_CREATED, Some("You was added as a character."), "{\"name\":\"You\",\"source\":\"story_bootstrap\"}"),
    ];
    let history = transcript::history_from_entries(&rows);
    assert_eq!(history.len(), 2);
    assert_eq!(history[1].entry_id.as_deref(), Some("n1"));
}

#[test]
fn edited_narration_appears_only_once() {
    let narration = entry("n1", 0, kind::NARRATION, Some("original"), "{\"input_mode\":\"generated\"}");
    let mut edited = entry("e1", 1, kind::CONTENT_EDITED, Some("edited text"), "{\"reason\":\"user_edit\"}");
    edited.target_entry_id = Some("n1".to_string());
    let history = transcript::history_from_entries(&vec![narration, edited]);
    assert_eq!(history.len(), 1);
    assert_eq!(history[0].content, "edited text");
}

#[test]
fn transcript_newest_summary_replaces_covered_prefix_and_keeps_later_events() {
    let rows = vec![
        entry("p1", 0, kind::PLAYER_MESSAGE, Some("old action"), "{\"input_mode\":\"do\"}"),
        entry("n1", 1, kind::NARRATION, Some("old narration"), "{\"input_mode\":\"generated\"}"),
        entry("sum", 2, kind::CONTEXT_SUMMARY, Some("The archive was entered."), "{\"through_entry_id\":\"n1\"}"),
        entry("diceroll", 3, kind::DICEROLL, Some("Stealth succeeded."), "{}"),
        entry("p2", 4, kind::PLAYER_MESSAGE, Some("I take the key."), "{\"input_mode\":\"do\"}"),
    ];
    let history = transcript::history_from_entries(&rows);
    assert_eq!(history.len(), 3);
    assert!(history[0].content.contains("The archive was entered."));
    assert!(history[1].content.contains("Stealth succeeded."));
    assert_eq!(history[2].content, "<do>I take the key.</do>");
    assert!(!history.iter().any(|turn| turn.content.contains("old narration")));
}

#[test]
fn dice_rolls_are_always_contextual() {
    let rows = vec![
        entry("n1", 0, kind::NARRATION, Some("The door opens."), "{}"),
        entry("diceroll", 1, kind::DICEROLL, Some("Stealth succeeded."), "{}"),
        entry("query", 2, kind::ENTITY_QUERIED, Some("Looked up: Bob"), "{}"),
        entry("p2", 3, kind::PLAYER_MESSAGE, Some("I take the key."), "{\"input_mode\":\"do\"}"),
    ];
    let history = transcript::history_from_entries(&rows);
    assert_eq!(history.len(), 4);
    assert_eq!(history[0].content, "The door opens.");
    assert_eq!(history[1].entry_id.as_deref(), Some("diceroll"));
    assert!(history[1].content.contains("Stealth succeeded."));
    assert!(history[2].content.contains("Looked up: Bob"));
    assert_eq!(history[3].content, "<do>I take the key.</do>");
}

#[test]
fn load_transcript_ignores_legacy_dice_roll_preference() {
    let mut store = tables("s");
    let roll = ledger::append_entry(&mut store, "s", kind::DICEROLL, "hidden", Some("Stealth succeeded."), &tree("{}"), None, None).unwrap();
    let history = transcript::load_transcript(&store, "s");
    assert_eq!(history.len(), 1);
    assert_eq!(history[0].entry_id.as_deref(), Some(roll.id.as_str()));
}

#[test]
fn load_transcript_reads_uncommitted_player_entry() {
    let store = tables("s");
    let mut private = store.copy();
    ledger::append_entry(&mut private, "s", kind::PLAYER_MESSAGE, "visible", Some("I enter"), &tree("{\"input_mode\":\"do\"}"), None, None).unwrap();
    let history = transcript::load_transcript(&private, "s");
    assert_eq!(history[history.len() - 1].content, "<do>I enter</do>");
    assert!(transcript::load_transcript(&store, "s").is_empty());
}

#[test]
fn transcript_invalid_summary_boundary_is_ignored() {
    let rows = vec![
        entry("p1", 0, kind::PLAYER_MESSAGE, Some("keep me"), "{\"input_mode\":\"do\"}"),
        entry("sum", 1, kind::CONTEXT_SUMMARY, Some("bad summary"), "{\"through_entry_id\":\"missing\"}"),
    ];
    let history = transcript::history_from_entries(&rows);
    assert_eq!(history.len(), 1);
    assert_eq!(history[0].content, "<do>keep me</do>");
}

#[test]
fn legacy_entity_queries_remain_contextual_but_tool_calls_do_not() {
    let rows = vec![
        entry("query", 0, kind::ENTITY_QUERIED, Some("Looked up: Bob"), "{\"entity_ids\":[\"bob\"]}"),
        entry(
            "tool",
            1,
            kind::TOOL_CALL,
            Some("Checking who's here"),
            "{\"tool\":\"get_entities\",\"args\":{},\"result\":{\"entities\":[]},\"ok\":true}",
        ),
    ];
    let history = transcript::history_from_entries(&rows);
    assert_eq!(history.len(), 1);
    assert_eq!(history[0].content, "[Authoritative story event: entity_queried]\nLooked up: Bob");
}

#[test]
fn history_uses_the_canonical_renderer_for_every_action_mode() {
    for mode in prompts::list_turn_modes() {
        let content = if mode == "see" || mode == "continue" { "" } else { "content" };
        let row = entry("action", 0, kind::PLAYER_MESSAGE, Some(content), &format!("{{\"input_mode\":\"{}\"}}", mode));
        let history = transcript::history_from_entries(&vec![row]);
        assert_eq!(history[0].content, prompts::render_turn(mode, content).unwrap());
    }
}

#[test]
fn summary_with_a_cascade_deleted_boundary_does_not_hide_older_history() {
    let mut store = tables("s");
    let old = ledger::append_entry(&mut store, "s", kind::PLAYER_MESSAGE, "visible", Some("Keep this older turn."), &tree("{\"input_mode\":\"do\"}"), None, None).unwrap();
    let narration = ledger::append_entry(&mut store, "s", kind::NARRATION, "visible", Some("Temporary narration."), &tree("{\"input_mode\":\"generated\"}"), None, None).unwrap();
    let query = ledger::append_entry(&mut store, "s", kind::ENTITY_QUERIED, "hidden", Some("Looked up: Bob"), &tree("{\"entity_ids\":[\"bob\"]}"), Some(&narration.id), None).unwrap();
    let covered = format!("{{\"through_entry_id\":\"{}\",\"through_seq\":{}}}", query.id, query.seq);
    ledger::append_entry(&mut store, "s", kind::CONTEXT_SUMMARY, "hidden", Some("Invalid after the query is deleted."), &tree(&covered), None, None).unwrap();

    cascade::remove_doomed(&mut store.entries, &narration.id);
    assert!(!store.entries.iter().any(|e| e.id == query.id));
    let history = transcript::load_transcript(&store, "s");
    assert_eq!(history.len(), 1);
    assert_eq!(history[0].entry_id.as_deref(), Some(old.id.as_str()));
    assert_eq!(history[0].content, "<do>Keep this older turn.</do>");
}

fn story_with_entity_query() -> (Store, HistoryTurn) {
    let mut store = tables("s");
    store.stories[0].settings_json = "{\"author_note\":\"Keep it terse.\"}".to_string();
    entities::create_entity_with_id_sync(&mut store, "bob", "s", "character", "Bob", Some("a red cloak"), "test", None).unwrap();
    let query = ledger::append_entry(&mut store, "s", kind::ENTITY_QUERIED, "hidden", Some("Looked up: Bob"), &tree("{\"entity_ids\":[\"bob\"]}"), None, None).unwrap();
    (
        store,
        HistoryTurn {
            entry_id: Some(query.id),
            is_player: false,
            content: "[Authoritative story event: entity_queried]\nLooked up: Bob".to_string(),
            marker: HistoryTurnMarker::Ledger,
        },
    )
}

#[test]
fn injection_pipeline_builds_all_blocks_in_fixed_order() {
    let (store, history_turn) = story_with_entity_query();
    let history = vec![history_turn];
    let settings = NarratorToolSettings::default();
    let specs = catalog::enabled(&ToolAvailability { settings: &settings, image_enabled: true, illustrate: false });
    let plan = injection::build_message_context(&store, "s", &history, limits(), "preamble", "scoped", &specs).unwrap();
    assert!(plan.live.contains("- Bob (character); appearance: a red cloak"));
    let listed = plan.live.find("<entities>").unwrap();
    let note = plan.live.find("<author_note>").unwrap();
    let tools_position = plan.live.find("<additional_instructions>").unwrap();
    assert!(listed < note && note < tools_position);
    assert!(plan.live.contains(&injection::tool_context(&specs)));
    assert!(plan.full.contains(&injection::tool_context(&specs)));
    assert!(plan.full.contains("<entities>"));
}

#[test]
fn context_sees_uncommitted_story_and_entity_changes() {
    let (store, history_turn) = story_with_entity_query();
    let mut private = store.copy();
    private.stories[0].settings_json = "{\"author_note\":\"A new direction.\"}".to_string();
    entities::create_entity_with_id_sync(&mut private, "alice", "s", "character", "Alice", Some("a blue coat"), "test", None).unwrap();
    let history = vec![history_turn];
    let plan = injection::build_message_context(&private, "s", &history, limits(), "preamble", "scoped", &Vec::new()).unwrap();
    assert!(plan.full.contains("Alice (character); appearance: a blue coat"));
    assert!(plan.live.contains("<author_note>A new direction.</author_note>"));
    assert!(plan.live.contains("Bob (character); appearance: a red cloak"));
}

#[test]
fn injection_tool_instructions_name_only_available_tools() {
    let mut settings = NarratorToolSettings {
        get_entities: false,
        create_entity: false,
        update_entity: false,
        adjust_entity_attribute: false,
        roll_check: false,
        ..NarratorToolSettings::default()
    };
    let none = catalog::enabled(&ToolAvailability { settings: &settings, image_enabled: false, illustrate: false });
    assert_eq!(injection::tool_context(&none), "");

    let image = catalog::enabled(&ToolAvailability { settings: &settings, image_enabled: true, illustrate: true });
    assert_eq!(
        injection::tool_context(&image),
        format!(
            "<additional_instructions>\nAvailable narrator tools for this turn: {}.\n{}\n</additional_instructions>",
            prompts::ILLUSTRATE_SCENE_TOOL_NAME,
            prompts::IMAGE_TOOL_AVAILABLE_INSTRUCTION
        )
    );

    settings.roll_check = true;
    let roll = catalog::enabled(&ToolAvailability { settings: &settings, image_enabled: false, illustrate: false });
    assert_eq!(
        injection::tool_context(&roll),
        format!(
            "<additional_instructions>\nAvailable narrator tools for this turn: {}.\n{}\n</additional_instructions>",
            prompts::ROLL_CHECK_TOOL_NAME,
            prompts::ROLL_CHECK_AVAILABLE_INSTRUCTION
        )
    );
}

fn names_from_tool_context(context: &str) -> Vec<String> {
    if context.is_empty() {
        return Vec::new();
    }
    context
        .lines()
        .nth(1)
        .unwrap()
        .strip_prefix("Available narrator tools for this turn: ")
        .unwrap()
        .strip_suffix('.')
        .unwrap()
        .split(", ")
        .map(str::to_string)
        .collect()
}

#[test]
fn built_tool_names_match_injected_names_across_availability_combinations() {
    let disabled = NarratorToolSettings {
        get_entities: false,
        create_entity: false,
        update_entity: false,
        adjust_entity_attribute: false,
        roll_check: false,
        illustrate_scene: false,
    };
    let cases = [
        (disabled, false, false),
        (NarratorToolSettings { roll_check: true, update_entity: true, ..disabled }, false, false),
        (NarratorToolSettings::default(), true, false),
        (NarratorToolSettings::default(), true, true),
        (NarratorToolSettings::default(), false, true),
    ];
    for (settings, image_enabled, illustrate) in cases {
        let specs = catalog::enabled(&ToolAvailability { settings: &settings, image_enabled, illustrate });
        let built: Vec<String> = specs.iter().map(|spec| spec.name.to_string()).collect();
        assert_eq!(built, names_from_tool_context(&injection::tool_context(&specs)));
    }
}

#[test]
fn staging_staged_entity_is_visible_before_commit_and_not_duplicated() {
    let store = tables("s");
    let mut staging = TurnStaging::new("s");
    let (created, was_new) = staging.resolve_or_stage_entity(&store, "character", "Mira", Some("silver hair"));
    assert!(was_new);
    assert!(staging.find_effective_entity(&store, &created.id).is_some());
    let (found, was_new_again) = staging.resolve_or_stage_entity(&store, "character", "mira", None);
    assert!(!was_new_again);
    assert_eq!(found.id, created.id);
    assert_eq!(staging.pending.len(), 1);
}

#[test]
fn staging_staged_attribute_delta_folds_onto_the_registry_midpoint() {
    let store = tables("s");
    let trust = registry::find_attribute_by_id(&store, "trust").unwrap();
    let mut staging = TurnStaging::new("s");
    let (entity, _) = staging.resolve_or_stage_entity(&store, "character", "Mira", None);
    let midpoint = (number(&trust.min) + number(&trust.max)) / 2.0;
    assert_eq!(number(&staging.effective_attribute_state(&store, &entity.id, &trust, &clamp).0), midpoint);
    staging.pending.push(PendingOp::AdjustAttribute {
        entity_id: entity.id.clone(),
        attribute: trust.copy(),
        delta: double(2.0),
        cause: "test".to_string(),
        dramatic: false,
    });
    assert_eq!(number(&staging.effective_attribute_state(&store, &entity.id, &trust, &clamp).0), midpoint + 2.0);
}

#[test]
fn newly_minted_attributes_are_staged_and_reused_without_leaking() {
    let store = tables("s");
    let mut staging = TurnStaging::new("s");
    let resolution = match staging.begin_resolution(&store, "Resonance", "artifact").unwrap() {
        ResolutionStep::Done(resolution) => resolution,
        other => panic!("{:?}", other),
    };
    let first = staging.stage_resolution("Resonance", resolution);
    let second = match staging.begin_resolution(&store, "resonance", "artifact").unwrap() {
        ResolutionStep::Done(AttributeResolution::Existing(found)) => found,
        other => panic!("{:?}", other),
    };
    assert_eq!(first.id, second.id);
    assert_eq!(store.registry.iter().filter(|a| a.id == first.id).count(), 0);
    assert!(matches!(staging.pending.as_slice(), [PendingOp::MintAttribute(_)]));
}

#[test]
fn aliases_are_staged_until_the_narration_commits() {
    let mut store = tables("s");
    let stealth = registry::find_attribute_by_id(&store, "stealth").unwrap();
    let alias = "furtive movement";
    let mut staging = TurnStaging::new("s");
    staging.pending.push(PendingOp::AddAlias { attribute: stealth.copy(), alias: alias.to_string() });
    assert_eq!(staging.staged_attribute(alias).unwrap().id, stealth.id);
    assert!(registry::find_exact_match(&store, alias).is_none());
    persist(&mut store, &staging);
    assert_eq!(registry::find_exact_match(&store, alias).unwrap().id, stealth.id);
}

#[test]
fn staging_commit_applies_every_staged_op_atomically() {
    let mut store = tables("s");
    let trust = registry::find_attribute_by_id(&store, "trust").unwrap();
    let mut staging = TurnStaging::new("s");
    let (entity, _) = staging.resolve_or_stage_entity(&store, "character", "Mira", Some("silver hair"));
    staging.pending.push(PendingOp::AdjustAttribute {
        entity_id: entity.id.clone(),
        attribute: trust.copy(),
        delta: double(3.0),
        cause: "test".to_string(),
        dramatic: false,
    });
    persist(&mut store, &staging);
    let state = store.states.iter().find(|s| s.entity_id == entity.id).unwrap();
    assert_eq!(state.name, "Mira");
    let value = store.attributes.iter().find(|a| a.entity_id == entity.id && a.attribute_id == "trust").unwrap();
    assert_eq!(number(&value.value), (number(&trust.min) + number(&trust.max)) / 2.0 + 3.0);
}

#[test]
fn tool_calls_commit_exact_payloads_in_order_with_target_and_turn() {
    let mut store = tables("s");
    let mut staging = TurnStaging::new("s");
    staging.stage_tool_call(
        "roll_check".to_string(),
        tree("{\"chance_percent\": 40}"),
        tree("{\"outcome\": \"failure\"}"),
        true,
        "Rolling for escape".to_string(),
    );
    staging.stage_tool_call(
        "adjust_entity_attribute".to_string(),
        tree("{\"delta\": 1}"),
        tree("{\"applied\": false}"),
        true,
        "Adjusting Trust".to_string(),
    );
    staging.stage_tool_call(
        "get_entities".to_string(),
        tree("{}"),
        Json::Str("database unavailable".to_string()),
        false,
        "Checking who's here".to_string(),
    );
    let (turn_id, passage) = turn_with_passage(&mut store);
    staging.commit(&mut store, &passage, &turn_id, &clamp).unwrap();
    let calls: Vec<&LedgerEntry> = store.entries.iter().filter(|e| e.kind == kind::TOOL_CALL).collect();
    assert_eq!(calls.len(), 3);
    assert_eq!(
        calls.iter().map(|e| e.content.as_deref().unwrap()).collect::<Vec<_>>(),
        ["Rolling for escape", "Adjusting Trust", "Checking who's here"]
    );
    for call in &calls {
        assert_eq!(call.target_entry_id.as_deref(), Some(passage.as_str()));
        assert_eq!(call.turn_id.as_deref(), Some(turn_id.as_str()));
        assert_eq!(length(&call.payload), 4);
        for name in ["tool", "args", "result", "ok"] {
            assert!(call.payload.get(name).is_some());
        }
    }
    assert_eq!(calls[0].payload.get("result").unwrap().str_field("outcome"), Some("failure"));
    assert_eq!(calls[0].payload.bool_field("ok"), Some(true));
    assert_eq!(calls[1].payload.get("result").unwrap().bool_field("applied"), Some(false));
    assert_eq!(calls[1].payload.bool_field("ok"), Some(true));
    assert_eq!(calls[2].payload.str_field("result"), Some("database unavailable"));
    assert_eq!(calls[2].payload.bool_field("ok"), Some(false));
}

#[test]
fn a_staged_roll_is_refused_when_the_scale_of_its_attribute_changed() {
    let mut store = tables("s");
    let mut staging = TurnStaging::new("s");
    let resolution = match staging.begin_resolution(&store, "Resonance", "artifact").unwrap() {
        ResolutionStep::Done(resolution) => resolution,
        other => panic!("{:?}", other),
    };
    let minted = staging.stage_resolution("Resonance", resolution);
    staging.stage_roll(
        50,
        None,
        "attributes",
        vec![RollFactor {
            entity_id: "prism".to_string(),
            entity_name: "Prism".to_string(),
            attribute_id: minted.id.clone(),
            attribute_name: minted.canonical_name.clone(),
            value: double(5.0),
            min: minted.min.copy(),
            max: minted.max.copy(),
        }],
    );
    store.registry.push(attribute("other", "Resonance", 0.0, 100.0));
    let (turn_id, passage) = turn_with_passage(&mut store);
    assert_eq!(
        staging.commit(&mut store, &passage, &turn_id, &clamp).unwrap_err(),
        AppError::Invalid("Prism's attribute range changed while rolling; retry this turn".to_string())
    );
}

#[test]
fn the_chance_of_a_check_is_read_from_its_factors_or_asked_for() {
    let asked = dice::roll_request(&tree("{\"chance_percent\": 30}")).unwrap();
    assert_eq!(dice::check_chance(&asked, &Vec::new(), &chance_of), (30, "narrator"));
    let plain = dice::roll_request(&tree("{}")).unwrap();
    assert_eq!(dice::check_chance(&plain, &Vec::new(), &chance_of), (50, "default"));
    let read = dice::roll_request(&tree("{\"factors\": [{\"entity_id\": \"you\", \"attribute_name\": \"Stealth\"}]}")).unwrap();
    let factors = vec![RollFactor {
        entity_id: "you".to_string(),
        entity_name: "You".to_string(),
        attribute_id: "stealth".to_string(),
        attribute_name: "Stealth".to_string(),
        value: double(8.0),
        min: double(0.0),
        max: double(10.0),
    }];
    assert_eq!(dice::check_chance(&read, &factors, &chance_of), (65, "attributes"));
}

#[test]
fn chance_roll_has_exact_zero_and_hundred_percent_bounds() {
    for _ in 0..100 {
        let impossible = dice::resolve_roll(0);
        assert!((0..100).contains(&impossible.roll));
        assert_eq!(impossible.needed, 100);
        assert_eq!(impossible.outcome, "failure");
        let certain = dice::resolve_roll(100);
        assert!((0..100).contains(&certain.roll));
        assert_eq!(certain.needed, 0);
        assert_eq!(certain.outcome, "success");
    }
}

#[test]
fn staging_chance_roll_seed_replays_the_draw() {
    for chance in [1u8, 25, 50, 75, 99] {
        let result = dice::resolve_roll(chance);
        let mut rng = rand::rngs::StdRng::seed_from_u64(result.seed as u64);
        let replayed: i64 = rng.gen_range(0..100);
        assert_eq!(replayed, result.roll);
        assert_eq!(result.needed, 100 - i64::from(chance));
        assert_eq!(result.outcome == "success", result.roll >= result.needed);
    }
}

#[test]
fn dice_chance_roll_seed_replays_the_draw() {
    for chance in [0u8, 1, 25, 50, 75, 99, 100] {
        let result = dice::resolve_roll(chance);
        let mut rng = rand::rngs::StdRng::seed_from_u64(result.seed as u64);
        let replayed: i64 = rng.gen_range(0..100);
        assert_eq!(replayed, result.roll);
        assert_eq!(result.outcome == "success", result.roll >= result.needed);
    }
}

#[test]
fn payload_serializes_with_exact_current_shape() {
    let payload = RollPayload {
        chance_percent: 60,
        roll: 72,
        needed: 40,
        outcome: "success",
        reason: Some("Sneak past the guard".to_string()),
        chance_source: Some("attributes"),
        factors: vec![RollFactor {
            entity_id: "player".to_string(),
            entity_name: "You".to_string(),
            attribute_id: "stealth".to_string(),
            attribute_name: "Stealth".to_string(),
            value: double(8.0),
            min: double(0.0),
            max: double(10.0),
        }],
        seed: 42,
    }
    .to_json();
    assert_eq!(
        payload,
        tree(
            "{\"chance_percent\":60,\"roll\":72,\"needed\":40,\"outcome\":\"success\",\
             \"reason\":\"Sneak past the guard\",\"chance_source\":\"attributes\",\
             \"factors\":[{\"entity_id\":\"player\",\"entity_name\":\"You\",\"attribute_id\":\"stealth\",\
             \"attribute_name\":\"Stealth\",\"value\":8.0,\"min\":0.0,\"max\":10.0}],\"seed\":42}"
        )
    );
    assert_eq!(length(&payload), 8);
}

#[test]
fn roll_is_written_in_turn_with_exact_payload_and_target() {
    let store = tables("s");
    let mut private = store.copy();
    let (turn_id, target) = turn_with_passage(&mut private);
    for args in ["{\"chance_percent\":-1}", "{\"chance_percent\":101}", "{\"factors\":\"not array\"}", "{\"chance_percent\":55.2}"] {
        assert!(dice::roll_check(&mut private, "s", &target, &turn_id, &tree(args), &chance_of).is_err());
    }
    let out = dice::roll_check(
        &mut private,
        "s",
        &target,
        &turn_id,
        &tree("{\"chance_percent\":35,\"reason\":\" escaping a ghoul \"}"),
        &chance_of,
    )
    .unwrap();
    assert_eq!(out.str_field("reason"), Some("escaping a ghoul"));
    assert_eq!(out.str_field("chance_source"), Some("narrator"));
    let rolls: Vec<&LedgerEntry> = private.entries.iter().filter(|e| e.kind == kind::DICEROLL).collect();
    assert_eq!(rolls.len(), 1);
    assert_eq!(rolls[0].target_entry_id.as_deref(), Some(target.as_str()));
    assert_eq!(rolls[0].turn_id.as_deref(), Some(turn_id.as_str()));
    assert_eq!(
        rolls[0].content.as_deref().unwrap(),
        format!(
            "Dice-roll outcome: rolled {} with 35% chance and got {}.",
            out.int_field("roll").unwrap(),
            out.str_field("outcome").unwrap()
        )
    );
    assert_eq!(length(&rolls[0].payload), 8);
    for key in ["chance_percent", "roll", "needed", "outcome", "reason", "chance_source", "factors", "seed"] {
        assert_eq!(rolls[0].payload.get(key), out.get(key));
    }
    assert_eq!(store.entries.len(), 0);
}

fn adjust(store: &mut Store, target: &str, turn_id: &str, args: &str) -> Json {
    let asked = tools::adjustment(&tree(args)).unwrap();
    let (entity, step) = tools::begin_adjustment(store, "s", &asked).unwrap();
    let resolution = match step {
        ResolutionStep::Done(resolution) => resolution,
        other => panic!("{:?}", other),
    };
    tools::finish_adjustment(store, "s", &entity, &asked, resolution, target, turn_id, &clamp).unwrap()
}

#[test]
fn factor_reads_current_turn_attribute_and_alias() {
    let mut store = tables("s");
    let (turn_id, target) = turn_with_passage(&mut store);
    let made = tools::create_entity(&mut store, "s", &target, &turn_id, &tree("{\"kind\":\"character\",\"name\":\"You\"}")).unwrap();
    let id = made.str_field("id").unwrap().to_string();
    adjust(&mut store, &target, &turn_id, &format!("{{\"entity_id\":\"{}\",\"attribute\":\"Stealth\",\"delta\":3}}", id));
    let by = |name: &str| tree(&format!("{{\"factors\":[{{\"entity_id\":\"{}\",\"attribute_name\":\"{}\"}}]}}", id, name));
    let result = dice::roll_check(&mut store, "s", &target, &turn_id, &by("Stealth"), &chance_of).unwrap();
    assert_eq!(result.int_field("chance_percent"), Some(65));
    assert_eq!(number(&item(result.get("factors").unwrap(), 0).double_field("value").unwrap()), 8.0);
    registry::add_alias(&mut store, "stealth", "Sneaking").unwrap();
    let alias = dice::roll_check(&mut store, "s", &target, &turn_id, &by("Sneaking"), &chance_of).unwrap();
    assert_eq!(item(alias.get("factors").unwrap(), 0).str_field("attribute_name"), Some("Stealth"));
    let missing = tree("{\"factors\":[{\"entity_id\":\"missing\",\"attribute_name\":\"Stealth\"}]}");
    assert!(dice::roll_check(&mut store, "s", &target, &turn_id, &missing, &chance_of).is_err());
}

#[test]
fn labels_and_catalog_keep_existing_contract() {
    assert_eq!(tools::friendly_tool_label("create_entity", "{\"name\":\"Mira\"}"), "Introducing Mira…");
    assert_eq!(tools::friendly_tool_label("roll_check", "{\"reason\":\"escaping\"}"), "Rolling for escaping…");
    assert_eq!(tools::friendly_tool_label("unknown", "{}"), "Running unknown…");
    let settings = NarratorToolSettings::default();
    let specs = catalog::enabled(&ToolAvailability { settings: &settings, image_enabled: false, illustrate: false });
    assert_eq!(specs.len(), 5);
    assert_eq!(specs[0].name, "roll_check");
}

#[test]
fn entity_tools_write_and_read_on_the_turn_connection() {
    let store = tables("s");
    let mut private = store.copy();
    let (turn_id, target) = turn_with_passage(&mut private);
    let first = tools::create_entity(
        &mut private,
        "s",
        &target,
        &turn_id,
        &tree("{\"kind\":\"character\", \"name\":\"Mira\", \"appearance_anchor\":\"silver hair\"}"),
    )
    .unwrap();
    let id = first.str_field("id").unwrap().to_string();
    assert_eq!(first.bool_field("created"), Some(true));
    let second = tools::create_entity(&mut private, "s", &target, &turn_id, &tree("{\"kind\":\"character\", \"name\":\"mira\"}")).unwrap();
    assert_eq!(second.bool_field("created"), Some(false));
    assert_eq!(second.str_field("id"), Some(id.as_str()));
    assert_eq!(store.entities.len(), 0);
    let refused = tools::update_entity(&mut private, "s", &target, &turn_id, &tree("{\"id\":\"missing\", \"name\":\"Nobody\"}")).unwrap_err();
    assert!(format!("{:?}", refused).contains("no such entity"));
    tools::update_entity(&mut private, "s", &target, &turn_id, &tree(&format!("{{\"id\":\"{}\",\"name\":\"Mira the Bold\"}}", id))).unwrap();
    let output = tools::get_entities(&private, "s", &tree("{\"kind\":\"character\",\"name\":\"mira the bold\"}"));
    assert_eq!(item(output.get("entities").unwrap(), 0).str_field("name"), Some("Mira the Bold"));
    let events: Vec<&LedgerEntry> =
        private.entries.iter().filter(|e| e.kind == kind::ENTITY_CREATED || e.kind == kind::ENTITY_UPDATED).collect();
    assert_eq!(events.len(), 2);
    assert!(events.iter().all(|e| e.target_entry_id.as_deref() == Some(target.as_str()) && e.turn_id.as_deref() == Some(turn_id.as_str())));
    assert_eq!(store.entities.len(), 0);
}

#[test]
fn attribute_tool_applies_delta_and_honors_player_lock() {
    let mut store = tables("s");
    let (turn_id, target) = turn_with_passage(&mut store);
    let made = tools::create_entity(&mut store, "s", &target, &turn_id, &tree("{\"kind\":\"character\",\"name\":\"Mira\"}")).unwrap();
    let id = made.str_field("id").unwrap().to_string();
    let output = adjust(
        &mut store,
        &target,
        &turn_id,
        &format!("{{\"entity_id\":\"{}\",\"attribute\":\"Stealth\",\"delta\":9,\"reason\":\"sneaking\"}}", id),
    );
    assert_eq!(output, tree("{\"before\":5.0,\"after\":8.0,\"applied\":true}"));
    let snapshot = tools::get_entities(&store, "s", &tree("{\"name\":\"Mira\"}"));
    let values = item(snapshot.get("entities").unwrap(), 0).get("attributes").unwrap();
    assert_eq!(item(values, 0), &tree("{\"name\":\"Stealth\",\"value\":8.0,\"min\":0.0,\"max\":10.0}"));
    let change = store.entries.iter().find(|e| e.kind == kind::ENTITY_ATTRIBUTE_CHANGED).unwrap();
    assert_eq!(change.payload.str_field("cause"), Some("sneaking"));
    assert_eq!(change.target_entry_id.as_deref(), Some(target.as_str()));
    assert_eq!(change.turn_id.as_deref(), Some(turn_id.as_str()));
    store.attributes[0].value = double(7.0);
    store.attributes[0].source = "user".to_string();
    let locked = adjust(&mut store, &target, &turn_id, &format!("{{\"entity_id\":\"{}\",\"attribute\":\"Stealth\",\"delta\":5}}", id));
    assert_eq!(
        locked,
        tree("{\"before\":7.0,\"after\":7.0,\"applied\":false,\"reason\":\"locked to a player-set value\"}")
    );
}

#[test]
fn minted_attribute_is_immediately_available_to_later_tools() {
    let store = tables("s");
    let mut private = store.copy();
    let (turn_id, target) = turn_with_passage(&mut private);
    let made = tools::create_entity(&mut private, "s", &target, &turn_id, &tree("{\"kind\":\"artifact\",\"name\":\"Prism\"}")).unwrap();
    let id = made.str_field("id").unwrap().to_string();
    let output = adjust(&mut private, &target, &turn_id, &format!("{{\"entity_id\":\"{}\",\"attribute\":\"Resonance\",\"delta\":1.0}}", id));
    assert_eq!(number(&output.double_field("after").unwrap()), 6.0);
    let args = tree(&format!("{{\"factors\":[{{\"entity_id\":\"{}\",\"attribute_name\":\"Resonance\"}}]}}", id));
    let roll = dice::roll_check(&mut private, "s", &target, &turn_id, &args, &chance_of).unwrap();
    assert_eq!(number(&item(roll.get("factors").unwrap(), 0).double_field("value").unwrap()), 6.0);
    assert!(registry::find_exact_match(&private, "Resonance").is_some());
    assert!(registry::find_exact_match(&store, "Resonance").is_none());
}

#[test]
fn committed_tool_delta_does_not_override_a_user_set_attribute() {
    let mut store = tables("s");
    let stealth = registry::find_attribute_by_id(&store, "stealth").unwrap();
    let mut staging = TurnStaging::new("s");
    let (mira, _) = staging.resolve_or_stage_entity(&store, "character", "Mira", None);
    persist(&mut store, &staging);
    store.attributes.push(AttributeRow {
        story_id: "s".to_string(),
        entity_id: mira.id.clone(),
        attribute_id: "stealth".to_string(),
        value: double(7.0),
        source: "user".to_string(),
        updated_at: "now".to_string(),
        last_event_id: None,
    });

    let mut stale = TurnStaging::new("s");
    stale.pending.push(PendingOp::AdjustAttribute {
        entity_id: mira.id.clone(),
        attribute: stealth.copy(),
        delta: double(5.0),
        cause: "stale preview".to_string(),
        dramatic: true,
    });
    assert_eq!(number(&stale.effective_attribute_state(&store, &mira.id, &stealth, &clamp).0), 7.0);
    let snapshot = stale.attribute_snapshot_for_entities(&store, &vec![mira.id.clone()], &clamp);
    assert_eq!(number(&snapshot[0].1[0].double_field("value").unwrap()), 7.0);

    let mut later = TurnStaging::new("s");
    let preview = staged_adjust(
        &mut later,
        &mut store,
        &format!(
            "{{\"entity_id\":\"{}\",\"attribute\":\"Stealth\",\"delta\":5.0,\"dramatic\":true,\"reason\":\"the narrator decided so\"}}",
            mira.id
        ),
    )
    .unwrap();
    assert_eq!(
        preview,
        tree("{\"before\":7.0,\"after\":7.0,\"applied\":false,\"reason\":\"locked to a player-set value\"}")
    );
    assert!(!later.pending.iter().any(|op| matches!(op, PendingOp::AdjustAttribute { .. })));
    persist(&mut store, &later);
    persist(&mut store, &stale);
    let value = store.attributes.iter().find(|a| a.entity_id == mira.id).unwrap();
    assert_eq!(number(&value.value), 7.0);
    assert_eq!(value.source, "user");
}

#[test]
fn adjust_attribute_tool_previews_clamped_delta_and_rejects_unknown_entity() {
    let mut store = tables("s");
    let stealth = registry::find_attribute_by_id(&store, "stealth").unwrap();
    let mut staging = TurnStaging::new("s");
    let (mira, _) = staging.resolve_or_stage_entity(&store, "character", "Mira", None);
    let unknown = "{\"entity_id\":\"ghost\",\"attribute\":\"Stealth\",\"delta\":1.0,\"reason\":\"x\"}";
    assert_eq!(
        staged_adjust(&mut staging, &mut store, unknown).unwrap_err(),
        ToolError::InvalidArgs("no such entity: ghost".to_string())
    );
    let out = staged_adjust(
        &mut staging,
        &mut store,
        &format!("{{\"entity_id\":\"{}\",\"attribute\":\"Stealth\",\"delta\":9.0,\"reason\":\"sneaking\"}}", mira.id),
    )
    .unwrap();
    assert_eq!(number(&out.double_field("before").unwrap()), 5.0);
    assert_eq!(number(&out.double_field("after").unwrap()), 8.0);
    assert!(staging.pending.iter().any(|op| matches!(
        op,
        PendingOp::AdjustAttribute { delta, cause, dramatic: false, .. } if number(delta) == 9.0 && cause == "sneaking"
    )));
    assert_eq!(number(&staging.effective_attribute_state(&store, &mira.id, &stealth, &clamp).0), 8.0);
}

#[test]
fn update_entity_tool_rejects_unknown_ids_and_overlays_renames() {
    let store = tables("s");
    let mut staging = TurnStaging::new("s");
    let (mira, _) = staging.resolve_or_stage_entity(&store, "character", "Mira", None);
    assert_eq!(
        staged::update_entity(&mut staging, &store, &tree("{\"id\":\"does-not-exist\",\"name\":\"Nobody\"}")).unwrap_err(),
        ToolError::InvalidArgs("no such entity: does-not-exist".to_string())
    );
    let renamed = tree(&format!("{{\"id\":\"{}\",\"name\":\"Mira the Bold\"}}", mira.id));
    let out = staged::update_entity(&mut staging, &store, &renamed).unwrap();
    assert_eq!(out.str_field("name"), Some("Mira the Bold"));
    assert_eq!(staging.find_effective_entity(&store, &mira.id).unwrap().name, "Mira the Bold");
    assert!(staging.effective_entities(&store, Some("character"), Some("mira the bold")).iter().any(|e| e.id == mira.id));
}

#[test]
fn a_staged_check_rests_on_what_the_turn_has_changed() {
    let mut store = tables("s");
    let mut staging = TurnStaging::new("s");
    let (mira, _) = staging.resolve_or_stage_entity(&store, "character", "Mira", None);
    staged_adjust(
        &mut staging,
        &mut store,
        &format!("{{\"entity_id\":\"{}\",\"attribute\":\"Stealth\",\"delta\":3.0,\"reason\":\"x\"}}", mira.id),
    )
    .unwrap();
    let args = format!("{{\"reason\":\"hide\",\"factors\":[{{\"entity_id\":\"{}\",\"attribute_name\":\"Stealth\"}}]}}", mira.id);
    let out = staged_roll::stage_check(&mut staging, &store, &tree(&args), &clamp, &chance_of).unwrap();
    let factors = out.get("factors").unwrap();
    assert_eq!(number(&item(factors, 0).double_field("value").unwrap()), 8.0);
    assert_eq!(out.str_field("chance_source"), Some("attributes"));
    assert_eq!(out.str_field("reason"), Some("hide"));
    let noted = match staging.pending.last().unwrap() {
        PendingOp::Roll(roll) => roll,
        other => panic!("{:?}", other),
    };
    assert_eq!(out.int_field("roll"), Some(noted.output.roll));
    assert_eq!(out.int_field("chance_percent"), Some(chance_of(vec![noted.factors[0].copy()]) as i64));
    let asked = tree("{\"chance_percent\":100}");
    let sure = staged_roll::stage_check(&mut staging, &store, &asked, &clamp, &chance_of).unwrap();
    assert_eq!((sure.str_field("outcome"), sure.str_field("chance_source")), (Some("success"), Some("narrator")));
    let before = staging.pending.len();
    let unknown = tree("{\"factors\":[{\"entity_id\":\"ghost\",\"attribute_name\":\"Stealth\"}]}");
    assert!(matches!(
        staged_roll::stage_check(&mut staging, &store, &unknown, &clamp, &chance_of),
        Err(ToolError::InvalidArgs(message)) if message.contains("ghost")
    ));
    assert!(matches!(
        staged_roll::stage_check(&mut staging, &store, &tree("{\"chance_percent\":101}"), &clamp, &chance_of),
        Err(ToolError::InvalidArgs(_))
    ));
    assert_eq!(staging.pending.len(), before);
    persist(&mut store, &staging);
    let rolls: Vec<&LedgerEntry> = store.entries.iter().filter(|e| e.kind == kind::DICEROLL).collect();
    assert_eq!(rolls.len(), 2);
    assert_eq!(rolls[0].payload, out);
}

#[test]
fn create_entity_tool_is_idempotent_by_name_and_reports_staging() {
    let mut store = tables("s");
    let (turn_id, target) = turn_with_passage(&mut store);
    let first = tools::create_entity(
        &mut store,
        "s",
        &target,
        &turn_id,
        &tree("{\"kind\": \"character\", \"name\": \"Mira\", \"appearance_anchor\": \"silver hair\"}"),
    )
    .unwrap();
    assert_eq!(first.bool_field("created"), Some(true));
    assert_eq!(first.str_field("name"), Some("Mira"));
    let second = tools::create_entity(&mut store, "s", &target, &turn_id, &tree("{\"kind\": \"character\", \"name\": \"mira\"}")).unwrap();
    assert_eq!(second.bool_field("created"), Some(false));
    assert_eq!(second.get("id"), first.get("id"));
    assert_eq!(store.entities.len(), 1);
    let err = tools::create_entity(&mut store, "s", &target, &turn_id, &tree("{\"kind\": \"character\", \"name\": \"   \"}")).unwrap_err();
    assert!(format!("{:?}", err).contains("name is required"));
}

#[test]
fn illustrate_scene_tool_queues_requests_and_rejects_empty_descriptions() {
    let mut requests = Vec::new();
    let output = tools::illustrate_scene(
        &mut requests,
        &tree("{\"description\": \"  Mira stands beneath a lightning-split sky.  \", \"character_ids\": [\"mira\", \"watcher\"]}"),
    )
    .unwrap();
    assert_eq!(output.bool_field("queued"), Some(true));
    assert_eq!(requests.len(), 1);
    assert_eq!(requests[0].description, "Mira stands beneath a lightning-split sky.");
    assert_eq!(requests[0].character_ids, ["mira", "watcher"]);
    let error = tools::illustrate_scene(&mut requests, &tree("{\"description\": \"   \"}")).unwrap_err();
    assert!(format!("{:?}", error).contains("description is required"));
    assert_eq!(requests.len(), 1);
}

#[test]
fn a_factor_is_read_as_it_is_for_the_rest_of_the_turn() {
    let mut store = tables("s");
    let mut staging = TurnStaging::new("s");
    let (mira, _) = staging.resolve_or_stage_entity(&store, "character", "Mira", None);
    persist(&mut store, &staging);
    attributes::set_entity_attribute_sync(&mut store, "s", &mira.id, "stealth", &double(7.0)).unwrap();
    let next = TurnStaging::new("s");
    let factor = next.roll_factor(&store, &mira.id, "stealth", &clamp).unwrap();
    assert_eq!((factor.entity_name.as_str(), number(&factor.value)), ("Mira", 7.0));
    assert!(next.roll_factor(&store, "ghost", "Stealth", &clamp).is_err());
    assert_eq!(chance_of(vec![factor]), 60);
}
