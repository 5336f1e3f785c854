use dungeon::dicerolls::commands as dicerolls;
use dungeon::dicerolls::model::DiceMode;
use dungeon::double::Double;
use dungeon::entities::attributes;
use dungeon::entities::attributes::{Clamped, Reading};
use dungeon::entities::commands as by_hand;
use dungeon::entities::events::EntityEvent;
use dungeon::entities::model::AttributeRegistryEntry;
use dungeon::entities::projection;
use dungeon::entities::registry;
use dungeon::entities::registry::{AttributeResolution, ResolutionStep};
use dungeon::entities::repository as entities;
use dungeon::entities::view;
use dungeon::error::AppError;
use dungeon::json::Json;
use dungeon::ledger::kind;
use dungeon::ledger::model::LedgerEntry;
use dungeon::ledger::repository as ledger;
use dungeon::ledger::turn_tx::{TurnGate, BUSY};
use dungeon::ledger::turns;
use dungeon::mechanics::attributes as mechanics;
use dungeon::mechanics::attributes::Proposal;
use dungeon::mechanics::commands as mechanics_settings;
use dungeon::mechanics::values;
use dungeon::mechanics::values::Values;
use dungeon::narration::repository as messages;
use dungeon::store::{EntityRow, StateRow, Store, StoryRow};

fn double(x: f64) -> Double {
    Double { bits: x.to_bits(), display: x.to_string(), literal: serde_json::Value::from(x).to_string() }
}

fn number(x: &Double) -> f64 {
    f64::from_bits(x.bits)
}

fn tree(text: &str) -> Json {
    ledger::payload_of_row(text)
}

fn clamp(reading: Reading) -> Clamped {
    let min = number(&reading.min);
    let max = number(&reading.max);
    let before = match &reading.stored {
        Some(value) => number(value),
        None => (min + max) / 2.0,
    };
    let step = if reading.dramatic { max - min } else { (max - min) * 0.3 };
    let after = (before + number(&reading.delta).clamp(-step, step)).clamp(min, max);
    Clamped { before: double(before), after: double(after), change: double(after - before) }
}

fn attribute(id: &str, name: &str, min: f64, max: f64) -> AttributeRegistryEntry {
    AttributeRegistryEntry {
        id: id.to_string(),
        canonical_name: name.to_string(),
        aliases_json: "[]".to_string(),
        entity_kinds_json: "[\"character\"]".to_string(),
        min: double(min),
        max: double(max),
        category: "test".to_string(),
        is_user_created: false,
        created_in_story_id: None,
        created_at: "now".to_string(),
    }
}

fn tables(story_id: &str) -> Store {
    let mut store = Store::new();
    store.stories.push(StoryRow {
        id: story_id.to_string(),
        title: "Story".to_string(),
        created_at: "now".to_string(),
        updated_at: "now".to_string(),
        settings_json: "{}".to_string(),
    });
    store.registry.push(attribute("accuracy", "Accuracy", 0.0, 10.0));
    store.registry.push(attribute("trust", "Trust", -10.0, 10.0));
    store.registry.push(attribute("health", "Health", 0.0, 10.0));
    store.registry.push(attribute("stealth", "Stealth", 0.0, 10.0));
    store
}

fn with_mira() -> Store {
    let mut store = tables("story");
    store.entities.push(EntityRow {
        id: "entity".to_string(),
        story_id: "story".to_string(),
        kind: "character".to_string(),
        created_at: "now".to_string(),
    });
    store.states.push(StateRow {
        story_id: "story".to_string(),
        entity_id: "entity".to_string(),
        name: "Mira".to_string(),
        appearance_anchor: None,
        is_present: true,
        updated_at: "now".to_string(),
        last_event_id: None,
    });
    store
}

fn of_kind<'a>(store: &'a Store, wanted: &str) -> Vec<&'a LedgerEntry> {
    store.entries.iter().filter(|e| e.kind == wanted).collect()
}

fn live(payload: &Json, name: &str) -> Option<f64> {
    payload.double_field(name).map(|x| number(&x))
}

fn entry(kind: &str, payload: &str) -> LedgerEntry {
    LedgerEntry {
        id: "entry".to_string(),
        story_id: "story".to_string(),
        seq: 0,
        kind: kind.to_string(),
        visibility: "hidden".to_string(),
        content: None,
        payload: tree(payload),
        target_entry_id: None,
        turn_id: None,
        created_at: "ledger-created-at".to_string(),
    }
}

#[test]
fn set_attribute_helper_inserts_and_updates_with_before_payload() {
    let mut store = with_mira();
    let inserted = attributes::set_entity_attribute_sync(&mut store, "story", "entity", "accuracy", &double(3.0)).unwrap();
    let updated = attributes::set_entity_attribute_sync(&mut store, "story", "entity", "accuracy", &double(7.0)).unwrap();
    assert_eq!(number(&inserted.value), 3.0);
    assert_eq!(number(&updated.value), 7.0);
    let changed = of_kind(&store, kind::ENTITY_ATTRIBUTE_CHANGED);
    assert_eq!(changed[0].payload.get("before"), Some(&Json::Null));
    assert_eq!(live(&changed[0].payload, "after"), Some(3.0));
    assert_eq!(live(&changed[1].payload, "before"), Some(3.0));
    assert_eq!(live(&changed[1].payload, "after"), Some(7.0));
    assert_eq!(store.attributes.len(), 1);
    assert_eq!(number(&store.attributes[0].value), 7.0);
    assert_eq!(store.attributes[0].source, "user");
}

#[test]
fn remove_attribute_helper_is_idempotent() {
    let mut store = with_mira();
    attributes::set_entity_attribute_sync(&mut store, "story", "entity", "accuracy", &double(4.0)).unwrap();
    attributes::remove_entity_attribute_sync(&mut store, "story", "entity", "accuracy").unwrap();
    attributes::remove_entity_attribute_sync(&mut store, "story", "entity", "accuracy").unwrap();
    assert_eq!(store.attributes.len(), 0);
    assert_eq!(of_kind(&store, kind::ENTITY_ATTRIBUTE_REMOVED).len(), 1);
}

#[test]
fn set_attribute_helper_rejects_invalid_or_absent_inputs() {
    let mut store = with_mira();
    assert!(matches!(
        attributes::set_entity_attribute_sync(&mut store, "story", "entity", "accuracy", &double(11.0)),
        Err(AppError::Invalid(_))
    ));
    assert!(matches!(
        attributes::set_entity_attribute_sync(&mut store, "story", "missing", "accuracy", &double(5.0)),
        Err(AppError::NotFound(_))
    ));
    assert!(matches!(
        attributes::set_entity_attribute_sync(&mut store, "story", "entity", "missing", &double(5.0)),
        Err(AppError::NotFound(_))
    ));
    assert_eq!(of_kind(&store, kind::ENTITY_ATTRIBUTE_CHANGED).len(), 0);
}

#[test]
fn first_inferred_delta_records_one_event_from_the_midpoint() {
    let mut store = with_mira();
    let passage = messages::insert_story_entry(&mut store, "story", "narrator", "generated", "Scene", None, None).unwrap();
    let accuracy = registry::find_attribute_by_id(&store, "accuracy").unwrap();
    let (before, after) = attributes::apply_attribute_delta(
        &mut store,
        "story",
        "entity",
        &accuracy,
        &double(2.0),
        "first change",
        &passage.id,
        false,
        None,
        &clamp,
    )
    .unwrap();
    assert_eq!((number(&before), number(&after)), (5.0, 7.0));
    let changed = of_kind(&store, kind::ENTITY_ATTRIBUTE_CHANGED);
    assert_eq!(changed.len(), 1);
    assert_eq!(live(&changed[0].payload, "before"), Some(5.0));
    assert_eq!(live(&changed[0].payload, "after"), Some(7.0));
    assert_eq!(live(&changed[0].payload, "delta"), Some(2.0));
    assert_eq!(changed[0].payload.str_field("cause"), Some("first change"));
    assert_eq!(changed[0].content.as_deref(), Some("Accuracy changed from 5 to 7: first change"));
}

#[test]
fn payload_omits_absent_delta_and_cause() {
    let event = EntityEvent::AttributeChanged {
        entity_id: "entity".to_string(),
        attribute_id: "attribute".to_string(),
        attribute_name: "Accuracy".to_string(),
        before: None,
        after: double(7.0),
        source: "user".to_string(),
        delta: None,
        cause: None,
    };
    assert_eq!(
        event.payload(),
        tree("{\"entity_id\":\"entity\",\"attribute_id\":\"attribute\",\"attribute_name\":\"Accuracy\",\"before\":null,\"after\":7.0,\"source\":\"user\"}")
    );
}

#[test]
fn parser_uses_ledger_creation_time_and_legacy_attribute_source() {
    let created = EntityEvent::from_entry(&entry(
        kind::ENTITY_CREATED,
        "{\"entity_id\":\"entity\",\"kind\":\"character\",\"name\":\"Mira\",\"appearance_anchor\":null,\"source\":\"user\"}",
    ))
    .unwrap();
    assert!(matches!(created, EntityEvent::Created { created_at, .. } if created_at == "ledger-created-at"));

    let changed = EntityEvent::from_entry(&entry(
        kind::ENTITY_ATTRIBUTE_CHANGED,
        "{\"entity_id\":\"entity\", \"attribute_id\":\"attribute\", \"after\":4.0}",
    ))
    .unwrap();
    assert!(matches!(changed, EntityEvent::AttributeChanged { source, .. } if source == "inferred"));
}

#[test]
fn parser_skips_entries_missing_required_fields() {
    assert!(EntityEvent::from_entry(&entry(kind::ENTITY_CREATED, "{\"entity_id\":\"entity\", \"name\":\"Mira\"}")).is_none());
    assert!(EntityEvent::from_entry(&entry(kind::ENTITY_UPDATED, "{\"entity_id\":\"entity\", \"after\":{}}")).is_none());
}

#[test]
fn events_read_back_from_what_they_are_written_as() {
    let mut store = tables("story");
    let event = EntityEvent::Deleted {
        entity_id: "mira".to_string(),
        name: "Mira".to_string(),
        source: "user".to_string(),
    };
    let written = projection::record(&mut store, "story", None, "Mira left.", &event, None).unwrap();
    assert_eq!(EntityEvent::from_entry(&written), Some(event));
}

type StateSnapshot = Vec<(String, String, Option<String>, bool, Option<String>)>;
type AttributeSnapshot = Vec<(String, String, f64, String, Option<String>)>;

fn snapshots(store: &Store) -> (StateSnapshot, AttributeSnapshot) {
    let mut state: StateSnapshot = store
        .states
        .iter()
        .map(|s| (s.entity_id.clone(), s.name.clone(), s.appearance_anchor.clone(), s.is_present, s.last_event_id.clone()))
        .collect();
    state.sort();
    let mut values: AttributeSnapshot = store
        .attributes
        .iter()
        .map(|a| (a.entity_id.clone(), a.attribute_id.clone(), number(&a.value), a.source.clone(), a.last_event_id.clone()))
        .collect();
    values.sort_by(|a, b| (&a.0, &a.1).cmp(&(&b.0, &b.1)));
    (state, values)
}

fn infer(store: &mut Store, entity: &str, delta: f64, cause: &str, passage: &str, dramatic: bool) -> (f64, f64) {
    let accuracy = registry::find_attribute_by_id(store, "accuracy").unwrap();
    let (before, after) = attributes::apply_attribute_delta(
        store,
        "story",
        entity,
        &accuracy,
        &double(delta),
        cause,
        passage,
        dramatic,
        None,
        &clamp,
    )
    .unwrap();
    (number(&before), number(&after))
}

#[test]
fn writes_and_rebuild_produce_identical_state() {
    let mut store = tables("story");
    let passage = messages::insert_story_entry(&mut store, "story", "narrator", "generated", "A scene", None, None).unwrap();
    entities::create_entity_with_id_sync(&mut store, "mira", "story", "character", "Mira", Some("silver hair"), "test", None).unwrap();
    entities::update_entity_sync(
        &mut store,
        "story",
        "mira",
        "Mira Vale",
        Some("silver hair and a red cloak"),
        "narrator_tool",
        Some(&passage.id),
    )
    .unwrap();
    infer(&mut store, "mira", 2.0, "first inference", &passage.id, false);
    infer(&mut store, "mira", 1.0, "follow-up inference", &passage.id, false);
    infer(&mut store, "mira", 100.0, "dramatic inference", &passage.id, true);

    entities::create_entity_with_id_sync(&mut store, "guard", "story", "character", "Guard", None, "test", None).unwrap();
    attributes::set_entity_attribute_sync(&mut store, "story", "guard", "accuracy", &double(7.0)).unwrap();
    assert_eq!(infer(&mut store, "guard", -4.0, "locked inference", &passage.id, true), (7.0, 7.0));
    attributes::remove_entity_attribute_sync(&mut store, "story", "guard", "accuracy").unwrap();

    entities::create_entity_with_id_sync(&mut store, "temporary", "story", "location", "Temporary Camp", None, "test", None).unwrap();
    entities::delete_entity_sync(&mut store, "story", "temporary").unwrap();

    let before = snapshots(&store);
    projection::rebuild_story(&mut store, "story", None, "later");
    assert_eq!(snapshots(&store), before);
}

#[test]
fn a_story_rebuilds_among_others_and_a_second_time() {
    let mut store = tables("story");
    store.stories.push(StoryRow {
        id: "other".to_string(),
        title: "Other".to_string(),
        created_at: "now".to_string(),
        updated_at: "now".to_string(),
        settings_json: "{}".to_string(),
    });
    entities::create_entity_with_id_sync(&mut store, "mira", "story", "character", "Mira", None, "test", None).unwrap();
    entities::create_entity_with_id_sync(&mut store, "tomas", "other", "character", "Tomas", None, "test", None).unwrap();
    messages::insert_story_entry(&mut store, "story", "player", "do", "Wait", None, None).unwrap();
    attributes::set_entity_attribute_sync(&mut store, "other", "tomas", "accuracy", &double(4.0)).unwrap();
    attributes::set_entity_attribute_sync(&mut store, "story", "mira", "accuracy", &double(7.0)).unwrap();
    entities::update_entity_sync(&mut store, "story", "mira", "Mira Vale", None, "user", None).unwrap();
    entities::delete_entity_sync(&mut store, "other", "tomas").unwrap();
    let before = snapshots(&store);
    projection::rebuild_story(&mut store, "story", None, "later");
    assert_eq!(snapshots(&store), before);
    projection::rebuild_story(&mut store, "story", None, "later still");
    assert_eq!(snapshots(&store), before);
    projection::rebuild_story(&mut store, "other", None, "later still");
    assert_eq!(store.states.iter().filter(|s| s.entity_id == "tomas" && !s.is_present && s.name == "Tomas").count(), 1);
    assert_eq!(store.attributes.iter().filter(|a| a.entity_id == "tomas").count(), 1);
}

#[test]
fn minted_attribute_remaps_when_name_becomes_an_alias_before_commit() {
    let mut store = tables("story");
    let staged = registry::build_minted_attribute("Resonance", "artifact", "story");
    let existing = registry::find_exact_match(&store, "Accuracy").unwrap();
    registry::add_alias(&mut store, &existing.id, "Resonance").unwrap();
    let resolved_id = registry::insert_minted_attribute(&mut store, &staged).unwrap();
    assert_eq!(resolved_id, existing.id);
    assert_eq!(store.registry.iter().filter(|a| a.canonical_name.to_lowercase() == "resonance").count(), 0);
}

#[test]
fn the_kinds_of_an_attribute_are_read_from_lists_objects_and_texts() {
    let mut store = Store::new();
    for (id, kinds) in [
        ("list", "[\"artifact\",\"location\"]"),
        ("object", "{\"first\":\"location\"}"),
        ("text", "\"location\""),
        ("spaced", " [ \"location\" ] "),
        ("number", "[7]"),
        ("nothing", "[]"),
    ] {
        let mut row = attribute(id, id, 0.0, 10.0);
        row.entity_kinds_json = kinds.to_string();
        store.registry.push(row);
    }
    let ids = |kind: &str| match registry::load_registry_for_kind(&store, kind) {
        Ok(found) => found.into_iter().map(|a| a.id).collect::<Vec<_>>(),
        Err(e) => panic!("{:?}", e),
    };
    assert_eq!(ids("location"), vec!["list", "object", "text", "spaced"]);
    assert_eq!(ids("artifact"), vec!["list"]);
    assert_eq!(ids("7"), Vec::<String>::new());
    let mut broken = attribute("broken", "Broken", 0.0, 10.0);
    broken.entity_kinds_json = "location".to_string();
    store.registry.push(broken);
    assert_eq!(
        registry::load_registry_for_kind(&store, "artifact").unwrap_err(),
        AppError::Db("malformed JSON".to_string())
    );
}

#[test]
fn a_name_resolves_by_itself_or_by_the_most_similar_attribute() {
    let store = tables("story");
    match registry::resolve_by_name(&store, " accuracy ", "character", "story").unwrap() {
        ResolutionStep::Done(AttributeResolution::Existing(found)) => assert_eq!(found.id, "accuracy"),
        other => panic!("{:?}", other),
    }
    let candidates = registry::load_registry_for_kind(&store, "character").unwrap();
    let texts = registry::compared_texts("Precision", &candidates);
    assert_eq!(texts.len(), candidates.len() + 1);
    let close: Vec<u64> = candidates.iter().map(|a| if a.id == "accuracy" { 0.95f64.to_bits() } else { 0.1f64.to_bits() }).collect();
    match registry::resolve_by_similarity("Precision", "character", "story", &candidates, &close) {
        AttributeResolution::AddAlias { attribute, alias } => {
            assert_eq!(attribute.id, "accuracy");
            assert_eq!(alias, "Precision");
        }
        other => panic!("{:?}", other),
    }
    let far: Vec<u64> = candidates.iter().map(|_| 0.1f64.to_bits()).collect();
    assert!(matches!(
        registry::resolve_by_similarity("Precision", "character", "story", &candidates, &far),
        AttributeResolution::Mint(minted) if minted.canonical_name == "Precision"
    ));
}

fn changed(store: &mut Store, before: Option<f64>, after: f64, turn: &str) {
    projection::record(
        store,
        "story",
        None,
        "Guard Health changed.",
        &EntityEvent::AttributeChanged {
            entity_id: "guard".to_string(),
            attribute_id: "health".to_string(),
            attribute_name: "Health".to_string(),
            before: before.map(double),
            after: double(after),
            source: "inferred".to_string(),
            delta: None,
            cause: None,
        },
        Some(turn),
    )
    .unwrap();
}

#[test]
fn view_excludes_retried_turn_effects() {
    let mut live = tables("story");
    let turn_one = turns::create_turn(&mut live, "story").unwrap();
    entities::create_entity_with_id_in_turn(&mut live, "guard", "story", "character", "Guard", None, "narrator_tool", None, Some(&turn_one)).unwrap();
    changed(&mut live, None, 7.0, &turn_one);
    let turn_two = turns::create_turn(&mut live, "story").unwrap();
    changed(&mut live, Some(7.0), 2.0, &turn_two);
    assert_eq!(number(&live.attributes[0].value), 2.0);

    let seen = view::excluding_turn(&live, "story", &turn_two, "later");
    assert_eq!(seen.attributes.len(), 1);
    assert_eq!(number(&seen.attributes[0].value), 7.0);
    assert_eq!(number(&live.attributes[0].value), 2.0);
}

#[test]
fn view_skips_player_attribute_event_when_entity_creation_is_excluded() {
    let mut live = tables("story");
    let turn_id = turns::create_turn(&mut live, "story").unwrap();
    entities::create_entity_with_id_in_turn(&mut live, "guard", "story", "character", "Guard", None, "narrator_tool", None, Some(&turn_id)).unwrap();
    attributes::set_entity_attribute_sync(&mut live, "story", "guard", "health", &double(7.0)).unwrap();

    let seen = view::excluding_turn(&live, "story", &turn_id, "later");
    assert_eq!(seen.attributes.len(), 0);
    assert_eq!(of_kind(&seen, kind::ENTITY_ATTRIBUTE_CHANGED).len(), 1);
}

#[test]
fn entities_are_listed_by_kind_and_refused_without_a_name() {
    let mut store = tables("story");
    entities::create_entity_sync(&mut store, "story", "character", " Mira ", Some("  "), "user", None).unwrap();
    entities::create_entity_sync(&mut store, "story", "location", "Harbor", None, "user", None).unwrap();
    let people = entities::list_entities_sync(&store, "story", Some("character"));
    assert_eq!(people.len(), 1);
    assert_eq!(people[0].name, "Mira");
    assert_eq!(people[0].appearance_anchor, None);
    assert_eq!(
        entities::create_entity_sync(&mut store, "story", "character", "  ", None, "user", None).unwrap_err(),
        AppError::Invalid("name must not be empty".to_string())
    );
    assert_eq!(
        entities::update_entity_sync(&mut store, "story", "nobody", "X", None, "user", None).unwrap_err(),
        AppError::NotFound("entity nobody not found".to_string())
    );
    entities::delete_entity_sync(&mut store, "story", &people[0].id).unwrap();
    assert!(entities::list_entities_sync(&store, "story", Some("character")).is_empty());
}

#[test]
fn reasoning_effort_accepts_only_provider_levels() {
    assert_eq!(dicerolls::normalize_reasoning_effort("none"), Some("none"));
    assert_eq!(dicerolls::normalize_reasoning_effort("MINIMAL"), Some("minimal"));
    assert_eq!(dicerolls::normalize_reasoning_effort(" high "), Some("high"));
    assert_eq!(dicerolls::normalize_reasoning_effort("xhigh"), Some("xhigh"));
    assert_eq!(dicerolls::normalize_reasoning_effort("max"), Some("max"));
    assert_eq!(dicerolls::normalize_reasoning_effort(""), None);
    assert_eq!(dicerolls::normalize_reasoning_effort("off"), None);
    assert_eq!(dicerolls::normalize_reasoning_effort("medium "), Some("medium"));
    assert_eq!(dicerolls::normalize_reasoning_effort("turbo"), None);
}

#[test]
fn fresh_stories_default_dice_rolls_to_disabled() {
    let store = tables("story");
    let settings = dicerolls::read_story_diceroll_settings(&store, "story").unwrap();
    assert!(!settings.attributes_enabled);
}

#[test]
fn dice_settings_read_back_as_they_were_saved() {
    let mut store = tables("story");
    dicerolls::save_story_diceroll_settings(&mut store, "story", "always", true, Some(" HIGH ")).unwrap();
    let settings = dicerolls::read_story_diceroll_settings(&store, "story").unwrap();
    assert!(settings.attributes_enabled);
    assert_eq!(settings.dice_mode, "always");
    assert_eq!(settings.reasoning_effort.as_deref(), Some("high"));
    assert_eq!(DiceMode::from_str_or_default("always").as_str(), "always");
    assert_eq!(DiceMode::from_str_or_default("no such"), DiceMode::Classifier);
}

#[test]
fn roll_details_reject_unknown_entry_id() {
    let store = tables("story");
    let error = dicerolls::list_roll_details_for_entry(&store, "story", "missing").unwrap_err();
    assert!(matches!(error, AppError::NotFound(message) if message == "ledger entry missing not found"));
}

#[test]
fn roll_details_are_scoped_to_the_story() {
    let mut store = tables("story");
    let anchor = ledger::append_entry(
        &mut store,
        "story",
        kind::NARRATION,
        "visible",
        Some("anchor"),
        &tree("{\"input_mode\":\"generated\"}"),
        None,
        None,
    )
    .unwrap();
    let kept = ledger::append_entry(
        &mut store,
        "story",
        kind::DICEROLL,
        "hidden",
        Some("test roll"),
        &tree("{\"actor_entity_id\":\"actor\",\"p_success\":0.5,\"seed\":60,\"roll\":60,\"outcome\":\"success\",\"degree\":\"marginal\"}"),
        Some(&anchor.id),
        None,
    )
    .unwrap();
    let details = dicerolls::list_roll_details_for_entry(&store, "story", &anchor.id).unwrap();
    let ids: Vec<&str> = details.iter().map(|d| d.roll.id.as_str()).collect();
    assert_eq!(ids, vec![kept.id.as_str()]);
}

#[test]
fn mechanics_settings_read_back_as_they_were_saved() {
    let mut store = tables("story");
    mechanics_settings::save_story_mechanics_settings(&mut store, "story", "story", "never", true).unwrap();
    let settings = mechanics_settings::get_story_mechanics_settings(&store, "story").unwrap();
    assert_eq!(settings.dice_mode, "never");
    assert!(settings.attributes_enabled);
}

#[test]
fn a_proposed_attribute_is_taken_or_left_to_be_compared() {
    let mut store = tables("story");
    match mechanics::resolve_or_create_attribute(&mut store, "ACCURACY", "character", "story").unwrap() {
        Proposal::Taken(found) => assert_eq!(found.id, "accuracy"),
        other => panic!("{:?}", other),
    }
    assert!(matches!(
        mechanics::resolve_or_create_attribute(&mut store, "Precision", "character", "story").unwrap(),
        Proposal::Compare { candidates, .. } if candidates.len() == 4
    ));
    match mechanics::resolve_or_create_attribute(&mut store, "Tide", "sea", "story").unwrap() {
        Proposal::Taken(minted) => assert_eq!(minted.canonical_name, "Tide"),
        other => panic!("{:?}", other),
    }
}

#[test]
fn a_compared_attribute_becomes_an_alias_or_a_new_one() {
    let mut store = tables("story");
    let candidates = match mechanics::resolve_or_create_attribute(&mut store, "Precision", "character", "story").unwrap() {
        Proposal::Compare { candidates, .. } => candidates,
        other => panic!("{:?}", other),
    };
    let near: Vec<u64> = [0.9f64, 0.2, 0.1, 0.3].iter().map(|x| x.to_bits()).collect();
    let alias = mechanics::finish_proposal(&mut store, "Precision", "character", "story", &candidates, &near).unwrap();
    assert_eq!(alias.id, candidates[0].id);
    assert_eq!(registry::find_exact_match(&store, "precision").unwrap().id, candidates[0].id);
    let far: Vec<u64> = [0.84f64, 0.2, 0.1, 0.3].iter().map(|x| x.to_bits()).collect();
    let minted = mechanics::finish_proposal(&mut store, "Patience", "character", "story", &candidates, &far).unwrap();
    assert_eq!(minted.canonical_name, "Patience");
    assert_eq!((number(&minted.min), number(&minted.max)), (0.0, 10.0));
    assert!(mechanics::finish_proposal(&mut store, "Patience", "character", "story", &candidates, &far).is_err());
}

#[test]
fn a_change_by_hand_waits_for_an_idle_story_and_is_whole() {
    let mut store = tables("story");
    let mut gate = TurnGate::default();
    let ticket = gate.check_idle("story").unwrap();
    let made = by_hand::create_entity(&gate, &ticket, &mut store, "story", "character", " Ada ", Some(" ")).unwrap();
    assert_eq!((made.name.as_str(), made.appearance_anchor.clone()), ("Ada", None));
    let renamed = by_hand::update_entity(&gate, &ticket, &mut store, "story", &made.id, "Ada Vale", None).unwrap();
    assert_eq!(renamed.name, "Ada Vale");
    let set = by_hand::set_entity_attribute(&gate, &ticket, &mut store, "story", &made.id, "trust", &double(4.0)).unwrap();
    assert_eq!((number(&set.value), set.source.as_str()), (4.0, "user"));
    by_hand::remove_entity_attribute(&gate, &ticket, &mut store, "story", &made.id, "trust").unwrap();
    let told = store.copy();
    assert!(by_hand::create_entity(&gate, &ticket, &mut store, "story", "character", " ", None).is_err());
    assert!(by_hand::delete_entity(&gate, &ticket, &mut store, "story", "missing").is_err());
    assert_eq!(store, told);
    let guard = gate.acquire("story").unwrap();
    let busy = AppError::Invalid(BUSY.to_string());
    assert_eq!(by_hand::delete_entity(&gate, &ticket, &mut store, "story", &made.id).unwrap_err(), busy);
    gate.release(guard);
    assert_eq!(by_hand::delete_entity(&gate, &ticket, &mut store, "story", &made.id).unwrap_err(), busy);
    assert_eq!(store, told);
    let later = gate.check_idle("story").unwrap();
    by_hand::delete_entity(&gate, &later, &mut store, "story", &made.id).unwrap();
    assert!(entities::list_entities_sync(&store, "story", None).iter().all(|e| e.id != made.id));
}

#[test]
fn a_new_attribute_is_found_by_its_name_in_any_case() {
    let mut store = tables("story");
    assert!(registry::find_exact_match(&store, "Lockpicking").is_none());
    let minted = registry::build_minted_attribute(" Lockpicking ", "character", "story");
    let id = registry::insert_minted_attribute(&mut store, &minted).unwrap();
    assert_eq!(id, minted.id);
    assert_eq!(registry::find_exact_match(&store, "  LOCKPICKING").unwrap(), minted);
}

#[test]
fn a_value_starts_at_the_midpoint_and_stays_until_it_is_changed() {
    let mut sheet = Values { current: vec![], events: vec![] };
    let trust = attribute("trust", "Trust", -10.0, 10.0);
    let first = values::get_or_init_entity_attribute(&mut sheet, "guard", &trust, &double(0.0));
    assert_eq!(number(&first), 0.0);
    let again = values::get_or_init_entity_attribute(&mut sheet, "guard", &trust, &double(7.0));
    assert_eq!(number(&again), 0.0);
    assert_eq!(sheet.current.len(), 1);
    assert!(sheet.events.is_empty());
}

#[test]
fn a_change_of_a_value_is_held_to_its_step_and_written_down() {
    let mut sheet = Values { current: vec![], events: vec![] };
    let health = attribute("health", "Health", 0.0, 10.0);
    values::get_or_init_entity_attribute(&mut sheet, "thief", &health, &double(5.0));
    let (before, after) =
        values::apply_attribute_delta(&mut sheet, "guard", &health, &double(-9.0), "a fall", "passage", false, &clamp);
    assert_eq!((number(&before), number(&after)), (5.0, 2.0));
    let (before, after) =
        values::apply_attribute_delta(&mut sheet, "guard", &health, &double(-9.0), "a blow", "passage", true, &clamp);
    assert_eq!((number(&before), number(&after)), (2.0, 0.0));
    let held: Vec<(&str, f64)> = sheet.current.iter().map(|v| (v.entity_id.as_str(), number(&v.value))).collect();
    assert_eq!(held, vec![("thief", 5.0), ("guard", 0.0)]);
    let told: Vec<(&str, f64)> = sheet.events.iter().map(|e| (e.cause.as_str(), number(&e.delta))).collect();
    assert_eq!(told, vec![("a fall", -3.0), ("a blow", -2.0)]);
    assert_eq!(sheet.events[0].id.len(), 36);
    assert_eq!(sheet.current[1].updated_at, sheet.events[1].created_at);
}

#[test]
fn results_are_listed_for_their_entry_and_their_timeline() {
    let mut store = tables("story");
    let anchor = ledger::append_entry(&mut store, "story", kind::NARRATION, "visible", Some("anchor"), &tree("{}"), None, None).unwrap();
    let told = "{\"actor_entity_id\":\"actor\",\"p_success\":0.5,\"seed\":60,\"roll\":60,\"outcome\":\"success\",\"degree\":\"marginal\"}";
    for result_kind in [mechanics_settings::MECHANICAL_RESULT, kind::DICEROLL] {
        ledger::append_entry(&mut store, "story", result_kind, "hidden", Some("roll"), &tree(told), Some(&anchor.id), None).unwrap();
    }
    assert_eq!(mechanics_settings::list_rolls_for_entry(&store, &anchor.id).unwrap().len(), 1);
    assert_eq!(mechanics_settings::list_rolls_for_branch(&store, "story").len(), 1);
    let detail = mechanics_settings::get_roll_detail(&store, &anchor.id).unwrap().unwrap();
    assert_eq!((detail.roll.roll, detail.roll.outcome.as_str()), (60, "success"));
    assert!(mechanics_settings::get_roll_detail(&store, "missing").is_err());
    assert_eq!(dicerolls::list_rolls_for_story(&store, "story").len(), 1);
}

#[test]
fn attributes_are_listed_by_name_for_each_entity() {
    let mut store = with_mira();
    attributes::set_entity_attribute_sync(&mut store, "story", "entity", "trust", &double(4.0)).unwrap();
    attributes::set_entity_attribute_sync(&mut store, "story", "entity", "health", &double(9.0)).unwrap();
    let listed = attributes::list_entity_attributes_for_entities_sync(&store, "story", &vec!["entity".to_string()]);
    let names: Vec<&str> = listed[0].1.iter().map(|v| v.canonical_name.as_str()).collect();
    assert_eq!(names, vec!["Health", "Trust"]);
    let known: Vec<String> = registry::list_attribute_registry_sync(&store).into_iter().map(|a| a.canonical_name).collect();
    assert_eq!(known, vec!["Accuracy", "Health", "Stealth", "Trust"]);
}
