use dungeon::entities::repository as entities;
use dungeon::error::AppError;
use dungeon::images::generation;
use dungeon::images::generation::ImageTarget;
use dungeon::images::model::StoryImage;
use dungeon::images::openrouter;
use dungeon::images::openrouter::{GeneratedImage, ImageData, ImageResponse};
use dungeon::images::repository;
use dungeon::json::Json;
use dungeon::ledger::kind;
use dungeon::ledger::model::LedgerEntry;
use dungeon::ledger::repository as ledger;
use dungeon::ledger::turn_tx::{TurnGate, TurnTx};
use dungeon::ledger::turns;
use dungeon::narration::repository as messages;
use dungeon::settings::Preferences;
use dungeon::store::{Store, StoryRow};

fn tree(text: &str) -> Json {
    ledger::payload_of_row(text)
}

fn tables() -> Store {
    let mut store = Store::new();
    store.stories.push(StoryRow {
        id: "s".to_string(),
        title: "Story".to_string(),
        created_at: "now".to_string(),
        updated_at: "now".to_string(),
        settings_json: "{}".to_string(),
    });
    store
}

fn turn_fixture() -> (Store, TurnGate, TurnTx, String, String) {
    let mut store = tables();
    let mut gate = TurnGate::default();
    let turn = TurnTx::begin(&mut gate, "s").unwrap();
    let turn_id = turns::create_turn(&mut store, "s").unwrap();
    let entry = messages::insert_story_entry(&mut store, "s", "narrator", "generated", "Scene", None, Some(&turn_id)).unwrap();
    (store, gate, turn, turn_id, entry.id)
}

#[test]
fn persisted_image_is_private_until_turn_commit() {
    let (pool, mut gate, mut turn, turn_id, entry_id) = turn_fixture();
    let mut private = pool.copy();
    let generated = GeneratedImage { bytes: vec![1, 2, 3], media_type: "image/webp".to_string() };
    let target = ImageTarget { entry_id, source_action_id: None, turn_id: turn_id.clone() };
    let image = turn
        .with_savepoint(&mut private, |given| {
            let mut step = given;
            let made = generation::persist_and_store_image(&mut step, &target, "the scene", "the scene", &generated);
            (step, made)
        })
        .unwrap();
    assert_eq!(private.images.len(), 1);
    assert_eq!(pool.images.len(), 0);
    turn.commit(&mut gate, Ok(())).unwrap();
    let asset = private.images.iter().find(|i| i.id == image.id).unwrap();
    let blob = private.blobs.iter().find(|b| b.asset_id == image.id).unwrap();
    assert_eq!(asset.path, "");
    assert_eq!(blob.media_type, "image/webp");
    assert_eq!(blob.bytes, vec![1, 2, 3]);
    let event = private.entries.iter().find(|e| e.kind == kind::IMAGE_GENERATED).unwrap();
    assert_eq!(event.turn_id, Some(turn_id));
    assert_eq!(event.payload.str_field("asset_id"), Some(image.id.as_str()));
    assert_eq!(repository::list_for_story(&private, "s").len(), 1);
}

#[test]
fn an_image_of_no_entry_is_not_kept() {
    let (mut store, _gate, _turn, turn_id, _entry_id) = turn_fixture();
    let before = store.copy();
    let target = ImageTarget { entry_id: "nowhere".to_string(), source_action_id: None, turn_id };
    let generated = GeneratedImage { bytes: vec![1], media_type: "image/png".to_string() };
    assert_eq!(
        generation::persist_and_store_image(&mut store, &target, "the scene", "the scene", &generated).unwrap_err(),
        AppError::NotFound("ledger entry nowhere not found".to_string())
    );
    assert_eq!(store, before);
}

#[test]
fn event_failure_rolls_back_image_savepoint_but_preserves_turn() {
    let (mut store, mut gate, mut turn, turn_id, entry_id) = turn_fixture();
    let image = StoryImage {
        id: "rolled-back-image".to_string(),
        entry_id: entry_id.clone(),
        path: String::new(),
        prompt: "the scene".to_string(),
        created_at: "now".to_string(),
    };
    let target = ImageTarget { entry_id: entry_id.clone(), source_action_id: Some("missing-action".to_string()), turn_id: turn_id.clone() };
    let generated = GeneratedImage { bytes: vec![1, 2, 3], media_type: "image/png".to_string() };
    assert!(turn
        .with_savepoint(&mut store, |given| {
            let mut step = given;
            let made = generation::persist_image_record(&mut step, &target, "the scene", &image, &generated);
            (step, made)
        })
        .is_err());
    assert_eq!(store.images.len(), 0);
    assert_eq!(store.blobs.len(), 0);
    ledger::append_entry(&mut store, "s", kind::CONTENT_EDITED, "hidden", Some("turn remains writable"), &tree("{}"), None, Some(&turn_id)).unwrap();
    turn.commit(&mut gate, Ok(())).unwrap();
    assert_eq!(store.images.len(), 0);
    assert_eq!(store.blobs.len(), 0);
    assert_eq!(store.entries.iter().filter(|e| e.kind == kind::IMAGE_GENERATED).count(), 0);
    assert_eq!(turns::last_turn(&store, "s").unwrap().status, turns::COMPLETE);
    assert_eq!(store.entries.iter().filter(|e| e.id == entry_id).count(), 1);
}

#[test]
fn a_failed_step_leaves_the_other_writes_of_a_turn() {
    let mut gate = TurnGate::default();
    let mut turn = TurnTx::begin(&mut gate, "s").unwrap();
    let mut store = tables();
    let failed: Result<(), AppError> = turn.with_savepoint(&mut store, |given| {
        let mut step = given;
        step.stories.clear();
        (step, Err(AppError::Other("x".to_string())))
    });
    assert_eq!(failed.unwrap_err(), AppError::Other("x".to_string()));
    assert_eq!(store.stories.len(), 1);
    turn.commit(&mut gate, Ok(())).unwrap();
    let late: Result<(), AppError> = turn.with_savepoint(&mut store, |given| (given, Ok(())));
    assert_eq!(late.unwrap_err(), AppError::Invalid("turn transaction is already finished".to_string()));
}

fn event(id: &str, event_kind: &str, target: &str, payload: &str) -> LedgerEntry {
    LedgerEntry {
        id: id.to_string(),
        story_id: "s".to_string(),
        seq: 0,
        kind: event_kind.to_string(),
        visibility: "hidden".to_string(),
        content: None,
        payload: tree(payload),
        target_entry_id: Some(target.to_string()),
        turn_id: None,
        created_at: "now".to_string(),
    }
}

fn asset(id: &str, entry_id: &str, path: &str) -> StoryImage {
    StoryImage {
        id: id.to_string(),
        entry_id: entry_id.to_string(),
        path: path.to_string(),
        prompt: String::new(),
        created_at: "now".to_string(),
    }
}

#[test]
fn detaching_an_entry_removes_only_its_images_and_events() {
    let mut store = Store::new();
    store.images.push(asset("asset-1", "entry-1", "first.png"));
    store.images.push(asset("asset-2", "entry-2", "second.png"));
    store.entries.push(event("event-1", "image_generated", "entry-1", "{\"asset_id\":\"asset-1\"}"));
    store.entries.push(event("event-2", "image_generated", "entry-2", "{\"asset_id\":\"asset-2\"}"));
    store.entries.push(event("event-3", "content_edited", "entry-1", "{}"));
    store.entries.push(event("event-4", "image_generated", "see-action", "{\"asset_id\":\"asset-1\"}"));
    store.entries.push(event("event-5", "image_generated", "other-see-action", "{\"asset_id\":\"asset-2\"}"));

    assert_eq!(repository::detach_from_entry(&mut store, "entry-1"), vec!["first.png"]);
    assert_eq!(repository::image_paths_for_entry(&store, "entry-1"), Vec::<String>::new());
    assert_eq!(repository::image_paths_for_entry(&store, "entry-2"), vec!["second.png"]);
    let mut ids: Vec<&str> = store.entries.iter().map(|e| e.id.as_str()).collect();
    ids.sort();
    assert_eq!(ids, vec!["event-2", "event-3", "event-5"]);
    assert_eq!(repository::delete_asset_by_id(&mut store, "asset-2"), Some("second.png".to_string()));
    assert_eq!(repository::delete_asset_by_id(&mut store, "asset-2"), None);
}

#[test]
fn an_image_is_named_by_a_number_or_a_truth_value_as_by_its_text() {
    let mut store = Store::new();
    for id in ["7", "-3", "1"] {
        store.images.push(asset(id, "entry-1", id));
    }
    store.entries.push(event("by-number", "image_generated", "see", "{\"asset_id\":7}"));
    store.entries.push(event("by-negative", "image_generated", "see", "{\"asset_id\":-3}"));
    store.entries.push(event("by-truth", "image_generated", "see", "{\"asset_id\":true}"));
    store.entries.push(event("by-null", "image_generated", "see", "{\"asset_id\":null}"));
    store.entries.push(event("by-other", "image_generated", "see", "{\"asset_id\":8}"));
    assert_eq!(repository::detach_from_entry(&mut store, "entry-1"), vec!["7", "-3", "1"]);
    let ids: Vec<&str> = store.entries.iter().map(|e| e.id.as_str()).collect();
    assert_eq!(ids, vec!["by-null", "by-other"]);
}

fn answer(success: bool, data: Option<Vec<ImageData>>, error: Option<&str>) -> ImageResponse {
    ImageResponse { success, status: "502 Bad Gateway".to_string(), data, error: error.map(str::to_string) }
}

fn data(b64: Option<&str>, media_type: Option<&str>) -> ImageData {
    ImageData { b64_json: b64.map(str::to_string), media_type: media_type.map(str::to_string) }
}

#[test]
fn the_first_image_of_an_answer_is_decoded() {
    let made = openrouter::generated_image(&answer(true, Some(vec![data(Some("AQID"), None)]), None)).unwrap();
    assert_eq!(made, GeneratedImage { bytes: vec![1, 2, 3], media_type: "image/png".to_string() });
    let webp = openrouter::generated_image(&answer(true, Some(vec![data(Some("/w=="), Some("image/webp"))]), None)).unwrap();
    assert_eq!(webp, GeneratedImage { bytes: vec![255], media_type: "image/webp".to_string() });
}

#[test]
fn an_answer_without_an_image_is_refused() {
    let refusal = |response: ImageResponse| match openrouter::generated_image(&response) {
        Err(AppError::Other(message)) => message,
        other => panic!("{:?}", other),
    };
    assert_eq!(refusal(answer(false, None, None)), "image generation failed: HTTP 502 Bad Gateway");
    assert_eq!(refusal(answer(false, None, Some("no credit"))), "image generation failed: no credit");
    assert_eq!(refusal(answer(true, None, None)), "image generation returned no images");
    assert_eq!(refusal(answer(true, Some(Vec::new()), None)), "image generation returned no images");
    assert_eq!(refusal(answer(true, Some(vec![data(None, None)]), None)), "image generation response had no image data");
    assert!(refusal(answer(true, Some(vec![data(Some("AQI"), None)]), None)).starts_with("failed to decode image data: "));
}

#[test]
fn files_are_named_by_the_type_of_the_image() {
    assert_eq!(openrouter::extension_for("image/jpeg"), "jpg");
    assert_eq!(openrouter::extension_for("image/webp"), "webp");
    assert_eq!(openrouter::extension_for("image/gif"), "gif");
    assert_eq!(openrouter::extension_for("image/svg+xml"), "svg");
    assert_eq!(openrouter::extension_for("image/unknown"), "png");
}

#[test]
fn an_image_is_asked_for_with_the_looks_of_who_is_in_it() {
    let mut store = tables();
    entities::create_entity_with_id_sync(&mut store, "mira", "s", "character", "Mira", Some("silver hair"), "test", None).unwrap();
    entities::create_entity_with_id_sync(&mut store, "tom", "s", "character", "Tom", None, "test", None).unwrap();
    let entry = ledger::append_entry(&mut store, "s", "narration", "visible", Some("scene"), &tree("{}"), None, None).unwrap();
    let target = ImageTarget { entry_id: entry.id.clone(), source_action_id: None, turn_id: String::new() };
    let wanted = vec!["mira".to_string(), "tom".to_string()];
    let mut preferences = Preferences::new();
    assert!(matches!(
        generation::image_call(&store, &preferences, &target, "a hall", &wanted),
        Err(AppError::Invalid(_))
    ));
    preferences.save_image_model_settings("painter", true, "Ink.", "1K");
    assert_eq!(
        generation::image_call(&store, &preferences, &target, "a hall", &wanted).unwrap_err(),
        AppError::Invalid("no API key set for provider 'openrouter'".to_string())
    );
    preferences.save_text_model_settings("openrouter", "writer", Some("key"));
    let call = generation::image_call(&store, &preferences, &target, "a hall", &wanted).unwrap();
    assert_eq!((call.api_key.as_str(), call.model.as_str()), ("key", "painter"));
    assert!(call.prompt.starts_with("Ink. a hall"));
    assert!(call.prompt.contains("Mira") && call.prompt.contains("silver hair"));
    assert!(!call.prompt.contains("Tom"));
    assert_eq!(
        openrouter::request_body("painter", "a hall"),
        tree("{\"model\":\"painter\",\"prompt\":\"a hall\"}")
    );
}

#[test]
fn the_files_of_a_story_are_those_of_its_entries() {
    let mut store = tables();
    let entry = ledger::append_entry(&mut store, "s", "narration", "visible", Some("scene"), &tree("{}"), None, None).unwrap();
    store.images.push(asset("a1", &entry.id, "own.png"));
    store.images.push(asset("a2", "elsewhere", "other.png"));
    assert_eq!(repository::image_paths_for_story(&store, "s"), vec!["own.png"]);
}
