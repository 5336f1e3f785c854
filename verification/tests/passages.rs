use dungeon::error::AppError;
use dungeon::passages::characters;
use dungeon::passages::characters::Cast;
use dungeon::passages::commands;
use dungeon::passages::history;
use dungeon::passages::images;
use dungeon::passages::model::{Book, Branch, PassageImage};
use dungeon::passages::repository;
use dungeon::passages::stories as begin;
use dungeon::passages::telling;
use dungeon::passages::variants;
use dungeon::settings::Preferences;
use dungeon::store::{Store, StoryRow};

fn book() -> Book {
    Book {
        branches: vec![Branch { id: "b".to_string(), story_id: "s".to_string() }],
        passages: Vec::new(),
        variants: Vec::new(),
        images: Vec::new(),
    }
}

fn model() -> Preferences {
    let mut preferences = Preferences::new();
    preferences.save_text_model_settings("openrouter", "writer", Some("key"));
    preferences
}

fn tables() -> Store {
    let mut store = Store::new();
    store.stories.push(StoryRow {
        id: "s".to_string(),
        title: "Story".to_string(),
        created_at: "now".to_string(),
        updated_at: "now".to_string(),
        settings_json: "{}".to_string(),
    });
    store
}

fn tell(book: &mut Book, id: &str, role: &str, mode: &str, content: &str) {
    repository::insert_passage_at(book, id, "now", "b", role, mode, content, None).unwrap();
}

#[test]
fn an_added_passage_is_the_last() {
    let mut book = book();
    tell(&mut book, "p1", "player", "do", "act");
    tell(&mut book, "p2", "narrator", "generated", "result");
    assert_eq!(repository::get_last_passage(&book, "b").unwrap().id, "p2");
    let listed: Vec<(String, i64)> = repository::list_passages(&book, "b").into_iter().map(|p| (p.id, p.seq)).collect();
    assert_eq!(listed, vec![("p1".to_string(), 0), ("p2".to_string(), 1)]);
    assert_eq!(repository::get_story_id_for_branch(&book, "b").unwrap(), "s");
    assert!(matches!(repository::get_story_id_for_branch(&book, "c"), Err(AppError::NotFound(_))));
    assert_eq!(
        repository::get_passage(&book, "p9").unwrap_err(),
        AppError::NotFound("passage p9 not found".to_string())
    );
}

#[test]
fn passages_are_read_by_their_numbers() {
    let mut book = book();
    tell(&mut book, "p1", "player", "do", "act");
    tell(&mut book, "p2", "narrator", "generated", "result");
    book.passages.reverse();
    let ids: Vec<String> = repository::list_passages(&book, "b").into_iter().map(|p| p.id).collect();
    assert_eq!(ids, vec!["p1", "p2"]);
    assert_eq!(repository::get_last_passage(&book, "b").unwrap().id, "p2");
    tell(&mut book, "p3", "player", "do", "more");
    assert_eq!(repository::get_last_passage(&book, "b").unwrap().id, "p3");
}

#[test]
fn a_passage_stands_with_the_roll_that_was_kept_for_it() {
    let mut book = book();
    let mut store = tables();
    let failed = telling::append_narrator_passage_with_roll_at(
        &mut store, &mut book, "p1", "later", "b", "generated", "told", None, Err(AppError::Db("locked".to_string())),
    );
    assert_eq!(failed.unwrap_err(), AppError::Db("locked".to_string()));
    assert!(book.passages.is_empty());
    assert_eq!(store.stories[0].updated_at, "now");
    let told = telling::append_narrator_passage_with_roll_at(
        &mut store, &mut book, "p1", "later", "b", "generated", "told", None, Ok(()),
    )
    .unwrap();
    assert_eq!((told.role.as_str(), told.content.as_str()), ("narrator", "told"));
    assert_eq!(store.stories[0].updated_at, "later");
}

#[test]
fn a_turn_needs_words_and_a_model() {
    let mut store = tables();
    let mut book = book();
    assert!(commands::submit_turn(&mut store, &mut book, &model(), "b", "do", "  ").is_err());
    assert_eq!(
        commands::submit_turn(&mut store, &mut book, &Preferences::new(), "b", "do", "act").unwrap_err(),
        AppError::Invalid(commands::NO_MODEL.to_string())
    );
    assert_eq!(
        commands::submit_turn(&mut Store::new(), &mut book, &model(), "b", "do", "act").unwrap_err(),
        AppError::NotFound("story s not found".to_string())
    );
    assert!(book.passages.is_empty());
    let turn = commands::submit_turn(&mut store, &mut book, &model(), "b", "say", " hello ").unwrap();
    assert_eq!(turn.stream_id.len(), 36);
    assert_ne!(turn.stream_id, turn.player_passage.id);
    assert_eq!(turn.player_passage.content, "hello");
    assert_eq!(turn.player_passage.role, "player");
    assert_eq!(commands::format_prompt("say", "hello"), "[The player says] \"hello\"");
    assert_eq!(commands::format_prompt("do", "hello"), "[The player does] hello");
    assert!(commands::guide_prompt(" ").is_err());
    let mut other = Preferences::new();
    other.save_text_model_settings("elsewhere", "writer", Some("key"));
    assert_eq!(
        commands::resolve_text_model(&other).unwrap_err(),
        AppError::Invalid("unsupported provider: elsewhere".to_string())
    );
}

#[test]
fn just_the_last_narration_is_told_anew() {
    let mut book = book();
    let mut store = tables();
    assert_eq!(
        telling::retry_passage(&book, &store, &model(), "b", "p1").unwrap_err(),
        AppError::Invalid("no passages to retry".to_string())
    );
    tell(&mut book, "p1", "player", "do", "act");
    assert_eq!(
        telling::retry_passage(&book, &store, &model(), "b", "p1").unwrap_err(),
        AppError::Invalid("only a narrator passage can be retried".to_string())
    );
    tell(&mut book, "p2", "narrator", "generated", "result");
    assert_eq!(
        telling::retry_passage(&book, &store, &model(), "b", "p1").unwrap_err(),
        AppError::Invalid("only the latest passage can be retried".to_string())
    );
    assert_eq!(
        telling::retry_passage(&book, &store, &Preferences::new(), "b", "p2").unwrap_err(),
        AppError::Invalid(commands::NO_MODEL.to_string())
    );
    let (retried, plan) = telling::retry_passage(&book, &store, &model(), "b", "p2").unwrap();
    assert_eq!(retried.removed_passage_id, "p2");
    assert_eq!(retried.stream_id.len(), 36);
    assert_eq!((plan.input_mode.as_str(), plan.prompt.as_str()), ("generated", commands::CONTINUE_PROMPT));
    let told: Vec<&str> = plan.history.iter().map(|turn| turn.content.as_str()).collect();
    assert_eq!(told, vec!["act"]);
    assert_eq!(repository::get_last_passage(&book, "b").unwrap().content, "result");
    let taken = telling::replace_passage_at(&mut store, &mut book, "p1", "later", "b", "p2", &plan.input_mode, "again", None);
    assert!(matches!(taken, Err(AppError::Db(_))));
    assert_eq!(repository::get_last_passage(&book, "b").unwrap().content, "result");
    let retold = telling::replace_passage_at(&mut store, &mut book, "p3", "later", "b", "p2", &plan.input_mode, "again", None).unwrap();
    assert_eq!((retold.seq, retold.role.as_str(), retold.input_mode.as_str()), (1, "narrator", "generated"));
    assert_eq!(repository::get_last_passage(&book, "b").unwrap().id, "p3");
    assert_eq!(book.passages.len(), 2);
}

#[test]
fn the_narrator_is_asked_as_the_player_wants_it() {
    let mut book = book();
    let mut store = tables();
    store.stories[0].settings_json = "{\"author_note\":\"Keep it dark.\"}".to_string();
    tell(&mut book, "p1", "narrator", "story", "start");
    let note = "Author's note — keep this in mind throughout: Keep it dark.";
    let guided = telling::submit_guide(&book, &store, &model(), "b", " more rain ").unwrap();
    assert!(guided.prompt.contains("directly: more rain] Continue the scene"));
    assert_eq!((guided.input_mode.as_str(), guided.extra_preamble.as_str()), ("generated_guide", note));
    assert_eq!(
        telling::submit_guide(&book, &store, &model(), "b", " ").unwrap_err(),
        AppError::Invalid("note must not be empty".to_string())
    );
    let further = telling::continue_scene(&book, &store, &model(), "b").unwrap();
    assert_eq!((further.input_mode.as_str(), further.prompt.as_str()), ("generated_continue", commands::CONTINUE_PROMPT));
    assert_eq!((further.model.model.as_str(), further.model.api_key.as_str()), ("writer", "key"));
    assert!(matches!(telling::continue_scene(&book, &store, &model(), "c"), Err(AppError::NotFound(_))));
    let turn = telling::plan_turn(&book, &store, &model(), "b", "do", " climb ", "The climb succeeds.").unwrap();
    assert_eq!(turn.prompt, "[The player does] climb");
    assert_eq!(turn.extra_preamble, format!("{note}\n\nThe climb succeeds."));
    let alone = telling::plan_turn(&book, &store, &model(), "b", "say", "hello", "").unwrap();
    assert_eq!(alone.extra_preamble, note);
    let answer = telling::append_narrator_passage_at(&mut store, &mut book, "p2", "later", "b", &turn.input_mode, "You climb.", Some("hm")).unwrap();
    assert_eq!((answer.seq, answer.thoughts.as_deref()), (1, Some("hm")));
}

#[test]
fn another_telling_is_asked_for_as_the_branch_stood_before_it() {
    let mut book = book();
    let store = tables();
    tell(&mut book, "p1", "player", "do", "act");
    assert_eq!(
        telling::plan_swipe(&book, &store, &model(), "b", "p1").unwrap_err(),
        AppError::Invalid("only a narrator passage can be swiped".to_string())
    );
    tell(&mut book, "p2", "narrator", "generated", "result");
    let (target, plan) = telling::plan_swipe(&book, &store, &model(), "b", "p2").unwrap();
    assert_eq!((target.id.as_str(), plan.input_mode.as_str()), ("p2", "generated"));
    let told: Vec<&str> = plan.history.iter().map(|turn| turn.content.as_str()).collect();
    assert_eq!(told, vec!["act"]);
}

#[test]
fn a_story_begins_with_a_branch_of_its_own() {
    let mut store = Store::new();
    let mut book = book();
    let made = begin::create_story(&mut store, &mut book, " Harbour ").unwrap();
    assert_eq!((made.story.title.as_str(), made.story.settings_json.as_str()), ("Harbour", "{}"));
    assert_eq!(repository::get_story_id_for_branch(&book, &made.default_branch_id).unwrap(), made.story.id);
    assert!(repository::get_last_passage(&book, &made.default_branch_id).is_none());
    assert!(matches!(begin::create_story_at(&mut store, &mut book, "s", "b", "now", "Again"), Err(AppError::Db(_))));
    assert!(matches!(
        begin::create_story_at(&mut store, &mut book, &made.story.id, "b2", "now", "Again"),
        Err(AppError::Db(_))
    ));
    assert_eq!(
        begin::create_story(&mut store, &mut book, "  ").unwrap_err(),
        AppError::Invalid("title must not be empty".to_string())
    );
    assert_eq!((store.stories.len(), book.branches.len()), (1, 2));
}

fn card(cast: &mut Cast, id: &str, now: &str, kind: &str, name: &str, look: Option<&str>) {
    let mut store = tables();
    characters::create_entity_at(&mut store, cast, id, now, "s", kind, name, look).unwrap();
    assert_eq!(store.stories[0].updated_at, now);
}

#[test]
fn entities_are_listed_changed_and_removed() {
    let mut store = tables();
    let mut cast = Cast { cards: Vec::new() };
    card(&mut cast, "c2", "2", "character", " Mira ", Some(" red hair "));
    card(&mut cast, "c1", "1", "place", "Harbour", Some("  "));
    let names: Vec<String> = characters::list_entities(&cast, "s", None).into_iter().map(|c| c.name).collect();
    assert_eq!(names, vec!["Harbour".to_string(), "Mira".to_string()]);
    assert_eq!(characters::list_entities(&cast, "s", Some("place")).len(), 1);
    assert!(characters::list_entities(&cast, "other", None).is_empty());
    assert_eq!(cast.cards[1].appearance_anchor, None);
    assert_eq!(
        characters::create_entity(&mut store, &mut cast, "s", "character", " ", None).unwrap_err(),
        AppError::Invalid("name must not be empty".to_string())
    );
    let made = characters::create_entity(&mut store, &mut cast, "s", "character", "Tom", None).unwrap();
    assert_eq!((made.card_json.as_str(), made.id.len()), ("{}", 36));
    assert!(matches!(
        characters::create_entity_at(&mut store, &mut cast, "c1", "3", "s", "place", "Inn", None),
        Err(AppError::Db(_))
    ));
    let changed = characters::update_entity(&mut store, &mut cast, "c2", " Mira Vale ", None).unwrap();
    assert_eq!((changed.name.as_str(), changed.appearance_anchor), ("Mira Vale", None));
    assert!(characters::update_entity(&mut store, &mut cast, "c2", " ", None).is_err());
    assert_eq!(
        characters::update_entity(&mut store, &mut cast, "c9", "Nobody", None).unwrap_err(),
        AppError::NotFound("entity c9 not found".to_string())
    );
    characters::delete_entity(&mut store, &mut cast, "c1");
    let left: Vec<&str> = cast.cards.iter().map(|c| c.name.as_str()).collect();
    assert_eq!(left, vec!["Mira Vale", "Tom"]);
}

#[test]
fn an_image_of_a_passage_is_planned_and_kept() {
    let mut store = tables();
    let mut book = book();
    let mut cast = Cast { cards: Vec::new() };
    card(&mut cast, "c1", "1", "character", "Mira", Some("red hair"));
    card(&mut cast, "c2", "2", "character", "Tom", Some("tall"));
    tell(&mut book, "p1", "narrator", "story", "mira waits.");
    let mut preferences = model();
    let plan = images::plan_scene_image(&book, &cast, &preferences, "p1", Some("  ")).unwrap();
    assert_eq!(plan.matched, vec![("Mira".to_string(), "red hair".to_string())]);
    assert!(plan.request.starts_with("Scene:\nmira waits.\n\nCharacters present"));
    assert_eq!((plan.api_key.as_str(), plan.text_model.model.as_str()), ("key", "writer"));
    let hinted = images::plan_scene_image(&book, &cast, &preferences, "p1", Some("TOM")).unwrap();
    assert_eq!(hinted.matched, vec![("Tom".to_string(), "tall".to_string())]);
    let prompt = images::scene_prompt(&plan, " A pier. ").unwrap();
    assert!(prompt.starts_with(&format!("{} A pier.", plan.style)));
    assert!(prompt.ends_with("\n- Mira: red hair"));
    assert_eq!(
        images::scene_prompt(&plan, " ").unwrap_err(),
        AppError::Other(images::EMPTY_DESCRIPTION.to_string())
    );
    assert_eq!(
        images::plan_scene_image(&book, &cast, &preferences, "p9", None).unwrap_err(),
        AppError::NotFound("passage p9 not found".to_string())
    );
    let kept = images::keep_image_at(&mut store, &mut book, "i1", "now", "p1", "/images/i1.png", &prompt).unwrap();
    assert_eq!((kept.provider.as_str(), kept.seed), ("openrouter", None));
    assert_eq!(images::list_images_for_passage(&book, "p1"), vec![kept]);
    assert!(matches!(images::keep_image_at(&mut store, &mut book, "i1", "now", "p1", "", ""), Err(AppError::Db(_))));
    preferences.save_image_model_settings("painter", false, "ink", "");
    assert_eq!(
        images::plan_scene_image(&book, &cast, &preferences, "p1", None).unwrap_err(),
        AppError::Invalid("image generation is disabled in the Image Model panel".to_string())
    );
    assert!(matches!(
        images::plan_scene_image(&book, &cast, &Preferences::new(), "p1", None),
        Err(AppError::Invalid(_))
    ));
}

#[test]
fn characters_are_known_by_their_looks() {
    let mut cast = Cast { cards: Vec::new() };
    card(&mut cast, "c1", "1", "character", "Mira", Some("red hair"));
    card(&mut cast, "c2", "2", "character", "Tom", None);
    card(&mut cast, "c3", "3", "place", "Harbour", Some("foggy"));
    assert_eq!(characters::characters_of(&cast, "s"), vec![("Mira".to_string(), "red hair".to_string())]);
}

#[test]
fn an_erased_exchange_is_gone() {
    let mut store = tables();
    let mut book = book();
    tell(&mut book, "p0", "narrator", "generated_continue", "start");
    tell(&mut book, "p1", "player", "do", "act");
    tell(&mut book, "p2", "narrator", "generated", "result");
    assert_eq!(commands::erase_last_exchange(&mut store, &mut book, "b"), vec!["p2", "p1"]);
    assert_eq!(book.passages.len(), 1);
    assert_eq!(commands::erase_last_exchange(&mut store, &mut book, "b"), vec!["p0"]);
    store.stories[0].updated_at = "before".to_string();
    assert!(commands::erase_last_exchange(&mut store, &mut book, "b").is_empty());
    assert_eq!(store.stories[0].updated_at, "before");
}

#[test]
fn the_newest_telling_counts_until_another_is_chosen() {
    let mut store = tables();
    let mut book = book();
    tell(&mut book, "p1", "narrator", "generated", "first");
    let target = variants::swipe_target(&book, "b", "p1").unwrap();
    let (passage, told) = commands::swipe_passage(&mut store, &mut book, &target, "second", Some("hm")).unwrap();
    assert_eq!((passage.content.as_str(), passage.thoughts.as_deref()), ("second", Some("hm")));
    assert_eq!(told.len(), 2);
    assert_eq!(told.iter().filter(|v| v.is_selected).count(), 1);
    let first = told.iter().find(|v| v.content == "first").unwrap().id.clone();
    let back = variants::switch_variant(&mut store, &mut book, "p1", &first).unwrap();
    assert_eq!(back.content, "first");
    let selected: Vec<String> = variants::list_variants(&book, "p1").into_iter().filter(|v| v.is_selected).map(|v| v.id).collect();
    assert_eq!(selected, vec![first.clone()]);
    store.stories[0].updated_at = "before".to_string();
    let edited = variants::edit_passage(&mut store, &mut book, "p1", " first, again ").unwrap();
    assert_eq!(Some(store.stories[0].updated_at.clone()), edited.edited_at);
    assert_eq!(edited.content, "first, again");
    assert_eq!(variants::list_variants(&book, "p1").iter().find(|v| v.id == first).unwrap().content, "first, again");
    assert!(variants::edit_passage(&mut store, &mut book, "p1", " ").is_err());
    assert_eq!(
        variants::switch_variant(&mut store, &mut book, "p1", "nope").unwrap_err(),
        AppError::NotFound("variant nope not found".to_string())
    );
    assert!(variants::swipe_target(&book, "b", "p9").is_err());
}

#[test]
fn the_history_is_bounded_and_tells_of_images() {
    let mut book = book();
    for i in 0..70 {
        tell(&mut book, &format!("p{}", i), if i % 2 == 0 { "player" } else { "narrator" }, "do", &format!("passage {}", i));
    }
    book.images.push(PassageImage {
        id: "i".to_string(),
        passage_id: "p69".to_string(),
        path: String::new(),
        prompt: "a hall".to_string(),
        seed: None,
        provider: "openrouter".to_string(),
        created_at: "now".to_string(),
    });
    let turns = history::load_history(&book, "b", None);
    assert_eq!(turns.len(), history::HISTORY_LIMIT);
    assert_eq!(turns[0].content, "passage 10");
    assert_eq!(turns[59].content, "passage 69\n\n[A scene image was generated here, depicting: a hall]");
    assert_eq!(history::load_history(&book, "b", Some(3)).len(), 3);
    assert_eq!(history::recent_context(&turns).lines().filter(|l| l.contains("passage")).count(), 4);
    assert_eq!(images::list_images_for_branch(&book, "b").len(), 1);
}

#[test]
fn a_hint_that_names_nobody_falls_back_to_the_passage() {
    let cast = vec![
        ("Mira".to_string(), "silver hair".to_string()),
        ("Tom".to_string(), "a red cloak".to_string()),
    ];
    let matched = images::matched_characters(&cast, "MIRA enters.", Some("the hall"));
    assert_eq!(matched, vec![cast[0].clone()]);
    assert_eq!(images::matched_characters(&cast, "Mira enters.", Some("tom's face")), vec![cast[1].clone()]);
    assert_eq!(images::clean_hint(Some("  ")), None);
    assert_eq!(images::clean_hint(Some(" a door ")), Some("a door".to_string()));
    assert_eq!(images::described(" a hall ").unwrap(), "a hall");
    assert_eq!(images::described(" ").unwrap_err(), AppError::Other(images::EMPTY_DESCRIPTION.to_string()));
}

#[test]
fn what_is_told_is_trimmed_and_must_be_there() {
    assert_eq!(
        commands::finish_narration(" It opens. ", "  ").unwrap(),
        ("It opens.".to_string(), None)
    );
    assert_eq!(
        commands::finish_narration("  ", "hm").unwrap_err(),
        AppError::Other(commands::NO_VISIBLE_TEXT.to_string())
    );
    let mut store = Store::new();
    store.stories.push(StoryRow {
        id: "s".to_string(),
        title: String::new(),
        created_at: "now".to_string(),
        updated_at: "now".to_string(),
        settings_json: "{\"author_note\":\"Keep it terse.\"}".to_string(),
    });
    assert!(commands::author_note_preamble(&store, "s").unwrap().contains("Keep it terse."));
    assert!(commands::narrator_preamble("More.").ends_with("\n\nMore."));
    assert_eq!(commands::combine_preambles(&vec!["a".to_string(), String::new(), "b".to_string()]), "a\n\nb");
}

#[test]
fn a_story_draft_is_kept_as_it_was_written() {
    let mut store = tables();
    let mut book = book();
    let draft = commands::submit_story(&mut store, &mut book, "b", " Once upon a time. ").unwrap();
    assert_eq!(draft.content, "Once upon a time.");
    assert_eq!(repository::get_last_passage(&book, "b").unwrap().id, draft.id);
    assert!(commands::submit_story(&mut store, &mut book, "b", "  ").is_err());
    let cast = vec![("Mira".to_string(), "silver hair".to_string())];
    assert_eq!(
        images::description_input("A hall.", Some("the door"), &cast),
        "Scene:\nA hall.\n\nFocus the image on: the door\n\nCharacters present — keep their appearance consistent with this:\n- Mira: silver hair"
    );
    assert_eq!(images::description_input("A hall.", None, &Vec::new()), "Scene:\nA hall.");
}
