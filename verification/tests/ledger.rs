use dungeon::compaction::summary;
use dungeon::compaction::summary::ContextSummary;
use dungeon::error::AppError;
use dungeon::json::Json;
use dungeon::ledger::cascade;
use dungeon::ledger::kind;
use dungeon::ledger::model::{LedgerEntry, TurnSummary};
use dungeon::ledger::reducer;
use dungeon::ledger::repository as ledger;
use dungeon::ledger::turn_tx::{TurnGate, TurnTx};
use dungeon::ledger::turns;
use dungeon::store::{Store, StoryRow};

fn tree(text: &str) -> Json {
    ledger::payload_of_row(text)
}

fn tables(ids: &[&str]) -> Store {
    let mut store = Store::new();
    for id in ids {
        store.stories.push(StoryRow {
            id: id.to_string(),
            title: "Story".to_string(),
            created_at: "now".to_string(),
            updated_at: "now".to_string(),
            settings_json: "{}".to_string(),
        });
    }
    store
}

fn append(store: &mut Store, story: &str, kind: &str, visibility: &str, content: Option<&str>, payload: &str, target: Option<&str>) -> LedgerEntry {
    ledger::append_entry(store, story, kind, visibility, content, &tree(payload), target, None).unwrap()
}

fn entry(id: &str, story: &str, kind: &str, content: Option<&str>, target: Option<&str>, payload: &str) -> LedgerEntry {
    LedgerEntry {
        id: id.to_string(),
        story_id: story.to_string(),
        seq: 0,
        kind: kind.to_string(),
        visibility: "hidden".to_string(),
        content: content.map(str::to_string),
        payload: tree(payload),
        target_entry_id: target.map(str::to_string),
        turn_id: None,
        created_at: "now".to_string(),
    }
}

fn gate() -> TurnGate {
    TurnGate { current: None, started: Vec::new() }
}

#[test]
fn structured_summary_renders_all_sections() {
    let value = ContextSummary {
        prose: "Earlier".to_string(),
        facts: vec!["fact".to_string()],
        entity_notes: vec!["note".to_string()],
        open_threads: vec!["thread".to_string()],
        unresolved_mechanics: vec!["roll".to_string()],
    };
    let text = summary::format_summary(&value);
    assert!(text.contains("Earlier") && text.contains("fact") && text.contains("thread"));
}

#[test]
fn prune_only_summaries_covering_doomed_entries_in_story() {
    let mut store = tables(&["story-1", "story-2"]);
    store.entries.push(entry("old", "story-1", "context_summary", None, None, "{\"through_entry_id\":\"doomed\"}"));
    store.entries.push(entry("safe", "story-1", "context_summary", None, None, "{\"through_entry_id\":\"survives\"}"));
    store.entries.push(entry("other-story", "story-2", "context_summary", None, None, "{\"through_entry_id\":\"doomed\"}"));
    store.entries.push(entry("invalid", "story-1", "context_summary", None, None, "not json"));

    summary::prune_summaries_covering(&mut store, "story-1", &vec!["doomed".to_string()]);
    let mut ids: Vec<&str> = store.entries.iter().map(|e| e.id.as_str()).collect();
    ids.sort();
    assert_eq!(ids, vec!["invalid", "other-story", "safe"]);
}

#[test]
fn walks_all_descendants_without_changing_ledger_rows() {
    let mut store = tables(&["s"]);
    let root = append(&mut store, "s", kind::NARRATION, "visible", Some("root"), "{}", None);
    let child = append(&mut store, "s", kind::ENTITY_UPDATED, "hidden", None, "{\"entity_id\":\"entity\"}", Some(&root.id));
    let grandchild = append(&mut store, "s", kind::DICEROLL, "hidden", None, "{\"roll\": 17}", Some(&child.id));
    let sibling = append(&mut store, "s", kind::IMAGE_GENERATED, "hidden", None, "{\"asset_id\":\"image\"}", Some(&root.id));
    let unrelated = append(&mut store, "s", kind::PLAYER_MESSAGE, "visible", Some("other"), "{}", None);

    let entries = cascade::cascade_entries(&store.entries, &root.id);
    let find = |id: &str| entries.iter().find(|e| e.0 == id);
    assert_eq!(entries.len(), 4);
    assert_eq!(find(&root.id).unwrap().1, kind::NARRATION);
    assert_eq!(find(&child.id).unwrap().1, kind::ENTITY_UPDATED);
    assert_eq!(find(&grandchild.id).unwrap().2, "{\"roll\":17}");
    assert_eq!(find(&sibling.id).unwrap().2, "{\"asset_id\":\"image\"}");
    assert!(find(&unrelated.id).is_none());
    assert!(cascade::cascade_entries(&store.entries, "missing").is_empty());
    assert_eq!(ledger::list_logical_entries(&store, "s").len(), 5);
}

#[test]
fn what_targets_the_doomed_goes_and_the_rest_stays() {
    let mut store = tables(&["s"]);
    let root = append(&mut store, "s", kind::NARRATION, "visible", Some("root"), "{}", None);
    let child = append(&mut store, "s", kind::DICEROLL, "hidden", None, "{}", Some(&root.id));
    append(&mut store, "s", kind::DICEROLL, "hidden", None, "{}", Some(&child.id));
    let kept = append(&mut store, "s", kind::PLAYER_MESSAGE, "visible", Some("other"), "{}", None);
    let mut entries = ledger::list_logical_entries(&store, "s");
    cascade::remove_doomed(&mut entries, &root.id);
    assert_eq!(entries, vec![kept]);
}

#[test]
fn role_and_input_mode_follow_story_entry_defaults() {
    let mut e = LedgerEntry {
        id: "entry".to_string(),
        story_id: "story".to_string(),
        seq: 0,
        kind: kind::PLAYER_MESSAGE.to_string(),
        visibility: "visible".to_string(),
        content: Some("action".to_string()),
        payload: tree("{\"input_mode\":\"do\"}"),
        target_entry_id: None,
        turn_id: None,
        created_at: "now".to_string(),
    };
    assert_eq!(e.role(), "player");
    assert_eq!(e.input_mode(), "do");

    e.kind = kind::NARRATION.to_string();
    e.payload = tree("{\"input_mode\":42}");
    assert_eq!(e.role(), "narrator");
    assert_eq!(e.input_mode(), "generated");
    e.payload = tree("{}");
    assert_eq!(e.input_mode(), "generated");
}

#[test]
fn edits_fold_without_mutating_original() {
    let rows = vec![
        entry("n", "s", kind::NARRATION, Some("original"), None, "{}"),
        entry("e", "s", kind::CONTENT_EDITED, Some("edited"), Some("n"), "{\"reason\":\"user_edit\"}"),
    ];
    let visible = reducer::active_visible_entries(&rows);
    assert_eq!(visible[0].content.as_deref(), Some("edited"));
    assert_eq!(rows[0].content.as_deref(), Some("original"));
}

#[test]
fn latest_edit_wins_for_player_and_narration() {
    let rows = vec![
        entry("p", "s", kind::PLAYER_MESSAGE, Some("original"), None, "{}"),
        entry("n", "s", kind::NARRATION, Some("first"), None, "{}"),
        entry("e1", "s", kind::CONTENT_EDITED, Some("second"), Some("n"), "{}"),
        entry("e2", "s", kind::CONTENT_EDITED, Some("third"), Some("n"), "{}"),
        entry("ep", "s", kind::CONTENT_EDITED, Some("player edit"), Some("p"), "{}"),
    ];
    let visible = reducer::active_visible_entries(&rows);
    assert_eq!(visible[0].content.as_deref(), Some("player edit"));
    assert_eq!(visible[1].content.as_deref(), Some("third"));
}

#[test]
fn since_seq_includes_boundary_and_excludes_earlier_entries() {
    let mut store = tables(&["s"]);
    let one = append(&mut store, "s", "narration", "visible", Some("one"), "{}", None);
    append(&mut store, "s", "narration", "visible", Some("two"), "{}", None);
    append(&mut store, "s", "narration", "visible", Some("three"), "{}", None);

    let since = ledger::list_logical_entries_since(&store, "s", one.seq);
    assert_eq!(
        since.iter().map(|e| e.content.as_deref().unwrap_or("")).collect::<Vec<_>>(),
        vec!["one", "two", "three"]
    );
    let since_later = ledger::list_logical_entries_since(&store, "s", one.seq + 1);
    assert_eq!(
        since_later.iter().map(|e| e.content.as_deref().unwrap_or("")).collect::<Vec<_>>(),
        vec!["two", "three"]
    );
}

#[test]
fn append_assigns_monotonic_sequence_and_decodes_payloads() {
    let mut store = tables(&["s"]);
    append(&mut store, "s", kind::PLAYER_MESSAGE, "visible", Some("first"), "{\"input_mode\":\"do\"}", None);
    append(&mut store, "s", kind::DICEROLL, "hidden", None, "{\"roll\":17,\"outcome\":\"success\"}", None);
    append(&mut store, "s", kind::NARRATION, "visible", Some("third"), "{\"input_mode\":\"generated\"}", None);

    let entries = ledger::list_logical_entries(&store, "s");
    assert_eq!(entries.iter().map(|e| e.seq).collect::<Vec<_>>(), vec![0, 1, 2]);
    assert_eq!(entries[1].kind, kind::DICEROLL);
    assert_eq!(entries[1].payload.int_field("roll"), Some(17));
    assert_eq!(entries[1].payload.str_field("outcome"), Some("success"));
    assert_ne!(store.stories[0].updated_at, "now");
}

#[test]
fn append_rejects_a_target_owned_by_another_story() {
    let mut store = tables(&["first", "second"]);
    let target = append(&mut store, "first", kind::NARRATION, "visible", Some("target"), "{}", None);
    let error = ledger::append_entry(
        &mut store,
        "second",
        kind::CONTENT_EDITED,
        "hidden",
        Some("cross-story edit"),
        &tree("{}"),
        Some(&target.id),
        None,
    )
    .unwrap_err();
    assert!(matches!(
        error,
        AppError::Invalid(message)
            if message == format!("target ledger entry {} does not belong to story second", target.id)
    ));
}

#[test]
fn append_rejects_an_unknown_visibility() {
    let mut store = tables(&["s"]);
    let error = ledger::append_entry(&mut store, "s", kind::NARRATION, "loud", None, &tree("{}"), None, None).unwrap_err();
    assert_eq!(error, AppError::Invalid("invalid ledger visibility: loud".to_string()));
    assert!(store.entries.is_empty());
}

#[test]
fn entries_are_found_by_their_identifiers() {
    let mut store = tables(&["s"]);
    let one = append(&mut store, "s", kind::NARRATION, "visible", Some("one"), "{}", None);
    append(&mut store, "s", kind::CONTENT_EDITED, "hidden", Some("new"), "{}", Some(&one.id));
    assert_eq!(ledger::get_entry(&store, &one.id).unwrap(), one);
    assert_eq!(ledger::active_entry(&store, &one.id).unwrap().content.as_deref(), Some("new"));
    assert_eq!(ledger::get_entry(&store, "x").unwrap_err(), AppError::NotFound("ledger entry x not found".to_string()));
    let edit = store.entries[1].id.clone();
    assert_eq!(
        ledger::active_entry(&store, &edit).unwrap_err(),
        AppError::NotFound(format!("active ledger entry {} not found", edit))
    );
}

#[test]
fn create_turn_writes_complete_turns_and_preserves_sequence() {
    let mut store = tables(&["s"]);
    let first = turns::create_turn(&mut store, "s").unwrap();
    let second = turns::create_turn(&mut store, "s").unwrap();
    let last = turns::last_turn(&store, "s").unwrap();
    assert_eq!(last.id, second);
    assert_eq!(last.seq, 1);
    assert_eq!(last.status, turns::COMPLETE);
    assert_eq!(
        turns::list_summaries(&store, "s"),
        vec![
            TurnSummary { id: first, status: turns::COMPLETE.to_string() },
            TurnSummary { id: second, status: turns::COMPLETE.to_string() },
        ]
    );
}

#[test]
fn turn_of_an_entry_is_the_turn_it_was_written_in() {
    let mut store = tables(&["s"]);
    let turn = turns::create_turn(&mut store, "s").unwrap();
    let written = ledger::append_entry(&mut store, "s", kind::NARRATION, "visible", None, &tree("{}"), None, Some(&turn)).unwrap();
    let loose = append(&mut store, "s", kind::NARRATION, "visible", None, "{}", None);
    assert_eq!(turns::turn_of(&store, &written.id).unwrap().id, turn);
    assert!(turns::turn_of(&store, &loose.id).is_none());
}

#[test]
fn writes_are_private_until_commit() {
    let mut live = Store::new();
    let mut gate = gate();
    let mut turn = TurnTx::begin(&mut gate, "s").unwrap();
    turn.with().unwrap();
    let mut private = live.copy();
    private.stories.push(tables(&["s"]).stories.remove(0));
    assert_eq!(private.stories.len(), 1);
    assert_eq!(live.stories.len(), 0);
    turn.commit(&mut gate, Ok(())).unwrap();
    live = private;
    assert_eq!(live.stories.len(), 1);
    assert!(turn.with().is_err());
}

#[test]
fn commit_releases_gate_while_a_clone_is_alive() {
    let mut gate = gate();
    let mut turn = TurnTx::begin(&mut gate, "s").unwrap();
    turn.commit(&mut gate, Ok(())).unwrap();
    let mut next = TurnTx::begin(&mut gate, "s").unwrap();
    next.rollback(&mut gate, Ok(())).unwrap();
    assert_eq!(turn.story_id(), "s");
}

#[test]
fn rollback_releases_gate_while_a_clone_is_alive() {
    let mut gate = gate();
    let mut turn = TurnTx::begin(&mut gate, "s").unwrap();
    turn.rollback(&mut gate, Ok(())).unwrap();
    let mut next = TurnTx::begin(&mut gate, "s").unwrap();
    next.rollback(&mut gate, Ok(())).unwrap();
    assert_eq!(turn.story_id(), "s");
}

#[test]
fn drop_rolls_back_and_releases_gate() {
    let live = Store::new();
    let mut gate = gate();
    let mut turn = TurnTx::begin(&mut gate, "s").unwrap();
    let mut private = live.copy();
    turn.with_savepoint(&mut private, |mut own: Store| {
        own.stories.push(tables(&["s"]).stories.remove(0));
        (own, Ok(()))
    })
    .unwrap();
    assert_eq!(private.stories.len(), 1);
    assert!(
        matches!(gate.check_idle("s"), Err(AppError::Invalid(message)) if message == "a turn is already generating")
    );
    assert!(
        matches!(TurnTx::begin(&mut gate, "other"), Err(AppError::Invalid(message)) if message == "another story is generating")
    );
    turn.rollback(&mut gate, Ok(())).unwrap();
    drop(private);
    gate.check_idle("s").unwrap();
    assert_eq!(live.stories.len(), 0);
    let mut next = TurnTx::begin(&mut gate, "other").unwrap();
    next.rollback(&mut gate, Ok(())).unwrap();
}

#[test]
fn savepoint_failure_preserves_other_turn_writes() {
    let mut private = Store::new();
    let mut gate = gate();
    let mut turn = TurnTx::begin(&mut gate, "s").unwrap();
    turn.with().unwrap();
    private.stories.push(tables(&["s"]).stories.remove(0));
    let failed = turn.with_savepoint(&mut private, |mut own: Store| {
        own.stories.push(tables(&["lost"]).stories.remove(0));
        (own, Err::<(), AppError>(AppError::Other("x".to_string())))
    });
    assert!(matches!(failed, Err(AppError::Other(message)) if message == "x"));
    turn.commit(&mut gate, Ok(())).unwrap();
    assert_eq!(private.stories.iter().map(|row| row.id.as_str()).collect::<Vec<_>>(), vec!["s"]);
    let late = turn.with_savepoint(&mut private, |own: Store| (own, Ok(())));
    assert_eq!(late.unwrap_err(), AppError::Invalid("turn transaction is already finished".to_string()));
}

#[test]
fn a_taken_barrier_is_kept_until_it_is_given_back() {
    let mut gate = TurnGate { current: Some("s".to_string()), started: vec![("other".to_string(), u64::MAX)] };
    assert_eq!(gate.acquire("other").unwrap_err(), AppError::Invalid("another story is generating".to_string()));
    assert_eq!(gate.acquire("s").unwrap_err(), AppError::Invalid("a turn is already generating".to_string()));
    assert_eq!(gate.current.as_deref(), Some("s"));
    assert_eq!(gate.started, vec![("other".to_string(), u64::MAX)]);
}

#[test]
fn entries_and_turns_are_listed_by_their_numbers() {
    let mut store = tables(&["s"]);
    for (id, seq, text) in [("c", 5, "third"), ("a", 1, "first"), ("b", 3, "second")] {
        let mut row = entry(id, "s", kind::NARRATION, Some(text), None, "{}");
        row.seq = seq;
        store.entries.push(row);
        store.turns.push(turns::Turn {
            id: format!("turn-{}", id),
            story_id: "s".to_string(),
            seq,
            status: turns::COMPLETE.to_string(),
            created_at: "now".to_string(),
        });
    }
    let ids = |rows: Vec<LedgerEntry>| rows.into_iter().map(|e| e.id).collect::<Vec<_>>();
    assert_eq!(ids(ledger::list_logical_entries(&store, "s")), vec!["a", "b", "c"]);
    assert_eq!(ids(ledger::list_logical_entries_since(&store, "s", 3)), vec!["b", "c"]);
    assert_eq!(turns::last_turn(&store, "s").unwrap().id, "turn-c");
    let told: Vec<String> = turns::list_summaries(&store, "s").into_iter().map(|t| t.id).collect();
    assert_eq!(told, vec!["turn-a", "turn-b", "turn-c"]);
    let read = reducer::active_visible_entries(&ledger::list_logical_entries(&store, "s"));
    assert_eq!(read.iter().map(|e| e.content.as_deref().unwrap()).collect::<Vec<_>>(), vec!["first", "second", "third"]);
    let next = append(&mut store, "s", kind::NARRATION, "visible", Some("fourth"), "{}", None);
    assert_eq!(next.seq, 6);
    assert_eq!(ids(ledger::list_logical_entries(&store, "s")).last(), Some(&next.id));
    let opened = turns::create_turn(&mut store, "s").unwrap();
    assert_eq!(turns::last_turn(&store, "s").unwrap().id, opened);
}

#[test]
fn the_newest_summary_is_the_one_with_the_highest_number() {
    let mut store = tables(&["s"]);
    store.entries.push(entry("a", "s", kind::NARRATION, Some("one"), None, "{}"));
    store.entries.push(entry("b", "s", kind::NARRATION, Some("two"), None, "{}"));
    for (id, seq, through) in [("new", 9, "b"), ("old", 4, "a")] {
        let mut row = entry(
            id,
            "s",
            "context_summary",
            None,
            None,
            &format!("{{\"through_seq\":{},\"through_entry_id\":\"{}\"}}", seq - 1, through),
        );
        row.seq = seq;
        store.entries.push(row);
    }
    let boundary = summary::boundary_for(&store, "s", None).unwrap();
    assert_eq!(boundary.summary_entry_id, "new");
    let earlier = summary::boundary_for(&store, "s", Some(9)).unwrap();
    assert_eq!(earlier.summary_entry_id, "old");
}

#[test]
fn same_story_turn_invalidates_idle_ticket_after_commit() {
    let mut gate = gate();
    let ticket = gate.check_idle("s").unwrap();
    let mut turn = TurnTx::begin(&mut gate, "s").unwrap();
    turn.commit(&mut gate, Ok(())).unwrap();
    assert!(matches!(
        gate.still_idle(&ticket),
        Err(AppError::Invalid(message)) if message == "a turn is already generating"
    ));
}

#[test]
fn other_story_turn_does_not_invalidate_idle_ticket() {
    let mut gate = gate();
    let ticket = gate.check_idle("s").unwrap();
    let mut turn = TurnTx::begin(&mut gate, "other").unwrap();
    turn.commit(&mut gate, Ok(())).unwrap();
    gate.still_idle(&ticket).unwrap();
}

#[test]
fn the_newest_summary_is_carried_over() {
    let mut store = tables(&["s"]);
    assert!(summary::latest_summary_artifact(&store, "s", None).is_none());
    let told = ledger::append_entry(&mut store, "s", kind::NARRATION, "visible", Some("scene"), &tree("{}"), None, None).unwrap();
    let payload = format!(
        "{{\"prose\":\"A hall.\",\"facts\":[\"It is dark.\"],\"entity_notes\":[],\"open_threads\":[],\
         \"unresolved_mechanics\":[],\"through_entry_id\":\"{}\",\"through_seq\":{}}}",
        told.id, told.seq
    );
    let kept = ledger::append_entry(&mut store, "s", kind::CONTEXT_SUMMARY, "hidden", Some("A hall."), &tree(&payload), None, None).unwrap();
    let boundary = summary::boundary_for(&store, "s", None).unwrap();
    assert_eq!((boundary.summary_entry_id, boundary.through_seq), (kept.id, told.seq));
    let carried = summary::latest_summary_artifact(&store, "s", None).unwrap();
    assert_eq!((carried.0.prose.as_str(), carried.0.facts.len()), ("A hall.", 1));
    let prompt = summary::compaction_prompt(None, "[]");
    assert_eq!(prompt, "Previous summary:\n\n\nOlder timeline messages to compact:\n[]");
}
