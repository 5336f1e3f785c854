//! The messages of a story.

use vstd::prelude::*;

use super::model;
use super::model::ActiveStoryEntry;
use crate::error::AppResult;
use crate::json;
use crate::json::{Json, JsonView};
use crate::ledger::kind;
use crate::ledger::model::{EntryView, LedgerEntry, VISIBLE};
use crate::ledger::reducer;
use crate::ledger::repository as ledger;
use crate::ledger::repository::{Draft, DraftView};
use crate::narrator::commit;
use crate::store::{Store, StoreView};
use crate::text;

verus! {

/// The messages of a story as they read now.
pub open spec fn messages_of(store: StoreView, story_id: Seq<char>) -> Seq<EntryView> {
    reducer::active_messages(ledger::story_entries(store.entries, story_id))
}

/// The last message of a story.
pub open spec fn last_message(store: StoreView, story_id: Seq<char>) -> Option<EntryView> {
    let messages = messages_of(store, story_id);
    if messages.len() == 0 {
        None
    } else {
        Some(messages.last())
    }
}

/// The last message of a story.
pub fn get_last_entry(store: &Store, story_id: &str) -> (r: Option<LedgerEntry>)
    ensures
        r.deep_view() == last_message(store@, story_id@),
{
    let raw = ledger::list_logical_entries(store, story_id);
    let mut active = reducer::active_visible_entries(&raw);
    let ghost all = active.deep_view();
    match active.pop() {
        Some(entry) => {
            assert(all.last() == entry@);
            Some(entry)
        },
        None => None,
    }
}

/// The last message of a story as the player reads it.
pub fn get_last_story_entry(store: &Store, story_id: &str) -> (r: Option<ActiveStoryEntry>)
    ensures
        r.deep_view() == (match last_message(store@, story_id@) {
            Some(entry) => Some(model::story_entry_of(entry)),
            None => None,
        }),
{
    match get_last_entry(store, story_id) {
        Some(entry) => Some(model::to_story_entry(entry)),
        None => None,
    }
}

/// What a message is put down with.
pub open spec fn message_payload(input_mode: Seq<char>, thoughts: Option<Seq<char>>) -> JsonView {
    match text::non_blank(thoughts) {
        Some(thoughts) => JsonView::Object(
            seq![("input_mode"@, JsonView::Str(input_mode)), ("thoughts"@, JsonView::Str(thoughts))],
        ),
        None => JsonView::Object(seq![("input_mode"@, JsonView::Str(input_mode))]),
    }
}

/// A message of the player or of the narrator.
pub open spec fn message_draft(
    story_id: Seq<char>,
    role: Seq<char>,
    input_mode: Seq<char>,
    content: Seq<char>,
    thoughts: Option<Seq<char>>,
    turn_id: Option<Seq<char>>,
) -> DraftView {
    DraftView {
        story_id,
        kind: if role == "player"@ {
            kind::PLAYER_MESSAGE@
        } else {
            kind::NARRATION@
        },
        visibility: VISIBLE@,
        content: Some(content),
        payload: message_payload(input_mode, thoughts),
        target_entry_id: None,
        turn_id,
    }
}

/// Puts down a message. What the narrator thought is kept with it, and never told back.
pub fn insert_story_entry(
    store: &mut Store,
    story_id: &str,
    role: &str,
    input_mode: &str,
    content: &str,
    thoughts: Option<&str>,
    turn_id: Option<&str>,
) -> (r: AppResult<ActiveStoryEntry>)
    ensures
        commit::append_result(
            old(store)@,
            final(store)@,
            message_draft(
                story_id@,
                role@,
                input_mode@,
                content@,
                thoughts.deep_view(),
                turn_id.deep_view(),
            ),
            commit::failure_of(r),
        ),
        r is Ok ==> r->Ok_0@ == model::story_entry_of(final(store)@.entries.last()),
{
    let mut fields: Vec<(String, Json)> = vec![json::pair("input_mode", json::of_text(input_mode))];
    if let Some(thoughts) = thoughts {
        let trimmed = text::trim(thoughts);
        if !trimmed.as_str().is_empty() {
            fields.push(json::pair("thoughts", json::of_text(trimmed.as_str())));
        }
    }
    let payload = Json::Object(fields);
    let draft = Draft {
        story_id,
        kind: if text::same_text(role, "player") {
            kind::PLAYER_MESSAGE
        } else {
            kind::NARRATION
        },
        visibility: VISIBLE,
        content: Some(content),
        payload: &payload,
        target_entry_id: None,
        turn_id,
    };
    proof {
        let expected = message_payload(input_mode@, thoughts.deep_view());
        assert(payload@->Object_0 =~= expected->Object_0);
        assert(draft@ == message_draft(
            story_id@,
            role@,
            input_mode@,
            content@,
            thoughts.deep_view(),
            turn_id.deep_view(),
        ));
    }
    match ledger::append_draft(store, &draft) {
        Ok(entry) => Ok(model::to_story_entry(entry)),
        Err(e) => Err(e),
    }
}

} // verus!
