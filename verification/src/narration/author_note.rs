//! The note that an author keeps for the narrator of a story.

use vstd::prelude::*;

use crate::error::AppResult;
use crate::json::{Json, JsonView};
use crate::ledger::model::HIDDEN;
use crate::ledger::repository::{Draft, DraftView};
use crate::store::Store;
use crate::{json, rows, stamp, stories, text};

verus! {

/// The kind of an entry that tells of a new note.
pub const NOTE_UPDATED: &'static str = "context_note_updated";

/// The note in the settings of a story, without the whitespace around it.
pub open spec fn note_of(settings: JsonView) -> Seq<char> {
    match json::text_field(settings, "author_note"@) {
        Some(note) => text::trimmed(note),
        None => text::trimmed(""@),
    }
}

/// Whether the note is passed on; it is where the settings do not say.
pub open spec fn enabled_of(settings: JsonView) -> bool {
    match json::bool_field(settings, "author_note_enabled"@) {
        Some(enabled) => enabled,
        None => true,
    }
}

/// The note as the narrator reads it; nothing where it is muted or blank.
pub open spec fn note_block(settings: JsonView) -> Seq<char> {
    if enabled_of(settings) && note_of(settings).len() > 0 {
        "<author_note>"@ + note_of(settings) + "</author_note>"@
    } else {
        Seq::empty()
    }
}

fn note_in(settings: &Json) -> (r: String)
    ensures
        r@ == note_of(settings@),
{
    match settings.str_field("author_note") {
        Some(note) => text::trim(note),
        None => text::trim(""),
    }
}

fn enabled_in(settings: &Json) -> (r: bool)
    ensures
        r == enabled_of(settings@),
{
    match settings.bool_field("author_note_enabled") {
        Some(enabled) => enabled,
        None => true,
    }
}

/// The note of a story.
pub fn read_author_note(store: &Store, story_id: &str) -> (r: AppResult<String>)
    ensures
        match stories::settings_of(store@, story_id@) {
            Some(settings) => r is Ok && r->Ok_0@ == note_of(settings),
            None => r is Err && r->Err_0@ == stories::no_story(story_id@),
        },
{
    match stories::read_settings(store, story_id) {
        Ok(settings) => Ok(note_in(&settings)),
        Err(e) => Err(e),
    }
}

/// Whether the note of a story is passed on.
pub fn read_author_note_enabled(store: &Store, story_id: &str) -> (r: AppResult<bool>)
    ensures
        match stories::settings_of(store@, story_id@) {
            Some(settings) => r is Ok && r->Ok_0 == enabled_of(settings),
            None => r is Err && r->Err_0@ == stories::no_story(story_id@),
        },
{
    match stories::read_settings(store, story_id) {
        Ok(settings) => Ok(enabled_in(&settings)),
        Err(e) => Err(e),
    }
}

/// The note of a story as the narrator reads it.
pub fn context_block(store: &Store, story_id: &str) -> (r: AppResult<String>)
    ensures
        match stories::settings_of(store@, story_id@) {
            Some(settings) => r is Ok && r->Ok_0@ == note_block(settings),
            None => r is Err && r->Err_0@ == stories::no_story(story_id@),
        },
{
    let settings = match stories::read_settings(store, story_id) {
        Ok(settings) => settings,
        Err(e) => {
            return Err(e);
        },
    };
    let note = note_in(&settings);
    proof {
        reveal_strlit("");
        assert(note@.len() == 0 ==> note@ =~= ""@);
    }
    if enabled_in(&settings) && !text::same_text(note.as_str(), "") {
        Ok(text::concat3("<author_note>", note.as_str(), "</author_note>"))
    } else {
        Ok(String::new())
    }
}

/// The settings of a story after its note was written.
pub open spec fn with_note(settings: JsonView, note: Seq<char>) -> JsonView {
    if text::blank(note) {
        json::removed(settings, "author_note"@)
    } else {
        json::assigned(settings, "author_note"@, JsonView::Str(text::trimmed(note)))
    }
}

/// What the entry that tells of a new note is made from.
pub open spec fn note_draft(story_id: Seq<char>, note: Seq<char>) -> DraftView {
    DraftView {
        story_id,
        kind: NOTE_UPDATED@,
        visibility: HIDDEN@,
        content: Some("Author's note was updated: "@ + text::trimmed(note)),
        payload: JsonView::Object(seq![("author_note"@, JsonView::Str(text::trimmed(note)))]),
        target_entry_id: None,
        turn_id: None,
    }
}

/// Writes the note of a story; a blank one is taken out of the settings.
pub fn write_author_note(store: &mut Store, story_id: &str, note: &str) -> (r: AppResult<()>)
    requires
        match stories::settings_of(old(store)@, story_id@) {
            Some(settings) => text::blank(note@) || json::assignable(settings),
            None => true,
        },
    ensures
        match stories::settings_of(old(store)@, story_id@) {
            Some(settings) => stories::settings_outcome(
                old(store)@,
                final(store)@,
                story_id@,
                with_note(settings, note@),
                note_draft(story_id@, note@),
                r,
            ),
            None => r is Err && r->Err_0@ == stories::no_story(story_id@) && final(store)@ == old(store)@,
        },
{
    let mut settings = match stories::read_settings(store, story_id) {
        Ok(settings) => settings,
        Err(e) => {
            return Err(e);
        },
    };
    let written = text::trim(note);
    if text::is_blank(note) {
        settings = settings.without("author_note");
    } else {
        settings.assign("author_note", json::of_text(written.as_str()));
    }
    let content = text::concat2("Author's note was updated: ", written.as_str());
    let payload = Json::Object(vec![json::pair("author_note", json::of_text(written.as_str()))]);
    assert(payload@->Object_0 =~= note_draft(story_id@, note@).payload->Object_0);
    stories::record_settings(
        store,
        story_id,
        &settings,
        &Draft {
            story_id,
            kind: NOTE_UPDATED,
            visibility: HIDDEN,
            content: Some(content.as_str()),
            payload: &payload,
            target_entry_id: None,
            turn_id: None,
        },
    )
}

/// Lets the note of a story be passed on, or mutes it.
pub fn write_author_note_enabled(store: &mut Store, story_id: &str, enabled: bool) -> (r: AppResult<()>)
    requires
        match stories::settings_of(old(store)@, story_id@) {
            Some(settings) => json::assignable(settings),
            None => true,
        },
    ensures
        match stories::settings_of(old(store)@, story_id@) {
            Some(settings) => {
                let changed = json::assigned(settings, "author_note_enabled"@, JsonView::Bool(enabled));
                &&& r is Ok
                &&& exists|now: Seq<char>|
                    final(store)@ == #[trigger] stories::saved(old(store)@, story_id@, changed, now)
                &&& json::storable(changed, json::DEPTH_LIMIT as nat) ==> stories::settings_of(
                    final(store)@,
                    story_id@,
                ) == Some(changed)
            },
            None => r is Err && r->Err_0@ == stories::no_story(story_id@) && final(store)@ == old(store)@,
        },
{
    let mut settings = match stories::read_settings(store, story_id) {
        Ok(settings) => settings,
        Err(e) => {
            return Err(e);
        },
    };
    settings.assign("author_note_enabled", Json::Bool(enabled));
    let now = stamp::now();
    stories::save_settings(store, story_id, &settings, now.as_str());
    Ok(())
}

/// A note that was written reads as it was written, without the whitespace around it, and
/// the switch stays as it was.
pub proof fn law_note_reads_back(settings: JsonView, note: Seq<char>)
    requires
        text::blank(note) || json::assignable(settings),
    ensures
        note_of(with_note(settings, note)) == (if text::blank(note) {
            Seq::<char>::empty()
        } else {
            text::trimmed(note)
        }),
        enabled_of(with_note(settings, note)) == enabled_of(settings),
        json::storable(settings, json::DEPTH_LIMIT as nat) ==> json::storable(
            with_note(settings, note),
            json::DEPTH_LIMIT as nat,
        ),
{
    lemma_field_names_differ();
    if text::blank(note) {
        json::law_removed_field_is_gone(settings, "author_note"@, "author_note_enabled"@);
        reveal_strlit("");
        assert(""@ =~= Seq::<char>::empty());
        assert(text::trimmed(""@) =~= Seq::<char>::empty());
        if json::storable(settings, json::DEPTH_LIMIT as nat) {
            json::law_removed_stays_storable(settings, "author_note"@, json::DEPTH_LIMIT as nat);
        }
    } else {
        let value = JsonView::Str(text::trimmed(note));
        json::law_assigned_field_reads_back(settings, "author_note"@, value, "author_note_enabled"@);
        text::lemma_trimmed_twice(note);
        if json::storable(settings, json::DEPTH_LIMIT as nat) {
            json::law_assigned_stays_storable(settings, "author_note"@, value, json::DEPTH_LIMIT as nat);
        }
    }
}

/// A muted note says nothing to the narrator, whatever it is; the note itself stays.
pub proof fn law_muted_note_is_silent(settings: JsonView)
    requires
        json::assignable(settings),
    ensures
        note_block(json::assigned(settings, "author_note_enabled"@, JsonView::Bool(false))) == Seq::<
            char,
        >::empty(),
        note_of(json::assigned(settings, "author_note_enabled"@, JsonView::Bool(false))) == note_of(settings),
{
    lemma_field_names_differ();
    json::law_assigned_field_reads_back(
        settings,
        "author_note_enabled"@,
        JsonView::Bool(false),
        "author_note"@,
    );
}

proof fn lemma_field_names_differ()
    ensures
        "author_note"@ != "author_note_enabled"@,
{
    reveal_strlit("author_note");
    reveal_strlit("author_note_enabled");
    assert("author_note"@.len() != "author_note_enabled"@.len());
}

/// The entry that tells of a note is a hidden one of the story that has the words of the note without
/// the space around them.
pub proof fn law_note_is_told_of(story_id: Seq<char>, note: Seq<char>)
    ensures
        ({
            let draft = note_draft(story_id, note);
            &&& draft.story_id == story_id
            &&& draft.visibility == "hidden"@
            &&& draft.target_entry_id is None && draft.turn_id is None
            &&& json::text_field(draft.payload, "author_note"@) == Some(text::trimmed(note))
            &&& draft.content == Some("Author's note was updated: "@ + text::trimmed(note))
        }),
{
    reveal_with_fuel(rows::first_where, 2);
}

} // verus!
