//! The kinds of ledger entry.

use vstd::prelude::*;

verus! {

pub const PLAYER_MESSAGE: &'static str = "player_message";

pub const NARRATION: &'static str = "narration";

pub const CONTENT_EDITED: &'static str = "content_edited";

pub const DICEROLL: &'static str = "diceroll";

pub const TOOL_CALL: &'static str = "tool_call";

pub const ENTITY_CREATED: &'static str = "entity_created";

pub const ENTITY_QUERIED: &'static str = "entity_queried";

pub const ENTITY_UPDATED: &'static str = "entity_updated";

pub const ENTITY_DELETED: &'static str = "entity_deleted";

pub const ENTITY_ATTRIBUTE_CHANGED: &'static str = "entity_attribute_changed";

pub const ENTITY_ATTRIBUTE_REMOVED: &'static str = "entity_attribute_removed";

pub const IMAGE_GENERATED: &'static str = "image_generated";

pub const DICEROLL_SETTINGS_CHANGED: &'static str = "diceroll_settings_changed";

pub const CONTEXT_SUMMARY: &'static str = "context_summary";

/// The kinds of message, of edit and of what becomes of an entity have different names.
pub proof fn lemma_kinds_differ()
    ensures
        PLAYER_MESSAGE@ != NARRATION@,
        PLAYER_MESSAGE@ != CONTENT_EDITED@,
        NARRATION@ != CONTENT_EDITED@,
        ENTITY_CREATED@ != ENTITY_UPDATED@,
        ENTITY_CREATED@ != ENTITY_DELETED@,
        ENTITY_CREATED@ != ENTITY_ATTRIBUTE_CHANGED@,
        ENTITY_CREATED@ != ENTITY_ATTRIBUTE_REMOVED@,
        ENTITY_UPDATED@ != ENTITY_DELETED@,
        ENTITY_UPDATED@ != ENTITY_ATTRIBUTE_CHANGED@,
        ENTITY_UPDATED@ != ENTITY_ATTRIBUTE_REMOVED@,
        ENTITY_DELETED@ != ENTITY_ATTRIBUTE_CHANGED@,
        ENTITY_DELETED@ != ENTITY_ATTRIBUTE_REMOVED@,
        ENTITY_ATTRIBUTE_CHANGED@ != ENTITY_ATTRIBUTE_REMOVED@,
{
    reveal_strlit("player_message");
    reveal_strlit("narration");
    reveal_strlit("content_edited");
    reveal_strlit("entity_created");
    reveal_strlit("entity_updated");
    reveal_strlit("entity_deleted");
    reveal_strlit("entity_attribute_changed");
    reveal_strlit("entity_attribute_removed");
    assert(PLAYER_MESSAGE@[0] == 'p');
    assert(NARRATION@[0] == 'n');
    assert(CONTENT_EDITED@[0] == 'c');
    assert(ENTITY_CREATED@[7] == 'c');
    assert(ENTITY_UPDATED@[7] == 'u');
    assert(ENTITY_DELETED@[7] == 'd');
    assert(ENTITY_ATTRIBUTE_CHANGED@[7] == 'a');
    assert(ENTITY_ATTRIBUTE_REMOVED@[7] == 'a');
    assert(ENTITY_ATTRIBUTE_CHANGED@[17] == 'c');
    assert(ENTITY_ATTRIBUTE_REMOVED@[17] == 'r');
}

} // verus!
