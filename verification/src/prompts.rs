//! What the narrator is told: the names of its tools, the way an action of the player is
//! put to it, and the fixed texts around them.

use vstd::prelude::*;

use crate::text;

verus! {

pub const ROLL_CHECK_TOOL_NAME: &'static str = "roll_check";

pub const GET_ENTITIES_TOOL_NAME: &'static str = "get_entities";

pub const CREATE_ENTITY_TOOL_NAME: &'static str = "create_entity";

pub const UPDATE_ENTITY_TOOL_NAME: &'static str = "update_entity";

pub const ADJUST_ENTITY_ATTRIBUTE_TOOL_NAME: &'static str = "adjust_entity_attribute";

pub const ILLUSTRATE_SCENE_TOOL_NAME: &'static str = "illustrate_scene";

/// What stands above the list of entities.
pub const ENTITY_CONTEXT_HEADER: &'static str = "The people, places and things of this story as they are now:";

/// What the narrator is told where it may roll.
pub const ROLL_CHECK_AVAILABLE_INSTRUCTION: &'static str = "When an outcome is in doubt, call roll_check and narrate what it says.";

/// What the narrator is told where it may have a scene drawn.
pub const IMAGE_TOOL_AVAILABLE_INSTRUCTION: &'static str = "When a moment is worth seeing, call illustrate_scene with what it looks like.";

/// The ways in which a player acts.
pub open spec fn turn_modes() -> Seq<Seq<char>> {
    seq!["do"@, "say"@, "story"@, "guide"@, "continue"@, "see"@]
}

/// The ways in which a player acts.
pub fn list_turn_modes() -> (r: Vec<&'static str>)
    ensures
        r.deep_view() == turn_modes(),
{
    let r: Vec<&'static str> = vec!["do", "say", "story", "guide", "continue", "see"];
    assert(r.deep_view() =~= turn_modes());
    r
}

/// Whether a word names a way in which a player acts.
pub fn is_turn_mode(mode: &str) -> (r: bool)
    ensures
        r == turn_modes().contains(mode@),
{
    let ghost modes = turn_modes();
    proof {
        assert(modes[0] == "do"@ && modes[1] == "say"@ && modes[2] == "story"@);
        assert(modes[3] == "guide"@ && modes[4] == "continue"@ && modes[5] == "see"@);
    }
    text::same_text(mode, "do") || text::same_text(mode, "say") || text::same_text(mode, "story")
        || text::same_text(mode, "guide") || text::same_text(mode, "continue") || text::same_text(
        mode,
        "see",
    )
}

/// An action of the player as the narrator reads it: what it says, between tags that name
/// its mode.
pub open spec fn rendered_turn(mode: Seq<char>, content: Seq<char>) -> Option<Seq<char>> {
    if turn_modes().contains(mode) {
        Some("<"@ + mode + ">"@ + content + "</"@ + mode + ">"@)
    } else {
        None
    }
}

/// An action of the player as the narrator reads it; nothing for an unknown mode.
pub fn render_turn(mode: &str, content: &str) -> (r: Option<String>)
    ensures
        r.deep_view() == rendered_turn(mode@, content@),
{
    if !is_turn_mode(mode) {
        return None;
    }
    let opened = text::concat4("<", mode, ">", content);
    Some(text::concat4(opened.as_str(), "</", mode, ">"))
}

} // verus!
