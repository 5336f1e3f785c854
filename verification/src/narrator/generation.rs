//! What a turn is prepared with before the narrator is asked.

use vstd::prelude::*;

use super::catalog;
use super::catalog::{NarratorToolSettings, ToolAvailability, ToolSpec};
use super::injection;
use super::injection::ContextPlan;
use super::model::NarratorPurpose;
use crate::ai::{HistoryTurn, HistoryTurnView};
use crate::compaction::budget::Limits;
use crate::error::{AppError, AppResult, ErrorView};
use crate::narration::author_note;
use crate::store::{Store, StoreView};
use crate::{stories, text};

verus! {

/// The message to a conversation in which nobody has acted.
pub const NO_ACTION: &'static str = "the narration history has no action turn";

/// The message to a conversation in which the narrator spoke last.
pub const NOT_LAST: &'static str = "the narration history does not end with an action turn";

/// The message where an image is asked for and none can be made.
pub const NO_IMAGES: &'static str = "image generation is disabled or has no API key";

/// What is known of a story and of the program when a turn is prepared.
pub struct Facts<'a> {
    pub tool_settings: &'a NarratorToolSettings,
    pub reasoning_effort: &'a str,
    pub images_enabled: bool,
    pub has_image_key: bool,
    pub limits: Limits,
    pub preamble: &'a str,
    pub entity_context_mode: &'a str,
}

/// What a turn is prepared with.
#[derive(Debug, PartialEq)]
pub struct Prepared {
    pub context: ContextPlan,
    pub tools: Vec<ToolSpec>,
    pub world_tools_enabled: bool,
    pub stop_after_tool_result: bool,
    pub reasoning_effort: Option<String>,
}

/// Whether images can be made.
pub open spec fn image_enabled(facts: &Facts) -> bool {
    facts.images_enabled && facts.has_image_key && facts.tool_settings.illustrate_scene
}

/// The tools of a turn.
pub open spec fn turn_tools(facts: &Facts, purpose: NarratorPurpose) -> Seq<ToolSpec> {
    catalog::available(
        *facts.tool_settings,
        image_enabled(facts),
        purpose == NarratorPurpose::Illustrate,
    )
}

/// Why a turn cannot be prepared.
pub open spec fn refusal(
    store: StoreView,
    story_id: Seq<char>,
    transcript: Seq<HistoryTurnView>,
    purpose: NarratorPurpose,
    facts: &Facts,
) -> Option<ErrorView> {
    if transcript.len() == 0 {
        Some(ErrorView::Invalid(NO_ACTION@))
    } else if !transcript.last().is_player {
        Some(ErrorView::Invalid(NOT_LAST@))
    } else if purpose == NarratorPurpose::Illustrate && !image_enabled(facts) {
        Some(ErrorView::Invalid(NO_IMAGES@))
    } else if stories::settings_of(store, story_id) is None {
        Some(stories::no_story(story_id))
    } else {
        None
    }
}

/// Whether a turn is prepared as it should be.
pub open spec fn well_prepared(
    store: StoreView,
    story_id: Seq<char>,
    transcript: Seq<HistoryTurnView>,
    purpose: NarratorPurpose,
    facts: &Facts,
    prepared: Prepared,
) -> bool {
    let tools = turn_tools(facts, purpose);
    &&& prepared.tools@ == tools
    &&& prepared.world_tools_enabled == exists|i: int| 0 <= i < tools.len() && (#[trigger] tools[i]).needs_turn
    &&& prepared.stop_after_tool_result == (purpose == NarratorPurpose::Illustrate)
    &&& prepared.reasoning_effort.deep_view() == (if facts.reasoning_effort@.len() == 0 {
        None
    } else {
        Some(facts.reasoning_effort@)
    })
    &&& prepared.context@ == injection::planned(
        store,
        story_id,
        author_note::note_block(stories::settings_of(store, story_id)->0),
        transcript,
        facts.limits,
        facts.preamble@,
        facts.entity_context_mode@,
        injection::tools_block(injection::tool_names(tools), injection::tool_instructions(tools)),
    )
}

/// Whether a conversation can be answered: somebody has acted, and nobody has answered yet.
pub fn check_transcript(transcript: &Vec<HistoryTurn>) -> (r: AppResult<()>)
    ensures
        if transcript@.len() == 0 {
            r is Err && r->Err_0@ == ErrorView::Invalid(NO_ACTION@)
        } else if !transcript.deep_view().last().is_player {
            r is Err && r->Err_0@ == ErrorView::Invalid(NOT_LAST@)
        } else {
            r is Ok
        },
{
    if transcript.len() == 0 {
        return Err(AppError::Invalid(NO_ACTION.to_string()));
    }
    if !transcript[transcript.len() - 1].is_player {
        return Err(AppError::Invalid(NOT_LAST.to_string()));
    }
    Ok(())
}

/// Prepares a turn: its tools, and what the narrator is told beside the conversation.
pub fn prepare(store: &Store, story_id: &str, transcript: &Vec<HistoryTurn>, purpose: NarratorPurpose, facts: &Facts) -> (r: AppResult<
    Prepared,
>)
    ensures
        match refusal(store@, story_id@, transcript.deep_view(), purpose, facts) {
            Some(e) => r is Err && r->Err_0@ == e,
            None => r is Ok && well_prepared(
                store@,
                story_id@,
                transcript.deep_view(),
                purpose,
                facts,
                r->Ok_0,
            ),
        },
{
    match check_transcript(transcript) {
        Ok(_) => {},
        Err(e) => {
            return Err(e);
        },
    }
    let reasoning_effort = if text::same_text(facts.reasoning_effort, "") {
        None
    } else {
        Some(facts.reasoning_effort.to_string())
    };
    proof {
        reveal_strlit("");
        assert(facts.reasoning_effort@.len() == 0 ==> facts.reasoning_effort@ =~= ""@);
    }
    let image_enabled = facts.images_enabled && facts.has_image_key && facts.tool_settings.illustrate_scene;
    let illustrate = match purpose {
        NarratorPurpose::Illustrate => true,
        NarratorPurpose::Action => false,
    };
    if illustrate && !image_enabled {
        return Err(AppError::Invalid(NO_IMAGES.to_string()));
    }
    let tools = catalog::enabled(
        &ToolAvailability { settings: facts.tool_settings, image_enabled, illustrate },
    );
    let world_tools_enabled = catalog::any_needs_turn(&tools);
    let context = match injection::build_message_context(
        store,
        story_id,
        transcript,
        facts.limits,
        facts.preamble,
        facts.entity_context_mode,
        &tools,
    ) {
        Ok(context) => context,
        Err(e) => {
            return Err(e);
        },
    };
    Ok(
        Prepared {
            context,
            tools,
            world_tools_enabled,
            stop_after_tool_result: illustrate,
            reasoning_effort,
        },
    )
}

} // verus!
