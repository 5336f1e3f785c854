//! What a narrator is told beside the conversation where its tools are switched one by one.

use vstd::prelude::*;

use crate::ai::HistoryTurn;
use crate::compaction::budget::Limits;
use crate::error::AppResult;
use crate::narration::author_note;
use crate::narrator::catalog::NarratorToolSettings;
use crate::narrator::injection;
use crate::narrator::injection::ContextPlan;
use crate::store::Store;
use crate::{prompts, stories};

verus! {

/// A list of one text, or of none.
pub open spec fn if_so(so: bool, s: Seq<char>) -> Seq<Seq<char>> {
    if so {
        seq![s]
    } else {
        Seq::empty()
    }
}

/// The names of the tools that are switched on.
pub open spec fn names_of(settings: Option<NarratorToolSettings>, image_enabled: bool) -> Seq<Seq<char>> {
    if_so(settings is Some && settings->0.get_entities, prompts::GET_ENTITIES_TOOL_NAME@) + if_so(
        settings is Some && settings->0.create_entity,
        prompts::CREATE_ENTITY_TOOL_NAME@,
    ) + if_so(
        settings is Some && settings->0.update_entity,
        prompts::UPDATE_ENTITY_TOOL_NAME@,
    ) + if_so(
        settings is Some && settings->0.adjust_entity_attribute,
        prompts::ADJUST_ENTITY_ATTRIBUTE_TOOL_NAME@,
    ) + if_so(settings is Some && settings->0.roll_check, prompts::ROLL_CHECK_TOOL_NAME@) + if_so(
        image_enabled,
        prompts::ILLUSTRATE_SCENE_TOOL_NAME@,
    )
}

/// What there is to say of the tools that are switched on.
pub open spec fn instructions_of(settings: Option<NarratorToolSettings>, image_enabled: bool) -> Seq<Seq<char>> {
    if_so(
        settings is Some && settings->0.roll_check,
        prompts::ROLL_CHECK_AVAILABLE_INSTRUCTION@,
    ) + if_so(image_enabled, prompts::IMAGE_TOOL_AVAILABLE_INSTRUCTION@)
}

fn add_if(list: &mut Vec<String>, so: bool, s: &str)
    ensures
        final(list).deep_view() == old(list).deep_view() + if_so(so, s@),
{
    let ghost before = list.deep_view();
    if so {
        list.push(s.to_string());
        assert(list.deep_view() =~= before + seq![s@]);
    } else {
        assert(list.deep_view() =~= before + Seq::<Seq<char>>::empty());
    }
}

/// The settings that are given, if any.
pub open spec fn settings_given(settings: Option<&NarratorToolSettings>) -> Option<NarratorToolSettings> {
    match settings {
        Some(s) => Some(*s),
        None => None,
    }
}

/// What the narrator is told of the tools that are switched on; nothing where none is.
pub fn tool_context(settings: Option<&NarratorToolSettings>, image_enabled: bool) -> (r: String)
    ensures
        r@ == injection::tools_block(
            names_of(settings_given(settings), image_enabled),
            instructions_of(settings_given(settings), image_enabled),
        ),
{
    let none = NarratorToolSettings {
        get_entities: false,
        create_entity: false,
        update_entity: false,
        adjust_entity_attribute: false,
        roll_check: false,
        illustrate_scene: false,
    };
    let on: NarratorToolSettings = match settings {
        Some(s) => *s,
        None => none,
    };
    let mut names: Vec<String> = Vec::new();
    assert(names.deep_view() =~= Seq::empty());
    add_if(&mut names, on.get_entities, prompts::GET_ENTITIES_TOOL_NAME);
    assert(names.deep_view() =~= if_so(on.get_entities, prompts::GET_ENTITIES_TOOL_NAME@));
    add_if(&mut names, on.create_entity, prompts::CREATE_ENTITY_TOOL_NAME);
    add_if(&mut names, on.update_entity, prompts::UPDATE_ENTITY_TOOL_NAME);
    add_if(&mut names, on.adjust_entity_attribute, prompts::ADJUST_ENTITY_ATTRIBUTE_TOOL_NAME);
    add_if(&mut names, on.roll_check, prompts::ROLL_CHECK_TOOL_NAME);
    add_if(&mut names, image_enabled, prompts::ILLUSTRATE_SCENE_TOOL_NAME);
    let mut instructions: Vec<String> = Vec::new();
    assert(instructions.deep_view() =~= Seq::empty());
    add_if(&mut instructions, on.roll_check, prompts::ROLL_CHECK_AVAILABLE_INSTRUCTION);
    assert(instructions.deep_view() =~= if_so(
        on.roll_check,
        prompts::ROLL_CHECK_AVAILABLE_INSTRUCTION@,
    ));
    add_if(&mut instructions, image_enabled, prompts::IMAGE_TOOL_AVAILABLE_INSTRUCTION);
    injection::format_tools(&names, &instructions)
}

/// What the narrator is told beside the conversation.
pub fn build_message_context(
    store: &Store,
    story_id: &str,
    history: &Vec<HistoryTurn>,
    limits: Limits,
    preamble: &str,
    mode: &str,
    tool_settings: Option<&NarratorToolSettings>,
    image_enabled: bool,
) -> (r: AppResult<ContextPlan>)
    ensures
        match stories::settings_of(store@, story_id@) {
            Some(settings) => r is Ok && r->Ok_0@ == injection::planned(
                store@,
                story_id@,
                author_note::note_block(settings),
                history.deep_view(),
                limits,
                preamble@,
                mode@,
                injection::tools_block(
                    names_of(settings_given(tool_settings), image_enabled),
                    instructions_of(settings_given(tool_settings), image_enabled),
                ),
            ),
            None => r is Err && r->Err_0@ == stories::no_story(story_id@),
        },
{
    let tools = tool_context(tool_settings, image_enabled);
    injection::assemble(store, story_id, history, limits, preamble, mode, tools.as_str())
}

} // verus!
