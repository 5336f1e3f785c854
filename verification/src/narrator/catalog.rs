//! The tools of the narrator, and which of them a turn has.

use vstd::prelude::*;

use crate::prompts;

verus! {

/// Which tools a story lets its narrator use.
#[derive(Debug, Clone, Copy, PartialEq, Eq, Structural)]
pub struct NarratorToolSettings {
    pub get_entities: bool,
    pub create_entity: bool,
    pub update_entity: bool,
    pub adjust_entity_attribute: bool,
    pub roll_check: bool,
    pub illustrate_scene: bool,
}

impl Default for NarratorToolSettings {
    /// All of them.
    fn default() -> (r: NarratorToolSettings)
        ensures
            r == (NarratorToolSettings {
                get_entities: true,
                create_entity: true,
                update_entity: true,
                adjust_entity_attribute: true,
                roll_check: true,
                illustrate_scene: true,
            }),
    {
        NarratorToolSettings {
            get_entities: true,
            create_entity: true,
            update_entity: true,
            adjust_entity_attribute: true,
            roll_check: true,
            illustrate_scene: true,
        }
    }
}

/// What decides which tools a turn has: the settings of the story, whether images can be
/// made, and whether the turn is only there to make one.
pub struct ToolAvailability<'a> {
    pub settings: &'a NarratorToolSettings,
    pub image_enabled: bool,
    pub illustrate: bool,
}

/// A tool: its name, what the narrator is told of it, and whether it works on the turn.
#[derive(Debug, Clone, Copy, PartialEq)]
pub struct ToolSpec {
    pub name: &'static str,
    pub instruction: Option<&'static str>,
    pub needs_turn: bool,
}

/// A tool that works on the turn and of which the narrator is told nothing more.
pub open spec fn world_tool(name: &'static str) -> ToolSpec {
    ToolSpec { name, instruction: None, needs_turn: true }
}

/// The tool that rolls.
pub open spec fn roll_check() -> ToolSpec {
    ToolSpec {
        name: prompts::ROLL_CHECK_TOOL_NAME,
        instruction: Some(prompts::ROLL_CHECK_AVAILABLE_INSTRUCTION),
        needs_turn: true,
    }
}

/// The tool that has a scene drawn.
pub open spec fn illustrate_scene() -> ToolSpec {
    ToolSpec {
        name: prompts::ILLUSTRATE_SCENE_TOOL_NAME,
        instruction: Some(prompts::IMAGE_TOOL_AVAILABLE_INSTRUCTION),
        needs_turn: false,
    }
}

/// A list of one tool, or of none.
pub open spec fn if_allowed(allowed: bool, tool: ToolSpec) -> Seq<ToolSpec> {
    if allowed {
        seq![tool]
    } else {
        Seq::empty()
    }
}

/// The tools that a turn has, in their order. A turn that is only there to make an image has
/// none but the illustrator.
pub open spec fn available(settings: NarratorToolSettings, image_enabled: bool, illustrate: bool) -> Seq<ToolSpec> {
    if_allowed(!illustrate && settings.roll_check, roll_check()) + if_allowed(
        !illustrate && settings.get_entities,
        world_tool(prompts::GET_ENTITIES_TOOL_NAME),
    ) + if_allowed(
        !illustrate && settings.create_entity,
        world_tool(prompts::CREATE_ENTITY_TOOL_NAME),
    ) + if_allowed(
        !illustrate && settings.update_entity,
        world_tool(prompts::UPDATE_ENTITY_TOOL_NAME),
    ) + if_allowed(
        !illustrate && settings.adjust_entity_attribute,
        world_tool(prompts::ADJUST_ENTITY_ATTRIBUTE_TOOL_NAME),
    ) + if_allowed(image_enabled, illustrate_scene())
}

fn allow(tools: &mut Vec<ToolSpec>, allowed: bool, name: &'static str, instruction: Option<&'static str>, needs_turn: bool)
    ensures
        final(tools)@ == old(tools)@ + if_allowed(allowed, ToolSpec { name, instruction, needs_turn }),
{
    if allowed {
        tools.push(ToolSpec { name, instruction, needs_turn });
        assert(tools@ =~= old(tools)@ + if_allowed(allowed, ToolSpec { name, instruction, needs_turn }));
    } else {
        assert(tools@ =~= old(tools)@ + Seq::<ToolSpec>::empty());
    }
}

/// The tools that a turn has.
pub fn enabled(availability: &ToolAvailability) -> (r: Vec<ToolSpec>)
    ensures
        r@ == available(*availability.settings, availability.image_enabled, availability.illustrate),
{
    let settings = availability.settings;
    let normal = !availability.illustrate;
    let mut tools: Vec<ToolSpec> = Vec::new();
    allow(
        &mut tools,
        normal && settings.roll_check,
        prompts::ROLL_CHECK_TOOL_NAME,
        Some(prompts::ROLL_CHECK_AVAILABLE_INSTRUCTION),
        true,
    );
    assert(tools@ =~= if_allowed(normal && settings.roll_check, roll_check()));
    allow(&mut tools, normal && settings.get_entities, prompts::GET_ENTITIES_TOOL_NAME, None, true);
    allow(&mut tools, normal && settings.create_entity, prompts::CREATE_ENTITY_TOOL_NAME, None, true);
    allow(&mut tools, normal && settings.update_entity, prompts::UPDATE_ENTITY_TOOL_NAME, None, true);
    allow(
        &mut tools,
        normal && settings.adjust_entity_attribute,
        prompts::ADJUST_ENTITY_ATTRIBUTE_TOOL_NAME,
        None,
        true,
    );
    allow(
        &mut tools,
        availability.image_enabled,
        prompts::ILLUSTRATE_SCENE_TOOL_NAME,
        Some(prompts::IMAGE_TOOL_AVAILABLE_INSTRUCTION),
        false,
    );
    tools
}

/// Whether one of the tools works on the turn.
pub fn any_needs_turn(tools: &Vec<ToolSpec>) -> (r: bool)
    ensures
        r == exists|i: int| 0 <= i < tools@.len() && (#[trigger] tools@[i]).needs_turn,
{
    let mut i: usize = 0;
    while i < tools.len()
        invariant
            0 <= i <= tools@.len(),
            forall|k: int| 0 <= k < i ==> !(#[trigger] tools@[k]).needs_turn,
        decreases tools@.len() - i,
    {
        if tools[i].needs_turn {
            return true;
        }
        i += 1;
    }
    false
}

/// A turn that is only there to make an image has no tool that works on the turn.
pub proof fn law_illustration_leaves_the_world_alone(settings: NarratorToolSettings, image_enabled: bool)
    ensures
        available(settings, image_enabled, true) == if_allowed(image_enabled, illustrate_scene()),
        forall|i: int|
            0 <= i < available(settings, image_enabled, true).len() ==> !(#[trigger] available(
                settings,
                image_enabled,
                true,
            )[i]).needs_turn,
{
    assert(available(settings, image_enabled, true) =~= if_allowed(image_enabled, illustrate_scene()));
}

} // verus!
