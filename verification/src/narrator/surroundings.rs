//! What the narrator is told of the world beside the story.

use vstd::prelude::*;

use super::catalog;
use super::catalog::ToolSpec;
use super::generation;
use super::generation::{Facts, Prepared};
use super::injection;
use super::model::NarratorPurpose;
use crate::ai::HistoryTurnView;
use crate::compaction::budget;
use crate::compaction::budget::Limits;
use crate::entities::model::{AttributeValueView, EntityView};
use crate::entities::{attributes, repository};
use crate::json;
use crate::json::JsonView;
use crate::ledger::model::EntryView;
use crate::narration::context;
use crate::narration::entity_context;
use crate::narrator::catalog::NarratorToolSettings;
use crate::prompts;
use crate::store::StoreView;
use crate::{rows, text};

verus! {

/// Whether a line tells of an entity by its name and its kind, and, where it does so in detail, by
/// its look and by each of its values.
pub open spec fn line_tells(line: Seq<char>, e: EntityView, values: Seq<AttributeValueView>, in_detail: bool) -> bool {
    let short = "- "@ + e.name + " ("@ + e.kind + ")"@;
    let look = if e.appearance_anchor is Some {
        "; appearance: "@ + e.appearance_anchor->0
    } else {
        Seq::empty()
    };
    let told = Seq::new(values.len(), |i: int| values[i].canonical_name + "="@ + values[i].value.display);
    let all = if values.len() > 0 {
        "; attributes: "@ + text::joined(told, ", "@)
    } else {
        Seq::empty()
    };
    line == (if in_detail {
        short + look + all
    } else {
        short
    })
}

/// The narrator is told of each entity that is there, one line each and in the order of the list,
/// in detail of those that are meant to be, or of all where none are singled out.
pub proof fn law_every_entity_is_told_of(store: StoreView, story_id: Seq<char>, detailed: Option<Set<Seq<char>>>) -> (lines: Seq<
    Seq<char>,
>)
    ensures
        injection::entity_context(store, story_id, detailed) == "<entities>\n"@ + text::joined(
            seq![prompts::ENTITY_CONTEXT_HEADER@] + lines,
            "\n"@,
        ) + "\n</entities>"@,
        lines.len() == repository::listed_entities(store, story_id, None).len(),
        forall|i: int|
            #![trigger lines[i]]
            0 <= i < lines.len() ==> {
                let e = repository::listed_entities(store, story_id, None)[i];
                line_tells(
                    lines[i],
                    e,
                    attributes::listed_values(store, story_id, e.id),
                    detailed is None || detailed->0.contains(e.id),
                )
            },
{
    let list = repository::listed_entities(store, story_id, None);
    let lines = list.map_values(injection::entity_line(store, story_id, detailed));
    assert forall|i: int|
        #![trigger lines[i]]
        0 <= i < lines.len() implies ({
        let e = list[i];
        line_tells(
            lines[i],
            e,
            attributes::listed_values(store, story_id, e.id),
            detailed is None || detailed->0.contains(e.id),
        )
    }) by {
        let e = list[i];
        let values = attributes::listed_values(store, story_id, e.id);
        let told = Seq::new(values.len(), |i: int| values[i].canonical_name + "="@ + values[i].value.display);
        assert(values.map_values(injection::attribute_text()) =~= told);
        assert(lines[i] == injection::entity_line(store, story_id, detailed)(e));
    }
    lines
}

/// Whether an entry tells of an entity: that it was made or changed, or that it was asked for.
pub open spec fn tells_of(entry: EntryView, id: Seq<char>) -> bool {
    ||| (entry.kind == "entity_created"@ || entry.kind == "entity_updated"@ || entry.kind
        == "entity_attribute_changed"@) && json::text_field(entry.payload, "entity_id"@) == Some(id)
    ||| entry.kind == "entity_queried"@ && match json::field(entry.payload, "entity_ids"@) {
        Some(JsonView::Array(items)) => exists|i: int|
            0 <= i < items.len() && json::text_of(#[trigger] items[i]) == Some(id),
        _ => false,
    }
}

/// The entities that a part of the story touches are those of which one of its entries tells.
pub proof fn law_touched_entities_are_told_of(entries: Seq<EntryView>, tail: Seq<HistoryTurnView>, id: Seq<char>)
    ensures
        injection::touched_set(entries, tail).contains(id) <==> exists|i: int, k: int|
            0 <= i < entries.len() && 0 <= k < tail.len() && (#[trigger] tail[k]).entry_id == Some(
                (#[trigger] entries[i]).id,
            ) && tells_of(entries[i], id),
{
    crate::ledger::kind::lemma_kinds_differ();
    reveal_strlit("entity_queried");
    reveal_strlit("entity_created");
    reveal_strlit("entity_updated");
    reveal_strlit("entity_attribute_changed");
    assert("entity_queried"@[7] == 'q');
    assert("entity_created"@[7] == 'c');
    assert("entity_updated"@[7] == 'u');
    assert("entity_attribute_changed"@[7] == 'a');
    assert forall|e: EntryView| injection::mentions(e, id) == #[trigger] tells_of(e, id) by {}
    if injection::touched_set(entries, tail).contains(id) {
        let i = choose|i: int|
            0 <= i < entries.len() && injection::told_of(tail, #[trigger] entries[i]) && injection::mentions(
                entries[i],
                id,
            );
        let k = choose|k: int| 0 <= k < tail.len() && (#[trigger] tail[k]).entry_id == Some(entries[i].id);
        assert(tells_of(entries[i], id));
        assert(tail[k].entry_id == Some(entries[i].id));
    }
    if exists|i: int, k: int|
        0 <= i < entries.len() && 0 <= k < tail.len() && (#[trigger] tail[k]).entry_id == Some(
            (#[trigger] entries[i]).id,
        ) && tells_of(entries[i], id) {
        let (i, k) = choose|i: int, k: int|
            0 <= i < entries.len() && 0 <= k < tail.len() && (#[trigger] tail[k]).entry_id == Some(
                (#[trigger] entries[i]).id,
            ) && tells_of(entries[i], id);
        assert(injection::told_of(tail, entries[i]));
        assert(injection::mentions(entries[i], id));
    }
}

/// The narrator is told the entities, the author's note and the tools, as far as there are any. In
/// the mode without entities they are left out, in the one with all they are told in detail, and
/// otherwise in detail as far as the part of the story that is sent as it stands touches them.
pub proof fn law_context_follows_its_mode(
    store: StoreView,
    story_id: Seq<char>,
    note: Seq<char>,
    history: Seq<HistoryTurnView>,
    limits: Limits,
    preamble: Seq<char>,
    mode: Seq<char>,
    tools: Seq<char>,
)
    ensures
        ({
            let plan = injection::planned(store, story_id, note, history, limits, preamble, mode, tools);
            let some = |part: Seq<char>| part.len() > 0;
            let all = injection::entity_context(store, story_id, None);
            let tail = history.skip(budget::tail_start(history, limits, preamble, plan.full));
            let touched = injection::entity_context(
                store,
                story_id,
                Some(injection::touched_set(store.entries, tail)),
            );
            if mode == "none"@ {
                &&& plan.full == text::joined(seq![note, tools].filter(some), "\n\n"@)
                &&& plan.live == plan.full
            } else {
                &&& plan.full == text::joined(seq![all, note, tools].filter(some), "\n\n"@)
                &&& mode == "all"@ ==> plan.live == plan.full
                &&& mode != "all"@ ==> plan.live == text::joined(seq![touched, note, tools].filter(some), "\n\n"@)
            }
        }),
{
    let some = |part: Seq<char>| part.len() > 0;
    assert(some =~= injection::filled());
    reveal(Seq::filter);
    let empty = Seq::<char>::empty();
    let three = seq![empty, note, tools];
    let two = seq![note, tools];
    assert(three.drop_last() =~= seq![empty, note]);
    assert(three.drop_last().drop_last() =~= seq![empty]);
    assert(three.drop_last().drop_last().drop_last() =~= Seq::<Seq<char>>::empty());
    assert(two.drop_last() =~= seq![note]);
    assert(two.drop_last().drop_last() =~= Seq::<Seq<char>>::empty());
    reveal_with_fuel(Seq::filter, 4);
    assert(three.filter(some) =~= two.filter(some));
    reveal_strlit("none");
    reveal_strlit("all");
    assert("none"@.len() != "all"@.len());
}

/// Each mode has the entities told in the same way where they are told alone.
pub proof fn law_entity_context_follows_its_mode(
    store: StoreView,
    story_id: Seq<char>,
    history: Seq<HistoryTurnView>,
    limits: Limits,
    preamble: Seq<char>,
    mode: Seq<char>,
)
    ensures
        ({
            let all = injection::entity_context(store, story_id, None);
            let tail = history.skip(budget::tail_start(history, limits, preamble, all));
            let full = entity_context::full_of(store, story_id, mode);
            let live = entity_context::live_of(store, story_id, history, limits, preamble, mode);
            if mode == "none"@ {
                full is None && live is None
            } else {
                &&& full == Some(all)
                &&& mode == "all"@ ==> live == Some(all)
                &&& mode != "all"@ ==> live == Some(
                    injection::entity_context(
                        store,
                        story_id,
                        Some(injection::touched_set(store.entries, tail)),
                    ),
                )
            }
        }),
{
    reveal_strlit("none");
    reveal_strlit("all");
    assert("none"@.len() != "all"@.len());
}

/// The tools that the narrator is told of are those that are switched on, and the one for images
/// where images are; without settings there are no others.
pub proof fn law_tools_told_are_switched_on(settings: Option<NarratorToolSettings>, image_enabled: bool, name: Seq<char>)
    ensures
        context::names_of(settings, image_enabled).contains(name) <==> {
            ||| name == prompts::GET_ENTITIES_TOOL_NAME@ && settings is Some && settings->0.get_entities
            ||| name == prompts::CREATE_ENTITY_TOOL_NAME@ && settings is Some && settings->0.create_entity
            ||| name == prompts::UPDATE_ENTITY_TOOL_NAME@ && settings is Some && settings->0.update_entity
            ||| name == prompts::ADJUST_ENTITY_ATTRIBUTE_TOOL_NAME@ && settings is Some
                && settings->0.adjust_entity_attribute
            ||| name == prompts::ROLL_CHECK_TOOL_NAME@ && settings is Some && settings->0.roll_check
            ||| name == prompts::ILLUSTRATE_SCENE_TOOL_NAME@ && image_enabled
        },
{
    let on = settings is Some;
    let a = context::if_so(on && settings->0.get_entities, prompts::GET_ENTITIES_TOOL_NAME@);
    let b = context::if_so(on && settings->0.create_entity, prompts::CREATE_ENTITY_TOOL_NAME@);
    let c = context::if_so(on && settings->0.update_entity, prompts::UPDATE_ENTITY_TOOL_NAME@);
    let d = context::if_so(on && settings->0.adjust_entity_attribute, prompts::ADJUST_ENTITY_ATTRIBUTE_TOOL_NAME@);
    let e = context::if_so(on && settings->0.roll_check, prompts::ROLL_CHECK_TOOL_NAME@);
    let f = context::if_so(image_enabled, prompts::ILLUSTRATE_SCENE_TOOL_NAME@);
    lemma_if_so(on && settings->0.get_entities, prompts::GET_ENTITIES_TOOL_NAME@, name);
    lemma_if_so(on && settings->0.create_entity, prompts::CREATE_ENTITY_TOOL_NAME@, name);
    lemma_if_so(on && settings->0.update_entity, prompts::UPDATE_ENTITY_TOOL_NAME@, name);
    lemma_if_so(on && settings->0.adjust_entity_attribute, prompts::ADJUST_ENTITY_ATTRIBUTE_TOOL_NAME@, name);
    lemma_if_so(on && settings->0.roll_check, prompts::ROLL_CHECK_TOOL_NAME@, name);
    lemma_if_so(image_enabled, prompts::ILLUSTRATE_SCENE_TOOL_NAME@, name);
    rows::lemma_either(a, b, name);
    rows::lemma_either(a + b, c, name);
    rows::lemma_either(a + b + c, d, name);
    rows::lemma_either(a + b + c + d, e, name);
    rows::lemma_either(a + b + c + d + e, f, name);
}

proof fn lemma_if_so(so: bool, s: Seq<char>, name: Seq<char>)
    ensures
        context::if_so(so, s).contains(name) <==> so && name == s,
{
    let list = context::if_so(so, s);
    if so {
        assert(list[0] == s);
    }
}

proof fn lemma_if_allowed(so: bool, spec: ToolSpec, name: Seq<char>)
    ensures
        injection::tool_names(catalog::if_allowed(so, spec)).contains(name) <==> so && name == spec.name@,
{
    let list = injection::tool_names(catalog::if_allowed(so, spec));
    if so {
        assert(list[0] == spec.name@);
    }
}

proof fn lemma_named_either(a: Seq<ToolSpec>, b: Seq<ToolSpec>, name: Seq<char>)
    ensures
        injection::tool_names(a + b).contains(name) <==> injection::tool_names(a).contains(name)
            || injection::tool_names(b).contains(name),
{
    assert(injection::tool_names(a + b) =~= injection::tool_names(a) + injection::tool_names(b));
    rows::lemma_either(injection::tool_names(a), injection::tool_names(b), name);
}

/// The tools of a turn are those that are switched on. A turn that only shows the scene has none but
/// the one that shows it, which takes images that are switched on and a key for them.
pub proof fn law_turn_has_the_tools_that_are_switched_on(facts: &Facts, purpose: NarratorPurpose, name: Seq<char>)
    ensures
        injection::tool_names(generation::turn_tools(facts, purpose)).contains(name) <==> {
            let on = *facts.tool_settings;
            let acts = purpose == NarratorPurpose::Action;
            ||| acts && on.roll_check && name == prompts::ROLL_CHECK_TOOL_NAME@
            ||| acts && on.get_entities && name == prompts::GET_ENTITIES_TOOL_NAME@
            ||| acts && on.create_entity && name == prompts::CREATE_ENTITY_TOOL_NAME@
            ||| acts && on.update_entity && name == prompts::UPDATE_ENTITY_TOOL_NAME@
            ||| acts && on.adjust_entity_attribute && name == prompts::ADJUST_ENTITY_ATTRIBUTE_TOOL_NAME@
            ||| facts.images_enabled && facts.has_image_key && on.illustrate_scene && name
                == prompts::ILLUSTRATE_SCENE_TOOL_NAME@
        },
{
    let on = *facts.tool_settings;
    let acts = !(purpose == NarratorPurpose::Illustrate);
    assert(acts == (purpose == NarratorPurpose::Action));
    let pictured = generation::image_enabled(facts);
    let a = catalog::if_allowed(acts && on.roll_check, catalog::roll_check());
    let b = catalog::if_allowed(acts && on.get_entities, catalog::world_tool(prompts::GET_ENTITIES_TOOL_NAME));
    let c = catalog::if_allowed(acts && on.create_entity, catalog::world_tool(prompts::CREATE_ENTITY_TOOL_NAME));
    let d = catalog::if_allowed(acts && on.update_entity, catalog::world_tool(prompts::UPDATE_ENTITY_TOOL_NAME));
    let e = catalog::if_allowed(
        acts && on.adjust_entity_attribute,
        catalog::world_tool(prompts::ADJUST_ENTITY_ATTRIBUTE_TOOL_NAME),
    );
    let f = catalog::if_allowed(pictured, catalog::illustrate_scene());
    lemma_if_allowed(acts && on.roll_check, catalog::roll_check(), name);
    lemma_if_allowed(acts && on.get_entities, catalog::world_tool(prompts::GET_ENTITIES_TOOL_NAME), name);
    lemma_if_allowed(acts && on.create_entity, catalog::world_tool(prompts::CREATE_ENTITY_TOOL_NAME), name);
    lemma_if_allowed(acts && on.update_entity, catalog::world_tool(prompts::UPDATE_ENTITY_TOOL_NAME), name);
    lemma_if_allowed(
        acts && on.adjust_entity_attribute,
        catalog::world_tool(prompts::ADJUST_ENTITY_ATTRIBUTE_TOOL_NAME),
        name,
    );
    lemma_if_allowed(pictured, catalog::illustrate_scene(), name);
    lemma_named_either(a, b, name);
    lemma_named_either(a + b, c, name);
    lemma_named_either(a + b + c, d, name);
    lemma_named_either(a + b + c + d, e, name);
    lemma_named_either(a + b + c + d + e, f, name);
}

/// What a turn is prepared with stops after a picture only where it is for one, reasons as it is
/// asked to, works on the world where one of its tools does, and is told of its tools by name.
pub proof fn law_turn_is_prepared_for_its_purpose(
    store: StoreView,
    story_id: Seq<char>,
    transcript: Seq<HistoryTurnView>,
    purpose: NarratorPurpose,
    facts: &Facts,
    prepared: Prepared,
)
    requires
        generation::well_prepared(store, story_id, transcript, purpose, facts, prepared),
    ensures
        prepared.stop_after_tool_result == (purpose == NarratorPurpose::Illustrate),
        prepared.tools@ == generation::turn_tools(facts, purpose),
        facts.reasoning_effort@.len() == 0 ==> prepared.reasoning_effort is None,
        facts.reasoning_effort@.len() > 0 ==> prepared.reasoning_effort.deep_view() == Some(facts.reasoning_effort@),
        prepared.world_tools_enabled <==> exists|i: int|
            0 <= i < prepared.tools@.len() && (#[trigger] prepared.tools@[i]).needs_turn,
{
}

/// What is told of tools has the name of each, with a comma between each two, and what there is to
/// say of them, each on a line of its own. Of no tools nothing is told.
pub proof fn law_tools_are_told_by_name(names: Seq<Seq<char>>, name: Seq<char>, said: Seq<char>)
    ensures
        injection::tools_block(Seq::empty(), seq![said]).len() == 0,
        injection::tools_block(seq![name], Seq::empty()) == "<additional_instructions>\n"@ + (
        "Available narrator tools for this turn: "@ + name + "."@) + "\n</additional_instructions>"@,
        names.len() > 0 ==> injection::tools_block(names.push(name), seq![said]) == "<additional_instructions>\n"@ + ((
        "Available narrator tools for this turn: "@ + (text::joined(names, ", "@) + ", "@ + name) + "."@) + "\n"@
            + said) + "\n</additional_instructions>"@,
{
    text::law_joined_has_separators_between(names, name, ", "@);
    let one = "Available narrator tools for this turn: "@ + name + "."@;
    text::law_joined_has_separators_between(Seq::empty(), one, "\n"@);
    assert(seq![one] + Seq::<Seq<char>>::empty() =~= seq![one]);
    text::law_joined_has_separators_between(Seq::empty(), name, ", "@);
    if names.len() > 0 {
        let all = "Available narrator tools for this turn: "@ + text::joined(names.push(name), ", "@) + "."@;
        text::law_joined_has_separators_between(Seq::empty(), all, "\n"@);
        text::law_joined_has_separators_between(seq![all], said, "\n"@);
        assert(seq![all] + seq![said] =~= seq![all].push(said));
    }
}

/// What there is to say of tools is what each of them has to say, in their order.
pub proof fn law_tools_have_their_say(specs: Seq<ToolSpec>, next: ToolSpec)
    ensures
        injection::tool_instructions(Seq::empty()).len() == 0,
        next.instruction is None ==> injection::tool_instructions(specs.push(next)) == injection::tool_instructions(specs),
        next.instruction is Some ==> injection::tool_instructions(specs.push(next)) == injection::tool_instructions(
            specs,
        ).push(next.instruction->0@),
{
    assert(specs.push(next).drop_last() =~= specs);
}

/// The narrator is told how to roll and how to show the scene where these are switched on, in that
/// order.
pub proof fn law_instructions_follow_what_is_switched_on(settings: NarratorToolSettings)
    ensures
        context::instructions_of(None, false).len() == 0,
        context::instructions_of(None, true) == seq![prompts::IMAGE_TOOL_AVAILABLE_INSTRUCTION@],
        context::instructions_of(Some(settings), true) == (if settings.roll_check {
            seq![prompts::ROLL_CHECK_AVAILABLE_INSTRUCTION@, prompts::IMAGE_TOOL_AVAILABLE_INSTRUCTION@]
        } else {
            seq![prompts::IMAGE_TOOL_AVAILABLE_INSTRUCTION@]
        }),
        context::instructions_of(Some(settings), false) == (if settings.roll_check {
            seq![prompts::ROLL_CHECK_AVAILABLE_INSTRUCTION@]
        } else {
            Seq::empty()
        }),
{
    assert(context::instructions_of(None, true) =~= seq![prompts::IMAGE_TOOL_AVAILABLE_INSTRUCTION@]);
}

} // verus!
