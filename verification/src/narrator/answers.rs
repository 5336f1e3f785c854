//! What the narrator's tools take from their arguments, and what they answer.

use vstd::prelude::*;

use super::generation;
use super::generation::Facts;
use super::model::NarratorPurpose;
use super::odds;
use super::staging;
use super::staging::StagingView;
use super::stream;
use super::stream::StreamEvent;
use super::tool_error;
use super::tool_error::ToolErrorView;
use super::tools;
use crate::ai::{ChunkView, HistoryTurnView, ToolActivityPhase};
use crate::double::DoubleView;
use crate::entities::attributes::{Clamped, Reading};
use crate::entities::model::{AttributeValueView, EntityView};
use crate::entities::registry;
use crate::entities::registry::AttributeResolution;
use crate::entities::{attributes, repository};
use crate::error::ErrorView;
use crate::json;
use crate::json::JsonView;
use crate::store::StoreView;
use crate::stories;
use crate::{rows, text};

verus! {

/// Whether a value tells of an entity: who and what it is, how it looks, and each of its values with
/// its scale.
pub open spec fn tells_entity(told: JsonView, e: EntityView, values: Seq<AttributeValueView>) -> bool {
    &&& json::text_field(told, "id"@) == Some(e.id)
    &&& json::text_field(told, "kind"@) == Some(e.kind)
    &&& json::text_field(told, "name"@) == Some(e.name)
    &&& json::text_field(told, "appearance_anchor"@) == e.appearance_anchor
    &&& match json::field(told, "attributes"@) {
        Some(JsonView::Array(items)) => items.len() == values.len() && forall|i: int|
            #![trigger items[i]]
            0 <= i < items.len() ==> {
                &&& json::text_field(items[i], "name"@) == Some(values[i].canonical_name)
                &&& json::field(items[i], "value"@) == Some(json::double_value(values[i].value))
                &&& json::field(items[i], "min"@) == Some(json::double_value(values[i].min))
                &&& json::field(items[i], "max"@) == Some(json::double_value(values[i].max))
            },
        _ => false,
    }
}

proof fn lemma_field_names()
    ensures
        "appearance_anchor"@.len() == 17,
        "attributes"@.len() == 10,
        "id"@.len() == 2,
        "kind"@.len() == 4 && "kind"@[0] == 'k',
        "name"@.len() == 4 && "name"@[0] == 'n',
        "max"@.len() == 3 && "max"@[1] == 'a',
        "min"@.len() == 3 && "min"@[1] == 'i',
        "value"@.len() == 5,
        "created"@.len() == 7 && "created"@[0] == 'c',
        "after"@.len() == 5 && "after"@[0] == 'a',
        "applied"@.len() == 7 && "applied"@[0] == 'a',
        "before"@.len() == 6 && "before"@[0] == 'b',
        "reason"@.len() == 6 && "reason"@[0] == 'r',
{
    reveal_strlit("appearance_anchor");
    reveal_strlit("attributes");
    reveal_strlit("id");
    reveal_strlit("kind");
    reveal_strlit("name");
    reveal_strlit("max");
    reveal_strlit("min");
    reveal_strlit("value");
    reveal_strlit("created");
    reveal_strlit("after");
    reveal_strlit("applied");
    reveal_strlit("before");
    reveal_strlit("reason");
}

/// The narrator that asks who is there is told of each entity of the kind and the name that it asks
/// for, in whatever case the name is written, in the order of the list, with what the tables have
/// of it.
pub proof fn law_question_is_answered_in_full(store: StoreView, story_id: Seq<char>, args: JsonView)
    ensures
        ({
            let found = repository::listed_entities(store, story_id, json::text_field(args, "kind"@)).filter(
                |e: EntityView|
                    json::text_field(args, "name"@) is None || text::same_ignoring_case(
                        e.name,
                        json::text_field(args, "name"@)->0,
                    ),
            );
            match json::field(tools::entities_answer(store, story_id, args), "entities"@) {
                Some(JsonView::Array(items)) => items.len() == found.len() && forall|i: int|
                    #![trigger items[i]]
                    0 <= i < items.len() ==> tells_entity(
                        items[i],
                        found[i],
                        attributes::listed_values(store, story_id, found[i].id),
                    ),
                _ => false,
            }
        }),
{
    let asked = json::text_field(args, "name"@);
    let p = |e: EntityView| asked is None || text::same_ignoring_case(e.name, asked->0);
    assert(p =~= tools::named_like(asked));
    assert((|e: EntityView|
        json::text_field(args, "name"@) is None || text::same_ignoring_case(
            e.name,
            json::text_field(args, "name"@)->0,
        )) =~= p);
    let found = repository::listed_entities(store, story_id, json::text_field(args, "kind"@)).filter(p);
    let items = found.map_values(tools::entity_answer(store, story_id));
    reveal_with_fuel(rows::first_where, 2);
    assert(json::field(tools::entities_answer(store, story_id, args), "entities"@) == Some(JsonView::Array(items)));
    assert forall|i: int|
        #![trigger items[i]]
        0 <= i < items.len() implies tells_entity(
        items[i],
        found[i],
        attributes::listed_values(store, story_id, found[i].id),
    ) by {
        lemma_entity_told(store, story_id, found[i]);
        assert(items[i] == tools::entity_answer(store, story_id)(found[i]));
    }
}

proof fn lemma_entity_told(store: StoreView, story_id: Seq<char>, e: EntityView)
    ensures
        tells_entity(
            tools::entity_answer(store, story_id)(e),
            e,
            attributes::listed_values(store, story_id, e.id),
        ),
{
    lemma_field_names();
    reveal_with_fuel(rows::first_where, 6);
    let values = attributes::listed_values(store, story_id, e.id);
    let items = values.map_values(tools::attribute_answer());
    let told = tools::entity_answer(store, story_id)(e);
    assert(json::field(told, "attributes"@) == Some(JsonView::Array(items)));
    assert forall|i: int|
        #![trigger items[i]]
        0 <= i < items.len() implies ({
        &&& json::text_field(items[i], "name"@) == Some(values[i].canonical_name)
        &&& json::field(items[i], "value"@) == Some(json::double_value(values[i].value))
        &&& json::field(items[i], "min"@) == Some(json::double_value(values[i].min))
        &&& json::field(items[i], "max"@) == Some(json::double_value(values[i].max))
    }) by {
        assert(items[i] == tools::attribute_answer()(values[i]));
    }
}

/// What the narrator is told of an entity that it made or changed, and of a value that it changed or
/// was not let change, is what came of it.
pub proof fn law_answers_tell_what_came_of_it(
    entity: EntityView,
    created: bool,
    id: Seq<char>,
    name: Seq<char>,
    look: Option<Seq<char>>,
    before: DoubleView,
    after: DoubleView,
)
    ensures
        ({
            let made = tools::creation_answer(entity, created);
            &&& json::bool_field(made, "created"@) == Some(created)
            &&& json::text_field(made, "id"@) == Some(entity.id)
            &&& json::text_field(made, "kind"@) == Some(entity.kind)
            &&& json::text_field(made, "name"@) == Some(entity.name)
        }),
        ({
            let changed = tools::update_answer(id, name, look);
            &&& json::text_field(changed, "id"@) == Some(id)
            &&& json::text_field(changed, "name"@) == Some(name)
            &&& json::text_field(changed, "appearance_anchor"@) == look
        }),
        ({
            let moved = tools::applied_answer(before, after);
            &&& json::bool_field(moved, "applied"@) == Some(true)
            &&& json::field(moved, "before"@) == Some(json::double_value(before))
            &&& json::field(moved, "after"@) == Some(json::double_value(after))
        }),
        ({
            let kept = tools::locked_answer(before);
            &&& json::bool_field(kept, "applied"@) == Some(false)
            &&& json::field(kept, "before"@) == Some(json::double_value(before))
            &&& json::field(kept, "after"@) == Some(json::double_value(before))
            &&& json::text_field(kept, "reason"@) is Some
        }),
{
    lemma_field_names();
    reveal_with_fuel(rows::first_where, 6);
}

/// A change is taken from the arguments as it is asked for; it is dramatic only where it is said to
/// be, and comes of the narration where no reason is given.
pub proof fn law_change_is_taken_as_asked(args: JsonView)
    ensures
        tools::adjustment_of(args) matches Ok(asked) ==> {
            &&& json::text_field(args, "entity_id"@) == Some(asked.entity_id)
            &&& json::text_field(args, "attribute"@) == Some(asked.attribute)
            &&& text::trimmed(asked.attribute).len() > 0
            &&& json::real_field(args, "delta"@) == Some(asked.delta)
            &&& asked.dramatic == (json::bool_field(args, "dramatic"@) == Some(true))
            &&& json::text_field(args, "reason"@) is Some ==> json::text_field(args, "reason"@) == Some(asked.reason)
            &&& json::text_field(args, "reason"@) is None ==> asked.reason == "narration"@
        },
        tools::adjustment_of(args) is Ok <==> json::text_field(args, "entity_id"@) is Some && json::text_field(
            args,
            "attribute"@,
        ) is Some && text::trimmed(json::text_field(args, "attribute"@)->0).len() > 0 && json::real_field(
            args,
            "delta"@,
        ) is Some,
{
}

/// An image is asked for by a description that says something, without the space around it, and by
/// the characters that it names, if any.
pub proof fn law_image_is_asked_by_its_description(args: JsonView)
    ensures
        tools::image_asked(args) matches Ok(asked) ==> {
            &&& json::text_field(args, "description"@) is Some
            &&& asked.0 == text::trimmed(json::text_field(args, "description"@)->0)
            &&& asked.0.len() > 0
            &&& match json::field(args, "character_ids"@) {
                Some(JsonView::Array(items)) => asked.1.len() == items.len() && forall|i: int|
                    0 <= i < items.len() ==> #[trigger] items[i] == JsonView::Str(asked.1[i]),
                Some(_) => false,
                None => asked.1.len() == 0,
            }
        },
{
    if tools::image_asked(args) is Ok {
        if let Some(list) = json::field(args, "character_ids"@) {
            if let JsonView::Array(items) = list {
                let ids = json::texts_of(list)->0;
                assert forall|i: int| 0 <= i < items.len() implies #[trigger] items[i] == JsonView::Str(ids[i]) by {
                    assert(json::text_of(items[i]) is Some);
                }
            }
        }
    }
}

/// An entity of a kind is taken to be there where one of that kind is listed by its name, in
/// whatever case; it is the first of those.
pub proof fn law_known_entity_is_found_by_name(
    store: StoreView,
    story_id: Seq<char>,
    entity_kind: Seq<char>,
    name: Seq<char>,
)
    ensures
        ({
            let list = repository::listed_entities(store, story_id, Some(entity_kind));
            match tools::already_there(store, story_id, entity_kind, name) {
                Some(e) => exists|i: int|
                    0 <= i < list.len() && #[trigger] list[i] == e && text::same_ignoring_case(e.name, name)
                        && forall|k: int|
                        0 <= k < i ==> !text::same_ignoring_case((#[trigger] list[k]).name, name),
                None => forall|k: int|
                    0 <= k < list.len() ==> !text::same_ignoring_case((#[trigger] list[k]).name, name),
            }
        }),
{
    let list = repository::listed_entities(store, story_id, Some(entity_kind));
    let p = tools::named_like(Some(name));
    let i = rows::lemma_first_where(list, p);
    match rows::first_where(list, p) {
        Some(e) => {
            assert forall|k: int| 0 <= k < i implies !text::same_ignoring_case((#[trigger] list[k]).name, name) by {
                assert(!p(list[k]));
            }
            assert(list[i] == e);
        },
        None => {
            assert forall|k: int| 0 <= k < list.len() implies !text::same_ignoring_case((#[trigger] list[k]).name, name) by {
                if text::same_ignoring_case(list[k].name, name) {
                    assert(p(list[k]));
                }
            }
        },
    }
}

/// An attribute that goes by the name is taken before anything that was worked out for the name, and
/// then nothing changes. Taking an attribute changes the registry at most.
pub proof fn law_known_name_goes_first(store: StoreView, name: Seq<char>, resolution: AttributeResolution)
    ensures
        ({
            let done = tools::adopted(store, name, resolution);
            &&& done.0 == (StoreView { registry: done.0.registry, ..store })
            &&& forall|k: int|
                #[trigger] odds::goes_by(store.registry, name, k) ==> done.0 == store && done.1 is Ok && done.1->Ok_0
                    == store.registry[k]
            &&& resolution is Existing ==> done.0 == store
            &&& (forall|k: int| !#[trigger] odds::goes_by(store.registry, name, k)) && resolution is Existing
                ==> done.1 is Ok && done.1->Ok_0 == resolution->Existing_0@
        }),
{
    let k = odds::lemma_goes_by(store.registry, name);
    if registry::exact_match(store.registry, name) is Some {
        assert(odds::goes_by(store.registry, name, k));
    }
}

/// What the narrator is told of the values of an entity is each of them, in the order of the list,
/// by its name and on its scale.
pub proof fn law_snapshot_has_every_value<F: Fn(Reading) -> Clamped>(
    clamp: &F,
    store: StoreView,
    turn: StagingView,
    entity_id: Seq<char>,
    told: Seq<JsonView>,
)
    requires
        staging::snapshot_of(clamp, store, turn, entity_id, told),
    ensures
        ({
            let values = attributes::listed_values(store, turn.story_id, entity_id);
            &&& told.len() == values.len()
            &&& forall|k: int|
                #![trigger told[k]]
                0 <= k < told.len() ==> {
                    &&& json::text_field(told[k], "name"@) == Some(values[k].canonical_name)
                    &&& json::field(told[k], "min"@) == Some(json::double_value(values[k].min))
                    &&& json::field(told[k], "max"@) == Some(json::double_value(values[k].max))
                    &&& exists|value: DoubleView|
                        #[trigger] staging::effective_from(
                            clamp,
                            values[k].value,
                            staging::set_by_player(values[k].source),
                            turn.pending,
                            entity_id,
                            values[k].attribute_id,
                            value,
                        ) && json::field(told[k], "value"@) == Some(json::double_value(value))
                }
        }),
{
    lemma_field_names();
    reveal_with_fuel(rows::first_where, 5);
    let values = attributes::listed_values(store, turn.story_id, entity_id);
    assert forall|k: int| #![trigger told[k]] 0 <= k < told.len() implies ({
        &&& json::text_field(told[k], "name"@) == Some(values[k].canonical_name)
        &&& json::field(told[k], "min"@) == Some(json::double_value(values[k].min))
        &&& json::field(told[k], "max"@) == Some(json::double_value(values[k].max))
        &&& exists|value: DoubleView|
            #[trigger] staging::effective_from(
                clamp,
                values[k].value,
                staging::set_by_player(values[k].source),
                turn.pending,
                entity_id,
                values[k].attribute_id,
                value,
            ) && json::field(told[k], "value"@) == Some(json::double_value(value))
    }) by {
        assert(staging::tells_value(clamp, turn, entity_id, values[k], told[k]));
        let value = choose|value: DoubleView|
            #[trigger] staging::effective_from(
                clamp,
                values[k].value,
                staging::set_by_player(values[k].source),
                turn.pending,
                entity_id,
                values[k].attribute_id,
                value,
            ) && told[k] == staging::snapshot_value(values[k], value);
        assert(json::field(told[k], "value"@) == Some(json::double_value(value)));
    }
}

/// A piece of an answer is shown as what it is: words as words, thoughts as thoughts, and a call with
/// what it does, whether it has begun or ended, and how it ended.
pub proof fn law_pieces_are_shown_as_they_are(event: StreamEvent, chunk: ChunkView)
    requires
        stream::shows(event, chunk),
    ensures
        chunk matches ChunkView::Text(t) ==> event matches StreamEvent::Delta(shown) && shown@ == t,
        chunk matches ChunkView::Reasoning(t) ==> event matches StreamEvent::Thoughts(shown) && shown@ == t,
        chunk matches ChunkView::ToolActivity { call_id, tool_name, args, phase } ==> {
            &&& event matches StreamEvent::ToolActivity { call_id: id, label, phase: word, ok }
            &&& id@ == call_id
            &&& phase is Started ==> word@ == "started"@ && ok is None
            &&& phase matches ToolActivityPhase::Finished { ok: well } ==> word@ == "finished"@ && ok == Some(well)
            &&& json::parsed(args) is Some ==> label@ == tools::label_of(tool_name, json::parsed(args)->0)
        },
{
}

/// What a call is shown as names what it is about, where its arguments do.
pub proof fn law_label_names_what_it_is_about(args: JsonView, about: Seq<char>)
    ensures
        json::text_field(args, "reason"@) == Some(about) ==> tools::label_of("roll_check"@, args) == "Rolling for "@
            + about + "…"@,
        json::text_field(args, "name"@) == Some(about) ==> tools::label_of("create_entity"@, args) == "Introducing "@
            + about + "…"@,
        json::text_field(args, "attribute"@) == Some(about) ==> tools::label_of("adjust_entity_attribute"@, args)
            == "Adjusting "@ + about + "…"@,
        tools::label_of("get_entities"@, args) == "Checking who's here…"@,
        tools::label_of("update_entity"@, args) == "Updating an entity…"@,
        tools::label_of("illustrate_scene"@, args) == "Sketching the scene…"@,
{
    reveal_strlit("roll_check");
    reveal_strlit("create_entity");
    reveal_strlit("adjust_entity_attribute");
    reveal_strlit("get_entities");
    reveal_strlit("update_entity");
    reveal_strlit("illustrate_scene");
    assert("roll_check"@.len() == 10);
    assert("create_entity"@.len() == 13 && "create_entity"@[0] == 'c');
    assert("adjust_entity_attribute"@.len() == 23);
    assert("get_entities"@.len() == 12);
    assert("update_entity"@.len() == 13 && "update_entity"@[0] == 'u');
    assert("illustrate_scene"@.len() == 16);
}

/// What is wrong with what was asked for is told as wrong arguments, and what failed beside it as a
/// failure, in the same words either way.
pub proof fn law_errors_keep_their_words(message: Seq<char>)
    ensures
        tool_error::argument_error(ErrorView::NotFound(message)) == ToolErrorView::InvalidArgs(message),
        tool_error::argument_error(ErrorView::Invalid(message)) == ToolErrorView::InvalidArgs(message),
        tool_error::argument_error(ErrorView::Other(message)) == ToolErrorView::Other(message),
        tool_error::argument_error(ErrorView::Db(message)) == ToolErrorView::Other(message),
        tool_error::plain_tool_error(ErrorView::NotFound(message)) == ToolErrorView::Other(message),
        tool_error::plain_tool_error(ErrorView::Invalid(message)) == ToolErrorView::Other(message),
        tool_error::plain_tool_error(ErrorView::Other(message)) == ToolErrorView::Other(message),
        tool_error::plain_tool_error(ErrorView::Db(message)) == ToolErrorView::Other(message),
{
}

/// The narrator answers what the player did last in a story that is there, and shows a scene only
/// where images can be made.
pub proof fn law_narrator_answers_the_player(
    store: StoreView,
    story_id: Seq<char>,
    transcript: Seq<HistoryTurnView>,
    purpose: NarratorPurpose,
    facts: &Facts,
)
    ensures
        generation::refusal(store, story_id, transcript, purpose, facts) is None <==> {
            &&& transcript.len() > 0
            &&& transcript.last().is_player
            &&& purpose == NarratorPurpose::Illustrate ==> facts.images_enabled && facts.has_image_key
                && facts.tool_settings.illustrate_scene
            &&& stories::settings_of(store, story_id) is Some
        },
{
}

} // verus!
