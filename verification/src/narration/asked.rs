//! What comes of what the narrator asks for in a turn whose changes are held back.

use vstd::prelude::*;

use super::commands;
use super::notes;
use super::passage;
use super::staged;
use super::staged::{CheckInputView, CheckOutputView, CheckStartView, NoteView, NotedView};
use super::tools as eager;
use crate::dicerolls::model::DiceMode;
use crate::double::DoubleView;
use crate::entities::attributes;
use crate::entities::attributes::{Clamped, Reading};
use crate::entities::model::{AttributeRegistryEntry, EntityView, RegistryView};
use crate::entities::registry;
use crate::entities::registry::AttributeResolution;
use crate::entities::repository as listed;
use crate::error::{AppResult, ErrorView};
use crate::json;
use crate::json::JsonView;
use crate::narrator::commit::Scope;
use crate::narrator::landing;
use crate::narrator::staging;
use crate::narrator::staging::{OpView, StagingView};
use crate::narrator::dice;
use crate::narrator::tools::AdjustmentView;
use crate::prompts;
use crate::rows;
use crate::store::StoreView;
use crate::text;

verus! {

proof fn lemma_field_names()
    ensures
        "after"@.len() == 5,
        "applied"@.len() == 7,
        "before"@.len() == 6 && "before"@[0] == 'b',
        "reason"@.len() == 6 && "reason"@[0] == 'r',
        "actor_value"@.len() == 11,
        "degree"@.len() == 6 && "degree"@[0] == 'd',
        "needed"@.len() == 6 && "needed"@[0] == 'n',
        "outcome"@.len() == 7,
        "roll"@.len() == 4,
        "target_value"@.len() == 12,
        "id"@.len() == 2,
        "kind"@.len() == 4 && "kind"@[0] == 'k',
        "name"@.len() == 4 && "name"@[0] == 'n',
        "appearance_anchor"@.len() == 17,
        "attributes"@.len() == 10,
{
    reveal_strlit("after");
    reveal_strlit("applied");
    reveal_strlit("before");
    reveal_strlit("reason");
    reveal_strlit("actor_value");
    reveal_strlit("degree");
    reveal_strlit("needed");
    reveal_strlit("outcome");
    reveal_strlit("roll");
    reveal_strlit("target_value");
    reveal_strlit("id");
    reveal_strlit("kind");
    reveal_strlit("name");
    reveal_strlit("appearance_anchor");
    reveal_strlit("attributes");
}

/// The narrator that looks somebody up is told of all that the turn finds, in its order, each by who
/// it is and how it looks for the rest of the turn. A look that is remembered is noted behind the
/// others, with what was asked and whom it found, after as many changes as there are.
pub proof fn law_lookup_is_answered_and_noted<F: Fn(Reading) -> Clamped>(
    clamp: &F,
    store: StoreView,
    turn: StagingView,
    kind_filter: Option<Seq<char>>,
    name_filter: Option<Seq<char>>,
    remembered: bool,
    now: Seq<char>,
    before: Seq<NotedView>,
    after: Seq<NotedView>,
    told: JsonView,
)
    requires
        staged::looked_up(clamp, store, turn, kind_filter, name_filter, remembered, now, before, after, told),
    ensures
        ({
            let found = staging::effective_list(store, turn, kind_filter, name_filter, now);
            &&& json::field(told, "entities"@) matches Some(JsonView::Array(items)) && items.len() == found.len()
                && forall|k: int|
                #![trigger items[k]]
                0 <= k < items.len() ==> {
                    &&& json::text_field(items[k], "id"@) == Some(found[k].id)
                    &&& json::text_field(items[k], "kind"@) == Some(found[k].kind)
                    &&& json::text_field(items[k], "name"@) == Some(found[k].name)
                    &&& json::text_field(items[k], "appearance_anchor"@) == found[k].appearance_anchor
                    &&& json::field(items[k], "attributes"@) matches Some(JsonView::Array(values))
                        && staging::snapshot_of(clamp, store, turn, found[k].id, values)
                }
            &&& !remembered ==> after == before
            &&& remembered ==> {
                &&& after.len() == before.len() + 1
                &&& after.drop_last() == before
                &&& after.last().changes == turn.pending.len()
                &&& after.last().note matches NoteView::Query {
                    entity_ids,
                    kind_filter: asked_kind,
                    name_filter: asked_name,
                } && asked_kind == kind_filter && asked_name == name_filter && entity_ids.len() == found.len()
                    && forall|k: int| 0 <= k < found.len() ==> #[trigger] entity_ids[k] == found[k].id
            }
        }),
{
    lemma_field_names();
    reveal_with_fuel(rows::first_where, 6);
    let found = staging::effective_list(store, turn, kind_filter, name_filter, now);
    let items = json::field(told, "entities"@)->0->Array_0;
    assert forall|k: int| #![trigger items[k]] 0 <= k < items.len() implies ({
        &&& json::text_field(items[k], "id"@) == Some(found[k].id)
        &&& json::text_field(items[k], "kind"@) == Some(found[k].kind)
        &&& json::text_field(items[k], "name"@) == Some(found[k].name)
        &&& json::text_field(items[k], "appearance_anchor"@) == found[k].appearance_anchor
        &&& json::field(items[k], "attributes"@) matches Some(JsonView::Array(values)) && staging::snapshot_of(
            clamp,
            store,
            turn,
            found[k].id,
            values,
        )
    }) by {
        assert(staged::tells_entity(clamp, store, turn, found[k], items[k]));
        let values = choose|values: Seq<JsonView>|
            #[trigger] staging::snapshot_of(clamp, store, turn, found[k].id, values) && items[k]
                == staged::entity_with(found[k], values);
        assert(json::field(items[k], "attributes"@) == Some(JsonView::Array(values)));
    }
    if remembered {
        assert(after.drop_last() =~= before);
    }
}

/// A change that the narrator asks for starts from the value that the entity has for the rest of the
/// turn. Where the player has fixed the value, nothing is held back and the answer tells so;
/// otherwise the change is held back last, as it is asked for, and the answer tells both values.
pub proof fn law_change_is_held_back_unless_fixed<F: Fn(Reading) -> Clamped>(
    clamp: &F,
    store: StoreView,
    before: StagingView,
    after: StagingView,
    entity_id: Seq<char>,
    asked: AdjustmentView,
    attribute: RegistryView,
    from: DoubleView,
    to: DoubleView,
    told: JsonView,
)
    requires
        staged::change_noted(clamp, store, before, after, entity_id, asked, attribute, from, to, told),
    ensures
        staging::effective_value(clamp, store, before, entity_id, attribute, from),
        json::field(told, "before"@) == Some(json::double_value(from)),
        attributes::locked(store, before.story_id, entity_id, attribute.id) ==> {
            &&& after == before
            &&& json::bool_field(told, "applied"@) == Some(false)
            &&& json::field(told, "after"@) == Some(json::double_value(from))
        },
        !attributes::locked(store, before.story_id, entity_id, attribute.id) ==> {
            &&& json::bool_field(told, "applied"@) == Some(true)
            &&& json::field(told, "after"@) == Some(json::double_value(to))
            &&& after == (StagingView { pending: after.pending, ..before })
            &&& after.pending.len() == before.pending.len() + 1
            &&& after.pending.drop_last() == before.pending
            &&& after.pending.last() == (OpView::AdjustAttribute {
                entity_id,
                attribute,
                delta: asked.delta,
                cause: asked.reason,
                dramatic: asked.dramatic,
            })
            &&& staging::leads_to(clamp, from, after.pending.last(), to)
        },
{
    lemma_field_names();
    reveal_with_fuel(rows::first_where, 5);
    if !attributes::locked(store, before.story_id, entity_id, attribute.id) {
        assert(after.pending.drop_last() =~= before.pending);
    }
}

/// A check is taken from the arguments as it is asked for: by an attribute that is named, against
/// whom and what it names, with a modifier of nothing where it gives none.
pub proof fn law_check_is_taken_as_asked(args: JsonView)
    ensures
        staged::check_of(args) is Ok <==> json::text_field(args, "attribute"@) is Some && text::trimmed(
            json::text_field(args, "attribute"@)->0,
        ).len() > 0,
        staged::check_of(args) matches Ok(asked) ==> {
            &&& json::text_field(args, "attribute"@) == Some(asked.attribute)
            &&& asked.target_entity_id == json::text_field(args, "target_entity_id"@)
            &&& asked.target_attribute == json::text_field(args, "target_attribute"@)
            &&& json::real_field(args, "modifier"@) is Some ==> asked.modifier == json::real_field(args, "modifier"@)->0
            &&& json::real_field(args, "modifier"@) is None ==> asked.modifier.bits == 0
        },
{
}

/// The one whom a check is against is the one of the turn that has the identifier, if any is named.
pub proof fn law_check_is_against_whom_it_names(store: StoreView, turn: StagingView, asked: staged::CheckRequestView)
    ensures
        ({
            let list = staging::staged_list(store, turn.story_id, turn.pending, None, Seq::empty());
            match staged::opponent_of(store, turn, asked) {
                Some(e) => asked.target_entity_id == Some(e.id) && list.contains(e),
                None => asked.target_entity_id is None || forall|i: int|
                    0 <= i < list.len() ==> (#[trigger] list[i]).id != asked.target_entity_id->0,
            }
        }),
{
    let list = staging::staged_list(store, turn.story_id, turn.pending, None, Seq::empty());
    if let Some(id) = asked.target_entity_id {
        let p = dice::is_entity(id);
        let i = rows::lemma_first_where(list, p);
        if rows::first_where(list, p) is None {
            assert forall|k: int| 0 <= k < list.len() implies (#[trigger] list[k]).id != id by {
                if list[k].id == id {
                    assert(p(list[k]));
                }
            }
        } else {
            assert(list[i].id == id);
        }
    }
}

/// A check is rolled from the values that its participants have for the rest of the turn, on the
/// scales of their attributes; its note and its answer tell of them and of what was rolled.
pub proof fn law_check_tells_what_it_was_rolled_from<F: Fn(Reading) -> Clamped>(
    clamp: &F,
    store: StoreView,
    turn: StagingView,
    start: CheckStartView,
    actor_attribute: RegistryView,
    target_attribute: Option<RegistryView>,
    input: CheckInputView,
    output: CheckOutputView,
)
    requires
        staged::check_read(clamp, store, turn, start, actor_attribute, target_attribute, input),
    ensures
        input.modifier == start.asked.modifier,
        staging::effective_value(clamp, store, turn, start.actor.id, actor_attribute, input.actor.value),
        input.actor.min == actor_attribute.min && input.actor.max == actor_attribute.max,
        start.target is Some && target_attribute is Some ==> input.target is Some && staging::effective_value(
            clamp,
            store,
            turn,
            start.target->0.id,
            target_attribute->0,
            input.target->0.value,
        ) && input.target->0.min == target_attribute->0.min && input.target->0.max == target_attribute->0.max,
        start.target is None || target_attribute is None ==> input.target is None,
        ({
            let note = staged::check_note(start, actor_attribute, target_attribute, input, output);
            &&& note.actor_entity_id == start.actor.id
            &&& note.actor_attribute_id == Some(actor_attribute.id)
            &&& note.actor_value == input.actor.value
            &&& start.target is Some ==> note.target_entity_id == Some(start.target->0.id)
            &&& start.target is None ==> note.target_entity_id is None && note.target_attribute_id is None
            &&& start.target is Some && target_attribute is Some ==> note.target_attribute_id == Some(
                target_attribute->0.id,
            ) && note.target_value == Some(input.target->0.value)
            &&& input.target is None ==> note.target_value is None
            &&& note.modifier == start.asked.modifier
            &&& note.output == output
        }),
        ({
            let told = staged::check_answer(output, input.actor.value, staged::value_of(input.target));
            &&& json::field(told, "actor_value"@) == Some(json::double_value(input.actor.value))
            &&& input.target is Some ==> json::field(told, "target_value"@) == Some(
                json::double_value(input.target->0.value),
            )
            &&& json::text_field(told, "degree"@) == Some(output.degree)
            &&& json::text_field(told, "outcome"@) == Some(output.outcome)
            &&& json::field(told, "needed"@) == Some(json::int_value(output.needed))
            &&& json::field(told, "roll"@) == Some(json::int_value(output.roll))
        }),
{
    lemma_field_names();
    reveal_with_fuel(rows::first_where, 7);
}

/// Settling an attribute changes the registry at most. One that is there is taken as it is; one that
/// gets an alias keeps everything else, and so do the others; a new one stands behind the others
/// unless its name is taken, and the one that goes by the name is taken.
pub proof fn law_settled_attribute_is_in_the_registry(
    before: StoreView,
    after: StoreView,
    resolution: AttributeResolution,
    r: AppResult<AttributeRegistryEntry>,
)
    requires
        eager::attribute_settled(before, after, resolution, r),
    ensures
        after == (StoreView { registry: after.registry, ..before }),
        resolution matches AttributeResolution::Existing(attribute) ==> after == before && r is Ok && r->Ok_0@
            == attribute@,
        resolution matches AttributeResolution::AddAlias { attribute, alias } ==> {
            &&& r is Err <==> forall|i: int| 0 <= i < before.registry.len() ==> (#[trigger] before.registry[i]).id
                != attribute@.id
            &&& r is Err ==> after == before
            &&& r is Ok ==> r->Ok_0@ == attribute@ && after.registry.len() == before.registry.len() && exists|k: int|
                0 <= k < before.registry.len() && #[trigger] before.registry[k].id == attribute@.id && landing::got_alias(
                    before.registry[k],
                    after.registry[k],
                    alias@,
                ) && forall|i: int|
                    0 <= i < before.registry.len() && i != k ==> #[trigger] after.registry[i] == before.registry[i]
        },
        resolution matches AttributeResolution::Mint(attribute) ==> {
            &&& after.registry == before.registry || after.registry == before.registry.push(attribute@)
            &&& r is Ok ==> after.registry.contains(r->Ok_0@)
            &&& (forall|i: int|
                0 <= i < before.registry.len() ==> (#[trigger] before.registry[i]).id != attribute@.id
                    && before.registry[i].canonical_name != attribute@.canonical_name) && registry::exact_match(
                before.registry,
                attribute@.canonical_name,
            ) is None ==> after.registry == before.registry.push(attribute@)
        },
{
    match resolution {
        AttributeResolution::Existing(_) => {},
        AttributeResolution::AddAlias { attribute, alias } => {
            let p = registry::attribute_id_is(attribute@.id);
            let k = rows::lemma_first_where(before.registry, p);
            match rows::first_where(before.registry, p) {
                Some(row) => {
                    rows::lemma_upserted_hit(before.registry, p, registry::aliased(row, alias@), k);
                    landing::lemma_got_alias(row, alias@);
                    assert(before.registry[k].id == attribute@.id);
                },
                None => {
                    assert forall|i: int| 0 <= i < before.registry.len() implies (#[trigger] before.registry[i]).id
                        != attribute@.id by {
                        if before.registry[i].id == attribute@.id {
                            assert(p(before.registry[i]));
                        }
                    }
                },
            }
        },
        AttributeResolution::Mint(attribute) => {
            let offered = registry::offered(before.registry, attribute@);
            if let Some(known) = registry::exact_match(offered, attribute@.canonical_name) {
                rows::lemma_first_where(offered, registry::attribute_id_is(known.id));
            }
            if registry::clashes(before.registry, attribute@) {
                let q = registry::same_identity(attribute@);
                let i = choose|i: int| 0 <= i < before.registry.len() && q(#[trigger] before.registry[i]);
                assert(before.registry[i].id == attribute@.id || before.registry[i].canonical_name
                    == attribute@.canonical_name);
            }
        },
    }
}

/// A turn without dice has the tools of the world alone; any other can roll as well, first of all.
pub proof fn law_only_turns_with_dice_can_roll(dice_mode: DiceMode)
    ensures
        ({
            let world = seq![
                prompts::GET_ENTITIES_TOOL_NAME@,
                prompts::CREATE_ENTITY_TOOL_NAME@,
                prompts::UPDATE_ENTITY_TOOL_NAME@,
                prompts::ADJUST_ENTITY_ATTRIBUTE_TOOL_NAME@,
            ];
            &&& dice_mode == DiceMode::Never ==> eager::tool_names(dice_mode) == world
            &&& dice_mode != DiceMode::Never ==> eager::tool_names(dice_mode).len() == 5 && eager::tool_names(dice_mode)[0]
                == prompts::ROLL_CHECK_TOOL_NAME@ && eager::tool_names(dice_mode).drop_first() == world
        }),
{
    if dice_mode != DiceMode::Never {
        assert(eager::tool_names(dice_mode).drop_first() =~= eager::tool_names(DiceMode::Never));
    }
}

/// A telling with notes is put down as a message first; what was changed and noted in the turn is
/// written about that message, and nothing of it where the message could not be put down.
pub proof fn law_notes_are_about_the_message<F: Fn(Reading) -> Clamped>(
    clamp: &F,
    telling: passage::Telling,
    turn: StagingView,
    noted: Seq<NotedView>,
    before: StoreView,
    mid: StoreView,
    after: StoreView,
    failure: Option<ErrorView>,
)
    requires
        notes::told_with_notes(clamp, telling, turn, noted, before, mid, after, failure),
    ensures
        failure is None ==> passage::passage_put(telling, before, mid, None) && notes::written(
            clamp,
            Scope { story_id: turn.story_id, passage_id: mid.entries.last().id, turn_id: telling.turn_id },
            turn,
            noted,
            mid,
            after,
            None,
        ),
        !passage::passage_put(telling, before, mid, None) ==> after == mid && failure is Some,
{
}

/// A turn that the player begins leaves the tables as its submission does, and is answered with the
/// entry of it and a stream of its own, or with its error.
pub proof fn law_begun_turn_has_a_stream(
    before: StoreView,
    after: StoreView,
    entry_id: Seq<char>,
    now: Seq<char>,
    story_id: Seq<char>,
    mode: Seq<char>,
    content: Seq<char>,
    turn_id: Option<Seq<char>>,
    r: AppResult<commands::SubmitTurnResult>,
)
    requires
        commands::turn_begun(before, after, entry_id, now, story_id, mode, content, turn_id, r),
    ensures
        after == commands::submitted(before, entry_id, now, story_id, mode, content, turn_id).0,
        r is Ok ==> r->Ok_0.stream_id@.len() == 36 && Ok::<_, ErrorView>(r->Ok_0.entry@) == commands::submitted(
            before,
            entry_id,
            now,
            story_id,
            mode,
            content,
            turn_id,
        ).1,
        r is Err ==> commands::submitted(before, entry_id, now, story_id, mode, content, turn_id).1 is Err,
{
}

/// A note is written down hidden, about the message of its turn: a roll with what it is told by, and
/// a look with what was asked, whom it found, and the names that those have.
pub proof fn law_note_is_written_about_the_message(
    store: StoreView,
    scope: Scope,
    check: staged::PendingCheckView,
    entity_ids: Seq<Seq<char>>,
    kind_filter: Option<Seq<char>>,
    name_filter: Option<Seq<char>>,
)
    ensures
        ({
            let draft = notes::note_draft(store, scope, NoteView::Check(check));
            &&& draft.story_id == scope.story_id
            &&& draft.kind == "diceroll"@
            &&& draft.visibility == "hidden"@
            &&& draft.target_entry_id == Some(scope.passage_id)
            &&& draft.payload == notes::check_payload(check)
        }),
        ({
            let draft = notes::note_draft(store, scope, NoteView::Query { entity_ids, kind_filter, name_filter });
            let found = listed::listed_entities(store, scope.story_id, None).filter(
                |e: EntityView| entity_ids.contains(e.id),
            );
            &&& draft.story_id == scope.story_id
            &&& draft.kind == "entity_queried"@
            &&& draft.visibility == "hidden"@
            &&& draft.target_entry_id == Some(scope.passage_id)
            &&& json::text_field(draft.payload, "kind_filter"@) == kind_filter
            &&& json::text_field(draft.payload, "name_filter"@) == name_filter
            &&& json::field(draft.payload, "entity_ids"@) matches Some(JsonView::Array(items)) && items.len()
                == entity_ids.len() && forall|k: int|
                0 <= k < items.len() ==> #[trigger] items[k] == JsonView::Str(entity_ids[k])
            &&& found.len() == 0 ==> draft.content == Some("Looked up: no matching entities"@)
            &&& found.len() > 0 ==> draft.content == Some(
                "Looked up: "@ + text::joined(found.map_values(|e: EntityView| e.name), ", "@),
            )
        }),
{
    reveal_strlit("entity_ids");
    reveal_strlit("kind_filter");
    reveal_strlit("name_filter");
    assert("entity_ids"@.len() == 10);
    assert("kind_filter"@.len() == 11 && "kind_filter"@[0] == 'k');
    assert("name_filter"@.len() == 11 && "name_filter"@[0] == 'n');
    reveal_with_fuel(rows::first_where, 4);
    let found = listed::listed_entities(store, scope.story_id, None).filter(
        |e: EntityView| entity_ids.contains(e.id),
    );
    assert((|e: EntityView| entity_ids.contains(e.id)) =~= eager::among(entity_ids));
    assert((|e: EntityView| e.name) =~= eager::name_of());
}

/// A turn is refused where it is of no mode, or where it says nothing and is not one to go on or to
/// look.
pub proof fn law_turn_says_something_or_goes_on(mode: Seq<char>, content: Seq<char>)
    ensures
        commands::turn_refusal(mode, content) is None <==> mode == "continue"@ || mode == "see"@ || ((mode == "do"@
            || mode == "say"@ || mode == "story"@ || mode == "guide"@) && text::trimmed(content).len() > 0),
{
    let modes = prompts::turn_modes();
    assert(modes.len() == 6);
    assert(modes[0] == "do"@ && modes[1] == "say"@ && modes[2] == "story"@ && modes[3] == "guide"@ && modes[4]
        == "continue"@ && modes[5] == "see"@);
}

} // verus!
