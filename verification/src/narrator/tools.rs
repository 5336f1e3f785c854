//! What the tools of the narrator do, and what the player reads meanwhile.

use vstd::prelude::*;

use super::dice;
use super::tool_error;
use super::tool_error::{ToolError, ToolErrorView};
use crate::double::{Double, DoubleView};
use crate::entities::attributes;
use crate::entities::attributes::{Clamped, Reading};
use crate::entities::model::{
    AttributeRegistryEntry,
    AttributeValueView,
    Entity,
    EntityAttributeValue,
    EntityView,
    RegistryView,
};
use crate::entities::events;
use crate::entities::events::EventView;
use crate::entities::projection;
use crate::entities::registry;
use crate::entities::registry::{AttributeResolution, ResolutionStep};
use crate::entities::repository;
use crate::error::{AppResult, ErrorView};
use crate::images::model::ImageRequest;
use crate::json::{Json, JsonView};
use crate::store::{StateRowView, Store, StoreView};
use crate::{json, prompts, rows, sorting, stamp, text};

verus! {

/// Where an entity comes from that the narrator made or changed.
pub const NARRATOR_TOOL: &'static str = "narrator_tool";

/// What the narrator is told of a value that it may not change.
pub const LOCKED: &'static str = "locked to a player-set value";

/// What the player reads while a tool works, by the tool and its arguments.
pub open spec fn label_of(tool_name: Seq<char>, args: JsonView) -> Seq<char> {
    if tool_name == prompts::ROLL_CHECK_TOOL_NAME@ {
        dice::roll_label_of(args)
    } else if tool_name == prompts::GET_ENTITIES_TOOL_NAME@ {
        "Checking who's here…"@
    } else if tool_name == prompts::CREATE_ENTITY_TOOL_NAME@ {
        "Introducing "@ + (match json::text_field(args, "name"@) {
            Some(name) => name,
            None => "someone new"@,
        }) + "…"@
    } else if tool_name == prompts::UPDATE_ENTITY_TOOL_NAME@ {
        "Updating an entity…"@
    } else if tool_name == prompts::ADJUST_ENTITY_ATTRIBUTE_TOOL_NAME@ {
        "Adjusting "@ + (match json::text_field(args, "attribute"@) {
            Some(attribute) => attribute,
            None => "an attribute"@,
        }) + "…"@
    } else if tool_name == prompts::ILLUSTRATE_SCENE_TOOL_NAME@ {
        "Sketching the scene…"@
    } else {
        "Running "@ + tool_name + "…"@
    }
}

/// The arguments of a call; nothing where they are not JSON.
pub open spec fn arguments_of(args_json: Seq<char>) -> JsonView {
    match json::parsed(args_json) {
        Some(args) => args,
        None => JsonView::Null,
    }
}

/// What the player reads while a tool works.
pub fn friendly_tool_label(tool_name: &str, args_json: &str) -> (r: String)
    ensures
        r@ == label_of(tool_name@, arguments_of(args_json@)),
{
    let args = match json::parse(args_json) {
        Some(args) => args,
        None => Json::Null,
    };
    if text::same_text(tool_name, prompts::ROLL_CHECK_TOOL_NAME) {
        dice::roll_check_label(&args)
    } else if text::same_text(tool_name, prompts::GET_ENTITIES_TOOL_NAME) {
        "Checking who's here…".to_string()
    } else if text::same_text(tool_name, prompts::CREATE_ENTITY_TOOL_NAME) {
        text::concat3(
            "Introducing ",
            match args.str_field("name") {
                Some(name) => name,
                None => "someone new",
            },
            "…",
        )
    } else if text::same_text(tool_name, prompts::UPDATE_ENTITY_TOOL_NAME) {
        "Updating an entity…".to_string()
    } else if text::same_text(tool_name, prompts::ADJUST_ENTITY_ATTRIBUTE_TOOL_NAME) {
        text::concat3(
            "Adjusting ",
            match args.str_field("attribute") {
                Some(attribute) => attribute,
                None => "an attribute",
            },
            "…",
        )
    } else if text::same_text(tool_name, prompts::ILLUSTRATE_SCENE_TOOL_NAME) {
        "Sketching the scene…".to_string()
    } else {
        text::concat3("Running ", tool_name, "…")
    }
}

/// The image that a call asks for, or what is wrong with its arguments.
pub open spec fn image_asked(args: JsonView) -> Result<(Seq<char>, Seq<Seq<char>>), Seq<char>> {
    match text::non_blank(json::text_field(args, "description"@)) {
        None => Err("description is required"@),
        Some(description) => match json::field(args, "character_ids"@) {
            None => Ok((description, Seq::empty())),
            Some(list) => match json::texts_of(list) {
                Some(ids) => Ok((description, ids)),
                None => Err(
                    if list is Array {
                        "character_ids must contain only strings"@
                    } else {
                        "character_ids must be an array"@
                    },
                ),
            },
        },
    }
}

/// The image that a call asks for.
pub fn image_request(args: &Json) -> (r: Result<ImageRequest, ToolError>)
    ensures
        match image_asked(args@) {
            Ok(asked) => r is Ok && r->Ok_0.description@ == asked.0 && r->Ok_0.character_ids.deep_view()
                == asked.1,
            Err(e) => r is Err && r->Err_0@ == ToolErrorView::InvalidArgs(e),
        },
{
    let description = match repository::described(args.str_field("description")) {
        Some(description) => description,
        None => {
            return Err(ToolError::InvalidArgs("description is required".to_string()));
        },
    };
    let character_ids = match args.get("character_ids") {
        None => {
            let none: Vec<String> = Vec::new();
            assert(none.deep_view() =~= Seq::empty());
            none
        },
        Some(list) => match list.as_texts() {
            Some(ids) => ids,
            None => {
                let wrong = match list {
                    Json::Array(_) => "character_ids must contain only strings",
                    _ => "character_ids must be an array",
                };
                return Err(ToolError::InvalidArgs(wrong.to_string()));
            },
        },
    };
    Ok(ImageRequest { description, character_ids })
}

/// What the illustrator answers.
pub open spec fn queued_answer() -> JsonView {
    JsonView::Object(seq![("queued"@, JsonView::Bool(true))])
}

/// Queues the image that a call asks for.
pub fn illustrate_scene(queue: &mut Vec<ImageRequest>, args: &Json) -> (r: Result<Json, ToolError>)
    ensures
        match image_asked(args@) {
            Ok(asked) => {
                &&& r is Ok && r->Ok_0@ == queued_answer()
                &&& final(queue)@.len() == old(queue)@.len() + 1
                &&& final(queue)@.drop_last() == old(queue)@
                &&& final(queue)@.last().description@ == asked.0
                &&& final(queue)@.last().character_ids.deep_view() == asked.1
            },
            Err(e) => {
                &&& r is Err && r->Err_0@ == ToolErrorView::InvalidArgs(e)
                &&& final(queue)@ == old(queue)@
            },
        },
{
    match image_request(args) {
        Ok(request) => {
            queue.push(request);
            assert(queue@.drop_last() =~= old(queue)@);
            let answer = Json::Object(vec![json::pair("queued", json::of_bool(true))]);
            assert(answer@->Object_0 =~= queued_answer()->Object_0);
            Ok(answer)
        },
        Err(e) => Err(e),
    }
}

/// The value of an attribute as the narrator reads it.
pub open spec fn attribute_answer() -> spec_fn(AttributeValueView) -> JsonView {
    |v: AttributeValueView|
        JsonView::Object(
            seq![
                ("max"@, json::double_value(v.max)),
                ("min"@, json::double_value(v.min)),
                ("name"@, JsonView::Str(v.canonical_name)),
                ("value"@, json::double_value(v.value)),
            ],
        )
}

/// An entity as the narrator reads it.
pub open spec fn entity_answer(store: StoreView, story_id: Seq<char>) -> spec_fn(EntityView) -> JsonView {
    |e: EntityView|
        JsonView::Object(
            seq![
                ("appearance_anchor"@, json::optional_text(e.appearance_anchor)),
                (
                    "attributes"@,
                    JsonView::Array(
                        attributes::listed_values(store, story_id, e.id).map_values(attribute_answer()),
                    ),
                ),
                ("id"@, JsonView::Str(e.id)),
                ("kind"@, JsonView::Str(e.kind)),
                ("name"@, JsonView::Str(e.name)),
            ],
        )
}

/// The condition of having a name, whatever its case, where one is asked for.
pub open spec fn named_like(name: Option<Seq<char>>) -> spec_fn(EntityView) -> bool {
    |e: EntityView| name is Some ==> text::same_ignoring_case(e.name, name->0)
}

/// The entities that a call asks for.
pub open spec fn entities_answer(store: StoreView, story_id: Seq<char>, args: JsonView) -> JsonView {
    JsonView::Object(
        seq![
            (
                "entities"@,
                JsonView::Array(
                    repository::listed_entities(store, story_id, json::text_field(args, "kind"@)).filter(
                        named_like(json::text_field(args, "name"@)),
                    ).map_values(entity_answer(store, story_id)),
                ),
            ),
        ],
    )
}

fn attribute_json(value: &EntityAttributeValue) -> (r: Json)
    ensures
        r@ == attribute_answer()(value@),
{
    let r = Json::Object(
        vec![
            json::pair("max", json::of_double(&value.max)),
            json::pair("min", json::of_double(&value.min)),
            json::pair("name", json::of_text(value.canonical_name.as_str())),
            json::pair("value", json::of_double(&value.value)),
        ],
    );
    assert(r@->Object_0 =~= attribute_answer()(value@)->Object_0);
    r
}

fn entity_json(store: &Store, story_id: &str, entity: &Entity) -> (r: Json)
    ensures
        r@ == entity_answer(store@, story_id@)(entity@),
{
    let values = attributes::list_entity_attributes_sync(store, story_id, entity.id.as_str());
    let mut snapshot: Vec<Json> = Vec::new();
    let mut i: usize = 0;
    while i < values.len()
        invariant
            0 <= i <= values@.len(),
            snapshot@.len() == i,
            forall|k: int| 0 <= k < i ==> (#[trigger] snapshot@[k])@ == attribute_answer()(values@[k]@),
        decreases values@.len() - i,
    {
        snapshot.push(attribute_json(&values[i]));
        i += 1;
    }
    let list = Json::Array(snapshot);
    assert(list@->Array_0 =~= values.deep_view().map_values(attribute_answer()));
    let r = Json::Object(
        vec![
            json::pair("appearance_anchor", json::of_option(&entity.appearance_anchor)),
            json::pair("attributes", list),
            json::pair("id", json::of_text(entity.id.as_str())),
            json::pair("kind", json::of_text(entity.kind.as_str())),
            json::pair("name", json::of_text(entity.name.as_str())),
        ],
    );
    assert(r@->Object_0 =~= entity_answer(store@, story_id@)(entity@)->Object_0);
    r
}

/// The entities of a story that are there, of a kind and with a name where those are asked
/// for, each with its attributes.
pub fn get_entities(store: &Store, story_id: &str, args: &Json) -> (r: Json)
    ensures
        r@ == entities_answer(store@, story_id@, args@),
{
    let name = args.str_field("name");
    let entities = repository::list_entities_sync(store, story_id, args.str_field("kind"));
    let ghost all = entities.deep_view();
    let ghost p = named_like(json::text_field(args@, "name"@));
    let ghost f = entity_answer(store@, story_id@);
    let mut out: Vec<Json> = Vec::new();
    let mut i: usize = 0;
    assert(out.deep_view() =~= all.take(0).filter(p).map_values(f)) by {
        reveal(Seq::filter);
    }
    while i < entities.len()
        invariant
            0 <= i <= entities@.len(),
            all == entities.deep_view(),
            name.deep_view() == json::text_field(args@, "name"@),
            p == named_like(json::text_field(args@, "name"@)),
            f == entity_answer(store@, story_id@),
            out.deep_view() == all.take(i as int).filter(p).map_values(f),
        decreases entities@.len() - i,
    {
        let entity = &entities[i];
        proof {
            assert(all[i as int] == entity@);
            rows::lemma_filter_step(all, p, i as int);
            rows::lemma_map_push(all.take(i as int).filter(p), entity@, f);
        }
        let asked_for = match name {
            Some(name) => text::eq_ignore_ascii_case(entity.name.as_str(), name),
            None => true,
        };
        if asked_for {
            let found = entity_json(store, story_id, entity);
            let ghost before = out;
            let ghost value = found;
            out.push(found);
            proof {
                rows::lemma_deep_push(before, out, value);
            }
        }
        i += 1;
    }
    proof {
        rows::lemma_take_all(all);
    }
    let list = Json::Array(out);
    assert(list@->Array_0 =~= out.deep_view());
    let r = Json::Object(vec![json::pair("entities", list)]);
    assert(r@->Object_0 =~= entities_answer(store@, story_id@, args@)->Object_0);
    r
}

/// The entity of a kind that a call would make and that is there by its name already.
pub open spec fn already_there(store: StoreView, story_id: Seq<char>, entity_kind: Seq<char>, name: Seq<char>) -> Option<
    EntityView,
> {
    rows::first_where(
        repository::listed_entities(store, story_id, Some(entity_kind)),
        named_like(Some(name)),
    )
}

/// What the narrator is told of an entity that it asked to be made.
pub open spec fn creation_answer(entity: EntityView, created: bool) -> JsonView {
    JsonView::Object(
        seq![
            ("created"@, JsonView::Bool(created)),
            ("id"@, JsonView::Str(entity.id)),
            ("kind"@, JsonView::Str(entity.kind)),
            ("name"@, JsonView::Str(entity.name)),
        ],
    )
}

pub(crate) fn creation_json(entity: &Entity, created: bool) -> (r: Json)
    ensures
        r@ == creation_answer(entity@, created),
{
    let r = Json::Object(
        vec![
            json::pair("created", json::of_bool(created)),
            json::pair("id", json::of_text(entity.id.as_str())),
            json::pair("kind", json::of_text(entity.kind.as_str())),
            json::pair("name", json::of_text(entity.name.as_str())),
        ],
    );
    assert(r@->Object_0 =~= creation_answer(entity@, created)->Object_0);
    r
}

/// Where the entity stands in a list that has a name, whatever its case.
pub fn position_named(entities: &Vec<Entity>, name: &str) -> (r: Option<usize>)
    ensures
        match r {
            Some(i) => i < entities@.len() && rows::first_where(
                entities.deep_view(),
                named_like(Some(name@)),
            ) == Some(entities@[i as int]@),
            None => rows::first_where(entities.deep_view(), named_like(Some(name@))) is None,
        },
{
    let ghost p = named_like(Some(name@));
    let meant = |row: &Entity| -> (b: bool)
        ensures
            b == p(row.deep_view()),
    {
        text::eq_ignore_ascii_case(row.name.as_str(), name)
    };
    rows::position(entities, meant, Ghost(p))
}

/// What a tool tells of the creation of an entity.
pub open spec fn creation_told(made: AppResult<Entity>, r: Result<Json, ToolError>) -> bool {
    match made {
        Ok(entity) => r is Ok && r->Ok_0@ == creation_answer(entity@, true),
        Err(e) => r is Err && r->Err_0@ == tool_error::plain_tool_error(e@),
    }
}

/// Makes an entity, unless one of its kind is there that has its name, whatever the case: then
/// it is told of that one.
pub fn create_entity(store: &mut Store, story_id: &str, target_entry_id: &str, turn_id: &str, args: &Json) -> (r: Result<
    Json,
    ToolError,
>)
    ensures
        match (dice::filled_field(args@, "kind"@), dice::filled_field(args@, "name"@)) {
            (None, _) => {
                &&& r is Err && r->Err_0@ == ToolErrorView::InvalidArgs("kind is required"@)
                &&& final(store)@ == old(store)@
            },
            (_, None) => {
                &&& r is Err && r->Err_0@ == ToolErrorView::InvalidArgs("name is required"@)
                &&& final(store)@ == old(store)@
            },
            (Some(entity_kind), Some(name)) => match already_there(
                old(store)@,
                story_id@,
                entity_kind,
                name,
            ) {
                Some(existing) => {
                    &&& r is Ok && r->Ok_0@ == creation_answer(existing, false)
                    &&& final(store)@ == old(store)@
                },
                None => exists|id: Seq<char>, made: AppResult<Entity>|
                    stamp::fresh_like(id) && #[trigger] repository::creation_outcome(
                        old(store)@,
                        final(store)@,
                        id,
                        repository::creation_draft(
                            id,
                            story_id@,
                            entity_kind,
                            name,
                            json::text_field(args@, "appearance_anchor"@),
                            NARRATOR_TOOL@,
                            Some(target_entry_id@),
                            Some(turn_id@),
                        ),
                        entity_kind,
                        name,
                        json::text_field(args@, "appearance_anchor"@),
                        made,
                    ) && creation_told(made, r),
            },
        },
{
    let entity_kind = match dice::filled(args, "kind") {
        Some(entity_kind) => entity_kind,
        None => {
            return Err(ToolError::InvalidArgs("kind is required".to_string()));
        },
    };
    let name = match dice::filled(args, "name") {
        Some(name) => name,
        None => {
            return Err(ToolError::InvalidArgs("name is required".to_string()));
        },
    };
    let present = repository::list_entities_sync(store, story_id, Some(entity_kind));
    if let Some(i) = position_named(&present, name) {
        return Ok(creation_json(&present[i], false));
    }
    let id = stamp::fresh_id();
    let made = repository::create_entity_with_id_in_turn(
        store,
        id.as_str(),
        story_id,
        entity_kind,
        name,
        args.str_field("appearance_anchor"),
        NARRATOR_TOOL,
        Some(target_entry_id),
        Some(turn_id),
    );
    let ghost result = made;
    assert(repository::creation_outcome(
        old(store)@,
        store@,
        id@,
        repository::creation_draft(
            id@,
            story_id@,
            entity_kind@,
            name@,
            json::text_field(args@, "appearance_anchor"@),
            NARRATOR_TOOL@,
            Some(target_entry_id@),
            Some(turn_id@),
        ),
        entity_kind@,
        name@,
        json::text_field(args@, "appearance_anchor"@),
        result,
    ));
    match made {
        Ok(entity) => Ok(creation_json(&entity, true)),
        Err(e) => Err(tool_error::to_tool_error(e)),
    }
}

/// Whether an entity of a story is there.
pub open spec fn is_there(store: StoreView, story_id: Seq<char>, id: Seq<char>) -> bool {
    rows::first_where(repository::listed_entities(store, story_id, None), dice::is_entity(id)) is Some
}

/// What the narrator is told of an entity that it changed.
pub open spec fn update_answer(id: Seq<char>, name: Seq<char>, appearance_anchor: Option<Seq<char>>) -> JsonView {
    JsonView::Object(
        seq![
            ("appearance_anchor"@, json::optional_text(appearance_anchor)),
            ("id"@, JsonView::Str(id)),
            ("name"@, JsonView::Str(name)),
        ],
    )
}

pub(crate) fn update_json(id: &str, name: &str, appearance_anchor: Option<&str>) -> (r: Json)
    ensures
        r@ == update_answer(id@, name@, appearance_anchor.deep_view()),
{
    let r = Json::Object(
        vec![
            json::pair("appearance_anchor", json::of_option(&text::owned_option(appearance_anchor))),
            json::pair("id", json::of_text(id)),
            json::pair("name", json::of_text(name)),
        ],
    );
    assert(r@->Object_0 =~= update_answer(id@, name@, appearance_anchor.deep_view())->Object_0);
    r
}

/// What a tool tells of the change of an entity.
pub open spec fn update_told(made: AppResult<Entity>, answer: JsonView, r: Result<Json, ToolError>) -> bool {
    match made {
        Ok(_) => r is Ok && r->Ok_0@ == answer,
        Err(e) => r is Err && r->Err_0@ == tool_error::plain_tool_error(e@),
    }
}

/// Gives an entity that is there a name and a look.
pub fn update_entity(store: &mut Store, story_id: &str, target_entry_id: &str, turn_id: &str, args: &Json) -> (r: Result<
    Json,
    ToolError,
>)
    ensures
        match (json::text_field(args@, "id"@), dice::filled_field(args@, "name"@)) {
            (None, _) => {
                &&& r is Err && r->Err_0@ == ToolErrorView::InvalidArgs("id is required"@)
                &&& final(store)@ == old(store)@
            },
            (_, None) => {
                &&& r is Err && r->Err_0@ == ToolErrorView::InvalidArgs("name is required"@)
                &&& final(store)@ == old(store)@
            },
            (Some(id), Some(name)) => if !is_there(old(store)@, story_id@, id) {
                &&& r is Err && r->Err_0@ == ToolErrorView::InvalidArgs("no such entity: "@ + id)
                &&& final(store)@ == old(store)@
            } else {
                exists|made: AppResult<Entity>|
                    #[trigger] repository::update_outcome(
                        old(store)@,
                        final(store)@,
                        story_id@,
                        id,
                        name,
                        json::text_field(args@, "appearance_anchor"@),
                        NARRATOR_TOOL@,
                        Some(target_entry_id@),
                        Some(turn_id@),
                        made,
                    ) && update_told(
                        made,
                        update_answer(id, name, json::text_field(args@, "appearance_anchor"@)),
                        r,
                    )
            },
        },
{
    let id = match args.str_field("id") {
        Some(id) => id,
        None => {
            return Err(ToolError::InvalidArgs("id is required".to_string()));
        },
    };
    let name = match dice::filled(args, "name") {
        Some(name) => name,
        None => {
            return Err(ToolError::InvalidArgs("name is required".to_string()));
        },
    };
    let appearance_anchor = args.str_field("appearance_anchor");
    let present = repository::list_entities_sync(store, story_id, None);
    if dice::listed_position(&present, id).is_none() {
        return Err(ToolError::InvalidArgs(text::concat2("no such entity: ", id)));
    }
    let made = repository::update_entity_in_turn(
        store,
        story_id,
        id,
        name,
        appearance_anchor,
        NARRATOR_TOOL,
        Some(target_entry_id),
        Some(turn_id),
    );
    let ghost result = made;
    assert(repository::update_outcome(
        old(store)@,
        store@,
        story_id@,
        id@,
        name@,
        json::text_field(args@, "appearance_anchor"@),
        NARRATOR_TOOL@,
        Some(target_entry_id@),
        Some(turn_id@),
        result,
    ));
    match made {
        Ok(_) => {
            Ok(update_json(id, name, appearance_anchor))
        },
        Err(e) => Err(tool_error::to_tool_error(e)),
    }
}

/// A change of an attribute that a call asks for.
#[derive(Debug, PartialEq)]
pub struct Adjustment {
    pub entity_id: String,
    pub attribute: String,
    pub delta: Double,
    pub dramatic: bool,
    pub reason: String,
}

/// What an `Adjustment` stands for.
#[verifier::ext_equal]
pub struct AdjustmentView {
    pub entity_id: Seq<char>,
    pub attribute: Seq<char>,
    pub delta: DoubleView,
    pub dramatic: bool,
    pub reason: Seq<char>,
}

impl View for Adjustment {
    type V = AdjustmentView;

    open spec fn view(&self) -> AdjustmentView {
        AdjustmentView {
            entity_id: self.entity_id@,
            attribute: self.attribute@,
            delta: self.delta@,
            dramatic: self.dramatic,
            reason: self.reason@,
        }
    }
}

/// The change that a call asks for, or what is wrong with its arguments.
pub open spec fn adjustment_of(args: JsonView) -> Result<AdjustmentView, Seq<char>> {
    match (
        json::text_field(args, "entity_id"@),
        dice::filled_field(args, "attribute"@),
        json::real_field(args, "delta"@),
    ) {
        (None, _, _) => Err("entity_id is required"@),
        (_, None, _) => Err("attribute is required"@),
        (_, _, None) => Err("delta is required"@),
        (Some(entity_id), Some(attribute), Some(delta)) => Ok(
            AdjustmentView {
                entity_id,
                attribute,
                delta,
                dramatic: match json::bool_field(args, "dramatic"@) {
                    Some(dramatic) => dramatic,
                    None => false,
                },
                reason: match json::text_field(args, "reason"@) {
                    Some(reason) => reason,
                    None => "narration"@,
                },
            },
        ),
    }
}

/// The change that a call asks for.
pub fn adjustment(args: &Json) -> (r: Result<Adjustment, ToolError>)
    ensures
        match adjustment_of(args@) {
            Ok(asked) => r is Ok && r->Ok_0@ == asked,
            Err(e) => r is Err && r->Err_0@ == ToolErrorView::InvalidArgs(e),
        },
{
    let entity_id = match args.str_field("entity_id") {
        Some(id) => id.to_string(),
        None => {
            return Err(ToolError::InvalidArgs("entity_id is required".to_string()));
        },
    };
    let attribute = match dice::filled(args, "attribute") {
        Some(attribute) => attribute.to_string(),
        None => {
            return Err(ToolError::InvalidArgs("attribute is required".to_string()));
        },
    };
    let delta = match args.double_field("delta") {
        Some(delta) => delta,
        None => {
            return Err(ToolError::InvalidArgs("delta is required".to_string()));
        },
    };
    let dramatic = match args.bool_field("dramatic") {
        Some(dramatic) => dramatic,
        None => false,
    };
    let reason = match args.str_field("reason") {
        Some(reason) => reason.to_string(),
        None => "narration".to_string(),
    };
    Ok(Adjustment { entity_id, attribute, delta, dramatic, reason })
}

/// The entity whose attribute is to be changed.
pub open spec fn adjusted_entity(store: StoreView, story_id: Seq<char>, entity_id: Seq<char>) -> Option<EntityView> {
    rows::first_where(repository::listed_entities(store, story_id, None), dice::is_entity(entity_id))
}

/// What a tool tells of how far an attribute was told by its name.
pub open spec fn step_told(entity: EntityView, step: AppResult<ResolutionStep>, r: Result<(Entity, ResolutionStep), ToolError>) -> bool {
    match step {
        Ok(step) => r is Ok && r->Ok_0.0@ == entity && r->Ok_0.1 == step,
        Err(e) => r is Err && r->Err_0@ == tool_error::plain_tool_error(e@),
    }
}

/// The entity whose attribute is to be changed, and how far the attribute is told by its
/// name.
pub fn begin_adjustment(store: &Store, story_id: &str, asked: &Adjustment) -> (r: Result<
    (Entity, ResolutionStep),
    ToolError,
>)
    ensures
        match adjusted_entity(store@, story_id@, asked@.entity_id) {
            None => r is Err && r->Err_0@ == ToolErrorView::InvalidArgs(
                "no such entity: "@ + asked@.entity_id,
            ),
            Some(entity) => exists|step: AppResult<ResolutionStep>|
                #[trigger] registry::named_step(
                    store@.registry,
                    asked@.attribute,
                    entity.kind,
                    story_id@,
                    step,
                ) && step_told(entity, step, r),
        },
{
    let present = repository::list_entities_sync(store, story_id, None);
    let entity = match dice::listed_position(&present, asked.entity_id.as_str()) {
        Some(i) => present[i].copy(),
        None => {
            return Err(
                ToolError::InvalidArgs(text::concat2("no such entity: ", asked.entity_id.as_str())),
            );
        },
    };
    let step = registry::resolve_by_name(
        store,
        asked.attribute.as_str(),
        entity.kind.as_str(),
        story_id,
    );
    let ghost found = step;
    assert(registry::named_step(store@.registry, asked@.attribute, entity@.kind, story_id@, found));
    match step {
        Ok(step) => Ok((entity, step)),
        Err(e) => Err(tool_error::to_tool_error(e)),
    }
}

/// The tables after an attribute was taken as it was resolved, and the attribute, or why it
/// could not be taken. An attribute that is known by the name goes before the resolution.
pub open spec fn adopted(store: StoreView, name: Seq<char>, resolution: AttributeResolution) -> (
    StoreView,
    Result<RegistryView, ErrorView>,
) {
    match registry::exact_match(store.registry, name) {
        Some(known) => (store, Ok(known)),
        None => match resolution {
            AttributeResolution::Existing(attribute) => (store, Ok(attribute@)),
            AttributeResolution::AddAlias { attribute, alias } => match rows::first_where(
                store.registry,
                registry::attribute_id_is(attribute@.id),
            ) {
                Some(row) => (
                    StoreView {
                        registry: rows::upserted(
                            store.registry,
                            registry::attribute_id_is(attribute@.id),
                            registry::aliased(row, alias@),
                        ),
                        ..store
                    },
                    Ok(attribute@),
                ),
                None => (store, Err(ErrorView::Db("Query returned no rows"@))),
            },
            AttributeResolution::Mint(attribute) => {
                let after = StoreView {
                    registry: registry::offered(store.registry, attribute@),
                    ..store
                };
                match registry::exact_match(after.registry, attribute@.canonical_name) {
                    Some(known) => (
                        after,
                        match rows::first_where(after.registry, registry::attribute_id_is(known.id)) {
                            Some(row) => Ok(row),
                            None => Err(ErrorView::Db("Query returned no rows"@)),
                        },
                    ),
                    None => (
                        after,
                        Err(
                            ErrorView::Other(
                                "minted attribute was not found after insert: "@
                                    + attribute@.canonical_name,
                            ),
                        ),
                    ),
                }
            },
        },
    }
}

/// Takes an attribute as it was resolved.
pub fn adopt(store: &mut Store, name: &str, resolution: AttributeResolution) -> (r: AppResult<AttributeRegistryEntry>)
    ensures
        final(store)@ == adopted(old(store)@, name@, resolution).0,
        match adopted(old(store)@, name@, resolution).1 {
            Ok(attribute) => r is Ok && r->Ok_0@ == attribute,
            Err(e) => r is Err && r->Err_0@ == e,
        },
{
    if let Some(exact) = registry::find_exact_match(store, name) {
        return Ok(exact);
    }
    match resolution {
        AttributeResolution::Existing(attribute) => Ok(attribute),
        AttributeResolution::AddAlias { attribute, alias } => match registry::add_alias(
            store,
            attribute.id.as_str(),
            alias.as_str(),
        ) {
            Ok(_) => Ok(attribute),
            Err(e) => Err(e),
        },
        AttributeResolution::Mint(attribute) => match registry::insert_minted_attribute(
            store,
            &attribute,
        ) {
            Ok(id) => registry::find_attribute_by_id(store, id.as_str()),
            Err(e) => Err(e),
        },
    }
}

/// What the narrator is told of a change that was made.
pub open spec fn applied_answer(before: DoubleView, after: DoubleView) -> JsonView {
    JsonView::Object(
        seq![
            ("after"@, json::double_value(after)),
            ("applied"@, JsonView::Bool(true)),
            ("before"@, json::double_value(before)),
        ],
    )
}

/// What the narrator is told of a change that the player does not let it make.
pub open spec fn locked_answer(before: DoubleView) -> JsonView {
    JsonView::Object(
        seq![
            ("after"@, json::double_value(before)),
            ("applied"@, JsonView::Bool(false)),
            ("before"@, json::double_value(before)),
            ("reason"@, JsonView::Str(LOCKED@)),
        ],
    )
}

pub(crate) fn applied_json(before: &Double, after: &Double) -> (r: Json)
    ensures
        r@ == applied_answer(before@, after@),
{
    let r = Json::Object(
        vec![
            json::pair("after", json::of_double(after)),
            json::pair("applied", json::of_bool(true)),
            json::pair("before", json::of_double(before)),
        ],
    );
    assert(r@->Object_0 =~= applied_answer(before@, after@)->Object_0);
    r
}

pub(crate) fn locked_json(before: &Double) -> (r: Json)
    ensures
        r@ == locked_answer(before@),
{
    let r = Json::Object(
        vec![
            json::pair("after", json::of_double(before)),
            json::pair("applied", json::of_bool(false)),
            json::pair("before", json::of_double(before)),
            json::pair("reason", json::of_text(LOCKED)),
        ],
    );
    assert(r@->Object_0 =~= locked_answer(before@)->Object_0);
    r
}

/// What a tool tells of a change.
pub open spec fn change_told(made: AppResult<(Double, Double)>, r: Result<Json, ToolError>) -> bool {
    match made {
        Ok(values) => r is Ok && r->Ok_0@ == applied_answer(values.0@, values.1@),
        Err(e) => r is Err && r->Err_0@ == tool_error::plain_tool_error(e@),
    }
}

/// Changes an attribute that was resolved. The arithmetic is `clamp`'s. A value that the
/// player set stays as it is.
pub fn finish_adjustment<F: Fn(Reading) -> Clamped>(
    store: &mut Store,
    story_id: &str,
    entity: &Entity,
    asked: &Adjustment,
    resolution: AttributeResolution,
    target_entry_id: &str,
    turn_id: &str,
    clamp: &F,
) -> (r: Result<Json, ToolError>)
    requires
        forall|reading: Reading| call_requires(clamp, (reading,)),
    ensures
        ({
            let (taken, outcome) = adopted(old(store)@, asked@.attribute, resolution);
            match outcome {
                Err(e) => {
                    &&& r is Err && r->Err_0@ == tool_error::plain_tool_error(e)
                    &&& final(store)@ == taken
                },
                Ok(attribute) => if attributes::locked(taken, story_id@, entity@.id, attribute.id) {
                    &&& r is Ok && r->Ok_0@ == locked_answer(
                        attributes::stored_value(taken, story_id@, entity@.id, attribute.id)->0.value,
                    )
                    &&& final(store)@ == taken
                } else {
                    exists|reading: Reading, clamped: Clamped, made: AppResult<(Double, Double)>|
                        #[trigger] call_ensures(clamp, (reading,), clamped) && reading@
                            == attributes::reading_for(
                            taken,
                            story_id@,
                            entity@.id,
                            attribute,
                            asked@.delta,
                            asked@.dramatic,
                        ) && #[trigger] attributes::delta_outcome(
                            taken,
                            final(store)@,
                            story_id@,
                            entity@.id,
                            attribute,
                            reading@,
                            clamped@,
                            asked@.reason,
                            target_entry_id@,
                            Some(turn_id@),
                            made,
                        ) && change_told(made, r)
                },
            }
        }),
{
    let attribute = match adopt(store, asked.attribute.as_str(), resolution) {
        Ok(attribute) => attribute,
        Err(e) => {
            return Err(tool_error::to_tool_error(e));
        },
    };
    let ghost taken = store@;
    let (before, source) = attributes::peek_entity_attribute(
        store,
        story_id,
        entity.id.as_str(),
        &attribute,
        &attribute.min,
    );
    let from_player = match &source {
        Some(source) => text::same_text(source.as_str(), attributes::USER),
        None => false,
    };
    if from_player {
        return Ok(locked_json(&before));
    }
    let made = attributes::apply_attribute_delta(
        store,
        story_id,
        entity.id.as_str(),
        &attribute,
        &asked.delta,
        asked.reason.as_str(),
        target_entry_id,
        asked.dramatic,
        Some(turn_id),
        clamp,
    );
    let ghost result = made;
    proof {
        assert(Some(turn_id).deep_view() == Some(turn_id@));
        let (reading, clamped) = choose|reading: Reading, clamped: Clamped|
            #[trigger] call_ensures(clamp, (reading,), clamped) && reading@ == attributes::reading_for(
                taken,
                story_id@,
                entity@.id,
                attribute@,
                asked@.delta,
                asked@.dramatic,
            ) && attributes::delta_outcome(
                taken,
                store@,
                story_id@,
                entity@.id,
                attribute@,
                reading@,
                clamped@,
                asked@.reason,
                target_entry_id@,
                Some(turn_id@),
                result,
            );
        assert(call_ensures(clamp, (reading,), clamped));
        assert(attributes::delta_outcome(
            taken,
            store@,
            story_id@,
            entity@.id,
            attribute@,
            reading@,
            clamped@,
            asked@.reason,
            target_entry_id@,
            Some(turn_id@),
            result,
        ));
    }
    match made {
        Ok((before, after)) => {
            let answer = applied_json(&before, &after);
            let r: Result<Json, ToolError> = Ok(answer);
            assert(change_told(result, r));
            r
        },
        Err(e) => {
            let r: Result<Json, ToolError> = Err(tool_error::to_tool_error(e));
            assert(change_told(result, r));
            r
        },
    }
}

proof fn lemma_listed(store: StoreView, story_id: Seq<char>, entity_kind: Seq<char>, i: int)
    requires
        0 <= i < store.entities.len(),
        repository::listed(store, story_id, Some(entity_kind))(store.entities[i]),
    ensures
        repository::listed_entities(store, story_id, Some(entity_kind)).contains(
            repository::with_state(store, story_id)(store.entities[i]),
        ),
{
    broadcast use vstd::seq_lib::group_to_multiset_ensures;

    let p = repository::listed(store, story_id, Some(entity_kind));
    let f = repository::with_state(store, story_id);
    let kept = store.entities.filter(p);
    assert(store.entities.contains(store.entities[i]));
    rows::lemma_filter_member(store.entities, p, store.entities[i]);
    let k = choose|k: int| 0 <= k < kept.len() && kept[k] == store.entities[i];
    let mapped = kept.map_values(f);
    assert(mapped[k] == f(store.entities[i]));
    assert(mapped.contains(f(store.entities[i])));
    let key = sorting::key_fn::<Entity>();
    sorting::law_ordered(mapped, key);
    assert(mapped.to_multiset().count(f(store.entities[i])) > 0);
    assert(sorting::ordered(mapped, key).to_multiset().count(f(store.entities[i])) > 0);
}

/// An entity that was made is there by its name from then on, so that asking for it once more
/// makes no second one. A name with whitespace around it is not among those: the entity is
/// kept without it.
pub proof fn law_created_entity_is_there(
    before: StoreView,
    after: StoreView,
    id: Seq<char>,
    story_id: Seq<char>,
    entity_kind: Seq<char>,
    name: Seq<char>,
    appearance_anchor: Option<Seq<char>>,
    source: Seq<char>,
    target_entry_id: Option<Seq<char>>,
    turn_id: Option<Seq<char>>,
)
    requires
        text::trimmed(name) == name,
        !rows::any_where(before.entities, projection::entity_id_is(id)),
        projection::record_step(
            before,
            after,
            repository::creation_draft(
                id,
                story_id,
                entity_kind,
                name,
                appearance_anchor,
                source,
                target_entry_id,
                turn_id,
            ),
        ),
    ensures
        already_there(after, story_id, entity_kind, name) is Some,
{
    let draft = repository::creation_draft(
        id,
        story_id,
        entity_kind,
        name,
        appearance_anchor,
        source,
        target_entry_id,
        turn_id,
    );
    let entry = after.entries.last();
    let event = EventView::Created {
        entity_id: id,
        kind: entity_kind,
        name: text::trimmed(name),
        appearance_anchor: text::non_blank(appearance_anchor),
        source,
        created_at: Seq::empty(),
    };
    events::law_written_event_reads_back(event, entry);
    let now = choose|now: Seq<char>|
        #[trigger] projection::recorded(before, draft.story_id, now, entry) == (after, None::<ErrorView>);
    let at = before.entities.len() as int;
    let state = StateRowView {
        story_id,
        entity_id: id,
        name: text::trimmed(name),
        appearance_anchor: text::non_blank(appearance_anchor),
        is_present: true,
        updated_at: now,
        last_event_id: Some(entry.id),
    };
    let p = projection::state_of(story_id, id);
    let q = attributes::present_as(story_id, id);
    rows::lemma_first_where_upserted(before.states, p, state);
    let i = rows::lemma_first_where(after.states, p);
    assert forall|k: int| 0 <= k < i implies !q(#[trigger] after.states[k]) by {
        assert(!p(after.states[k]));
    }
    rows::lemma_first_where_hit(after.states, q, i);
    lemma_listed(after, story_id, entity_kind, at);
    let made = repository::with_state(after, story_id)(after.entities[at]);
    assert(made.name == name);
    let present = repository::listed_entities(after, story_id, Some(entity_kind));
    let k = choose|k: int| 0 <= k < present.len() && present[k] == made;
    assert(named_like(Some(name))(present[k]));
    let found = rows::lemma_first_where(present, named_like(Some(name)));
}

} // verus!
