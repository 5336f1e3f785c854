//! The tools of a narrator that rolls by the dice mode of its story, and what is remembered of
//! its looking around.

use vstd::prelude::*;

use crate::dicerolls::model::DiceMode;
use crate::entities::model::{AttributeRegistryEntry, Entity, EntityView};
use crate::entities::registry;
use crate::entities::registry::AttributeResolution;
use crate::entities::repository as entities;
use crate::error::{AppResult, ErrorView};
use crate::json;
use crate::json::{Json, JsonView};
use crate::ledger::kind;
use crate::ledger::model::HIDDEN;
use crate::ledger::repository as ledger;
use crate::ledger::repository::{Draft, DraftView};
use crate::narrator::commit;
use crate::narrator::tools;
use crate::prompts;
use crate::store::{Store, StoreView};
use crate::{rows, text};

verus! {

/// The names of the tools that a narrator has.
pub open spec fn tool_names(dice_mode: DiceMode) -> Seq<Seq<char>> {
    let world = seq![
        prompts::GET_ENTITIES_TOOL_NAME@,
        prompts::CREATE_ENTITY_TOOL_NAME@,
        prompts::UPDATE_ENTITY_TOOL_NAME@,
        prompts::ADJUST_ENTITY_ATTRIBUTE_TOOL_NAME@,
    ];
    if dice_mode == DiceMode::Never {
        world
    } else {
        seq![prompts::ROLL_CHECK_TOOL_NAME@] + world
    }
}

/// The names of the tools that a narrator has: it rolls unless the story is never rolled for.
pub fn narrator_portable_tools(dice_mode: DiceMode) -> (r: Vec<&'static str>)
    ensures
        r.deep_view() == tool_names(dice_mode),
{
    let r: Vec<&'static str> = match dice_mode {
        DiceMode::Never => vec![
            prompts::GET_ENTITIES_TOOL_NAME,
            prompts::CREATE_ENTITY_TOOL_NAME,
            prompts::UPDATE_ENTITY_TOOL_NAME,
            prompts::ADJUST_ENTITY_ATTRIBUTE_TOOL_NAME,
        ],
        _ => vec![
            prompts::ROLL_CHECK_TOOL_NAME,
            prompts::GET_ENTITIES_TOOL_NAME,
            prompts::CREATE_ENTITY_TOOL_NAME,
            prompts::UPDATE_ENTITY_TOOL_NAME,
            prompts::ADJUST_ENTITY_ATTRIBUTE_TOOL_NAME,
        ],
    };
    assert(r.deep_view() =~= tool_names(dice_mode));
    r
}

/// The condition of being among some entities.
pub open spec fn among(ids: Seq<Seq<char>>) -> spec_fn(EntityView) -> bool {
    |entity: EntityView| ids.contains(entity.id)
}

/// The name of an entity.
pub open spec fn name_of() -> spec_fn(EntityView) -> Seq<char> {
    |entity: EntityView| entity.name
}

/// What is remembered of the narrator looking for entities.
pub open spec fn query_words(store: StoreView, story_id: Seq<char>, ids: Seq<Seq<char>>) -> Seq<char> {
    let names = entities::listed_entities(store, story_id, None).filter(among(ids)).map_values(name_of());
    if names.len() == 0 {
        "Looked up: no matching entities"@
    } else {
        "Looked up: "@ + text::joined(names, ", "@)
    }
}

/// The tree of a list of texts.
pub open spec fn texts_value(list: Seq<Seq<char>>) -> JsonView {
    JsonView::Array(list.map_values(|s: Seq<char>| JsonView::Str(s)))
}

/// What the narrator looking for entities is put down as.
pub open spec fn query_draft(
    store: StoreView,
    story_id: Seq<char>,
    ids: Seq<Seq<char>>,
    kind_filter: Option<Seq<char>>,
    name_filter: Option<Seq<char>>,
    passage_id: Seq<char>,
) -> DraftView {
    DraftView {
        story_id,
        kind: kind::ENTITY_QUERIED@,
        visibility: HIDDEN@,
        content: Some(query_words(store, story_id, ids)),
        payload: JsonView::Object(
            seq![
                ("entity_ids"@, texts_value(ids)),
                ("kind_filter"@, json::optional_text(kind_filter)),
                ("name_filter"@, json::optional_text(name_filter)),
            ],
        ),
        target_entry_id: Some(passage_id),
        turn_id: None,
    }
}

fn texts_tree(list: &Vec<String>) -> (r: Json)
    ensures
        r@ == texts_value(list.deep_view()),
{
    let ghost all = list.deep_view();
    let ghost f = |s: Seq<char>| JsonView::Str(s);
    let mut items: Vec<Json> = Vec::new();
    let mut i: usize = 0;
    while i < list.len()
        invariant
            0 <= i <= list@.len(),
            items@.len() == i,
            forall|k: int| 0 <= k < i ==> (#[trigger] items@[k])@ == JsonView::Str(list@[k]@),
        decreases list@.len() - i,
    {
        items.push(json::of_text(list[i].as_str()));
        i += 1;
    }
    let tree = Json::Array(items);
    assert(tree@->Array_0 =~= all.map_values(f));
    tree
}

fn words_of_query(store: &Store, story_id: &str, ids: &Vec<String>) -> (r: String)
    ensures
        r@ == query_words(store@, story_id@, ids.deep_view()),
{
    let known = entities::list_entities_sync(store, story_id, None);
    let ghost p = among(ids.deep_view());
    let ghost f = name_of();
    let keep = |entity: &Entity| -> (b: bool)
        ensures
            b == p(entity@),
    {
        text::list_contains(ids, entity.id.as_str())
    };
    let read = |entity: &Entity| -> (name: String)
        ensures
            name@ == f(entity@),
    {
        entity.name.clone()
    };
    let names = rows::read_rows(&known, keep, read, Ghost(p), Ghost(f));
    if names.len() == 0 {
        "Looked up: no matching entities".to_string()
    } else {
        let list = text::join(&names, ", ");
        text::concat2("Looked up: ", list.as_str())
    }
}

/// Remembers that the narrator looked for entities while it told a passage.
pub fn record_query(
    store: &mut Store,
    story_id: &str,
    entity_ids: &Vec<String>,
    kind_filter: &Option<String>,
    name_filter: &Option<String>,
    passage_id: &str,
) -> (r: AppResult<()>)
    ensures
        commit::append_result(
            old(store)@,
            final(store)@,
            query_draft(
                old(store)@,
                story_id@,
                entity_ids.deep_view(),
                kind_filter.deep_view(),
                name_filter.deep_view(),
                passage_id@,
            ),
            commit::failure_of(r),
        ),
{
    let content = words_of_query(store, story_id, entity_ids);
    let payload = Json::Object(
        vec![
            json::pair("entity_ids", texts_tree(entity_ids)),
            json::pair("kind_filter", json::of_option(kind_filter)),
            json::pair("name_filter", json::of_option(name_filter)),
        ],
    );
    let draft = Draft {
        story_id,
        kind: kind::ENTITY_QUERIED,
        visibility: HIDDEN,
        content: Some(content.as_str()),
        payload: &payload,
        target_entry_id: Some(passage_id),
        turn_id: None,
    };
    proof {
        let expected = query_draft(
            store@,
            story_id@,
            entity_ids.deep_view(),
            kind_filter.deep_view(),
            name_filter.deep_view(),
            passage_id@,
        );
        assert(payload@->Object_0 =~= expected.payload->Object_0);
        assert(draft@ == expected);
    }
    match ledger::append_draft(store, &draft) {
        Ok(_) => Ok(()),
        Err(e) => Err(e),
    }
}

/// Whether an attribute was settled as its name resolved.
pub open spec fn attribute_settled(
    before: StoreView,
    after: StoreView,
    resolution: AttributeResolution,
    r: AppResult<AttributeRegistryEntry>,
) -> bool {
    match resolution {
        AttributeResolution::Existing(attribute) => after == before && r is Ok && r->Ok_0@ == attribute@,
        AttributeResolution::AddAlias { attribute, alias } => match rows::first_where(
            before.registry,
            registry::attribute_id_is(attribute@.id),
        ) {
            Some(row) => r is Ok && r->Ok_0@ == attribute@ && after == (StoreView {
                registry: rows::upserted(
                    before.registry,
                    registry::attribute_id_is(attribute@.id),
                    registry::aliased(row, alias@),
                ),
                ..before
            }),
            None => after == before && r is Err && r->Err_0@ == ErrorView::Db("Query returned no rows"@),
        },
        AttributeResolution::Mint(attribute) => {
            let offered = registry::offered(before.registry, attribute@);
            &&& after == (StoreView { registry: offered, ..before })
            &&& match registry::exact_match(offered, attribute@.canonical_name) {
                Some(known) => match rows::first_where(offered, registry::attribute_id_is(known.id)) {
                    Some(row) => r is Ok && r->Ok_0@ == row,
                    None => r is Err && r->Err_0@ == ErrorView::Db("Query returned no rows"@),
                },
                None => r is Err && r->Err_0@ == ErrorView::Other(
                    "minted attribute was not found after insert: "@ + attribute@.canonical_name,
                ),
            }
        },
    }
}

/// Settles at once which attribute a name stands for.
pub fn settle_attribute(store: &mut Store, resolution: AttributeResolution) -> (r: AppResult<AttributeRegistryEntry>)
    ensures
        attribute_settled(old(store)@, final(store)@, resolution, r),
{
    match resolution {
        AttributeResolution::Existing(attribute) => Ok(attribute),
        AttributeResolution::AddAlias { attribute, alias } => match registry::add_alias(
            store,
            attribute.id.as_str(),
            alias.as_str(),
        ) {
            Ok(_) => Ok(attribute),
            Err(e) => Err(e),
        },
        AttributeResolution::Mint(attribute) => match registry::insert_minted_attribute(store, &attribute) {
            Ok(id) => registry::find_attribute_by_id(store, id.as_str()),
            Err(e) => Err(e),
        },
    }
}

/// What the player reads while a tool works.
pub open spec fn label_of(tool_name: Seq<char>, args: JsonView) -> Seq<char> {
    if tool_name == prompts::ROLL_CHECK_TOOL_NAME@ {
        "Rolling for "@ + (match json::text_field(args, "attribute"@) {
            Some(attribute) => attribute,
            None => "a check"@,
        }) + "…"@
    } else {
        tools::label_of(tool_name, args)
    }
}

/// What the player reads while a tool works: a check is rolled for an attribute.
pub fn friendly_tool_label(tool_name: &str, args_json: &str) -> (r: String)
    ensures
        r@ == label_of(tool_name@, tools::arguments_of(args_json@)),
{
    if !text::same_text(tool_name, prompts::ROLL_CHECK_TOOL_NAME) {
        return tools::friendly_tool_label(tool_name, args_json);
    }
    let args = match json::parse(args_json) {
        Some(args) => args,
        None => Json::Null,
    };
    text::concat3(
        "Rolling for ",
        match args.str_field("attribute") {
            Some(attribute) => attribute,
            None => "a check",
        },
        "…",
    )
}

} // verus!
