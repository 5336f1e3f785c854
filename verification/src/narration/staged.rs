//! The tools of a narrator whose changes wait for the passage: they read the world as it is for
//! the rest of the turn, and note what they change of it.

use vstd::prelude::*;

use super::tools as eager;
use crate::double;
use crate::double::{Double, DoubleView};
use crate::entities::attributes;
use crate::entities::attributes::{Clamped, Reading};
use crate::entities::model::{AttributeRegistryEntry, Entity, EntityView, RegistryView};
use crate::entities::registry;
use crate::entities::registry::{AttributeResolution, ResolutionStep};
use crate::error::AppResult;
use crate::json;
use crate::json::{Json, JsonView};
use crate::narrator::dice;
use crate::narrator::staging;
use crate::narrator::staging::{OpView, StagingView, TurnStaging};
use crate::narrator::tool_error;
use crate::narrator::tool_error::{ToolError, ToolErrorView};
use crate::narrator::tools;
use crate::narrator::tools::{Adjustment, AdjustmentView};
use crate::store::{Store, StoreView};
use crate::{rows, text};

verus! {

/// The kind of the player's own character.
pub const PLAYER_KIND: &'static str = "character";

/// The name of the player's own character.
pub const PLAYER_NAME: &'static str = "You";

/// A check that the narrator asks for.
#[derive(Debug, PartialEq)]
pub struct CheckRequest {
    pub attribute: String,
    pub target_entity_id: Option<String>,
    pub target_attribute: Option<String>,
    pub modifier: Double,
}

/// What a `CheckRequest` stands for.
#[verifier::ext_equal]
pub struct CheckRequestView {
    pub attribute: Seq<char>,
    pub target_entity_id: Option<Seq<char>>,
    pub target_attribute: Option<Seq<char>>,
    pub modifier: DoubleView,
}

impl View for CheckRequest {
    type V = CheckRequestView;

    open spec fn view(&self) -> CheckRequestView {
        CheckRequestView {
            attribute: self.attribute@,
            target_entity_id: self.target_entity_id.deep_view(),
            target_attribute: self.target_attribute.deep_view(),
            modifier: self.modifier@,
        }
    }
}

/// A value with the scale that it is on.
#[derive(Debug, PartialEq)]
pub struct Scaled {
    pub value: Double,
    pub min: Double,
    pub max: Double,
}

/// What a `Scaled` stands for.
#[verifier::ext_equal]
pub struct ScaledView {
    pub value: DoubleView,
    pub min: DoubleView,
    pub max: DoubleView,
}

impl View for Scaled {
    type V = ScaledView;

    open spec fn view(&self) -> ScaledView {
        ScaledView { value: self.value@, min: self.min@, max: self.max@ }
    }
}

impl DeepView for Scaled {
    type V = ScaledView;

    open spec fn deep_view(&self) -> ScaledView {
        self@
    }
}

/// What a check is rolled from.
#[derive(Debug, PartialEq)]
pub struct CheckInput {
    pub actor: Scaled,
    pub target: Option<Scaled>,
    pub modifier: Double,
}

/// What a `CheckInput` stands for.
#[verifier::ext_equal]
pub struct CheckInputView {
    pub actor: ScaledView,
    pub target: Option<ScaledView>,
    pub modifier: DoubleView,
}

impl View for CheckInput {
    type V = CheckInputView;

    open spec fn view(&self) -> CheckInputView {
        CheckInputView { actor: self.actor@, target: self.target.deep_view(), modifier: self.modifier@ }
    }
}

/// How a check came out.
#[derive(Debug, PartialEq)]
pub struct CheckOutput {
    pub p_success: Double,
    pub seed: i64,
    pub roll: i64,
    pub needed: i64,
    pub outcome: String,
    pub degree: String,
}

/// What a `CheckOutput` stands for.
#[verifier::ext_equal]
pub struct CheckOutputView {
    pub p_success: DoubleView,
    pub seed: i64,
    pub roll: i64,
    pub needed: i64,
    pub outcome: Seq<char>,
    pub degree: Seq<char>,
}

impl View for CheckOutput {
    type V = CheckOutputView;

    open spec fn view(&self) -> CheckOutputView {
        CheckOutputView {
            p_success: self.p_success@,
            seed: self.seed,
            roll: self.roll,
            needed: self.needed,
            outcome: self.outcome@,
            degree: self.degree@,
        }
    }
}

/// A check that waits for the passage.
#[derive(Debug, PartialEq)]
pub struct PendingCheck {
    pub actor_entity_id: String,
    pub target_entity_id: Option<String>,
    pub actor_attribute_id: Option<String>,
    pub target_attribute_id: Option<String>,
    pub actor_value: Double,
    pub target_value: Option<Double>,
    pub modifier: Double,
    pub output: CheckOutput,
}

/// What a `PendingCheck` stands for.
#[verifier::ext_equal]
pub struct PendingCheckView {
    pub actor_entity_id: Seq<char>,
    pub target_entity_id: Option<Seq<char>>,
    pub actor_attribute_id: Option<Seq<char>>,
    pub target_attribute_id: Option<Seq<char>>,
    pub actor_value: DoubleView,
    pub target_value: Option<DoubleView>,
    pub modifier: DoubleView,
    pub output: CheckOutputView,
}

impl View for PendingCheck {
    type V = PendingCheckView;

    open spec fn view(&self) -> PendingCheckView {
        PendingCheckView {
            actor_entity_id: self.actor_entity_id@,
            target_entity_id: self.target_entity_id.deep_view(),
            actor_attribute_id: self.actor_attribute_id.deep_view(),
            target_attribute_id: self.target_attribute_id.deep_view(),
            actor_value: self.actor_value@,
            target_value: self.target_value.deep_view(),
            modifier: self.modifier@,
            output: self.output@,
        }
    }
}

/// What is to be told of a turn beside what it changes.
#[derive(Debug, PartialEq)]
pub enum Note {
    Check(PendingCheck),
    Query { entity_ids: Vec<String>, kind_filter: Option<String>, name_filter: Option<String> },
}

/// What a `Note` stands for.
#[verifier::ext_equal]
pub enum NoteView {
    Check(PendingCheckView),
    Query {
        entity_ids: Seq<Seq<char>>,
        kind_filter: Option<Seq<char>>,
        name_filter: Option<Seq<char>>,
    },
}

impl View for Note {
    type V = NoteView;

    open spec fn view(&self) -> NoteView {
        match *self {
            Note::Check(check) => NoteView::Check(check@),
            Note::Query { entity_ids, kind_filter, name_filter } => NoteView::Query {
                entity_ids: entity_ids.deep_view(),
                kind_filter: kind_filter.deep_view(),
                name_filter: name_filter.deep_view(),
            },
        }
    }
}

impl DeepView for Note {
    type V = NoteView;

    open spec fn deep_view(&self) -> NoteView {
        self@
    }
}

/// A note, and how many changes of its turn waited when it was taken.
#[derive(Debug, PartialEq)]
pub struct Noted {
    pub changes: usize,
    pub note: Note,
}

/// What a `Noted` stands for.
#[verifier::ext_equal]
pub struct NotedView {
    pub changes: nat,
    pub note: NoteView,
}

impl View for Noted {
    type V = NotedView;

    open spec fn view(&self) -> NotedView {
        NotedView { changes: self.changes as nat, note: self.note@ }
    }
}

impl DeepView for Noted {
    type V = NotedView;

    open spec fn deep_view(&self) -> NotedView {
        self@
    }
}

fn push_note(turn: &TurnStaging, notes: &mut Vec<Noted>, note: Note)
    ensures
        final(notes).deep_view() == old(notes).deep_view().push(
            (NotedView { changes: turn@.pending.len(), note: note@ }),
        ),
{
    let ghost before = *notes;
    let noted = Noted { changes: turn.pending.len(), note };
    let ghost value = noted;
    notes.push(noted);
    proof {
        rows::lemma_deep_push(before, *notes, value);
    }
}

/// The entity with an identifier that is there for the rest of the turn.
pub open spec fn effective_entity(store: StoreView, turn: StagingView, id: Seq<char>) -> Option<EntityView> {
    rows::first_where(
        staging::staged_list(store, turn.story_id, turn.pending, None, Seq::empty()),
        dice::is_entity(id),
    )
}

/// What the narrator is told of an entity whose attributes are given.
pub open spec fn entity_with(e: EntityView, values: Seq<JsonView>) -> JsonView {
    JsonView::Object(
        seq![
            ("appearance_anchor"@, json::optional_text(e.appearance_anchor)),
            ("attributes"@, JsonView::Array(values)),
            ("id"@, JsonView::Str(e.id)),
            ("kind"@, JsonView::Str(e.kind)),
            ("name"@, JsonView::Str(e.name)),
        ],
    )
}

/// Whether an entity is told as it is for the rest of the turn.
pub open spec fn tells_entity<F: Fn(Reading) -> Clamped>(
    clamp: &F,
    store: StoreView,
    turn: StagingView,
    e: EntityView,
    told: JsonView,
) -> bool {
    exists|values: Seq<JsonView>|
        #[trigger] staging::snapshot_of(clamp, store, turn, e.id, values) && told == entity_with(e, values)
}

/// Whether an answer tells of entities, each as it is for the rest of the turn.
pub open spec fn tells_entities<F: Fn(Reading) -> Clamped>(
    clamp: &F,
    store: StoreView,
    turn: StagingView,
    list: Seq<EntityView>,
    told: JsonView,
) -> bool {
    &&& told matches JsonView::Object(fields)
    &&& fields.len() == 1
    &&& fields[0].0 == "entities"@
    &&& fields[0].1 matches JsonView::Array(items)
    &&& items.len() == list.len()
    &&& forall|k: int| 0 <= k < list.len() ==> tells_entity(clamp, store, turn, list[k], #[trigger] items[k])
}

/// The identifier of an entity.
pub open spec fn id_of() -> spec_fn(EntityView) -> Seq<char> {
    |e: EntityView| e.id
}

/// Whether a look at the entities of a kind and a name ended with an answer and with the notes
/// that are given, where the entities that wait to be written down were made at a given time.
pub open spec fn looked_up<F: Fn(Reading) -> Clamped>(
    clamp: &F,
    store: StoreView,
    turn: StagingView,
    kind_filter: Option<Seq<char>>,
    name_filter: Option<Seq<char>>,
    remembered: bool,
    now: Seq<char>,
    before: Seq<NotedView>,
    after: Seq<NotedView>,
    told: JsonView,
) -> bool {
    let list = staging::effective_list(store, turn, kind_filter, name_filter, now);
    &&& tells_entities(clamp, store, turn, list, told)
    &&& after == (if remembered {
        before.push(
            NotedView {
                changes: turn.pending.len(),
                note: NoteView::Query { entity_ids: list.map_values(id_of()), kind_filter, name_filter },
            },
        )
    } else {
        before
    })
}

fn entity_json<F: Fn(Reading) -> Clamped>(turn: &TurnStaging, store: &Store, entity: &Entity, clamp: &F) -> (r: Json)
    requires
        forall|reading: Reading| call_requires(clamp, (reading,)),
    ensures
        tells_entity(clamp, store@, turn@, entity@, r@),
{
    let values = turn.attribute_snapshot(store, entity.id.as_str(), clamp);
    let ghost told = values.deep_view();
    proof {
        let listed = attributes::listed_values(store@, turn@.story_id, entity@.id);
        assert forall|k: int| 0 <= k < listed.len() implies staging::tells_value(
            clamp,
            turn@,
            entity@.id,
            listed[k],
            #[trigger] told[k],
        ) by {
            assert(told[k] == values@[k]@);
        }
        assert(staging::snapshot_of(clamp, store@, turn@, entity@.id, told));
    }
    let list = Json::Array(values);
    assert(list@->Array_0 =~= told);
    let r = Json::Object(
        vec![
            json::pair("appearance_anchor", json::of_option(&entity.appearance_anchor)),
            json::pair("attributes", list),
            json::pair("id", json::of_text(entity.id.as_str())),
            json::pair("kind", json::of_text(entity.kind.as_str())),
            json::pair("name", json::of_text(entity.name.as_str())),
        ],
    );
    assert(r@->Object_0 =~= entity_with(entity@, told)->Object_0);
    r
}

/// The entities that are there for the rest of the turn, of a kind and with a name where those
/// are asked for, each with its attributes. That they were looked for is noted where such
/// things are remembered.
pub fn get_entities<F: Fn(Reading) -> Clamped>(
    turn: &TurnStaging,
    store: &Store,
    notes: &mut Vec<Noted>,
    args: &Json,
    remembered: bool,
    clamp: &F,
) -> (r: Json)
    requires
        forall|reading: Reading| call_requires(clamp, (reading,)),
    ensures
        exists|now: Seq<char>|
            #[trigger] looked_up(
                clamp,
                store@,
                turn@,
                json::text_field(args@, "kind"@),
                json::text_field(args@, "name"@),
                remembered,
                now,
                old(notes).deep_view(),
                final(notes).deep_view(),
                r@,
            ),
{
    let kind_filter = args.str_field("kind");
    let name_filter = args.str_field("name");
    let entities = turn.effective_entities(store, kind_filter, name_filter);
    let ghost all = entities.deep_view();
    let ghost now = choose|now: Seq<char>|
        all == #[trigger] staging::effective_list(
            store@,
            turn@,
            kind_filter.deep_view(),
            name_filter.deep_view(),
            now,
        );
    let mut out: Vec<Json> = Vec::new();
    let mut ids: Vec<String> = Vec::new();
    let mut i: usize = 0;
    while i < entities.len()
        invariant
            0 <= i <= entities@.len(),
            all == entities.deep_view(),
            forall|reading: Reading| call_requires(clamp, (reading,)),
            out@.len() == i,
            ids@.len() == i,
            forall|k: int|
                0 <= k < i ==> tells_entity(clamp, store@, turn@, all[k], (#[trigger] out@[k])@),
            forall|k: int| 0 <= k < i ==> (#[trigger] ids@[k])@ == all[k].id,
        decreases entities@.len() - i,
    {
        assert(all[i as int] == entities@[i as int]@);
        out.push(entity_json(turn, store, &entities[i], clamp));
        ids.push(entities[i].id.clone());
        i += 1;
    }
    assert(ids.deep_view() =~= all.map_values(id_of()));
    if remembered {
        push_note(
            turn,
            notes,
            Note::Query {
                entity_ids: ids,
                kind_filter: text::owned_option(kind_filter),
                name_filter: text::owned_option(name_filter),
            },
        );
    }
    let ghost items = out.deep_view();
    let list = Json::Array(out);
    assert(list@->Array_0 =~= items);
    let r = Json::Object(vec![json::pair("entities", list)]);
    proof {
        assert(r@->Object_0 =~= seq![("entities"@, JsonView::Array(items))]);
        assert forall|k: int| 0 <= k < all.len() implies tells_entity(
            clamp,
            store@,
            turn@,
            all[k],
            #[trigger] items[k],
        ) by {
            assert(items[k] == out@[k]@);
        }
        assert(looked_up(
            clamp,
            store@,
            turn@,
            json::text_field(args@, "kind"@),
            json::text_field(args@, "name"@),
            remembered,
            now,
            old(notes).deep_view(),
            notes.deep_view(),
            r@,
        ));
    }
    r
}

/// Whether an entity that a call names was found, or noted as new, and told of.
pub open spec fn introduced(
    store: StoreView,
    before: StagingView,
    after: StagingView,
    entity_kind: Seq<char>,
    name: Seq<char>,
    appearance_anchor: Option<Seq<char>>,
    now: Seq<char>,
    entity: EntityView,
    created: bool,
    told: JsonView,
) -> bool {
    &&& staging::resolved_or_staged(store, before, after, entity_kind, name, appearance_anchor, now, entity, created)
    &&& told == tools::creation_answer(entity, created)
}

/// Notes a new entity, unless one of its kind is there for the rest of the turn that has its
/// name, whatever the case: then it is told of that one.
pub fn create_entity(turn: &mut TurnStaging, store: &Store, args: &Json) -> (r: Result<Json, ToolError>)
    ensures
        match (dice::filled_field(args@, "kind"@), dice::filled_field(args@, "name"@)) {
            (None, _) => {
                &&& r is Err && r->Err_0@ == ToolErrorView::InvalidArgs("kind is required"@)
                &&& final(turn)@ == old(turn)@
            },
            (_, None) => {
                &&& r is Err && r->Err_0@ == ToolErrorView::InvalidArgs("name is required"@)
                &&& final(turn)@ == old(turn)@
            },
            (Some(entity_kind), Some(name)) => r is Ok && exists|
                now: Seq<char>,
                entity: EntityView,
                created: bool,
            |
                #[trigger] introduced(
                    store@,
                    old(turn)@,
                    final(turn)@,
                    entity_kind,
                    name,
                    json::text_field(args@, "appearance_anchor"@),
                    now,
                    entity,
                    created,
                    r->Ok_0@,
                ),
        },
{
    let entity_kind = match dice::filled(args, "kind") {
        Some(entity_kind) => entity_kind,
        None => {
            return Err(ToolError::InvalidArgs("kind is required".to_string()));
        },
    };
    let name = match dice::filled(args, "name") {
        Some(name) => name,
        None => {
            return Err(ToolError::InvalidArgs("name is required".to_string()));
        },
    };
    let appearance_anchor = args.str_field("appearance_anchor");
    let (entity, created) = turn.resolve_or_stage_entity(store, entity_kind, name, appearance_anchor);
    let r: Result<Json, ToolError> = Ok(tools::creation_json(&entity, created));
    proof {
        let now = choose|now: Seq<char>| #[trigger]
            staging::resolved_or_staged(
                store@,
                old(turn)@,
                turn@,
                entity_kind@,
                name@,
                appearance_anchor.deep_view(),
                now,
                entity@,
                created,
            );
        assert(introduced(
            store@,
            old(turn)@,
            turn@,
            entity_kind@,
            name@,
            json::text_field(args@, "appearance_anchor"@),
            now,
            entity@,
            created,
            r->Ok_0@,
        ));
    }
    r
}

/// Notes that an entity that is there for the rest of the turn gets a name and a look.
pub fn update_entity(turn: &mut TurnStaging, store: &Store, args: &Json) -> (r: Result<Json, ToolError>)
    ensures
        match (json::text_field(args@, "id"@), dice::filled_field(args@, "name"@)) {
            (None, _) => {
                &&& r is Err && r->Err_0@ == ToolErrorView::InvalidArgs("id is required"@)
                &&& final(turn)@ == old(turn)@
            },
            (_, None) => {
                &&& r is Err && r->Err_0@ == ToolErrorView::InvalidArgs("name is required"@)
                &&& final(turn)@ == old(turn)@
            },
            (Some(id), Some(name)) => if effective_entity(store@, old(turn)@, id) is None {
                &&& r is Err && r->Err_0@ == ToolErrorView::InvalidArgs("no such entity: "@ + id)
                &&& final(turn)@ == old(turn)@
            } else {
                let appearance_anchor = json::text_field(args@, "appearance_anchor"@);
                &&& r is Ok && r->Ok_0@ == tools::update_answer(id, name, appearance_anchor)
                &&& final(turn)@ == (StagingView {
                    pending: old(turn)@.pending.push(OpView::UpdateEntity { id, name, appearance_anchor }),
                    ..old(turn)@
                })
            },
        },
{
    let id = match args.str_field("id") {
        Some(id) => id,
        None => {
            return Err(ToolError::InvalidArgs("id is required".to_string()));
        },
    };
    let name = match dice::filled(args, "name") {
        Some(name) => name,
        None => {
            return Err(ToolError::InvalidArgs("name is required".to_string()));
        },
    };
    let appearance_anchor = args.str_field("appearance_anchor");
    if turn.find_effective_entity(store, id).is_none() {
        return Err(ToolError::InvalidArgs(text::concat2("no such entity: ", id)));
    }
    turn.stage_entity_update(id.to_string(), name.to_string(), text::owned_option(appearance_anchor));
    Ok(tools::update_json(id, name, appearance_anchor))
}

/// What a tool tells of a change that it is about to note, and how far the attribute is told
/// by its name.
pub open spec fn change_begun(
    asked: AdjustmentView,
    entity: EntityView,
    step: AppResult<ResolutionStep>,
    r: Result<(Adjustment, Entity, ResolutionStep), ToolError>,
) -> bool {
    match step {
        Ok(step) => r is Ok && r->Ok_0.0@ == asked && r->Ok_0.1@ == entity && r->Ok_0.2 == step,
        Err(e) => r is Err && r->Err_0@ == tool_error::plain_tool_error(e@),
    }
}

/// The change that a call asks for, the entity that it is about, as it is for the rest of the
/// turn, and how far the attribute is told by its name.
pub fn begin_adjustment(turn: &TurnStaging, store: &Store, args: &Json) -> (r: Result<
    (Adjustment, Entity, ResolutionStep),
    ToolError,
>)
    ensures
        match tools::adjustment_of(args@) {
            Err(e) => r is Err && r->Err_0@ == ToolErrorView::InvalidArgs(e),
            Ok(asked) => match effective_entity(store@, turn@, asked.entity_id) {
                None => r is Err && r->Err_0@ == ToolErrorView::InvalidArgs(
                    "no such entity: "@ + asked.entity_id,
                ),
                Some(entity) => exists|step: AppResult<ResolutionStep>|
                    #[trigger] registry::named_step(
                        store@.registry,
                        asked.attribute,
                        entity.kind,
                        turn@.story_id,
                        step,
                    ) && change_begun(asked, entity, step, r),
            },
        },
{
    let asked = match tools::adjustment(args) {
        Ok(asked) => asked,
        Err(e) => {
            return Err(e);
        },
    };
    let entity = match turn.find_effective_entity(store, asked.entity_id.as_str()) {
        Some(entity) => entity,
        None => {
            return Err(
                ToolError::InvalidArgs(text::concat2("no such entity: ", asked.entity_id.as_str())),
            );
        },
    };
    let step = registry::resolve_by_name(
        store,
        asked.attribute.as_str(),
        entity.kind.as_str(),
        turn.story_id.as_str(),
    );
    let ghost found = step;
    assert(registry::named_step(store@.registry, asked@.attribute, entity@.kind, turn@.story_id, found));
    match step {
        Ok(step) => Ok((asked, entity, step)),
        Err(e) => Err(tool_error::to_tool_error(e)),
    }
}

/// The change of an attribute that a call asks for.
pub open spec fn change_asked(asked: AdjustmentView, entity_id: Seq<char>, attribute: RegistryView) -> OpView {
    OpView::AdjustAttribute {
        entity_id,
        attribute,
        delta: asked.delta,
        cause: asked.reason,
        dramatic: asked.dramatic,
    }
}

/// Whether a change of an attribute was noted and told of: what the player set stays as it is.
pub open spec fn change_noted<F: Fn(Reading) -> Clamped>(
    clamp: &F,
    store: StoreView,
    before: StagingView,
    after: StagingView,
    entity_id: Seq<char>,
    asked: AdjustmentView,
    attribute: RegistryView,
    from: DoubleView,
    to: DoubleView,
    told: JsonView,
) -> bool {
    let op = change_asked(asked, entity_id, attribute);
    &&& staging::effective_value(clamp, store, before, entity_id, attribute, from)
    &&& if attributes::locked(store, before.story_id, entity_id, attribute.id) {
        told == tools::locked_answer(from) && after == before
    } else {
        &&& staging::leads_to(clamp, from, op, to)
        &&& told == tools::applied_answer(from, to)
        &&& after == (StagingView { pending: before.pending.push(op), ..before })
    }
}

/// What comes of a change whose attribute was settled, or could not be.
pub open spec fn change_ended<F: Fn(Reading) -> Clamped>(
    clamp: &F,
    store: StoreView,
    before: StagingView,
    after: StagingView,
    entity_id: Seq<char>,
    asked: AdjustmentView,
    settled: AppResult<AttributeRegistryEntry>,
    r: Result<Json, ToolError>,
) -> bool {
    match settled {
        Err(e) => r is Err && r->Err_0@ == tool_error::plain_tool_error(e@) && after == before,
        Ok(attribute) => r is Ok && exists|from: DoubleView, to: DoubleView|
            #[trigger] change_noted(
                clamp,
                store,
                before,
                after,
                entity_id,
                asked,
                attribute@,
                from,
                to,
                r->Ok_0@,
            ),
    }
}

/// Settles the attribute of a change and notes the change. The arithmetic is `clamp`'s.
pub fn finish_adjustment<F: Fn(Reading) -> Clamped>(
    turn: &mut TurnStaging,
    store: &mut Store,
    entity: &Entity,
    asked: &Adjustment,
    resolution: AttributeResolution,
    clamp: &F,
) -> (r: Result<Json, ToolError>)
    requires
        forall|reading: Reading| call_requires(clamp, (reading,)),
    ensures
        exists|settled: AppResult<AttributeRegistryEntry>|
            #[trigger] eager::attribute_settled(old(store)@, final(store)@, resolution, settled) && change_ended(
                clamp,
                final(store)@,
                old(turn)@,
                final(turn)@,
                entity@.id,
                asked@,
                settled,
                r,
            ),
{
    let made = eager::settle_attribute(store, resolution);
    let ghost settled = made;
    assert(eager::attribute_settled(old(store)@, store@, resolution, settled));
    let attribute = match made {
        Ok(attribute) => attribute,
        Err(e) => {
            return Err(tool_error::to_tool_error(e));
        },
    };
    let (from, to, applied) = turn.stage_attribute_delta(
        store,
        entity.id.as_str(),
        attribute,
        asked.delta.copy(),
        asked.reason.as_str(),
        asked.dramatic,
        clamp,
    );
    let r: Result<Json, ToolError> = Ok(
        if applied {
            tools::applied_json(&from, &to)
        } else {
            tools::locked_json(&from)
        },
    );
    assert(change_noted(
        clamp,
        store@,
        old(turn)@,
        turn@,
        entity@.id,
        asked@,
        settled->Ok_0@,
        from@,
        to@,
        r->Ok_0@,
    ));
    assert(change_ended(clamp, store@, old(turn)@, turn@, entity@.id, asked@, settled, r));
    r
}

/// The check that a call asks for, or what is wrong with its arguments.
pub open spec fn check_of(args: JsonView) -> Result<CheckRequestView, Seq<char>> {
    match dice::filled_field(args, "attribute"@) {
        None => Err("attribute is required"@),
        Some(attribute) => Ok(
            CheckRequestView {
                attribute,
                target_entity_id: json::text_field(args, "target_entity_id"@),
                target_attribute: json::text_field(args, "target_attribute"@),
                modifier: match json::real_field(args, "modifier"@) {
                    Some(modifier) => modifier,
                    None => double::zero_view(),
                },
            },
        ),
    }
}

/// The check that a call asks for.
pub fn check_request(args: &Json) -> (r: Result<CheckRequest, ToolError>)
    ensures
        match check_of(args@) {
            Ok(asked) => r is Ok && r->Ok_0@ == asked,
            Err(e) => r is Err && r->Err_0@ == ToolErrorView::InvalidArgs(e),
        },
{
    let attribute = match dice::filled(args, "attribute") {
        Some(attribute) => attribute.to_string(),
        None => {
            return Err(ToolError::InvalidArgs("attribute is required".to_string()));
        },
    };
    let modifier = match args.double_field("modifier") {
        Some(modifier) => modifier,
        None => double::zero(),
    };
    Ok(
        CheckRequest {
            attribute,
            target_entity_id: text::owned_option(args.str_field("target_entity_id")),
            target_attribute: text::owned_option(args.str_field("target_attribute")),
            modifier,
        },
    )
}

/// A check of which it is known who takes part.
#[derive(Debug, PartialEq)]
pub struct CheckStart {
    pub asked: CheckRequest,
    pub actor: Entity,
    pub target: Option<Entity>,
}

/// What a `CheckStart` stands for.
#[verifier::ext_equal]
pub struct CheckStartView {
    pub asked: CheckRequestView,
    pub actor: EntityView,
    pub target: Option<EntityView>,
}

impl View for CheckStart {
    type V = CheckStartView;

    open spec fn view(&self) -> CheckStartView {
        CheckStartView { asked: self.asked@, actor: self.actor@, target: self.target.deep_view() }
    }
}

/// The entity that a check is against, as it is for the rest of the turn.
pub open spec fn opponent_of(store: StoreView, turn: StagingView, asked: CheckRequestView) -> Option<EntityView> {
    match asked.target_entity_id {
        Some(id) => effective_entity(store, turn, id),
        None => None,
    }
}

/// Finds who takes part in a check: the player's own character, which is noted as new where
/// there is none, and the entity that the check is against.
pub fn begin_check(turn: &mut TurnStaging, store: &Store, args: &Json) -> (r: Result<CheckStart, ToolError>)
    ensures
        match check_of(args@) {
            Err(e) => r is Err && r->Err_0@ == ToolErrorView::InvalidArgs(e) && final(turn)@ == old(turn)@,
            Ok(asked) => {
                &&& r is Ok
                &&& r->Ok_0@.asked == asked
                &&& r->Ok_0@.target == opponent_of(store@, final(turn)@, asked)
                &&& exists|now: Seq<char>, created: bool| #[trigger]
                    staging::resolved_or_staged(
                        store@,
                        old(turn)@,
                        final(turn)@,
                        PLAYER_KIND@,
                        PLAYER_NAME@,
                        None,
                        now,
                        r->Ok_0@.actor,
                        created,
                    )
            },
        },
{
    let asked = match check_request(args) {
        Ok(asked) => asked,
        Err(e) => {
            return Err(e);
        },
    };
    let (actor, _created) = turn.resolve_or_stage_entity(store, PLAYER_KIND, PLAYER_NAME, None);
    let target = match &asked.target_entity_id {
        Some(id) => turn.find_effective_entity(store, id.as_str()),
        None => None,
    };
    Ok(CheckStart { asked, actor, target })
}

impl CheckStart {
    /// The kind of the entity that the check is against and the name of the attribute that it
    /// is against, where both are there.
    pub fn opposed(&self) -> (r: Option<(&str, &str)>)
        ensures
            match (self@.target, self@.asked.target_attribute) {
                (Some(target), Some(attribute)) => r matches Some(found) && found.0@ == target.kind && found.1@ == attribute,
                _ => r is None,
            },
    {
        match (&self.target, &self.asked.target_attribute) {
            (Some(target), Some(attribute)) => Some((target.kind.as_str(), attribute.as_str())),
            _ => None,
        }
    }
}

/// What the narrator is told of a check.
pub open spec fn check_answer(output: CheckOutputView, actor_value: DoubleView, target_value: Option<DoubleView>) -> JsonView {
    JsonView::Object(
        seq![
            ("actor_value"@, json::double_value(actor_value)),
            ("degree"@, JsonView::Str(output.degree)),
            ("needed"@, json::int_value(output.needed)),
            ("outcome"@, JsonView::Str(output.outcome)),
            ("roll"@, json::int_value(output.roll)),
            ("target_value"@, json::optional_double(target_value)),
        ],
    )
}

/// Whether a value on its scale is what an attribute of an entity has for the rest of the turn.
pub open spec fn reads_value<F: Fn(Reading) -> Clamped>(
    clamp: &F,
    store: StoreView,
    turn: StagingView,
    entity_id: Seq<char>,
    attribute: RegistryView,
    found: ScaledView,
) -> bool {
    &&& staging::effective_value(clamp, store, turn, entity_id, attribute, found.value)
    &&& found.min == attribute.min
    &&& found.max == attribute.max
}

/// Whether a check is rolled from what its participants have for the rest of the turn. One
/// without an attribute to be against is against nothing.
pub open spec fn check_read<F: Fn(Reading) -> Clamped>(
    clamp: &F,
    store: StoreView,
    turn: StagingView,
    start: CheckStartView,
    actor_attribute: RegistryView,
    target_attribute: Option<RegistryView>,
    input: CheckInputView,
) -> bool {
    &&& reads_value(clamp, store, turn, start.actor.id, actor_attribute, input.actor)
    &&& match (start.target, target_attribute) {
        (Some(target), Some(attribute)) => input.target is Some && reads_value(
            clamp,
            store,
            turn,
            target.id,
            attribute,
            input.target->0,
        ),
        _ => input.target is None,
    }
    &&& input.modifier == start.asked.modifier
}

/// The value of a target.
pub open spec fn value_of(target: Option<ScaledView>) -> Option<DoubleView> {
    match target {
        Some(found) => Some(found.value),
        None => None,
    }
}

/// What is noted of a check.
pub open spec fn check_note(
    start: CheckStartView,
    actor_attribute: RegistryView,
    target_attribute: Option<RegistryView>,
    input: CheckInputView,
    output: CheckOutputView,
) -> PendingCheckView {
    PendingCheckView {
        actor_entity_id: start.actor.id,
        target_entity_id: match start.target {
            Some(target) => Some(target.id),
            None => None,
        },
        actor_attribute_id: Some(actor_attribute.id),
        target_attribute_id: match (start.target, target_attribute) {
            (Some(_), Some(attribute)) => Some(attribute.id),
            _ => None,
        },
        actor_value: input.actor.value,
        target_value: value_of(input.target),
        modifier: input.modifier,
        output,
    }
}

fn scaled<F: Fn(Reading) -> Clamped>(
    turn: &TurnStaging,
    store: &Store,
    entity: &Entity,
    attribute: &AttributeRegistryEntry,
    clamp: &F,
) -> (r: Scaled)
    requires
        forall|reading: Reading| call_requires(clamp, (reading,)),
    ensures
        reads_value(clamp, store@, turn@, entity@.id, attribute@, r@),
{
    let (value, _locked) = turn.effective_attribute_state(store, entity.id.as_str(), attribute, clamp);
    Scaled { value, min: attribute.min.copy(), max: attribute.max.copy() }
}

/// Rolls a check whose attributes were settled and notes how it came out. The arithmetic of the
/// values is `clamp`'s, that of the roll `resolve`'s.
pub fn finish_check<F: Fn(Reading) -> Clamped, R: Fn(CheckInput) -> CheckOutput>(
    turn: &TurnStaging,
    store: &Store,
    notes: &mut Vec<Noted>,
    start: &CheckStart,
    actor_attribute: &AttributeRegistryEntry,
    target_attribute: Option<&AttributeRegistryEntry>,
    clamp: &F,
    resolve: &R,
) -> (r: Json)
    requires
        forall|reading: Reading| call_requires(clamp, (reading,)),
        forall|input: CheckInput| call_requires(resolve, (input,)),
    ensures
        exists|input: CheckInput, output: CheckOutput| #[trigger]
            call_ensures(resolve, (input,), output) && check_read(
                clamp,
                store@,
                turn@,
                start@,
                actor_attribute@,
                target_attribute.deep_view(),
                input@,
            ) && final(notes).deep_view() == old(notes).deep_view().push(
                (NotedView {
                    changes: turn@.pending.len(),
                    note: NoteView::Check(
                        check_note(start@, actor_attribute@, target_attribute.deep_view(), input@, output@),
                    ),
                }),
            ) && r@ == check_answer(output@, input@.actor.value, value_of(input@.target)),
{
    let actor = scaled(turn, store, &start.actor, actor_attribute, clamp);
    let (target, target_attribute_id) = match (&start.target, target_attribute) {
        (Some(target), Some(attribute)) => (
            Some(scaled(turn, store, target, attribute, clamp)),
            Some(attribute.id.clone()),
        ),
        _ => (None, None),
    };
    let actor_value = actor.value.copy();
    let target_value = match &target {
        Some(found) => Some(found.value.copy()),
        None => None,
    };
    let input = CheckInput { actor, target, modifier: start.asked.modifier.copy() };
    let ghost asked = input;
    let output = resolve(input);
    let ghost given = output;
    assert(call_ensures(resolve, (asked,), given));
    assert(target_value.deep_view() == value_of(asked@.target));
    let r = Json::Object(
        vec![
            json::pair("actor_value", json::of_double(&actor_value)),
            json::pair("degree", json::of_text(output.degree.as_str())),
            json::pair("needed", json::of_int(output.needed)),
            json::pair("outcome", json::of_text(output.outcome.as_str())),
            json::pair("roll", json::of_int(output.roll)),
            json::pair("target_value", json::of_optional_double(&target_value)),
        ],
    );
    assert(r@->Object_0 =~= check_answer(given@, actor_value@, target_value.deep_view())->Object_0);
    let target_entity_id = match &start.target {
        Some(target) => Some(target.id.clone()),
        None => None,
    };
    push_note(
        turn,
        notes,
        Note::Check(
            PendingCheck {
                actor_entity_id: start.actor.id.clone(),
                target_entity_id,
                actor_attribute_id: Some(actor_attribute.id.clone()),
                target_attribute_id,
                actor_value,
                target_value,
                modifier: start.asked.modifier.copy(),
                output,
            },
        ),
    );
    r
}

} // verus!
