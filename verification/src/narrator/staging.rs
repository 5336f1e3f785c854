//! What a turn changes of the world before any of it is written down: the changes are kept
//! in order, read together with what is written, and written all at once with the passage.

use vstd::prelude::*;

use super::dice;
use super::dice::{FactorView, OutcomeView, RollFactor, RollOutcome};
use super::tools;
use crate::double::{Double, DoubleView};
use crate::entities::attributes;
use crate::entities::attributes::{Clamped, Reading, ReadingView};
use crate::entities::model::{
    AttributeRegistryEntry,
    AttributeValueView,
    Entity,
    EntityAttributeValue,
    EntityView,
    RegistryView,
};
use crate::entities::registry;
use crate::entities::registry::{AttributeResolution, ResolutionStep};
use crate::entities::repository;
use crate::error::{AppError, AppResult, ErrorView};
use crate::json::{Json, JsonView};
use crate::store::{Store, StoreView};
use crate::{double, json, rows, stamp, text};

verus! {

/// A roll that waits to be written down.
#[derive(Debug, PartialEq)]
pub struct PendingRoll {
    pub output: RollOutcome,
    pub reason: Option<String>,
    pub chance_source: &'static str,
    pub factors: Vec<RollFactor>,
}

/// What a `PendingRoll` stands for.
#[verifier::ext_equal]
pub struct PendingRollView {
    pub output: OutcomeView,
    pub reason: Option<Seq<char>>,
    pub chance_source: Seq<char>,
    pub factors: Seq<FactorView>,
}

impl View for PendingRoll {
    type V = PendingRollView;

    open spec fn view(&self) -> PendingRollView {
        PendingRollView {
            output: self.output@,
            reason: self.reason.deep_view(),
            chance_source: self.chance_source@,
            factors: self.factors.deep_view(),
        }
    }
}

/// A call of a tool that waits to be written down.
#[derive(Debug, PartialEq)]
pub struct PendingToolCall {
    pub tool: String,
    pub args: Json,
    pub result: Json,
    pub ok: bool,
    pub label: String,
}

/// What a `PendingToolCall` stands for.
#[verifier::ext_equal]
pub struct PendingToolCallView {
    pub tool: Seq<char>,
    pub args: JsonView,
    pub result: JsonView,
    pub ok: bool,
    pub label: Seq<char>,
}

impl View for PendingToolCall {
    type V = PendingToolCallView;

    open spec fn view(&self) -> PendingToolCallView {
        PendingToolCallView {
            tool: self.tool@,
            args: self.args@,
            result: self.result@,
            ok: self.ok,
            label: self.label@,
        }
    }
}

impl DeepView for PendingToolCall {
    type V = PendingToolCallView;

    open spec fn deep_view(&self) -> PendingToolCallView {
        self@
    }
}

/// A change that waits to be written down.
#[derive(Debug, PartialEq)]
pub enum PendingOp {
    MintAttribute(AttributeRegistryEntry),
    AddAlias { attribute: AttributeRegistryEntry, alias: String },
    CreateEntity { id: String, kind: String, name: String, appearance_anchor: Option<String> },
    UpdateEntity { id: String, name: String, appearance_anchor: Option<String> },
    AdjustAttribute {
        entity_id: String,
        attribute: AttributeRegistryEntry,
        delta: Double,
        cause: String,
        dramatic: bool,
    },
    Roll(PendingRoll),
}

/// What a `PendingOp` stands for.
#[verifier::ext_equal]
#[allow(inconsistent_fields)]
pub enum OpView {
    MintAttribute(RegistryView),
    AddAlias { attribute: RegistryView, alias: Seq<char> },
    CreateEntity { id: Seq<char>, kind: Seq<char>, name: Seq<char>, appearance_anchor: Option<Seq<char>> },
    UpdateEntity { id: Seq<char>, name: Seq<char>, appearance_anchor: Option<Seq<char>> },
    AdjustAttribute {
        entity_id: Seq<char>,
        attribute: RegistryView,
        delta: DoubleView,
        cause: Seq<char>,
        dramatic: bool,
    },
    Roll(PendingRollView),
}

impl View for PendingOp {
    type V = OpView;

    open spec fn view(&self) -> OpView {
        match *self {
            PendingOp::MintAttribute(attribute) => OpView::MintAttribute(attribute@),
            PendingOp::AddAlias { attribute, alias } => OpView::AddAlias {
                attribute: attribute@,
                alias: alias@,
            },
            PendingOp::CreateEntity { id, kind, name, appearance_anchor } => OpView::CreateEntity {
                id: id@,
                kind: kind@,
                name: name@,
                appearance_anchor: appearance_anchor.deep_view(),
            },
            PendingOp::UpdateEntity { id, name, appearance_anchor } => OpView::UpdateEntity {
                id: id@,
                name: name@,
                appearance_anchor: appearance_anchor.deep_view(),
            },
            PendingOp::AdjustAttribute { entity_id, attribute, delta, cause, dramatic } => OpView::AdjustAttribute {
                entity_id: entity_id@,
                attribute: attribute@,
                delta: delta@,
                cause: cause@,
                dramatic,
            },
            PendingOp::Roll(pending) => OpView::Roll(pending@),
        }
    }
}

impl DeepView for PendingOp {
    type V = OpView;

    open spec fn deep_view(&self) -> OpView {
        self@
    }
}

/// What a turn of a story changes before it is written down.
#[derive(Debug, PartialEq)]
pub struct TurnStaging {
    pub story_id: String,
    pub pending: Vec<PendingOp>,
    pub tool_calls: Vec<PendingToolCall>,
}

/// What a `TurnStaging` holds.
#[verifier::ext_equal]
pub struct StagingView {
    pub story_id: Seq<char>,
    pub pending: Seq<OpView>,
    pub tool_calls: Seq<PendingToolCallView>,
}

impl View for TurnStaging {
    type V = StagingView;

    open spec fn view(&self) -> StagingView {
        StagingView {
            story_id: self.story_id@,
            pending: self.pending.deep_view(),
            tool_calls: self.tool_calls.deep_view(),
        }
    }
}

/// A list of entities after the first one with an identifier was given a name and a look.
pub open spec fn renamed_first(list: Seq<EntityView>, id: Seq<char>, name: Seq<char>, appearance_anchor: Option<Seq<char>>) -> Seq<
    EntityView,
> {
    match rows::first_index(list, dice::is_entity(id)) {
        Some(i) => list.update(i, EntityView { name, appearance_anchor, ..list[i] }),
        None => list,
    }
}

/// A list of entities after a change that waits to be written down.
pub open spec fn staged_step(
    story_id: Seq<char>,
    entity_kind: Option<Seq<char>>,
    now: Seq<char>,
    list: Seq<EntityView>,
    op: OpView,
) -> Seq<EntityView> {
    match op {
        OpView::CreateEntity { id, kind, name, appearance_anchor } => if entity_kind is Some && entity_kind->0
            != kind {
            list
        } else {
            list.push(EntityView { id, story_id, kind, name, appearance_anchor, created_at: now })
        },
        OpView::UpdateEntity { id, name, appearance_anchor } => renamed_first(
            list,
            id,
            name,
            appearance_anchor,
        ),
        _ => list,
    }
}

/// The entities that are there, with the changes that wait to be written down.
pub open spec fn staged_list(
    store: StoreView,
    story_id: Seq<char>,
    ops: Seq<OpView>,
    entity_kind: Option<Seq<char>>,
    now: Seq<char>,
) -> Seq<EntityView>
    decreases ops.len(),
{
    if ops.len() == 0 {
        repository::listed_entities(store, story_id, entity_kind)
    } else {
        staged_step(
            story_id,
            entity_kind,
            now,
            staged_list(store, story_id, ops.drop_last(), entity_kind, now),
            ops.last(),
        )
    }
}

/// The entities that are there for the rest of the turn, with a name where one is asked for.
pub open spec fn effective_list(
    store: StoreView,
    staging: StagingView,
    entity_kind: Option<Seq<char>>,
    name: Option<Seq<char>>,
    now: Seq<char>,
) -> Seq<EntityView> {
    staged_list(store, staging.story_id, staging.pending, entity_kind, now).filter(tools::named_like(name))
}

fn index_of(list: &Vec<Entity>, id: &str) -> (r: Option<usize>)
    ensures
        match r {
            Some(i) => i < list@.len() && rows::first_index(list.deep_view(), dice::is_entity(id@)) == Some(
                i as int,
            ),
            None => rows::first_index(list.deep_view(), dice::is_entity(id@)) is None,
        },
{
    let ghost p = dice::is_entity(id@);
    let meant = |row: &Entity| -> (b: bool)
        ensures
            b == p(row.deep_view()),
    {
        text::same_text(row.id.as_str(), id)
    };
    rows::position(list, meant, Ghost(p))
}

fn take_step(list: &mut Vec<Entity>, story_id: &str, entity_kind: Option<&str>, now: &str, op: &PendingOp)
    ensures
        final(list).deep_view() == staged_step(
            story_id@,
            entity_kind.deep_view(),
            now@,
            old(list).deep_view(),
            op@,
        ),
{
    match op {
        PendingOp::CreateEntity { id, kind, name, appearance_anchor } => {
            let other = match entity_kind {
                Some(asked) => !text::same_text(asked, kind.as_str()),
                None => false,
            };
            if other {
                return;
            }
            let ghost before = *list;
            let entity = Entity {
                id: id.clone(),
                story_id: story_id.to_string(),
                kind: kind.clone(),
                name: name.clone(),
                appearance_anchor: text::copy_option(appearance_anchor),
                created_at: now.to_string(),
            };
            let ghost value = entity;
            list.push(entity);
            proof {
                rows::lemma_deep_push(before, *list, value);
            }
        },
        PendingOp::UpdateEntity { id, name, appearance_anchor } => {
            if let Some(i) = index_of(list, id.as_str()) {
                let ghost before = *list;
                let mut entity = list[i].copy();
                entity.name = name.clone();
                entity.appearance_anchor = text::copy_option(appearance_anchor);
                let ghost value = entity;
                list.set(i, entity);
                proof {
                    rows::lemma_deep_update(before, *list, i as int, value);
                }
            }
        },
        _ => {},
    }
}

/// The condition of giving an attribute for a name.
pub open spec fn names_attribute(name: Seq<char>) -> spec_fn(OpView) -> bool {
    |op: OpView|
        match op {
            OpView::MintAttribute(attribute) => text::same_ignoring_case(attribute.canonical_name, name),
            OpView::AddAlias { alias, .. } => text::same_ignoring_case(alias, name),
            _ => false,
        }
}

/// The attribute that a change gives.
pub open spec fn attribute_of(op: OpView) -> RegistryView {
    match op {
        OpView::MintAttribute(attribute) => attribute,
        OpView::AddAlias { attribute, .. } => attribute,
        OpView::AdjustAttribute { attribute, .. } => attribute,
        _ => arbitrary(),
    }
}

/// The attribute that the turn has taken for a name.
pub open spec fn staged_for(ops: Seq<OpView>, name: Seq<char>) -> Option<RegistryView> {
    match rows::first_where(ops, names_attribute(text::trimmed(name))) {
        Some(op) => Some(attribute_of(op)),
        None => None,
    }
}

/// Whether a change is one of an attribute of an entity.
pub open spec fn adjusts(op: OpView, id: Seq<char>, attribute_id: Seq<char>) -> bool {
    op matches OpView::AdjustAttribute { entity_id, attribute, .. } && entity_id == id && attribute.id
        == attribute_id
}

/// What the arithmetic of a change starts from that begins at a value.
pub open spec fn reading_at(value: DoubleView, op: OpView) -> ReadingView {
    match op {
        OpView::AdjustAttribute { attribute, delta, dramatic, .. } => ReadingView {
            stored: Some(value),
            min: attribute.min,
            max: attribute.max,
            delta,
            dramatic,
        },
        _ => arbitrary(),
    }
}

/// Whether the arithmetic leads from a value to another by one change.
pub open spec fn leads_to<F: Fn(Reading) -> Clamped>(clamp: &F, from: DoubleView, op: OpView, to: DoubleView) -> bool {
    exists|reading: Reading, clamped: Clamped|
        #[trigger] call_ensures(clamp, (reading,), clamped) && reading@ == reading_at(from, op) && to
            == clamped@.after
}

/// Whether the arithmetic leads from a value to another by the changes of an attribute of an
/// entity that wait to be written down, in their order.
pub open spec fn folded<F: Fn(Reading) -> Clamped>(
    clamp: &F,
    base: DoubleView,
    ops: Seq<OpView>,
    entity_id: Seq<char>,
    attribute_id: Seq<char>,
    value: DoubleView,
) -> bool
    decreases ops.len(),
{
    if ops.len() == 0 {
        value == base
    } else if adjusts(ops.last(), entity_id, attribute_id) {
        exists|mid: DoubleView|
            folded(clamp, base, ops.drop_last(), entity_id, attribute_id, mid) && #[trigger] leads_to(
                clamp,
                mid,
                ops.last(),
                value,
            )
    } else {
        folded(clamp, base, ops.drop_last(), entity_id, attribute_id, value)
    }
}

/// Whether a value is what an attribute of an entity has for the rest of the turn: what the
/// player set stays as it is.
pub open spec fn effective_from<F: Fn(Reading) -> Clamped>(
    clamp: &F,
    base: DoubleView,
    locked: bool,
    ops: Seq<OpView>,
    entity_id: Seq<char>,
    attribute_id: Seq<char>,
    value: DoubleView,
) -> bool {
    if locked {
        value == base
    } else {
        folded(clamp, base, ops, entity_id, attribute_id, value)
    }
}

/// Whether the arithmetic takes a value as the midpoint of a scale.
pub open spec fn is_midpoint<F: Fn(Reading) -> Clamped>(clamp: &F, attribute: RegistryView, value: DoubleView) -> bool {
    exists|reading: Reading, clamped: Clamped|
        #[trigger] call_ensures(clamp, (reading,), clamped) && reading@ == (ReadingView {
            stored: None,
            min: attribute.min,
            max: attribute.max,
            delta: double::zero_view(),
            dramatic: false,
        }) && value == clamped@.before
}

/// Whether a value is what is written of an attribute of an entity, or the midpoint of its
/// scale where nothing is.
pub open spec fn written_value<F: Fn(Reading) -> Clamped>(
    clamp: &F,
    store: StoreView,
    story_id: Seq<char>,
    entity_id: Seq<char>,
    attribute: RegistryView,
    value: DoubleView,
) -> bool {
    match attributes::stored_value(store, story_id, entity_id, attribute.id) {
        Some(row) => value == row.value,
        None => is_midpoint(clamp, attribute, value),
    }
}

/// Whether a value is what an attribute of an entity has for the rest of the turn.
pub open spec fn effective_value<F: Fn(Reading) -> Clamped>(
    clamp: &F,
    store: StoreView,
    staging: StagingView,
    entity_id: Seq<char>,
    attribute: RegistryView,
    value: DoubleView,
) -> bool {
    exists|base: DoubleView|
        #[trigger] written_value(clamp, store, staging.story_id, entity_id, attribute, base)
            && effective_from(
            clamp,
            base,
            attributes::locked(store, staging.story_id, entity_id, attribute.id),
            staging.pending,
            entity_id,
            attribute.id,
            value,
        )
}

fn fold_pending_delta<F: Fn(Reading) -> Clamped>(
    base: Double,
    entity_id: &str,
    attribute_id: &str,
    pending: &Vec<PendingOp>,
    locked: bool,
    clamp: &F,
) -> (r: Double)
    requires
        forall|reading: Reading| call_requires(clamp, (reading,)),
    ensures
        effective_from(clamp, base@, locked, pending.deep_view(), entity_id@, attribute_id@, r@),
{
    if locked {
        return base;
    }
    let ghost start = base@;
    let ghost all = pending.deep_view();
    let mut value: Double = base;
    let mut i: usize = 0;
    assert(folded(clamp, start, all.take(0), entity_id@, attribute_id@, value@));
    while i < pending.len()
        invariant
            0 <= i <= pending@.len(),
            all == pending.deep_view(),
            forall|reading: Reading| call_requires(clamp, (reading,)),
            folded(clamp, start, all.take(i as int), entity_id@, attribute_id@, value@),
        decreases pending@.len() - i,
    {
        let ghost before = value@;
        proof {
            assert(all[i as int] == pending@[i as int]@);
            assert(all.take(i + 1).drop_last() =~= all.take(i as int));
            assert(all.take(i + 1).last() == all[i as int]);
        }
        if let PendingOp::AdjustAttribute { entity_id: id, attribute, delta, dramatic, .. } = &pending[i] {
            if text::same_text(id.as_str(), entity_id) && text::same_text(
                attribute.id.as_str(),
                attribute_id,
            ) {
                let reading = Reading {
                    stored: Some(value),
                    min: attribute.min.copy(),
                    max: attribute.max.copy(),
                    delta: delta.copy(),
                    dramatic: *dramatic,
                };
                let ghost asked = reading;
                let clamped = clamp(reading);
                let ghost given = clamped;
                value = clamped.after;
                proof {
                    assert(call_ensures(clamp, (asked,), given));
                    assert(asked@ == reading_at(before, all[i as int]));
                    assert(leads_to(clamp, before, all.take(i + 1).last(), value@));
                    assert(folded(clamp, start, all.take(i + 1).drop_last(), entity_id@, attribute_id@, before));
                }
            }
        }
        i += 1;
    }
    proof {
        rows::lemma_take_all(all);
    }
    value
}

/// The condition of giving an attribute for a name, or changing one of that name.
pub open spec fn speaks_of(name: Seq<char>) -> spec_fn(OpView) -> bool {
    |op: OpView|
        match op {
            OpView::MintAttribute(attribute) => text::same_ignoring_case(attribute.canonical_name, name),
            OpView::AdjustAttribute { attribute, .. } => text::same_ignoring_case(
                attribute.canonical_name,
                name,
            ),
            OpView::AddAlias { alias, .. } => text::same_ignoring_case(alias, name),
            _ => false,
        }
}

/// The attribute that a name stands for in a turn: the one that is known by it, or the last one
/// that the turn has spoken of under it.
pub open spec fn resolved_id(store: StoreView, ops: Seq<OpView>, name: Seq<char>) -> Option<Seq<char>> {
    match registry::exact_match(store.registry, name) {
        Some(known) => Some(known.id),
        None => match rows::last_where(ops, speaks_of(name)) {
            Some(op) => Some(attribute_of(op).id),
            None => None,
        },
    }
}

/// The condition of being the value of the attribute that a name stands for.
pub open spec fn value_named(resolved: Option<Seq<char>>, name: Seq<char>) -> spec_fn(AttributeValueView) -> bool {
    |v: AttributeValueView|
        match resolved {
            Some(id) => id == v.attribute_id,
            None => text::same_ignoring_case(v.canonical_name, name),
        }
}

/// The condition of being a change of the attribute that a name stands for.
pub open spec fn change_named(resolved: Option<Seq<char>>, entity_id: Seq<char>) -> spec_fn(OpView) -> bool {
    |op: OpView| resolved is Some && adjusts(op, entity_id, resolved->0)
}

/// Where a factor is read from: a value that is written, an attribute that the turn changed
/// and of which nothing is written, or nowhere.
pub enum FactorSource {
    Written(AttributeValueView),
    Staged(RegistryView),
    Nowhere,
}

/// Where a factor is read from.
pub open spec fn factor_source(store: StoreView, staging: StagingView, entity_id: Seq<char>, name: Seq<char>) -> FactorSource {
    let resolved = resolved_id(store, staging.pending, name);
    match rows::first_where(
        attributes::listed_values(store, staging.story_id, entity_id),
        value_named(resolved, name),
    ) {
        Some(value) => FactorSource::Written(value),
        None => match rows::last_where(staging.pending, change_named(resolved, entity_id)) {
            Some(op) => FactorSource::Staged(attribute_of(op)),
            None => FactorSource::Nowhere,
        },
    }
}

/// A factor with a value, or why it cannot bear on a check.
pub open spec fn factor_with(
    entity: EntityView,
    attribute_id: Seq<char>,
    attribute_name: Seq<char>,
    value: DoubleView,
    min: DoubleView,
    max: DoubleView,
) -> Result<FactorView, ErrorView> {
    if dice::sound(value, min, max) {
        Ok(
            FactorView {
                entity_id: entity.id,
                entity_name: entity.name,
                attribute_id,
                attribute_name,
                value,
                min,
                max,
            },
        )
    } else {
        Err(ErrorView::Invalid("invalid value or range for "@ + entity.name + "'s "@ + attribute_name))
    }
}

/// What reading a factor in the middle of a turn comes to.
pub open spec fn factor_read<F: Fn(Reading) -> Clamped>(
    clamp: &F,
    store: StoreView,
    staging: StagingView,
    entity_id: Seq<char>,
    name: Seq<char>,
    r: Result<FactorView, ErrorView>,
) -> bool {
    match rows::first_where(
        staged_list(store, staging.story_id, staging.pending, None, Seq::empty()),
        dice::is_entity(entity_id),
    ) {
        None => r == Err::<FactorView, ErrorView>(
            ErrorView::NotFound("entity "@ + entity_id + " not found in this story"@),
        ),
        Some(entity) => match factor_source(store, staging, entity_id, name) {
            FactorSource::Nowhere => r == Err::<FactorView, ErrorView>(
                ErrorView::NotFound("attribute "@ + name + " is not set on "@ + entity.name),
            ),
            FactorSource::Written(v) => exists|value: DoubleView|
                #[trigger] effective_from(
                    clamp,
                    v.value,
                    set_by_player(v.source),
                    staging.pending,
                    entity_id,
                    v.attribute_id,
                    value,
                ) && r == factor_with(entity, v.attribute_id, v.canonical_name, value, v.min, v.max),
            FactorSource::Staged(a) => exists|value: DoubleView|
                #[trigger] effective_value(clamp, store, staging, entity_id, a, value) && r == factor_with(
                    entity,
                    a.id,
                    a.canonical_name,
                    value,
                    a.min,
                    a.max,
                ),
        },
    }
}

/// Whether a value is one that the player set.
pub open spec fn set_by_player(source: Seq<char>) -> bool {
    source == attributes::USER@
}

/// The view of a result.
pub open spec fn factor_result(r: AppResult<RollFactor>) -> Result<FactorView, ErrorView> {
    match r {
        Ok(factor) => Ok(factor@),
        Err(e) => Err(e@),
    }
}

impl TurnStaging {
    /// A turn that has changed nothing yet.
    pub fn new(story_id: &str) -> (r: TurnStaging)
        ensures
            r@ == (StagingView {
                story_id: story_id@,
                pending: Seq::empty(),
                tool_calls: Seq::empty(),
            }),
    {
        let r = TurnStaging {
            story_id: story_id.to_string(),
            pending: Vec::new(),
            tool_calls: Vec::new(),
        };
        assert(r@.pending =~= Seq::empty());
        assert(r@.tool_calls =~= Seq::empty());
        r
    }

    /// The entities that are there for the rest of the turn; those that wait to be written
    /// down are taken as made at a given time.
    pub fn effective_entities_at(&self, store: &Store, entity_kind: Option<&str>, name: Option<&str>, now: &str) -> (r: Vec<
        Entity,
    >)
        ensures
            r.deep_view() == effective_list(store@, self@, entity_kind.deep_view(), name.deep_view(), now@),
    {
        let mut list = repository::list_entities_sync(store, self.story_id.as_str(), entity_kind);
        let ghost ops = self.pending.deep_view();
        let mut i: usize = 0;
        assert(ops.take(0) =~= Seq::empty());
        while i < self.pending.len()
            invariant
                0 <= i <= self.pending@.len(),
                ops == self.pending.deep_view(),
                list.deep_view() == staged_list(
                    store@,
                    self@.story_id,
                    ops.take(i as int),
                    entity_kind.deep_view(),
                    now@,
                ),
            decreases self.pending@.len() - i,
        {
            proof {
                assert(ops[i as int] == self.pending@[i as int]@);
                assert(ops.take(i + 1).drop_last() =~= ops.take(i as int));
                assert(ops.take(i + 1).last() == ops[i as int]);
            }
            take_step(&mut list, self.story_id.as_str(), entity_kind, now, &self.pending[i]);
            i += 1;
        }
        proof {
            rows::lemma_take_all(ops);
        }
        let ghost all = list.deep_view();
        let ghost p = tools::named_like(name.deep_view());
        let mut kept: Vec<Entity> = Vec::new();
        let mut k: usize = 0;
        assert(kept.deep_view() =~= all.take(0).filter(p)) by {
            reveal(Seq::filter);
        }
        while k < list.len()
            invariant
                0 <= k <= list@.len(),
                all == list.deep_view(),
                p == tools::named_like(name.deep_view()),
                kept.deep_view() == all.take(k as int).filter(p),
            decreases list@.len() - k,
        {
            let entity = &list[k];
            proof {
                assert(all[k as int] == entity@);
                rows::lemma_filter_step(all, p, k as int);
            }
            let asked_for = match name {
                Some(name) => text::eq_ignore_ascii_case(entity.name.as_str(), name),
                None => true,
            };
            if asked_for {
                let copy = entity.copy();
                let ghost before = kept;
                let ghost value = copy;
                kept.push(copy);
                proof {
                    rows::lemma_deep_push(before, kept, value);
                }
            }
            k += 1;
        }
        proof {
            rows::lemma_take_all(all);
        }
        kept
    }

    /// The entities that are there for the rest of the turn.
    pub fn effective_entities(&self, store: &Store, entity_kind: Option<&str>, name: Option<&str>) -> (r: Vec<
        Entity,
    >)
        ensures
            exists|now: Seq<char>|
                r.deep_view() == #[trigger] effective_list(
                    store@,
                    self@,
                    entity_kind.deep_view(),
                    name.deep_view(),
                    now,
                ),
    {
        let now = stamp::now();
        self.effective_entities_at(store, entity_kind, name, now.as_str())
    }

    /// The entity with an identifier that is there for the rest of the turn.
    pub fn find_effective_entity(&self, store: &Store, entity_id: &str) -> (r: Option<Entity>)
        ensures
            r.deep_view() == rows::first_where(
                staged_list(store@, self@.story_id, self@.pending, None, Seq::empty()),
                dice::is_entity(entity_id@),
            ),
    {
        proof {
            reveal_strlit("");
            assert(""@ =~= Seq::<char>::empty());
            lemma_all_named(staged_list(store@, self@.story_id, self@.pending, None, Seq::empty()));
        }
        let list = self.effective_entities_at(store, None, None, "");
        match dice::listed_position(&list, entity_id) {
            Some(i) => Some(list[i].copy()),
            None => None,
        }
    }

    /// The entity of a kind that has a name for the rest of the turn, whatever its case; a new
    /// one that waits to be written down where there is none.
    pub fn resolve_or_stage_entity(&mut self, store: &Store, entity_kind: &str, name: &str, appearance_anchor: Option<&str>) -> (r: (
        Entity,
        bool,
    ))
        ensures
            exists|now: Seq<char>| #[trigger]
                resolved_or_staged(
                    store@,
                    old(self)@,
                    final(self)@,
                    entity_kind@,
                    name@,
                    appearance_anchor.deep_view(),
                    now,
                    r.0@,
                    r.1,
                ),
    {
        let now = stamp::now();
        let list = self.effective_entities_at(store, Some(entity_kind), Some(name), now.as_str());
        if list.len() > 0 {
            let found = (list[0].copy(), false);
            assert(list.deep_view()[0] == found.0@);
            assert(resolved_or_staged(
                store@,
                old(self)@,
                self@,
                entity_kind@,
                name@,
                appearance_anchor.deep_view(),
                now@,
                found.0@,
                found.1,
            ));
            return found;
        }
        let id = stamp::fresh_id();
        let entity = Entity {
            id: id.clone(),
            story_id: self.story_id.clone(),
            kind: entity_kind.to_string(),
            name: name.to_string(),
            appearance_anchor: text::owned_option(appearance_anchor),
            created_at: now.clone(),
        };
        self.push_op(
            PendingOp::CreateEntity {
                id,
                kind: entity_kind.to_string(),
                name: name.to_string(),
                appearance_anchor: text::owned_option(appearance_anchor),
            },
        );
        let made = (entity, true);
        assert(resolved_or_staged(
            store@,
            old(self)@,
            self@,
            entity_kind@,
            name@,
            appearance_anchor.deep_view(),
            now@,
            made.0@,
            made.1,
        ));
        made
    }

    fn push_op(&mut self, op: PendingOp)
        ensures
            final(self)@ == (StagingView { pending: old(self)@.pending.push(op@), ..old(self)@ }),
    {
        let ghost before = self.pending;
        let ghost value = op;
        self.pending.push(op);
        proof {
            rows::lemma_deep_push(before, self.pending, value);
        }
    }

    /// The value that an attribute of an entity has for the rest of the turn, and whether the
    /// player set it.
    pub fn effective_attribute_state<F: Fn(Reading) -> Clamped>(
        &self,
        store: &Store,
        entity_id: &str,
        attribute: &AttributeRegistryEntry,
        clamp: &F,
    ) -> (r: (Double, bool))
        requires
            forall|reading: Reading| call_requires(clamp, (reading,)),
        ensures
            effective_value(clamp, store@, self@, entity_id@, attribute@, r.0@),
            r.1 == attributes::locked(store@, self@.story_id, entity_id@, attribute@.id),
    {
        let zero = double::zero();
        let (peeked, source) = attributes::peek_entity_attribute(
            store,
            self.story_id.as_str(),
            entity_id,
            attribute,
            &zero,
        );
        let (base, locked): (Double, bool) = match &source {
            Some(source) => (peeked, text::same_text(source.as_str(), attributes::USER)),
            None => {
                let reading = Reading {
                    stored: None,
                    min: attribute.min.copy(),
                    max: attribute.max.copy(),
                    delta: double::zero(),
                    dramatic: false,
                };
                let ghost asked = reading;
                let clamped = clamp(reading);
                let ghost given = clamped;
                assert(call_ensures(clamp, (asked,), given));
                (clamped.before, false)
            },
        };
        let ghost start = base@;
        assert(written_value(clamp, store@, self@.story_id, entity_id@, attribute@, start));
        let value = fold_pending_delta(
            base,
            entity_id,
            attribute.id.as_str(),
            &self.pending,
            locked,
            clamp,
        );
        (value, locked)
    }

    /// Notes a change of an attribute. The answer tells the value before, the value after, and
    /// whether anything changes: what the player set stays as it is.
    pub fn stage_attribute_delta<F: Fn(Reading) -> Clamped>(
        &mut self,
        store: &Store,
        entity_id: &str,
        attribute: AttributeRegistryEntry,
        delta: Double,
        cause: &str,
        dramatic: bool,
        clamp: &F,
    ) -> (r: (Double, Double, bool))
        requires
            forall|reading: Reading| call_requires(clamp, (reading,)),
        ensures
            effective_value(clamp, store@, old(self)@, entity_id@, attribute@, r.0@),
            r.2 == !attributes::locked(store@, old(self)@.story_id, entity_id@, attribute@.id),
            if r.2 {
                let op = OpView::AdjustAttribute {
                    entity_id: entity_id@,
                    attribute: attribute@,
                    delta: delta@,
                    cause: cause@,
                    dramatic,
                };
                &&& leads_to(clamp, r.0@, op, r.1@)
                &&& final(self)@ == (StagingView { pending: old(self)@.pending.push(op), ..old(self)@ })
            } else {
                r.1@ == r.0@ && final(self)@ == old(self)@
            },
    {
        let (before, locked) = self.effective_attribute_state(store, entity_id, &attribute, clamp);
        if locked {
            let same = before.copy();
            return (before, same, false);
        }
        let ghost op = OpView::AdjustAttribute {
            entity_id: entity_id@,
            attribute: attribute@,
            delta: delta@,
            cause: cause@,
            dramatic,
        };
        let reading = Reading {
            stored: Some(before.copy()),
            min: attribute.min.copy(),
            max: attribute.max.copy(),
            delta: delta.copy(),
            dramatic,
        };
        let ghost asked = reading;
        let clamped = clamp(reading);
        let ghost given = clamped;
        assert(call_ensures(clamp, (asked,), given) && asked@ == reading_at(before@, op));
        self.push_op(
            PendingOp::AdjustAttribute {
                entity_id: entity_id.to_string(),
                attribute,
                delta,
                cause: cause.to_string(),
                dramatic,
            },
        );
        (before, clamped.after, true)
    }

    /// Notes that an entity gets a name and a look.
    pub fn stage_entity_update(&mut self, id: String, name: String, appearance_anchor: Option<String>)
        ensures
            final(self)@ == (StagingView {
                pending: old(self)@.pending.push(
                    (OpView::UpdateEntity {
                        id: id@,
                        name: name@,
                        appearance_anchor: appearance_anchor.deep_view(),
                    }),
                ),
                ..old(self)@
            }),
    {
        self.push_op(PendingOp::UpdateEntity { id, name, appearance_anchor });
    }

    /// Notes a call of a tool.
    pub fn stage_tool_call(&mut self, tool: String, args: Json, result: Json, ok: bool, label: String)
        ensures
            final(self)@ == (StagingView {
                tool_calls: old(self)@.tool_calls.push(
                    (PendingToolCallView {
                        tool: tool@,
                        args: args@,
                        result: result@,
                        ok,
                        label: label@,
                    }),
                ),
                ..old(self)@
            }),
    {
        let ghost before = self.tool_calls;
        let call = PendingToolCall { tool, args, result, ok, label };
        let ghost value = call;
        self.tool_calls.push(call);
        proof {
            rows::lemma_deep_push(before, self.tool_calls, value);
        }
    }

    /// Rolls a check and notes it.
    pub fn stage_roll(&mut self, chance_percent: u8, reason: Option<String>, chance_source: &'static str, factors: Vec<RollFactor>) -> (r: RollOutcome)
        requires
            chance_percent <= 100,
        ensures
            dice::possible_outcome(chance_percent, r@),
            final(self)@ == (StagingView {
                pending: old(self)@.pending.push(
                    OpView::Roll(
                        PendingRollView {
                            output: r@,
                            reason: reason.deep_view(),
                            chance_source: chance_source@,
                            factors: factors.deep_view(),
                        },
                    ),
                ),
                ..old(self)@
            }),
    {
        let output = dice::resolve_roll(chance_percent);
        let noted = RollOutcome {
            chance_percent: output.chance_percent,
            seed: output.seed,
            roll: output.roll,
            needed: output.needed,
            outcome: output.outcome,
        };
        self.push_op(
            PendingOp::Roll(PendingRoll { output: noted, reason, chance_source, factors }),
        );
        output
    }

    /// The attribute that the turn has taken for a name.
    pub fn staged_attribute(&self, name: &str) -> (r: Option<AttributeRegistryEntry>)
        ensures
            r.deep_view() == staged_for(self@.pending, name@),
    {
        let needle = text::trim(name);
        let ghost ops = self.pending.deep_view();
        let ghost p = names_attribute(needle@);
        let mut i: usize = 0;
        while i < self.pending.len()
            invariant
                0 <= i <= self.pending@.len(),
                ops == self.pending.deep_view(),
                needle@ == text::trimmed(name@),
                p == names_attribute(needle@),
                forall|k: int| 0 <= k < i ==> !p(#[trigger] ops[k]),
            decreases self.pending@.len() - i,
        {
            assert(ops[i as int] == self.pending@[i as int]@);
            match &self.pending[i] {
                PendingOp::MintAttribute(attribute) => {
                    if text::eq_ignore_ascii_case(attribute.canonical_name.as_str(), needle.as_str()) {
                        proof {
                            rows::lemma_first_where_hit(ops, p, i as int);
                        }
                        return Some(attribute.copy());
                    }
                },
                PendingOp::AddAlias { attribute, alias } => {
                    if text::eq_ignore_ascii_case(alias.as_str(), needle.as_str()) {
                        proof {
                            rows::lemma_first_where_hit(ops, p, i as int);
                        }
                        return Some(attribute.copy());
                    }
                },
                _ => {},
            }
            i += 1;
        }
        proof {
            rows::lemma_first_where_miss(ops, p);
        }
        None
    }

    /// How far a proposed attribute can be told without comparing meanings: the turn's own
    /// choice goes before what is written.
    pub fn begin_resolution(&self, store: &Store, proposed_name: &str, entity_kind: &str) -> (r: AppResult<
        ResolutionStep,
    >)
        ensures
            match staged_for(self@.pending, proposed_name@) {
                Some(attribute) => r matches Ok(ResolutionStep::Done(AttributeResolution::Existing(entry)))
                    && entry@ == attribute,
                None => registry::named_step(
                    store@.registry,
                    proposed_name@,
                    entity_kind@,
                    self@.story_id,
                    r,
                ),
            },
    {
        if let Some(attribute) = self.staged_attribute(proposed_name) {
            return Ok(ResolutionStep::Done(AttributeResolution::Existing(attribute)));
        }
        registry::resolve_by_name(store, proposed_name, entity_kind, self.story_id.as_str())
    }

    /// Takes a proposed attribute as it was resolved, unless the turn has taken one for the
    /// name meanwhile; a new attribute or alias waits to be written down.
    pub fn stage_resolution(&mut self, proposed_name: &str, resolution: AttributeResolution) -> (r: AttributeRegistryEntry)
        ensures
            match staged_for(old(self)@.pending, proposed_name@) {
                Some(attribute) => r@ == attribute && final(self)@ == old(self)@,
                None => match resolution {
                    AttributeResolution::Existing(attribute) => r@ == attribute@ && final(self)@ == old(
                        self,
                    )@,
                    AttributeResolution::AddAlias { attribute, alias } => {
                        &&& r@ == attribute@
                        &&& final(self)@ == (StagingView {
                            pending: old(self)@.pending.push(
                                (OpView::AddAlias { attribute: attribute@, alias: alias@ }),
                            ),
                            ..old(self)@
                        })
                    },
                    AttributeResolution::Mint(attribute) => {
                        &&& r@ == attribute@
                        &&& final(self)@ == (StagingView {
                            pending: old(self)@.pending.push(OpView::MintAttribute(attribute@)),
                            ..old(self)@
                        })
                    },
                },
            },
    {
        if let Some(attribute) = self.staged_attribute(proposed_name) {
            return attribute;
        }
        match resolution {
            AttributeResolution::Existing(attribute) => attribute,
            AttributeResolution::AddAlias { attribute, alias } => {
                let copy = attribute.copy();
                self.push_op(PendingOp::AddAlias { attribute, alias });
                copy
            },
            AttributeResolution::Mint(attribute) => {
                let copy = attribute.copy();
                self.push_op(PendingOp::MintAttribute(attribute));
                copy
            },
        }
    }
}

fn spoken_of(ops: &Vec<PendingOp>, name: &str) -> (r: Option<String>)
    ensures
        match rows::last_where(ops.deep_view(), speaks_of(name@)) {
            Some(op) => r.deep_view() == Some(attribute_of(op).id),
            None => r is None,
        },
{
    let ghost all = ops.deep_view();
    let ghost p = speaks_of(name@);
    let mut i: usize = ops.len();
    while i > 0
        invariant
            0 <= i <= ops@.len(),
            all == ops.deep_view(),
            p == speaks_of(name@),
            forall|k: int| i <= k < all.len() ==> !p(#[trigger] all[k]),
        decreases i,
    {
        i -= 1;
        assert(all[i as int] == ops@[i as int]@);
        let found: Option<&AttributeRegistryEntry> = match &ops[i] {
            PendingOp::MintAttribute(attribute) => if text::eq_ignore_ascii_case(
                attribute.canonical_name.as_str(),
                name,
            ) {
                Some(attribute)
            } else {
                None
            },
            PendingOp::AdjustAttribute { attribute, .. } => if text::eq_ignore_ascii_case(
                attribute.canonical_name.as_str(),
                name,
            ) {
                Some(attribute)
            } else {
                None
            },
            PendingOp::AddAlias { attribute, alias } => if text::eq_ignore_ascii_case(alias.as_str(), name) {
                Some(attribute)
            } else {
                None
            },
            _ => None,
        };
        if let Some(attribute) = found {
            proof {
                rows::lemma_last_where_hit(all, p, i as int);
            }
            return Some(attribute.id.clone());
        }
    }
    proof {
        rows::lemma_last_where_miss(all, p);
    }
    None
}

fn last_change(ops: &Vec<PendingOp>, resolved: &Option<String>, entity_id: &str) -> (r: Option<AttributeRegistryEntry>)
    ensures
        match rows::last_where(ops.deep_view(), change_named(resolved.deep_view(), entity_id@)) {
            Some(op) => r.deep_view() == Some(attribute_of(op)),
            None => r is None,
        },
{
    let ghost all = ops.deep_view();
    let ghost p = change_named(resolved.deep_view(), entity_id@);
    let mut i: usize = ops.len();
    while i > 0
        invariant
            0 <= i <= ops@.len(),
            all == ops.deep_view(),
            p == change_named(resolved.deep_view(), entity_id@),
            forall|k: int| i <= k < all.len() ==> !p(#[trigger] all[k]),
        decreases i,
    {
        i -= 1;
        assert(all[i as int] == ops@[i as int]@);
        if let PendingOp::AdjustAttribute { entity_id: id, attribute, .. } = &ops[i] {
            let meant = match resolved {
                Some(known) => text::same_text(known.as_str(), attribute.id.as_str()),
                None => false,
            };
            if meant && text::same_text(id.as_str(), entity_id) {
                proof {
                    rows::lemma_last_where_hit(all, p, i as int);
                }
                return Some(attribute.copy());
            }
        }
    }
    proof {
        rows::lemma_last_where_miss(all, p);
    }
    None
}

fn named_position(values: &Vec<EntityAttributeValue>, resolved: &Option<String>, name: &str) -> (r: Option<usize>)
    ensures
        match r {
            Some(i) => i < values@.len() && rows::first_where(
                values.deep_view(),
                value_named(resolved.deep_view(), name@),
            ) == Some(values@[i as int]@),
            None => rows::first_where(values.deep_view(), value_named(resolved.deep_view(), name@)) is None,
        },
{
    let ghost p = value_named(resolved.deep_view(), name@);
    let meant = |row: &EntityAttributeValue| -> (b: bool)
        ensures
            b == p(row.deep_view()),
    {
        match resolved {
            Some(id) => text::same_text(id.as_str(), row.attribute_id.as_str()),
            None => text::eq_ignore_ascii_case(row.canonical_name.as_str(), name),
        }
    };
    rows::position(values, meant, Ghost(p))
}

fn build_factor(entity: Entity, attribute_id: String, attribute_name: String, value: Double, min: Double, max: Double) -> (r: AppResult<
    RollFactor,
>)
    ensures
        factor_result(r) == factor_with(entity@, attribute_id@, attribute_name@, value@, min@, max@),
{
    if !dice::is_sound(&value, &min, &max) {
        return Err(
            AppError::Invalid(
                text::concat4(
                    "invalid value or range for ",
                    entity.name.as_str(),
                    "'s ",
                    attribute_name.as_str(),
                ),
            ),
        );
    }
    Ok(
        RollFactor {
            entity_id: entity.id,
            entity_name: entity.name,
            attribute_id,
            attribute_name,
            value,
            min,
            max,
        },
    )
}

/// A value as the narrator reads it in the middle of a turn.
pub open spec fn snapshot_value(v: AttributeValueView, value: DoubleView) -> JsonView {
    JsonView::Object(
        seq![
            ("max"@, json::double_value(v.max)),
            ("min"@, json::double_value(v.min)),
            ("name"@, JsonView::Str(v.canonical_name)),
            ("value"@, json::double_value(value)),
        ],
    )
}

/// Whether an entry of a snapshot tells the value that an attribute has for the rest of the
/// turn.
pub open spec fn tells_value<F: Fn(Reading) -> Clamped>(
    clamp: &F,
    staging: StagingView,
    entity_id: Seq<char>,
    v: AttributeValueView,
    told: JsonView,
) -> bool {
    exists|value: DoubleView|
        #[trigger] effective_from(
            clamp,
            v.value,
            set_by_player(v.source),
            staging.pending,
            entity_id,
            v.attribute_id,
            value,
        ) && told == snapshot_value(v, value)
}

impl TurnStaging {
    /// A value that bears on a check, as it is for the rest of the turn.
    pub fn roll_factor<F: Fn(Reading) -> Clamped>(&self, store: &Store, entity_id: &str, attribute_name: &str, clamp: &F) -> (r: AppResult<
        RollFactor,
    >)
        requires
            forall|reading: Reading| call_requires(clamp, (reading,)),
        ensures
            factor_read(clamp, store@, self@, entity_id@, attribute_name@, factor_result(r)),
    {
        let entity = match self.find_effective_entity(store, entity_id) {
            Some(entity) => entity,
            None => {
                return Err(
                    AppError::NotFound(
                        text::concat3("entity ", entity_id, " not found in this story"),
                    ),
                );
            },
        };
        let resolved: Option<String> = match registry::find_exact_match(store, attribute_name) {
            Some(known) => Some(known.id),
            None => spoken_of(&self.pending, attribute_name),
        };
        assert(resolved.deep_view() == resolved_id(store@, self@.pending, attribute_name@));
        let values = attributes::list_entity_attributes_sync(store, self.story_id.as_str(), entity_id);
        if let Some(i) = named_position(&values, &resolved, attribute_name) {
            let v = &values[i];
            let value = fold_pending_delta(
                v.value.copy(),
                entity_id,
                v.attribute_id.as_str(),
                &self.pending,
                text::same_text(v.source.as_str(), attributes::USER),
                clamp,
            );
            assert(effective_from(
                clamp,
                v@.value,
                set_by_player(v@.source),
                self@.pending,
                entity_id@,
                v@.attribute_id,
                value@,
            ));
            return build_factor(
                entity,
                v.attribute_id.clone(),
                v.canonical_name.clone(),
                value,
                v.min.copy(),
                v.max.copy(),
            );
        }
        match last_change(&self.pending, &resolved, entity_id) {
            Some(attribute) => {
                let (value, _) = self.effective_attribute_state(store, entity_id, &attribute, clamp);
                assert(effective_value(clamp, store@, self@, entity_id@, attribute@, value@));
                build_factor(
                    entity,
                    attribute.id,
                    attribute.canonical_name,
                    value,
                    attribute.min,
                    attribute.max,
                )
            },
            None => Err(
                AppError::NotFound(
                    text::concat4(
                        "attribute ",
                        attribute_name,
                        " is not set on ",
                        entity.name.as_str(),
                    ),
                ),
            ),
        }
    }

    /// The values that the attributes of an entity have for the rest of the turn, of those that
    /// are written, as the narrator reads them.
    pub fn attribute_snapshot<F: Fn(Reading) -> Clamped>(&self, store: &Store, entity_id: &str, clamp: &F) -> (r: Vec<
        Json,
    >)
        requires
            forall|reading: Reading| call_requires(clamp, (reading,)),
        ensures
            ({
                let values = attributes::listed_values(store@, self@.story_id, entity_id@);
                &&& r@.len() == values.len()
                &&& forall|k: int|
                    0 <= k < values.len() ==> tells_value(
                        clamp,
                        self@,
                        entity_id@,
                        values[k],
                        (#[trigger] r@[k])@,
                    )
            }),
    {
        let values = attributes::list_entity_attributes_sync(store, self.story_id.as_str(), entity_id);
        let ghost all = values.deep_view();
        let mut out: Vec<Json> = Vec::new();
        let mut i: usize = 0;
        while i < values.len()
            invariant
                0 <= i <= values@.len(),
                all == values.deep_view(),
                forall|reading: Reading| call_requires(clamp, (reading,)),
                out@.len() == i,
                forall|k: int|
                    0 <= k < i ==> tells_value(clamp, self@, entity_id@, all[k], (#[trigger] out@[k])@),
            decreases values@.len() - i,
        {
            let v = &values[i];
            assert(all[i as int] == v@);
            let value = fold_pending_delta(
                v.value.copy(),
                entity_id,
                v.attribute_id.as_str(),
                &self.pending,
                text::same_text(v.source.as_str(), attributes::USER),
                clamp,
            );
            assert(effective_from(
                clamp,
                v@.value,
                set_by_player(v@.source),
                self@.pending,
                entity_id@,
                v@.attribute_id,
                value@,
            ));
            let told = Json::Object(
                vec![
                    json::pair("max", json::of_double(&v.max)),
                    json::pair("min", json::of_double(&v.min)),
                    json::pair("name", json::of_text(v.canonical_name.as_str())),
                    json::pair("value", json::of_double(&value)),
                ],
            );
            assert(told@->Object_0 =~= snapshot_value(v@, value@)->Object_0);
            out.push(told);
            i += 1;
        }
        out
    }

    /// The values of several entities' attributes for the rest of the turn, each list beside
    /// the entity that it was asked for.
    pub fn attribute_snapshot_for_entities<F: Fn(Reading) -> Clamped>(&self, store: &Store, entity_ids: &Vec<String>, clamp: &F) -> (r: Vec<
        (String, Vec<Json>),
    >)
        requires
            forall|reading: Reading| call_requires(clamp, (reading,)),
        ensures
            r@.len() == entity_ids@.len(),
            forall|i: int|
                0 <= i < r@.len() ==> (#[trigger] r@[i]).0@ == entity_ids@[i]@ && snapshot_of(
                    clamp,
                    store@,
                    self@,
                    entity_ids@[i]@,
                    r@[i].1.deep_view(),
                ),
    {
        let mut out: Vec<(String, Vec<Json>)> = Vec::new();
        let mut i: usize = 0;
        while i < entity_ids.len()
            invariant
                0 <= i <= entity_ids@.len(),
                forall|reading: Reading| call_requires(clamp, (reading,)),
                out@.len() == i,
                forall|k: int|
                    0 <= k < i ==> (#[trigger] out@[k]).0@ == entity_ids@[k]@ && snapshot_of(
                        clamp,
                        store@,
                        self@,
                        entity_ids@[k]@,
                        out@[k].1.deep_view(),
                    ),
            decreases entity_ids@.len() - i,
        {
            let snapshot = self.attribute_snapshot(store, entity_ids[i].as_str(), clamp);
            proof {
                let values = attributes::listed_values(store@, self@.story_id, entity_ids@[i as int]@);
                assert forall|k: int| 0 <= k < values.len() implies tells_value(
                    clamp,
                    self@,
                    entity_ids@[i as int]@,
                    values[k],
                    #[trigger] snapshot.deep_view()[k],
                ) by {
                    assert(snapshot.deep_view()[k] == snapshot@[k]@);
                }
            }
            out.push((entity_ids[i].clone(), snapshot));
            i += 1;
        }
        out
    }
}

/// Whether a list tells the values that the attributes of an entity have for the rest of the
/// turn, of those that are written, in the order of their names.
pub open spec fn snapshot_of<F: Fn(Reading) -> Clamped>(
    clamp: &F,
    store: StoreView,
    staging: StagingView,
    entity_id: Seq<char>,
    told: Seq<JsonView>,
) -> bool {
    let values = attributes::listed_values(store, staging.story_id, entity_id);
    &&& told.len() == values.len()
    &&& forall|k: int|
        0 <= k < values.len() ==> tells_value(clamp, staging, entity_id, values[k], #[trigger] told[k])
}

/// What looking for an entity by its name, or noting a new one, comes to.
pub open spec fn resolved_or_staged(
    store: StoreView,
    before: StagingView,
    after: StagingView,
    entity_kind: Seq<char>,
    name: Seq<char>,
    appearance_anchor: Option<Seq<char>>,
    now: Seq<char>,
    entity: EntityView,
    created: bool,
) -> bool {
    let present = effective_list(store, before, Some(entity_kind), Some(name), now);
    if present.len() > 0 {
        !created && entity == present[0] && after == before
    } else {
        &&& created
        &&& stamp::fresh_like(entity.id)
        &&& entity == (EntityView {
            id: entity.id,
            story_id: before.story_id,
            kind: entity_kind,
            name,
            appearance_anchor,
            created_at: now,
        })
        &&& after == (StagingView {
            pending: before.pending.push(
                OpView::CreateEntity { id: entity.id, kind: entity_kind, name, appearance_anchor },
            ),
            ..before
        })
    }
}

proof fn lemma_all_named(list: Seq<EntityView>)
    ensures
        list.filter(tools::named_like(None)) == list,
    decreases list.len(),
{
    reveal(Seq::filter);
    if list.len() > 0 {
        lemma_all_named(list.drop_last());
        assert(list.drop_last().push(list.last()) =~= list);
    } else {
        assert(list.filter(tools::named_like(None)) =~= list);
    }
}

/// Whether two lists hold the same entities but for the times at which they were made.
spec fn same_but_times(a: Seq<EntityView>, b: Seq<EntityView>) -> bool {
    a.len() == b.len() && forall|i: int|
        #![trigger a[i]]
        #![trigger b[i]]
        0 <= i < a.len() ==> b[i] == (EntityView { created_at: b[i].created_at, ..a[i] })
}

proof fn lemma_same_index(a: Seq<EntityView>, b: Seq<EntityView>, id: Seq<char>)
    requires
        same_but_times(a, b),
    ensures
        rows::first_index(a, dice::is_entity(id)) == rows::first_index(b, dice::is_entity(id)),
    decreases a.len(),
{
    reveal_with_fuel(rows::first_index, 2);
    if a.len() > 0 {
        assert(a[0].id == b[0].id);
        let (x, y) = (a.drop_first(), b.drop_first());
        assert forall|i: int| 0 <= i < x.len() implies #[trigger] y[i] == (EntityView {
            created_at: y[i].created_at,
            ..x[i]
        }) by {
            assert(b[i + 1] == (EntityView { created_at: b[i + 1].created_at, ..a[i + 1] }));
        }
        lemma_same_index(x, y, id);
    }
}

proof fn lemma_same_at_any_time(
    store: StoreView,
    story_id: Seq<char>,
    ops: Seq<OpView>,
    entity_kind: Option<Seq<char>>,
    now: Seq<char>,
    later: Seq<char>,
)
    ensures
        same_but_times(
            staged_list(store, story_id, ops, entity_kind, now),
            staged_list(store, story_id, ops, entity_kind, later),
        ),
    decreases ops.len(),
{
    if ops.len() > 0 {
        lemma_same_at_any_time(store, story_id, ops.drop_last(), entity_kind, now, later);
        let a = staged_list(store, story_id, ops.drop_last(), entity_kind, now);
        let b = staged_list(store, story_id, ops.drop_last(), entity_kind, later);
        if let OpView::UpdateEntity { id, .. } = ops.last() {
            lemma_same_index(a, b, id);
            rows::lemma_first_index(a, dice::is_entity(id));
        }
    }
}

/// An entity that was noted in a turn is what the rest of the turn finds by its kind and its name,
/// in whatever case of ASCII letters the name is asked for, and it is the only one.
pub proof fn law_staged_entity_is_found_again(
    store: StoreView,
    before: StagingView,
    after: StagingView,
    entity_kind: Seq<char>,
    name: Seq<char>,
    appearance_anchor: Option<Seq<char>>,
    now: Seq<char>,
    entity: EntityView,
    asked: Seq<char>,
    later: Seq<char>,
)
    requires
        resolved_or_staged(store, before, after, entity_kind, name, appearance_anchor, now, entity, true),
        text::same_ignoring_case(asked, name),
    ensures
        effective_list(store, after, Some(entity_kind), Some(asked), later) == seq![
            EntityView { created_at: later, ..entity },
        ],
{
    let p = tools::named_like(Some(name));
    let q = tools::named_like(Some(asked));
    let a = staged_list(store, before.story_id, before.pending, Some(entity_kind), now);
    let b = staged_list(store, before.story_id, before.pending, Some(entity_kind), later);
    lemma_same_at_any_time(store, before.story_id, before.pending, Some(entity_kind), now, later);
    assert forall|i: int| 0 <= i < b.len() implies !q(#[trigger] b[i]) by {
        if q(b[i]) {
            assert(p(a[i]));
            assert(a.contains(a[i]));
            rows::lemma_filter_member(a, p, a[i]);
            assert(a.filter(p).contains(a[i]));
        }
    }
    assert(b.filter(q).len() == 0) by {
        if b.filter(q).len() > 0 {
            let x = b.filter(q)[0];
            assert(b.filter(q).contains(x));
            rows::lemma_filter_member(b, q, x);
            assert(b.contains(x) && q(x));
        }
    }
    assert(after.pending.drop_last() =~= before.pending);
    let made = EntityView { created_at: later, ..entity };
    assert(staged_list(store, after.story_id, after.pending, Some(entity_kind), later) == b.push(made));
    reveal(Seq::filter);
    assert(b.push(made).drop_last() =~= b);
    assert(b.push(made).filter(q) =~= seq![made]);
}

} // verus!
