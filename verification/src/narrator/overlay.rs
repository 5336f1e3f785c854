//! What a turn reads of the entities and values that it has changed and not yet written down.

use vstd::prelude::*;

use super::dice;
use super::dice::FactorView;
use super::odds;
use super::staging;
use super::staging::{OpView, StagingView};
use crate::double;
use crate::double::DoubleView;
use crate::entities::attributes::{Clamped, Reading};
use crate::entities::model::{AttributeValueView, EntityView, RegistryView};
use crate::entities::{attributes, registry, repository};
use crate::store::StoreView;
use crate::{rows, text};

verus! {

/// Whether the first entity with an identifier stands at a place of a list.
pub open spec fn first_at(list: Seq<EntityView>, id: Seq<char>, i: int) -> bool {
    &&& 0 <= i < list.len()
    &&& list[i].id == id
    &&& forall|j: int| 0 <= j < i ==> (#[trigger] list[j]).id != id
}

/// A turn that has changed nothing lists what the tables have. An entity that it makes comes behind
/// the others, where its kind is asked for; one that it changes is listed with the name and the
/// look that it was given; and nothing else that a turn does changes the list.
pub proof fn law_turn_lists_what_it_made_and_changed(
    store: StoreView,
    story_id: Seq<char>,
    ops: Seq<OpView>,
    entity_kind: Option<Seq<char>>,
    now: Seq<char>,
    op: OpView,
)
    ensures
        staging::staged_list(store, story_id, Seq::empty(), entity_kind, now) == repository::listed_entities(
            store,
            story_id,
            entity_kind,
        ),
        ({
            let before = staging::staged_list(store, story_id, ops, entity_kind, now);
            let after = staging::staged_list(store, story_id, ops.push(op), entity_kind, now);
            match op {
                OpView::CreateEntity { id, kind, name, appearance_anchor } => after == (if entity_kind is None
                    || entity_kind->0 == kind {
                    before.push(EntityView { id, story_id, kind, name, appearance_anchor, created_at: now })
                } else {
                    before
                }),
                OpView::UpdateEntity { id, name, appearance_anchor } => after.len() == before.len() && forall|i: int|
                    #![trigger after[i]]
                    0 <= i < before.len() ==> after[i] == (if first_at(before, id, i) {
                        EntityView { name, appearance_anchor, ..before[i] }
                    } else {
                        before[i]
                    }),
                _ => after == before,
            }
        }),
{
    assert(ops.push(op).drop_last() =~= ops);
    assert(ops.push(op).last() == op);
    let before = staging::staged_list(store, story_id, ops, entity_kind, now);
    let after = staging::staged_list(store, story_id, ops.push(op), entity_kind, now);
    if let OpView::UpdateEntity { id, name, appearance_anchor } = op {
        let p = dice::is_entity(id);
        rows::lemma_first_index(before, p);
        assert forall|i: int|
            #![trigger after[i]]
            0 <= i < before.len() implies after[i] == (if first_at(before, id, i) {
            EntityView { name, appearance_anchor, ..before[i] }
        } else {
            before[i]
        }) by {
            match rows::first_index(before, p) {
                Some(k) => {
                    assert forall|j: int| 0 <= j < k implies (#[trigger] before[j]).id != id by {
                        assert(!p(before[j]));
                    }
                    if first_at(before, id, i) && k < i {
                        assert(before[k].id != id);
                    }
                },
                None => {
                    assert(!p(before[i]));
                },
            }
        }
    }
}

/// The entities that a turn finds are those of its list that have the name that is asked for,
/// whatever the case of its ASCII letters, in their order.
pub proof fn law_turn_finds_by_name(
    store: StoreView,
    turn: StagingView,
    entity_kind: Option<Seq<char>>,
    name: Option<Seq<char>>,
    now: Seq<char>,
)
    ensures
        staging::effective_list(store, turn, entity_kind, name, now) == staging::staged_list(
            store,
            turn.story_id,
            turn.pending,
            entity_kind,
            now,
        ).filter(|e: EntityView| name is None || text::same_ignoring_case(e.name, name->0)),
{
    assert((|e: EntityView| name is None || text::same_ignoring_case(e.name, name->0))
        =~= super::tools::named_like(name));
}

/// Whether the arithmetic leads from a value to another by a change on a scale.
pub open spec fn moved<F: Fn(Reading) -> Clamped>(
    clamp: &F,
    from: DoubleView,
    scale: RegistryView,
    delta: DoubleView,
    dramatic: bool,
    to: DoubleView,
) -> bool {
    exists|reading: Reading, clamped: Clamped|
        {
            &&& #[trigger] call_ensures(clamp, (reading,), clamped)
            &&& reading@.stored == Some(from)
            &&& reading@.min == scale.min
            &&& reading@.max == scale.max
            &&& reading@.delta == delta
            &&& reading@.dramatic == dramatic
            &&& clamped@.after == to
        }
}

/// A value that the player set stays as it is in a turn. Any other one moves with each change that
/// the turn makes of this attribute of this entity, from where the changes before have left it, and
/// with nothing else that the turn does.
pub proof fn law_value_moves_with_each_change<F: Fn(Reading) -> Clamped>(
    clamp: &F,
    base: DoubleView,
    locked: bool,
    ops: Seq<OpView>,
    entity_id: Seq<char>,
    attribute_id: Seq<char>,
    op: OpView,
    value: DoubleView,
)
    ensures
        locked ==> (staging::effective_from(clamp, base, locked, ops, entity_id, attribute_id, value) <==> value
            == base),
        staging::effective_from(clamp, base, locked, Seq::empty(), entity_id, attribute_id, value) <==> value == base,
        !locked ==> (staging::effective_from(clamp, base, locked, ops.push(op), entity_id, attribute_id, value) <==> (
        match op {
            OpView::AdjustAttribute { entity_id: whose, attribute, delta, cause, dramatic } => if whose == entity_id
                && attribute.id == attribute_id {
                exists|mid: DoubleView|
                    #[trigger] staging::effective_from(clamp, base, locked, ops, entity_id, attribute_id, mid)
                        && moved(clamp, mid, attribute, delta, dramatic, value)
            } else {
                staging::effective_from(clamp, base, locked, ops, entity_id, attribute_id, value)
            },
            _ => staging::effective_from(clamp, base, locked, ops, entity_id, attribute_id, value),
        })),
{
    let all = ops.push(op);
    assert(all.drop_last() =~= ops);
    assert(all.last() == op);
    if !locked {
        if let OpView::AdjustAttribute { entity_id: whose, attribute, delta, cause, dramatic } = op {
            if whose == entity_id && attribute.id == attribute_id {
                assert(staging::adjusts(op, entity_id, attribute_id));
                assert forall|mid: DoubleView|
                    #[trigger] staging::leads_to(clamp, mid, op, value) <==> moved(
                        clamp,
                        mid,
                        attribute,
                        delta,
                        dramatic,
                        value,
                    ) by {
                    if staging::leads_to(clamp, mid, op, value) {
                        let (reading, clamped) = choose|reading: Reading, clamped: Clamped|
                            #[trigger] call_ensures(clamp, (reading,), clamped) && reading@ == staging::reading_at(
                                mid,
                                op,
                            ) && value == clamped@.after;
                        assert(call_ensures(clamp, (reading,), clamped));
                    }
                    if moved(clamp, mid, attribute, delta, dramatic, value) {
                        let (reading, clamped) = choose|reading: Reading, clamped: Clamped|
                            {
                                &&& #[trigger] call_ensures(clamp, (reading,), clamped)
                                &&& reading@.stored == Some(mid)
                                &&& reading@.min == attribute.min
                                &&& reading@.max == attribute.max
                                &&& reading@.delta == delta
                                &&& reading@.dramatic == dramatic
                                &&& clamped@.after == value
                            };
                        assert(reading@ == staging::reading_at(mid, op));
                    }
                }
                if staging::folded(clamp, base, all, entity_id, attribute_id, value) {
                    let mid = choose|mid: DoubleView|
                        staging::folded(clamp, base, ops, entity_id, attribute_id, mid) && #[trigger] staging::leads_to(
                            clamp,
                            mid,
                            op,
                            value,
                        );
                    assert(staging::effective_from(clamp, base, locked, ops, entity_id, attribute_id, mid));
                }
                if exists|mid: DoubleView|
                    #[trigger] staging::effective_from(clamp, base, locked, ops, entity_id, attribute_id, mid)
                        && moved(clamp, mid, attribute, delta, dramatic, value) {
                    let mid = choose|mid: DoubleView|
                        #[trigger] staging::effective_from(clamp, base, locked, ops, entity_id, attribute_id, mid)
                            && moved(clamp, mid, attribute, delta, dramatic, value);
                    assert(staging::leads_to(clamp, mid, op, value));
                    assert(staging::folded(clamp, base, all, entity_id, attribute_id, value));
                }
            }
        }
    }
}

/// The value that an attribute has in a turn starts from the one that is kept, or, where none is,
/// from the middle of the scale as the arithmetic gives it.
pub proof fn law_turn_starts_from_what_is_kept<F: Fn(Reading) -> Clamped>(
    clamp: &F,
    store: StoreView,
    turn: StagingView,
    entity_id: Seq<char>,
    attribute: RegistryView,
    value: DoubleView,
)
    requires
        staging::effective_value(clamp, store, turn, entity_id, attribute, value),
    ensures
        match attributes::stored_value(store, turn.story_id, entity_id, attribute.id) {
            Some(row) => staging::effective_from(
                clamp,
                row.value,
                row.source == "user"@,
                turn.pending,
                entity_id,
                attribute.id,
                value,
            ),
            None => exists|reading: Reading, clamped: Clamped|
                {
                    &&& #[trigger] call_ensures(clamp, (reading,), clamped)
                    &&& reading@.stored is None
                    &&& reading@.min == attribute.min
                    &&& reading@.max == attribute.max
                    &&& staging::effective_from(
                        clamp,
                        clamped@.before,
                        false,
                        turn.pending,
                        entity_id,
                        attribute.id,
                        value,
                    )
                },
        },
{
    let base = choose|base: DoubleView|
        #[trigger] staging::written_value(clamp, store, turn.story_id, entity_id, attribute, base)
            && staging::effective_from(
            clamp,
            base,
            attributes::locked(store, turn.story_id, entity_id, attribute.id),
            turn.pending,
            entity_id,
            attribute.id,
            value,
        );
    if attributes::stored_value(store, turn.story_id, entity_id, attribute.id) is None {
        assert(staging::is_midpoint(clamp, attribute, base));
        let (reading, clamped) = choose|reading: Reading, clamped: Clamped|
            #[trigger] call_ensures(clamp, (reading,), clamped) && reading@ == (crate::entities::attributes::ReadingView {
                stored: None,
                min: attribute.min,
                max: attribute.max,
                delta: double::zero_view(),
                dramatic: false,
            }) && base == clamped@.before;
        assert(call_ensures(clamp, (reading,), clamped));
    }
}

/// Whether a change of a turn brings in an attribute by a name, whatever the case of its letters.
pub open spec fn brings_in(op: OpView, name: Seq<char>, attribute: RegistryView) -> bool {
    match op {
        OpView::MintAttribute(minted) => minted == attribute && text::same_ignoring_case(
            attribute.canonical_name,
            name,
        ),
        OpView::AddAlias { attribute: known, alias } => known == attribute && text::same_ignoring_case(alias, name),
        _ => false,
    }
}

/// The attribute that a turn takes a name for is the first that it brought in by it, without the
/// whitespace around the name; where it brought in none, it takes the name for none.
pub proof fn law_turn_knows_what_it_brought_in(ops: Seq<OpView>, name: Seq<char>) -> (at: int)
    ensures
        match staging::staged_for(ops, name) {
            Some(attribute) => {
                &&& 0 <= at < ops.len()
                &&& brings_in(ops[at], text::trimmed(name), attribute)
                &&& forall|i: int, other: RegistryView|
                    0 <= i < at ==> !#[trigger] brings_in(ops[i], text::trimmed(name), other)
            },
            None => forall|i: int, other: RegistryView|
                0 <= i < ops.len() ==> !#[trigger] brings_in(ops[i], text::trimmed(name), other),
        },
{
    let p = staging::names_attribute(text::trimmed(name));
    let at = rows::lemma_first_where(ops, p);
    assert forall|i: int, other: RegistryView|
        0 <= i < ops.len() && #[trigger] brings_in(ops[i], text::trimmed(name), other) implies p(ops[i]) by {}
    at
}

/// A factor that is read in the middle of a turn is of an entity that the turn lists, and has the
/// value that the attribute has in the turn: of a value that is kept, with what the turn changed of
/// it, or of one that the turn alone has changed. The value lies on a scale that has an extent.
pub proof fn law_turn_reads_factors_as_they_are<F: Fn(Reading) -> Clamped>(
    clamp: &F,
    store: StoreView,
    turn: StagingView,
    entity_id: Seq<char>,
    name: Seq<char>,
    factor: FactorView,
)
    requires
        staging::factor_read(clamp, store, turn, entity_id, name, Ok(factor)),
    ensures
        factor.entity_id == entity_id,
        exists|i: int|
            #[trigger] first_at(
                staging::staged_list(store, turn.story_id, turn.pending, None, Seq::empty()),
                entity_id,
                i,
            ) && factor.entity_name == staging::staged_list(
                store,
                turn.story_id,
                turn.pending,
                None,
                Seq::empty(),
            )[i].name,
        double::finite(factor.value.bits) && double::finite(factor.min.bits) && double::finite(factor.max.bits),
        double::below(factor.min.bits, factor.max.bits),
        !double::below(factor.value.bits, factor.min.bits),
        !double::below(factor.max.bits, factor.value.bits),
        forall|k: int| #[trigger] odds::goes_by(store.registry, name, k) ==> factor.attribute_id == store.registry[k].id,
        (exists|v: AttributeValueView|
            #[trigger] attributes::listed_values(store, turn.story_id, entity_id).contains(v) && v.attribute_id
                == factor.attribute_id && v.canonical_name == factor.attribute_name && v.min == factor.min && v.max
                == factor.max && staging::effective_from(
                clamp,
                v.value,
                v.source == "user"@,
                turn.pending,
                entity_id,
                v.attribute_id,
                factor.value,
            )) || (exists|k: int|
            0 <= k < turn.pending.len() && changes_by(#[trigger] turn.pending[k], entity_id, factor)
                && staging::effective_value(
                clamp,
                store,
                turn,
                entity_id,
                turn.pending[k]->AdjustAttribute_attribute,
                factor.value,
            )),
{
    let list = staging::staged_list(store, turn.story_id, turn.pending, None, Seq::empty());
    let i = rows::lemma_first_where(list, dice::is_entity(entity_id));
    assert(first_at(list, entity_id, i)) by {
        assert forall|j: int| 0 <= j < i implies (#[trigger] list[j]).id != entity_id by {
            assert(!dice::is_entity(entity_id)(list[j]));
        }
    }
    let k = odds::lemma_goes_by(store.registry, name);
    let resolved = staging::resolved_id(store, turn.pending, name);
    let values = attributes::listed_values(store, turn.story_id, entity_id);
    let named = staging::value_named(resolved, name);
    let m = rows::lemma_first_where(values, named);
    match staging::factor_source(store, turn, entity_id, name) {
        staging::FactorSource::Nowhere => {},
        staging::FactorSource::Written(v) => {
            let value = choose|value: DoubleView|
                #[trigger] staging::effective_from(
                    clamp,
                    v.value,
                    staging::set_by_player(v.source),
                    turn.pending,
                    entity_id,
                    v.attribute_id,
                    value,
                ) && Ok::<FactorView, crate::error::ErrorView>(factor) == staging::factor_with(
                    list[i],
                    v.attribute_id,
                    v.canonical_name,
                    value,
                    v.min,
                    v.max,
                );
            assert(values.contains(values[m]));
            assert(named(values[m]));
        },
        staging::FactorSource::Staged(a) => {
            let value = choose|value: DoubleView|
                #[trigger] staging::effective_value(clamp, store, turn, entity_id, a, value) && Ok::<
                    FactorView,
                    crate::error::ErrorView,
                >(factor) == staging::factor_with(list[i], a.id, a.canonical_name, value, a.min, a.max);
            let q = staging::change_named(resolved, entity_id);
            rows::lemma_last_where_places(turn.pending, q);
            let op = rows::last_where(turn.pending, q)->0;
            let at = choose|j: int|
                0 <= j < turn.pending.len() && #[trigger] turn.pending[j] == op && q(turn.pending[j]) && forall|l: int|
                    j < l < turn.pending.len() ==> !q(#[trigger] turn.pending[l]);
            assert(q(turn.pending[at]));
            assert(changes_by(turn.pending[at], entity_id, factor));
        },
    }
}

/// Whether a change of a turn is of the attribute of an entity that a factor is read of.
pub open spec fn changes_by(op: OpView, entity_id: Seq<char>, factor: FactorView) -> bool {
    match op {
        OpView::AdjustAttribute { entity_id: whose, attribute, .. } => {
            &&& whose == entity_id
            &&& attribute.id == factor.attribute_id
            &&& attribute.canonical_name == factor.attribute_name
            &&& attribute.min == factor.min
            &&& attribute.max == factor.max
        },
        _ => false,
    }
}

} // verus!
