//! What the tables have of a turn after it was written down.

use vstd::prelude::*;

use super::commit;
use super::commit::{Progress, Scope};
use super::dice::FactorView;
use super::odds;
use super::staging::{OpView, PendingToolCallView, StagingView};
use crate::double;
use crate::entities::attributes::{Clamped, Reading};
use crate::entities::model::{Entity, RegistryView};
use crate::entities::{attributes, reads, registry, repository, values};
use crate::error::{AppResult, ErrorView};
use crate::json::JsonView;
use crate::store::StoreView;
use crate::{json, rows, text};

verus! {

/// Writing down a turn writes down each of its changes, one behind the other and none left out,
/// and then its calls, each as a hidden entry about the passage with what was asked, what came of
/// it, and what the player read meanwhile.
pub proof fn law_whole_turn_is_written<F: Fn(Reading) -> Clamped>(
    clamp: &F,
    scope: Scope,
    turn: StagingView,
    before: StoreView,
    after: StoreView,
) -> (steps: Seq<Progress>)
    requires
        commit::committed(clamp, scope, turn, before, after, None),
    ensures
        steps.len() == turn.pending.len() + 1,
        steps[0].store == before,
        steps[0].canonical.len() == 0,
        forall|i: int|
            #![trigger turn.pending[i]]
            0 <= i < turn.pending.len() ==> commit::op_step(
                clamp,
                scope,
                turn.pending[i],
                steps[i],
                steps[i + 1],
                None,
            ),
        ({
            let start = steps.last().store.entries;
            &&& after.entries.len() == start.len() + turn.tool_calls.len()
            &&& after.entries.take(start.len() as int) == start
            &&& forall|i: int|
                #![trigger turn.tool_calls[i]]
                0 <= i < turn.tool_calls.len() ==> {
                    let call = turn.tool_calls[i];
                    let entry = after.entries[start.len() + i];
                    &&& entry.story_id == scope.story_id
                    &&& entry.kind == "tool_call"@
                    &&& entry.visibility == "hidden"@
                    &&& entry.content == Some(call.label)
                    &&& entry.target_entry_id == Some(scope.passage_id)
                    &&& entry.turn_id == Some(scope.turn_id)
                    &&& json::field(entry.payload, "tool"@) == Some(JsonView::Str(call.tool))
                    &&& json::field(entry.payload, "args"@) == Some(call.args)
                    &&& json::field(entry.payload, "result"@) == Some(call.result)
                    &&& json::field(entry.payload, "ok"@) == Some(JsonView::Bool(call.ok))
                }
        }),
        after == (StoreView { entries: after.entries, stories: after.stories, ..steps.last().store }),
{
    let start = Progress { store: before, canonical: Seq::empty() };
    let (mid, broken) = choose|mid: Progress, broken: Option<ErrorView>|
        #[trigger] commit::ops_run(clamp, scope, turn.pending, start, mid, broken) && (if broken is Some {
            after == mid.store && None::<ErrorView> == broken
        } else {
            commit::calls_run(scope, turn.tool_calls, mid.store, after, None)
        });
    let steps = lemma_steps(clamp, scope, turn.pending, start, mid);
    lemma_calls(scope, turn.tool_calls, mid.store, after);
    steps
}

proof fn lemma_steps<F: Fn(Reading) -> Clamped>(clamp: &F, scope: Scope, ops: Seq<OpView>, before: Progress, after: Progress) -> (steps: Seq<
    Progress,
>)
    requires
        commit::ops_run(clamp, scope, ops, before, after, None),
    ensures
        steps.len() == ops.len() + 1,
        steps[0] == before,
        steps.last() == after,
        forall|i: int|
            #![trigger ops[i]]
            0 <= i < ops.len() ==> commit::op_step(clamp, scope, ops[i], steps[i], steps[i + 1], None),
    decreases ops.len(),
{
    if ops.len() == 0 {
        seq![before]
    } else {
        let mid = choose|mid: Progress|
            commit::ops_run(clamp, scope, ops.drop_last(), before, mid, None) && #[trigger] commit::op_step(
                clamp,
                scope,
                ops.last(),
                mid,
                after,
                None,
            );
        let front = lemma_steps(clamp, scope, ops.drop_last(), before, mid);
        let steps = front.push(after);
        assert forall|i: int|
            #![trigger ops[i]]
            0 <= i < ops.len() implies commit::op_step(clamp, scope, ops[i], steps[i], steps[i + 1], None) by {
            if i < ops.len() - 1 {
                assert(ops.drop_last()[i] == ops[i]);
                assert(steps[i] == front[i] && steps[i + 1] == front[i + 1]);
            } else {
                assert(steps[i] == front.last());
            }
        }
        steps
    }
}

proof fn lemma_calls(scope: Scope, calls: Seq<PendingToolCallView>, before: StoreView, after: StoreView)
    requires
        commit::calls_run(scope, calls, before, after, None),
    ensures
        after.entries.len() == before.entries.len() + calls.len(),
        after.entries.take(before.entries.len() as int) == before.entries,
        forall|i: int|
            #![trigger calls[i]]
            0 <= i < calls.len() ==> {
                let call = calls[i];
                let entry = after.entries[before.entries.len() + i];
                &&& entry.story_id == scope.story_id
                &&& entry.kind == "tool_call"@
                &&& entry.visibility == "hidden"@
                &&& entry.content == Some(call.label)
                &&& entry.target_entry_id == Some(scope.passage_id)
                &&& entry.turn_id == Some(scope.turn_id)
                &&& json::field(entry.payload, "tool"@) == Some(JsonView::Str(call.tool))
                &&& json::field(entry.payload, "args"@) == Some(call.args)
                &&& json::field(entry.payload, "result"@) == Some(call.result)
                &&& json::field(entry.payload, "ok"@) == Some(JsonView::Bool(call.ok))
            },
        after == (StoreView { entries: after.entries, stories: after.stories, ..before }),
    decreases calls.len(),
{
    if calls.len() > 0 {
        let mid = choose|mid: StoreView|
            commit::calls_run(scope, calls.drop_last(), before, mid, None) && #[trigger] commit::append_result(
                mid,
                after,
                commit::call_draft(scope, calls.last()),
                None,
            );
        lemma_calls(scope, calls.drop_last(), before, mid);
        let n = before.entries.len() as int;
        assert(after.entries =~= mid.entries.push(after.entries.last()));
        assert(after.entries.take(n) =~= mid.entries.take(n));
        lemma_call_payload(scope, calls.last());
        assert forall|i: int|
            #![trigger calls[i]]
            0 <= i < calls.len() implies ({
            let call = calls[i];
            let entry = after.entries[n + i];
            &&& entry.story_id == scope.story_id
            &&& entry.kind == "tool_call"@
            &&& entry.visibility == "hidden"@
            &&& entry.content == Some(call.label)
            &&& entry.target_entry_id == Some(scope.passage_id)
            &&& entry.turn_id == Some(scope.turn_id)
            &&& json::field(entry.payload, "tool"@) == Some(JsonView::Str(call.tool))
            &&& json::field(entry.payload, "args"@) == Some(call.args)
            &&& json::field(entry.payload, "result"@) == Some(call.result)
            &&& json::field(entry.payload, "ok"@) == Some(JsonView::Bool(call.ok))
        }) by {
            if i < calls.len() - 1 {
                assert(calls.drop_last()[i] == calls[i]);
                assert(after.entries[n + i] == mid.entries[n + i]);
            }
        }
    } else {
        assert(after.entries.take(before.entries.len() as int) =~= before.entries);
    }
}

proof fn lemma_call_payload(scope: Scope, call: PendingToolCallView)
    ensures
        ({
            let payload = commit::call_draft(scope, call).payload;
            &&& json::field(payload, "tool"@) == Some(JsonView::Str(call.tool))
            &&& json::field(payload, "args"@) == Some(call.args)
            &&& json::field(payload, "result"@) == Some(call.result)
            &&& json::field(payload, "ok"@) == Some(JsonView::Bool(call.ok))
        }),
{
    reveal_strlit("args");
    reveal_strlit("ok");
    reveal_strlit("result");
    reveal_strlit("tool");
    assert("args"@[0] == 'a');
    assert("ok"@[0] == 'o');
    assert("result"@[0] == 'r');
    assert("tool"@[0] == 't');
    reveal_with_fuel(rows::first_where, 5);
}

/// What an attribute that a turn speaks of turned out to be: the one that it was last settled as, or
/// itself where it was not settled.
pub open spec fn turned_out(canonical: Seq<(Seq<char>, Seq<char>)>, id: Seq<char>, settled: Seq<char>) -> bool {
    ||| exists|i: int|
        0 <= i < canonical.len() && (#[trigger] canonical[i]).0 == id && canonical[i].1 == settled && forall|j: int|
            i < j < canonical.len() ==> (#[trigger] canonical[j]).0 != id
    ||| settled == id && forall|i: int| 0 <= i < canonical.len() ==> (#[trigger] canonical[i]).0 != id
}

proof fn lemma_turned_out(canonical: Seq<(Seq<char>, Seq<char>)>, id: Seq<char>)
    ensures
        turned_out(canonical, id, commit::settled_id(canonical, id)),
        commit::canonical_of(canonical, id) is None ==> forall|i: int|
            0 <= i < canonical.len() ==> (#[trigger] canonical[i]).0 != id,
{
    let p = commit::minted_as(id);
    rows::lemma_last_where_places(canonical, p);
    match rows::last_where(canonical, p) {
        Some(pair) => {
            let i = choose|i: int|
                0 <= i < canonical.len() && #[trigger] canonical[i] == pair && p(canonical[i]) && forall|l: int|
                    i < l < canonical.len() ==> !p(#[trigger] canonical[l]);
            assert forall|j: int| i < j < canonical.len() implies (#[trigger] canonical[j]).0 != id by {
                assert(!p(canonical[j]));
            }
            assert(canonical[i].0 == id);
        },
        None => {
            assert forall|i: int| 0 <= i < canonical.len() implies (#[trigger] canonical[i]).0 != id by {
                assert(!p(canonical[i]));
            }
        },
    }
}

/// An entity that a turn made or changed is found, once it is written down, with the name and the
/// look that the turn gave it, and a hidden entry of the turn about the passage says so. What other
/// entities are is left alone.
pub proof fn law_written_entity_is_found<F: Fn(Reading) -> Clamped>(
    clamp: &F,
    scope: Scope,
    op: OpView,
    before: Progress,
    after: Progress,
)
    requires
        commit::op_step(clamp, scope, op, before, after, None),
    ensures
        match op {
            OpView::CreateEntity { id, kind, name, appearance_anchor } => {
                let found = repository::present_entity(after.store, scope.story_id, id);
                &&& found is Some
                &&& found->0.name == text::trimmed(name)
                &&& found->0.appearance_anchor == reads::look_kept(appearance_anchor)
                &&& (forall|i: int|
                    0 <= i < before.store.entities.len() ==> (#[trigger] before.store.entities[i]).id != id)
                    ==> found->0.kind == kind && found->0.story_id == scope.story_id
                &&& forall|s: Seq<char>, e: Seq<char>|
                    e != id ==> #[trigger] repository::present_entity(after.store, s, e) == repository::present_entity(
                        before.store,
                        s,
                        e,
                    )
                &&& after.store.attributes == before.store.attributes
                &&& reads::one_hidden_entry(
                    before.store,
                    after.store,
                    scope.story_id,
                    "entity_created"@,
                    Some(scope.passage_id),
                    Some(scope.turn_id),
                )
                &&& after.canonical == before.canonical
            },
            OpView::UpdateEntity { id, name, appearance_anchor } => {
                let found = repository::present_entity(after.store, scope.story_id, id);
                &&& found is Some
                &&& found->0.name == text::trimmed(name)
                &&& found->0.appearance_anchor == reads::look_kept(appearance_anchor)
                &&& forall|s: Seq<char>, e: Seq<char>|
                    !(s == scope.story_id && e == id) ==> #[trigger] repository::present_entity(after.store, s, e)
                        == repository::present_entity(before.store, s, e)
                &&& after.store.attributes == before.store.attributes
                &&& reads::one_hidden_entry(
                    before.store,
                    after.store,
                    scope.story_id,
                    "entity_updated"@,
                    Some(scope.passage_id),
                    Some(scope.turn_id),
                )
                &&& after.canonical == before.canonical
            },
            _ => true,
        },
{
    match op {
        OpView::CreateEntity { id, kind, name, appearance_anchor } => {
            let made = choose|made: AppResult<Entity>|
                #[trigger] repository::creation_outcome(
                    before.store,
                    after.store,
                    id,
                    repository::creation_draft(
                        id,
                        scope.story_id,
                        kind,
                        name,
                        appearance_anchor,
                        super::tools::NARRATOR_TOOL@,
                        Some(scope.passage_id),
                        Some(scope.turn_id),
                    ),
                    kind,
                    name,
                    appearance_anchor,
                    made,
                ) && None::<ErrorView> == commit::failure_of(made) && after.canonical == before.canonical;
            reads::law_created_entity_is_read_back(
                before.store,
                after.store,
                id,
                scope.story_id,
                kind,
                name,
                appearance_anchor,
                super::tools::NARRATOR_TOOL@,
                Some(scope.passage_id),
                Some(scope.turn_id),
                made,
            );
        },
        OpView::UpdateEntity { id, name, appearance_anchor } => {
            let made = choose|made: AppResult<Entity>|
                #[trigger] commit::update_ends(scope, op, before, after, made) && None::<ErrorView> == commit::failure_of(made);
            reads::law_update_is_read_back(
                before.store,
                after.store,
                scope.story_id,
                id,
                name,
                appearance_anchor,
                super::tools::NARRATOR_TOOL@,
                Some(scope.passage_id),
                Some(scope.turn_id),
                made,
            );
        },
        _ => {},
    }
}

/// A change of an attribute that a turn made is written down for the attribute that this turned out
/// to be: the arithmetic starts from the value that is kept, and gives the one that is kept
/// afterwards, unless the player set it, who has the last word.
pub proof fn law_written_change_is_kept<F: Fn(Reading) -> Clamped>(
    clamp: &F,
    scope: Scope,
    op: OpView,
    before: Progress,
    after: Progress,
) -> (settled: RegistryView)
    requires
        op is AdjustAttribute,
        forall|reading: Reading, clamped: Clamped|
            call_ensures(clamp, (reading,), clamped) ==> double::finite(clamped@.after.bits),
        commit::op_step(clamp, scope, op, before, after, None),
    ensures
        turned_out(before.canonical, op->AdjustAttribute_attribute.id, settled.id),
        ({
            let entity_id = op->AdjustAttribute_entity_id;
            let kept = attributes::stored_value(before.store, scope.story_id, entity_id, settled.id);
            let now = attributes::stored_value(after.store, scope.story_id, entity_id, settled.id);
            if kept is Some && kept->0.source == "user"@ {
                after.store == before.store
            } else {
                &&& exists|reading: Reading, clamped: Clamped|
                    {
                        &&& #[trigger] call_ensures(clamp, (reading,), clamped)
                        &&& reading@.stored == (match kept {
                            Some(row) => Some(row.value),
                            None => None,
                        })
                        &&& reading@.min == settled.min
                        &&& reading@.max == settled.max
                        &&& reading@.delta == op->AdjustAttribute_delta
                        &&& reading@.dramatic == op->AdjustAttribute_dramatic
                        &&& now is Some
                        &&& now->0.value == clamped@.after
                        &&& now->0.source == "inferred"@
                    }
                &&& values::only_value_changed(before.store, after.store, scope.story_id, entity_id, settled.id)
                &&& reads::one_hidden_entry(
                    before.store,
                    after.store,
                    scope.story_id,
                    "entity_attribute_changed"@,
                    Some(scope.passage_id),
                    Some(scope.turn_id),
                )
            }
        }),
        after.canonical == before.canonical,
{
    let entity_id = op->AdjustAttribute_entity_id;
    let attribute = op->AdjustAttribute_attribute;
    let settled = commit::settled_attribute(before, attribute)->Ok_0;
    lemma_turned_out(before.canonical, attribute.id);
    if commit::canonical_of(before.canonical, attribute.id) is Some {
        let id = commit::canonical_of(before.canonical, attribute.id)->0;
        let i = rows::lemma_first_where(before.store.registry, registry::attribute_id_is(id));
    }
    let (reading, clamped, made) = choose|reading: Reading, clamped: Clamped, made: AppResult<
        (crate::double::Double, crate::double::Double),
    >|
        #[trigger] call_ensures(clamp, (reading,), clamped) && #[trigger] commit::adjust_ends(
            scope,
            op,
            settled,
            reading@,
            clamped@,
            before,
            after,
            made,
        ) && None::<ErrorView> == commit::failure_of(made);
    values::law_inferred_change_is_read_back(
        before.store,
        after.store,
        scope.story_id,
        entity_id,
        settled,
        reading@,
        clamped@,
        op->AdjustAttribute_cause,
        scope.passage_id,
        Some(scope.turn_id),
        made,
    );
    assert(call_ensures(clamp, (reading,), clamped));
    settled
}

/// A check that a turn rolled is written down as it came out, with each of its factors in its order,
/// by the attribute that it turned out to be about and with the value that it was read with.
pub proof fn law_written_check_keeps_its_factors<F: Fn(Reading) -> Clamped>(
    clamp: &F,
    scope: Scope,
    op: OpView,
    before: Progress,
    after: Progress,
) -> (factors: Seq<FactorView>)
    requires
        op is Roll,
        op->Roll_0.output.chance_percent <= 100,
        super::dice::possible_outcome(op->Roll_0.output.chance_percent, op->Roll_0.output),
        commit::op_step(clamp, scope, op, before, after, None),
    ensures
        ({
            let roll = op->Roll_0;
            let payload = after.store.entries.last().payload;
            &&& factors.len() == roll.factors.len()
            &&& forall|i: int|
                #![trigger factors[i]]
                0 <= i < roll.factors.len() ==> {
                    let was = roll.factors[i];
                    &&& turned_out(before.canonical, was.attribute_id, factors[i].attribute_id)
                    &&& factors[i].entity_id == was.entity_id
                    &&& factors[i].entity_name == was.entity_name
                    &&& factors[i].value == was.value
                    &&& factors[i].min == was.min
                    &&& factors[i].max == was.max
                }
            &&& odds::tells_factors(payload, factors)
            &&& odds::tells_outcome(payload, roll.output.chance_percent)
            &&& json::field(payload, "roll"@) == Some(json::int_value(roll.output.roll))
            &&& json::field(payload, "seed"@) == Some(json::int_value(roll.output.seed))
            &&& json::text_field(payload, "reason"@) == roll.reason
            &&& json::text_field(payload, "chance_source"@) == Some(roll.chance_source)
            &&& after.store.entries == before.store.entries.push(after.store.entries.last())
            &&& after.store.entries.last().kind == "diceroll"@
            &&& after.store.entries.last().visibility == "hidden"@
            &&& after.store.entries.last().target_entry_id == Some(scope.passage_id)
            &&& after.store.entries.last().turn_id == Some(scope.turn_id)
            &&& after.canonical == before.canonical
        }),
{
    let roll = op->Roll_0;
    let factors = commit::settled_factors(before, roll.factors)->Ok_0;
    lemma_settled(before, roll.factors);
    odds::lemma_payload_tells(roll.output.chance_percent, roll.output, roll.reason, roll.chance_source, factors);
    odds::lemma_payload_numbers(roll.output, roll.reason, roll.chance_source, factors);
    factors
}

proof fn lemma_settled(at: Progress, factors: Seq<FactorView>)
    requires
        commit::settled_factors(at, factors) is Ok,
    ensures
        ({
            let settled = commit::settled_factors(at, factors)->Ok_0;
            &&& settled.len() == factors.len()
            &&& forall|i: int|
                #![trigger settled[i]]
                0 <= i < factors.len() ==> {
                    let was = factors[i];
                    &&& turned_out(at.canonical, was.attribute_id, settled[i].attribute_id)
                    &&& settled[i].entity_id == was.entity_id
                    &&& settled[i].entity_name == was.entity_name
                    &&& settled[i].value == was.value
                    &&& settled[i].min == was.min
                    &&& settled[i].max == was.max
                }
        }),
    decreases factors.len(),
{
    if factors.len() > 0 {
        lemma_settled(at, factors.drop_last());
        let front = commit::settled_factors(at, factors.drop_last())->Ok_0;
        let settled = commit::settled_factors(at, factors)->Ok_0;
        lemma_turned_out(at.canonical, factors.last().attribute_id);
        assert forall|i: int|
            #![trigger settled[i]]
            0 <= i < factors.len() implies ({
            let was = factors[i];
            &&& turned_out(at.canonical, was.attribute_id, settled[i].attribute_id)
            &&& settled[i].entity_id == was.entity_id
            &&& settled[i].entity_name == was.entity_name
            &&& settled[i].value == was.value
            &&& settled[i].min == was.min
            &&& settled[i].max == was.max
        }) by {
            if i < factors.len() - 1 {
                assert(settled[i] == front[i]);
                assert(factors.drop_last()[i] == factors[i]);
            }
        }
    }
}

/// An attribute that a turn minted turns out to be the one that goes by its name once it was
/// offered, and a name that a turn gave to an attribute is among its aliases from then on. No
/// attribute is lost, and no other one changes.
pub proof fn law_written_attribute_goes_by_its_name<F: Fn(Reading) -> Clamped>(
    clamp: &F,
    scope: Scope,
    op: OpView,
    before: Progress,
    after: Progress,
)
    requires
        commit::op_step(clamp, scope, op, before, after, None),
    ensures
        match op {
            OpView::MintAttribute(attribute) => {
                &&& after.canonical.len() == before.canonical.len() + 1
                &&& after.canonical.drop_last() == before.canonical
                &&& after.canonical.last().0 == attribute.id
                &&& exists|k: int|
                    #[trigger] odds::goes_by(after.store.registry, attribute.canonical_name, k)
                        && after.store.registry[k].id == after.canonical.last().1
                &&& after.store.registry == before.store.registry || after.store.registry
                    == before.store.registry.push(attribute)
                &&& after.store == (StoreView { registry: after.store.registry, ..before.store })
            },
            OpView::AddAlias { attribute, alias } => {
                &&& after.canonical == before.canonical
                &&& after.store == (StoreView { registry: after.store.registry, ..before.store })
                &&& after.store.registry.len() == before.store.registry.len()
                &&& exists|k: int|
                    0 <= k < before.store.registry.len() && turned_out(
                        before.canonical,
                        attribute.id,
                        (#[trigger] before.store.registry[k]).id,
                    ) && got_alias(before.store.registry[k], after.store.registry[k], alias) && (forall|i: int|
                        0 <= i < before.store.registry.len() && i != k ==> #[trigger] after.store.registry[i]
                            == before.store.registry[i])
            },
            _ => true,
        },
{
    match op {
        OpView::MintAttribute(attribute) => {
            let k = odds::lemma_goes_by(after.store.registry, attribute.canonical_name);
            assert(after.canonical.drop_last() =~= before.canonical);
        },
        OpView::AddAlias { attribute, alias } => {
            let id = commit::settled_id(before.canonical, attribute.id);
            lemma_turned_out(before.canonical, attribute.id);
            let p = registry::attribute_id_is(id);
            let k = rows::lemma_first_where(before.store.registry, p);
            let row = before.store.registry[k];
            rows::lemma_upserted_hit(before.store.registry, p, registry::aliased(row, alias), k);
            lemma_got_alias(row, alias);
            assert(after.store.registry == before.store.registry.update(k, registry::aliased(row, alias)));
            assert(turned_out(before.canonical, attribute.id, before.store.registry[k].id));
            assert(got_alias(before.store.registry[k], after.store.registry[k], alias));
        },
        _ => {},
    }
}

pub(crate) proof fn lemma_got_alias(row: RegistryView, alias: Seq<char>)
    ensures
        got_alias(row, registry::aliased(row, alias), alias),
{
    let had = aliases_read(row);
    assert(had == registry::aliases_of(row.aliases_json));
    if registry::holds_name(had, alias) {
        let i = choose|i: int| 0 <= i < had.len() && text::same_ignoring_case(#[trigger] had[i], alias);
        assert(text::same_ignoring_case(had[i], alias));
    }
    if is_among(had, alias) {
        let i = choose|i: int| 0 <= i < had.len() && text::same_ignoring_case(#[trigger] had[i], alias);
        assert(text::same_ignoring_case(had[i], alias));
    }
}

/// Whether a list has a name, whatever the case of its ASCII letters.
pub open spec fn is_among(had: Seq<Seq<char>>, alias: Seq<char>) -> bool {
    exists|i: int| 0 <= i < had.len() && text::same_ignoring_case(#[trigger] had[i], alias)
}

/// The aliases that an attribute has; none where they cannot be read.
pub open spec fn aliases_read(attribute: RegistryView) -> Seq<Seq<char>> {
    match json::parsed_list(attribute.aliases_json) {
        Some(aliases) => aliases,
        None => Seq::empty(),
    }
}

/// Whether an attribute got one more alias behind those that it had, or had it and is the same.
pub open spec fn got_alias(before: RegistryView, after: RegistryView, alias: Seq<char>) -> bool {
    if is_among(aliases_read(before), alias) {
        after == before
    } else {
        after == (RegistryView { aliases_json: json::printed_list(aliases_read(before).push(alias)), ..before })
    }
}

} // verus!
