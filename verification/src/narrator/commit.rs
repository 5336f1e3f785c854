//! Writing down what a turn has changed, in the order in which it was changed.

use vstd::prelude::*;

use super::dice;
use super::dice::{FactorView, RollFactor, RollPayload};
use super::staging::{
    OpView,
    PendingOp,
    PendingRoll,
    PendingRollView,
    PendingToolCall,
    PendingToolCallView,
    StagingView,
    TurnStaging,
};
use super::tools;
use crate::double::Double;
use crate::entities::attributes;
use crate::entities::attributes::{Clamped, ClampedView, Reading, ReadingView};
use crate::entities::model::{Entity, RegistryView};
use crate::entities::registry;
use crate::entities::repository;
use crate::error::{AppError, AppResult, ErrorView};
use crate::json::{Json, JsonView};
use crate::ledger::kind;
use crate::ledger::model::HIDDEN;
use crate::ledger::repository as ledger;
use crate::ledger::repository::{Draft, DraftView};
use crate::store::{Store, StoreView};
use crate::{double, json, rows, text};

verus! {

/// The passage and the turn that changes are written down with.
#[verifier::ext_equal]
pub struct Scope {
    pub story_id: Seq<char>,
    pub passage_id: Seq<char>,
    pub turn_id: Seq<char>,
}

/// How far the changes of a turn are written down: the tables, and the attributes that those
/// which the turn minted turned out to be.
#[verifier::ext_equal]
pub struct Progress {
    pub store: StoreView,
    pub canonical: Seq<(Seq<char>, Seq<char>)>,
}

/// The condition of telling what a minted attribute turned out to be.
pub open spec fn minted_as(id: Seq<char>) -> spec_fn((Seq<char>, Seq<char>)) -> bool {
    |pair: (Seq<char>, Seq<char>)| pair.0 == id
}

/// What a minted attribute turned out to be.
pub open spec fn canonical_of(canonical: Seq<(Seq<char>, Seq<char>)>, id: Seq<char>) -> Option<Seq<char>> {
    match rows::last_where(canonical, minted_as(id)) {
        Some(pair) => Some(pair.1),
        None => None,
    }
}

/// What an identifier stands for among the attributes.
pub open spec fn settled_id(canonical: Seq<(Seq<char>, Seq<char>)>, id: Seq<char>) -> Seq<char> {
    match canonical_of(canonical, id) {
        Some(settled) => settled,
        None => id,
    }
}

/// The attribute that a change is made to.
pub open spec fn settled_attribute(at: Progress, attribute: RegistryView) -> Result<RegistryView, ErrorView> {
    match canonical_of(at.canonical, attribute.id) {
        Some(id) => match rows::first_where(at.store.registry, registry::attribute_id_is(id)) {
            Some(row) => Ok(row),
            None => Err(ErrorView::Db("Query returned no rows"@)),
        },
        None => Ok(attribute),
    }
}

/// A factor of a roll by the attribute that it turned out to be about, or why the roll cannot
/// stand: on another scale it would have come out differently.
pub open spec fn settled_factor(at: Progress, factor: FactorView) -> Result<FactorView, ErrorView> {
    match canonical_of(at.canonical, factor.attribute_id) {
        Some(id) => match rows::first_where(at.store.registry, registry::attribute_id_is(id)) {
            Some(row) => if double::equal(factor.min.bits, row.min.bits) && double::equal(
                factor.max.bits,
                row.max.bits,
            ) {
                Ok(FactorView { attribute_id: id, attribute_name: row.canonical_name, ..factor })
            } else {
                Err(
                    ErrorView::Invalid(
                        factor.entity_name + "'s attribute range changed while rolling; retry this turn"@,
                    ),
                )
            },
            None => Err(ErrorView::Db("Query returned no rows"@)),
        },
        None => Ok(factor),
    }
}

/// The factors of a roll by the attributes that they turned out to be about.
pub open spec fn settled_factors(at: Progress, factors: Seq<FactorView>) -> Result<Seq<FactorView>, ErrorView>
    decreases factors.len(),
{
    if factors.len() == 0 {
        Ok(Seq::empty())
    } else {
        match settled_factors(at, factors.drop_last()) {
            Err(e) => Err(e),
            Ok(front) => match settled_factor(at, factors.last()) {
                Err(e) => Err(e),
                Ok(factor) => Ok(front.push(factor)),
            },
        }
    }
}

/// What adding an entry with a new identifier at the present time comes to.
pub open spec fn append_result(before: StoreView, after: StoreView, draft: DraftView, failure: Option<ErrorView>) -> bool {
    match failure {
        None => {
            let entry = after.entries.last();
            &&& after.entries.len() > 0
            &&& ledger::append_refusal(before, entry.id, draft) is None
            &&& entry == ledger::drafted_entry(before, entry.id, entry.created_at, draft)
            &&& after == ledger::appended(before, entry)
        },
        Some(e) => after == before && ledger::append_failed(before, draft, e),
    }
}

/// Why something failed, if it did.
pub open spec fn failure_of<T>(r: AppResult<T>) -> Option<ErrorView> {
    match r {
        Ok(_) => None,
        Err(e) => Some(e@),
    }
}

/// What a roll is written down as.
pub open spec fn staged_roll_draft(scope: Scope, story_id: Seq<char>, pending: PendingRollView, factors: Seq<FactorView>) -> DraftView {
    dice::roll_draft(
        story_id,
        pending.output,
        pending.reason,
        pending.chance_source,
        factors,
        scope.passage_id,
        scope.turn_id,
    )
}

/// What writing down a roll comes to.
pub open spec fn roll_step(scope: Scope, pending: PendingRollView, before: Progress, after: Progress, failure: Option<ErrorView>) -> bool {
    match settled_factors(before, pending.factors) {
        Err(e) => after == before && failure == Some(e),
        Ok(factors) => match ledger::entry_with_id(before.store.entries, scope.passage_id) {
            None => after == before && failure == Some(
                ErrorView::NotFound("ledger entry "@ + scope.passage_id + " not found"@),
            ),
            Some(base) => {
                &&& after.canonical == before.canonical
                &&& append_result(
                    before.store,
                    after.store,
                    staged_roll_draft(scope, base.story_id, pending, factors),
                    failure,
                )
            },
        },
    }
}

/// Whether writing down a change of an attribute ends this way, by what the arithmetic gives.
pub open spec fn adjust_ends(
    scope: Scope,
    op: OpView,
    settled: RegistryView,
    reading: ReadingView,
    clamped: ClampedView,
    before: Progress,
    after: Progress,
    made: AppResult<(Double, Double)>,
) -> bool {
    &&& op matches OpView::AdjustAttribute { entity_id, attribute, delta, cause, dramatic }
    &&& reading == attributes::reading_for(
        before.store,
        scope.story_id,
        entity_id,
        settled,
        delta,
        dramatic,
    )
    &&& attributes::delta_outcome(
        before.store,
        after.store,
        scope.story_id,
        entity_id,
        settled,
        reading,
        clamped,
        cause,
        scope.passage_id,
        Some(scope.turn_id),
        made,
    )
    &&& after.canonical == before.canonical
}

/// What writing down a change of an attribute comes to.
pub open spec fn adjust_step<F: Fn(Reading) -> Clamped>(
    clamp: &F,
    scope: Scope,
    op: OpView,
    before: Progress,
    after: Progress,
    failure: Option<ErrorView>,
) -> bool {
    op matches OpView::AdjustAttribute { entity_id, attribute, delta, cause, dramatic } && match settled_attribute(
        before,
        attribute,
    ) {
        Err(e) => after == before && failure == Some(e),
        Ok(settled) => exists|reading: Reading, clamped: Clamped, made: AppResult<(Double, Double)>|
            #[trigger] call_ensures(clamp, (reading,), clamped) && #[trigger] adjust_ends(
                scope,
                op,
                settled,
                reading@,
                clamped@,
                before,
                after,
                made,
            ) && failure == failure_of(made),
    }
}

/// What writing down the creation of an entity comes to.
pub open spec fn create_step(scope: Scope, op: OpView, before: Progress, after: Progress, failure: Option<ErrorView>) -> bool {
    op matches OpView::CreateEntity { id, kind, name, appearance_anchor } && exists|made: AppResult<Entity>|
        #[trigger] repository::creation_outcome(
            before.store,
            after.store,
            id,
            repository::creation_draft(
                id,
                scope.story_id,
                kind,
                name,
                appearance_anchor,
                tools::NARRATOR_TOOL@,
                Some(scope.passage_id),
                Some(scope.turn_id),
            ),
            kind,
            name,
            appearance_anchor,
            made,
        ) && failure == failure_of(made) && after.canonical == before.canonical
}

/// Whether writing down the change of an entity ends this way.
pub open spec fn update_ends(scope: Scope, op: OpView, before: Progress, after: Progress, made: AppResult<Entity>) -> bool {
    &&& op matches OpView::UpdateEntity { id, name, appearance_anchor }
    &&& repository::update_outcome(
        before.store,
        after.store,
        scope.story_id,
        id,
        name,
        appearance_anchor,
        tools::NARRATOR_TOOL@,
        Some(scope.passage_id),
        Some(scope.turn_id),
        made,
    )
    &&& after.canonical == before.canonical
}

/// What writing down the change of an entity comes to.
pub open spec fn update_step(scope: Scope, op: OpView, before: Progress, after: Progress, failure: Option<ErrorView>) -> bool {
    exists|made: AppResult<Entity>| #[trigger] update_ends(scope, op, before, after, made) && failure == failure_of(made)
}

/// What writing down a minted attribute comes to: it turns out to be the one that is known by
/// its name.
pub open spec fn mint_step(attribute: RegistryView, before: Progress, after: Progress, failure: Option<ErrorView>) -> bool {
    let registry_after = registry::offered(before.store.registry, attribute);
    &&& after.store == (StoreView { registry: registry_after, ..before.store })
    &&& match registry::exact_match(registry_after, attribute.canonical_name) {
        Some(known) => failure is None && after.canonical == before.canonical.push((attribute.id, known.id)),
        None => failure == Some(
            ErrorView::Other(
                "minted attribute was not found after insert: "@ + attribute.canonical_name,
            ),
        ) && after.canonical == before.canonical,
    }
}

/// What writing down an alias comes to.
pub open spec fn alias_step(attribute: RegistryView, alias: Seq<char>, before: Progress, after: Progress, failure: Option<ErrorView>) -> bool {
    let id = settled_id(before.canonical, attribute.id);
    &&& after.canonical == before.canonical
    &&& match rows::first_where(before.store.registry, registry::attribute_id_is(id)) {
        Some(row) => failure is None && after.store == (StoreView {
            registry: rows::upserted(
                before.store.registry,
                registry::attribute_id_is(id),
                registry::aliased(row, alias),
            ),
            ..before.store
        }),
        None => failure == Some(ErrorView::Db("Query returned no rows"@)) && after.store == before.store,
    }
}

/// What writing down a change comes to.
pub open spec fn op_step<F: Fn(Reading) -> Clamped>(
    clamp: &F,
    scope: Scope,
    op: OpView,
    before: Progress,
    after: Progress,
    failure: Option<ErrorView>,
) -> bool {
    match op {
        OpView::MintAttribute(attribute) => mint_step(attribute, before, after, failure),
        OpView::AddAlias { attribute, alias } => alias_step(attribute, alias, before, after, failure),
        OpView::CreateEntity { .. } => create_step(scope, op, before, after, failure),
        OpView::UpdateEntity { .. } => update_step(scope, op, before, after, failure),
        OpView::AdjustAttribute { .. } => adjust_step(clamp, scope, op, before, after, failure),
        OpView::Roll(pending) => roll_step(scope, pending, before, after, failure),
    }
}

/// What writing down a run of changes comes to: each follows on the one before it, and the
/// first that fails ends the run.
pub open spec fn ops_run<F: Fn(Reading) -> Clamped>(
    clamp: &F,
    scope: Scope,
    ops: Seq<OpView>,
    before: Progress,
    after: Progress,
    failure: Option<ErrorView>,
) -> bool
    decreases ops.len(),
{
    if ops.len() == 0 {
        after == before && failure is None
    } else {
        ||| failure is Some && ops_run(clamp, scope, ops.drop_last(), before, after, failure)
        ||| exists|mid: Progress|
            ops_run(clamp, scope, ops.drop_last(), before, mid, None) && #[trigger] op_step(
                clamp,
                scope,
                ops.last(),
                mid,
                after,
                failure,
            )
    }
}

/// What a call of a tool is written down as.
pub open spec fn call_draft(scope: Scope, call: PendingToolCallView) -> DraftView {
    DraftView {
        story_id: scope.story_id,
        kind: kind::TOOL_CALL@,
        visibility: HIDDEN@,
        content: Some(call.label),
        payload: JsonView::Object(
            seq![
                ("args"@, call.args),
                ("ok"@, JsonView::Bool(call.ok)),
                ("result"@, call.result),
                ("tool"@, JsonView::Str(call.tool)),
            ],
        ),
        target_entry_id: Some(scope.passage_id),
        turn_id: Some(scope.turn_id),
    }
}

/// What writing down a run of calls comes to.
pub open spec fn calls_run(
    scope: Scope,
    calls: Seq<PendingToolCallView>,
    before: StoreView,
    after: StoreView,
    failure: Option<ErrorView>,
) -> bool
    decreases calls.len(),
{
    if calls.len() == 0 {
        after == before && failure is None
    } else {
        ||| failure is Some && calls_run(scope, calls.drop_last(), before, after, failure)
        ||| exists|mid: StoreView|
            calls_run(scope, calls.drop_last(), before, mid, None) && #[trigger] append_result(
                mid,
                after,
                call_draft(scope, calls.last()),
                failure,
            )
    }
}

/// What writing down a turn comes to: its changes in their order, then its calls.
pub open spec fn committed<F: Fn(Reading) -> Clamped>(
    clamp: &F,
    scope: Scope,
    staging: StagingView,
    before: StoreView,
    after: StoreView,
    failure: Option<ErrorView>,
) -> bool {
    let start = Progress { store: before, canonical: Seq::empty() };
    exists|mid: Progress, broken: Option<ErrorView>|
        #[trigger] ops_run(clamp, scope, staging.pending, start, mid, broken) && (if broken is Some {
            after == mid.store && failure == broken
        } else {
            calls_run(scope, staging.tool_calls, mid.store, after, failure)
        })
}

fn find_canonical(canonical: &Vec<(String, String)>, id: &str) -> (r: Option<String>)
    ensures
        r.deep_view() == canonical_of(canonical.deep_view(), id@),
{
    let ghost all = canonical.deep_view();
    let ghost p = minted_as(id@);
    let mut i: usize = canonical.len();
    while i > 0
        invariant
            0 <= i <= canonical@.len(),
            all == canonical.deep_view(),
            p == minted_as(id@),
            forall|k: int| i <= k < all.len() ==> !p(#[trigger] all[k]),
        decreases i,
    {
        i -= 1;
        assert(all[i as int] == canonical@[i as int].deep_view());
        if text::same_text(canonical[i].0.as_str(), id) {
            proof {
                rows::lemma_last_where_hit(all, p, i as int);
            }
            return Some(canonical[i].1.clone());
        }
    }
    proof {
        rows::lemma_last_where_miss(all, p);
    }
    None
}

proof fn lemma_first_unsettled(at: Progress, factors: Seq<FactorView>, i: int)
    requires
        0 <= i < factors.len(),
        settled_factors(at, factors.take(i)) is Ok,
        settled_factor(at, factors[i]) is Err,
    ensures
        settled_factors(at, factors) == Err::<Seq<FactorView>, ErrorView>(
            settled_factor(at, factors[i])->Err_0,
        ),
    decreases factors.len(),
{
    if i == factors.len() - 1 {
        assert(factors.drop_last() =~= factors.take(i));
    } else {
        let t = factors.drop_last();
        assert(t.take(i) =~= factors.take(i));
        lemma_first_unsettled(at, t, i);
    }
}

fn settle_factor(store: &Store, canonical: &Vec<(String, String)>, factor: &RollFactor) -> (r: AppResult<RollFactor>)
    ensures
        match settled_factor(Progress { store: store@, canonical: canonical.deep_view() }, factor@) {
            Ok(settled) => r is Ok && r->Ok_0@ == settled,
            Err(e) => r is Err && r->Err_0@ == e,
        },
{
    let id = match find_canonical(canonical, factor.attribute_id.as_str()) {
        Some(id) => id,
        None => {
            return Ok(factor.copy());
        },
    };
    let row = match registry::find_attribute_by_id(store, id.as_str()) {
        Ok(row) => row,
        Err(e) => {
            return Err(e);
        },
    };
    if !double::bits_equal(factor.min.bits, row.min.bits) || !double::bits_equal(
        factor.max.bits,
        row.max.bits,
    ) {
        return Err(
            AppError::Invalid(
                text::concat2(
                    factor.entity_name.as_str(),
                    "'s attribute range changed while rolling; retry this turn",
                ),
            ),
        );
    }
    let mut settled = factor.copy();
    settled.attribute_id = id;
    settled.attribute_name = row.canonical_name;
    Ok(settled)
}

fn settle_factors(store: &Store, canonical: &Vec<(String, String)>, factors: &Vec<RollFactor>) -> (r: AppResult<
    Vec<RollFactor>,
>)
    ensures
        match settled_factors(
            Progress { store: store@, canonical: canonical.deep_view() },
            factors.deep_view(),
        ) {
            Ok(settled) => r is Ok && r->Ok_0.deep_view() == settled,
            Err(e) => r is Err && r->Err_0@ == e,
        },
{
    let ghost all = factors.deep_view();
    let ghost at = Progress { store: store@, canonical: canonical.deep_view() };
    let mut out: Vec<RollFactor> = Vec::new();
    let mut i: usize = 0;
    assert(out.deep_view() =~= Seq::empty());
    while i < factors.len()
        invariant
            0 <= i <= factors@.len(),
            all == factors.deep_view(),
            at == (Progress { store: store@, canonical: canonical.deep_view() }),
            settled_factors(at, all.take(i as int)) == Ok::<Seq<FactorView>, ErrorView>(out.deep_view()),
        decreases factors@.len() - i,
    {
        proof {
            assert(all[i as int] == factors@[i as int]@);
            assert(all.take(i + 1).drop_last() =~= all.take(i as int));
            assert(all.take(i + 1).last() == all[i as int]);
        }
        match settle_factor(store, canonical, &factors[i]) {
            Ok(settled) => {
                let ghost before = out;
                let ghost value = settled;
                out.push(settled);
                proof {
                    rows::lemma_deep_push(before, out, value);
                }
            },
            Err(e) => {
                proof {
                    lemma_first_unsettled(at, all, i as int);
                }
                return Err(e);
            },
        }
        i += 1;
    }
    proof {
        rows::lemma_take_all(all);
    }
    Ok(out)
}

fn persist_roll(
    store: &mut Store,
    canonical: &Vec<(String, String)>,
    passage_id: &str,
    turn_id: &str,
    pending: &PendingRoll,
    Ghost(scope): Ghost<Scope>,
) -> (r: AppResult<()>)
    requires
        scope.passage_id == passage_id@,
        scope.turn_id == turn_id@,
    ensures
        roll_step(
            scope,
            pending@,
            Progress { store: old(store)@, canonical: canonical.deep_view() },
            Progress { store: final(store)@, canonical: canonical.deep_view() },
            failure_of(r),
        ),
{
    let factors = match settle_factors(store, canonical, &pending.factors) {
        Ok(factors) => factors,
        Err(e) => {
            return Err(e);
        },
    };
    let base = match ledger::get_entry(store, passage_id) {
        Ok(base) => base,
        Err(e) => {
            return Err(e);
        },
    };
    let content = dice::roll_content(&pending.output);
    let payload = RollPayload {
        chance_percent: pending.output.chance_percent,
        roll: pending.output.roll,
        needed: pending.output.needed,
        outcome: pending.output.outcome,
        reason: text::copy_option(&pending.reason),
        chance_source: Some(pending.chance_source),
        factors,
        seed: pending.output.seed,
    };
    let written = payload.to_json();
    let draft = Draft {
        story_id: base.story_id.as_str(),
        kind: kind::DICEROLL,
        visibility: HIDDEN,
        content: Some(content.as_str()),
        payload: &written,
        target_entry_id: Some(passage_id),
        turn_id: Some(turn_id),
    };
    proof {
        assert(payload.outcome_view() == pending.output@);
        assert(draft@ == staged_roll_draft(scope, base@.story_id, pending@, factors.deep_view()));
    }
    match ledger::append_draft(store, &draft) {
        Ok(_) => Ok(()),
        Err(e) => Err(e),
    }
}

fn run_update(
    store: &mut Store,
    story_id: &str,
    id: &String,
    name: &String,
    appearance_anchor: &Option<String>,
    passage_id: &str,
    turn_id: &str,
    Ghost(canonical): Ghost<Seq<(Seq<char>, Seq<char>)>>,
) -> (r: AppResult<()>)
    ensures
        update_step(
            (Scope { story_id: story_id@, passage_id: passage_id@, turn_id: turn_id@ }),
            (OpView::UpdateEntity {
                id: id@,
                name: name@,
                appearance_anchor: appearance_anchor.deep_view(),
            }),
            (Progress { store: old(store)@, canonical }),
            (Progress { store: final(store)@, canonical }),
            failure_of(r),
        ),
{
    let ghost before = store@;
    let made = repository::update_entity_in_turn(
        store,
        story_id,
        id.as_str(),
        name.as_str(),
        text::borrowed_option(appearance_anchor),
        tools::NARRATOR_TOOL,
        Some(passage_id),
        Some(turn_id),
    );
    let ghost result = made;
    let r: AppResult<()> = match made {
        Ok(_) => Ok(()),
        Err(e) => Err(e),
    };
    proof {
        assert(Some(passage_id).deep_view() == Some(passage_id@));
        assert(Some(turn_id).deep_view() == Some(turn_id@));
        assert(repository::update_outcome(
            before,
            store@,
            story_id@,
            id@,
            name@,
            appearance_anchor.deep_view(),
            tools::NARRATOR_TOOL@,
            Some(passage_id@),
            Some(turn_id@),
            result,
        ));
        assert(update_ends(
            Scope { story_id: story_id@, passage_id: passage_id@, turn_id: turn_id@ },
            OpView::UpdateEntity { id: id@, name: name@, appearance_anchor: appearance_anchor.deep_view() },
            Progress { store: before, canonical },
            Progress { store: store@, canonical },
            result,
        ));
    }
    r
}

fn run_adjust<F: Fn(Reading) -> Clamped>(
    store: &mut Store,
    canonical: &Vec<(String, String)>,
    story_id: &str,
    passage_id: &str,
    turn_id: &str,
    op: &PendingOp,
    clamp: &F,
) -> (r: AppResult<()>)
    requires
        op@ is AdjustAttribute,
        forall|reading: Reading| call_requires(clamp, (reading,)),
    ensures
        adjust_step(
            clamp,
            (Scope { story_id: story_id@, passage_id: passage_id@, turn_id: turn_id@ }),
            op@,
            (Progress { store: old(store)@, canonical: canonical.deep_view() }),
            (Progress { store: final(store)@, canonical: canonical.deep_view() }),
            failure_of(r),
        ),
{
    let ghost before = store@;
    match op {
        PendingOp::AdjustAttribute { entity_id, attribute, delta, cause, dramatic } => {
            let settled = match find_canonical(canonical, attribute.id.as_str()) {
                Some(id) => match registry::find_attribute_by_id(store, id.as_str()) {
                    Ok(row) => row,
                    Err(e) => {
                        return Err(e);
                    },
                },
                None => attribute.copy(),
            };
            let made = attributes::apply_attribute_delta(
                store,
                story_id,
                entity_id.as_str(),
                &settled,
                delta,
                cause.as_str(),
                passage_id,
                *dramatic,
                Some(turn_id),
                clamp,
            );
            let ghost result = made;
            proof {
                assert(Some(turn_id).deep_view() == Some(turn_id@));
                let (reading, clamped) = choose|reading: Reading, clamped: Clamped|
                    #[trigger] call_ensures(clamp, (reading,), clamped) && reading@
                        == attributes::reading_for(
                        before,
                        story_id@,
                        entity_id@,
                        settled@,
                        delta@,
                        *dramatic,
                    ) && attributes::delta_outcome(
                        before,
                        store@,
                        story_id@,
                        entity_id@,
                        settled@,
                        reading@,
                        clamped@,
                        cause@,
                        passage_id@,
                        Some(turn_id@),
                        result,
                    );
                assert(call_ensures(clamp, (reading,), clamped));
                assert(adjust_ends(
                    Scope { story_id: story_id@, passage_id: passage_id@, turn_id: turn_id@ },
                    op@,
                    settled@,
                    reading@,
                    clamped@,
                    Progress { store: before, canonical: canonical.deep_view() },
                    Progress { store: store@, canonical: canonical.deep_view() },
                    result,
                ));
            }
            match made {
                Ok(_) => Ok(()),
                Err(e) => Err(e),
            }
        },
        _ => Ok(()),
    }
}

/// Writes down a change.
pub(crate) fn run_op<F: Fn(Reading) -> Clamped>(
    store: &mut Store,
    canonical: &mut Vec<(String, String)>,
    story_id: &str,
    passage_id: &str,
    turn_id: &str,
    op: &PendingOp,
    clamp: &F,
) -> (r: AppResult<()>)
    requires
        forall|reading: Reading| call_requires(clamp, (reading,)),
    ensures
        op_step(
            clamp,
            (Scope { story_id: story_id@, passage_id: passage_id@, turn_id: turn_id@ }),
            op@,
            (Progress { store: old(store)@, canonical: old(canonical).deep_view() }),
            (Progress { store: final(store)@, canonical: final(canonical).deep_view() }),
            failure_of(r),
        ),
{
    let ghost scope = Scope { story_id: story_id@, passage_id: passage_id@, turn_id: turn_id@ };
    let ghost start = Progress { store: store@, canonical: canonical.deep_view() };
    assert(Some(passage_id).deep_view() == Some(passage_id@));
    assert(Some(turn_id).deep_view() == Some(turn_id@));
    match op {
        PendingOp::MintAttribute(attribute) => match registry::insert_minted_attribute(store, attribute) {
            Ok(id) => {
                let ghost before = *canonical;
                let pair = (attribute.id.clone(), id);
                let ghost value = pair;
                canonical.push(pair);
                proof {
                    rows::lemma_deep_push(before, *canonical, value);
                }
                Ok(())
            },
            Err(e) => Err(e),
        },
        PendingOp::AddAlias { attribute, alias } => {
            let id = match find_canonical(canonical, attribute.id.as_str()) {
                Some(id) => id,
                None => attribute.id.clone(),
            };
            registry::add_alias(store, id.as_str(), alias.as_str())
        },
        PendingOp::CreateEntity { id, kind, name, appearance_anchor } => {
            let made = repository::create_entity_with_id_in_turn(
                store,
                id.as_str(),
                story_id,
                kind.as_str(),
                name.as_str(),
                text::borrowed_option(appearance_anchor),
                tools::NARRATOR_TOOL,
                Some(passage_id),
                Some(turn_id),
            );
            let ghost result = made;
            let r: AppResult<()> = match made {
                Ok(_) => Ok(()),
                Err(e) => Err(e),
            };
            proof {
                let after = Progress { store: store@, canonical: canonical.deep_view() };
                assert(repository::creation_outcome(
                    start.store,
                    after.store,
                    id@,
                    repository::creation_draft(
                        id@,
                        scope.story_id,
                        kind@,
                        name@,
                        appearance_anchor.deep_view(),
                        tools::NARRATOR_TOOL@,
                        Some(scope.passage_id),
                        Some(scope.turn_id),
                    ),
                    kind@,
                    name@,
                    appearance_anchor.deep_view(),
                    result,
                ));
                assert(create_step(scope, op@, start, after, failure_of(r)));
            }
            r
        },
        PendingOp::UpdateEntity { id, name, appearance_anchor } => run_update(
            store,
            story_id,
            id,
            name,
            appearance_anchor,
            passage_id,
            turn_id,
            Ghost(start.canonical),
        ),
        PendingOp::AdjustAttribute { entity_id, attribute, delta, cause, dramatic } => run_adjust(
            store,
            canonical,
            story_id,
            passage_id,
            turn_id,
            op,
            clamp,
        ),
        PendingOp::Roll(pending) => persist_roll(store, canonical, passage_id, turn_id, pending, Ghost(scope)),
    }
}

fn run_call(store: &mut Store, story_id: &str, passage_id: &str, turn_id: &str, call: &PendingToolCall) -> (r: AppResult<()>)
    ensures
        append_result(
            old(store)@,
            final(store)@,
            call_draft(
                (Scope { story_id: story_id@, passage_id: passage_id@, turn_id: turn_id@ }),
                call@,
            ),
            failure_of(r),
        ),
{
    let ghost scope = Scope { story_id: story_id@, passage_id: passage_id@, turn_id: turn_id@ };
    let payload = Json::Object(
        vec![
            json::pair("args", call.args.copy()),
            json::pair("ok", json::of_bool(call.ok)),
            json::pair("result", call.result.copy()),
            json::pair("tool", json::of_text(call.tool.as_str())),
        ],
    );
    assert(payload@->Object_0 =~= call_draft(scope, call@).payload->Object_0);
    let draft = Draft {
        story_id,
        kind: kind::TOOL_CALL,
        visibility: HIDDEN,
        content: Some(call.label.as_str()),
        payload: &payload,
        target_entry_id: Some(passage_id),
        turn_id: Some(turn_id),
    };
    assert(draft@ == call_draft(scope, call@));
    match ledger::append_draft(store, &draft) {
        Ok(_) => Ok(()),
        Err(e) => Err(e),
    }
}

proof fn lemma_ops_failed<F: Fn(Reading) -> Clamped>(
    clamp: &F,
    scope: Scope,
    ops: Seq<OpView>,
    n: int,
    before: Progress,
    after: Progress,
    failure: Option<ErrorView>,
)
    requires
        0 <= n <= ops.len(),
        failure is Some,
        ops_run(clamp, scope, ops.take(n), before, after, failure),
    ensures
        ops_run(clamp, scope, ops, before, after, failure),
    decreases ops.len() - n,
{
    if n == ops.len() {
        assert(ops.take(n) =~= ops);
    } else {
        assert(ops.take(n + 1).drop_last() =~= ops.take(n));
        lemma_ops_failed(clamp, scope, ops, n + 1, before, after, failure);
    }
}

proof fn lemma_calls_failed(
    scope: Scope,
    calls: Seq<PendingToolCallView>,
    n: int,
    before: StoreView,
    after: StoreView,
    failure: Option<ErrorView>,
)
    requires
        0 <= n <= calls.len(),
        failure is Some,
        calls_run(scope, calls.take(n), before, after, failure),
    ensures
        calls_run(scope, calls, before, after, failure),
    decreases calls.len() - n,
{
    if n == calls.len() {
        assert(calls.take(n) =~= calls);
    } else {
        assert(calls.take(n + 1).drop_last() =~= calls.take(n));
        lemma_calls_failed(scope, calls, n + 1, before, after, failure);
    }
}

impl TurnStaging {
    /// Writes down the calls of the turn's tools, in the order in which they were made.
    pub(crate) fn run_calls(&self, store: &mut Store, passage_id: &str, turn_id: &str) -> (r: AppResult<()>)
        ensures
            calls_run(
                (Scope { story_id: self@.story_id, passage_id: passage_id@, turn_id: turn_id@ }),
                self@.tool_calls,
                old(store)@,
                final(store)@,
                failure_of(r),
            ),
    {
        let ghost scope = Scope {
            story_id: self@.story_id,
            passage_id: passage_id@,
            turn_id: turn_id@,
        };
        let ghost start = store@;
        let ghost calls = self.tool_calls.deep_view();
        let mut k: usize = 0;
        while k < self.tool_calls.len()
            invariant
                0 <= k <= self.tool_calls@.len(),
                calls == self.tool_calls.deep_view(),
                calls == self@.tool_calls,
                scope == (Scope {
                    story_id: self@.story_id,
                    passage_id: passage_id@,
                    turn_id: turn_id@,
                }),
                start == old(store)@,
                calls_run(scope, calls.take(k as int), start, store@, None),
            decreases self.tool_calls@.len() - k,
        {
            let ghost before = store@;
            proof {
                assert(calls[k as int] == self.tool_calls@[k as int]@);
                assert(calls.take(k + 1).drop_last() =~= calls.take(k as int));
                assert(calls.take(k + 1).last() == calls[k as int]);
            }
            match run_call(store, self.story_id.as_str(), passage_id, turn_id, &self.tool_calls[k]) {
                Ok(_) => {
                    proof {
                        assert(append_result(
                            before,
                            store@,
                            call_draft(scope, calls.take(k + 1).last()),
                            None,
                        ));
                    }
                },
                Err(e) => {
                    proof {
                        assert(append_result(
                            before,
                            store@,
                            call_draft(scope, calls.take(k + 1).last()),
                            Some(e@),
                        ));
                        assert(calls_run(scope, calls.take(k + 1), start, store@, Some(e@)));
                        lemma_calls_failed(scope, calls, k + 1, start, store@, Some(e@));
                    }
                    return Err(e);
                },
            }
            k += 1;
        }
        proof {
            rows::lemma_take_all(calls);
        }
        Ok(())
    }

    /// Writes down what the turn has changed, in the order in which it was changed, then the
    /// calls of its tools. Where something fails, what was written before it stays: who calls
    /// this takes it back together with the passage.
    pub fn commit<F: Fn(Reading) -> Clamped>(&self, store: &mut Store, passage_id: &str, turn_id: &str, clamp: &F) -> (r: AppResult<
        (),
    >)
        requires
            forall|reading: Reading| call_requires(clamp, (reading,)),
        ensures
            committed(
                clamp,
                (Scope { story_id: self@.story_id, passage_id: passage_id@, turn_id: turn_id@ }),
                self@,
                old(store)@,
                final(store)@,
                failure_of(r),
            ),
    {
        let ghost scope = Scope {
            story_id: self@.story_id,
            passage_id: passage_id@,
            turn_id: turn_id@,
        };
        let ghost ops = self.pending.deep_view();
        let mut canonical: Vec<(String, String)> = Vec::new();
        assert(canonical.deep_view() =~= Seq::empty());
        let ghost start = Progress { store: store@, canonical: Seq::empty() };
        let mut i: usize = 0;
        while i < self.pending.len()
            invariant
                0 <= i <= self.pending@.len(),
                ops == self.pending.deep_view(),
                ops == self@.pending,
                scope == (Scope {
                    story_id: self@.story_id,
                    passage_id: passage_id@,
                    turn_id: turn_id@,
                }),
                start == (Progress { store: old(store)@, canonical: Seq::empty() }),
                forall|reading: Reading| call_requires(clamp, (reading,)),
                ops_run(
                    clamp,
                    scope,
                    ops.take(i as int),
                    start,
                    Progress { store: store@, canonical: canonical.deep_view() },
                    None,
                ),
            decreases self.pending@.len() - i,
        {
            let ghost mid = Progress { store: store@, canonical: canonical.deep_view() };
            proof {
                assert(ops[i as int] == self.pending@[i as int]@);
                assert(ops.take(i + 1).drop_last() =~= ops.take(i as int));
                assert(ops.take(i + 1).last() == ops[i as int]);
            }
            match run_op(
                store,
                &mut canonical,
                self.story_id.as_str(),
                passage_id,
                turn_id,
                &self.pending[i],
                clamp,
            ) {
                Ok(_) => {
                    proof {
                        let after = Progress { store: store@, canonical: canonical.deep_view() };
                        assert(op_step(clamp, scope, ops.take(i + 1).last(), mid, after, None));
                    }
                },
                Err(e) => {
                    proof {
                        let after = Progress { store: store@, canonical: canonical.deep_view() };
                        assert(op_step(clamp, scope, ops.take(i + 1).last(), mid, after, Some(e@)));
                        assert(ops_run(clamp, scope, ops.take(i + 1), start, after, Some(e@)));
                        lemma_ops_failed(clamp, scope, ops, i + 1, start, after, Some(e@));
                        assert(ops_run(clamp, scope, self@.pending, start, after, Some(e@)));
                    }
                    return Err(e);
                },
            }
            i += 1;
        }
        let ghost mid = Progress { store: store@, canonical: canonical.deep_view() };
        proof {
            rows::lemma_take_all(ops);
            assert(ops_run(clamp, scope, self@.pending, start, mid, None));
        }
        self.run_calls(store, passage_id, turn_id)
    }
}

/// The calls of a turn stand in the ledger one behind the other in the order in which they were
/// made, each as a hidden entry about the passage, and nothing that stood there before is touched.
pub proof fn law_calls_are_kept_in_order(
    scope: Scope,
    calls: Seq<PendingToolCallView>,
    before: StoreView,
    after: StoreView,
)
    requires
        calls_run(scope, calls, before, after, None),
    ensures
        after.entries.len() == before.entries.len() + calls.len(),
        after.entries.take(before.entries.len() as int) == before.entries,
        forall|i: int|
            #![trigger calls[i]]
            0 <= i < calls.len() ==> {
                let entry = after.entries[before.entries.len() + i];
                &&& entry.kind == kind::TOOL_CALL@
                &&& entry.visibility == HIDDEN@
                &&& entry.content == Some(calls[i].label)
                &&& entry.payload == call_draft(scope, calls[i]).payload
                &&& entry.target_entry_id == Some(scope.passage_id)
                &&& entry.turn_id == Some(scope.turn_id)
            },
    decreases calls.len(),
{
    if calls.len() > 0 {
        let mid = choose|mid: StoreView|
            calls_run(scope, calls.drop_last(), before, mid, None) && #[trigger] append_result(
                mid,
                after,
                call_draft(scope, calls.last()),
                None,
            );
        law_calls_are_kept_in_order(scope, calls.drop_last(), before, mid);
        let n = before.entries.len() as int;
        assert(after.entries =~= mid.entries.push(after.entries.last()));
        assert(after.entries.take(n) =~= mid.entries.take(n));
        assert forall|i: int| #![trigger calls[i]] 0 <= i < calls.len() implies {
            let entry = after.entries[n + i];
            &&& entry.kind == kind::TOOL_CALL@
            &&& entry.visibility == HIDDEN@
            &&& entry.content == Some(calls[i].label)
            &&& entry.payload == call_draft(scope, calls[i]).payload
            &&& entry.target_entry_id == Some(scope.passage_id)
            &&& entry.turn_id == Some(scope.turn_id)
        } by {
            if i < calls.len() - 1 {
                assert(calls.drop_last()[i] == calls[i]);
                assert(after.entries[n + i] == mid.entries[n + i]);
            }
        }
    } else {
        assert(after.entries.take(before.entries.len() as int) =~= before.entries);
    }
}

} // verus!
