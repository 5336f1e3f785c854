//! A check that is rolled while a turn is told and written down with its passage.

use vstd::prelude::*;

use super::dice;
use super::dice::{FactorView, OutcomeView, RollFactor, RollPayload};
use super::staging;
use super::staging::{OpView, PendingRollView, StagingView, TurnStaging};
use super::tool_error;
use super::tool_error::{ToolError, ToolErrorView};
use crate::entities::attributes::{Clamped, Reading};
use crate::error::{AppResult, ErrorView};
use crate::json::{Json, JsonView};
use crate::rows;
use crate::store::{Store, StoreView};

verus! {

/// Whether reading one more value ends this way, after the ones before it.
pub open spec fn factor_step<F: Fn(Reading) -> Clamped>(
    clamp: &F,
    store: StoreView,
    turn: StagingView,
    reference: (Seq<char>, Seq<char>),
    front: Result<Seq<FactorView>, ErrorView>,
    r: Result<Seq<FactorView>, ErrorView>,
) -> bool {
    match front {
        Err(e) => r == front,
        Ok(list) => exists|last: Result<FactorView, ErrorView>|
            #[trigger] staging::factor_read(clamp, store, turn, reference.0, reference.1, last) && r == (match last {
                Err(e) => Err::<Seq<FactorView>, ErrorView>(e),
                Ok(factor) => Ok(list.push(factor)),
            }),
    }
}

/// Whether the values that a check rests on are read this way: each as it is for the rest of the
/// turn, and the first that cannot be read is why none is.
pub open spec fn factors_read<F: Fn(Reading) -> Clamped>(
    clamp: &F,
    store: StoreView,
    turn: StagingView,
    references: Seq<(Seq<char>, Seq<char>)>,
    r: Result<Seq<FactorView>, ErrorView>,
) -> bool
    decreases references.len(),
{
    if references.len() == 0 {
        r == Ok::<Seq<FactorView>, ErrorView>(Seq::empty())
    } else {
        exists|front: Result<Seq<FactorView>, ErrorView>|
            factors_read(clamp, store, turn, references.drop_last(), front) && #[trigger] factor_step(
                clamp,
                store,
                turn,
                references.last(),
                front,
                r,
            )
    }
}

proof fn lemma_unread<F: Fn(Reading) -> Clamped>(
    clamp: &F,
    store: StoreView,
    turn: StagingView,
    references: Seq<(Seq<char>, Seq<char>)>,
    n: int,
    e: ErrorView,
)
    requires
        0 <= n <= references.len(),
        factors_read(clamp, store, turn, references.take(n), Err(e)),
    ensures
        factors_read(clamp, store, turn, references, Err(e)),
    decreases references.len() - n,
{
    if n == references.len() {
        assert(references.take(n) =~= references);
    } else {
        assert(references.take(n + 1).drop_last() =~= references.take(n));
        assert(factor_step(clamp, store, turn, references.take(n + 1).last(), Err(e), Err(e)));
        lemma_unread(clamp, store, turn, references, n + 1, e);
    }
}

fn read_factors<F: Fn(Reading) -> Clamped>(
    turn: &TurnStaging,
    store: &Store,
    references: &Vec<(String, String)>,
    clamp: &F,
) -> (r: AppResult<Vec<RollFactor>>)
    requires
        forall|reading: Reading| call_requires(clamp, (reading,)),
    ensures
        match r {
            Ok(factors) => factors@.len() == references@.len() && factors_read(
                clamp,
                store@,
                turn@,
                references.deep_view(),
                Ok(factors.deep_view()),
            ),
            Err(e) => factors_read(clamp, store@, turn@, references.deep_view(), Err(e@)),
        },
{
    let ghost all = references.deep_view();
    let mut out: Vec<RollFactor> = Vec::new();
    let mut i: usize = 0;
    assert(out.deep_view() =~= Seq::empty());
    while i < references.len()
        invariant
            0 <= i <= references@.len(),
            all == references.deep_view(),
            out@.len() == i,
            forall|reading: Reading| call_requires(clamp, (reading,)),
            factors_read(clamp, store@, turn@, all.take(i as int), Ok(out.deep_view())),
        decreases references@.len() - i,
    {
        let ghost front: Result<Seq<FactorView>, ErrorView> = Ok(out.deep_view());
        let ghost part = all.take(i + 1);
        proof {
            assert(all[i as int] == references@[i as int].deep_view());
            assert(part.drop_last() =~= all.take(i as int));
            assert(part.last() == all[i as int]);
        }
        match turn.roll_factor(store, references[i].0.as_str(), references[i].1.as_str(), clamp) {
            Ok(factor) => {
                let ghost before = out;
                let ghost value = factor;
                out.push(factor);
                proof {
                    rows::lemma_deep_push(before, out, value);
                    assert(staging::factor_read(clamp, store@, turn@, part.last().0, part.last().1, Ok(value@)));
                    assert(factor_step(clamp, store@, turn@, part.last(), front, Ok(out.deep_view())));
                }
            },
            Err(e) => {
                proof {
                    assert(staging::factor_read(clamp, store@, turn@, part.last().0, part.last().1, Err(e@)));
                    assert(factor_step(clamp, store@, turn@, part.last(), front, Err(e@)));
                    lemma_unread(clamp, store@, turn@, all, i + 1, e@);
                }
                return Err(e);
            },
        }
        i += 1;
    }
    proof {
        rows::lemma_take_all(all);
    }
    Ok(out)
}

/// Whether a check was rolled and waits to be written down, with the chance that its factors give
/// or the one that was asked for, and the narrator is given what will be written.
pub open spec fn roll_noted<G: Fn(Vec<RollFactor>) -> u8>(
    chance_of: &G,
    request: dice::RequestView,
    factors: Seq<FactorView>,
    chance: u8,
    outcome: OutcomeView,
    before: StagingView,
    after: StagingView,
    r: Result<Json, ToolError>,
) -> bool {
    let source = dice::chance_source_of(request);
    &&& dice::possible_outcome(chance, outcome)
    &&& dice::chance_for(chance_of, request, factors, chance)
    &&& after == (StagingView {
        pending: before.pending.push(
            OpView::Roll(
                PendingRollView { output: outcome, reason: request.reason, chance_source: source, factors },
            ),
        ),
        ..before
    })
    &&& r is Ok
    &&& r->Ok_0@ == dice::roll_payload_of(outcome, request.reason, Some(source), factors)
}

/// Whether a check was refused or rolled by the values that it rests on.
pub open spec fn roll_staged<G: Fn(Vec<RollFactor>) -> u8>(
    chance_of: &G,
    request: dice::RequestView,
    read: Result<Seq<FactorView>, ErrorView>,
    before: StagingView,
    after: StagingView,
    r: Result<Json, ToolError>,
) -> bool {
    if read is Err {
        after == before && r is Err && r->Err_0@ == tool_error::argument_error(read->Err_0)
    } else {
        exists|chance: u8, outcome: OutcomeView|
            #[trigger] roll_noted(chance_of, request, read->Ok_0, chance, outcome, before, after, r)
    }
}

/// Whether a check was refused, or rolled while a turn is told.
pub open spec fn staged_check_ended<F: Fn(Reading) -> Clamped, G: Fn(Vec<RollFactor>) -> u8>(
    clamp: &F,
    chance_of: &G,
    store: StoreView,
    before: StagingView,
    after: StagingView,
    args: JsonView,
    r: Result<Json, ToolError>,
) -> bool {
    match dice::request_of(args) {
        Err(e) => after == before && r is Err && r->Err_0@ == ToolErrorView::InvalidArgs(e),
        Ok(request) => exists|read: Result<Seq<FactorView>, ErrorView>|
            factors_read(clamp, store, before, request.references, read) && #[trigger] roll_staged(
                chance_of,
                request,
                read,
                before,
                after,
                r,
            ),
    }
}

/// Rolls a check that is written down with the passage. The arithmetic of the values is `clamp`'s,
/// and what chance the factors give is `chance_of`'s.
pub fn stage_check<F: Fn(Reading) -> Clamped, G: Fn(Vec<RollFactor>) -> u8>(
    turn: &mut TurnStaging,
    store: &Store,
    args: &Json,
    clamp: &F,
    chance_of: &G,
) -> (r: Result<Json, ToolError>)
    requires
        forall|reading: Reading| call_requires(clamp, (reading,)),
        forall|factors: Vec<RollFactor>| call_requires(chance_of, (factors,)),
        forall|factors: Vec<RollFactor>, chance: u8|
            call_ensures(chance_of, (factors,), chance) ==> chance <= 100,
    ensures
        staged_check_ended(clamp, chance_of, store@, old(turn)@, final(turn)@, args@, r),
{
    let request = match dice::roll_request(args) {
        Ok(request) => request,
        Err(e) => {
            return Err(ToolError::InvalidArgs(e.to_string()));
        },
    };
    let ghost before = turn@;
    let factors = match read_factors(turn, store, &request.references, clamp) {
        Ok(factors) => factors,
        Err(e) => {
            let ghost why = e@;
            let refused = Err(tool_error::to_argument_error(e));
            assert(roll_staged(chance_of, request@, Err(why), before, turn@, refused));
            return refused;
        },
    };
    let (chance, source): (u8, &'static str) = dice::check_chance(&request, &factors, chance_of);
    proof {
        dice::lemma_request_chance(args@);
    }
    let reason = crate::text::copy_option(&request.reason);
    let kept = rows::copy_rows(&factors);
    let rolled = turn.stage_roll(chance, reason, source, kept);
    let payload = RollPayload {
        chance_percent: rolled.chance_percent,
        roll: rolled.roll,
        needed: rolled.needed,
        outcome: rolled.outcome,
        reason: crate::text::copy_option(&request.reason),
        chance_source: Some(source),
        factors,
        seed: rolled.seed,
    };
    let r: Result<Json, ToolError> = Ok(payload.to_json());
    proof {
        assert(payload.outcome_view() == rolled@);
        let read: Result<Seq<FactorView>, ErrorView> = Ok(payload.factors.deep_view());
        assert(roll_noted(chance_of, request@, read->Ok_0, chance, rolled@, before, turn@, r));
        assert(roll_staged(chance_of, request@, read, before, turn@, r));
    }
    r
}

} // verus!
