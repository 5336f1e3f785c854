//! Putting down what the narrator told, together with what it changed.

use vstd::prelude::*;

use super::model;
use super::model::ActiveStoryEntry;
use super::repository;
use crate::entities::attributes::{Clamped, Reading};
use crate::error::{AppResult, ErrorView};
use crate::ledger::repository::DraftView;
use crate::narrator::commit;
use crate::narrator::commit::Scope;
use crate::narrator::staging::{StagingView, TurnStaging};
use crate::store::{Store, StoreView};

verus! {

/// What the narrator told.
#[verifier::ext_equal]
pub struct Telling {
    pub story_id: Seq<char>,
    pub input_mode: Seq<char>,
    pub visible: Seq<char>,
    pub thoughts: Option<Seq<char>>,
    pub turn_id: Seq<char>,
}

/// What the narrator changed, if it could change anything.
pub open spec fn changes_of(staging: Option<&TurnStaging>) -> Option<StagingView> {
    match staging {
        Some(staging) => Some(staging@),
        None => None,
    }
}

/// The message that the narrator tells.
pub open spec fn passage_draft(telling: Telling) -> DraftView {
    repository::message_draft(
        telling.story_id,
        "narrator"@,
        telling.input_mode,
        telling.visible,
        telling.thoughts,
        Some(telling.turn_id),
    )
}

/// What the narrator told was put down as a message.
pub open spec fn passage_put(telling: Telling, before: StoreView, after: StoreView, failure: Option<ErrorView>) -> bool {
    commit::append_result(before, after, passage_draft(telling), failure)
}

/// What the narrator changed was written down about a message that was put down.
pub open spec fn changes_put<F: Fn(Reading) -> Clamped>(
    clamp: &F,
    telling: Telling,
    staging: Option<StagingView>,
    mid: StoreView,
    after: StoreView,
    failure: Option<ErrorView>,
) -> bool {
    match staging {
        None => after == mid && failure is None,
        Some(staging) => commit::committed(
            clamp,
            Scope {
                story_id: staging.story_id,
                passage_id: mid.entries.last().id,
                turn_id: telling.turn_id,
            },
            staging,
            mid,
            after,
            failure,
        ),
    }
}

/// What putting down a message together with what it changed comes to: `after` is what both
/// leave, and `failure` why one of them failed.
pub open spec fn told<F: Fn(Reading) -> Clamped>(
    clamp: &F,
    telling: Telling,
    staging: Option<StagingView>,
    before: StoreView,
    mid: StoreView,
    after: StoreView,
    failure: Option<ErrorView>,
) -> bool {
    ||| failure is Some && passage_put(telling, before, mid, failure) && after == mid
    ||| passage_put(telling, before, mid, None) && changes_put(clamp, telling, staging, mid, after, failure)
}

/// Puts down a message and then what it changed. Where something fails, what was written before
/// it stays.
pub(crate) fn write_passage<F: Fn(Reading) -> Clamped>(
    store: &mut Store,
    story_id: &str,
    input_mode: &str,
    visible: &str,
    thoughts: Option<&str>,
    staging: Option<&TurnStaging>,
    turn_id: &str,
    clamp: &F,
) -> (r: AppResult<ActiveStoryEntry>)
    requires
        forall|reading: Reading| call_requires(clamp, (reading,)),
    ensures
        exists|mid: StoreView|
            #[trigger] told(
                clamp,
                (Telling {
                    story_id: story_id@,
                    input_mode: input_mode@,
                    visible: visible@,
                    thoughts: thoughts.deep_view(),
                    turn_id: turn_id@,
                }),
                changes_of(staging),
                old(store)@,
                mid,
                final(store)@,
                commit::failure_of(r),
            ) && (r is Ok ==> r->Ok_0@ == model::story_entry_of(mid.entries.last())),
{
    let ghost telling = Telling {
        story_id: story_id@,
        input_mode: input_mode@,
        visible: visible@,
        thoughts: thoughts.deep_view(),
        turn_id: turn_id@,
    };
    let ghost before = store@;
    let ghost changes = changes_of(staging);
    assert(Some(turn_id).deep_view() == Some(turn_id@));
    let passage = match repository::insert_story_entry(
        store,
        story_id,
        "narrator",
        input_mode,
        visible,
        thoughts,
        Some(turn_id),
    ) {
        Ok(passage) => passage,
        Err(e) => {
            assert(told(clamp, telling, changes, before, store@, store@, Some(e@)));
            return Err(e);
        },
    };
    let ghost mid = store@;
    assert(passage_put(telling, before, mid, None));
    if let Some(staging) = staging {
        match staging.commit(store, passage.id.as_str(), turn_id, clamp) {
            Ok(_) => {
                assert(told(clamp, telling, changes, before, mid, store@, None));
            },
            Err(e) => {
                assert(told(clamp, telling, changes, before, mid, store@, Some(e@)));
                return Err(e);
            },
        }
    } else {
        assert(told(clamp, telling, changes, before, mid, store@, None));
    }
    Ok(passage)
}

/// Puts down what the narrator told together with what it changed: both are there, or neither.
pub fn append_narration_entry<F: Fn(Reading) -> Clamped>(
    store: &mut Store,
    story_id: &str,
    input_mode: &str,
    visible: &str,
    thoughts: Option<&str>,
    staging: Option<&TurnStaging>,
    turn_id: &str,
    clamp: &F,
) -> (r: AppResult<ActiveStoryEntry>)
    requires
        forall|reading: Reading| call_requires(clamp, (reading,)),
    ensures
        exists|mid: StoreView, end: StoreView|
            #[trigger] told(
                clamp,
                (Telling {
                    story_id: story_id@,
                    input_mode: input_mode@,
                    visible: visible@,
                    thoughts: thoughts.deep_view(),
                    turn_id: turn_id@,
                }),
                changes_of(staging),
                old(store)@,
                mid,
                end,
                commit::failure_of(r),
            ) && (match r {
                Ok(passage) => final(store)@ == end && passage@ == model::story_entry_of(mid.entries.last()),
                Err(_) => final(store)@ == old(store)@,
            }),
{
    let backup = store.copy();
    let ghost before = store@;
    let r = write_passage(store, story_id, input_mode, visible, thoughts, staging, turn_id, clamp);
    let ghost end = store@;
    proof {
        let telling = Telling {
            story_id: story_id@,
            input_mode: input_mode@,
            visible: visible@,
            thoughts: thoughts.deep_view(),
            turn_id: turn_id@,
        };
        let changes = changes_of(staging);
        let mid = choose|mid: StoreView|
            #[trigger] told(clamp, telling, changes, before, mid, end, commit::failure_of(r)) && (r is Ok
                ==> r->Ok_0@ == model::story_entry_of(mid.entries.last()));
        assert(told(clamp, telling, changes, before, mid, end, commit::failure_of(r)));
    }
    match r {
        Ok(passage) => Ok(passage),
        Err(e) => {
            *store = backup;
            Err(e)
        },
    }
}

} // verus!
