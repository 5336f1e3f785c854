//! The entities of a story as a narrator is told of them, by themselves.

use vstd::prelude::*;

use crate::ai::{HistoryTurn, HistoryTurnView};
use crate::compaction::budget;
use crate::compaction::budget::Limits;
use crate::narrator::injection;
use crate::store::{Store, StoreView};
use crate::text;

verus! {

/// The entities as they are told of now, and as they would be in full.
#[derive(Debug, PartialEq)]
pub struct EntityContextPlan {
    pub live_context: Option<String>,
    pub full_context: Option<String>,
}

/// The entities in full, unless none is told of.
pub open spec fn full_of(store: StoreView, story_id: Seq<char>, mode: Seq<char>) -> Option<Seq<char>> {
    if mode == injection::MODE_NONE@ {
        None
    } else {
        Some(injection::entity_context(store, story_id, None))
    }
}

/// The entities as a mode tells of them.
pub open spec fn live_of(
    store: StoreView,
    story_id: Seq<char>,
    history: Seq<HistoryTurnView>,
    limits: Limits,
    preamble: Seq<char>,
    mode: Seq<char>,
) -> Option<Seq<char>> {
    if mode == injection::MODE_NONE@ {
        None
    } else {
        let full = injection::entity_context(store, story_id, None);
        Some(
            injection::entities_live_of(
                store,
                story_id,
                mode,
                history,
                budget::tail_start(history, limits, preamble, full),
            ),
        )
    }
}

/// The entities of a story as a narrator is told of them.
pub fn build_entity_context(
    store: &Store,
    story_id: &str,
    history: &Vec<HistoryTurn>,
    limits: Limits,
    preamble: &str,
    mode: &str,
) -> (r: EntityContextPlan)
    ensures
        r.full_context.deep_view() == full_of(store@, story_id@, mode@),
        r.live_context.deep_view() == live_of(
            store@,
            story_id@,
            history.deep_view(),
            limits,
            preamble@,
            mode@,
        ),
{
    if text::same_text(mode, injection::MODE_NONE) {
        return EntityContextPlan { live_context: None, full_context: None };
    }
    let full = injection::format_entity_context(store, story_id, None);
    if text::same_text(mode, injection::MODE_ALL) {
        return EntityContextPlan { live_context: Some(full.clone()), full_context: Some(full) };
    }
    let split = budget::raw_tail_boundary(history, limits, preamble, full.as_str());
    let touched = injection::touched_entity_ids(store, history, split);
    let scoped = injection::format_entity_context(store, story_id, Some(&touched));
    EntityContextPlan { live_context: Some(scoped), full_context: Some(full) }
}

} // verus!
