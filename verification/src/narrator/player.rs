//! What the player set by hand is the player's: no turn of the narrator changes it.

use vstd::prelude::*;

use super::commit;
use super::commit::{Progress, Scope};
use super::staging::{OpView, PendingToolCallView, StagingView};
use crate::double::Double;
use crate::entities::attributes;
use crate::entities::attributes::{Clamped, Reading};
use crate::entities::events;
use crate::entities::events::{EventView, NameAnchorView};
use crate::entities::model::Entity;
use crate::entities::projection;
use crate::entities::repository;
use crate::error::{AppResult, ErrorView};
use crate::ledger::repository as ledger;
use crate::ledger::repository::DraftView;
use crate::rows;
use crate::store::StoreView;

verus! {

/// Whether an event leaves an attribute of an entity alone: it is about the entity as a whole, or
/// about another attribute, or about another entity.
pub open spec fn leaves_alone(event: EventView, id: Seq<char>, attribute: Seq<char>) -> bool {
    match event {
        EventView::Created { .. } => true,
        EventView::Updated { .. } => true,
        EventView::AttributeChanged { entity_id, attribute_id, .. } => entity_id != id || attribute_id != attribute,
        _ => false,
    }
}

proof fn lemma_applied_elsewhere(
    store: StoreView,
    story_id: Seq<char>,
    event_id: Seq<char>,
    now: Seq<char>,
    event: EventView,
    id: Seq<char>,
    attribute: Seq<char>,
)
    requires
        leaves_alone(event, id, attribute),
    ensures
        attributes::stored_value(
            projection::applied(store, story_id, event_id, now, event),
            story_id,
            id,
            attribute,
        ) == attributes::stored_value(store, story_id, id, attribute),
{
    if let EventView::AttributeChanged { entity_id, attribute_id, after, source, .. } = event {
        let key = projection::value_of(story_id, entity_id, attribute_id);
        let p = projection::value_of(story_id, id, attribute);
        let row = crate::store::AttributeRowView {
            story_id,
            entity_id,
            attribute_id,
            value: after,
            source,
            updated_at: now,
            last_event_id: Some(event_id),
        };
        rows::lemma_first_where_upserted_elsewhere(store.attributes, key, row, p);
    }
}

proof fn lemma_recorded_elsewhere(
    store: StoreView,
    story_id: Seq<char>,
    now: Seq<char>,
    entry: crate::ledger::model::EntryView,
    event: EventView,
    id: Seq<char>,
    attribute: Seq<char>,
)
    requires
        leaves_alone(event, id, attribute),
        entry.kind == events::kind_of(event),
        entry.payload == events::payload_of(event),
    ensures
        attributes::stored_value(projection::recorded(store, story_id, now, entry).0, story_id, id, attribute)
            == attributes::stored_value(store, story_id, id, attribute),
{
    events::lemma_told_sort(event, entry);
    let written = ledger::appended(store, entry);
    if let Some(told) = events::event_of(entry) {
        lemma_applied_elsewhere(written, story_id, entry.id, now, told, id, attribute);
    }
}

/// Writing down an event that leaves an attribute alone keeps its value, also where it fails.
proof fn lemma_record_elsewhere(
    before: StoreView,
    after: StoreView,
    draft: DraftView,
    event: EventView,
    failure: Option<ErrorView>,
    id: Seq<char>,
    attribute: Seq<char>,
)
    requires
        leaves_alone(event, id, attribute),
        draft.kind == events::kind_of(event),
        draft.payload == events::payload_of(event),
        match failure {
            None => projection::record_step(before, after, draft),
            Some(e) => projection::record_failure(before, after, draft, e),
        },
    ensures
        attributes::stored_value(after, draft.story_id, id, attribute) == attributes::stored_value(
            before,
            draft.story_id,
            id,
            attribute,
        ),
{
    match failure {
        None => {
            let entry = after.entries.last();
            let now = choose|now: Seq<char>|
                #[trigger] projection::recorded(before, draft.story_id, now, entry) == (after, None::<ErrorView>);
            lemma_recorded_elsewhere(before, draft.story_id, now, entry, event, id, attribute);
        },
        Some(e) => {
            if after != before {
                let (now, entry_id, created_at) = choose|now: Seq<char>, entry_id: Seq<char>, created_at: Seq<char>|
                    #[trigger] projection::recorded(
                        before,
                        draft.story_id,
                        now,
                        ledger::drafted_entry(before, entry_id, created_at, draft),
                    ) == (after, Some(e));
                let entry = ledger::drafted_entry(before, entry_id, created_at, draft);
                lemma_recorded_elsewhere(before, draft.story_id, now, entry, event, id, attribute);
            }
        },
    }
}

proof fn lemma_step_keeps<F: Fn(Reading) -> Clamped>(
    clamp: &F,
    scope: Scope,
    op: OpView,
    before: Progress,
    after: Progress,
    failure: Option<ErrorView>,
    id: Seq<char>,
    attribute: Seq<char>,
)
    requires
        commit::op_step(clamp, scope, op, before, after, failure),
        attributes::locked(before.store, scope.story_id, id, attribute),
    ensures
        attributes::stored_value(after.store, scope.story_id, id, attribute) == attributes::stored_value(
            before.store,
            scope.story_id,
            id,
            attribute,
        ),
{
    match op {
        OpView::MintAttribute(_) => {},
        OpView::AddAlias { .. } => {},
        OpView::Roll(_) => {},
        OpView::CreateEntity { id: made_id, kind, name, appearance_anchor } => {
            let draft = repository::creation_draft(
                made_id,
                scope.story_id,
                kind,
                name,
                appearance_anchor,
                super::tools::NARRATOR_TOOL@,
                Some(scope.passage_id),
                Some(scope.turn_id),
            );
            let made = choose|made: AppResult<Entity>|
                #[trigger] repository::creation_outcome(
                    before.store,
                    after.store,
                    made_id,
                    draft,
                    kind,
                    name,
                    appearance_anchor,
                    made,
                ) && failure == commit::failure_of(made);
            if !crate::text::blank(name) {
                let event = EventView::Created {
                    entity_id: made_id,
                    kind,
                    name: crate::text::trimmed(name),
                    appearance_anchor: crate::text::non_blank(appearance_anchor),
                    source: super::tools::NARRATOR_TOOL@,
                    created_at: Seq::empty(),
                };
                lemma_record_elsewhere(before.store, after.store, draft, event, failure, id, attribute);
            }
        },
        OpView::UpdateEntity { id: changed_id, name, appearance_anchor } => {
            let made = choose|made: AppResult<Entity>|
                #[trigger] commit::update_ends(scope, op, before, after, made) && failure == commit::failure_of(made);
            if !crate::text::blank(name) {
                if let Some(entity) = repository::present_entity(before.store, scope.story_id, changed_id) {
                    let draft = repository::update_draft(
                        entity,
                        scope.story_id,
                        changed_id,
                        name,
                        appearance_anchor,
                        super::tools::NARRATOR_TOOL@,
                        Some(scope.passage_id),
                        Some(scope.turn_id),
                    );
                    let event = EventView::Updated {
                        entity_id: changed_id,
                        before: NameAnchorView { name: entity.name, appearance_anchor: entity.appearance_anchor },
                        after: NameAnchorView {
                            name: crate::text::trimmed(name),
                            appearance_anchor: crate::text::non_blank(appearance_anchor),
                        },
                        source: super::tools::NARRATOR_TOOL@,
                    };
                    lemma_record_elsewhere(before.store, after.store, draft, event, failure, id, attribute);
                }
            }
        },
        OpView::AdjustAttribute { entity_id, attribute: changed, delta, cause, dramatic } => {
            if let Ok(settled) = commit::settled_attribute(before, changed) {
                let (reading, clamped, made) = choose|reading: Reading, clamped: Clamped, made: AppResult<(Double, Double)>|
                    #[trigger] call_ensures(clamp, (reading,), clamped) && #[trigger] commit::adjust_ends(
                        scope,
                        op,
                        settled,
                        reading@,
                        clamped@,
                        before,
                        after,
                        made,
                    ) && failure == commit::failure_of(made);
                if !attributes::locked(before.store, scope.story_id, entity_id, settled.id) {
                    let from = attributes::value_before(reading@, clamped@);
                    let draft = attributes::inferred_draft(
                        scope.story_id,
                        entity_id,
                        settled,
                        from,
                        clamped@,
                        cause,
                        scope.passage_id,
                        Some(scope.turn_id),
                    );
                    let event = EventView::AttributeChanged {
                        entity_id,
                        attribute_id: settled.id,
                        attribute_name: settled.canonical_name,
                        before: Some(from),
                        after: clamped@.after,
                        source: attributes::INFERRED@,
                        delta: Some(clamped@.change),
                        cause: Some(cause),
                    };
                    assert(leaves_alone(event, id, attribute));
                    lemma_record_elsewhere(before.store, after.store, draft, event, failure, id, attribute);
                }
            }
        },
    }
}

proof fn lemma_run_keeps<F: Fn(Reading) -> Clamped>(
    clamp: &F,
    scope: Scope,
    ops: Seq<OpView>,
    before: Progress,
    after: Progress,
    failure: Option<ErrorView>,
    id: Seq<char>,
    attribute: Seq<char>,
)
    requires
        commit::ops_run(clamp, scope, ops, before, after, failure),
        attributes::locked(before.store, scope.story_id, id, attribute),
    ensures
        attributes::stored_value(after.store, scope.story_id, id, attribute) == attributes::stored_value(
            before.store,
            scope.story_id,
            id,
            attribute,
        ),
    decreases ops.len(),
{
    if ops.len() > 0 {
        if failure is Some && commit::ops_run(clamp, scope, ops.drop_last(), before, after, failure) {
            lemma_run_keeps(clamp, scope, ops.drop_last(), before, after, failure, id, attribute);
        } else {
            let mid = choose|mid: Progress|
                commit::ops_run(clamp, scope, ops.drop_last(), before, mid, None) && #[trigger] commit::op_step(
                    clamp,
                    scope,
                    ops.last(),
                    mid,
                    after,
                    failure,
                );
            lemma_run_keeps(clamp, scope, ops.drop_last(), before, mid, None, id, attribute);
            lemma_step_keeps(clamp, scope, ops.last(), mid, after, failure, id, attribute);
        }
    }
}

proof fn lemma_calls_keep(
    scope: Scope,
    calls: Seq<PendingToolCallView>,
    before: StoreView,
    after: StoreView,
    failure: Option<ErrorView>,
)
    requires
        commit::calls_run(scope, calls, before, after, failure),
    ensures
        after.attributes == before.attributes,
    decreases calls.len(),
{
    if calls.len() > 0 {
        if failure is Some && commit::calls_run(scope, calls.drop_last(), before, after, failure) {
            lemma_calls_keep(scope, calls.drop_last(), before, after, failure);
        } else {
            let mid = choose|mid: StoreView|
                commit::calls_run(scope, calls.drop_last(), before, mid, None) && #[trigger] commit::append_result(
                    mid,
                    after,
                    commit::call_draft(scope, calls.last()),
                    failure,
                );
            lemma_calls_keep(scope, calls.drop_last(), before, mid, None);
        }
    }
}

/// A value that the player set is the same after a turn was written down, whatever the turn
/// changes and whether or not it could be written down.
pub proof fn law_player_value_survives_a_turn<F: Fn(Reading) -> Clamped>(
    clamp: &F,
    scope: Scope,
    staging: StagingView,
    before: StoreView,
    after: StoreView,
    failure: Option<ErrorView>,
    entity_id: Seq<char>,
    attribute_id: Seq<char>,
)
    requires
        commit::committed(clamp, scope, staging, before, after, failure),
        attributes::locked(before, scope.story_id, entity_id, attribute_id),
    ensures
        attributes::stored_value(after, scope.story_id, entity_id, attribute_id) == attributes::stored_value(
            before,
            scope.story_id,
            entity_id,
            attribute_id,
        ),
{
    let start = Progress { store: before, canonical: Seq::empty() };
    let (mid, broken) = choose|mid: Progress, broken: Option<ErrorView>|
        #[trigger] commit::ops_run(clamp, scope, staging.pending, start, mid, broken) && (if broken is Some {
            after == mid.store && failure == broken
        } else {
            commit::calls_run(scope, staging.tool_calls, mid.store, after, failure)
        });
    lemma_run_keeps(clamp, scope, staging.pending, start, mid, broken, entity_id, attribute_id);
    if broken is None {
        lemma_calls_keep(scope, staging.tool_calls, mid.store, after, failure);
    }
}

} // verus!
