//! What the tables hold of entities after a message was taken back, and after another one was told.

use vstd::prelude::*;

use super::reading;
use super::rewind;
use super::rewind::Effects;
use crate::compaction::summary;
use crate::double::Double;
use crate::entities::attributes;
use crate::entities::attributes::{Clamped, Reading};
use crate::entities::model::Entity;
use crate::entities::projection;
use crate::entities::projection::ReplayScope;
use crate::entities::repository;
use crate::entities::rooted;
use crate::entities::upkeep;
use crate::error::{AppResult, ErrorView};
use crate::ledger::cascade;
use crate::ledger::model::EntryView;
use crate::ledger::repository as ledger;
use crate::narrator::commit;
use crate::narrator::commit::{Progress, Scope};
use crate::narrator::staging::{OpView, PendingToolCallView, StagingView};
use crate::rows;
use crate::store::StoreView;

verus! {

proof fn lemma_doomed_stay_in_their_story(
    entries: Seq<EntryView>,
    root: Seq<char>,
    story_id: Seq<char>,
    steps: nat,
    i: int,
)
    requires
        ledger::distinct_ids(entries),
        reading::anchored(entries),
        ledger::belongs(entries, root, story_id),
        0 <= i < entries.len(),
        cascade::reaches(entries, root, steps, entries[i].id),
    ensures
        entries[i].story_id == story_id,
    decreases steps,
{
    if entries[i].id == root {
        let p = |e: EntryView| e.id == root && e.story_id == story_id;
        let r = choose|r: int| 0 <= r < entries.len() && p(#[trigger] entries[r]);
        assert(r == i);
    } else {
        let k = choose|k: int|
            0 <= k < entries.len() && (#[trigger] entries[k]).id == entries[i].id && entries[k].target_entry_id is Some
                && cascade::reaches(entries, root, (steps - 1) as nat, entries[k].target_entry_id->0);
        assert(k == i);
        let target = entries[i].target_entry_id->0;
        let story = entries[i].story_id;
        assert(ledger::belongs(entries, target, story));
        let p = |e: EntryView| e.id == target && e.story_id == story;
        let j = choose|j: int| 0 <= j < entries.len() && p(#[trigger] entries[j]);
        lemma_doomed_stay_in_their_story(entries, root, story_id, (steps - 1) as nat, j);
    }
}

proof fn lemma_affected(start: Effects, entries: Seq<EntryView>, k: int, id: Seq<char>)
    requires
        0 <= k < entries.len(),
        projection::is_subject(entries[k], id),
    ensures
        rewind::effects(start, entries).affected.contains(id),
    decreases entries.len(),
{
    upkeep::law_other_kinds_are_plain();
    let at = rewind::effects(start, entries.drop_last());
    let entry = entries.last();
    if k == entries.len() - 1 {
        rows::lemma_push_contains(at.affected, id, id);
    } else {
        lemma_affected(start, entries.drop_last(), k, id);
        if let Some(other) = crate::json::text_field(entry.payload, "entity_id"@) {
            rows::lemma_push_contains(at.affected, other, id);
        }
    }
}

proof fn lemma_told_of_the_rest(
    store: StoreView,
    story_id: Seq<char>,
    root: Seq<char>,
    id: Seq<char>,
    row_story: Seq<char>,
    entity_id: Seq<char>,
)
    requires
        ledger::distinct_ids(store.entries),
        reading::anchored(store.entries),
        ledger::belongs(store.entries, root, story_id),
        rooted::told_of(store.entries, id, row_story, entity_id),
        !(row_story == story_id && rewind::message_effects(store, root, Seq::empty()).affected.contains(entity_id)),
    ensures
        rooted::told_of(
            cascade::without_doomed(store.entries, root).filter(
                summary::uncovered(story_id, rewind::message_effects(store, root, Seq::empty()).doomed),
            ),
            id,
            row_story,
            entity_id,
        ),
{
    let all = store.entries;
    let found = rewind::message_effects(store, root, Seq::empty());
    let k = choose|k: int|
        0 <= k < all.len() && (#[trigger] all[k]).id == id && all[k].story_id == row_story && projection::is_subject(
            all[k],
            entity_id,
        );
    let e = all[k];
    assert(all.contains(e));
    let gone = |x: EntryView| cascade::doomed(all, root, x.id);
    let going = cascade::doomed_entries_of(all, root);
    if cascade::doomed(all, root, e.id) {
        let steps = choose|steps: nat| cascade::reaches(all, root, steps, e.id);
        lemma_doomed_stay_in_their_story(all, root, story_id, steps, k);
        rows::lemma_filter_member(all, gone, e);
        assert(going.contains(e));
        let j = choose|j: int| 0 <= j < going.len() && going[j] == e;
        lemma_affected(
            Effects {
                images: store.images,
                doomed: Seq::empty(),
                affected: Seq::empty(),
                paths: Seq::empty() + crate::images::repository::paths_of_entry(store.images, root),
            },
            going,
            j,
            entity_id,
        );
    }
    upkeep::law_other_kinds_are_plain();
    let unc = summary::uncovered(story_id, found.doomed);
    assert(unc(e));
    cascade::lemma_without_doomed(all, root, e);
    let left = cascade::without_doomed(all, root);
    rows::lemma_filter_member(left, unc, e);
    let pruned = left.filter(unc);
    let at = choose|at: int| 0 <= at < pruned.len() && pruned[at] == e;
    assert(pruned[at].id == id);
}

/// Where a reply goes, nothing is left in the tables of what it did to entities: every state and
/// every value that is there stems from an entry that is left.
pub proof fn law_removed_reply_leaves_rows_rooted(store: StoreView, story_id: Seq<char>, reply_id: Seq<char>, now: Seq<char>)
    requires
        ledger::distinct_ids(store.entries),
        reading::anchored(store.entries),
        rooted::rooted(store),
        rewind::reply_removed(store, story_id, reply_id, now) is Ok,
    ensures
        rooted::rooted(rewind::reply_removed(store, story_id, reply_id, now)->Ok_0.0),
{
    let found = rewind::message_effects(store, reply_id, Seq::empty());
    let left = rewind::without_message(store, reply_id, found);
    let unc = summary::uncovered(story_id, found.doomed);
    let pruned = StoreView { entries: left.entries.filter(unc), ..left };
    let scope = ReplayScope { story_id, ids: found.affected.to_set(), exclude_turn: None, now };
    let cl = projection::cleared(pruned, story_id, scope.ids);
    let r = rows::lemma_first_where(store.entries, ledger::entry_is(reply_id));
    let p = |e: EntryView| e.id == reply_id && e.story_id == story_id;
    assert(p(store.entries[r]));
    assert(ledger::belongs(store.entries, reply_id, story_id));
    assert forall|i: int| 0 <= i < cl.states.len() implies rooted::state_rooted(cl.entries, #[trigger] cl.states[i]) by {
        let row = cl.states[i];
        assert(cl.states.contains(row));
        rows::lemma_filter_member(store.states, projection::state_kept(story_id, scope.ids), row);
        let k = choose|k: int| 0 <= k < store.states.len() && store.states[k] == row;
        assert(rooted::state_rooted(store.entries, store.states[k]));
        if row.last_event_id is Some {
            lemma_told_of_the_rest(store, story_id, reply_id, row.last_event_id->0, row.story_id, row.entity_id);
        }
    }
    assert forall|i: int| 0 <= i < cl.attributes.len() implies rooted::value_rooted(
        cl.entries,
        #[trigger] cl.attributes[i],
    ) by {
        let row = cl.attributes[i];
        assert(cl.attributes.contains(row));
        rows::lemma_filter_member(store.attributes, projection::value_kept(story_id, scope.ids), row);
        let k = choose|k: int| 0 <= k < store.attributes.len() && store.attributes[k] == row;
        assert(rooted::value_rooted(store.entries, store.attributes[k]));
        if row.last_event_id is Some {
            lemma_told_of_the_rest(store, story_id, reply_id, row.last_event_id->0, row.story_id, row.entity_id);
        }
    }
    let own = ledger::story_entries(pruned.entries, story_id);
    assert forall|i: int| 0 <= i < own.len() implies cl.entries.contains(#[trigger] own[i]) && own[i].story_id
        == scope.story_id by {
        assert(own.contains(own[i]));
        ledger::lemma_listed(pruned.entries, story_id, i64::MIN, own[i]);
    }
    rooted::lemma_replayed(scope, cl, own);
}

proof fn lemma_written_keeps(before: StoreView, after: StoreView, entry: EntryView)
    requires
        rooted::rooted(before),
        after == ledger::appended(before, entry),
    ensures
        rooted::rooted(after),
{
    assert forall|e: EntryView| #[trigger] before.entries.contains(e) implies after.entries.contains(e) by {
        rows::lemma_push_contains(before.entries, entry, e);
    }
    rooted::lemma_more_entries(before, after);
}

proof fn lemma_step_keeps<F: Fn(Reading) -> Clamped>(clamp: &F, scope: Scope, op: OpView, before: Progress, after: Progress)
    requires
        rooted::rooted(before.store),
        commit::op_step(clamp, scope, op, before, after, None),
    ensures
        rooted::rooted(after.store),
{
    let (a, b) = (before.store, after.store);
    match op {
        OpView::MintAttribute(_) => {
            rooted::lemma_more_entries(a, b);
        },
        OpView::AddAlias { .. } => {
            rooted::lemma_more_entries(a, b);
        },
        OpView::Roll(_) => {
            lemma_written_keeps(a, b, b.entries.last());
        },
        OpView::CreateEntity { id, kind, name, appearance_anchor } => {
            let draft = repository::creation_draft(
                id,
                scope.story_id,
                kind,
                name,
                appearance_anchor,
                crate::narrator::tools::NARRATOR_TOOL@,
                Some(scope.passage_id),
                Some(scope.turn_id),
            );
            let made = choose|made: AppResult<Entity>|
                #[trigger] repository::creation_outcome(a, b, id, draft, kind, name, appearance_anchor, made)
                    && None::<ErrorView> == commit::failure_of(made);
            rooted::law_recording_keeps_rows_rooted(a, b, draft);
        },
        OpView::UpdateEntity { id, name, appearance_anchor } => {
            let made = choose|made: AppResult<Entity>|
                #[trigger] commit::update_ends(scope, op, before, after, made) && None::<ErrorView>
                    == commit::failure_of(made);
            let entity = repository::present_entity(a, scope.story_id, id)->0;
            let draft = repository::update_draft(
                entity,
                scope.story_id,
                id,
                name,
                appearance_anchor,
                crate::narrator::tools::NARRATOR_TOOL@,
                Some(scope.passage_id),
                Some(scope.turn_id),
            );
            rooted::law_recording_keeps_rows_rooted(a, b, draft);
        },
        OpView::AdjustAttribute { entity_id, attribute, delta, cause, dramatic } => {
            let settled = commit::settled_attribute(before, attribute)->Ok_0;
            let (reading, clamped, made) = choose|reading: Reading, clamped: Clamped, made: AppResult<(Double, Double)>|
                #[trigger] call_ensures(clamp, (reading,), clamped) && #[trigger] commit::adjust_ends(
                    scope,
                    op,
                    settled,
                    reading@,
                    clamped@,
                    before,
                    after,
                    made,
                ) && None::<ErrorView> == commit::failure_of(made);
            if !attributes::locked(a, scope.story_id, entity_id, settled.id) {
                let from = attributes::value_before(reading@, clamped@);
                let draft = attributes::inferred_draft(
                    scope.story_id,
                    entity_id,
                    settled,
                    from,
                    clamped@,
                    cause,
                    scope.passage_id,
                    Some(scope.turn_id),
                );
                rooted::law_recording_keeps_rows_rooted(a, b, draft);
            }
        },
    }
}

proof fn lemma_ops_keep<F: Fn(Reading) -> Clamped>(
    clamp: &F,
    scope: Scope,
    ops: Seq<OpView>,
    before: Progress,
    after: Progress,
)
    requires
        rooted::rooted(before.store),
        commit::ops_run(clamp, scope, ops, before, after, None),
    ensures
        rooted::rooted(after.store),
    decreases ops.len(),
{
    if ops.len() > 0 {
        let mid = choose|mid: Progress|
            commit::ops_run(clamp, scope, ops.drop_last(), before, mid, None) && #[trigger] commit::op_step(
                clamp,
                scope,
                ops.last(),
                mid,
                after,
                None,
            );
        lemma_ops_keep(clamp, scope, ops.drop_last(), before, mid);
        lemma_step_keeps(clamp, scope, ops.last(), mid, after);
    }
}

proof fn lemma_calls_keep(scope: Scope, calls: Seq<PendingToolCallView>, before: StoreView, after: StoreView)
    requires
        rooted::rooted(before),
        commit::calls_run(scope, calls, before, after, None),
    ensures
        rooted::rooted(after),
    decreases calls.len(),
{
    if calls.len() > 0 {
        let mid = choose|mid: StoreView|
            commit::calls_run(scope, calls.drop_last(), before, mid, None) && #[trigger] commit::append_result(
                mid,
                after,
                commit::call_draft(scope, calls.last()),
                None,
            );
        lemma_calls_keep(scope, calls.drop_last(), before, mid);
        lemma_written_keeps(mid, after, after.entries.last());
    }
}

/// Where all that a turn changed is written down, every state and every value still stems from an
/// entry that is there.
pub proof fn law_changes_keep_rows_rooted<F: Fn(Reading) -> Clamped>(
    clamp: &F,
    scope: Scope,
    staging: StagingView,
    before: StoreView,
    after: StoreView,
)
    requires
        rooted::rooted(before),
        commit::committed(clamp, scope, staging, before, after, None),
    ensures
        rooted::rooted(after),
{
    let start = Progress { store: before, canonical: Seq::empty() };
    let (mid, broken) = choose|mid: Progress, broken: Option<ErrorView>|
        #[trigger] commit::ops_run(clamp, scope, staging.pending, start, mid, broken) && (if broken is Some {
            after == mid.store && None::<ErrorView> == broken
        } else {
            commit::calls_run(scope, staging.tool_calls, mid.store, after, None)
        });
    lemma_ops_keep(clamp, scope, staging.pending, start, mid);
    lemma_calls_keep(scope, staging.tool_calls, mid.store, after);
}

} // verus!
