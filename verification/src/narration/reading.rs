//! What a story reads as after the narrator told something, or told it anew.

use vstd::prelude::*;

use super::passage;
use super::passage::Telling;
use super::repository as messages;
use super::retry;
use super::retry::SnapshotView;
use super::rewind;
use super::undone;
use crate::compaction::summary;
use crate::double::Double;
use crate::entities::attributes;
use crate::entities::attributes::{Clamped, Reading};
use crate::entities::model::Entity;
use crate::entities::projection;
use crate::entities::repository;
use crate::entities::rooted;
use crate::error::{AppResult, ErrorView};
use crate::ledger::cascade;
use crate::ledger::kind;
use crate::ledger::model::EntryView;
use crate::ledger::reducer;
use crate::ledger::repository as ledger;
use crate::ledger::repository::DraftView;
use crate::narrator::commit;
use crate::narrator::commit::{Progress, Scope};
use crate::narrator::staging::{OpView, PendingToolCallView, StagingView};
use crate::rows;
use crate::sequence;
use crate::store::StoreView;

verus! {

/// Whether an entry changes nothing of what a story reads as: it is no message and edits none.
pub open spec fn quiet(entry: EntryView) -> bool {
    !reducer::is_message(entry) && entry.kind != kind::CONTENT_EDITED@
}

/// Whether a ledger goes on from another with quiet entries.
pub open spec fn goes_on_quietly(before: Seq<EntryView>, after: Seq<EntryView>) -> bool {
    &&& before.len() <= after.len()
    &&& after.take(before.len() as int) == before
    &&& forall|i: int| before.len() <= i < after.len() ==> quiet(#[trigger] after[i])
}

proof fn lemma_on_and_on(a: Seq<EntryView>, b: Seq<EntryView>, c: Seq<EntryView>)
    requires
        goes_on_quietly(a, b),
        goes_on_quietly(b, c),
    ensures
        goes_on_quietly(a, c),
{
    assert(c.take(a.len() as int) =~= b.take(a.len() as int)) by {
        assert forall|i: int| 0 <= i < a.len() implies c[i] == b[i] by {
            assert(c.take(b.len() as int)[i] == b[i]);
        }
    }
    assert forall|i: int| a.len() <= i < c.len() implies quiet(#[trigger] c[i]) by {
        if i < b.len() {
            assert(c.take(b.len() as int)[i] == b[i]);
            assert(quiet(b[i]));
        }
    }
}

proof fn lemma_one_more(before: Seq<EntryView>, entry: EntryView)
    requires
        quiet(entry),
    ensures
        goes_on_quietly(before, before.push(entry)),
{
    assert(before.push(entry).take(before.len() as int) =~= before);
}

proof fn lemma_kinds_are_quiet(entry: EntryView)
    requires
        entry.kind == kind::DICEROLL@ || entry.kind == kind::TOOL_CALL@ || entry.kind == kind::ENTITY_CREATED@
            || entry.kind == kind::ENTITY_UPDATED@ || entry.kind == kind::ENTITY_DELETED@ || entry.kind
            == kind::ENTITY_ATTRIBUTE_CHANGED@ || entry.kind == kind::ENTITY_ATTRIBUTE_REMOVED@,
    ensures
        quiet(entry),
{
    reveal_strlit("player_message");
    reveal_strlit("narration");
    reveal_strlit("content_edited");
    reveal_strlit("diceroll");
    reveal_strlit("tool_call");
    reveal_strlit("entity_created");
    reveal_strlit("entity_updated");
    reveal_strlit("entity_deleted");
    reveal_strlit("entity_attribute_changed");
    reveal_strlit("entity_attribute_removed");
    assert(kind::PLAYER_MESSAGE@[0] == 'p');
    assert(kind::NARRATION@[0] == 'n');
    assert(kind::CONTENT_EDITED@[0] == 'c');
    assert(kind::DICEROLL@[0] == 'd');
    assert(kind::TOOL_CALL@[0] == 't');
    assert(kind::ENTITY_CREATED@[0] == 'e');
    assert(kind::ENTITY_UPDATED@[0] == 'e');
    assert(kind::ENTITY_DELETED@[0] == 'e');
    assert(kind::ENTITY_ATTRIBUTE_CHANGED@[0] == 'e');
    assert(kind::ENTITY_ATTRIBUTE_REMOVED@[0] == 'e');
}

proof fn lemma_record_goes_on(before: StoreView, after: StoreView, draft: DraftView, failure: Option<ErrorView>)
    requires
        draft.kind == kind::ENTITY_CREATED@ || draft.kind == kind::ENTITY_UPDATED@ || draft.kind
            == kind::ENTITY_DELETED@ || draft.kind == kind::ENTITY_ATTRIBUTE_CHANGED@ || draft.kind
            == kind::ENTITY_ATTRIBUTE_REMOVED@,
        match failure {
            None => projection::record_step(before, after, draft),
            Some(e) => projection::record_failure(before, after, draft, e),
        },
    ensures
        goes_on_quietly(before.entries, after.entries),
{
    assert(before.entries.take(before.entries.len() as int) =~= before.entries);
    match failure {
        None => {
            let entry = after.entries.last();
            let now = choose|now: Seq<char>|
                #[trigger] projection::recorded(before, draft.story_id, now, entry) == (after, None::<ErrorView>);
            assert(after.entries == before.entries.push(entry));
            lemma_kinds_are_quiet(entry);
            lemma_one_more(before.entries, entry);
        },
        Some(e) => {
            if after != before {
                let (now, id, created_at) = choose|now: Seq<char>, id: Seq<char>, created_at: Seq<char>|
                    #[trigger] projection::recorded(
                        before,
                        draft.story_id,
                        now,
                        ledger::drafted_entry(before, id, created_at, draft),
                    ) == (after, Some(e));
                let entry = ledger::drafted_entry(before, id, created_at, draft);
                assert(after.entries == before.entries.push(entry));
                lemma_kinds_are_quiet(entry);
                lemma_one_more(before.entries, entry);
            }
        },
    }
}

proof fn lemma_step_goes_on<F: Fn(Reading) -> Clamped>(
    clamp: &F,
    scope: Scope,
    op: OpView,
    before: Progress,
    after: Progress,
    failure: Option<ErrorView>,
)
    requires
        commit::op_step(clamp, scope, op, before, after, failure),
    ensures
        goes_on_quietly(before.store.entries, after.store.entries),
{
    let (a, b) = (before.store, after.store);
    assert(a.entries.take(a.entries.len() as int) =~= a.entries);
    match op {
        OpView::MintAttribute(_) => {},
        OpView::AddAlias { .. } => {},
        OpView::Roll(_) => {
            if b.entries != a.entries {
                let entry = b.entries.last();
                assert(b.entries == a.entries.push(entry));
                lemma_kinds_are_quiet(entry);
                lemma_one_more(a.entries, entry);
            }
        },
        OpView::CreateEntity { id, kind, name, appearance_anchor } => {
            if !crate::text::blank(name) {
                let draft = repository::creation_draft(
                    id,
                    scope.story_id,
                    kind,
                    name,
                    appearance_anchor,
                    crate::narrator::tools::NARRATOR_TOOL@,
                    Some(scope.passage_id),
                    Some(scope.turn_id),
                );
                let made = choose|made: AppResult<Entity>|
                    #[trigger] repository::creation_outcome(a, b, id, draft, kind, name, appearance_anchor, made)
                        && failure == commit::failure_of(made);
                lemma_record_goes_on(a, b, draft, failure);
            }
        },
        OpView::UpdateEntity { id, name, appearance_anchor } => {
            let made = choose|made: AppResult<Entity>|
                #[trigger] commit::update_ends(scope, op, before, after, made) && failure == commit::failure_of(made);
            if !crate::text::blank(name) {
                if let Some(entity) = repository::present_entity(a, scope.story_id, id) {
                    let draft = repository::update_draft(
                        entity,
                        scope.story_id,
                        id,
                        name,
                        appearance_anchor,
                        crate::narrator::tools::NARRATOR_TOOL@,
                        Some(scope.passage_id),
                        Some(scope.turn_id),
                    );
                    lemma_record_goes_on(a, b, draft, failure);
                }
            }
        },
        OpView::AdjustAttribute { entity_id, attribute, delta, cause, dramatic } => {
            if let Ok(settled) = commit::settled_attribute(before, attribute) {
                let (reading, clamped, made) = choose|reading: Reading, clamped: Clamped, made: AppResult<(Double, Double)>|
                    #[trigger] call_ensures(clamp, (reading,), clamped) && #[trigger] commit::adjust_ends(
                        scope,
                        op,
                        settled,
                        reading@,
                        clamped@,
                        before,
                        after,
                        made,
                    ) && failure == commit::failure_of(made);
                if !attributes::locked(a, scope.story_id, entity_id, settled.id) {
                    let from = attributes::value_before(reading@, clamped@);
                    let draft = attributes::inferred_draft(
                        scope.story_id,
                        entity_id,
                        settled,
                        from,
                        clamped@,
                        cause,
                        scope.passage_id,
                        Some(scope.turn_id),
                    );
                    lemma_record_goes_on(a, b, draft, failure);
                }
            }
        },
    }
}

proof fn lemma_ops_go_on<F: Fn(Reading) -> Clamped>(
    clamp: &F,
    scope: Scope,
    ops: Seq<OpView>,
    before: Progress,
    after: Progress,
    failure: Option<ErrorView>,
)
    requires
        commit::ops_run(clamp, scope, ops, before, after, failure),
    ensures
        goes_on_quietly(before.store.entries, after.store.entries),
    decreases ops.len(),
{
    if ops.len() == 0 {
        assert(before.store.entries.take(before.store.entries.len() as int) =~= before.store.entries);
    } else if failure is Some && commit::ops_run(clamp, scope, ops.drop_last(), before, after, failure) {
        lemma_ops_go_on(clamp, scope, ops.drop_last(), before, after, failure);
    } else {
        let mid = choose|mid: Progress|
            commit::ops_run(clamp, scope, ops.drop_last(), before, mid, None) && #[trigger] commit::op_step(
                clamp,
                scope,
                ops.last(),
                mid,
                after,
                failure,
            );
        lemma_ops_go_on(clamp, scope, ops.drop_last(), before, mid, None);
        lemma_step_goes_on(clamp, scope, ops.last(), mid, after, failure);
        lemma_on_and_on(before.store.entries, mid.store.entries, after.store.entries);
    }
}

proof fn lemma_calls_go_on(
    scope: Scope,
    calls: Seq<PendingToolCallView>,
    before: StoreView,
    after: StoreView,
    failure: Option<ErrorView>,
)
    requires
        commit::calls_run(scope, calls, before, after, failure),
    ensures
        goes_on_quietly(before.entries, after.entries),
    decreases calls.len(),
{
    if calls.len() == 0 {
        assert(before.entries.take(before.entries.len() as int) =~= before.entries);
    } else if failure is Some && commit::calls_run(scope, calls.drop_last(), before, after, failure) {
        lemma_calls_go_on(scope, calls.drop_last(), before, after, failure);
    } else {
        let mid = choose|mid: StoreView|
            commit::calls_run(scope, calls.drop_last(), before, mid, None) && #[trigger] commit::append_result(
                mid,
                after,
                commit::call_draft(scope, calls.last()),
                failure,
            );
        lemma_calls_go_on(scope, calls.drop_last(), before, mid, None);
        if failure is None {
            let entry = after.entries.last();
            assert(after.entries == mid.entries.push(entry));
            lemma_kinds_are_quiet(entry);
            lemma_one_more(mid.entries, entry);
            lemma_on_and_on(before.entries, mid.entries, after.entries);
        }
    }
}

/// What a turn of the narrator changes is written behind all that the ledger held, and no message
/// is added or changed by it, whether or not all of it could be written.
pub proof fn law_changes_go_on_quietly<F: Fn(Reading) -> Clamped>(
    clamp: &F,
    scope: Scope,
    staging: StagingView,
    before: StoreView,
    after: StoreView,
    failure: Option<ErrorView>,
)
    requires
        commit::committed(clamp, scope, staging, before, after, failure),
    ensures
        goes_on_quietly(before.entries, after.entries),
{
    let start = Progress { store: before, canonical: Seq::empty() };
    let (mid, broken) = choose|mid: Progress, broken: Option<ErrorView>|
        #[trigger] commit::ops_run(clamp, scope, staging.pending, start, mid, broken) && (if broken is Some {
            after == mid.store && failure == broken
        } else {
            commit::calls_run(scope, staging.tool_calls, mid.store, after, failure)
        });
    lemma_ops_go_on(clamp, scope, staging.pending, start, mid, broken);
    if broken is None {
        lemma_calls_go_on(scope, staging.tool_calls, mid.store, after, failure);
        lemma_on_and_on(before.entries, mid.store.entries, after.entries);
    }
}

proof fn lemma_quiet_entry_read(entries: Seq<EntryView>, entry: EntryView, story_id: Seq<char>)
    requires
        quiet(entry),
    ensures
        reducer::active_messages(ledger::story_entries(entries.push(entry), story_id)) == reducer::active_messages(
            ledger::story_entries(entries, story_id),
        ),
{
    let own = ledger::own_since(story_id, i64::MIN);
    let number = ledger::entry_number();
    let all = entries.push(entry);
    let f = entries.filter(own);
    let s = ledger::story_entries(entries, story_id);
    let t = ledger::story_entries(all, story_id);
    reveal(Seq::filter);
    assert(all.drop_last() =~= entries);
    if own(entry) {
        assert(all.filter(own) == f.push(entry));
        assert(f.push(entry).drop_last() =~= f);
        let is = |e: EntryView| reducer::is_message(e);
        sequence::lemma_filter(f.push(entry), number, is);
        sequence::lemma_filter(f, number, is);
        assert(t.filter(is) == s.filter(is));
        assert forall|e: EntryView| #[trigger] reducer::active(t, e) == reducer::active(s, e) by {
            let p = |x: EntryView| reducer::edits(x, e.id);
            assert(!p(entry));
            sequence::lemma_filter(f.push(entry), number, p);
            sequence::lemma_filter(f, number, p);
            rows::lemma_last_where_filtered(t, p, p);
            rows::lemma_last_where_filtered(s, p, p);
        }
        assert(reducer::active_messages(t) =~= reducer::active_messages(s));
    } else {
        assert(t == s);
    }
}

proof fn lemma_reads_the_same(before: Seq<EntryView>, after: Seq<EntryView>, story_id: Seq<char>)
    requires
        goes_on_quietly(before, after),
    ensures
        reducer::active_messages(ledger::story_entries(after, story_id)) == reducer::active_messages(
            ledger::story_entries(before, story_id),
        ),
    decreases after.len(),
{
    if after.len() == before.len() {
        assert(after.take(before.len() as int) =~= after);
    } else {
        let front = after.drop_last();
        assert(front.take(before.len() as int) =~= after.take(before.len() as int));
        assert forall|i: int| before.len() <= i < front.len() implies quiet(#[trigger] front[i]) by {
            assert(front[i] == after[i]);
        }
        lemma_reads_the_same(before, front, story_id);
        assert(quiet(after[after.len() - 1]));
        lemma_quiet_entry_read(front, after.last(), story_id);
        assert(front.push(after.last()) =~= after);
    }
}

proof fn lemma_new_message_read(entries: Seq<EntryView>, message: EntryView)
    requires
        reducer::is_message(message),
        ledger::newest(entries, message),
        forall|i: int| 0 <= i < entries.len() ==> (#[trigger] entries[i]).target_entry_id != Some(message.id),
    ensures
        reducer::active_messages(ledger::story_entries(entries.push(message), message.story_id))
            == reducer::active_messages(ledger::story_entries(entries, message.story_id)).push(message),
{
    kind::lemma_kinds_differ();
    let all = entries.push(message);
    reveal(Seq::filter);
    ledger::lemma_listed_push(entries, message, message.story_id, i64::MIN);
    let s = ledger::story_entries(entries, message.story_id);
    let t = ledger::story_entries(all, message.story_id);
    assert(t == s.push(message));
    assert(t.drop_last() =~= s);
    let is = |e: EntryView| reducer::is_message(e);
    assert(t.filter(is) == s.filter(is).push(message));
    assert forall|e: EntryView| #[trigger] reducer::active(t, e) == reducer::active(s, e) by {
        let p = |x: EntryView| reducer::edits(x, e.id);
        assert(t.last() == message);
        assert(!p(t.last()));
        assert(rows::last_where(t, p) == rows::last_where(s, p));
    }
    assert forall|i: int| 0 <= i < s.len() implies !reducer::edits(#[trigger] s[i], message.id) by {
        assert(s.contains(s[i]));
        ledger::lemma_listed(entries, message.story_id, i64::MIN, s[i]);
        let k = choose|k: int| 0 <= k < entries.len() && entries[k] == s[i];
        assert(entries[k].target_entry_id != Some(message.id));
    }
    reducer::law_unedited_reads_as_written(s, message);
    assert(reducer::active_messages(t) =~= reducer::active_messages(s).push(message));
}

/// Whether messages stand on their own: none is about another entry.
pub open spec fn messages_stand_alone(entries: Seq<EntryView>) -> bool {
    forall|i: int|
        0 <= i < entries.len() && reducer::is_message(#[trigger] entries[i]) ==> entries[i].target_entry_id is None
}

/// Whether every entry that is about another is about one that its story has.
pub open spec fn anchored(entries: Seq<EntryView>) -> bool {
    forall|i: int|
        0 <= i < entries.len() && (#[trigger] entries[i]).target_entry_id is Some ==> ledger::belongs(
            entries,
            entries[i].target_entry_id->0,
            entries[i].story_id,
        )
}

proof fn lemma_no_target(entries: Seq<EntryView>, i: int, id: Seq<char>)
    requires
        anchored(entries),
        0 <= i < entries.len(),
        !ledger::holds_id(entries, id),
    ensures
        entries[i].target_entry_id != Some(id),
{
    if entries[i].target_entry_id == Some(id) {
        let story_id = entries[i].story_id;
        assert(ledger::belongs(entries, id, story_id));
        let p = |e: EntryView| e.id == id && e.story_id == story_id;
        let k = choose|k: int| 0 <= k < entries.len() && p(#[trigger] entries[k]);
        let q = |e: EntryView| e.id == id;
        assert(q(entries[k]));
    }
}

proof fn lemma_message_is_doomed_alone(entries: Seq<EntryView>, root: Seq<char>, message: EntryView)
    requires
        ledger::distinct_ids(entries),
        messages_stand_alone(entries),
        entries.contains(message),
        reducer::is_message(message),
    ensures
        cascade::doomed(entries, root, message.id) <==> message.id == root,
{
    if message.id == root {
        assert(cascade::reaches(entries, root, 0, message.id));
    } else if cascade::doomed(entries, root, message.id) {
        let steps = choose|steps: nat| cascade::reaches(entries, root, steps, message.id);
        let i = choose|i: int|
            0 <= i < entries.len() && (#[trigger] entries[i]).id == message.id && entries[i].target_entry_id is Some
                && cascade::reaches(entries, root, (steps - 1) as nat, entries[i].target_entry_id->0);
        let k = choose|k: int| 0 <= k < entries.len() && entries[k] == message;
        assert(i == k);
        assert(reducer::is_message(entries[k]));
    }
}

proof fn lemma_edit_stays(entries: Seq<EntryView>, root: Seq<char>, message: EntryView, edit: EntryView)
    requires
        ledger::distinct_ids(entries),
        messages_stand_alone(entries),
        entries.contains(message),
        reducer::is_message(message),
        message.id != root,
        entries.contains(edit),
        reducer::edits(edit, message.id),
        ledger::entry_with_id(entries, root) is Some,
        reducer::is_message(ledger::entry_with_id(entries, root)->0),
    ensures
        !cascade::doomed(entries, root, edit.id),
{
    kind::lemma_kinds_differ();
    let k = choose|k: int| 0 <= k < entries.len() && entries[k] == edit;
    if cascade::doomed(entries, root, edit.id) {
        let steps = choose|steps: nat| cascade::reaches(entries, root, steps, edit.id);
        let r = rows::lemma_first_where(entries, ledger::entry_is(root));
        if edit.id == root {
            assert(entries[r].id == root);
            assert(r == k);
        } else {
            let i = choose|i: int|
                0 <= i < entries.len() && (#[trigger] entries[i]).id == edit.id && entries[i].target_entry_id is Some
                    && cascade::reaches(entries, root, (steps - 1) as nat, entries[i].target_entry_id->0);
            assert(i == k);
            assert(cascade::doomed(entries, root, message.id));
            lemma_message_is_doomed_alone(entries, root, message);
        }
    }
}

/// Where the last message of a story goes with what came of it, the others read as before.
pub proof fn law_the_others_read_as_before(store: StoreView, story_id: Seq<char>, target_id: Seq<char>, now: Seq<char>)
    requires
        ledger::distinct_ids(store.entries),
        messages_stand_alone(store.entries),
        messages::last_message(store, story_id) is Some,
        messages::last_message(store, story_id)->0.id == target_id,
        rewind::reply_removed(store, story_id, target_id, now) is Ok,
    ensures
        messages::messages_of(rewind::reply_removed(store, story_id, target_id, now)->Ok_0.0, story_id)
            == messages::messages_of(store, story_id).drop_last(),
{
    kind::lemma_kinds_differ();
    lemma_summary_is_no_message();
    let all = store.entries;
    let found = rewind::message_effects(store, target_id, Seq::empty());
    let left = rewind::without_message(store, target_id, found);
    let unc = summary::uncovered(story_id, found.doomed);
    let pruned = StoreView { entries: left.entries.filter(unc), ..left };
    projection::law_replay_keeps_the_record(
        pruned,
        projection::ReplayScope { story_id, ids: found.affected.to_set(), exclude_turn: None, now },
    );
    let start = rewind::reply_removed(store, story_id, target_id, now)->Ok_0.0;
    let nd = |e: EntryView| !cascade::doomed(all, target_id, e.id);
    assert(start.entries == all.filter(nd).filter(unc));
    let is = |e: EntryView| reducer::is_message(e);
    let keep = |e: EntryView| nd(e) && unc(e);
    let other = |e: EntryView| e.id != target_id;
    let s = ledger::story_entries(all, story_id);
    let t = ledger::story_entries(start.entries, story_id);
    rows::lemma_filter_both(all, nd, unc, keep);
    ledger::lemma_listed_filter(all, story_id, i64::MIN, keep);
    assert(t == s.filter(keep));
    let m = s.filter(is);
    rows::lemma_filter_filter(s, keep, is);
    assert(t.filter(is) == m.filter(keep));
    let rel = |a: EntryView, b: EntryView| a.id != b.id;
    ledger::lemma_listed_distinct(all, story_id, i64::MIN);
    rows::lemma_filter_pairwise(s, is, rel);
    assert forall|i: int| 0 <= i < m.len() implies all.contains(#[trigger] m[i]) && reducer::is_message(m[i]) by {
        assert(m.contains(m[i]));
        rows::lemma_filter_member(s, is, m[i]);
        ledger::lemma_listed(all, story_id, i64::MIN, m[i]);
    }
    assert forall|i: int| 0 <= i < m.len() implies keep(#[trigger] m[i]) == other(m[i]) by {
        lemma_message_is_doomed_alone(all, target_id, m[i]);
        assert(m[i].kind != kind::CONTEXT_SUMMARY@);
    }
    rows::lemma_filter_same(m, keep, other);
    let before = reducer::active_messages(s);
    assert(before.last() == reducer::active(s, m.last()));
    assert(m.last().id == target_id);
    let front = m.drop_last();
    assert forall|i: int| 0 <= i < front.len() implies other(#[trigger] front[i]) by {
        assert(rel(m[i], m[m.len() - 1]));
    }
    rows::lemma_filter_all(front, other);
    assert(m.filter(other) == front) by {
        reveal(Seq::filter);
    }
    rows::lemma_first_where(all, ledger::entry_is(target_id));
    assert forall|i: int| 0 <= i < front.len() implies #[trigger] reducer::active(t, front[i]) == reducer::active(
        s,
        front[i],
    ) by {
        let message = front[i];
        assert(message == m[i]);
        assert(other(front[i]));
        let p = |e: EntryView| reducer::edits(e, message.id);
        assert forall|k: int| 0 <= k < s.len() && p(#[trigger] s[k]) implies keep(s[k]) by {
            assert(s.contains(s[k]));
            ledger::lemma_listed(all, story_id, i64::MIN, s[k]);
            lemma_edit_stays(all, target_id, message, s[k]);
        }
        rows::lemma_last_where_kept(s, keep, p);
    }
    assert(reducer::active_messages(t) =~= before.drop_last());
}

proof fn lemma_summary_is_no_message()
    ensures
        kind::CONTEXT_SUMMARY@ != kind::PLAYER_MESSAGE@,
        kind::CONTEXT_SUMMARY@ != kind::NARRATION@,
        kind::CONTEXT_SUMMARY@ != kind::CONTENT_EDITED@,
{
    reveal_strlit("context_summary");
    reveal_strlit("player_message");
    reveal_strlit("narration");
    reveal_strlit("content_edited");
    assert(kind::CONTEXT_SUMMARY@[0] == 'c');
    assert(kind::PLAYER_MESSAGE@[0] == 'p');
    assert(kind::NARRATION@[0] == 'n');
    assert(kind::CONTEXT_SUMMARY@[4] == 'e');
    assert(kind::CONTENT_EDITED@[4] == 'e');
    assert(kind::CONTEXT_SUMMARY@[5] == 'x');
    assert(kind::CONTENT_EDITED@[5] == 'n');
}

/// What the narrator told is the last message of the story, with the words that were told, and all
/// earlier messages read as before.
pub proof fn law_told_message_is_the_last<F: Fn(Reading) -> Clamped>(
    clamp: &F,
    telling: Telling,
    staging: Option<StagingView>,
    before: StoreView,
    mid: StoreView,
    after: StoreView,
)
    requires
        anchored(before.entries),
        passage::told(clamp, telling, staging, before, mid, after, None),
    ensures
        mid.entries.last().content == Some(telling.visible),
        messages::messages_of(after, telling.story_id) == messages::messages_of(before, telling.story_id).push(
            mid.entries.last(),
        ),
{
    reveal_strlit("narrator");
    reveal_strlit("player");
    assert("narrator"@[0] == 'n');
    assert("player"@[0] == 'p');
    let told = mid.entries.last();
    assert(mid.entries == before.entries.push(told));
    assert forall|i: int| 0 <= i < before.entries.len() implies (#[trigger] before.entries[i]).target_entry_id != Some(
        told.id,
    ) by {
        lemma_no_target(before.entries, i, told.id);
    }
    ledger::lemma_drafted_is_newest(before, told.id, told.created_at, passage::passage_draft(telling));
    lemma_new_message_read(before.entries, told);
    match staging {
        Some(changes) => {
            law_changes_go_on_quietly(
                clamp,
                Scope { story_id: changes.story_id, passage_id: told.id, turn_id: telling.turn_id },
                changes,
                mid,
                after,
                None,
            );
        },
        None => {
            assert(mid.entries.take(mid.entries.len() as int) =~= mid.entries);
        },
    }
    lemma_reads_the_same(mid.entries, after.entries, telling.story_id);
}

/// Where the last message of the narrator is replaced, what was told in its place is the last
/// message of the story with the words that were told, all earlier messages read as before, and
/// no entry is lost but the old message, what is about it, and the summaries that speak of these.
/// These are gone: behind what is left of the ledger stand the new message and what it changed. So
/// is what they did to entities: the tables hold what the rest of the ledger told of them, then
/// what the new message changed, and every state and value stems from an entry that is there.
pub proof fn law_replacement_is_the_last_message<F: Fn(Reading) -> Clamped>(
    clamp: &F,
    store: StoreView,
    snapshot: SnapshotView,
    telling: Telling,
    target_id: Seq<char>,
    now: Seq<char>,
    staging: Option<StagingView>,
    mid: StoreView,
    end: StoreView,
    entry: EntryView,
)
    requires
        ledger::distinct_ids(store.entries),
        messages_stand_alone(store.entries),
        anchored(store.entries),
        retry::cleared_for(store, snapshot, telling.story_id, target_id, telling.visible, now) is Ok,
        retry::replaced_by(
            clamp,
            telling,
            staging,
            retry::cleared_for(store, snapshot, telling.story_id, target_id, telling.visible, now)->Ok_0.0,
            mid,
            end,
            Ok(entry),
        ),
        !ledger::holds_id(store.entries, mid.entries.last().id),
    ensures
        entry.kind == kind::NARRATION@,
        entry.content == Some(telling.visible),
        messages::last_message(end, telling.story_id) == Some(entry),
        messages::messages_of(end, telling.story_id) == messages::messages_of(store, telling.story_id).drop_last().push(
            entry,
        ),
        forall|kept: EntryView|
            store.entries.contains(kept) && !cascade::doomed(store.entries, target_id, kept.id) && !summary::covers(
                telling.story_id,
                rewind::message_effects(store, target_id, Seq::empty()).doomed,
            )(kept) ==> #[trigger] end.entries.contains(kept),
        ({
            let done = rewind::reply_removed(store, telling.story_id, target_id, now)->Ok_0.0;
            &&& forall|left: EntryView|
                #[trigger] done.entries.contains(left) ==> store.entries.contains(left) && !cascade::doomed(
                    store.entries,
                    target_id,
                    left.id,
                )
            &&& goes_on_quietly(done.entries.push(entry), end.entries)
            &&& mid.entities == done.entities && mid.states == done.states && mid.attributes == done.attributes
            &&& match staging {
                None => end == mid,
                Some(changes) => commit::committed(
                    clamp,
                    Scope { story_id: changes.story_id, passage_id: entry.id, turn_id: telling.turn_id },
                    changes,
                    mid,
                    end,
                    None,
                ),
            }
        }),
        rooted::rooted(store) ==> rooted::rooted(end),
{
    reveal_strlit("narrator");
    reveal_strlit("player");
    assert("narrator"@[0] == 'n');
    assert("player"@[0] == 'p');
    let story_id = telling.story_id;
    let start = retry::cleared_for(store, snapshot, story_id, target_id, telling.visible, now)->Ok_0.0;
    let done = rewind::reply_removed(store, story_id, target_id, now)->Ok_0.0;
    assert(start.entries == done.entries);
    law_the_others_read_as_before(store, story_id, target_id, now);
    let told = mid.entries.last();
    assert(mid.entries == start.entries.push(told));
    assert(told.kind == kind::NARRATION@);
    rewind::lemma_message_gone(store, story_id, target_id, Seq::empty(), now);
    assert forall|i: int| 0 <= i < start.entries.len() implies (#[trigger] start.entries[i]).target_entry_id != Some(
        told.id,
    ) by {
        assert(start.entries.contains(start.entries[i]));
        let k = choose|k: int| 0 <= k < store.entries.len() && store.entries[k] == start.entries[i];
        lemma_no_target(store.entries, k, told.id);
    }
    ledger::lemma_drafted_is_newest(start, told.id, told.created_at, passage::passage_draft(telling));
    lemma_new_message_read(start.entries, told);
    match staging {
        Some(changes) => {
            law_changes_go_on_quietly(
                clamp,
                Scope { story_id: changes.story_id, passage_id: told.id, turn_id: telling.turn_id },
                changes,
                mid,
                end,
                None,
            );
        },
        None => {
            assert(mid.entries.take(mid.entries.len() as int) =~= mid.entries);
        },
    }
    lemma_reads_the_same(mid.entries, end.entries, story_id);
    let earlier = messages::messages_of(store, story_id).drop_last();
    assert(messages::messages_of(end, story_id) == earlier.push(told));
    // The entry that is found again is the message that was put down.
    let p = ledger::entry_is(told.id);
    let n = start.entries.len() as int;
    assert(end.entries.take(mid.entries.len() as int)[n] == told);
    assert forall|k: int| 0 <= k < n implies !p(#[trigger] end.entries[k]) by {
        assert(end.entries.take(mid.entries.len() as int)[k] == start.entries[k]);
        assert(start.entries.contains(start.entries[k]));
        let j = choose|j: int| 0 <= j < store.entries.len() && store.entries[j] == start.entries[k];
        assert(store.entries[j].id != told.id);
    }
    rows::lemma_first_where_hit(end.entries, p, n);
    assert forall|k: int| 0 <= k < earlier.len() implies !p(#[trigger] earlier.push(told)[k]) by {
        let s = ledger::story_entries(store.entries, story_id);
        let is = |e: EntryView| reducer::is_message(e);
        let m = s.filter(is);
        assert(earlier[k] == reducer::active(s, m[k]));
        assert(m.contains(m[k]));
        rows::lemma_filter_member(s, is, m[k]);
        ledger::lemma_listed(store.entries, story_id, i64::MIN, m[k]);
        let j = choose|j: int| 0 <= j < store.entries.len() && store.entries[j] == m[k];
        assert(store.entries[j].id != told.id);
    }
    rows::lemma_first_where_hit(earlier.push(told), p, earlier.len() as int);
    assert(entry == told);
    assert forall|kept: EntryView|
        store.entries.contains(kept) && !cascade::doomed(store.entries, target_id, kept.id) && !summary::covers(
            story_id,
            rewind::message_effects(store, target_id, Seq::empty()).doomed,
        )(kept) implies #[trigger] end.entries.contains(kept) by {
        rewind::law_removed_message_goes_with_what_came_of_it(store, story_id, target_id, Seq::empty(), now, kept);
        assert(start.entries.contains(kept));
        let i = choose|i: int| 0 <= i < start.entries.len() && start.entries[i] == kept;
        assert(end.entries.take(mid.entries.len() as int)[i] == kept);
        assert(end.entries[i] == kept);
    }
    assert forall|left: EntryView| #[trigger] done.entries.contains(left) implies store.entries.contains(left)
        && !cascade::doomed(store.entries, target_id, left.id) by {
        rewind::law_removed_message_goes_with_what_came_of_it(store, story_id, target_id, Seq::empty(), now, left);
    }
    if rooted::rooted(store) {
        undone::law_removed_reply_leaves_rows_rooted(store, story_id, target_id, now);
        assert forall|e: EntryView| #[trigger] done.entries.contains(e) implies mid.entries.contains(e) by {
            rows::lemma_push_contains(start.entries, told, e);
        }
        rooted::lemma_more_entries(done, mid);
        if let Some(changes) = staging {
            undone::law_changes_keep_rows_rooted(
                clamp,
                Scope { story_id: changes.story_id, passage_id: told.id, turn_id: telling.turn_id },
                changes,
                mid,
                end,
            );
        }
    }
}

} // verus!
