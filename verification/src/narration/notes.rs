//! Writing down what a turn noted, together with what it changed, in the order in which both came.

use vstd::prelude::*;

use super::model;
use super::model::ActiveStoryEntry;
use super::passage;
use super::passage::Telling;
use super::repository;
use super::staged::{Note, NoteView, Noted, NotedView, PendingCheck, PendingCheckView};
use super::tools;
use crate::dicerolls::commands;
use crate::double;
use crate::entities::attributes::{Clamped, Reading};
use crate::error::{AppResult, ErrorView};
use crate::json;
use crate::json::{Json, JsonView};
use crate::ledger::kind;
use crate::ledger::model::{EntryView, HIDDEN};
use crate::ledger::repository as ledger;
use crate::ledger::repository::{Draft, DraftView};
use crate::narrator::commit;
use crate::narrator::commit::{Progress, Scope};
use crate::narrator::staging::{OpView, PendingOp, StagingView, TurnStaging};
use crate::rows;
use crate::store::{Store, StoreView};

verus! {

/// What an entry tells of a check: who it was rolled for and against, by which values, and how it
/// came out.
pub open spec fn check_payload(check: PendingCheckView) -> JsonView {
    JsonView::Object(
        seq![
            ("actor_attribute_id"@, json::optional_text(check.actor_attribute_id)),
            ("actor_entity_id"@, JsonView::Str(check.actor_entity_id)),
            ("actor_value"@, json::double_value(check.actor_value)),
            ("degree"@, JsonView::Str(check.output.degree)),
            (
                "modifiers"@,
                JsonView::Object(seq![("situational"@, json::double_value(check.modifier))]),
            ),
            ("needed"@, json::int_value(check.output.needed)),
            ("outcome"@, JsonView::Str(check.output.outcome)),
            ("p_success"@, json::double_value(check.output.p_success)),
            ("roll"@, json::int_value(check.output.roll)),
            ("seed"@, json::int_value(check.output.seed)),
            ("target_attribute_id"@, json::optional_text(check.target_attribute_id)),
            ("target_entity_id"@, json::optional_text(check.target_entity_id)),
            ("target_value"@, json::optional_double(check.target_value)),
        ],
    )
}

/// What a check is put down as: a hidden entry about the passage, which has no words of its own.
pub open spec fn check_draft(story_id: Seq<char>, passage_id: Seq<char>, check: PendingCheckView) -> DraftView {
    DraftView {
        story_id,
        kind: kind::DICEROLL@,
        visibility: HIDDEN@,
        content: None,
        payload: check_payload(check),
        target_entry_id: Some(passage_id),
        turn_id: None,
    }
}

/// What a note is put down as, where the tables stand as given.
pub open spec fn note_draft(store: StoreView, scope: Scope, note: NoteView) -> DraftView {
    match note {
        NoteView::Check(check) => check_draft(scope.story_id, scope.passage_id, check),
        NoteView::Query { entity_ids, kind_filter, name_filter } => tools::query_draft(
            store,
            scope.story_id,
            entity_ids,
            kind_filter,
            name_filter,
            scope.passage_id,
        ),
    }
}

/// What a turn has to write down: a change, or a note.
#[verifier::ext_equal]
pub enum ItemView {
    Change(OpView),
    Note(NoteView),
}

/// A change or a note of a turn.
pub enum Item<'a> {
    Change(&'a PendingOp),
    Note(&'a Note),
}

impl<'a> View for Item<'a> {
    type V = ItemView;

    open spec fn view(&self) -> ItemView {
        match *self {
            Item::Change(op) => ItemView::Change(op@),
            Item::Note(note) => ItemView::Note(note@),
        }
    }
}

impl<'a> DeepView for Item<'a> {
    type V = ItemView;

    open spec fn deep_view(&self) -> ItemView {
        self@
    }
}

/// The condition of being noted before a change that so many went before, or behind the last one.
pub open spec fn due(changes: nat, last: bool) -> spec_fn(NotedView) -> bool {
    |noted: NotedView| noted.changes == changes || last && noted.changes > changes
}

/// A note among what a turn has to write down.
pub open spec fn as_item() -> spec_fn(NotedView) -> ItemView {
    |noted: NotedView| ItemView::Note(noted.note)
}

/// The first changes of a turn, each with the notes that were taken before it in front of it.
pub open spec fn lined_up(pending: Seq<OpView>, notes: Seq<NotedView>, n: nat) -> Seq<ItemView>
    decreases n,
{
    if n == 0 {
        Seq::empty()
    } else {
        (lined_up(pending, notes, (n - 1) as nat) + notes.filter(due((n - 1) as nat, false)).map_values(as_item())).push(
            ItemView::Change(pending[n - 1]),
        )
    }
}

/// All that a turn has to write down, in the order in which it came.
pub open spec fn items_of(pending: Seq<OpView>, notes: Seq<NotedView>) -> Seq<ItemView> {
    lined_up(pending, notes, pending.len()) + notes.filter(due(pending.len(), true)).map_values(as_item())
}

/// What writing down a change or a note comes to.
pub open spec fn item_step<F: Fn(Reading) -> Clamped>(
    clamp: &F,
    scope: Scope,
    item: ItemView,
    before: Progress,
    after: Progress,
    failure: Option<ErrorView>,
) -> bool {
    match item {
        ItemView::Change(op) => commit::op_step(clamp, scope, op, before, after, failure),
        ItemView::Note(note) => {
            &&& after.canonical == before.canonical
            &&& commit::append_result(before.store, after.store, note_draft(before.store, scope, note), failure)
        },
    }
}

/// What writing down a run of changes and notes comes to: each follows on the one before it, and
/// the first that fails ends the run.
pub open spec fn items_run<F: Fn(Reading) -> Clamped>(
    clamp: &F,
    scope: Scope,
    items: Seq<ItemView>,
    before: Progress,
    after: Progress,
    failure: Option<ErrorView>,
) -> bool
    decreases items.len(),
{
    if items.len() == 0 {
        after == before && failure is None
    } else {
        ||| failure is Some && items_run(clamp, scope, items.drop_last(), before, after, failure)
        ||| exists|mid: Progress|
            items_run(clamp, scope, items.drop_last(), before, mid, None) && #[trigger] item_step(
                clamp,
                scope,
                items.last(),
                mid,
                after,
                failure,
            )
    }
}

/// What writing down a turn with its notes comes to: its changes and notes in their order, then
/// its calls.
pub open spec fn written<F: Fn(Reading) -> Clamped>(
    clamp: &F,
    scope: Scope,
    turn: StagingView,
    notes: Seq<NotedView>,
    before: StoreView,
    after: StoreView,
    failure: Option<ErrorView>,
) -> bool {
    let start = Progress { store: before, canonical: Seq::empty() };
    exists|mid: Progress, broken: Option<ErrorView>|
        #[trigger] items_run(clamp, scope, items_of(turn.pending, notes), start, mid, broken) && (if broken is Some {
            after == mid.store && failure == broken
        } else {
            commit::calls_run(scope, turn.tool_calls, mid.store, after, failure)
        })
}

fn record_check(store: &mut Store, story_id: &str, passage_id: &str, check: &PendingCheck) -> (r: AppResult<()>)
    ensures
        commit::append_result(
            old(store)@,
            final(store)@,
            check_draft(story_id@, passage_id@, check@),
            commit::failure_of(r),
        ),
{
    let modifiers = Json::Object(vec![json::pair("situational", json::of_double(&check.modifier))]);
    assert(modifiers@->Object_0 =~= seq![("situational"@, json::double_value(check@.modifier))]);
    let payload = Json::Object(
        vec![
            json::pair("actor_attribute_id", json::of_option(&check.actor_attribute_id)),
            json::pair("actor_entity_id", json::of_text(check.actor_entity_id.as_str())),
            json::pair("actor_value", json::of_double(&check.actor_value)),
            json::pair("degree", json::of_text(check.output.degree.as_str())),
            json::pair("modifiers", modifiers),
            json::pair("needed", json::of_int(check.output.needed)),
            json::pair("outcome", json::of_text(check.output.outcome.as_str())),
            json::pair("p_success", json::of_double(&check.output.p_success)),
            json::pair("roll", json::of_int(check.output.roll)),
            json::pair("seed", json::of_int(check.output.seed)),
            json::pair("target_attribute_id", json::of_option(&check.target_attribute_id)),
            json::pair("target_entity_id", json::of_option(&check.target_entity_id)),
            json::pair("target_value", json::of_optional_double(&check.target_value)),
        ],
    );
    assert(payload@->Object_0 =~= check_payload(check@)->Object_0);
    let draft = Draft {
        story_id,
        kind: kind::DICEROLL,
        visibility: HIDDEN,
        content: None,
        payload: &payload,
        target_entry_id: Some(passage_id),
        turn_id: None,
    };
    assert(draft@ == check_draft(story_id@, passage_id@, check@));
    match ledger::append_draft(store, &draft) {
        Ok(_) => Ok(()),
        Err(e) => Err(e),
    }
}

fn run_item<F: Fn(Reading) -> Clamped>(
    store: &mut Store,
    canonical: &mut Vec<(String, String)>,
    story_id: &str,
    passage_id: &str,
    turn_id: &str,
    item: &Item,
    clamp: &F,
) -> (r: AppResult<()>)
    requires
        forall|reading: Reading| call_requires(clamp, (reading,)),
    ensures
        item_step(
            clamp,
            (Scope { story_id: story_id@, passage_id: passage_id@, turn_id: turn_id@ }),
            item@,
            (Progress { store: old(store)@, canonical: old(canonical).deep_view() }),
            (Progress { store: final(store)@, canonical: final(canonical).deep_view() }),
            commit::failure_of(r),
        ),
{
    match item {
        Item::Change(op) => commit::run_op(store, canonical, story_id, passage_id, turn_id, op, clamp),
        Item::Note(note) => match note {
            Note::Check(check) => record_check(store, story_id, passage_id, check),
            Note::Query { entity_ids, kind_filter, name_filter } => tools::record_query(
                store,
                story_id,
                entity_ids,
                kind_filter,
                name_filter,
                passage_id,
            ),
        },
    }
}

fn push_due<'a>(items: &mut Vec<Item<'a>>, notes: &'a Vec<Noted>, changes: usize, last: bool)
    ensures
        final(items).deep_view() == old(items).deep_view() + notes.deep_view().filter(
            due(changes as nat, last),
        ).map_values(as_item()),
{
    let ghost all = notes.deep_view();
    let ghost p = due(changes as nat, last);
    let ghost f = as_item();
    let ghost start = items.deep_view();
    let mut i: usize = 0;
    assert(start + all.take(0).filter(p).map_values(f) =~= start) by {
        reveal(Seq::filter);
    }
    while i < notes.len()
        invariant
            0 <= i <= notes@.len(),
            all == notes.deep_view(),
            p == due(changes as nat, last),
            f == as_item(),
            items.deep_view() == start + all.take(i as int).filter(p).map_values(f),
        decreases notes@.len() - i,
    {
        let noted = &notes[i];
        proof {
            assert(all[i as int] == noted@);
            rows::lemma_filter_step(all, p, i as int);
            rows::lemma_map_push(all.take(i as int).filter(p), noted@, f);
        }
        if noted.changes == changes || last && noted.changes > changes {
            let ghost before = *items;
            let item = Item::Note(&noted.note);
            let ghost value = item;
            items.push(item);
            proof {
                rows::lemma_deep_push(before, *items, value);
                assert(start + all.take(i as int).filter(p).map_values(f).push(f(noted@)) =~= (start + all.take(
                    i as int,
                ).filter(p).map_values(f)).push(f(noted@)));
            }
        }
        i += 1;
    }
    proof {
        rows::lemma_take_all(all);
    }
}

fn line_up<'a>(turn: &'a TurnStaging, notes: &'a Vec<Noted>) -> (r: Vec<Item<'a>>)
    ensures
        r.deep_view() == items_of(turn@.pending, notes.deep_view()),
{
    let ghost ops = turn@.pending;
    let ghost all = notes.deep_view();
    let mut items: Vec<Item<'a>> = Vec::new();
    let mut i: usize = 0;
    assert(items.deep_view() =~= Seq::empty());
    while i < turn.pending.len()
        invariant
            0 <= i <= turn.pending@.len(),
            ops == turn@.pending,
            ops == turn.pending.deep_view(),
            all == notes.deep_view(),
            items.deep_view() == lined_up(ops, all, i as nat),
        decreases turn.pending@.len() - i,
    {
        push_due(&mut items, notes, i, false);
        let ghost before = items;
        let item = Item::Change(&turn.pending[i]);
        let ghost value = item;
        items.push(item);
        proof {
            assert(ops[i as int] == turn.pending@[i as int]@);
            rows::lemma_deep_push(before, items, value);
        }
        i += 1;
    }
    push_due(&mut items, notes, i, true);
    items
}

proof fn lemma_items_failed<F: Fn(Reading) -> Clamped>(
    clamp: &F,
    scope: Scope,
    items: Seq<ItemView>,
    n: int,
    before: Progress,
    after: Progress,
    failure: Option<ErrorView>,
)
    requires
        0 <= n <= items.len(),
        failure is Some,
        items_run(clamp, scope, items.take(n), before, after, failure),
    ensures
        items_run(clamp, scope, items, before, after, failure),
    decreases items.len() - n,
{
    if n == items.len() {
        assert(items.take(n) =~= items);
    } else {
        assert(items.take(n + 1).drop_last() =~= items.take(n));
        lemma_items_failed(clamp, scope, items, n + 1, before, after, failure);
    }
}

/// Writes down what a turn has changed and noted, in the order in which it came, then the calls of
/// its tools. Where something fails, what was written before it stays: who calls this takes it
/// back together with the passage.
pub fn commit_with_notes<F: Fn(Reading) -> Clamped>(
    turn: &TurnStaging,
    notes: &Vec<Noted>,
    store: &mut Store,
    passage_id: &str,
    turn_id: &str,
    clamp: &F,
) -> (r: AppResult<()>)
    requires
        forall|reading: Reading| call_requires(clamp, (reading,)),
    ensures
        written(
            clamp,
            (Scope { story_id: turn@.story_id, passage_id: passage_id@, turn_id: turn_id@ }),
            turn@,
            notes.deep_view(),
            old(store)@,
            final(store)@,
            commit::failure_of(r),
        ),
{
    let ghost scope = Scope { story_id: turn@.story_id, passage_id: passage_id@, turn_id: turn_id@ };
    let items = line_up(turn, notes);
    let ghost all = items.deep_view();
    let mut canonical: Vec<(String, String)> = Vec::new();
    assert(canonical.deep_view() =~= Seq::empty());
    let ghost start = Progress { store: store@, canonical: Seq::empty() };
    let mut i: usize = 0;
    while i < items.len()
        invariant
            0 <= i <= items@.len(),
            all == items.deep_view(),
            all == items_of(turn@.pending, notes.deep_view()),
            scope == (Scope { story_id: turn@.story_id, passage_id: passage_id@, turn_id: turn_id@ }),
            start == (Progress { store: old(store)@, canonical: Seq::empty() }),
            forall|reading: Reading| call_requires(clamp, (reading,)),
            items_run(
                clamp,
                scope,
                all.take(i as int),
                start,
                Progress { store: store@, canonical: canonical.deep_view() },
                None,
            ),
        decreases items@.len() - i,
    {
        let ghost mid = Progress { store: store@, canonical: canonical.deep_view() };
        proof {
            assert(all[i as int] == items@[i as int]@);
            assert(all.take(i + 1).drop_last() =~= all.take(i as int));
            assert(all.take(i + 1).last() == all[i as int]);
        }
        match run_item(store, &mut canonical, turn.story_id.as_str(), passage_id, turn_id, &items[i], clamp) {
            Ok(_) => {
                proof {
                    let after = Progress { store: store@, canonical: canonical.deep_view() };
                    assert(item_step(clamp, scope, all.take(i + 1).last(), mid, after, None));
                }
            },
            Err(e) => {
                proof {
                    let after = Progress { store: store@, canonical: canonical.deep_view() };
                    assert(item_step(clamp, scope, all.take(i + 1).last(), mid, after, Some(e@)));
                    assert(items_run(clamp, scope, all.take(i + 1), start, after, Some(e@)));
                    lemma_items_failed(clamp, scope, all, i + 1, start, after, Some(e@));
                }
                return Err(e);
            },
        }
        i += 1;
    }
    proof {
        rows::lemma_take_all(all);
    }
    turn.run_calls(store, passage_id, turn_id)
}

/// What putting down a message together with what its turn changed and noted comes to: `after` is
/// what all of it leaves, and `failure` why some of it failed.
pub open spec fn told_with_notes<F: Fn(Reading) -> Clamped>(
    clamp: &F,
    telling: Telling,
    turn: StagingView,
    notes: Seq<NotedView>,
    before: StoreView,
    mid: StoreView,
    after: StoreView,
    failure: Option<ErrorView>,
) -> bool {
    ||| failure is Some && passage::passage_put(telling, before, mid, failure) && after == mid
    ||| passage::passage_put(telling, before, mid, None) && written(
        clamp,
        Scope { story_id: turn.story_id, passage_id: mid.entries.last().id, turn_id: telling.turn_id },
        turn,
        notes,
        mid,
        after,
        failure,
    )
}

/// Puts down what the narrator told together with what its turn changed and noted: all of it is
/// there, or nothing.
pub fn append_noted_narration<F: Fn(Reading) -> Clamped>(
    store: &mut Store,
    story_id: &str,
    input_mode: &str,
    visible: &str,
    thoughts: Option<&str>,
    turn: &TurnStaging,
    notes: &Vec<Noted>,
    turn_id: &str,
    clamp: &F,
) -> (r: AppResult<ActiveStoryEntry>)
    requires
        forall|reading: Reading| call_requires(clamp, (reading,)),
    ensures
        exists|mid: StoreView, end: StoreView|
            #[trigger] told_with_notes(
                clamp,
                (Telling {
                    story_id: story_id@,
                    input_mode: input_mode@,
                    visible: visible@,
                    thoughts: thoughts.deep_view(),
                    turn_id: turn_id@,
                }),
                turn@,
                notes.deep_view(),
                old(store)@,
                mid,
                end,
                commit::failure_of(r),
            ) && (match r {
                Ok(passage) => final(store)@ == end && passage@ == model::story_entry_of(mid.entries.last()),
                Err(_) => final(store)@ == old(store)@,
            }),
{
    let ghost telling = Telling {
        story_id: story_id@,
        input_mode: input_mode@,
        visible: visible@,
        thoughts: thoughts.deep_view(),
        turn_id: turn_id@,
    };
    let backup = store.copy();
    let ghost before = store@;
    assert(Some(turn_id).deep_view() == Some(turn_id@));
    let passage = match repository::insert_story_entry(
        store,
        story_id,
        "narrator",
        input_mode,
        visible,
        thoughts,
        Some(turn_id),
    ) {
        Ok(passage) => passage,
        Err(e) => {
            assert(told_with_notes(clamp, telling, turn@, notes.deep_view(), before, store@, store@, Some(e@)));
            *store = backup;
            return Err(e);
        },
    };
    let ghost mid = store@;
    assert(passage::passage_put(telling, before, mid, None));
    match commit_with_notes(turn, notes, store, passage.id.as_str(), turn_id, clamp) {
        Ok(_) => {
            assert(told_with_notes(clamp, telling, turn@, notes.deep_view(), before, mid, store@, None));
            Ok(passage)
        },
        Err(e) => {
            assert(told_with_notes(clamp, telling, turn@, notes.deep_view(), before, mid, store@, Some(e@)));
            *store = backup;
            Err(e)
        },
    }
}

/// Whether notes are in the order in which they were taken: as a turn goes on, it has no fewer
/// changes waiting.
#[verifier::opaque]
pub open spec fn in_order(notes: Seq<NotedView>) -> bool {
    forall|i: int, k: int| 0 <= i < k < notes.len() ==> (#[trigger] notes[i]).changes <= (#[trigger] notes[k]).changes
}

/// The condition of being a note.
pub open spec fn is_note() -> spec_fn(ItemView) -> bool {
    |item: ItemView| item is Note
}

/// The condition of being a change.
pub open spec fn is_change() -> spec_fn(ItemView) -> bool {
    |item: ItemView| item is Change
}

/// The condition of being noted before so many changes waited.
spec fn before(n: nat) -> spec_fn(NotedView) -> bool {
    |noted: NotedView| noted.changes < n
}

proof fn lemma_notes_only(notes: Seq<NotedView>)
    ensures
        notes.map_values(as_item()).filter(is_note()) == notes.map_values(as_item()),
        notes.map_values(as_item()).filter(is_change()) == Seq::<ItemView>::empty(),
    decreases notes.len(),
{
    reveal(Seq::filter);
    if notes.len() > 0 {
        lemma_notes_only(notes.drop_last());
        assert(notes.map_values(as_item()).drop_last() =~= notes.drop_last().map_values(as_item()));
        assert(notes.drop_last().map_values(as_item()).push(as_item()(notes.last())) =~= notes.map_values(as_item()));
    }
}

proof fn lemma_none(notes: Seq<NotedView>, p: spec_fn(NotedView) -> bool)
    requires
        forall|i: int| 0 <= i < notes.len() ==> !p(#[trigger] notes[i]),
    ensures
        notes.filter(p) == Seq::<NotedView>::empty(),
    decreases notes.len(),
{
    reveal(Seq::filter);
    if notes.len() > 0 {
        let t = notes.drop_last();
        assert forall|i: int| 0 <= i < t.len() implies !p(#[trigger] t[i]) by {
            assert(t[i] == notes[i]);
        }
        lemma_none(t, p);
        assert(!p(notes[notes.len() - 1]));
    }
}

proof fn lemma_last(notes: Seq<NotedView>, p: spec_fn(NotedView) -> bool)
    requires
        notes.len() > 0,
    ensures
        notes.filter(p) == (if p(notes.last()) {
            notes.drop_last().filter(p).push(notes.last())
        } else {
            notes.drop_last().filter(p)
        }),
{
    reveal(Seq::filter);
}

/// Where no note of one sort stands behind one of another, the two sorts follow on each other.
proof fn lemma_split(
    notes: Seq<NotedView>,
    first: spec_fn(NotedView) -> bool,
    second: spec_fn(NotedView) -> bool,
    both: spec_fn(NotedView) -> bool,
)
    requires
        forall|i: int|
            0 <= i < notes.len() ==> both(#[trigger] notes[i]) == (first(notes[i]) || second(notes[i])) && !(first(
                notes[i],
            ) && second(notes[i])),
        forall|i: int, k: int| 0 <= i < k < notes.len() && second(#[trigger] notes[i]) ==> !first(#[trigger] notes[k]),
    ensures
        notes.filter(first) + notes.filter(second) == notes.filter(both),
    decreases notes.len(),
{
    if notes.len() == 0 {
        reveal(Seq::filter);
        assert(notes.filter(first) + notes.filter(second) =~= notes.filter(both));
    } else {
        let t = notes.drop_last();
        let x = notes.last();
        assert forall|i: int, k: int| 0 <= i < k < t.len() && second(#[trigger] t[i]) implies !first(
            #[trigger] t[k],
        ) by {
            assert(t[i] == notes[i] && t[k] == notes[k]);
        }
        assert forall|i: int| 0 <= i < t.len() implies both(#[trigger] t[i]) == (first(t[i]) || second(t[i])) && !(
        first(t[i]) && second(t[i])) by {
            assert(t[i] == notes[i]);
        }
        lemma_split(t, first, second, both);
        lemma_last(notes, first);
        lemma_last(notes, second);
        lemma_last(notes, both);
        assert(x == notes[notes.len() - 1]);
        let (a, b) = (t.filter(first), t.filter(second));
        if first(x) {
            assert(!second(x));
            assert forall|i: int| 0 <= i < t.len() implies !second(#[trigger] t[i]) by {
                assert(t[i] == notes[i] && x == notes[notes.len() - 1]);
            }
            lemma_none(t, second);
            assert(a.push(x) + b =~= (a + b).push(x));
        } else if second(x) {
            assert(a + b.push(x) =~= (a + b).push(x));
        }
    }
}

proof fn lemma_early(notes: Seq<NotedView>, n: nat, i: int, k: int)
    requires
        in_order(notes),
        0 <= i < k < notes.len(),
        notes[i].changes >= n,
    ensures
        notes[k].changes >= n,
{
    reveal(in_order);
}

proof fn lemma_split_at(notes: Seq<NotedView>, n: nat)
    requires
        in_order(notes),
    ensures
        notes.filter(before(n)) + notes.filter(due(n, false)) == notes.filter(before(n + 1)),
{
    let (a, b, c) = (before(n), due(n, false), before(n + 1));
    assert forall|i: int, k: int| 0 <= i < k < notes.len() && b(#[trigger] notes[i]) implies !a(#[trigger] notes[k]) by {
        lemma_early(notes, n, i, k);
    }
    assert forall|i: int| 0 <= i < notes.len() implies c(#[trigger] notes[i]) == (a(notes[i]) || b(notes[i])) && !(a(
        notes[i],
    ) && b(notes[i])) by {}
    lemma_split(notes, a, b, c);
}

proof fn lemma_split_last(notes: Seq<NotedView>, n: nat)
    requires
        in_order(notes),
    ensures
        notes.filter(before(n)).map_values(as_item()) + notes.filter(due(n, true)).map_values(as_item())
            == notes.map_values(as_item()),
{
    let (a, b, c) = (before(n), due(n, true), |x: NotedView| true);
    assert forall|i: int, k: int| 0 <= i < k < notes.len() && b(#[trigger] notes[i]) implies !a(#[trigger] notes[k]) by {
        lemma_early(notes, n, i, k);
    }
    assert forall|i: int| 0 <= i < notes.len() implies c(#[trigger] notes[i]) == (a(notes[i]) || b(notes[i])) && !(a(
        notes[i],
    ) && b(notes[i])) by {}
    lemma_split(notes, a, b, c);
    lemma_map_add(notes.filter(a), notes.filter(b), as_item());
    rows::lemma_filter_all(notes, c);
}

proof fn lemma_lined_up(pending: Seq<OpView>, notes: Seq<NotedView>, n: nat)
    requires
        n <= pending.len(),
    ensures
        lined_up(pending, notes, n).filter(is_change()) == pending.take(n as int).map_values(
            |op: OpView| ItemView::Change(op),
        ),
        in_order(notes) ==> lined_up(pending, notes, n).filter(is_note()) == notes.filter(before(n)).map_values(
            as_item(),
        ),
    decreases n,
{
    reveal(Seq::filter);
    let f = as_item();
    let change = |op: OpView| ItemView::Change(op);
    if n == 0 {
        lemma_none(notes, before(0));
        assert(lined_up(pending, notes, 0).filter(is_change()) =~= pending.take(0).map_values(change));
        assert(lined_up(pending, notes, 0).filter(is_note()) =~= notes.filter(before(0)).map_values(f));
    } else {
        let m = (n - 1) as nat;
        lemma_lined_up(pending, notes, m);
        let front = lined_up(pending, notes, m);
        let here = notes.filter(due(m, false));
        let at = front + here.map_values(f);
        let op = ItemView::Change(pending[n - 1]);
        Seq::filter_distributes_over_add(front, here.map_values(f), is_change());
        Seq::filter_distributes_over_add(front, here.map_values(f), is_note());
        lemma_notes_only(here);
        assert(at.push(op).drop_last() =~= at);
        assert(pending.take(m as int).map_values(change).push(op) =~= pending.take(n as int).map_values(change));
        assert(front.filter(is_change()) + Seq::<ItemView>::empty() =~= front.filter(is_change()));
        if in_order(notes) {
            lemma_split_at(notes, m);
            lemma_map_add(notes.filter(before(m)), here, f);
        }
    }
}

proof fn lemma_changes_in_order(pending: Seq<OpView>, notes: Seq<NotedView>)
    ensures
        items_of(pending, notes).filter(is_change()) == pending.map_values(|op: OpView| ItemView::Change(op)),
{
    let n = pending.len();
    let front = lined_up(pending, notes, n);
    let rest = notes.filter(due(n, true));
    lemma_lined_up(pending, notes, n);
    Seq::filter_distributes_over_add(front, rest.map_values(as_item()), is_change());
    lemma_notes_only(rest);
    assert(pending.take(n as int) =~= pending);
    assert(front.filter(is_change()) + Seq::<ItemView>::empty() =~= front.filter(is_change()));
}

proof fn lemma_map_add(a: Seq<NotedView>, b: Seq<NotedView>, f: spec_fn(NotedView) -> ItemView)
    ensures
        a.map_values(f) + b.map_values(f) == (a + b).map_values(f),
{
    assert(a.map_values(f) + b.map_values(f) =~= (a + b).map_values(f));
}

proof fn lemma_notes_in_order(pending: Seq<OpView>, notes: Seq<NotedView>)
    requires
        in_order(notes),
    ensures
        items_of(pending, notes).filter(is_note()) == notes.map_values(as_item()),
{
    let n = pending.len();
    let front = lined_up(pending, notes, n);
    let rest = notes.filter(due(n, true));
    lemma_lined_up(pending, notes, n);
    Seq::filter_distributes_over_add(front, rest.map_values(as_item()), is_note());
    lemma_notes_only(rest);
    lemma_split_last(notes, n);
}

/// All changes of a turn are written down in their order, and with them all notes in theirs.
pub proof fn law_changes_and_notes_keep_their_order(pending: Seq<OpView>, notes: Seq<NotedView>)
    ensures
        items_of(pending, notes).filter(is_change()) == pending.map_values(|op: OpView| ItemView::Change(op)),
        in_order(notes) ==> items_of(pending, notes).filter(is_note()) == notes.map_values(as_item()),
{
    lemma_changes_in_order(pending, notes);
    if in_order(notes) {
        lemma_notes_in_order(pending, notes);
    }
}

/// Where a turn took no notes, it is written down as it is without them.
pub proof fn law_without_notes_only_changes_are_written<F: Fn(Reading) -> Clamped>(
    clamp: &F,
    scope: Scope,
    turn: StagingView,
    before: StoreView,
    after: StoreView,
    failure: Option<ErrorView>,
)
    requires
        written(clamp, scope, turn, Seq::empty(), before, after, failure),
    ensures
        commit::committed(clamp, scope, turn, before, after, failure),
{
    let start = Progress { store: before, canonical: Seq::empty() };
    let none = Seq::<NotedView>::empty();
    let items = items_of(turn.pending, none);
    let change = |op: OpView| ItemView::Change(op);
    let (mid, broken) = choose|mid: Progress, broken: Option<ErrorView>|
        #[trigger] items_run(clamp, scope, items, start, mid, broken) && (if broken is Some {
            after == mid.store && failure == broken
        } else {
            commit::calls_run(scope, turn.tool_calls, mid.store, after, failure)
        });
    lemma_lined_up_alone(turn.pending, turn.pending.len());
    lemma_none(none, due(turn.pending.len(), true));
    assert(turn.pending.take(turn.pending.len() as int) =~= turn.pending);
    assert(items =~= turn.pending.map_values(change));
    lemma_changes_run(clamp, scope, turn.pending, start, mid, broken);
    assert(commit::ops_run(clamp, scope, turn.pending, start, mid, broken));
}

proof fn lemma_lined_up_alone(pending: Seq<OpView>, n: nat)
    requires
        n <= pending.len(),
    ensures
        lined_up(pending, Seq::empty(), n) == pending.take(n as int).map_values(|op: OpView| ItemView::Change(op)),
    decreases n,
{
    let change = |op: OpView| ItemView::Change(op);
    if n == 0 {
        assert(lined_up(pending, Seq::empty(), n) =~= pending.take(0).map_values(change));
    } else {
        let m = (n - 1) as nat;
        lemma_lined_up_alone(pending, m);
        lemma_none(Seq::empty(), due(m, false));
        assert(lined_up(pending, Seq::empty(), n) =~= pending.take(n as int).map_values(change));
    }
}

proof fn lemma_changes_run<F: Fn(Reading) -> Clamped>(
    clamp: &F,
    scope: Scope,
    ops: Seq<OpView>,
    before: Progress,
    after: Progress,
    failure: Option<ErrorView>,
)
    requires
        items_run(clamp, scope, ops.map_values(|op: OpView| ItemView::Change(op)), before, after, failure),
    ensures
        commit::ops_run(clamp, scope, ops, before, after, failure),
    decreases ops.len(),
{
    let change = |op: OpView| ItemView::Change(op);
    let items = ops.map_values(change);
    if ops.len() > 0 {
        assert(items.drop_last() =~= ops.drop_last().map_values(change));
        if failure is Some && items_run(clamp, scope, items.drop_last(), before, after, failure) {
            lemma_changes_run(clamp, scope, ops.drop_last(), before, after, failure);
        } else {
            let mid = choose|mid: Progress|
                items_run(clamp, scope, items.drop_last(), before, mid, None) && #[trigger] item_step(
                    clamp,
                    scope,
                    items.last(),
                    mid,
                    after,
                    failure,
                );
            lemma_changes_run(clamp, scope, ops.drop_last(), before, mid, None);
            assert(commit::op_step(clamp, scope, ops.last(), mid, after, failure));
        }
    }
}

proof fn lemma_check_names()
    ensures
        "actor_attribute_id"@.len() == 18,
        "actor_entity_id"@.len() == 15,
        "actor_value"@.len() == 11,
        "degree"@.len() == 6 && "degree"@[0] == 'd',
        "modifiers"@.len() == 9 && "modifiers"@[0] == 'm',
        "needed"@.len() == 6 && "needed"@[0] == 'n',
        "outcome"@.len() == 7,
        "p_success"@.len() == 9 && "p_success"@[0] == 'p',
        "roll"@.len() == 4 && "roll"@[0] == 'r',
        "seed"@.len() == 4 && "seed"@[0] == 's',
        "target_attribute_id"@.len() == 19,
        "target_entity_id"@.len() == 16,
        "target_value"@.len() == 12,
{
    reveal_strlit("actor_attribute_id");
    reveal_strlit("actor_entity_id");
    reveal_strlit("actor_value");
    reveal_strlit("degree");
    reveal_strlit("modifiers");
    reveal_strlit("needed");
    reveal_strlit("outcome");
    reveal_strlit("p_success");
    reveal_strlit("roll");
    reveal_strlit("seed");
    reveal_strlit("target_attribute_id");
    reveal_strlit("target_entity_id");
    reveal_strlit("target_value");
}

proof fn lemma_check_field(check: PendingCheckView, i: int)
    requires
        0 <= i < 13,
    ensures
        json::field(check_payload(check), check_payload(check)->Object_0[i].0) == Some(
            check_payload(check)->Object_0[i].1,
        ),
{
    lemma_check_names();
    let fields = check_payload(check)->Object_0;
    let p = json::named(fields[i].0);
    assert(p(fields[i]));
    assert forall|k: int| 0 <= k < i implies !p(#[trigger] fields[k]) by {
        assert(fields[k].0 != fields[i].0);
    }
    rows::lemma_first_where_hit(fields, p, i);
}

/// A check that was put down is read back from its entry as it came out, where its numbers are
/// such that can be put down.
pub proof fn law_written_check_reads_back(check: PendingCheckView, entry: EntryView)
    requires
        entry.payload == check_payload(check),
        entry.target_entry_id is Some,
        double::finite(check.output.p_success.bits),
    ensures
        commands::roll_of(entry) matches Some(roll) && {
            &&& roll.id == entry.id
            &&& Some(roll.entry_id) == entry.target_entry_id
            &&& roll.actor_entity_id == check.actor_entity_id
            &&& roll.target_entity_id == check.target_entity_id
            &&& roll.actor_attribute_id == check.actor_attribute_id
            &&& roll.target_attribute_id == check.target_attribute_id
            &&& double::finite(check.actor_value.bits) ==> roll.actor_value == Some(check.actor_value)
            &&& (check.target_value matches Some(value) ==> double::finite(value.bits)) ==> roll.target_value
                == check.target_value
            &&& roll.p_success == check.output.p_success
            &&& roll.seed == check.output.seed
            &&& roll.roll == check.output.roll
            &&& roll.outcome == check.output.outcome
            &&& roll.degree == check.output.degree
            &&& roll.modifiers_json == json::printed(
                JsonView::Object(seq![("situational"@, json::double_value(check.modifier))]),
            )
        },
{
    lemma_check_field(check, 0);
    lemma_check_field(check, 1);
    lemma_check_field(check, 2);
    lemma_check_field(check, 3);
    lemma_check_field(check, 4);
    lemma_check_field(check, 6);
    lemma_check_field(check, 7);
    lemma_check_field(check, 8);
    lemma_check_field(check, 9);
    lemma_check_field(check, 10);
    lemma_check_field(check, 11);
    lemma_check_field(check, 12);
}

} // verus!
