//! Telling the last message of the narrator anew.

use vstd::prelude::*;

use super::model;
use super::passage;
use super::passage::Telling;
use super::repository as messages;
use super::rewind;
use crate::entities::attributes::{Clamped, Reading};
use crate::entities::model::{AttributeRegistryEntry, RegistryView};
use crate::entities::registry;
use crate::error::{AppError, AppResult, ErrorView};
use crate::json;
use crate::ledger::model as ledger_model;
use crate::ledger::model::{EntryView, LedgerEntry};
use crate::ledger::repository as ledger;
use crate::narrator::commit;
use crate::narrator::staging::{StagingView, TurnStaging};
use crate::store::{Store, StoreView};
use crate::stories;
use crate::{rows, text};

verus! {

/// The message where nothing was told.
pub const NOTHING_TO_RETRY: &'static str = "no narration to retry";

/// The message where something else was told since.
pub const ONLY_LATEST: &'static str = "only the latest narration can be retried";

/// The message where the narrator tells nothing in place of what it told.
pub const EMPTY_RETRY: &'static str = "retry generated no narration; original was preserved";

/// The message where the story went on while the narrator told anew.
pub const STORY_CHANGED: &'static str = "story changed during retry; original narration was preserved";

/// A story as if its last message had not been told, and what the story was before.
#[derive(Debug, PartialEq)]
pub struct RetrySnapshot {
    pub scratch: Store,
    pub original_entries: Vec<LedgerEntry>,
    pub original_updated_at: String,
    pub original_settings_json: String,
    pub original_registry_aliases: Vec<(String, String)>,
}

/// What a `RetrySnapshot` stands for.
#[verifier::ext_equal]
pub struct SnapshotView {
    pub scratch: StoreView,
    pub original_entries: Seq<EntryView>,
    pub original_updated_at: Seq<char>,
    pub original_settings_json: Seq<char>,
    pub original_registry_aliases: Seq<(Seq<char>, Seq<char>)>,
}

impl View for RetrySnapshot {
    type V = SnapshotView;

    open spec fn view(&self) -> SnapshotView {
        SnapshotView {
            scratch: self.scratch@,
            original_entries: self.original_entries.deep_view(),
            original_updated_at: self.original_updated_at@,
            original_settings_json: self.original_settings_json@,
            original_registry_aliases: self.original_registry_aliases.deep_view(),
        }
    }
}

/// What a story is at a time: its entries, when it was changed, and its settings.
pub open spec fn revision_of(store: StoreView, story_id: Seq<char>) -> Option<(Seq<EntryView>, Seq<char>, Seq<char>)> {
    match rows::first_where(store.stories, stories::story_is(story_id)) {
        Some(row) => Some((ledger::story_entries(store.entries, story_id), row.updated_at, row.settings_json)),
        None => None,
    }
}

/// What a story is at a time.
pub fn story_revision(store: &Store, story_id: &str) -> (r: AppResult<(Vec<LedgerEntry>, String, String)>)
    ensures
        match revision_of(store@, story_id@) {
            Some(revision) => r is Ok && r->Ok_0.0.deep_view() == revision.0 && r->Ok_0.1@ == revision.1
                && r->Ok_0.2@ == revision.2,
            None => r is Err && r->Err_0@ == ErrorView::Db("Query returned no rows"@),
        },
{
    match stories::story_position(&store.stories, story_id) {
        Some(i) => Ok(
            (
                ledger::list_logical_entries(store, story_id),
                store.stories[i].updated_at.clone(),
                store.stories[i].settings_json.clone(),
            ),
        ),
        None => Err(AppError::Db("Query returned no rows".to_string())),
    }
}

/// What an attribute is also called.
pub open spec fn alias_pair() -> spec_fn(RegistryView) -> (Seq<char>, Seq<char>) {
    |row: RegistryView| (row.id, row.aliases_json)
}

/// What the attributes are also called.
pub fn registry_aliases(store: &Store) -> (r: Vec<(String, String)>)
    ensures
        r.deep_view() == store@.registry.map_values(alias_pair()),
{
    let ghost all = store.registry.deep_view();
    let ghost f = alias_pair();
    let mut out: Vec<(String, String)> = Vec::new();
    let mut i: usize = 0;
    assert(out.deep_view() =~= all.take(0).map_values(f));
    while i < store.registry.len()
        invariant
            0 <= i <= store.registry@.len(),
            all == store.registry.deep_view(),
            f == alias_pair(),
            out.deep_view() == all.take(i as int).map_values(f),
        decreases store.registry@.len() - i,
    {
        let row = &store.registry[i];
        let pair = (row.id.clone(), row.aliases_json.clone());
        let ghost before = out;
        let ghost value = pair;
        out.push(pair);
        proof {
            assert(all[i as int] == row@);
            rows::lemma_deep_push(before, out, value);
            rows::lemma_map_push(all.take(i as int), all[i as int], f);
            assert(all.take(i + 1) =~= all.take(i as int).push(all[i as int]));
        }
        i += 1;
    }
    proof {
        rows::lemma_take_all(all);
    }
    out
}

/// A story as if its last message had not been told, or why it cannot be told anew.
pub open spec fn snapshot_of(store: StoreView, story_id: Seq<char>, entry_id: Seq<char>, now: Seq<char>) -> Result<
    SnapshotView,
    ErrorView,
> {
    match revision_of(store, story_id) {
        None => Err(ErrorView::Db("Query returned no rows"@)),
        Some(revision) => match messages::last_message(store, story_id) {
            None => Err(ErrorView::Invalid(NOTHING_TO_RETRY@)),
            Some(target) => if target.id != entry_id || ledger_model::role_of(target) != "narrator"@ {
                Err(ErrorView::Invalid(ONLY_LATEST@))
            } else {
                match rewind::reply_removed(store, story_id, entry_id, now) {
                    Err(e) => Err(e),
                    Ok(done) => Ok(
                        SnapshotView {
                            scratch: done.0,
                            original_entries: revision.0,
                            original_updated_at: revision.1,
                            original_settings_json: revision.2,
                            original_registry_aliases: store.registry.map_values(alias_pair()),
                        },
                    ),
                }
            },
        },
    }
}

/// A story as if its last message had not been told. The story itself stays as it is.
pub fn snapshot_for_retry(store: &Store, story_id: &str, entry_id: &str, now: &str) -> (r: AppResult<RetrySnapshot>)
    ensures
        match snapshot_of(store@, story_id@, entry_id@, now@) {
            Ok(snapshot) => r is Ok && r->Ok_0@ == snapshot,
            Err(e) => r is Err && r->Err_0@ == e,
        },
{
    let (original_entries, original_updated_at, original_settings_json) = match story_revision(
        store,
        story_id,
    ) {
        Ok(revision) => revision,
        Err(e) => {
            return Err(e);
        },
    };
    let target = match messages::get_last_entry(store, story_id) {
        Some(target) => target,
        None => {
            return Err(AppError::Invalid(NOTHING_TO_RETRY.to_string()));
        },
    };
    if !text::same_text(target.id.as_str(), entry_id) || !text::same_text(target.role(), "narrator") {
        return Err(AppError::Invalid(ONLY_LATEST.to_string()));
    }
    let original_registry_aliases = registry_aliases(store);
    let mut scratch = store.copy();
    match rewind::remove_reply(&mut scratch, story_id, entry_id, now) {
        Ok(_) => {},
        Err(e) => {
            return Err(e);
        },
    }
    Ok(
        RetrySnapshot {
            scratch,
            original_entries,
            original_updated_at,
            original_settings_json,
            original_registry_aliases,
        },
    )
}

/// A list of names with more names, none twice whatever the case of their ASCII letters.
pub open spec fn combined(have: Seq<Seq<char>>, more: Seq<Seq<char>>) -> Seq<Seq<char>>
    decreases more.len(),
{
    if more.len() == 0 {
        have
    } else {
        let front = combined(have, more.drop_last());
        if registry::holds_name(front, more.last()) {
            front
        } else {
            front.push(more.last())
        }
    }
}

fn combine(have: Vec<String>, more: &Vec<String>) -> (r: Vec<String>)
    ensures
        r.deep_view() == combined(have.deep_view(), more.deep_view()),
{
    let ghost all = more.deep_view();
    let ghost start = have.deep_view();
    let mut out = have;
    let mut i: usize = 0;
    assert(out.deep_view() =~= combined(start, all.take(0)));
    while i < more.len()
        invariant
            0 <= i <= more@.len(),
            all == more.deep_view(),
            out.deep_view() == combined(start, all.take(i as int)),
        decreases more@.len() - i,
    {
        proof {
            assert(all[i as int] == more@[i as int]@);
            assert(all.take(i + 1).drop_last() =~= all.take(i as int));
            assert(all.take(i + 1).last() == all[i as int]);
        }
        if !registry::has_name(&out, more[i].as_str()) {
            let name = more[i].clone();
            let ghost before = out;
            let ghost value = name;
            out.push(name);
            proof {
                rows::lemma_deep_push(before, out, value);
            }
        }
        i += 1;
    }
    proof {
        rows::lemma_take_all(all);
    }
    out
}

/// The condition of being about an attribute.
pub open spec fn about(id: Seq<char>) -> spec_fn((Seq<char>, Seq<char>)) -> bool {
    |pair: (Seq<char>, Seq<char>)| pair.0 == id
}

/// Whether an attribute is called as it was.
pub open spec fn called_as_before(original: Seq<(Seq<char>, Seq<char>)>, row: RegistryView) -> bool {
    match rows::first_where(original, about(row.id)) {
        Some(pair) => pair.1 == row.aliases_json,
        None => false,
    }
}

/// The attributes with what became of one while the narrator told anew.
pub open spec fn reconciled_row(
    live: Seq<RegistryView>,
    original: Seq<(Seq<char>, Seq<char>)>,
    row: RegistryView,
) -> Result<Seq<RegistryView>, ErrorView> {
    if called_as_before(original, row) {
        Ok(live)
    } else {
        match rows::first_where(live, registry::attribute_id_is(row.id)) {
            Some(known) => if known.aliases_json == row.aliases_json {
                Ok(live)
            } else {
                match json::list_reading(known.aliases_json) {
                    Err(message) => Err(ErrorView::Other("invalid attribute aliases: "@ + message)),
                    Ok(have) => match json::list_reading(row.aliases_json) {
                        Err(message) => Err(ErrorView::Other("invalid attribute aliases: "@ + message)),
                        Ok(more) => Ok(
                            rows::upserted(
                                live,
                                registry::attribute_id_is(row.id),
                                RegistryView { aliases_json: json::printed_list(combined(have, more)), ..known },
                            ),
                        ),
                    },
                }
            },
            None => if registry::clashes(live, row) {
                Err(ErrorView::Db("attribute name is already in use"@))
            } else {
                Ok(live.push(row))
            },
        }
    }
}

/// The attributes with what became of them while the narrator told anew.
pub open spec fn reconciled(
    live: Seq<RegistryView>,
    original: Seq<(Seq<char>, Seq<char>)>,
    scratch: Seq<RegistryView>,
) -> Result<Seq<RegistryView>, ErrorView>
    decreases scratch.len(),
{
    if scratch.len() == 0 {
        Ok(live)
    } else {
        match reconciled(live, original, scratch.drop_last()) {
            Err(e) => Err(e),
            Ok(front) => reconciled_row(front, original, scratch.last()),
        }
    }
}

fn is_called_as_before(original: &Vec<(String, String)>, row: &AttributeRegistryEntry) -> (r: bool)
    ensures
        r == called_as_before(original.deep_view(), row@),
{
    let ghost p = about(row@.id);
    let meant = |pair: &(String, String)| -> (b: bool)
        ensures
            b == p(pair.deep_view()),
    {
        text::same_text(pair.0.as_str(), row.id.as_str())
    };
    match rows::position(original, meant, Ghost(p)) {
        Some(i) => text::same_text(original[i].1.as_str(), row.aliases_json.as_str()),
        None => false,
    }
}

fn invalid_aliases(message: &str) -> (r: AppError)
    ensures
        r@ == ErrorView::Other("invalid attribute aliases: "@ + message@),
{
    AppError::Other(text::concat2("invalid attribute aliases: ", message))
}

fn reconcile_row(
    live: &mut Vec<AttributeRegistryEntry>,
    original: &Vec<(String, String)>,
    row: &AttributeRegistryEntry,
) -> (r: AppResult<()>)
    ensures
        match reconciled_row(old(live).deep_view(), original.deep_view(), row@) {
            Ok(after) => r is Ok && final(live).deep_view() == after,
            Err(e) => r is Err && r->Err_0@ == e && final(live).deep_view() == old(live).deep_view(),
        },
{
    if is_called_as_before(original, row) {
        return Ok(());
    }
    let ghost before = *live;
    let ghost all = live.deep_view();
    let ghost p = registry::attribute_id_is(row@.id);
    match registry::attribute_position(live, row.id.as_str()) {
        Some(i) => {
            if text::same_text(live[i].aliases_json.as_str(), row.aliases_json.as_str()) {
                return Ok(());
            }
            let have = match json::read_list(live[i].aliases_json.as_str()) {
                Ok(have) => have,
                Err(message) => {
                    return Err(invalid_aliases(message.as_str()));
                },
            };
            let more = match json::read_list(row.aliases_json.as_str()) {
                Ok(more) => more,
                Err(message) => {
                    return Err(invalid_aliases(message.as_str()));
                },
            };
            let names = combine(have, &more);
            let mut known = live[i].copy();
            known.aliases_json = json::print_list(&names);
            let ghost value = known;
            live.set(i, known);
            proof {
                rows::lemma_deep_update(before, *live, i as int, value);
                assert forall|k: int| 0 <= k < i implies !p(#[trigger] all[k]) by {}
                rows::lemma_upserted_hit(all, p, value@, i as int);
            }
            Ok(())
        },
        None => {
            if registry::has_clash(live, row) {
                return Err(AppError::Db("attribute name is already in use".to_string()));
            }
            let copy = row.copy();
            let ghost value = copy;
            live.push(copy);
            proof {
                rows::lemma_deep_push(before, *live, value);
            }
            Ok(())
        },
    }
}

proof fn lemma_reconcile_fails(
    live: Seq<RegistryView>,
    original: Seq<(Seq<char>, Seq<char>)>,
    scratch: Seq<RegistryView>,
    n: int,
)
    requires
        0 <= n <= scratch.len(),
        reconciled(live, original, scratch.take(n)) is Err,
    ensures
        reconciled(live, original, scratch) == reconciled(live, original, scratch.take(n)),
    decreases scratch.len() - n,
{
    if n == scratch.len() {
        assert(scratch.take(n) =~= scratch);
    } else {
        assert(scratch.take(n + 1).drop_last() =~= scratch.take(n));
        lemma_reconcile_fails(live, original, scratch, n + 1);
    }
}

/// Carries over what became of the attributes while the narrator told anew: new ones are added,
/// and one that is called differently is called by both.
pub fn reconcile_attribute_registry(store: &mut Store, scratch: &Store, original_aliases: &Vec<(String, String)>) -> (r: AppResult<
    (),
>)
    ensures
        match reconciled(old(store)@.registry, original_aliases.deep_view(), scratch@.registry) {
            Ok(after) => r is Ok && final(store)@ == (StoreView { registry: after, ..old(store)@ }),
            Err(e) => r is Err && r->Err_0@ == e && final(store)@ == old(store)@,
        },
{
    let kept = rows::copy_rows(&store.registry);
    let ghost all = scratch.registry.deep_view();
    let ghost live = store@.registry;
    let ghost original = original_aliases.deep_view();
    let mut i: usize = 0;
    while i < scratch.registry.len()
        invariant
            0 <= i <= scratch.registry@.len(),
            all == scratch.registry.deep_view(),
            live == old(store)@.registry,
            kept.deep_view() == live,
            original == original_aliases.deep_view(),
            reconciled(live, original, all.take(i as int)) == Ok::<Seq<RegistryView>, ErrorView>(
                store@.registry,
            ),
            store@ == (StoreView { registry: store@.registry, ..old(store)@ }),
        decreases scratch.registry@.len() - i,
    {
        proof {
            assert(all[i as int] == scratch.registry@[i as int]@);
            assert(all.take(i + 1).drop_last() =~= all.take(i as int));
            assert(all.take(i + 1).last() == all[i as int]);
        }
        match reconcile_row(&mut store.registry, original_aliases, &scratch.registry[i]) {
            Ok(_) => {},
            Err(e) => {
                proof {
                    lemma_reconcile_fails(live, original, all, i + 1);
                }
                store.registry = kept;
                return Err(e);
            },
        }
        i += 1;
    }
    proof {
        rows::lemma_take_all(all);
    }
    Ok(())
}

fn same_optional(a: &Option<String>, b: &Option<String>) -> (r: bool)
    ensures
        r == (a.deep_view() == b.deep_view()),
{
    match (a, b) {
        (Some(a), Some(b)) => text::same_text(a.as_str(), b.as_str()),
        (None, None) => true,
        _ => false,
    }
}

fn same_entry(a: &LedgerEntry, b: &LedgerEntry) -> (r: bool)
    ensures
        r == (a@ == b@),
{
    text::same_text(a.id.as_str(), b.id.as_str()) && text::same_text(
        a.story_id.as_str(),
        b.story_id.as_str(),
    ) && a.seq == b.seq && text::same_text(a.kind.as_str(), b.kind.as_str()) && text::same_text(
        a.visibility.as_str(),
        b.visibility.as_str(),
    ) && same_optional(&a.content, &b.content) && a.payload.same(&b.payload) && same_optional(
        &a.target_entry_id,
        &b.target_entry_id,
    ) && same_optional(&a.turn_id, &b.turn_id) && text::same_text(
        a.created_at.as_str(),
        b.created_at.as_str(),
    )
}

fn same_entries(a: &Vec<LedgerEntry>, b: &Vec<LedgerEntry>) -> (r: bool)
    ensures
        r == (a.deep_view() == b.deep_view()),
{
    let ghost left = a.deep_view();
    let ghost right = b.deep_view();
    if a.len() != b.len() {
        assert(left.len() != right.len());
        return false;
    }
    let mut i: usize = 0;
    while i < a.len()
        invariant
            0 <= i <= a@.len(),
            a@.len() == b@.len(),
            left == a.deep_view(),
            right == b.deep_view(),
            forall|k: int| 0 <= k < i ==> #[trigger] left[k] == right[k],
        decreases a@.len() - i,
    {
        assert(left[i as int] == a@[i as int]@);
        assert(right[i as int] == b@[i as int]@);
        if !same_entry(&a[i], &b[i]) {
            return false;
        }
        i += 1;
    }
    assert(left =~= right);
    true
}

/// Whether a story is as it was when it was to be told anew.
pub open spec fn unchanged(store: StoreView, snapshot: SnapshotView, story_id: Seq<char>, target_id: Seq<char>) -> bool {
    &&& revision_of(store, story_id) == Some(
        (snapshot.original_entries, snapshot.original_updated_at, snapshot.original_settings_json),
    )
    &&& messages::last_message(store, story_id) is Some
    &&& messages::last_message(store, story_id)->0.id == target_id
}

/// Why the last message cannot be replaced, or the tables from which it and what came of it is
/// gone, with where the images were kept that went with it.
pub open spec fn cleared_for(
    store: StoreView,
    snapshot: SnapshotView,
    story_id: Seq<char>,
    target_id: Seq<char>,
    visible: Seq<char>,
    now: Seq<char>,
) -> Result<(StoreView, Seq<Seq<char>>), ErrorView> {
    if text::blank(visible) {
        Err(ErrorView::Invalid(EMPTY_RETRY@))
    } else if revision_of(store, story_id) is None {
        Err(ErrorView::Db("Query returned no rows"@))
    } else if !unchanged(store, snapshot, story_id, target_id) {
        Err(ErrorView::Invalid(STORY_CHANGED@))
    } else {
        match rewind::reply_removed(store, story_id, target_id, now) {
            Err(e) => Err(e),
            Ok(done) => match reconciled(
                done.0.registry,
                snapshot.original_registry_aliases,
                snapshot.scratch.registry,
            ) {
                Err(e) => Err(e),
                Ok(registry) => Ok((StoreView { registry, ..done.0 }, done.1)),
            },
        }
    }
}

fn clear_reply(
    store: &mut Store,
    snapshot: &RetrySnapshot,
    story_id: &str,
    target_id: &str,
    visible: &str,
    now: &str,
) -> (r: AppResult<Vec<String>>)
    ensures
        match cleared_for(old(store)@, snapshot@, story_id@, target_id@, visible@, now@) {
            Ok(done) => r is Ok && r->Ok_0.deep_view() == done.1 && final(store)@ == done.0,
            Err(e) => r is Err && r->Err_0@ == e,
        },
{
    if text::is_blank(visible) {
        return Err(AppError::Invalid(EMPTY_RETRY.to_string()));
    }
    let (entries, updated_at, settings_json) = match story_revision(store, story_id) {
        Ok(revision) => revision,
        Err(e) => {
            return Err(e);
        },
    };
    let still_last = match messages::get_last_entry(store, story_id) {
        Some(last) => text::same_text(last.id.as_str(), target_id),
        None => false,
    };
    if !same_entries(&entries, &snapshot.original_entries) || !text::same_text(
        updated_at.as_str(),
        snapshot.original_updated_at.as_str(),
    ) || !text::same_text(settings_json.as_str(), snapshot.original_settings_json.as_str()) || !still_last {
        return Err(AppError::Invalid(STORY_CHANGED.to_string()));
    }
    let paths = match rewind::remove_reply(store, story_id, target_id, now) {
        Ok(paths) => paths,
        Err(e) => {
            return Err(e);
        },
    };
    match reconcile_attribute_registry(store, &snapshot.scratch, &snapshot.original_registry_aliases) {
        Ok(_) => Ok(paths),
        Err(e) => Err(e),
    }
}

/// The message that was put down, or why none was.
pub open spec fn entry_or_failure(r: AppResult<(LedgerEntry, Vec<String>)>) -> Result<EntryView, ErrorView> {
    match r {
        Ok(done) => Ok(done.0@),
        Err(e) => Err(e@),
    }
}

/// How the last message is replaced: it is gone with what came of it, and what is told in its
/// place is there with what that changed.
pub open spec fn replaced_by<F: Fn(Reading) -> Clamped>(
    clamp: &F,
    telling: Telling,
    staging: Option<StagingView>,
    start: StoreView,
    mid: StoreView,
    end: StoreView,
    r: Result<EntryView, ErrorView>,
) -> bool {
    match r {
        Ok(entry) => {
            &&& passage::told(clamp, telling, staging, start, mid, end, None)
            &&& ledger::active_entry_of(end.entries, mid.entries.last().id) == Some(entry)
        },
        Err(e) => {
            ||| passage::told(clamp, telling, staging, start, mid, end, Some(e))
            ||| {
                &&& passage::told(clamp, telling, staging, start, mid, end, None)
                &&& ledger::active_entry_of(end.entries, mid.entries.last().id) is None
                &&& e == ledger::no_active_entry(end.entries, mid.entries.last().id)
            }
        },
    }
}

/// Replaces the last message by what was told in its place, with what that changed. Where
/// anything fails, or the story is not as it was, the tables are as they were.
pub fn replace_narration_entry<F: Fn(Reading) -> Clamped>(
    store: &mut Store,
    snapshot: &RetrySnapshot,
    story_id: &str,
    target_id: &str,
    visible: &str,
    thoughts: Option<&str>,
    staging: Option<&TurnStaging>,
    turn_id: &str,
    now: &str,
    clamp: &F,
) -> (r: AppResult<(LedgerEntry, Vec<String>)>)
    requires
        forall|reading: Reading| call_requires(clamp, (reading,)),
    ensures
        r is Err ==> final(store)@ == old(store)@,
        match cleared_for(old(store)@, snapshot@, story_id@, target_id@, visible@, now@) {
            Err(e) => r is Err && r->Err_0@ == e,
            Ok(start) => exists|mid: StoreView, end: StoreView|
                #[trigger] replaced_by(
                    clamp,
                    (Telling {
                        story_id: story_id@,
                        input_mode: "generated"@,
                        visible: visible@,
                        thoughts: thoughts.deep_view(),
                        turn_id: turn_id@,
                    }),
                    passage::changes_of(staging),
                    start.0,
                    mid,
                    end,
                    entry_or_failure(r),
                ) && (r is Ok ==> r->Ok_0.1.deep_view() == start.1 && final(store)@ == end),
        },
{
    let backup = store.copy();
    let paths = match clear_reply(store, snapshot, story_id, target_id, visible, now) {
        Ok(paths) => paths,
        Err(e) => {
            *store = backup;
            return Err(e);
        },
    };
    let ghost start = store@;
    let ghost telling = Telling {
        story_id: story_id@,
        input_mode: "generated"@,
        visible: visible@,
        thoughts: thoughts.deep_view(),
        turn_id: turn_id@,
    };
    let ghost changes = passage::changes_of(staging);
    let written = passage::write_passage(
        store,
        story_id,
        "generated",
        visible,
        thoughts,
        staging,
        turn_id,
        clamp,
    );
    let ghost end = store@;
    let ghost mid = choose|mid: StoreView|
        #[trigger] passage::told(
            clamp,
            telling,
            changes,
            start,
            mid,
            end,
            commit::failure_of(written),
        ) && (written is Ok ==> written->Ok_0@ == model::story_entry_of(mid.entries.last()));
    assert(passage::told(clamp, telling, changes, start, mid, end, commit::failure_of(written)));
    match written {
        Ok(passage) => match ledger::active_entry(store, passage.id.as_str()) {
            Ok(entry) => {
                assert(replaced_by(clamp, telling, changes, start, mid, end, Ok(entry@)));
                Ok((entry, paths))
            },
            Err(e) => {
                assert(replaced_by(clamp, telling, changes, start, mid, end, Err(e@)));
                *store = backup;
                Err(e)
            },
        },
        Err(e) => {
            assert(replaced_by(clamp, telling, changes, start, mid, end, Err(e@)));
            *store = backup;
            Err(e)
        },
    }
}

/// Nothing that was told or changed since is lost: where a story is no longer as it was when it
/// was to be told anew, replacing its last message is refused.
pub proof fn law_changed_story_is_not_replaced(
    store: StoreView,
    snapshot: SnapshotView,
    story_id: Seq<char>,
    target_id: Seq<char>,
    visible: Seq<char>,
    now: Seq<char>,
)
    requires
        !unchanged(store, snapshot, story_id, target_id),
    ensures
        cleared_for(store, snapshot, story_id, target_id, visible, now) is Err,
{
}

/// A story that was not touched since is as it was, so that its last message can be replaced.
pub proof fn law_untouched_story_can_be_replaced(store: StoreView, story_id: Seq<char>, entry_id: Seq<char>, now: Seq<char>)
    requires
        snapshot_of(store, story_id, entry_id, now) is Ok,
    ensures
        unchanged(store, snapshot_of(store, story_id, entry_id, now)->Ok_0, story_id, entry_id),
        !ledger::holds_id(snapshot_of(store, story_id, entry_id, now)->Ok_0.scratch.entries, entry_id),
{
    rewind::lemma_message_gone(store, story_id, entry_id, Seq::empty(), now);
}

/// Where a message can be replaced, it is gone before what is told in its place is put down, and
/// of the rest only what came of it goes with it.
pub proof fn law_replaced_message_is_gone(
    store: StoreView,
    snapshot: SnapshotView,
    story_id: Seq<char>,
    target_id: Seq<char>,
    visible: Seq<char>,
    now: Seq<char>,
)
    requires
        cleared_for(store, snapshot, story_id, target_id, visible, now) is Ok,
    ensures
        ({
            let start = cleared_for(store, snapshot, story_id, target_id, visible, now)->Ok_0.0;
            &&& !ledger::holds_id(start.entries, target_id)
            &&& forall|entry: EntryView| #[trigger] start.entries.contains(entry) ==> store.entries.contains(entry)
        }),
{
    rewind::lemma_message_gone(store, story_id, target_id, Seq::empty(), now);
}

} // verus!
