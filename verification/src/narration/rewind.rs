//! Taking back what was told.

use vstd::prelude::*;

use super::model;
use super::repository as messages;
use crate::compaction::summary;
use crate::entities::projection;
use crate::entities::projection::ReplayScope;
use crate::error::{AppError, AppResult, ErrorView};
use crate::images::model::{StoryImage, StoryImageView};
use crate::images::repository as images;
use crate::json;
use crate::ledger::cascade;
use crate::ledger::kind;
use crate::ledger::model as ledger_model;
use crate::ledger::model::{EntryView, LedgerEntry};
use crate::ledger::repository as ledger;
use crate::stamp;
use crate::store::{Store, StoreView};
use crate::{rows, text};

verus! {

/// The message where what should be replaced is gone.
pub const REPLY_GONE: &'static str = "narration to replace no longer exists";

/// The message where a message would be left without content.
pub const CONTENT_EMPTY: &'static str = "content must not be empty";

/// What goes with entries that go: images, and whatever must be told anew.
#[verifier::ext_equal]
pub struct Effects {
    pub images: Seq<StoryImageView>,
    pub doomed: Seq<Seq<char>>,
    pub affected: Seq<Seq<char>>,
    pub paths: Seq<Seq<char>>,
}

/// Whether an entry tells what became of an entity.
pub open spec fn tells_of_entity(kind: Seq<char>) -> bool {
    ||| kind == kind::ENTITY_CREATED@
    ||| kind == kind::ENTITY_UPDATED@
    ||| kind == kind::ENTITY_DELETED@
    ||| kind == kind::ENTITY_ATTRIBUTE_CHANGED@
    ||| kind == kind::ENTITY_ATTRIBUTE_REMOVED@
}

/// A list with a text that it does not hold twice.
pub open spec fn with_path(paths: Seq<Seq<char>>, path: Seq<char>) -> Seq<Seq<char>> {
    if paths.contains(path) {
        paths
    } else {
        paths.push(path)
    }
}

/// What goes with one more entry.
pub open spec fn effect_step(at: Effects, entry: EntryView) -> Effects {
    let doomed = at.doomed.push(entry.id);
    if entry.kind == kind::IMAGE_GENERATED@ {
        match json::text_field(entry.payload, "asset_id"@) {
            Some(asset_id) => Effects {
                images: at.images.filter(images::image_is_not(asset_id)),
                doomed,
                paths: match rows::first_where(at.images, images::image_is(asset_id)) {
                    Some(image) => with_path(at.paths, image.path),
                    None => at.paths,
                },
                ..at
            },
            None => Effects { doomed, ..at },
        }
    } else if tells_of_entity(entry.kind) {
        match json::text_field(entry.payload, "entity_id"@) {
            Some(entity_id) => Effects { doomed, affected: at.affected.push(entity_id), ..at },
            None => Effects { doomed, ..at },
        }
    } else {
        Effects { doomed, ..at }
    }
}

/// What goes with some entries.
pub open spec fn effects(start: Effects, entries: Seq<EntryView>) -> Effects
    decreases entries.len(),
{
    if entries.len() == 0 {
        start
    } else {
        effect_step(effects(start, entries.drop_last()), entries.last())
    }
}

/// What goes with an entry that goes, beside what goes already.
pub open spec fn cascade_effects(entries: Seq<EntryView>, root: Seq<char>, start: Effects) -> Effects {
    effects(start, cascade::doomed_entries_of(entries, root))
}

fn is_entity_kind(kind: &str) -> (r: bool)
    ensures
        r == tells_of_entity(kind@),
{
    text::same_text(kind, kind::ENTITY_CREATED) || text::same_text(kind, kind::ENTITY_UPDATED) || text::same_text(
        kind,
        kind::ENTITY_DELETED,
    ) || text::same_text(kind, kind::ENTITY_ATTRIBUTE_CHANGED) || text::same_text(
        kind,
        kind::ENTITY_ATTRIBUTE_REMOVED,
    )
}

fn push_text(list: &mut Vec<String>, s: String)
    ensures
        final(list).deep_view() == old(list).deep_view().push(s@),
{
    let ghost before = *list;
    let ghost value = s;
    list.push(s);
    proof {
        rows::lemma_deep_push(before, *list, value);
    }
}

fn collect_one(
    store: &mut Store,
    entry: &LedgerEntry,
    doomed_ids: &mut Vec<String>,
    affected_entities: &mut Vec<String>,
    image_paths: &mut Vec<String>,
)
    ensures
        ({
            let after = effect_step(
                Effects {
                    images: old(store)@.images,
                    doomed: old(doomed_ids).deep_view(),
                    affected: old(affected_entities).deep_view(),
                    paths: old(image_paths).deep_view(),
                },
                entry@,
            );
            &&& final(store)@ == (StoreView { images: after.images, ..old(store)@ })
            &&& final(doomed_ids).deep_view() == after.doomed
            &&& final(affected_entities).deep_view() == after.affected
            &&& final(image_paths).deep_view() == after.paths
        }),
{
    push_text(doomed_ids, entry.id.clone());
    if text::same_text(entry.kind.as_str(), kind::IMAGE_GENERATED) {
        if let Some(asset_id) = entry.payload.str_field("asset_id") {
            if let Some(path) = images::delete_asset_by_id(store, asset_id) {
                if !text::list_contains(image_paths, path.as_str()) {
                    push_text(image_paths, path);
                }
            }
        }
    } else if is_entity_kind(entry.kind.as_str()) {
        if let Some(entity_id) = entry.payload.str_field("entity_id") {
            push_text(affected_entities, entity_id.to_string());
        }
    }
}

/// Collects what goes with an entry that goes, beside what goes already, and removes its images.
pub fn collect_cascade_effects(
    store: &mut Store,
    root_id: &str,
    doomed_ids: &mut Vec<String>,
    affected_entities: &mut Vec<String>,
    image_paths: &mut Vec<String>,
)
    ensures
        ({
            let after = cascade_effects(
                old(store)@.entries,
                root_id@,
                Effects {
                    images: old(store)@.images,
                    doomed: old(doomed_ids).deep_view(),
                    affected: old(affected_entities).deep_view(),
                    paths: old(image_paths).deep_view(),
                },
            );
            &&& final(store)@ == (StoreView { images: after.images, ..old(store)@ })
            &&& final(doomed_ids).deep_view() == after.doomed
            &&& final(affected_entities).deep_view() == after.affected
            &&& final(image_paths).deep_view() == after.paths
        }),
{
    let ghost start = Effects {
        images: store@.images,
        doomed: doomed_ids.deep_view(),
        affected: affected_entities.deep_view(),
        paths: image_paths.deep_view(),
    };
    let found = cascade::doomed_entries(&store.entries, root_id);
    let ghost all = found.deep_view();
    let mut i: usize = 0;
    while i < found.len()
        invariant
            0 <= i <= found@.len(),
            all == found.deep_view(),
            store@ == (StoreView { images: effects(start, all.take(i as int)).images, ..old(store)@ }),
            doomed_ids.deep_view() == effects(start, all.take(i as int)).doomed,
            affected_entities.deep_view() == effects(start, all.take(i as int)).affected,
            image_paths.deep_view() == effects(start, all.take(i as int)).paths,
        decreases found@.len() - i,
    {
        proof {
            assert(all[i as int] == found@[i as int]@);
            assert(all.take(i + 1).drop_last() =~= all.take(i as int));
            assert(all.take(i + 1).last() == all[i as int]);
        }
        collect_one(store, &found[i], doomed_ids, affected_entities, image_paths);
        i += 1;
    }
    proof {
        rows::lemma_take_all(all);
    }
}

/// The condition of belonging to none of some entries.
pub open spec fn image_outside(ids: Seq<Seq<char>>) -> spec_fn(StoryImageView) -> bool {
    |image: StoryImageView| !ids.contains(image.entry_id)
}

/// The tables without an entry, what targets it, and the images of these.
pub open spec fn dropped(store: StoreView, root: Seq<char>, doomed: Seq<Seq<char>>) -> StoreView {
    StoreView {
        entries: cascade::without_doomed(store.entries, root),
        images: store.images.filter(image_outside(doomed)),
        ..store
    }
}

fn drop_entry(store: &mut Store, root: &str, doomed: &Vec<String>)
    ensures
        final(store)@ == dropped(old(store)@, root@, doomed.deep_view()),
{
    let ghost p = image_outside(doomed.deep_view());
    let keep = |image: &StoryImage| -> (b: bool)
        ensures
            b == p(image@),
    {
        !text::list_contains(doomed, image.entry_id.as_str())
    };
    let left = rows::kept_rows(&store.images, keep, Ghost(p));
    cascade::remove_doomed(&mut store.entries, root);
    store.images = left;
}

/// The tables after what became of some entities was told anew. That an entity once was there is
/// not taken back.
pub open spec fn retold(store: StoreView, story_id: Seq<char>, affected: Seq<Seq<char>>, now: Seq<char>) -> StoreView {
    StoreView {
        entities: store.entities,
        ..projection::replayed(
            store,
            ReplayScope { story_id, ids: affected.to_set(), exclude_turn: None, now },
        )
    }
}

/// Tells anew what became of some entities.
pub fn replay_entities(store: &mut Store, story_id: &str, affected: &Vec<String>, now: &str)
    ensures
        final(store)@ == retold(old(store)@, story_id@, affected.deep_view(), now@),
{
    let entities = rows::copy_rows(&store.entities);
    projection::replay(store, story_id, affected, None, now);
    store.entities = entities;
}

/// The tables after entries went, with the summaries that speak of them, and after what became of
/// entities was told anew.
pub open spec fn settled(
    store: StoreView,
    story_id: Seq<char>,
    doomed: Seq<Seq<char>>,
    affected: Seq<Seq<char>>,
    now: Seq<char>,
) -> StoreView {
    retold(
        StoreView { entries: store.entries.filter(summary::uncovered(story_id, doomed)), ..store },
        story_id,
        affected,
        now,
    )
}

/// What goes with a message.
pub open spec fn message_effects(store: StoreView, id: Seq<char>, paths: Seq<Seq<char>>) -> Effects {
    cascade_effects(
        store.entries,
        id,
        Effects {
            images: store.images,
            doomed: Seq::empty(),
            affected: Seq::empty(),
            paths: paths + images::paths_of_entry(store.images, id),
        },
    )
}

/// The tables without a message and what goes with it, before anything is told anew.
pub open spec fn without_message(store: StoreView, id: Seq<char>, found: Effects) -> StoreView {
    dropped(StoreView { images: found.images, ..store }, id, found.doomed)
}

/// Removes a message and what goes with it.
fn remove_message(store: &mut Store, id: &str, image_paths: &mut Vec<String>) -> (r: (Vec<String>, Vec<String>))
    ensures
        ({
            let found = message_effects(old(store)@, id@, old(image_paths).deep_view());
            &&& r.0.deep_view() == found.doomed
            &&& r.1.deep_view() == found.affected
            &&& final(image_paths).deep_view() == found.paths
            &&& final(store)@ == without_message(old(store)@, id@, found)
        }),
{
    let own = images::image_paths_for_entry(store, id);
    append_texts(image_paths, own);
    let mut doomed: Vec<String> = Vec::new();
    let mut affected: Vec<String> = Vec::new();
    assert(doomed.deep_view() =~= Seq::empty());
    assert(affected.deep_view() =~= Seq::empty());
    collect_cascade_effects(store, id, &mut doomed, &mut affected, image_paths);
    drop_entry(store, id, &doomed);
    (doomed, affected)
}

fn append_texts(list: &mut Vec<String>, more: Vec<String>)
    ensures
        final(list).deep_view() == old(list).deep_view() + more.deep_view(),
{
    let ghost all = more.deep_view();
    let ghost start = list.deep_view();
    let mut i: usize = 0;
    assert(list.deep_view() =~= start + all.take(0));
    while i < more.len()
        invariant
            0 <= i <= more@.len(),
            all == more.deep_view(),
            start == old(list).deep_view(),
            list.deep_view() == start + all.take(i as int),
        decreases more@.len() - i,
    {
        push_text(list, more[i].clone());
        proof {
            assert(all[i as int] == more@[i as int]@);
            assert(start + all.take(i + 1) =~= (start + all.take(i as int)).push(all[i as int]));
        }
        i += 1;
    }
    proof {
        rows::lemma_take_all(all);
    }
}

/// The tables without a reply, and where the images were kept that went with it.
pub open spec fn reply_removed(store: StoreView, story_id: Seq<char>, reply_id: Seq<char>, now: Seq<char>) -> Result<
    (StoreView, Seq<Seq<char>>),
    ErrorView,
> {
    let found = message_effects(store, reply_id, Seq::empty());
    match ledger::entry_with_id(store.entries, reply_id) {
        Some(reply) => if reply.story_id == story_id && reply.kind == kind::NARRATION@ {
            Ok(
                (
                    settled(
                        without_message(store, reply_id, found),
                        story_id,
                        found.doomed,
                        found.affected,
                        now,
                    ),
                    found.paths,
                ),
            )
        } else {
            Err(ErrorView::Invalid(REPLY_GONE@))
        },
        None => Err(ErrorView::Invalid(REPLY_GONE@)),
    }
}

/// Removes a reply and what came of it, and gives where the images were kept that went with it.
pub fn remove_reply(store: &mut Store, story_id: &str, reply_id: &str, now: &str) -> (r: AppResult<Vec<String>>)
    ensures
        match reply_removed(old(store)@, story_id@, reply_id@, now@) {
            Ok(done) => r is Ok && r->Ok_0.deep_view() == done.1 && final(store)@ == done.0,
            Err(e) => r is Err && r->Err_0@ == e && final(store)@ == old(store)@,
        },
{
    let known = match ledger::entry_position(&store.entries, reply_id) {
        Some(i) => text::same_text(store.entries[i].story_id.as_str(), story_id) && text::same_text(
            store.entries[i].kind.as_str(),
            kind::NARRATION,
        ),
        None => false,
    };
    if !known {
        return Err(AppError::Invalid(REPLY_GONE.to_string()));
    }
    let mut image_paths: Vec<String> = Vec::new();
    assert(image_paths.deep_view() =~= Seq::empty());
    let (doomed, affected) = remove_message(store, reply_id, &mut image_paths);
    summary::prune_summaries_covering(store, story_id, &doomed);
    replay_entities(store, story_id, &affected, now);
    Ok(image_paths)
}

/// What taking back the last exchange leaves of the tables, which messages it takes, and where
/// the images were kept that went with them.
pub open spec fn erased(store: StoreView, story_id: Seq<char>, now: Seq<char>) -> Result<
    (StoreView, Seq<Seq<char>>, Seq<Seq<char>>),
    ErrorView,
> {
    match messages::last_message(store, story_id) {
        None => Ok((store, Seq::empty(), Seq::empty())),
        Some(last) => if ledger_model::role_of(last) == "narrator"@ {
            match reply_removed(store, story_id, last.id, now) {
                Err(e) => Err(e),
                Ok(done) => {
                    let mid = done.0;
                    match messages::last_message(mid, story_id) {
                        Some(prev) => if ledger_model::input_mode_of(last) == "generated"@
                            && ledger_model::role_of(prev) == "player"@ {
                            let found = message_effects(mid, prev.id, done.1);
                            Ok(
                                (
                                    stamped(
                                        settled(
                                            without_message(mid, prev.id, found),
                                            story_id,
                                            found.doomed,
                                            found.affected,
                                            now,
                                        ),
                                        story_id,
                                        now,
                                    ),
                                    seq![last.id, prev.id],
                                    found.paths,
                                ),
                            )
                        } else {
                            Ok((stamped(mid, story_id, now), seq![last.id], done.1))
                        },
                        None => Ok((stamped(mid, story_id, now), seq![last.id], done.1)),
                    }
                },
            }
        } else {
            let found = message_effects(store, last.id, Seq::empty());
            Ok(
                (
                    stamped(
                        settled(
                            without_message(store, last.id, found),
                            story_id,
                            found.doomed,
                            found.affected,
                            now,
                        ),
                        story_id,
                        now,
                    ),
                    seq![last.id],
                    found.paths,
                ),
            )
        },
    }
}

/// The tables after it was noted when a story was changed.
pub open spec fn stamped(store: StoreView, story_id: Seq<char>, now: Seq<char>) -> StoreView {
    StoreView { stories: ledger::touched(store.stories, story_id, now), ..store }
}

fn finish_removal(store: &mut Store, story_id: &str, id: &str, image_paths: &mut Vec<String>, now: &str)
    ensures
        ({
            let found = message_effects(old(store)@, id@, old(image_paths).deep_view());
            &&& final(image_paths).deep_view() == found.paths
            &&& final(store)@ == stamped(
                settled(
                    without_message(old(store)@, id@, found),
                    story_id@,
                    found.doomed,
                    found.affected,
                    now@,
                ),
                story_id@,
                now@,
            )
        }),
{
    let (doomed, affected) = remove_message(store, id, image_paths);
    summary::prune_summaries_covering(store, story_id, &doomed);
    replay_entities(store, story_id, &affected, now);
    ledger::touch_story(store, story_id, now);
}

/// Takes back the last exchange of a story: the last message, and, where the narrator made it in
/// answer to the player, what the player did.
pub fn erase_last_exchange_at(store: &mut Store, story_id: &str, now: &str) -> (r: AppResult<
    (Vec<String>, Vec<String>),
>)
    ensures
        match erased(old(store)@, story_id@, now@) {
            Ok(done) => {
                &&& r is Ok
                &&& r->Ok_0.0.deep_view() == done.1
                &&& r->Ok_0.1.deep_view() == done.2
                &&& final(store)@ == done.0
            },
            Err(e) => r is Err && r->Err_0@ == e && final(store)@ == old(store)@,
        },
{
    let mut removed: Vec<String> = Vec::new();
    let mut image_paths: Vec<String> = Vec::new();
    assert(removed.deep_view() =~= Seq::empty());
    assert(image_paths.deep_view() =~= Seq::empty());
    let last = match messages::get_last_entry(store, story_id) {
        Some(last) => last,
        None => {
            return Ok((removed, image_paths));
        },
    };
    push_text(&mut removed, last.id.clone());
    assert(removed.deep_view() =~= seq![last@.id]);
    if !text::same_text(last.role(), "narrator") {
        finish_removal(store, story_id, last.id.as_str(), &mut image_paths, now);
        return Ok((removed, image_paths));
    }
    let mut image_paths = match remove_reply(store, story_id, last.id.as_str(), now) {
        Ok(paths) => paths,
        Err(e) => {
            return Err(e);
        },
    };
    if text::same_text(last.input_mode(), "generated") {
        if let Some(prev) = messages::get_last_entry(store, story_id) {
            if text::same_text(prev.role(), "player") {
                finish_removal(store, story_id, prev.id.as_str(), &mut image_paths, now);
                push_text(&mut removed, prev.id);
                assert(removed.deep_view() =~= seq![last@.id, prev@.id]);
                return Ok((removed, image_paths));
            }
        }
    }
    ledger::touch_story(store, story_id, now);
    Ok((removed, image_paths))
}

/// Takes back the last exchange of a story at the present time.
pub fn erase_last_exchange(store: &mut Store, story_id: &str) -> (r: AppResult<(Vec<String>, Vec<String>)>)
    ensures
        exists|now: Seq<char>|
            match #[trigger] erased(old(store)@, story_id@, now) {
                Ok(done) => {
                    &&& r is Ok
                    &&& r->Ok_0.0.deep_view() == done.1
                    &&& r->Ok_0.1.deep_view() == done.2
                    &&& final(store)@ == done.0
                },
                Err(e) => r is Err && r->Err_0@ == e && final(store)@ == old(store)@,
            },
{
    let now = stamp::now();
    let r = erase_last_exchange_at(store, story_id, now.as_str());
    assert(erased(old(store)@, story_id@, now@) == erased(old(store)@, story_id@, now@));
    r
}

/// The identifiers of some entries.
pub open spec fn ids_of(entries: Seq<EntryView>) -> Seq<Seq<char>> {
    entries.map_values(|e: EntryView| e.id)
}

proof fn lemma_effects_doomed(start: Effects, entries: Seq<EntryView>)
    ensures
        effects(start, entries).doomed == start.doomed + ids_of(entries),
    decreases entries.len(),
{
    if entries.len() > 0 {
        lemma_effects_doomed(start, entries.drop_last());
        let front = ids_of(entries.drop_last());
        assert(ids_of(entries) =~= front.push(entries.last().id));
        assert(start.doomed + ids_of(entries) =~= (start.doomed + front).push(entries.last().id));
    } else {
        assert(start.doomed + ids_of(entries) =~= start.doomed);
    }
}

/// What is left when a message went: every entry but the message, what targets it, and the
/// summaries of the story that speak up to one of these.
pub proof fn law_removed_message_goes_with_what_came_of_it(
    store: StoreView,
    story_id: Seq<char>,
    id: Seq<char>,
    paths: Seq<Seq<char>>,
    now: Seq<char>,
    entry: EntryView,
)
    ensures
        ({
            let found = message_effects(store, id, paths);
            let after = settled(
                without_message(store, id, found),
                story_id,
                found.doomed,
                found.affected,
                now,
            );
            &&& found.doomed == ids_of(cascade::doomed_entries_of(store.entries, id))
            &&& after.entries.contains(entry) <==> store.entries.contains(entry) && !cascade::doomed(
                store.entries,
                id,
                entry.id,
            ) && !summary::covers(story_id, found.doomed)(entry)
        }),
{
    let found = message_effects(store, id, paths);
    let left = without_message(store, id, found);
    let pruned = StoreView { entries: left.entries.filter(summary::uncovered(story_id, found.doomed)), ..left };
    projection::law_replay_keeps_the_record(
        pruned,
        ReplayScope { story_id, ids: found.affected.to_set(), exclude_turn: None, now },
    );
    lemma_effects_doomed(
        Effects {
            images: store.images,
            doomed: Seq::empty(),
            affected: Seq::empty(),
            paths: paths + images::paths_of_entry(store.images, id),
        },
        cascade::doomed_entries_of(store.entries, id),
    );
    assert(found.doomed =~= ids_of(cascade::doomed_entries_of(store.entries, id)));
    summary::law_pruning_leaves_no_stale_summary(left.entries, story_id, found.doomed, entry);
    cascade::lemma_without_doomed(store.entries, id, entry);
}

/// Taking back an exchange leaves no message of it in the ledger, and adds nothing.
pub proof fn law_erased_exchange_is_gone(store: StoreView, story_id: Seq<char>, now: Seq<char>)
    ensures
        erased(store, story_id, now) matches Ok(done) ==> {
            &&& forall|i: int| 0 <= i < done.1.len() ==> !ledger::holds_id(done.0.entries, #[trigger] done.1[i])
            &&& forall|entry: EntryView| #[trigger] done.0.entries.contains(entry) ==> store.entries.contains(entry)
        },
{
    if let Ok(done) = erased(store, story_id, now) {
        if let Some(last) = messages::last_message(store, story_id) {
            lemma_message_gone(store, story_id, last.id, Seq::empty(), now);
            if ledger_model::role_of(last) == "narrator"@ {
                let mid = reply_removed(store, story_id, last.id, now)->Ok_0;
                if let Some(prev) = messages::last_message(mid.0, story_id) {
                    lemma_message_gone(mid.0, story_id, prev.id, mid.1, now);
                    lemma_stays_gone(mid.0, done.0, last.id);
                }
            }
        }
    }
}

pub proof fn lemma_message_gone(store: StoreView, story_id: Seq<char>, id: Seq<char>, paths: Seq<Seq<char>>, now: Seq<char>)
    ensures
        ({
            let found = message_effects(store, id, paths);
            let after = settled(
                without_message(store, id, found),
                story_id,
                found.doomed,
                found.affected,
                now,
            );
            &&& !ledger::holds_id(after.entries, id)
            &&& forall|entry: EntryView| #[trigger] after.entries.contains(entry) ==> store.entries.contains(entry)
        }),
{
    let found = message_effects(store, id, paths);
    let after = settled(without_message(store, id, found), story_id, found.doomed, found.affected, now);
    assert forall|entry: EntryView| #[trigger] after.entries.contains(entry) implies store.entries.contains(entry)
        && entry.id != id by {
        law_removed_message_goes_with_what_came_of_it(store, story_id, id, paths, now, entry);
        assert(cascade::reaches(store.entries, id, 0, id));
    }
    if ledger::holds_id(after.entries, id) {
        let i = choose|i: int| 0 <= i < after.entries.len() && (#[trigger] after.entries[i]).id == id;
        assert(after.entries.contains(after.entries[i]));
    }
}

proof fn lemma_stays_gone(before: StoreView, after: StoreView, id: Seq<char>)
    requires
        !ledger::holds_id(before.entries, id),
        forall|entry: EntryView| #[trigger] after.entries.contains(entry) ==> before.entries.contains(entry),
    ensures
        !ledger::holds_id(after.entries, id),
{
    if ledger::holds_id(after.entries, id) {
        let i = choose|i: int| 0 <= i < after.entries.len() && (#[trigger] after.entries[i]).id == id;
        assert(after.entries.contains(after.entries[i]));
        let k = choose|k: int| 0 <= k < before.entries.len() && before.entries[k] == after.entries[i];
        assert(before.entries[k].id == id);
    }
}

} // verus!
