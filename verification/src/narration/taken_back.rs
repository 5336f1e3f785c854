//! What is left of a story when a message was taken back or changed.

use vstd::prelude::*;

use super::edit;
use super::repository as messages;
use super::rewind;
use super::rewind::Effects;
use crate::compaction::summary;
use crate::entities::projection;
use crate::entities::projection::ReplayScope;
use crate::images::model::StoryImageView;
use crate::images::repository as images;
use crate::json;
use crate::json::JsonView;
use crate::ledger::cascade;
use crate::ledger::model::EntryView;
use crate::ledger::repository as ledger;
use crate::store::{StoreView, StoryRowView};
use crate::{rows, text};

verus! {

/// Whether an entry tells of an image.
pub open spec fn shows(entry: EntryView, asset_id: Seq<char>) -> bool {
    entry.kind == "image_generated"@ && json::text_field(entry.payload, "asset_id"@) == Some(asset_id)
}

/// Whether an entry tells what became of an entity.
pub open spec fn concerns(entry: EntryView, entity_id: Seq<char>) -> bool {
    &&& entry.kind == "entity_created"@ || entry.kind == "entity_updated"@ || entry.kind == "entity_deleted"@
        || entry.kind == "entity_attribute_changed"@ || entry.kind == "entity_attribute_removed"@
    &&& json::text_field(entry.payload, "entity_id"@) == Some(entity_id)
}

/// Whether one of some entries tells of an image.
pub open spec fn shown_by(entries: Seq<EntryView>, asset_id: Seq<char>) -> bool {
    exists|k: int| 0 <= k < entries.len() && shows(#[trigger] entries[k], asset_id)
}

proof fn lemma_kinds()
    ensures
        "image_generated"@ != "entity_created"@,
        "image_generated"@ != "entity_updated"@,
        "image_generated"@ != "entity_deleted"@,
        "image_generated"@ != "entity_attribute_changed"@,
        "image_generated"@ != "entity_attribute_removed"@,
{
    reveal_strlit("image_generated");
    reveal_strlit("entity_created");
    reveal_strlit("entity_updated");
    reveal_strlit("entity_deleted");
    reveal_strlit("entity_attribute_changed");
    reveal_strlit("entity_attribute_removed");
    assert("image_generated"@[0] == 'i');
    assert("entity_created"@[0] == 'e');
    assert("entity_updated"@[0] == 'e');
    assert("entity_deleted"@[0] == 'e');
    assert("entity_attribute_changed"@[0] == 'e');
    assert("entity_attribute_removed"@[0] == 'e');
}

proof fn lemma_one_more(entries: Seq<EntryView>)
    requires
        entries.len() > 0,
    ensures
        forall|asset: Seq<char>|
            #[trigger] shown_by(entries, asset) <==> shown_by(entries.drop_last(), asset) || shows(
                entries.last(),
                asset,
            ),
        forall|e: Seq<char>|
            #[trigger] concerned_by(entries, e) <==> concerned_by(entries.drop_last(), e) || concerns(
                entries.last(),
                e,
            ),
        forall|kept: Seq<StoryImageView>, path: Seq<char>|
            #[trigger] given_up_by(kept, entries, path) <==> given_up_by(kept, entries.drop_last(), path) || gives_up(
                kept,
                entries.last(),
                path,
            ),
{
    let front = entries.drop_last();
    let n = entries.len() - 1;
    assert forall|asset: Seq<char>| #[trigger] shown_by(entries, asset) <==> shown_by(front, asset) || shows(
        entries.last(),
        asset,
    ) by {
        if shown_by(front, asset) {
            let k = choose|k: int| 0 <= k < front.len() && shows(#[trigger] front[k], asset);
            assert(shows(entries[k], asset));
        }
        if shows(entries.last(), asset) {
            assert(shows(entries[n], asset));
        }
        if shown_by(entries, asset) {
            let k = choose|k: int| 0 <= k < entries.len() && shows(#[trigger] entries[k], asset);
            if k < n {
                assert(shows(front[k], asset));
            }
        }
    }
    assert forall|e: Seq<char>| #[trigger] concerned_by(entries, e) <==> concerned_by(front, e) || concerns(
        entries.last(),
        e,
    ) by {
        if concerned_by(front, e) {
            let k = choose|k: int| 0 <= k < front.len() && concerns(#[trigger] front[k], e);
            assert(concerns(entries[k], e));
        }
        if concerns(entries.last(), e) {
            assert(concerns(entries[n], e));
        }
        if concerned_by(entries, e) {
            let k = choose|k: int| 0 <= k < entries.len() && concerns(#[trigger] entries[k], e);
            if k < n {
                assert(concerns(front[k], e));
            }
        }
    }
    assert forall|kept: Seq<StoryImageView>, path: Seq<char>|
        #[trigger] given_up_by(kept, entries, path) <==> given_up_by(kept, front, path) || gives_up(
            kept,
            entries.last(),
            path,
        ) by {
        if given_up_by(kept, front, path) {
            let k = choose|k: int| 0 <= k < front.len() && gives_up(kept, #[trigger] front[k], path);
            assert(gives_up(kept, entries[k], path));
        }
        if gives_up(kept, entries.last(), path) {
            assert(gives_up(kept, entries[n], path));
        }
        if given_up_by(kept, entries, path) {
            let k = choose|k: int| 0 <= k < entries.len() && gives_up(kept, #[trigger] entries[k], path);
            if k < n {
                assert(gives_up(kept, front[k], path));
            }
        }
    }
}

proof fn lemma_gives_up(kept: Seq<StoryImageView>, entry: EntryView, path: Seq<char>)
    ensures
        gives_up(kept, entry, path) <==> entry.kind == "image_generated"@ && match json::text_field(
            entry.payload,
            "asset_id"@,
        ) {
            Some(asset) => match rows::first_where(kept, images::image_is(asset)) {
                Some(image) => image.path == path,
                None => false,
            },
            None => false,
        },
{
    let asset = json::text_field(entry.payload, "asset_id"@);
    if asset is Some {
        let p = images::image_is(asset->0);
        let i = rows::lemma_first_where(kept, p);
        if gives_up(kept, entry, path) {
            let k = choose|k: int|
                0 <= k < kept.len() && shows(entry, (#[trigger] kept[k]).id) && kept[k].path == path && (forall|j: int|
                    0 <= j < k ==> (#[trigger] kept[j]).id != kept[k].id);
            assert(p(kept[k]));
            if i < k {
                assert(kept[i].id != kept[k].id);
            } else if k < i {
                assert(!p(kept[k]));
            }
        }
        if rows::first_where(kept, p) is Some {
            assert forall|j: int| 0 <= j < i implies (#[trigger] kept[j]).id != kept[i].id by {
                assert(!p(kept[j]));
            }
            assert(kept[i].id == asset->0);
        }
    }
}

proof fn lemma_effects(start: Effects, entries: Seq<EntryView>)
    ensures
        ({
            let at = rewind::effects(start, entries);
            &&& at.images == start.images.filter(|image: StoryImageView| !shown_by(entries, image.id))
            &&& forall|e: Seq<char>|
                #[trigger] at.affected.contains(e) <==> start.affected.contains(e) || concerned_by(entries, e)
            &&& forall|path: Seq<char>|
                #[trigger] at.paths.contains(path) <==> start.paths.contains(path) || given_up_by(
                    start.images,
                    entries,
                    path,
                )
        }),
    decreases entries.len(),
{
    lemma_kinds();
    let at = rewind::effects(start, entries);
    if entries.len() == 0 {
        let keep = |image: StoryImageView| !shown_by(entries, image.id);
        lemma_all_kept(start.images, keep);
    } else {
        let front = entries.drop_last();
        let last = entries.last();
        lemma_effects(start, front);
        lemma_one_more(entries);
        let before = rewind::effects(start, front);
        let keep = |image: StoryImageView| !shown_by(front, image.id);
        let keep_now = |image: StoryImageView| !shown_by(entries, image.id);
        let asset = json::text_field(last.payload, "asset_id"@);
        let subject = json::text_field(last.payload, "entity_id"@);
        assert forall|e: Seq<char>| #[trigger] at.affected.contains(e) <==> start.affected.contains(e) || concerned_by(
            entries,
            e,
        ) by {
            assert(before.affected.contains(e) <==> start.affected.contains(e) || concerned_by(front, e));
            assert(concerned_by(entries, e) <==> concerned_by(front, e) || concerns(last, e));
            if last.kind != "image_generated"@ && rewind::tells_of_entity(last.kind) && subject is Some {
                rows::lemma_push_contains(before.affected, subject->0, e);
            }
        }
        if last.kind == "image_generated"@ && asset is Some {
            lemma_filter_both(start.images, keep, images::image_is_not(asset->0), keep_now);
            lemma_seen(start.images, front, asset->0);
        } else {
            assert(keep =~= keep_now);
        }
        assert forall|path: Seq<char>| #[trigger] at.paths.contains(path) <==> start.paths.contains(path)
            || given_up_by(start.images, entries, path) by {
            assert(before.paths.contains(path) <==> start.paths.contains(path) || given_up_by(
                start.images,
                front,
                path,
            ));
            assert(given_up_by(start.images, entries, path) <==> given_up_by(start.images, front, path) || gives_up(
                start.images,
                last,
                path,
            ));
            lemma_gives_up(start.images, last, path);
            if last.kind == "image_generated"@ && asset is Some {
                let p = images::image_is(asset->0);
                let found = rows::first_where(before.images, p);
                if found is Some {
                    rows::lemma_push_contains(before.paths, found->0.path, path);
                }
            }
        }
    }
}

proof fn lemma_seen(kept: Seq<StoryImageView>, front: Seq<EntryView>, asset: Seq<char>)
    ensures
        ({
            let p = images::image_is(asset);
            let left = kept.filter(|image: StoryImageView| !shown_by(front, image.id));
            &&& shown_by(front, asset) ==> rows::first_where(left, p) is None && (rows::first_where(kept, p) is Some
                ==> given_up_by(kept, front, rows::first_where(kept, p)->0.path))
            &&& !shown_by(front, asset) ==> rows::first_where(left, p) == rows::first_where(kept, p)
        }),
{
    let p = images::image_is(asset);
    let keep = |image: StoryImageView| !shown_by(front, image.id);
    let left = kept.filter(keep);
    if shown_by(front, asset) {
        let j = rows::lemma_first_where(left, p);
        if rows::first_where(left, p) is Some {
            assert(left.contains(left[j]));
            rows::lemma_filter_member(kept, keep, left[j]);
        }
        let k = choose|k: int| 0 <= k < front.len() && shows(#[trigger] front[k], asset);
        if rows::first_where(kept, p) is Some {
            let path = rows::first_where(kept, p)->0.path;
            lemma_gives_up(kept, front[k], path);
            assert(gives_up(kept, front[k], path));
        }
    } else {
        rows::lemma_first_where_kept(kept, keep, p);
    }
}

/// Whether one of some entries tells what became of an entity.
pub open spec fn concerned_by(entries: Seq<EntryView>, entity_id: Seq<char>) -> bool {
    exists|k: int| 0 <= k < entries.len() && concerns(#[trigger] entries[k], entity_id)
}

/// Whether one of some entries tells of an image that is kept at a path.
pub open spec fn given_up_by(kept: Seq<StoryImageView>, entries: Seq<EntryView>, path: Seq<char>) -> bool {
    exists|k: int| 0 <= k < entries.len() && gives_up(kept, #[trigger] entries[k], path)
}

/// Whether the image that an entry tells of is kept at a path.
pub open spec fn gives_up(images: Seq<StoryImageView>, entry: EntryView, path: Seq<char>) -> bool {
    exists|i: int|
        0 <= i < images.len() && shows(entry, (#[trigger] images[i]).id) && images[i].path == path && (forall|j: int|
            0 <= j < i ==> (#[trigger] images[j]).id != images[i].id)
}

proof fn lemma_all_kept<A>(s: Seq<A>, keep: spec_fn(A) -> bool)
    requires
        forall|x: A| #[trigger] keep(x),
    ensures
        s.filter(keep) == s,
    decreases s.len(),
{
    reveal(Seq::filter);
    if s.len() > 0 {
        lemma_all_kept(s.drop_last(), keep);
        assert(keep(s.last()));
        assert(s.drop_last().push(s.last()) =~= s);
    }
}

proof fn lemma_filter_both<A>(s: Seq<A>, p: spec_fn(A) -> bool, q: spec_fn(A) -> bool, both: spec_fn(A) -> bool)
    requires
        forall|x: A| #[trigger] both(x) == (p(x) && q(x)),
    ensures
        s.filter(p).filter(q) == s.filter(both),
    decreases s.len(),
{
    reveal(Seq::filter);
    if s.len() > 0 {
        let t = s.drop_last();
        lemma_filter_both(t, p, q, both);
        assert(both(s.last()) == (p(s.last()) && q(s.last())));
        if p(s.last()) {
            assert(t.filter(p).push(s.last()).drop_last() =~= t.filter(p));
        }
    }
}

/// Whether the tables are those of before without a message of a story and what came of it: the
/// entries that target it or each other down to it, the summaries of the story up to one of these,
/// and the images of these or that these tell of.
pub open spec fn left_without(before: StoreView, after: StoreView, story_id: Seq<char>, id: Seq<char>) -> bool {
    let gone = before.entries.filter(|e: EntryView| cascade::doomed(before.entries, id, e.id));
    &&& forall|e: EntryView|
        #[trigger] after.entries.contains(e) <==> {
            &&& before.entries.contains(e)
            &&& !cascade::doomed(before.entries, id, e.id)
            &&& !(e.story_id == story_id && e.kind == "context_summary"@ && exists|k: int|
                0 <= k < gone.len() && json::text_field(e.payload, "through_entry_id"@) == Some(
                    (#[trigger] gone[k]).id,
                ))
        }
    &&& forall|image: StoryImageView|
        #[trigger] after.images.contains(image) <==> {
            &&& before.images.contains(image)
            &&& !shown_by(gone, image.id)
            &&& !(exists|k: int| 0 <= k < gone.len() && (#[trigger] gone[k]).id == image.entry_id)
        }
    &&& after.entities == before.entities
    &&& after.registry == before.registry
    &&& after.stories == before.stories
}

/// Removing a message takes with it what came of it, and nothing else of the ledger and of the
/// images. The paths that are given up are those of its images and of the images that are told of
/// by what goes, beside the ones that were given up already, and the entities that are told anew
/// are those of which something that goes tells.
pub proof fn law_message_goes_with_its_images(
    store: StoreView,
    story_id: Seq<char>,
    id: Seq<char>,
    paths: Seq<Seq<char>>,
    now: Seq<char>,
)
    ensures
        ({
            let found = rewind::message_effects(store, id, paths);
            let after = rewind::settled(
                rewind::without_message(store, id, found),
                story_id,
                found.doomed,
                found.affected,
                now,
            );
            let gone = store.entries.filter(|e: EntryView| cascade::doomed(store.entries, id, e.id));
            &&& left_without(store, after, story_id, id)
            &&& forall|e: Seq<char>|
                #[trigger] found.affected.contains(e) <==> concerned_by(gone, e)
            &&& forall|path: Seq<char>|
                #[trigger] found.paths.contains(path) <==> {
                    ||| paths.contains(path)
                    ||| exists|i: int|
                        0 <= i < store.images.len() && (#[trigger] store.images[i]).entry_id == id
                            && store.images[i].path == path
                    ||| given_up_by(store.images, gone, path)
                }
        }),
{
    let found = rewind::message_effects(store, id, paths);
    let after = rewind::settled(
        rewind::without_message(store, id, found),
        story_id,
        found.doomed,
        found.affected,
        now,
    );
    let gone = store.entries.filter(|e: EntryView| cascade::doomed(store.entries, id, e.id));
    cascade::law_ledger_is_parted(store.entries, id);
    let own = images::paths_of_entry(store.images, id);
    let start = Effects {
        images: store.images,
        doomed: Seq::empty(),
        affected: Seq::empty(),
        paths: paths + own,
    };
    lemma_effects(start, gone);
    assert(found == rewind::effects(start, gone));
    assert forall|e: EntryView|
        #[trigger] after.entries.contains(e) <==> {
            &&& store.entries.contains(e)
            &&& !cascade::doomed(store.entries, id, e.id)
            &&& !(e.story_id == story_id && e.kind == "context_summary"@ && exists|k: int|
                0 <= k < gone.len() && json::text_field(e.payload, "through_entry_id"@) == Some(
                    (#[trigger] gone[k]).id,
                ))
        } by {
        rewind::law_removed_message_goes_with_what_came_of_it(store, story_id, id, paths, now, e);
        lemma_ids(gone);
    }
    let pruned = StoreView {
        entries: rewind::without_message(store, id, found).entries.filter(
            summary::uncovered(story_id, found.doomed),
        ),
        ..rewind::without_message(store, id, found)
    };
    projection::law_replay_keeps_the_record(
        pruned,
        ReplayScope { story_id, ids: found.affected.to_set(), exclude_turn: None, now },
    );
    rewind::law_removed_message_goes_with_what_came_of_it(store, story_id, id, paths, now, gone[0]);
    assert(found.doomed == rewind::ids_of(gone));
    let keep = |image: StoryImageView| !shown_by(gone, image.id);
    assert forall|image: StoryImageView|
        #[trigger] after.images.contains(image) <==> {
            &&& store.images.contains(image)
            &&& !shown_by(gone, image.id)
            &&& !(exists|k: int| 0 <= k < gone.len() && (#[trigger] gone[k]).id == image.entry_id)
        } by {
        lemma_ids(gone);
        rows::lemma_filter_member(store.images, keep, image);
        rows::lemma_filter_member(found.images, rewind::image_outside(found.doomed), image);
    }
    assert forall|path: Seq<char>|
        #[trigger] found.paths.contains(path) <==> {
            ||| paths.contains(path)
            ||| exists|i: int|
                0 <= i < store.images.len() && (#[trigger] store.images[i]).entry_id == id && store.images[i].path
                    == path
            ||| given_up_by(store.images, gone, path)
        } by {
        lemma_paths(store.images, id, path);
        rows::lemma_either(paths, own, path);
    }
}

proof fn lemma_ids(entries: Seq<EntryView>)
    ensures
        forall|id: Seq<char>|
            #[trigger] rewind::ids_of(entries).contains(id) <==> exists|k: int|
                0 <= k < entries.len() && (#[trigger] entries[k]).id == id,
{
    let ids = rewind::ids_of(entries);
    assert forall|id: Seq<char>|
        #[trigger] ids.contains(id) <==> exists|k: int| 0 <= k < entries.len() && (#[trigger] entries[k]).id == id by {
        if ids.contains(id) {
            let k = choose|k: int| 0 <= k < ids.len() && ids[k] == id;
            assert(entries[k].id == id);
        }
        if exists|k: int| 0 <= k < entries.len() && (#[trigger] entries[k]).id == id {
            let k = choose|k: int| 0 <= k < entries.len() && (#[trigger] entries[k]).id == id;
            assert(ids[k] == id);
        }
    }
}

/// Where the images of an entry are kept is where each image of it is kept.
pub proof fn lemma_paths(kept: Seq<StoryImageView>, entry_id: Seq<char>, path: Seq<char>)
    ensures
        images::paths_of_entry(kept, entry_id).contains(path) <==> exists|i: int|
            0 <= i < kept.len() && (#[trigger] kept[i]).entry_id == entry_id && kept[i].path == path,
{
    let p = images::of_entry(entry_id);
    let own = kept.filter(p);
    let paths = images::paths_of_entry(kept, entry_id);
    let places = rows::lemma_filter_places(kept, p);
    if paths.contains(path) {
        let m = choose|m: int| 0 <= m < paths.len() && paths[m] == path;
        assert(own[m] == kept[places[m]]);
    }
    if exists|i: int| 0 <= i < kept.len() && (#[trigger] kept[i]).entry_id == entry_id && kept[i].path == path {
        let i = choose|i: int| 0 <= i < kept.len() && (#[trigger] kept[i]).entry_id == entry_id && kept[i].path == path;
        assert(p(kept[i]));
        assert(places.contains(i));
        let m = choose|m: int| 0 <= m < places.len() && places[m] == i;
        assert(own[m] == kept[i]);
        assert(paths[m] == path);
    }
}

/// Whether a story, and no other, was noted to have changed at a time.
pub open spec fn noted_change(before: Seq<StoryRowView>, after: Seq<StoryRowView>, story_id: Seq<char>, now: Seq<char>) -> bool {
    &&& after.len() == before.len()
    &&& forall|i: int|
        #![trigger after[i]]
        0 <= i < before.len() ==> after[i] == (if before[i].id == story_id {
            StoryRowView { updated_at: now, ..before[i] }
        } else {
            before[i]
        })
}

/// Taking back an exchange takes the last message of the story, and, where the narrator made it and
/// what the player said comes last without it, that too. Each goes with what came of it; without a
/// message nothing changes.
pub proof fn law_erase_takes_the_last_exchange(store: StoreView, story_id: Seq<char>, now: Seq<char>)
    requires
        rewind::erased(store, story_id, now) is Ok,
    ensures
        ({
            let done = rewind::erased(store, story_id, now)->Ok_0;
            let said = messages::messages_of(store, story_id);
            let last = said.last();
            let mid = rewind::reply_removed(store, story_id, last.id, now)->Ok_0.0;
            let rest = messages::messages_of(mid, story_id);
            let answers = last.kind != "player_message"@ && (json::text_field(last.payload, "input_mode"@) is None
                || json::text_field(last.payload, "input_mode"@) == Some("generated"@)) && rest.len() > 0
                && rest.last().kind == "player_message"@;
            &&& said.len() == 0 ==> done.0 == store && done.1.len() == 0 && done.2.len() == 0
            &&& said.len() > 0 && last.kind == "player_message"@ ==> done.1 == seq![last.id] && left_without(
                store,
                StoreView { stories: store.stories, ..done.0 },
                story_id,
                last.id,
            )
            &&& said.len() > 0 && last.kind != "player_message"@ ==> left_without(store, mid, story_id, last.id)
            &&& said.len() > 0 && last.kind != "player_message"@ && !answers ==> done.1 == seq![last.id] && done.0
                == (StoreView { stories: done.0.stories, ..mid })
            &&& said.len() > 0 && answers ==> done.1 == seq![last.id, rest.last().id] && left_without(
                mid,
                StoreView { stories: mid.stories, ..done.0 },
                story_id,
                rest.last().id,
            )
            &&& said.len() > 0 ==> noted_change(store.stories, done.0.stories, story_id, now)
        }),
{
    reveal_strlit("player");
    reveal_strlit("narrator");
    assert("player"@.len() != "narrator"@.len());
    let done = rewind::erased(store, story_id, now)->Ok_0;
    let said = messages::messages_of(store, story_id);
    if said.len() > 0 {
        let last = said.last();
        law_message_goes_with_its_images(store, story_id, last.id, Seq::empty(), now);
        if last.kind != "player_message"@ {
            let reply = rewind::reply_removed(store, story_id, last.id, now)->Ok_0;
            let rest = messages::messages_of(reply.0, story_id);
            if rest.len() > 0 {
                law_message_goes_with_its_images(reply.0, story_id, rest.last().id, reply.1, now);
            }
        }
    }
}

/// A change of a message adds one hidden entry to its story, which has the new words without the
/// space around them, and takes the images of the message with what tells of them. Every other
/// entry and image stays, and the paths that are given up are those of the images that went.
pub proof fn law_edit_leaves_the_rest(
    store: StoreView,
    edit_id: Seq<char>,
    now: Seq<char>,
    entry_id: Seq<char>,
    content: Seq<char>,
)
    requires
        edit::edited(store, edit_id, now, entry_id, content) is Ok,
    ensures
        ({
            let done = edit::edited(store, edit_id, now, entry_id, content)->Ok_0;
            exists|note: EntryView|
                {
                    &&& #[trigger] store.entries.push(note).last() == note
                    &&& note.id == edit_id
                    &&& note.kind == "content_edited"@
                    &&& note.visibility == "hidden"@
                    &&& note.content == Some(text::trimmed(content))
                    &&& text::trimmed(content).len() > 0
                    &&& note.target_entry_id == Some(entry_id)
                    &&& note.turn_id is None
                    &&& note.created_at == now
                    &&& note.payload == JsonView::Object(seq![("reason"@, JsonView::Str("user_edit"@))])
                    &&& exists|i: int|
                        0 <= i < store.entries.len() && (#[trigger] store.entries[i]).id == entry_id && note.story_id
                            == store.entries[i].story_id
                    &&& done.0.entries == store.entries.push(note).filter(
                        |e: EntryView| !(e.kind == "image_generated"@ && e.target_entry_id == Some(entry_id)),
                    )
                    &&& noted_change(store.stories, done.0.stories, note.story_id, now)
                }
        }),
        ({
            let done = edit::edited(store, edit_id, now, entry_id, content)->Ok_0;
            &&& done.0.images == store.images.filter(|image: StoryImageView| image.entry_id != entry_id)
            &&& done.0 == (StoreView {
                entries: done.0.entries,
                images: done.0.images,
                stories: done.0.stories,
                ..store
            })
            &&& forall|path: Seq<char>|
                #[trigger] done.2.contains(path) <==> exists|i: int|
                    0 <= i < store.images.len() && (#[trigger] store.images[i]).entry_id == entry_id
                        && store.images[i].path == path
        }),
{
    let done = edit::edited(store, edit_id, now, entry_id, content)->Ok_0;
    let target = ledger::entry_with_id(store.entries, entry_id)->0;
    let t = rows::lemma_first_where(store.entries, ledger::entry_is(entry_id));
    let draft = edit::edit_draft(target.story_id, entry_id, content);
    let note = ledger::drafted_entry(store, edit_id, now, draft);
    let p = |e: EntryView| !(e.kind == "image_generated"@ && e.target_entry_id == Some(entry_id));
    assert(p =~= edit::not_illustrating(entry_id));
    assert((|image: StoryImageView| image.entry_id != entry_id) =~= images::of_other_entry(entry_id));
    assert(store.entries.push(note).last() == note);
    assert(store.entries[t].id == entry_id);
    assert forall|path: Seq<char>|
        #[trigger] done.2.contains(path) <==> exists|i: int|
            0 <= i < store.images.len() && (#[trigger] store.images[i]).entry_id == entry_id && store.images[i].path
                == path by {
        lemma_paths(store.images, entry_id, path);
    }
}

} // verus!
