//! What the tables have of an image after it was made, and whom it shows.

use vstd::prelude::*;

use super::generation;
use super::generation::ImageTargetView;
use super::model::{ImageBlobView, StoryImage, StoryImageView};
use super::openrouter::GeneratedImageView;
use super::repository;
use crate::entities::reads;
use crate::error::AppResult;
use crate::json;
use crate::ledger::model::EntryView;
use crate::ledger::repository as ledger;
use crate::settings;
use crate::settings::PreferencesView;
use crate::store::{EntityRowView, StoreView};
use crate::{rows, sorting, text};

verus! {

/// An image that was made is kept behind the others with its bytes, and one hidden entry of the
/// turn tells of it, about what the player did or about the message that it shows. Nothing else of
/// the tables changes.
pub proof fn law_image_is_recorded(
    before: StoreView,
    after: StoreView,
    target: ImageTargetView,
    description: Seq<char>,
    image: StoryImageView,
    generated: GeneratedImageView,
)
    requires
        generation::image_kept(before, after, target, description, image, generated, None),
    ensures
        after.images == before.images.push(image),
        after.blobs == before.blobs.push(
            (ImageBlobView { asset_id: image.id, media_type: generated.media_type, bytes: generated.bytes }),
        ),
        forall|i: int| 0 <= i < before.images.len() ==> (#[trigger] before.images[i]).id != image.id,
        exists|i: int|
            0 <= i < before.entries.len() && (#[trigger] before.entries[i]).id == target.entry_id
                && reads::one_hidden_entry(
                before,
                after,
                before.entries[i].story_id,
                "image_generated"@,
                Some(
                    if target.source_action_id is Some {
                        target.source_action_id->0
                    } else {
                        target.entry_id
                    },
                ),
                Some(target.turn_id),
            ),
        after.entries.last().content == Some("A scene image was generated depicting: "@ + description),
        json::text_field(after.entries.last().payload, "asset_id"@) == Some(image.id),
        json::text_field(after.entries.last().payload, "prompt"@) == Some(image.prompt),
        after == (StoreView {
            images: after.images,
            blobs: after.blobs,
            entries: after.entries,
            stories: after.stories,
            ..before
        }),
{
    let p = repository::image_is(image.id);
    rows::lemma_first_where(before.images, p);
    assert forall|i: int| 0 <= i < before.images.len() implies (#[trigger] before.images[i]).id != image.id by {
        if before.images[i].id == image.id {
            assert(p(before.images[i]));
        }
    }
    let t = rows::lemma_first_where(before.entries, ledger::entry_is(target.entry_id));
    assert(before.entries[t].id == target.entry_id);
    reveal_strlit("asset_id");
    reveal_strlit("prompt");
    assert("asset_id"@.len() != "prompt"@.len());
    reveal_with_fuel(rows::first_where, 3);
}

/// The images of a story are those whose entry the story has, each once, the ones that were made
/// first in front.
pub proof fn law_story_has_the_images_of_its_entries(store: StoreView, story_id: Seq<char>)
    ensures
        ({
            let list = repository::story_images(store, story_id);
            &&& forall|image: StoryImageView|
                #[trigger] list.contains(image) <==> store.images.contains(image) && exists|i: int|
                    0 <= i < store.entries.len() && (#[trigger] store.entries[i]).id == image.entry_id
                        && store.entries[i].story_id == story_id
            &&& forall|a: int, b: int|
                0 <= a < b < list.len() ==> !text::precedes(
                    (#[trigger] list[b]).created_at,
                    (#[trigger] list[a]).created_at,
                )
            &&& list.to_multiset() == store.images.filter(
                |image: StoryImageView|
                    exists|i: int|
                        0 <= i < store.entries.len() && (#[trigger] store.entries[i]).id == image.entry_id
                            && store.entries[i].story_id == story_id,
            ).to_multiset()
        }),
{
    let p = repository::of_story(store.entries, story_id);
    let key = sorting::key_fn::<StoryImage>();
    let kept = store.images.filter(p);
    let list = repository::story_images(store, story_id);
    let own = |image: StoryImageView|
        exists|i: int|
            0 <= i < store.entries.len() && (#[trigger] store.entries[i]).id == image.entry_id
                && store.entries[i].story_id == story_id;
    assert forall|image: StoryImageView| #[trigger] own(image) == p(image) by {
        let q = |e: EntryView| e.id == image.entry_id && e.story_id == story_id;
        if own(image) {
            let i = choose|i: int|
                0 <= i < store.entries.len() && (#[trigger] store.entries[i]).id == image.entry_id
                    && store.entries[i].story_id == story_id;
            assert(q(store.entries[i]));
            assert(rows::any_where(store.entries, q));
        }
        if p(image) {
            let i = choose|i: int| 0 <= i < store.entries.len() && q(#[trigger] store.entries[i]);
            assert(store.entries[i].id == image.entry_id);
        }
    }
    assert(own =~= p);
    let places = sorting::law_ordered_is_a_rearrangement(kept, key);
    sorting::law_ordered(kept, key);
    assert forall|image: StoryImageView|
        #[trigger] list.contains(image) <==> store.images.contains(image) && own(image) by {
        rows::lemma_filter_member(store.images, p, image);
        if list.contains(image) {
            let m = choose|m: int| 0 <= m < list.len() && list[m] == image;
            assert(kept[places[m]] == image);
        }
        if kept.contains(image) {
            let k = choose|k: int| 0 <= k < kept.len() && kept[k] == image;
            assert(places.contains(k));
            let m = choose|m: int| 0 <= m < places.len() && places[m] == k;
            assert(list[m] == kept[places[m]]);
        }
    }
    assert forall|image: StoryImageView|
        #[trigger] list.contains(image) <==> store.images.contains(image) && exists|i: int|
            0 <= i < store.entries.len() && (#[trigger] store.entries[i]).id == image.entry_id
                && store.entries[i].story_id == story_id by {
        assert(list.contains(image) <==> store.images.contains(image) && own(image));
    }
    assert forall|a: int, b: int| 0 <= a < b < list.len() implies !text::precedes(
        (#[trigger] list[b]).created_at,
        (#[trigger] list[a]).created_at,
    ) by {
        assert(key(list[b]) == list[b].created_at);
        assert(key(list[a]) == list[a].created_at);
    }
}

/// Whether an entity is a character of a story that is there and has a look.
pub open spec fn has_a_look(store: StoreView, story_id: Seq<char>, entity: EntityRowView) -> bool {
    &&& entity.story_id == story_id
    &&& entity.kind == "character"@
    &&& exists|j: int|
        #[trigger] reads::is_there(store, story_id, entity.id, j) && store.states[j].appearance_anchor is Some
}

/// Whom an image shows are the characters of the story that are asked for and have a look, each with
/// the name and the look that it has now, in the order in which the tables have them.
pub proof fn law_image_shows_whom_it_is_asked_to(store: StoreView, story_id: Seq<char>, ids: Seq<Seq<char>>) -> (places: Seq<int>)
    ensures
        ({
            let shown = generation::cast(store, story_id, ids);
            &&& shown.len() == places.len()
            &&& rows::rising_places(places, store.entities.len() as int)
            &&& forall|m: int|
                #![trigger places[m]]
                0 <= m < places.len() ==> {
                    let entity = store.entities[places[m]];
                    &&& ids.contains(entity.id)
                    &&& has_a_look(store, story_id, entity)
                    &&& exists|j: int|
                        #[trigger] reads::is_there(store, story_id, entity.id, j) && shown[m].0 == store.states[j].name
                            && store.states[j].appearance_anchor == Some(shown[m].1)
                }
            &&& forall|i: int|
                0 <= i < store.entities.len() && ids.contains((#[trigger] store.entities[i]).id) && has_a_look(
                    store,
                    story_id,
                    store.entities[i],
                ) ==> places.contains(i)
        }),
{
    let p = generation::pictured(store, story_id, ids);
    let kept = store.entities.filter(p);
    let shown = generation::cast(store, story_id, ids);
    let places = rows::lemma_filter_places(store.entities, p);
    assert forall|m: int|
        #![trigger places[m]]
        0 <= m < places.len() implies ({
        let entity = store.entities[places[m]];
        &&& ids.contains(entity.id)
        &&& has_a_look(store, story_id, entity)
        &&& exists|j: int|
            #[trigger] reads::is_there(store, story_id, entity.id, j) && shown[m].0 == store.states[j].name
                && store.states[j].appearance_anchor == Some(shown[m].1)
    }) by {
        let entity = store.entities[places[m]];
        assert(kept[m] == entity);
        assert(p(entity));
        let j = reads::lemma_there(store, story_id, entity.id);
        assert(reads::is_there(store, story_id, entity.id, j));
        assert(shown[m] == generation::portrait(store, story_id)(entity));
    }
    assert forall|i: int|
        0 <= i < store.entities.len() && ids.contains((#[trigger] store.entities[i]).id) && has_a_look(
            store,
            story_id,
            store.entities[i],
        ) implies places.contains(i) by {
        let entity = store.entities[i];
        let k = choose|k: int|
            #[trigger] reads::is_there(store, story_id, entity.id, k) && store.states[k].appearance_anchor is Some;
        assert(store.states[k].story_id == story_id);
        let j = reads::lemma_there(store, story_id, entity.id);
        if j < k {
            assert(!store.states[j].is_present);
        } else if k < j {
            assert(!store.states[k].is_present);
        }
        assert(p(entity));
    }
    places
}

/// An image is asked for in the chosen style and with what it should show, then, for each character
/// in it, the name and the look on a line of their own.
pub proof fn law_prompt_has_style_scene_and_looks(
    style: Seq<char>,
    description: Seq<char>,
    matched: Seq<(Seq<char>, Seq<char>)>,
    name: Seq<char>,
    look: Seq<char>,
)
    ensures
        generation::image_prompt(style, description, Seq::empty()) == style + " "@ + description,
        matched.len() > 0 ==> generation::image_prompt(style, description, matched.push((name, look)))
            == generation::image_prompt(style, description, matched) + "\n- "@ + name + ": "@ + look,
        generation::image_prompt(style, description, seq![(name, look)]) == style + " "@ + description
            + generation::APPEARANCE_HEADER@ + "\n- "@ + name + ": "@ + look,
{
    let more = matched.push((name, look));
    assert(more.drop_last() =~= matched);
    assert(more.last() == (name, look));
    assert(generation::image_prompt(style, description, Seq::empty()) =~= style + " "@ + description);
    let line = "\n- "@ + name + ": "@ + look;
    if matched.len() > 0 {
        assert(generation::image_prompt(style, description, more) =~= generation::image_prompt(
            style,
            description,
            matched,
        ) + "\n- "@ + name + ": "@ + look);
    }
    let one = seq![(name, look)];
    assert(one.drop_last() =~= Seq::empty());
    assert(generation::looks(one.drop_last()) =~= Seq::empty());
    assert(one.last() == (name, look));
    assert(generation::looks(one) =~= line);
    assert(generation::image_prompt(style, description, one) =~= style + " "@ + description
        + generation::APPEARANCE_HEADER@ + "\n- "@ + name + ": "@ + look);
}

/// An image can be asked for where images are switched on, a key for the provider is kept, and the
/// message that it shows is there; it is asked of the chosen model in the chosen style.
pub proof fn law_image_is_asked_as_chosen(
    store: StoreView,
    preferences: PreferencesView,
    entry_id: Seq<char>,
    description: Seq<char>,
    ids: Seq<Seq<char>>,
)
    ensures
        ({
            let chosen = settings::image_model(preferences);
            let key = settings::api_key_of(preferences, "openrouter"@);
            let there = exists|i: int| 0 <= i < store.entries.len() && (#[trigger] store.entries[i]).id == entry_id;
            let call = generation::image_call_of(store, preferences, entry_id, description, ids);
            &&& call is Ok <==> chosen.enabled && key is Some && there
            &&& call matches Ok(made) ==> Some(made.0) == key && made.1 == chosen.model && exists|i: int|
                0 <= i < store.entries.len() && (#[trigger] store.entries[i]).id == entry_id && made.2
                    == generation::image_prompt(
                    chosen.style,
                    description,
                    generation::cast(store, store.entries[i].story_id, ids),
                )
        }),
{
    let p = ledger::entry_is(entry_id);
    let t = rows::lemma_first_where(store.entries, p);
    assert forall|i: int| 0 <= i < store.entries.len() && (#[trigger] store.entries[i]).id == entry_id
        implies rows::any_where(store.entries, p) by {
        assert(p(store.entries[i]));
    }
    if rows::any_where(store.entries, p) {
        assert(store.entries[t].id == entry_id);
    }
}

/// Detaching the images of an entry takes them and what tells of them, by its target or by the
/// image that it names, and leaves every other image and entry in its place.
pub proof fn law_detaching_takes_what_tells_of_the_images(store: StoreView, entry_id: Seq<char>)
    ensures
        ({
            let after = repository::detached(store, entry_id);
            &&& after.images == store.images.filter(|image: StoryImageView| image.entry_id != entry_id)
            &&& after.entries == store.entries.filter(
                |e: EntryView|
                    !(e.kind == "image_generated"@ && (e.target_entry_id == Some(entry_id) || (exists|i: int|
                        0 <= i < store.images.len() && (#[trigger] store.images[i]).entry_id == entry_id
                            && repository::told_asset(e.payload) == Some(store.images[i].id)))),
            )
            &&& after == (StoreView { images: after.images, entries: after.entries, ..store })
        }),
{
    assert((|image: StoryImageView| image.entry_id != entry_id) =~= repository::of_other_entry(entry_id));
    let keep = |e: EntryView|
        !(e.kind == "image_generated"@ && (e.target_entry_id == Some(entry_id) || (exists|i: int|
            0 <= i < store.images.len() && (#[trigger] store.images[i]).entry_id == entry_id
                && repository::told_asset(e.payload) == Some(store.images[i].id))));
    let own = repository::tells_of_no_image(store.images, entry_id);
    assert forall|e: EntryView| #[trigger] keep(e) == own(e) by {
        let told = repository::told_asset(e.payload);
        if told is Some && repository::entry_shows(store.images, entry_id, told->0) {
            let i = choose|i: int|
                0 <= i < store.images.len() && (#[trigger] store.images[i]).entry_id == entry_id && store.images[i].id
                    == told->0;
            assert(store.images[i].entry_id == entry_id);
        }
    }
    assert(keep =~= own);
}

/// An image that came for a message is kept with the prompt that it was made from, behind the others
/// and with its bytes, where the message is there; otherwise nothing changes.
pub proof fn law_image_is_stored_for_its_message(
    before: StoreView,
    after: StoreView,
    target: ImageTargetView,
    description: Seq<char>,
    prompt: Seq<char>,
    generated: GeneratedImageView,
    image: StoryImageView,
    event_id: Seq<char>,
    now: Seq<char>,
    r: AppResult<StoryImage>,
)
    requires
        generation::image_stored(before, after, target, description, prompt, generated, image, event_id, now, r),
    ensures
        image.entry_id == target.entry_id,
        image.prompt == prompt,
        r is Err ==> after == before,
        (forall|i: int| 0 <= i < before.entries.len() ==> (#[trigger] before.entries[i]).id != target.entry_id)
            ==> r is Err,
        r is Ok ==> {
            &&& r->Ok_0@ == image
            &&& after.images == before.images.push(image)
            &&& after.blobs == before.blobs.push(
                (ImageBlobView { asset_id: image.id, media_type: generated.media_type, bytes: generated.bytes }),
            )
            &&& after.entries == before.entries.push(after.entries.last())
            &&& after.entries.last().id == event_id
            &&& after.entries.last().created_at == now
            &&& after.entries.last().kind == "image_generated"@
            &&& after.entries.last().turn_id == Some(target.turn_id)
            &&& json::text_field(after.entries.last().payload, "asset_id"@) == Some(image.id)
        },
{
    let t = rows::lemma_first_where(before.entries, ledger::entry_is(target.entry_id));
    if ledger::entry_with_id(before.entries, target.entry_id) is Some {
        assert(before.entries[t].id == target.entry_id);
    }
    reveal_with_fuel(rows::first_where, 3);
    if r is Ok {
        assert(after.entries =~= before.entries.push(after.entries.last()));
    }
}

} // verus!
