//! The images of a story.

use vstd::prelude::*;

use super::model;
use super::model::{ImageBlob, ImageBlobView, StoryImage, StoryImageView};
use crate::error::{AppError, AppResult, ErrorView};
use crate::json;
use crate::json::{Json, JsonView};
use crate::ledger::kind;
use crate::ledger::model::{EntryView, LedgerEntry};
use crate::ledger::repository as ledger;
use crate::sorting;
use crate::sorting::Keyed;
use crate::store::{Store, StoreView};
use crate::{rows, text};

verus! {

impl Keyed for StoryImage {
    open spec fn key_of(row: StoryImageView) -> Seq<char> {
        row.created_at
    }

    fn key(&self) -> (r: &str) {
        self.created_at.as_str()
    }
}

/// The condition of standing for an image that belongs to an entry of a story.
pub open spec fn of_story(entries: Seq<EntryView>, story_id: Seq<char>) -> spec_fn(StoryImageView) -> bool {
    |image: StoryImageView| ledger::belongs(entries, image.entry_id, story_id)
}

/// The condition of standing for an image of an entry.
pub open spec fn of_entry(entry_id: Seq<char>) -> spec_fn(StoryImageView) -> bool {
    |image: StoryImageView| image.entry_id == entry_id
}

/// The condition of standing for an image of another entry.
pub open spec fn of_other_entry(entry_id: Seq<char>) -> spec_fn(StoryImageView) -> bool {
    |image: StoryImageView| image.entry_id != entry_id
}

/// The condition of standing for the image with an identifier.
pub open spec fn image_is(id: Seq<char>) -> spec_fn(StoryImageView) -> bool {
    |image: StoryImageView| image.id == id
}

/// The condition of standing for another image than that with an identifier.
pub open spec fn image_is_not(id: Seq<char>) -> spec_fn(StoryImageView) -> bool {
    |image: StoryImageView| image.id != id
}

/// Where an image is kept.
pub open spec fn path_of() -> spec_fn(StoryImageView) -> Seq<char> {
    |image: StoryImageView| image.path
}

/// The images of a story, those that were made first before the others.
pub open spec fn story_images(store: StoreView, story_id: Seq<char>) -> Seq<StoryImageView> {
    sorting::ordered(store.images.filter(of_story(store.entries, story_id)), sorting::key_fn::<StoryImage>())
}

/// The images of a story, those that were made first before the others.
pub fn list_for_story(store: &Store, story_id: &str) -> (r: Vec<StoryImage>)
    ensures
        r.deep_view() == story_images(store@, story_id@),
{
    let ghost p = of_story(store@.entries, story_id@);
    let keep = |image: &StoryImage| -> (b: bool)
        ensures
            b == p(image@),
    {
        ledger::belongs_to_story(&store.entries, image.entry_id.as_str(), story_id)
    };
    let own = rows::kept_rows(
        &store.images,
        keep,
        Ghost(p),
    );
    sorting::sort_rows(own)
}

/// Where the images of an entry are kept.
pub open spec fn paths_of_entry(images: Seq<StoryImageView>, entry_id: Seq<char>) -> Seq<Seq<char>> {
    images.filter(of_entry(entry_id)).map_values(path_of())
}

/// Where the images of an entry are kept.
pub fn image_paths_for_entry(store: &Store, entry_id: &str) -> (r: Vec<String>)
    ensures
        r.deep_view() == paths_of_entry(store@.images, entry_id@),
{
    let ghost p = of_entry(entry_id@);
    let ghost f = path_of();
    let keep = |image: &StoryImage| -> (b: bool)
        ensures
            b == p(image@),
    {
        text::same_text(image.entry_id.as_str(), entry_id)
    };
    let read = |image: &StoryImage| -> (path: String)
        ensures
            path@ == f(image@),
    {
        image.path.clone()
    };
    rows::read_rows(
        &store.images,
        keep,
        read,
        Ghost(p),
        Ghost(f),
    )
}

/// Where the images of a story are kept.
pub fn image_paths_for_story(store: &Store, story_id: &str) -> (r: Vec<String>)
    ensures
        r.deep_view() == store@.images.filter(of_story(store@.entries, story_id@)).map_values(path_of()),
{
    let ghost p = of_story(store@.entries, story_id@);
    let ghost f = path_of();
    let keep = |image: &StoryImage| -> (b: bool)
        ensures
            b == p(image@),
    {
        ledger::belongs_to_story(&store.entries, image.entry_id.as_str(), story_id)
    };
    let read = |image: &StoryImage| -> (path: String)
        ensures
            path@ == f(image@),
    {
        image.path.clone()
    };
    rows::read_rows(
        &store.images,
        keep,
        read,
        Ghost(p),
        Ghost(f),
    )
}

/// Whether an image has an identifier.
pub open spec fn holds_image(images: Seq<StoryImageView>, id: Seq<char>) -> bool {
    rows::first_where(images, image_is(id)) is Some
}

/// The place of an image.
fn image_position(images: &Vec<StoryImage>, id: &str) -> (r: Option<usize>)
    ensures
        match r {
            Some(i) => i < images@.len() && rows::first_where(images.deep_view(), image_is(id@)) == Some(
                images@[i as int]@,
            ),
            None => rows::first_where(images.deep_view(), image_is(id@)) is None,
        },
{
    let ghost p = image_is(id@);
    let meant = |row: &StoryImage| -> (b: bool)
        ensures
            b == p(row.deep_view()),
    {
        text::same_text(row.id.as_str(), id)
    };
    rows::position(images, meant, Ghost(p))
}

/// The tables with one more image and its bytes.
pub open spec fn with_asset(store: StoreView, image: StoryImageView, media_type: Seq<char>, bytes: Seq<u8>) -> StoreView {
    StoreView {
        images: store.images.push(image),
        blobs: store.blobs.push(ImageBlobView { asset_id: image.id, media_type, bytes }),
        ..store
    }
}

/// Keeps an image and its bytes. Refused is one whose identifier is in use.
pub fn insert_asset(store: &mut Store, image: &StoryImage, media_type: &str, bytes: &Vec<u8>) -> (r: AppResult<()>)
    ensures
        if holds_image(old(store)@.images, image@.id) {
            r is Err && r->Err_0@ == ErrorView::Db("image identifier is already in use"@) && final(store)@
                == old(store)@
        } else {
            r is Ok && final(store)@ == with_asset(old(store)@, image@, media_type@, bytes@)
        },
{
    if image_position(&store.images, image.id.as_str()).is_some() {
        return Err(AppError::Db("image identifier is already in use".to_string()));
    }
    let row = image.copy();
    let blob = ImageBlob {
        asset_id: image.id.clone(),
        media_type: media_type.to_string(),
        bytes: model::copy_bytes(bytes),
    };
    let ghost images = store.images;
    let ghost blobs = store.blobs;
    let ghost value = row;
    let ghost kept = blob;
    store.images.push(row);
    store.blobs.push(blob);
    proof {
        rows::lemma_deep_push(images, store.images, value);
        rows::lemma_deep_push(blobs, store.blobs, kept);
    }
    Ok(())
}

/// Whether an image of an entry has an identifier.
pub open spec fn entry_shows(images: Seq<StoryImageView>, entry_id: Seq<char>, asset_id: Seq<char>) -> bool {
    exists|i: int| 0 <= i < images.len() && (#[trigger] images[i]).entry_id == entry_id && images[i].id == asset_id
}

/// The identifier of the image that a payload tells of. A whole number is taken as it is written, and
/// a truth value as the number that it counts as; other values name no image.
pub open spec fn told_asset(payload: JsonView) -> Option<Seq<char>> {
    match json::field(payload, "asset_id"@) {
        Some(JsonView::Str(s)) => Some(s),
        Some(JsonView::Bool(b)) => Some(
            text::signed_decimal(
                if b {
                    1
                } else {
                    0
                },
            ),
        ),
        Some(v) => match json::int_of(v) {
            Some(n) => Some(text::signed_decimal(n as int)),
            None => None,
        },
        None => None,
    }
}

/// The identifier of the image that a payload tells of.
fn asset_named(payload: &Json) -> (r: Option<String>)
    ensures
        r.deep_view() == told_asset(payload@),
{
    match payload.get("asset_id") {
        Some(Json::Str(s)) => Some(s.clone()),
        Some(Json::Bool(b)) => Some(
            text::int_text(
                if *b {
                    1
                } else {
                    0
                },
            ),
        ),
        Some(v) => match v.as_i64() {
            Some(n) => Some(text::int_text(n)),
            None => None,
        },
        None => None,
    }
}

/// Whether an entry of the ledger tells of an image of an entry.
pub open spec fn tells_of_image(images: Seq<StoryImageView>, entry_id: Seq<char>, entry: EntryView) -> bool {
    entry.kind == kind::IMAGE_GENERATED@ && (entry.target_entry_id == Some(entry_id) || match told_asset(entry.payload) {
        Some(asset_id) => entry_shows(images, entry_id, asset_id),
        None => false,
    })
}

/// The condition of telling of no image of an entry.
pub open spec fn tells_of_no_image(images: Seq<StoryImageView>, entry_id: Seq<char>) -> spec_fn(EntryView) -> bool {
    |entry: EntryView| !tells_of_image(images, entry_id, entry)
}

/// The tables without the images of an entry and what tells of them.
pub open spec fn detached(store: StoreView, entry_id: Seq<char>) -> StoreView {
    StoreView {
        entries: store.entries.filter(tells_of_no_image(store.images, entry_id)),
        images: store.images.filter(of_other_entry(entry_id)),
        ..store
    }
}

fn shows(images: &Vec<StoryImage>, entry_id: &str, asset_id: &str) -> (r: bool)
    ensures
        r == entry_shows(images.deep_view(), entry_id@, asset_id@),
{
    let ghost all = images.deep_view();
    let mut i: usize = 0;
    while i < images.len()
        invariant
            0 <= i <= images@.len(),
            all == images.deep_view(),
            forall|k: int| 0 <= k < i ==> !((#[trigger] all[k]).entry_id == entry_id@ && all[k].id == asset_id@),
        decreases images@.len() - i,
    {
        assert(all[i as int] == images@[i as int]@);
        if text::same_text(images[i].entry_id.as_str(), entry_id) && text::same_text(
            images[i].id.as_str(),
            asset_id,
        ) {
            return true;
        }
        i += 1;
    }
    false
}

fn is_told(images: &Vec<StoryImage>, entry_id: &str, entry: &LedgerEntry) -> (r: bool)
    ensures
        r == tells_of_image(images.deep_view(), entry_id@, entry@),
{
    if !text::same_text(entry.kind.as_str(), kind::IMAGE_GENERATED) {
        return false;
    }
    if let Some(target) = &entry.target_entry_id {
        if text::same_text(target.as_str(), entry_id) {
            return true;
        }
    }
    match asset_named(&entry.payload) {
        Some(asset_id) => shows(images, entry_id, asset_id.as_str()),
        None => false,
    }
}

/// Removes the images of an entry and what tells of them from the tables, and gives where the
/// images are kept.
pub fn detach_from_entry(store: &mut Store, entry_id: &str) -> (r: Vec<String>)
    ensures
        r.deep_view() == paths_of_entry(old(store)@.images, entry_id@),
        final(store)@ == detached(old(store)@, entry_id@),
{
    let paths = image_paths_for_entry(store, entry_id);
    let ghost p = tells_of_no_image(store@.images, entry_id@);
    let keep = |entry: &LedgerEntry| -> (b: bool)
        ensures
            b == p(entry@),
    {
        !is_told(&store.images, entry_id, entry)
    };
    let entries = rows::kept_rows(
        &store.entries,
        keep,
        Ghost(p),
    );
    delete_for_entry(store, entry_id);
    store.entries = entries;
    paths
}

/// Removes the images of an entry from the tables.
pub fn delete_for_entry(store: &mut Store, entry_id: &str)
    ensures
        final(store)@ == (StoreView {
            images: old(store)@.images.filter(of_other_entry(entry_id@)),
            ..old(store)@
        }),
{
    let ghost p = of_other_entry(entry_id@);
    let keep = |image: &StoryImage| -> (b: bool)
        ensures
            b == p(image@),
    {
        !text::same_text(image.entry_id.as_str(), entry_id)
    };
    let images = rows::kept_rows(
        &store.images,
        keep,
        Ghost(p),
    );
    store.images = images;
}

/// Removes an image from the tables, and gives where it is kept.
pub fn delete_asset_by_id(store: &mut Store, asset_id: &str) -> (r: Option<String>)
    ensures
        r.deep_view() == (match rows::first_where(old(store)@.images, image_is(asset_id@)) {
            Some(image) => Some(image.path),
            None => None,
        }),
        final(store)@ == (StoreView {
            images: old(store)@.images.filter(image_is_not(asset_id@)),
            ..old(store)@
        }),
{
    let path = match image_position(&store.images, asset_id) {
        Some(i) => Some(store.images[i].path.clone()),
        None => None,
    };
    let ghost p = image_is_not(asset_id@);
    let keep = |image: &StoryImage| -> (b: bool)
        ensures
            b == p(image@),
    {
        !text::same_text(image.id.as_str(), asset_id)
    };
    let images = rows::kept_rows(
        &store.images,
        keep,
        Ghost(p),
    );
    store.images = images;
    path
}

/// After the images of an entry were detached, no image of it and nothing that tells of one is
/// left, and every image of another entry is still there.
pub proof fn law_detached_leaves_the_others(store: StoreView, entry_id: Seq<char>, image: StoryImageView, entry: EntryView)
    ensures
        paths_of_entry(detached(store, entry_id).images, entry_id).len() == 0,
        detached(store, entry_id).images.contains(image) <==> store.images.contains(image) && image.entry_id != entry_id,
        detached(store, entry_id).entries.contains(entry) <==> store.entries.contains(entry) && !tells_of_image(
            store.images,
            entry_id,
            entry,
        ),
{
    rows::lemma_filter_member(store.images, of_other_entry(entry_id), image);
    rows::lemma_filter_member(store.entries, tells_of_no_image(store.images, entry_id), entry);
    let left = store.images.filter(of_other_entry(entry_id)).filter(of_entry(entry_id));
    if left.len() > 0 {
        rows::lemma_filter_member(store.images.filter(of_other_entry(entry_id)), of_entry(entry_id), left[0]);
        rows::lemma_filter_member(store.images, of_other_entry(entry_id), left[0]);
        assert(left.contains(left[0]));
    }
}

} // verus!
