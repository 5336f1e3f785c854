//! Images of the scenes of a story.

use vstd::prelude::*;

use super::model::{StoryImage, StoryImageView};
use super::openrouter::{GeneratedImage, GeneratedImageView};
use super::repository;
use crate::entities::attributes;
use crate::error::{AppError, AppResult, ErrorView};
use crate::json;
use crate::json::{Json, JsonView};
use crate::ledger::kind;
use crate::ledger::model::HIDDEN;
use crate::ledger::repository as ledger;
use crate::ledger::repository::{Draft, DraftView};
use crate::narrator::commit;
use crate::settings;
use crate::settings::Preferences;
use crate::stamp;
use crate::store::{EntityRow, EntityRowView, Store, StoreView};
use crate::{rows, text};

verus! {

/// How many seconds an image may take.
pub const IMAGE_TIMEOUT_SECONDS: u64 = 120;

/// The message where images are turned off.
pub const IMAGES_DISABLED: &'static str = "image generation is disabled in the Image Model panel";

/// The message where an image took too long.
pub const TIMED_OUT: &'static str = "image generation timed out";

/// What stands before the looks of the characters in a prompt.
pub const APPEARANCE_HEADER: &'static str = "\n\nCharacter appearance reference — keep consistent with this, do not invent a different look:";

/// What an image is made for.
#[derive(Debug, PartialEq)]
pub struct ImageTarget {
    pub entry_id: String,
    /// What the player did to see the image.
    pub source_action_id: Option<String>,
    pub turn_id: String,
}

/// What an `ImageTarget` stands for.
#[verifier::ext_equal]
pub struct ImageTargetView {
    pub entry_id: Seq<char>,
    pub source_action_id: Option<Seq<char>>,
    pub turn_id: Seq<char>,
}

impl View for ImageTarget {
    type V = ImageTargetView;

    open spec fn view(&self) -> ImageTargetView {
        ImageTargetView {
            entry_id: self.entry_id@,
            source_action_id: self.source_action_id.deep_view(),
            turn_id: self.turn_id@,
        }
    }
}

/// The looks of characters, a line for each.
pub open spec fn looks(matched: Seq<(Seq<char>, Seq<char>)>) -> Seq<char>
    decreases matched.len(),
{
    if matched.len() == 0 {
        Seq::empty()
    } else {
        looks(matched.drop_last()) + ("\n- "@ + matched.last().0 + ": "@ + matched.last().1)
    }
}

/// The prompt for an image.
pub open spec fn image_prompt(style: Seq<char>, description: Seq<char>, matched: Seq<(Seq<char>, Seq<char>)>) -> Seq<char> {
    style + " "@ + description + (if matched.len() == 0 {
        Seq::empty()
    } else {
        APPEARANCE_HEADER@ + looks(matched)
    })
}

pub(crate) fn write_looks(matched: &Vec<(String, String)>) -> (r: String)
    ensures
        r@ == looks(matched.deep_view()),
{
    let ghost all = matched.deep_view();
    let mut out = String::new();
    let mut i: usize = 0;
    assert(out@ =~= looks(all.take(0)));
    while i < matched.len()
        invariant
            0 <= i <= matched@.len(),
            all == matched.deep_view(),
            out@ == looks(all.take(i as int)),
        decreases matched@.len() - i,
    {
        let line = text::concat4("\n- ", matched[i].0.as_str(), ": ", matched[i].1.as_str());
        proof {
            assert(all[i as int] == (matched@[i as int].0@, matched@[i as int].1@));
            assert(all.take(i + 1).drop_last() =~= all.take(i as int));
            assert(all.take(i + 1).last() == all[i as int]);
        }
        out = text::concat2(out.as_str(), line.as_str());
        i += 1;
    }
    proof {
        rows::lemma_take_all(all);
    }
    out
}

/// The prompt for an image: the style and the description, and how the characters look, so that
/// they look the same wherever they are seen.
pub fn compose_image_prompt(style: &str, description: &str, matched: &Vec<(String, String)>) -> (r: String)
    ensures
        r@ == image_prompt(style@, description@, matched.deep_view()),
{
    let prompt = text::concat3(style, " ", description);
    if matched.len() == 0 {
        assert(prompt@ =~= image_prompt(style@, description@, matched.deep_view()));
        prompt
    } else {
        let lines = write_looks(matched);
        let block = text::concat2(APPEARANCE_HEADER, lines.as_str());
        text::concat2(prompt.as_str(), block.as_str())
    }
}

/// The condition of being a character of a story that is among those asked for, is present, and
/// whose look is known.
pub open spec fn pictured(store: StoreView, story_id: Seq<char>, ids: Seq<Seq<char>>) -> spec_fn(EntityRowView) -> bool {
    |entity: EntityRowView|
        entity.story_id == story_id && entity.kind == "character"@ && ids.contains(entity.id) && match rows::first_where(
            store.states,
            attributes::present_as(story_id, entity.id),
        ) {
            Some(state) => state.appearance_anchor is Some,
            None => false,
        }
}

/// The name and the look of a character.
pub open spec fn portrait(store: StoreView, story_id: Seq<char>) -> spec_fn(EntityRowView) -> (Seq<char>, Seq<char>) {
    |entity: EntityRowView|
        {
            let state = rows::first_where(store.states, attributes::present_as(story_id, entity.id))->0;
            (state.name, state.appearance_anchor->0)
        }
}

/// The characters that an image shows, each by name and look.
pub open spec fn cast(store: StoreView, story_id: Seq<char>, ids: Seq<Seq<char>>) -> Seq<(Seq<char>, Seq<char>)> {
    store.entities.filter(pictured(store, story_id, ids)).map_values(portrait(store, story_id))
}

fn is_pictured(store: &Store, story_id: &str, ids: &Vec<String>, entity: &EntityRow) -> (r: bool)
    ensures
        r == pictured(store@, story_id@, ids.deep_view())(entity@),
{
    if !text::same_text(entity.story_id.as_str(), story_id) || !text::same_text(entity.kind.as_str(), "character")
        || !text::list_contains(ids, entity.id.as_str()) {
        return false;
    }
    match attributes::present_position(&store.states, story_id, entity.id.as_str()) {
        Some(i) => store.states[i].appearance_anchor.is_some(),
        None => false,
    }
}

fn read_portrait(store: &Store, story_id: &str, entity: &EntityRow) -> (r: (String, String))
    requires
        exists|ids: Seq<Seq<char>>| #[trigger] pictured(store@, story_id@, ids)(entity@),
    ensures
        r.deep_view() == portrait(store@, story_id@)(entity@),
{
    match attributes::present_position(&store.states, story_id, entity.id.as_str()) {
        Some(i) => match &store.states[i].appearance_anchor {
            Some(anchor) => (store.states[i].name.clone(), anchor.clone()),
            None => (String::new(), String::new()),
        },
        None => (String::new(), String::new()),
    }
}

/// The characters that an image shows, each by name and look.
pub fn characters_by_ids(store: &Store, story_id: &str, ids: &Vec<String>) -> (r: Vec<(String, String)>)
    ensures
        r.deep_view() == cast(store@, story_id@, ids.deep_view()),
{
    let ghost p = pictured(store@, story_id@, ids.deep_view());
    let ghost f = portrait(store@, story_id@);
    let keep = |entity: &EntityRow| -> (b: bool)
        ensures
            b == p(entity@),
    {
        is_pictured(store, story_id, ids, entity)
    };
    let read = |entity: &EntityRow| -> (pair: (String, String))
        requires
            p(entity@),
        ensures
            pair.deep_view() == f(entity@),
    {
        read_portrait(store, story_id, entity)
    };
    rows::read_rows(&store.entities, keep, read, Ghost(p), Ghost(f))
}

/// What is asked of the service for an image.
#[derive(Debug, PartialEq)]
pub struct ImageCall {
    pub api_key: String,
    pub model: String,
    pub prompt: String,
}

/// Why no image can be asked for, or what is asked for one: the key, the model and the prompt.
pub open spec fn image_call_of(
    store: StoreView,
    preferences: settings::PreferencesView,
    entry_id: Seq<char>,
    description: Seq<char>,
    ids: Seq<Seq<char>>,
) -> Result<(Seq<char>, Seq<char>, Seq<char>), ErrorView> {
    let chosen = settings::image_model(preferences);
    if !chosen.enabled {
        Err(ErrorView::Invalid(IMAGES_DISABLED@))
    } else {
        match settings::api_key_of(preferences, settings::DEFAULT_PROVIDER@) {
            None => Err(
                ErrorView::Invalid("no API key set for provider '"@ + settings::DEFAULT_PROVIDER@ + "'"@),
            ),
            Some(api_key) => match ledger::entry_with_id(store.entries, entry_id) {
                None => Err(ErrorView::NotFound("ledger entry "@ + entry_id + " not found"@)),
                Some(entry) => Ok(
                    (
                        api_key,
                        chosen.model,
                        image_prompt(chosen.style, description, cast(store, entry.story_id, ids)),
                    ),
                ),
            },
        }
    }
}

/// What is asked of the service for an image.
pub fn image_call(
    store: &Store,
    preferences: &Preferences,
    target: &ImageTarget,
    description: &str,
    character_ids: &Vec<String>,
) -> (r: AppResult<ImageCall>)
    ensures
        match image_call_of(
            store@,
            preferences@,
            target@.entry_id,
            description@,
            character_ids.deep_view(),
        ) {
            Ok(call) => {
                &&& r is Ok
                &&& r->Ok_0.api_key@ == call.0
                &&& r->Ok_0.model@ == call.1
                &&& r->Ok_0.prompt@ == call.2
            },
            Err(e) => r is Err && r->Err_0@ == e,
        },
{
    let chosen = preferences.get_image_model_settings();
    if !chosen.enabled {
        return Err(AppError::Invalid(IMAGES_DISABLED.to_string()));
    }
    let api_key = match preferences.read_api_key(settings::DEFAULT_PROVIDER) {
        Ok(api_key) => api_key,
        Err(e) => {
            return Err(e);
        },
    };
    let entry = match ledger::get_entry(store, target.entry_id.as_str()) {
        Ok(entry) => entry,
        Err(e) => {
            return Err(e);
        },
    };
    let matched = characters_by_ids(store, entry.story_id.as_str(), character_ids);
    let prompt = compose_image_prompt(chosen.style.as_str(), description, &matched);
    Ok(ImageCall { api_key, model: chosen.model, prompt })
}

/// What tells of an image in the ledger.
pub open spec fn image_draft(story_id: Seq<char>, target: ImageTargetView, description: Seq<char>, image: StoryImageView) -> DraftView {
    DraftView {
        story_id,
        kind: kind::IMAGE_GENERATED@,
        visibility: HIDDEN@,
        content: Some("A scene image was generated depicting: "@ + description),
        payload: JsonView::Object(
            seq![("asset_id"@, JsonView::Str(image.id)), ("prompt"@, JsonView::Str(image.prompt))],
        ),
        target_entry_id: Some(
            match target.source_action_id {
                Some(id) => id,
                None => target.entry_id,
            },
        ),
        turn_id: Some(target.turn_id),
    }
}

/// What keeping an image comes to: it is there together with what tells of it, or the tables are
/// as they were.
pub open spec fn image_kept(
    before: StoreView,
    after: StoreView,
    target: ImageTargetView,
    description: Seq<char>,
    image: StoryImageView,
    generated: GeneratedImageView,
    failure: Option<ErrorView>,
) -> bool {
    if repository::holds_image(before.images, image.id) {
        failure == Some(ErrorView::Db("image identifier is already in use"@)) && after == before
    } else {
        let with_image = repository::with_asset(before, image, generated.media_type, generated.bytes);
        match ledger::entry_with_id(before.entries, target.entry_id) {
            None => failure == Some(ErrorView::NotFound("ledger entry "@ + target.entry_id + " not found"@))
                && after == before,
            Some(base) => {
                let draft = image_draft(base.story_id, target, description, image);
                if failure is Some {
                    after == before && commit::append_result(with_image, with_image, draft, failure)
                } else {
                    commit::append_result(with_image, after, draft, failure)
                }
            },
        }
    }
}

/// Why an image cannot be kept together with what tells of it under an identifier.
pub open spec fn image_refusal(
    store: StoreView,
    target: ImageTargetView,
    description: Seq<char>,
    image: StoryImageView,
    event_id: Seq<char>,
) -> Option<ErrorView> {
    if repository::holds_image(store.images, image.id) {
        Some(ErrorView::Db("image identifier is already in use"@))
    } else {
        match ledger::entry_with_id(store.entries, target.entry_id) {
            None => Some(ErrorView::NotFound("ledger entry "@ + target.entry_id + " not found"@)),
            Some(base) => ledger::append_refusal(
                store,
                event_id,
                image_draft(base.story_id, target, description, image),
            ),
        }
    }
}

/// The tables with an image and what tells of it.
pub open spec fn with_image(
    store: StoreView,
    target: ImageTargetView,
    description: Seq<char>,
    image: StoryImageView,
    generated: GeneratedImageView,
    event_id: Seq<char>,
    now: Seq<char>,
) -> StoreView {
    let base = ledger::entry_with_id(store.entries, target.entry_id)->0;
    let stored = repository::with_asset(store, image, generated.media_type, generated.bytes);
    ledger::appended(
        stored,
        ledger::drafted_entry(
            stored,
            event_id,
            now,
            image_draft(base.story_id, target, description, image),
        ),
    )
}

/// Keeps an image together with what tells of it under an identifier and at a time, or leaves the
/// tables as they were.
pub fn persist_image_record_at(
    store: &mut Store,
    target: &ImageTarget,
    description: &str,
    image: &StoryImage,
    generated: &GeneratedImage,
    event_id: &str,
    now: &str,
) -> (r: AppResult<()>)
    ensures
        match image_refusal(old(store)@, target@, description@, image@, event_id@) {
            Some(e) => r is Err && r->Err_0@ == e && final(store)@ == old(store)@,
            None => r is Ok && final(store)@ == with_image(
                old(store)@,
                target@,
                description@,
                image@,
                generated@,
                event_id@,
                now@,
            ),
        },
{
    let backup = store.copy();
    match repository::insert_asset(store, image, generated.media_type.as_str(), &generated.bytes) {
        Ok(_) => {},
        Err(e) => {
            return Err(e);
        },
    }
    let base = match ledger::get_entry(store, target.entry_id.as_str()) {
        Ok(base) => base,
        Err(e) => {
            *store = backup;
            return Err(e);
        },
    };
    let payload = Json::Object(
        vec![
            json::pair("asset_id", json::of_text(image.id.as_str())),
            json::pair("prompt", json::of_text(image.prompt.as_str())),
        ],
    );
    let content = text::concat2("A scene image was generated depicting: ", description);
    let about = match &target.source_action_id {
        Some(id) => id.as_str(),
        None => target.entry_id.as_str(),
    };
    let draft = Draft {
        story_id: base.story_id.as_str(),
        kind: kind::IMAGE_GENERATED,
        visibility: HIDDEN,
        content: Some(content.as_str()),
        payload: &payload,
        target_entry_id: Some(about),
        turn_id: Some(target.turn_id.as_str()),
    };
    proof {
        let expected = image_draft(base@.story_id, target@, description@, image@);
        assert(payload@->Object_0 =~= expected.payload->Object_0);
        assert(draft@ == expected);
    }
    match ledger::append_entry_at(store, event_id, now, &draft) {
        Ok(_) => Ok(()),
        Err(e) => {
            *store = backup;
            Err(e)
        },
    }
}

/// Keeps an image together with what tells of it, or leaves the tables as they were.
pub fn persist_image_record(
    store: &mut Store,
    target: &ImageTarget,
    description: &str,
    image: &StoryImage,
    generated: &GeneratedImage,
) -> (r: AppResult<()>)
    ensures
        image_kept(
            old(store)@,
            final(store)@,
            target@,
            description@,
            image@,
            generated@,
            commit::failure_of(r),
        ),
{
    let event_id = stamp::fresh_id();
    let now = stamp::now();
    persist_image_record_at(store, target, description, image, generated, event_id.as_str(), now.as_str())
}

/// Whether an image was kept as it should under identifiers and at times: it is there with what
/// tells of it, or all is as it was where it could not be.
pub open spec fn image_stored(
    before: StoreView,
    after: StoreView,
    target: ImageTargetView,
    description: Seq<char>,
    prompt: Seq<char>,
    generated: GeneratedImageView,
    image: StoryImageView,
    event_id: Seq<char>,
    now: Seq<char>,
    r: AppResult<StoryImage>,
) -> bool {
    &&& image.entry_id == target.entry_id
    &&& image.path == ""@
    &&& image.prompt == prompt
    &&& match image_refusal(before, target, description, image, event_id) {
        Some(e) => r is Err && r->Err_0@ == e && after == before,
        None => r is Ok && r->Ok_0@ == image && after == with_image(
            before,
            target,
            description,
            image,
            generated,
            event_id,
            now,
        ),
    }
}

/// Keeps an image under a new identifier at the present time, together with what tells of it,
/// or leaves the tables as they were. New identifiers have 36 characters, so they can be taken
/// only where the tables hold one of that length.
pub fn persist_and_store_image(
    store: &mut Store,
    target: &ImageTarget,
    description: &str,
    prompt: &str,
    generated: &GeneratedImage,
) -> (r: AppResult<StoryImage>)
    ensures
        exists|image: StoryImageView, event_id: Seq<char>, now: Seq<char>|
            stamp::fresh_like(image.id) && stamp::fresh_like(event_id) && #[trigger] image_stored(
                old(store)@,
                final(store)@,
                target@,
                description@,
                prompt@,
                generated@,
                image,
                event_id,
                now,
                r,
            ),
        r matches Ok(image) ==> image_kept(
            old(store)@,
            final(store)@,
            target@,
            description@,
            image@,
            generated@,
            None,
        ),
{
    let image = StoryImage {
        id: stamp::fresh_id(),
        entry_id: target.entry_id.clone(),
        path: "".to_string(),
        prompt: prompt.to_string(),
        created_at: stamp::now(),
    };
    let event_id = stamp::fresh_id();
    let now = stamp::now();
    let ghost kept = image@;
    let outcome = persist_image_record_at(
        store,
        target,
        description,
        &image,
        generated,
        event_id.as_str(),
        now.as_str(),
    );
    let r: AppResult<StoryImage> = match outcome {
        Ok(_) => Ok(image),
        Err(e) => Err(e),
    };
    assert(image_stored(
        old(store)@,
        store@,
        target@,
        description@,
        prompt@,
        generated@,
        kept,
        event_id@,
        now@,
        r,
    ));
    r
}

/// An image that was kept is listed for the story of its scene.
pub proof fn law_kept_image_is_listed(
    before: StoreView,
    after: StoreView,
    target: ImageTargetView,
    description: Seq<char>,
    image: StoryImageView,
    generated: GeneratedImageView,
)
    requires
        image.entry_id == target.entry_id,
        image_kept(before, after, target, description, image, generated, None),
    ensures
        ledger::entry_with_id(before.entries, target.entry_id) is Some,
        repository::story_images(
            after,
            ledger::entry_with_id(before.entries, target.entry_id)->0.story_id,
        ).contains(image),
{
    broadcast use vstd::seq_lib::group_to_multiset_ensures;

    let base = ledger::entry_with_id(before.entries, target.entry_id)->0;
    let p = repository::of_story(after.entries, base.story_id);
    let i = rows::lemma_first_where(before.entries, ledger::entry_is(target.entry_id));
    assert(after.entries[i] == base);
    assert(after.images.last() == image);
    assert(after.images.contains(image));
    rows::lemma_filter_member(after.images, p, image);
    let own = after.images.filter(p);
    let key = crate::sorting::key_fn::<StoryImage>();
    crate::sorting::law_ordered(own, key);
    assert(own.to_multiset().contains(image));
    assert(crate::sorting::ordered(own, key).to_multiset().contains(image));
}

} // verus!
