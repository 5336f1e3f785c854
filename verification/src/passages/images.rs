//! Images of passages.

use vstd::prelude::*;

use super::characters;
use super::characters::{CardView, Cast};
use super::commands;
use super::commands::TextModel;
use super::model::{Book, BookView, PassageImage, PassageImageView, PassageView};
use super::owner;
use super::repository;
use crate::error::{AppError, AppResult, ErrorView};
use crate::images::generation;
use crate::settings;
use crate::settings::{Preferences, PreferencesView};
use crate::sorting;
use crate::store::Store;
use crate::{rows, text};

verus! {

/// The message where no description was written.
pub const EMPTY_DESCRIPTION: &'static str = "the prompt-writing model returned an empty description";

/// The message where the player wants no images.
pub const IMAGES_DISABLED: &'static str = "image generation is disabled in the Image Model panel";

/// The message where an identifier is taken.
pub const IMAGE_TAKEN: &'static str = "image identifier is already in use";

/// What the model is told that writes what an image shows.
pub const IMAGE_PROMPT_PREAMBLE: &'static str = "You write vivid, concrete visual descriptions for an image-generation model, based on a moment from an interactive story. Describe what should be depicted — subject, setting, composition, lighting — in a few sentences. Do not mention art style or medium; that is applied separately. Respond with the structured output only.";

/// The condition of showing a passage.
pub open spec fn shows(passage_id: Seq<char>) -> spec_fn(PassageImageView) -> bool {
    |image: PassageImageView| image.passage_id == passage_id
}

/// The condition of showing a passage of a branch.
pub open spec fn shows_branch(passages: Seq<PassageView>, branch_id: Seq<char>) -> spec_fn(PassageImageView) -> bool {
    |image: PassageImageView|
        exists|i: int|
            0 <= i < passages.len() && (#[trigger] passages[i]).id == image.passage_id && passages[i].branch_id
                == branch_id
}

/// The images of a passage, those that were made first before the others.
pub open spec fn images_of(book: BookView, passage_id: Seq<char>) -> Seq<PassageImageView> {
    sorting::ordered(book.images.filter(shows(passage_id)), sorting::key_fn::<PassageImage>())
}

/// The images of a passage, those that were made first before the others.
pub fn list_images_for_passage(book: &Book, passage_id: &str) -> (r: Vec<PassageImage>)
    ensures
        r.deep_view() == images_of(book@, passage_id@),
{
    let ghost p = shows(passage_id@);
    let keep = |image: &PassageImage| -> (b: bool)
        ensures
            b == p(image@),
    {
        text::same_text(image.passage_id.as_str(), passage_id)
    };
    let own = rows::kept_rows(&book.images, keep, Ghost(p));
    sorting::sort_rows(own)
}

fn is_of_branch(book: &Book, passage_id: &str, branch_id: &str) -> (r: bool)
    ensures
        r == (exists|i: int|
            0 <= i < book@.passages.len() && (#[trigger] book@.passages[i]).id == passage_id@
                && book@.passages[i].branch_id == branch_id@),
{
    let ghost all = book.passages.deep_view();
    let mut i: usize = 0;
    while i < book.passages.len()
        invariant
            0 <= i <= book.passages@.len(),
            all == book.passages.deep_view(),
            forall|k: int|
                0 <= k < i ==> !((#[trigger] all[k]).id == passage_id@ && all[k].branch_id == branch_id@),
        decreases book.passages@.len() - i,
    {
        assert(all[i as int] == book.passages@[i as int]@);
        if text::same_text(book.passages[i].id.as_str(), passage_id) && text::same_text(
            book.passages[i].branch_id.as_str(),
            branch_id,
        ) {
            return true;
        }
        i += 1;
    }
    false
}

/// The images of all passages of a branch, those that were made first before the others.
pub fn list_images_for_branch(book: &Book, branch_id: &str) -> (r: Vec<PassageImage>)
    ensures
        r.deep_view() == sorting::ordered(
            book@.images.filter(shows_branch(book@.passages, branch_id@)),
            sorting::key_fn::<PassageImage>(),
        ),
{
    let ghost p = shows_branch(book@.passages, branch_id@);
    let keep = |image: &PassageImage| -> (b: bool)
        ensures
            b == p(image@),
    {
        is_of_branch(book, image.passage_id.as_str(), branch_id)
    };
    let own = rows::kept_rows(&book.images, keep, Ghost(p));
    sorting::sort_rows(own)
}

/// Whether a text names someone, whatever the case.
pub open spec fn names(haystack: Seq<char>, name: Seq<char>) -> bool {
    text::occurs(text::lowercased(haystack), text::lowercased(name))
}

/// Whether a text names someone, whatever the case.
pub fn contains_name_ci(haystack: &str, name: &str) -> (r: bool)
    ensures
        r == names(haystack@, name@),
{
    let haystack = text::to_lowercase(haystack);
    let name = text::to_lowercase(name);
    text::contains(haystack.as_str(), name.as_str())
}

/// The condition of a character being named in a text.
pub open spec fn named_in(haystack: Seq<char>) -> spec_fn((Seq<char>, Seq<char>)) -> bool {
    |character: (Seq<char>, Seq<char>)| names(haystack, character.0)
}

/// The characters that are in the picture: those that the hint names, or, where it names none,
/// those that the passage names.
pub open spec fn in_picture(characters: Seq<(Seq<char>, Seq<char>)>, passage: Seq<char>, hint: Option<Seq<char>>) -> Seq<
    (Seq<char>, Seq<char>),
> {
    match hint {
        Some(hint) => if characters.filter(named_in(hint)).len() > 0 {
            characters.filter(named_in(hint))
        } else {
            characters.filter(named_in(passage))
        },
        None => characters.filter(named_in(passage)),
    }
}

fn characters_named(characters: &Vec<(String, String)>, haystack: &str) -> (r: Vec<(String, String)>)
    ensures
        r.deep_view() == characters.deep_view().filter(named_in(haystack@)),
{
    let ghost p = named_in(haystack@);
    let ghost f = |character: (Seq<char>, Seq<char>)| character;
    let keep = |character: &(String, String)| -> (b: bool)
        ensures
            b == p((character.0@, character.1@)),
    {
        contains_name_ci(haystack, character.0.as_str())
    };
    let read = |character: &(String, String)| -> (copy: (String, String))
        ensures
            copy.deep_view() == character.deep_view(),
    {
        (character.0.clone(), character.1.clone())
    };
    let found = rows::read_rows(characters, keep, read, Ghost(p), Ghost(f));
    proof {
        let kept = characters.deep_view().filter(p);
        assert(kept.map_values(f) =~= kept);
    }
    found
}

/// The characters that are in the picture: those that the hint names, or, where it names none,
/// those that the passage names.
pub fn matched_characters(characters: &Vec<(String, String)>, passage_content: &str, hint: Option<&str>) -> (r: Vec<
    (String, String),
>)
    ensures
        r.deep_view() == in_picture(characters.deep_view(), passage_content@, hint.deep_view()),
{
    if let Some(hint) = hint {
        let matched = characters_named(characters, hint);
        if matched.len() > 0 {
            return matched;
        }
    }
    characters_named(characters, passage_content)
}

/// What the model is asked that writes what an image shows.
pub open spec fn description_request(
    passage: Seq<char>,
    hint: Option<Seq<char>>,
    matched: Seq<(Seq<char>, Seq<char>)>,
) -> Seq<char> {
    "Scene:\n"@ + passage + (match hint {
        Some(hint) => "\n\nFocus the image on: "@ + hint,
        None => Seq::empty(),
    }) + (if matched.len() == 0 {
        Seq::empty()
    } else {
        "\n\nCharacters present — keep their appearance consistent with this:"@ + generation::looks(matched)
    })
}

/// What the model is asked that writes what an image shows.
pub fn description_input(passage_content: &str, hint: Option<&str>, matched: &Vec<(String, String)>) -> (r: String)
    ensures
        r@ == description_request(passage_content@, hint.deep_view(), matched.deep_view()),
{
    let mut input = text::concat2("Scene:\n", passage_content);
    let focus = match hint {
        Some(hint) => text::concat2("\n\nFocus the image on: ", hint),
        None => String::new(),
    };
    assert(focus@ =~= (match hint.deep_view() {
        Some(hint) => "\n\nFocus the image on: "@ + hint,
        None => Seq::empty(),
    }));
    input = text::concat2(input.as_str(), focus.as_str());
    if matched.len() == 0 {
        assert(input@ =~= description_request(passage_content@, hint.deep_view(), matched.deep_view()));
        return input;
    }
    let lines = generation::write_looks(matched);
    let block = text::concat2(
        "\n\nCharacters present — keep their appearance consistent with this:",
        lines.as_str(),
    );
    text::concat2(input.as_str(), block.as_str())
}

/// The hint of the player, if there is one.
pub fn clean_hint(prompt_hint: Option<&str>) -> (r: Option<String>)
    ensures
        r.deep_view() == text::non_blank(prompt_hint.deep_view()),
{
    text::clean_option(prompt_hint)
}

/// What an image shall show, by what the model wrote.
pub fn described(written: &str) -> (r: AppResult<String>)
    ensures
        if text::blank(written@) {
            r is Err && r->Err_0@ == ErrorView::Other(EMPTY_DESCRIPTION@)
        } else {
            r is Ok && r->Ok_0@ == text::trimmed(written@)
        },
{
    let description = text::trim(written);
    if description.as_str().is_empty() {
        return Err(AppError::Other(EMPTY_DESCRIPTION.to_string()));
    }
    Ok(description)
}

/// How an image of a passage is made: the model that writes what it shows, what that model is
/// asked, and the model that makes it, with the style and the looks that it keeps to.
#[derive(Debug, PartialEq)]
pub struct ScenePlan {
    pub text_model: TextModel,
    pub request: String,
    pub image_model: String,
    pub api_key: String,
    pub style: String,
    pub matched: Vec<(String, String)>,
}

/// What a `ScenePlan` stands for; the model that writes by its name and the key for it.
#[verifier::ext_equal]
pub struct ScenePlanView {
    pub text_model: (Seq<char>, Seq<char>),
    pub request: Seq<char>,
    pub image_model: Seq<char>,
    pub api_key: Seq<char>,
    pub style: Seq<char>,
    pub matched: Seq<(Seq<char>, Seq<char>)>,
}

impl View for ScenePlan {
    type V = ScenePlanView;

    open spec fn view(&self) -> ScenePlanView {
        ScenePlanView {
            text_model: (self.text_model.model@, self.text_model.api_key@),
            request: self.request@,
            image_model: self.image_model@,
            api_key: self.api_key@,
            style: self.style@,
            matched: self.matched.deep_view(),
        }
    }
}

/// The passage that an image shows and the story that it belongs to, if both are there.
pub open spec fn scene_of(book: BookView, passage_id: Seq<char>) -> Option<(PassageView, Seq<char>)> {
    match rows::first_where(book.passages, repository::passage_is(passage_id)) {
        None => None,
        Some(passage) => match repository::story_of_branch(book, passage.branch_id) {
            Err(_) => None,
            Ok(story_id) => Some((passage, story_id)),
        },
    }
}

/// How an image of a passage is made, or why none can be.
pub open spec fn scene_planned(
    book: BookView,
    cards: Seq<CardView>,
    preferences: PreferencesView,
    passage_id: Seq<char>,
    prompt_hint: Option<Seq<char>>,
) -> Result<ScenePlanView, ErrorView> {
    let chosen = settings::image_model(preferences);
    if !chosen.enabled {
        Err(ErrorView::Invalid(IMAGES_DISABLED@))
    } else {
        match settings::api_key_of(preferences, settings::DEFAULT_PROVIDER@) {
            None => Err(
                ErrorView::Invalid("no API key set for provider '"@ + settings::DEFAULT_PROVIDER@ + "'"@),
            ),
            Some(api_key) => match scene_of(book, passage_id) {
                None => Err(ErrorView::NotFound("passage "@ + passage_id + " not found"@)),
                Some(scene) => {
                    let cast = cards.filter(characters::has_look(scene.1)).map_values(characters::look());
                    let hint = text::non_blank(prompt_hint);
                    let matched = in_picture(cast, scene.0.content, hint);
                    match commands::usable_model(preferences) {
                        Err(e) => Err(e),
                        Ok(text_model) => Ok(
                            ScenePlanView {
                                text_model,
                                request: description_request(scene.0.content, hint, matched),
                                image_model: chosen.model,
                                api_key,
                                style: chosen.style,
                                matched,
                            },
                        ),
                    }
                },
            },
        }
    }
}

/// How an image of a passage is made. The hint of the player, if there is one, says what it shows.
pub fn plan_scene_image(book: &Book, cast: &Cast, preferences: &Preferences, passage_id: &str, prompt_hint: Option<&str>) -> (r: AppResult<
    ScenePlan,
>)
    ensures
        match scene_planned(book@, cast@, preferences@, passage_id@, prompt_hint.deep_view()) {
            Ok(plan) => r is Ok && r->Ok_0@ == plan,
            Err(e) => r is Err && r->Err_0@ == e,
        },
{
    let chosen = preferences.get_image_model_settings();
    if !chosen.enabled {
        return Err(AppError::Invalid(IMAGES_DISABLED.to_string()));
    }
    let api_key = match preferences.read_api_key(settings::DEFAULT_PROVIDER) {
        Ok(api_key) => api_key,
        Err(e) => {
            return Err(e);
        },
    };
    let passage = match repository::get_passage(book, passage_id) {
        Ok(passage) => passage,
        Err(e) => {
            return Err(e);
        },
    };
    let story_id = match repository::get_story_id_for_branch(book, passage.branch_id.as_str()) {
        Ok(story_id) => story_id,
        Err(_) => {
            return Err(AppError::NotFound(text::concat3("passage ", passage_id, " not found")));
        },
    };
    let known = characters::characters_of(cast, story_id.as_str());
    let hint = clean_hint(prompt_hint);
    let matched = matched_characters(&known, passage.content.as_str(), text::borrowed_option(&hint));
    let text_model = match commands::resolve_text_model(preferences) {
        Ok(text_model) => text_model,
        Err(e) => {
            return Err(e);
        },
    };
    let request = description_input(passage.content.as_str(), text::borrowed_option(&hint), &matched);
    Ok(ScenePlan { text_model, request, image_model: chosen.model, api_key, style: chosen.style, matched })
}

/// What the model is asked that makes the image, by what the model that writes has written.
pub fn scene_prompt(plan: &ScenePlan, written: &str) -> (r: AppResult<String>)
    ensures
        if text::blank(written@) {
            r is Err && r->Err_0@ == ErrorView::Other(EMPTY_DESCRIPTION@)
        } else {
            r is Ok && r->Ok_0@ == generation::image_prompt(plan@.style, text::trimmed(written@), plan@.matched)
        },
{
    match described(written) {
        Ok(description) => Ok(
            generation::compose_image_prompt(plan.style.as_str(), description.as_str(), &plan.matched),
        ),
        Err(e) => Err(e),
    }
}

/// The condition of having an identifier.
pub open spec fn image_is(id: Seq<char>) -> spec_fn(PassageImageView) -> bool {
    |image: PassageImageView| image.id == id
}

/// The book with an image that was made of a passage.
pub open spec fn image_kept(
    book: BookView,
    id: Seq<char>,
    now: Seq<char>,
    passage_id: Seq<char>,
    path: Seq<char>,
    prompt: Seq<char>,
) -> Result<(BookView, PassageImageView), ErrorView> {
    let image = PassageImageView {
        id,
        passage_id,
        path,
        prompt,
        seed: None,
        provider: settings::DEFAULT_PROVIDER@,
        created_at: now,
    };
    if rows::any_where(book.images, image_is(id)) {
        Err(ErrorView::Db(IMAGE_TAKEN@))
    } else {
        Ok((BookView { images: book.images.push(image), ..book }, image))
    }
}

fn has_image(images: &Vec<PassageImage>, id: &str) -> (r: bool)
    ensures
        r == rows::any_where(images.deep_view(), image_is(id@)),
{
    let ghost all = images.deep_view();
    let ghost p = image_is(id@);
    let mut i: usize = 0;
    while i < images.len()
        invariant
            0 <= i <= images@.len(),
            all == images.deep_view(),
            p == image_is(id@),
            forall|k: int| 0 <= k < i ==> !p(#[trigger] all[k]),
        decreases images@.len() - i,
    {
        assert(all[i as int] == images@[i as int]@);
        if text::same_text(images[i].id.as_str(), id) {
            assert(p(all[i as int]));
            return true;
        }
        i += 1;
    }
    false
}

/// Keeps an image that was made of a passage, by where it is stored.
pub fn keep_image_at(
    store: &mut Store,
    book: &mut Book,
    id: &str,
    now: &str,
    passage_id: &str,
    path: &str,
    prompt: &str,
) -> (r: AppResult<PassageImage>)
    ensures
        match image_kept(old(book)@, id@, now@, passage_id@, path@, prompt@) {
            Ok(done) => {
                &&& r is Ok && r->Ok_0@ == done.1 && final(book)@ == done.0
                &&& final(store)@ == owner::refreshed_by_passage(old(store)@, old(book)@, passage_id@, now@)
            },
            Err(e) => r is Err && r->Err_0@ == e && final(book)@ == old(book)@ && final(store)@ == old(store)@,
        },
{
    if has_image(&book.images, id) {
        return Err(AppError::Db(IMAGE_TAKEN.to_string()));
    }
    let image = PassageImage {
        id: id.to_string(),
        passage_id: passage_id.to_string(),
        path: path.to_string(),
        prompt: prompt.to_string(),
        seed: None,
        provider: settings::DEFAULT_PROVIDER.to_string(),
        created_at: now.to_string(),
    };
    let copy = image.copy();
    let ghost before = book.images;
    let ghost added = copy;
    book.images.push(copy);
    proof {
        rows::lemma_deep_push(before, book.images, added);
    }
    owner::refresh_by_passage(store, book, passage_id, now);
    Ok(image)
}

/// A hint that names nobody shows whom the passage names, as if there were no hint.
pub proof fn law_hint_that_names_nobody_falls_back(characters: Seq<(Seq<char>, Seq<char>)>, passage: Seq<char>, hint: Seq<char>)
    requires
        forall|i: int| 0 <= i < characters.len() ==> !names(hint, (#[trigger] characters[i]).0),
    ensures
        in_picture(characters, passage, Some(hint)) == in_picture(characters, passage, None),
{
    let found = characters.filter(named_in(hint));
    if found.len() > 0 {
        rows::lemma_filter_member(characters, named_in(hint), found[0]);
        assert(found.contains(found[0]));
        let i = choose|i: int| 0 <= i < characters.len() && characters[i] == found[0];
        assert(!names(hint, characters[i].0));
    }
}

/// An image that was kept is listed with its passage.
pub proof fn law_kept_image_is_listed(
    book: BookView,
    id: Seq<char>,
    now: Seq<char>,
    passage_id: Seq<char>,
    path: Seq<char>,
    prompt: Seq<char>,
)
    ensures
        image_kept(book, id, now, passage_id, path, prompt) matches Ok(done) ==> images_of(
            done.0,
            passage_id,
        ).to_multiset() == images_of(book, passage_id).to_multiset().insert(done.1),
{
    broadcast use vstd::seq_lib::group_to_multiset_ensures;

    if let Ok(done) = image_kept(book, id, now, passage_id, path, prompt) {
        let p = shows(passage_id);
        let key = sorting::key_fn::<PassageImage>();
        reveal(Seq::filter);
        assert(done.0.images.drop_last() =~= book.images);
        assert(done.0.images.filter(p) == book.images.filter(p).push(done.1));
        sorting::law_ordered(book.images.filter(p), key);
        sorting::law_ordered(done.0.images.filter(p), key);
    }
}

} // verus!
