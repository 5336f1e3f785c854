//! What the player does in a branch.

use vstd::prelude::*;

use super::model::{Book, BookView, Passage, PassageVariant, PassageView};
use super::owner;
use super::repository;
use super::variants;
use crate::error::{AppError, AppResult, ErrorView};
use crate::mechanics::commands as mechanics;
use crate::narration::author_note;
use crate::narration::rewind::CONTENT_EMPTY;
use crate::narrator::injection;
use crate::settings;
use crate::settings::{Preferences, PreferencesView};
use crate::stamp;
use crate::store::{Store, StoreView};
use crate::stories;
use crate::{rows, text};

verus! {

/// What the narrator is told of its task.
pub const NARRATOR_PREAMBLE: &'static str = "You are the narrator of an interactive story. Continue the scene in vivid, literary prose that follows naturally from what has already happened and from the player's latest action. Match the narrative voice already established (default to second person if this is the opening). Never speak as the player, never break the fourth wall, and never add meta-commentary, author's notes, or content outside the story itself.";

/// What the narrator is asked where the player does nothing new.
pub const CONTINUE_PROMPT: &'static str = "Continue the scene naturally from where it left off, in the established voice and pacing.";

/// The message where no model is chosen.
pub const NO_MODEL: &'static str = "no text model configured yet — set one in the Text Model panel";

/// The message where the narrator says nothing.
pub const NO_VISIBLE_TEXT: &'static str = "the model returned no visible text";

/// The message where the player steers by nothing.
pub const NOTE_EMPTY: &'static str = "note must not be empty";

/// A turn that was begun: the passage of the player, and the stream of what is told.
#[derive(Debug, PartialEq)]
pub struct SubmitTurnResult {
    pub player_passage: Passage,
    pub stream_id: String,
}

/// Who provides a text model.
#[derive(Debug, Clone, Copy, PartialEq, Eq, Structural)]
pub enum TextProviderKind {
    OpenRouter,
}

/// A text model, by who provides it, its name and the key for it.
#[derive(Debug, PartialEq)]
pub struct TextModel {
    pub provider: TextProviderKind,
    pub model: String,
    pub api_key: String,
}

/// The model and the key of a text model that can be used, or why none can.
pub open spec fn usable_model(preferences: PreferencesView) -> Result<(Seq<char>, Seq<char>), ErrorView> {
    let chosen = settings::text_model(preferences);
    if text::blank(chosen.model) {
        Err(ErrorView::Invalid(NO_MODEL@))
    } else {
        match settings::api_key_of(preferences, chosen.provider) {
            None => Err(ErrorView::Invalid("no API key set for provider '"@ + chosen.provider + "'"@)),
            Some(api_key) => if chosen.provider == settings::DEFAULT_PROVIDER@ {
                Ok((chosen.model, api_key))
            } else {
                Err(ErrorView::Invalid("unsupported provider: "@ + chosen.provider))
            },
        }
    }
}

/// The text model that is chosen, if it can be used.
pub fn resolve_text_model(preferences: &Preferences) -> (r: AppResult<TextModel>)
    ensures
        match usable_model(preferences@) {
            Ok(found) => r is Ok && r->Ok_0.model@ == found.0 && r->Ok_0.api_key@ == found.1,
            Err(e) => r is Err && r->Err_0@ == e,
        },
{
    let chosen = preferences.read_text_model_settings();
    if text::is_blank(chosen.model.as_str()) {
        return Err(AppError::Invalid(NO_MODEL.to_string()));
    }
    let api_key = match preferences.read_api_key(chosen.provider.as_str()) {
        Ok(api_key) => api_key,
        Err(e) => {
            return Err(e);
        },
    };
    if !text::same_text(chosen.provider.as_str(), settings::DEFAULT_PROVIDER) {
        return Err(AppError::Invalid(text::concat2("unsupported provider: ", chosen.provider.as_str())));
    }
    Ok(TextModel { provider: TextProviderKind::OpenRouter, model: chosen.model, api_key })
}

/// What the player does, as the narrator is asked.
pub open spec fn prompt_of(input_mode: Seq<char>, content: Seq<char>) -> Seq<char> {
    if input_mode == "say"@ {
        "[The player says] \""@ + content + "\""@
    } else {
        "[The player does] "@ + content
    }
}

/// What the player does, as the narrator is asked.
pub fn format_prompt(input_mode: &str, content: &str) -> (r: String)
    ensures
        r@ == prompt_of(input_mode@, content@),
{
    if text::same_text(input_mode, "say") {
        text::concat3("[The player says] \"", content, "\"")
    } else {
        text::concat2("[The player does] ", content)
    }
}

/// What the player asks of the story, as the narrator is asked.
pub open spec fn guide_words(note: Seq<char>) -> Seq<char> {
    "[Director's note — out of character, steer the story but do not narrate it directly: "@ + text::trimmed(note)
        + "] Continue the scene, letting that note shape what happens next."@
}

/// What the player asks of the story, as the narrator is asked.
pub fn guide_prompt(note: &str) -> (r: AppResult<String>)
    ensures
        if text::blank(note@) {
            r is Err && r->Err_0@ == ErrorView::Invalid(NOTE_EMPTY@)
        } else {
            r is Ok && r->Ok_0@ == guide_words(note@)
        },
{
    let trimmed = text::trim(note);
    if trimmed.as_str().is_empty() {
        return Err(AppError::Invalid(NOTE_EMPTY.to_string()));
    }
    Ok(
        text::concat3(
            "[Director's note — out of character, steer the story but do not narrate it directly: ",
            trimmed.as_str(),
            "] Continue the scene, letting that note shape what happens next.",
        ),
    )
}

/// The note of a story, as the narrator is told it.
pub open spec fn note_words(note: Seq<char>) -> Seq<char> {
    if text::blank(note) {
        Seq::empty()
    } else {
        "Author's note — keep this in mind throughout: "@ + text::trimmed(note)
    }
}

/// The note of a story, as the narrator is told it; nothing where there is none.
pub fn author_note_preamble(store: &Store, story_id: &str) -> (r: AppResult<String>)
    ensures
        match stories::settings_of(store@, story_id@) {
            Some(settings) => r is Ok && r->Ok_0@ == note_words(author_note::note_of(settings)),
            None => r is Err && r->Err_0@ == stories::no_story(story_id@),
        },
{
    let note = match author_note::read_author_note(store, story_id) {
        Ok(note) => note,
        Err(e) => {
            return Err(e);
        },
    };
    let trimmed = text::trim(note.as_str());
    if trimmed.as_str().is_empty() {
        let nothing = String::new();
        assert(nothing@ =~= Seq::empty());
        Ok(nothing)
    } else {
        Ok(text::concat2("Author's note — keep this in mind throughout: ", trimmed.as_str()))
    }
}

/// The parts that say something, with a blank line between them.
pub fn combine_preambles(parts: &Vec<String>) -> (r: String)
    ensures
        r@ == injection::combined(parts.deep_view()),
{
    injection::combine_context_blocks(parts)
}

/// What the narrator is told of its task and of the story.
pub fn narrator_preamble(extra_preamble: &str) -> (r: String)
    ensures
        r@ == (if extra_preamble@.len() == 0 {
            NARRATOR_PREAMBLE@
        } else {
            NARRATOR_PREAMBLE@ + "\n\n"@ + extra_preamble@
        }),
{
    if extra_preamble.is_empty() {
        NARRATOR_PREAMBLE.to_string()
    } else {
        text::concat3(NARRATOR_PREAMBLE, "\n\n", extra_preamble)
    }
}

/// What the narrator answered: what is seen of it, and what it thought.
pub fn finish_narration(visible: &str, thoughts: &str) -> (r: AppResult<(String, Option<String>)>)
    ensures
        if text::blank(visible@) {
            r is Err && r->Err_0@ == ErrorView::Other(NO_VISIBLE_TEXT@)
        } else {
            r is Ok && r->Ok_0.0@ == text::trimmed(visible@) && r->Ok_0.1.deep_view() == text::non_blank(
                Some(thoughts@),
            )
        },
{
    let visible = text::trim(visible);
    if visible.as_str().is_empty() {
        return Err(AppError::Other(NO_VISIBLE_TEXT.to_string()));
    }
    let thoughts = text::trim(thoughts);
    if thoughts.as_str().is_empty() {
        Ok((visible, None))
    } else {
        Ok((visible, Some(thoughts)))
    }
}

/// The book after the player told a passage.
pub open spec fn story_told(book: BookView, id: Seq<char>, now: Seq<char>, branch_id: Seq<char>, content: Seq<char>) -> Result<
    (BookView, PassageView),
    ErrorView,
> {
    if text::blank(content) {
        Err(ErrorView::Invalid(CONTENT_EMPTY@))
    } else {
        repository::inserted(
            book,
            id,
            now,
            branch_id,
            "narrator"@,
            "story"@,
            text::trimmed(content),
            None,
        )
    }
}

/// The player tells a passage in place of the narrator.
pub fn submit_story_at(store: &mut Store, book: &mut Book, id: &str, now: &str, branch_id: &str, content: &str) -> (r: AppResult<
    Passage,
>)
    ensures
        match story_told(old(book)@, id@, now@, branch_id@, content@) {
            Ok(done) => {
                &&& r is Ok && r->Ok_0@ == done.1 && final(book)@ == done.0
                &&& final(store)@ == owner::refreshed(old(store)@, old(book)@, branch_id@, now@)
            },
            Err(e) => r is Err && r->Err_0@ == e && final(book)@ == old(book)@ && final(store)@ == old(store)@,
        },
{
    let trimmed = text::trim(content);
    if trimmed.as_str().is_empty() {
        return Err(AppError::Invalid(CONTENT_EMPTY.to_string()));
    }
    let r = repository::insert_passage_at(
        book,
        id,
        now,
        branch_id,
        "narrator",
        "story",
        trimmed.as_str(),
        None,
    );
    if r.is_ok() {
        owner::refresh(store, book, branch_id, now);
    }
    r
}

/// The player tells a passage in place of the narrator, at the present time.
pub fn submit_story(store: &mut Store, book: &mut Book, branch_id: &str, content: &str) -> (r: AppResult<Passage>)
    ensures
        exists|id: Seq<char>, now: Seq<char>|
            stamp::fresh_like(id) && match #[trigger] story_told(old(book)@, id, now, branch_id@, content@) {
                Ok(done) => {
                    &&& r is Ok && r->Ok_0@ == done.1 && final(book)@ == done.0
                    &&& final(store)@ == owner::refreshed(old(store)@, old(book)@, branch_id@, now)
                },
                Err(e) => r is Err && r->Err_0@ == e && final(book)@ == old(book)@ && final(store)@ == old(store)@,
            },
{
    let id = stamp::fresh_id();
    let now = stamp::now();
    let r = submit_story_at(store, book, id.as_str(), now.as_str(), branch_id, content);
    assert(story_told(old(book)@, id@, now@, branch_id@, content@) == story_told(
        old(book)@,
        id@,
        now@,
        branch_id@,
        content@,
    ));
    r
}

/// Why the player cannot act, before anything is put down.
pub open spec fn turn_refusal(
    book: BookView,
    store: StoreView,
    preferences: PreferencesView,
    branch_id: Seq<char>,
    input_mode: Seq<char>,
    content: Seq<char>,
) -> Option<ErrorView> {
    if text::blank(content) {
        Some(ErrorView::Invalid(CONTENT_EMPTY@))
    } else if input_mode != "do"@ && input_mode != "say"@ {
        Some(ErrorView::Invalid("invalid input_mode: "@ + input_mode))
    } else {
        match usable_model(preferences) {
            Err(e) => Some(e),
            Ok(_) => match repository::story_of_branch(book, branch_id) {
                Err(e) => Some(e),
                Ok(story_id) => if stories::settings_of(store, story_id) is None {
                    Some(stories::no_story(story_id))
                } else {
                    None
                },
            },
        }
    }
}

/// Whether the player can act.
pub fn check_turn(book: &Book, store: &Store, preferences: &Preferences, branch_id: &str, input_mode: &str, content: &str) -> (r: AppResult<()>)
    ensures
        match turn_refusal(book@, store@, preferences@, branch_id@, input_mode@, content@) {
            Some(e) => r is Err && r->Err_0@ == e,
            None => r is Ok,
        },
{
    if text::is_blank(content) {
        return Err(AppError::Invalid(CONTENT_EMPTY.to_string()));
    }
    if !text::same_text(input_mode, "do") && !text::same_text(input_mode, "say") {
        return Err(AppError::Invalid(text::concat2("invalid input_mode: ", input_mode)));
    }
    match resolve_text_model(preferences) {
        Ok(_) => {},
        Err(e) => {
            return Err(e);
        },
    }
    match repository::get_story_id_for_branch(book, branch_id) {
        Ok(story_id) => match mechanics::get_story_mechanics_settings(store, story_id.as_str()) {
            Ok(_) => Ok(()),
            Err(e) => Err(e),
        },
        Err(e) => Err(e),
    }
}

/// The book after the player acted.
pub open spec fn turn_submitted(
    book: BookView,
    store: StoreView,
    preferences: PreferencesView,
    id: Seq<char>,
    now: Seq<char>,
    branch_id: Seq<char>,
    input_mode: Seq<char>,
    content: Seq<char>,
) -> Result<(BookView, PassageView), ErrorView> {
    match turn_refusal(book, store, preferences, branch_id, input_mode, content) {
        Some(e) => Err(e),
        None => repository::inserted(
            book,
            id,
            now,
            branch_id,
            "player"@,
            input_mode,
            text::trimmed(content),
            None,
        ),
    }
}

/// What the player does is put down.
pub fn submit_turn_at(
    store: &mut Store,
    book: &mut Book,
    preferences: &Preferences,
    id: &str,
    now: &str,
    branch_id: &str,
    input_mode: &str,
    content: &str,
) -> (r: AppResult<Passage>)
    ensures
        match turn_submitted(old(book)@, old(store)@, preferences@, id@, now@, branch_id@, input_mode@, content@) {
            Ok(done) => {
                &&& r is Ok && r->Ok_0@ == done.1 && final(book)@ == done.0
                &&& final(store)@ == owner::refreshed(old(store)@, old(book)@, branch_id@, now@)
            },
            Err(e) => r is Err && r->Err_0@ == e && final(book)@ == old(book)@ && final(store)@ == old(store)@,
        },
{
    match check_turn(book, store, preferences, branch_id, input_mode, content) {
        Ok(_) => {},
        Err(e) => {
            return Err(e);
        },
    }
    let trimmed = text::trim(content);
    let r = repository::insert_passage_at(
        book,
        id,
        now,
        branch_id,
        "player",
        input_mode,
        trimmed.as_str(),
        None,
    );
    if r.is_ok() {
        owner::refresh(store, book, branch_id, now);
    }
    r
}

/// What the player does is put down at the present time.
pub fn submit_turn(
    store: &mut Store,
    book: &mut Book,
    preferences: &Preferences,
    branch_id: &str,
    input_mode: &str,
    content: &str,
) -> (r: AppResult<SubmitTurnResult>)
    ensures
        exists|id: Seq<char>, now: Seq<char>|
            stamp::fresh_like(id) && match #[trigger] turn_submitted(old(book)@, old(store)@, preferences@, id, now, branch_id@, input_mode@, content@) {
                Ok(done) => {
                    &&& r is Ok && r->Ok_0.player_passage@ == done.1 && final(book)@ == done.0
                    &&& stamp::fresh_like(r->Ok_0.stream_id@)
                    &&& final(store)@ == owner::refreshed(old(store)@, old(book)@, branch_id@, now)
                },
                Err(e) => r is Err && r->Err_0@ == e && final(book)@ == old(book)@ && final(store)@ == old(store)@,
            },
{
    let id = stamp::fresh_id();
    let now = stamp::now();
    let made = submit_turn_at(store, book, preferences, id.as_str(), now.as_str(), branch_id, input_mode, content);
    assert(turn_submitted(old(book)@, old(store)@, preferences@, id@, now@, branch_id@, input_mode@, content@)
        == turn_submitted(old(book)@, old(store)@, preferences@, id@, now@, branch_id@, input_mode@, content@));
    match made {
        Ok(player_passage) => Ok(SubmitTurnResult { player_passage, stream_id: stamp::fresh_id() }),
        Err(e) => Err(e),
    }
}

/// The book without the last exchange of a branch, and which passages went.
pub open spec fn exchange_erased(book: BookView, branch_id: Seq<char>) -> (BookView, Seq<Seq<char>>) {
    match repository::last_passage(book, branch_id) {
        None => (book, Seq::empty()),
        Some(last) => {
            let mid = repository::without_passage(book, last.id);
            match repository::last_passage(mid, branch_id) {
                Some(prev) => if last.role == "narrator"@ && last.input_mode == "generated"@ && prev.role
                    == "player"@ {
                    (repository::without_passage(mid, prev.id), seq![last.id, prev.id])
                } else {
                    (mid, seq![last.id])
                },
                None => (mid, seq![last.id]),
            }
        },
    }
}

/// Whether the last exchange of a branch went, and the story was refreshed where anything did.
pub open spec fn exchange_gone(
    store: StoreView,
    store_after: StoreView,
    book: BookView,
    book_after: BookView,
    branch_id: Seq<char>,
    now: Seq<char>,
    r: Vec<String>,
) -> bool {
    &&& book_after == exchange_erased(book, branch_id).0
    &&& r.deep_view() == exchange_erased(book, branch_id).1
    &&& store_after == (if r.deep_view().len() == 0 {
        store
    } else {
        owner::refreshed(store, book, branch_id, now)
    })
}

/// Takes back the last exchange of a branch: the last passage, and, where the narrator told it in
/// answer to the player, what the player did.
pub fn erase_last_exchange_at(store: &mut Store, book: &mut Book, branch_id: &str, now: &str) -> (r: Vec<String>)
    ensures
        exchange_gone(old(store)@, final(store)@, old(book)@, final(book)@, branch_id@, now@, r),
{
    let mut removed: Vec<String> = Vec::new();
    assert(removed.deep_view() =~= Seq::empty());
    let last = match repository::get_last_passage(book, branch_id) {
        Some(last) => last,
        None => {
            return removed;
        },
    };
    removed.push(last.id.clone());
    assert(removed.deep_view() =~= seq![last@.id]);
    repository::delete_passage(book, last.id.as_str());
    if text::same_text(last.role.as_str(), "narrator") && text::same_text(last.input_mode.as_str(), "generated") {
        if let Some(prev) = repository::get_last_passage(book, branch_id) {
            if text::same_text(prev.role.as_str(), "player") {
                removed.push(prev.id.clone());
                assert(removed.deep_view() =~= seq![last@.id, prev@.id]);
                repository::delete_passage(book, prev.id.as_str());
            }
        }
    }
    owner::refresh(store, book, branch_id, now);
    removed
}

/// Takes back the last exchange of a branch at the present time.
pub fn erase_last_exchange(store: &mut Store, book: &mut Book, branch_id: &str) -> (r: Vec<String>)
    ensures
        exists|now: Seq<char>|
            #[trigger] exchange_gone(old(store)@, final(store)@, old(book)@, final(book)@, branch_id@, now, r),
{
    let now = stamp::now();
    erase_last_exchange_at(store, book, branch_id, now.as_str())
}

/// Whether another telling was kept as it should.
pub open spec fn swipe_kept(
    before: BookView,
    after: BookView,
    target: PassageView,
    first_id: Seq<char>,
    new_id: Seq<char>,
    visible: Seq<char>,
    thoughts: Option<Seq<char>>,
    now: Seq<char>,
    r: AppResult<(Passage, Vec<PassageVariant>)>,
) -> bool {
    &&& after == variants::swiped(before, target, first_id, new_id, visible, thoughts, now)
    &&& match rows::first_where(after.passages, repository::passage_is(target.id)) {
        Some(passage) => r is Ok && r->Ok_0.0@ == passage && r->Ok_0.1.deep_view() == variants::variants_of(
            after,
            target.id,
        ),
        None => r is Err && r->Err_0@ == ErrorView::NotFound("passage "@ + target.id + " not found"@),
    }
}

/// Keeps another telling of a passage at the present time, which counts from now on.
pub fn swipe_passage(store: &mut Store, book: &mut Book, target: &Passage, visible: &str, thoughts: Option<&str>) -> (r: AppResult<
    (Passage, Vec<PassageVariant>),
>)
    ensures
        exists|first_id: Seq<char>, new_id: Seq<char>, now: Seq<char>|
            stamp::fresh_like(first_id) && stamp::fresh_like(new_id) && #[trigger] swipe_kept(
                old(book)@,
                final(book)@,
                target@,
                first_id,
                new_id,
                visible@,
                thoughts.deep_view(),
                now,
                r,
            ) && final(store)@ == (if r is Ok {
                owner::refreshed(old(store)@, old(book)@, target@.branch_id, now)
            } else {
                old(store)@
            }),
{
    let now = stamp::now();
    let first_id = stamp::fresh_id();
    let new_id = stamp::fresh_id();
    let ghost before = book@;
    let r = variants::finish_swipe_at(
        store,
        book,
        target,
        first_id.as_str(),
        new_id.as_str(),
        visible,
        thoughts,
        now.as_str(),
    );
    assert(swipe_kept(
        before,
        book@,
        target@,
        first_id@,
        new_id@,
        visible@,
        thoughts.deep_view(),
        now@,
        r,
    ));
    r
}

/// After an exchange was taken back, none of its passages is left.
pub proof fn law_erased_passages_are_gone(book: BookView, branch_id: Seq<char>)
    ensures
        forall|i: int|
            0 <= i < exchange_erased(book, branch_id).1.len() ==> rows::first_where(
                exchange_erased(book, branch_id).0.passages,
                repository::passage_is(#[trigger] exchange_erased(book, branch_id).1[i]),
            ) is None,
{
    if let Some(last) = repository::last_passage(book, branch_id) {
        let mid = repository::without_passage(book, last.id);
        rows::lemma_first_where_filtered(
            book.passages,
            repository::passage_is(last.id),
            repository::passage_is_not(last.id),
        );
        if let Some(prev) = repository::last_passage(mid, branch_id) {
            rows::lemma_first_where_filtered(
                mid.passages,
                repository::passage_is(prev.id),
                repository::passage_is_not(prev.id),
            );
            lemma_absent_stays_absent(mid.passages, repository::passage_is_not(prev.id), repository::passage_is(last.id));
        }
    }
}

proof fn lemma_absent_stays_absent(
    passages: Seq<PassageView>,
    p: spec_fn(PassageView) -> bool,
    q: spec_fn(PassageView) -> bool,
)
    requires
        rows::first_where(passages, q) is None,
    ensures
        rows::first_where(passages.filter(p), q) is None,
{
    let left = passages.filter(p);
    let i = rows::lemma_first_where(left, q);
    let k = rows::lemma_first_where(passages, q);
    if rows::first_where(left, q) is Some {
        assert(left.contains(left[i]));
        rows::lemma_filter_member(passages, p, left[i]);
        let at = choose|at: int| 0 <= at < passages.len() && passages[at] == left[i];
        assert(rows::any_where(passages, q));
    }
}

} // verus!
