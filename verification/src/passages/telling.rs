//! How the narrator goes on with a branch: what it is asked, and what comes of its answer.

use vstd::prelude::*;

use super::commands;
use super::commands::{TextModel, CONTINUE_PROMPT};
use super::history;
use super::model::{Book, BookView, Passage, PassageView};
use super::owner;
use super::repository;
use super::variants;
use crate::ai::{HistoryTurn, HistoryTurnView};
use crate::error::{AppError, AppResult, ErrorView};
use crate::narration::author_note;
use crate::narrator::injection;
use crate::settings::{Preferences, PreferencesView};
use crate::store::{Store, StoreView};
use crate::{rows, stamp, stories, text};

verus! {

/// How the narrator is asked to go on with a branch.
#[derive(Debug, PartialEq)]
pub struct TellingPlan {
    pub history: Vec<HistoryTurn>,
    pub model: TextModel,
    pub prompt: String,
    pub extra_preamble: String,
    /// How what is told is put in.
    pub input_mode: String,
}

/// What a `TellingPlan` stands for; the model by its name and the key for it.
#[verifier::ext_equal]
pub struct TellingPlanView {
    pub history: Seq<HistoryTurnView>,
    pub model: (Seq<char>, Seq<char>),
    pub prompt: Seq<char>,
    pub extra_preamble: Seq<char>,
    pub input_mode: Seq<char>,
}

impl View for TellingPlan {
    type V = TellingPlanView;

    open spec fn view(&self) -> TellingPlanView {
        TellingPlanView {
            history: self.history.deep_view(),
            model: (self.model.model@, self.model.api_key@),
            prompt: self.prompt@,
            extra_preamble: self.extra_preamble@,
            input_mode: self.input_mode@,
        }
    }
}

/// How the narrator is asked to go on with a branch, as it stands before a sequence number where
/// one is given, or why it cannot be.
pub open spec fn planned(
    book: BookView,
    store: StoreView,
    preferences: PreferencesView,
    branch_id: Seq<char>,
    before_seq: Option<i64>,
    prompt: Seq<char>,
    input_mode: Seq<char>,
) -> Result<TellingPlanView, ErrorView> {
    match commands::usable_model(preferences) {
        Err(e) => Err(e),
        Ok(model) => match repository::story_of_branch(book, branch_id) {
            Err(e) => Err(e),
            Ok(story_id) => match stories::settings_of(store, story_id) {
                None => Err(stories::no_story(story_id)),
                Some(settings) => Ok(
                    TellingPlanView {
                        history: history::history_of(book, branch_id, before_seq),
                        model,
                        prompt,
                        extra_preamble: commands::note_words(author_note::note_of(settings)),
                        input_mode,
                    },
                ),
            },
        },
    }
}

fn plan(
    book: &Book,
    store: &Store,
    preferences: &Preferences,
    branch_id: &str,
    before_seq: Option<i64>,
    prompt: &str,
    input_mode: &str,
) -> (r: AppResult<TellingPlan>)
    ensures
        match planned(book@, store@, preferences@, branch_id@, before_seq, prompt@, input_mode@) {
            Ok(plan) => r is Ok && r->Ok_0@ == plan,
            Err(e) => r is Err && r->Err_0@ == e,
        },
{
    let history = history::load_history(book, branch_id, before_seq);
    let model = match commands::resolve_text_model(preferences) {
        Ok(model) => model,
        Err(e) => {
            return Err(e);
        },
    };
    let story_id = match repository::get_story_id_for_branch(book, branch_id) {
        Ok(story_id) => story_id,
        Err(e) => {
            return Err(e);
        },
    };
    match commands::author_note_preamble(store, story_id.as_str()) {
        Ok(extra_preamble) => Ok(
            TellingPlan {
                history,
                model,
                prompt: prompt.to_string(),
                extra_preamble,
                input_mode: input_mode.to_string(),
            },
        ),
        Err(e) => Err(e),
    }
}

/// How the narrator is asked to answer what the player does. What was worked out before, if
/// anything, is told together with the note of the story.
pub open spec fn turn_planned(
    book: BookView,
    store: StoreView,
    preferences: PreferencesView,
    branch_id: Seq<char>,
    input_mode: Seq<char>,
    content: Seq<char>,
    worked_out: Seq<char>,
) -> Result<TellingPlanView, ErrorView> {
    match commands::turn_refusal(book, store, preferences, branch_id, input_mode, content) {
        Some(e) => Err(e),
        None => match planned(
            book,
            store,
            preferences,
            branch_id,
            None,
            commands::prompt_of(input_mode, text::trimmed(content)),
            "generated"@,
        ) {
            Err(e) => Err(e),
            Ok(plan) => Ok(
                TellingPlanView {
                    extra_preamble: injection::combined(seq![plan.extra_preamble, worked_out]),
                    ..plan
                },
            ),
        },
    }
}

/// How the narrator is asked to answer what the player does, as the branch stands before it.
pub fn plan_turn(
    book: &Book,
    store: &Store,
    preferences: &Preferences,
    branch_id: &str,
    input_mode: &str,
    content: &str,
    worked_out: &str,
) -> (r: AppResult<TellingPlan>)
    ensures
        match turn_planned(book@, store@, preferences@, branch_id@, input_mode@, content@, worked_out@) {
            Ok(plan) => r is Ok && r->Ok_0@ == plan,
            Err(e) => r is Err && r->Err_0@ == e,
        },
{
    match commands::check_turn(book, store, preferences, branch_id, input_mode, content) {
        Ok(_) => {},
        Err(e) => {
            return Err(e);
        },
    }
    let trimmed = text::trim(content);
    let prompt = commands::format_prompt(input_mode, trimmed.as_str());
    match plan(book, store, preferences, branch_id, None, prompt.as_str(), "generated") {
        Ok(mut plan) => {
            let mut parts: Vec<String> = Vec::new();
            parts.push(plan.extra_preamble.clone());
            parts.push(worked_out.to_string());
            assert(parts.deep_view() =~= seq![plan.extra_preamble@, worked_out@]);
            plan.extra_preamble = commands::combine_preambles(&parts);
            Ok(plan)
        },
        Err(e) => Err(e),
    }
}

/// How the narrator is asked to go on as the player steers it.
pub open spec fn guide_planned(
    book: BookView,
    store: StoreView,
    preferences: PreferencesView,
    branch_id: Seq<char>,
    note: Seq<char>,
) -> Result<TellingPlanView, ErrorView> {
    if text::blank(note) {
        Err(ErrorView::Invalid(commands::NOTE_EMPTY@))
    } else {
        planned(book, store, preferences, branch_id, None, commands::guide_words(note), "generated_guide"@)
    }
}

/// How the narrator is asked to go on as the player steers it. Nothing is put down for the note.
pub fn submit_guide(book: &Book, store: &Store, preferences: &Preferences, branch_id: &str, note: &str) -> (r: AppResult<
    TellingPlan,
>)
    ensures
        match guide_planned(book@, store@, preferences@, branch_id@, note@) {
            Ok(plan) => r is Ok && r->Ok_0@ == plan,
            Err(e) => r is Err && r->Err_0@ == e,
        },
{
    let prompt = match commands::guide_prompt(note) {
        Ok(prompt) => prompt,
        Err(e) => {
            return Err(e);
        },
    };
    plan(book, store, preferences, branch_id, None, prompt.as_str(), "generated_guide")
}

/// How the narrator is asked to go on where the player does nothing new.
pub fn continue_scene(book: &Book, store: &Store, preferences: &Preferences, branch_id: &str) -> (r: AppResult<TellingPlan>)
    ensures
        match planned(book@, store@, preferences@, branch_id@, None, CONTINUE_PROMPT@, "generated_continue"@) {
            Ok(plan) => r is Ok && r->Ok_0@ == plan,
            Err(e) => r is Err && r->Err_0@ == e,
        },
{
    plan(book, store, preferences, branch_id, None, CONTINUE_PROMPT, "generated_continue")
}

/// A passage that is told anew, and the stream of what is told.
#[derive(Debug, PartialEq)]
pub struct RetryResult {
    pub removed_passage_id: String,
    pub stream_id: String,
}

/// Why a passage cannot be told anew.
pub open spec fn retry_refusal(book: BookView, branch_id: Seq<char>, passage_id: Seq<char>) -> Option<ErrorView> {
    match repository::last_passage(book, branch_id) {
        None => Some(ErrorView::Invalid("no passages to retry"@)),
        Some(last) => if last.id != passage_id {
            Some(ErrorView::Invalid("only the latest passage can be retried"@))
        } else if last.role != "narrator"@ {
            Some(ErrorView::Invalid("only a narrator passage can be retried"@))
        } else {
            None
        },
    }
}

/// How what is told next is put in: in answer to the player, or going on.
pub open spec fn pairing(book: BookView, branch_id: Seq<char>) -> Seq<char> {
    match repository::last_passage(book, branch_id) {
        Some(last) => if last.role == "player"@ {
            "generated"@
        } else {
            "generated_continue"@
        },
        None => "generated_continue"@,
    }
}

/// How the narrator is asked to tell the last passage anew: as if the passage were not there.
pub open spec fn retry_planned(
    book: BookView,
    store: StoreView,
    preferences: PreferencesView,
    branch_id: Seq<char>,
    passage_id: Seq<char>,
) -> Result<TellingPlanView, ErrorView> {
    let rest = repository::without_passage(book, passage_id);
    match retry_refusal(book, branch_id, passage_id) {
        Some(e) => Err(e),
        None => planned(rest, store, preferences, branch_id, None, CONTINUE_PROMPT@, pairing(rest, branch_id)),
    }
}

/// How the narrator is asked to tell the last passage anew. The passage stays where it is until
/// what is told in its place is there.
pub fn retry_passage(book: &Book, store: &Store, preferences: &Preferences, branch_id: &str, passage_id: &str) -> (r: AppResult<
    (RetryResult, TellingPlan),
>)
    ensures
        match retry_planned(book@, store@, preferences@, branch_id@, passage_id@) {
            Ok(plan) => {
                &&& r is Ok && r->Ok_0.0.removed_passage_id@ == passage_id@ && r->Ok_0.1@ == plan
                &&& stamp::fresh_like(r->Ok_0.0.stream_id@)
            },
            Err(e) => r is Err && r->Err_0@ == e,
        },
{
    let last = match repository::get_last_passage(book, branch_id) {
        Some(last) => last,
        None => {
            return Err(AppError::Invalid("no passages to retry".to_string()));
        },
    };
    if !text::same_text(last.id.as_str(), passage_id) {
        return Err(AppError::Invalid("only the latest passage can be retried".to_string()));
    }
    if !text::same_text(last.role.as_str(), "narrator") {
        return Err(AppError::Invalid("only a narrator passage can be retried".to_string()));
    }
    let mut rest = book.copy();
    repository::delete_passage(&mut rest, passage_id);
    let input_mode = match repository::get_last_passage(&rest, branch_id) {
        Some(prev) => if text::same_text(prev.role.as_str(), "player") {
            "generated"
        } else {
            "generated_continue"
        },
        None => "generated_continue",
    };
    match plan(&rest, store, preferences, branch_id, None, CONTINUE_PROMPT, input_mode) {
        Ok(plan) => Ok(
            (RetryResult { removed_passage_id: passage_id.to_string(), stream_id: stamp::fresh_id() }, plan),
        ),
        Err(e) => Err(e),
    }
}

/// How the narrator is asked for another telling of the last passage.
pub open spec fn swipe_planned(
    book: BookView,
    store: StoreView,
    preferences: PreferencesView,
    branch_id: Seq<char>,
    passage_id: Seq<char>,
) -> Result<(PassageView, TellingPlanView), ErrorView> {
    let target = repository::last_passage(book, branch_id)->0;
    match variants::swipe_refusal(book, branch_id, passage_id) {
        Some(e) => Err(e),
        None => match planned(
            book,
            store,
            preferences,
            branch_id,
            Some(target.seq),
            CONTINUE_PROMPT@,
            target.input_mode,
        ) {
            Err(e) => Err(e),
            Ok(plan) => Ok((target, plan)),
        },
    }
}

/// How the narrator is asked for another telling of the last passage, as the branch stands before
/// it. The passage keeps how it was put in.
pub fn plan_swipe(book: &Book, store: &Store, preferences: &Preferences, branch_id: &str, passage_id: &str) -> (r: AppResult<
    (Passage, TellingPlan),
>)
    ensures
        match swipe_planned(book@, store@, preferences@, branch_id@, passage_id@) {
            Ok(done) => r is Ok && r->Ok_0.0@ == done.0 && r->Ok_0.1@ == done.1,
            Err(e) => r is Err && r->Err_0@ == e,
        },
{
    let target = match variants::swipe_target(book, branch_id, passage_id) {
        Ok(target) => target,
        Err(e) => {
            return Err(e);
        },
    };
    let asked = plan(
        book,
        store,
        preferences,
        branch_id,
        Some(target.seq),
        CONTINUE_PROMPT,
        target.input_mode.as_str(),
    );
    match asked {
        Ok(plan) => Ok((target, plan)),
        Err(e) => Err(e),
    }
}

/// Puts down what the narrator told.
pub fn append_narrator_passage_at(
    store: &mut Store,
    book: &mut Book,
    id: &str,
    now: &str,
    branch_id: &str,
    input_mode: &str,
    visible: &str,
    thoughts: Option<&str>,
) -> (r: AppResult<Passage>)
    ensures
        match repository::inserted(
            old(book)@,
            id@,
            now@,
            branch_id@,
            "narrator"@,
            input_mode@,
            visible@,
            thoughts.deep_view(),
        ) {
            Ok(done) => {
                &&& r is Ok && r->Ok_0@ == done.1 && final(book)@ == done.0
                &&& final(store)@ == owner::refreshed(old(store)@, old(book)@, branch_id@, now@)
            },
            Err(e) => r is Err && r->Err_0@ == e && final(book)@ == old(book)@ && final(store)@ == old(store)@,
        },
{
    let r = repository::insert_passage_at(book, id, now, branch_id, "narrator", input_mode, visible, thoughts);
    if r.is_ok() {
        owner::refresh(store, book, branch_id, now);
    }
    r
}

/// Puts down what the narrator told, where what was rolled for it is kept with it: `kept` is what
/// came of keeping the roll under the identifier of the passage. Where that failed, nothing is put
/// down.
pub fn append_narrator_passage_with_roll_at(
    store: &mut Store,
    book: &mut Book,
    id: &str,
    now: &str,
    branch_id: &str,
    input_mode: &str,
    visible: &str,
    thoughts: Option<&str>,
    kept: AppResult<()>,
) -> (r: AppResult<Passage>)
    ensures
        match repository::inserted(
            old(book)@,
            id@,
            now@,
            branch_id@,
            "narrator"@,
            input_mode@,
            visible@,
            thoughts.deep_view(),
        ) {
            Ok(done) => match kept {
                Ok(_) => {
                    &&& r is Ok && r->Ok_0@ == done.1 && final(book)@ == done.0
                    &&& final(store)@ == owner::refreshed(old(store)@, old(book)@, branch_id@, now@)
                },
                Err(e) => r is Err && r->Err_0@ == e@ && final(book)@ == old(book)@ && final(store)@ == old(store)@,
            },
            Err(e) => r is Err && r->Err_0@ == e && final(book)@ == old(book)@ && final(store)@ == old(store)@,
        },
{
    let before = rows::copy_rows(&book.passages);
    let passage = match repository::insert_passage_at(book, id, now, branch_id, "narrator", input_mode, visible, thoughts) {
        Ok(passage) => passage,
        Err(e) => {
            return Err(e);
        },
    };
    match kept {
        Ok(_) => {
            owner::refresh(store, book, branch_id, now);
            Ok(passage)
        },
        Err(e) => {
            book.passages = before;
            Err(e)
        },
    }
}

/// The book with a passage in the place of another.
pub open spec fn replaced(
    book: BookView,
    id: Seq<char>,
    now: Seq<char>,
    branch_id: Seq<char>,
    passage_id: Seq<char>,
    input_mode: Seq<char>,
    visible: Seq<char>,
    thoughts: Option<Seq<char>>,
) -> Result<(BookView, PassageView), ErrorView> {
    repository::inserted(
        repository::without_passage(book, passage_id),
        id,
        now,
        branch_id,
        "narrator"@,
        input_mode,
        visible,
        thoughts,
    )
}

/// Puts what the narrator told anew in the place of the passage: the old one is gone and the new
/// one is there, or all is as it was.
pub fn replace_passage_at(
    store: &mut Store,
    book: &mut Book,
    id: &str,
    now: &str,
    branch_id: &str,
    passage_id: &str,
    input_mode: &str,
    visible: &str,
    thoughts: Option<&str>,
) -> (r: AppResult<Passage>)
    ensures
        match replaced(
            old(book)@,
            id@,
            now@,
            branch_id@,
            passage_id@,
            input_mode@,
            visible@,
            thoughts.deep_view(),
        ) {
            Ok(done) => {
                &&& r is Ok && r->Ok_0@ == done.1 && final(book)@ == done.0
                &&& final(store)@ == owner::refreshed(old(store)@, old(book)@, branch_id@, now@)
            },
            Err(e) => r is Err && r->Err_0@ == e && final(book)@ == old(book)@ && final(store)@ == old(store)@,
        },
{
    let kept = rows::copy_rows(&book.passages);
    repository::delete_passage(book, passage_id);
    match append_narrator_passage_at(store, book, id, now, branch_id, input_mode, visible, thoughts) {
        Ok(passage) => Ok(passage),
        Err(e) => {
            book.passages = kept;
            Err(e)
        },
    }
}

/// A passage that was told anew is gone, and what was told in its place is the last of the branch.
pub proof fn law_retold_passage_takes_the_place_of_the_old(
    book: BookView,
    id: Seq<char>,
    now: Seq<char>,
    branch_id: Seq<char>,
    passage_id: Seq<char>,
    input_mode: Seq<char>,
    visible: Seq<char>,
    thoughts: Option<Seq<char>>,
)
    requires
        id != passage_id,
    ensures
        replaced(book, id, now, branch_id, passage_id, input_mode, visible, thoughts) matches Ok(done) ==> {
            &&& rows::first_where(done.0.passages, repository::passage_is(passage_id)) is None
            &&& repository::last_passage(done.0, branch_id) == Some(done.1)
        },
{
    let rest = repository::without_passage(book, passage_id);
    let p = repository::passage_is(passage_id);
    repository::law_added_passage_is_last(
        rest,
        id,
        now,
        branch_id,
        "narrator"@,
        input_mode,
        visible,
        thoughts,
    );
    if let Ok(done) = replaced(book, id, now, branch_id, passage_id, input_mode, visible, thoughts) {
        rows::lemma_first_where_filtered(book.passages, p, repository::passage_is_not(passage_id));
        rows::lemma_first_where(rest.passages, p);
        assert forall|k: int| 0 <= k < done.0.passages.len() implies !p(#[trigger] done.0.passages[k]) by {
            if k < rest.passages.len() {
                assert(done.0.passages[k] == rest.passages[k]);
                assert(!p(rest.passages[k]));
            }
        }
        rows::lemma_first_where_miss(done.0.passages, p);
    }
}

} // verus!
