//! What the narrator of a book is asked, and what becomes of the story that it belongs to.

use vstd::prelude::*;

use super::characters;
use super::characters::CardView;
use super::commands;
use super::history;
use super::images;
use super::model::{BookView, Passage, PassageVariant, PassageView};
use super::owner;
use super::repository;
use super::telling;
use super::variants;
use crate::error::{AppResult, ErrorView};
use crate::narration::author_note;
use crate::narrator::injection;
use crate::settings;
use crate::settings::PreferencesView;
use crate::store::StoreView;
use crate::stories;
use crate::{rows, text};

verus! {

/// A turn of the player is told from the whole branch, as a saying or a doing, with the words that it
/// is made of and without the space around them; what was worked out for it comes behind the note of
/// the author. It is refused where it says nothing or is neither a saying nor a doing.
pub proof fn law_turn_is_asked_in_the_players_words(
    book: BookView,
    store: StoreView,
    preferences: PreferencesView,
    branch_id: Seq<char>,
    input_mode: Seq<char>,
    content: Seq<char>,
    worked_out: Seq<char>,
)
    ensures
        text::trimmed(content).len() == 0 ==> telling::turn_planned(
            book,
            store,
            preferences,
            branch_id,
            input_mode,
            content,
            worked_out,
        ) is Err,
        telling::turn_planned(book, store, preferences, branch_id, input_mode, content, worked_out) matches Ok(plan) ==> {
            &&& text::trimmed(content).len() > 0
            &&& input_mode == "say"@ || input_mode == "do"@
            &&& input_mode == "say"@ ==> plan.prompt == "[The player says] \""@ + text::trimmed(content) + "\""@
            &&& input_mode == "do"@ ==> plan.prompt == "[The player does] "@ + text::trimmed(content)
            &&& plan.history == history::history_of(book, branch_id, None)
            &&& Ok::<_, ErrorView>(plan.model) == commands::usable_model(preferences)
            &&& plan.input_mode == "generated"@
            &&& repository::story_of_branch(book, branch_id) is Ok
            &&& telling::planned(book, store, preferences, branch_id, None, plan.prompt, "generated"@) matches Ok(bare)
                && plan.extra_preamble == text::joined(
                seq![bare.extra_preamble, worked_out].filter(|part: Seq<char>| part.len() > 0),
                "\n\n"@,
            )
        },
{
    reveal_strlit("say");
    reveal_strlit("do");
    assert("say"@.len() == 3);
    assert("do"@.len() == 2);
    assert((|part: Seq<char>| part.len() > 0) =~= injection::filled());
}

/// A direction of the player is told from the whole branch, with the words that it is made of and
/// without the space around them, and is refused where it says nothing.
pub proof fn law_direction_shapes_what_is_told(
    book: BookView,
    store: StoreView,
    preferences: PreferencesView,
    branch_id: Seq<char>,
    note: Seq<char>,
)
    ensures
        text::trimmed(note).len() == 0 ==> telling::guide_planned(book, store, preferences, branch_id, note) is Err,
        telling::guide_planned(book, store, preferences, branch_id, note) matches Ok(plan) ==> {
            &&& plan.prompt
                == "[Director's note — out of character, steer the story but do not narrate it directly: "@
                + text::trimmed(note)
                + "] Continue the scene, letting that note shape what happens next."@
            &&& plan.history == history::history_of(book, branch_id, None)
            &&& plan.input_mode == "generated_guide"@
            &&& Ok::<_, ErrorView>(plan.model) == commands::usable_model(preferences)
        },
{
}

/// Taking back an exchange notes a change of the story of the branch only where a passage went, and
/// changes nothing else of the tables.
pub proof fn law_story_is_refreshed_with_its_passages(
    store: StoreView,
    store_after: StoreView,
    book: BookView,
    book_after: BookView,
    branch_id: Seq<char>,
    now: Seq<char>,
    r: Vec<String>,
)
    requires
        commands::exchange_gone(store, store_after, book, book_after, branch_id, now, r),
    ensures
        store_after == (StoreView { stories: store_after.stories, ..store }),
        r.deep_view().len() == 0 ==> store_after == store,
        r.deep_view().len() == 0 <==> repository::last_passage(book, branch_id) is None,
        r.deep_view().len() > 0 ==> r.deep_view()[0] == repository::last_passage(book, branch_id)->0.id,
        r.deep_view().len() == 0 ==> book_after == book,
{
}

/// A changed passage notes a change of the story that its branch belongs to; an operation that fails
/// notes none.
pub proof fn law_changed_passage_refreshes_its_story(
    store: StoreView,
    book: BookView,
    passage_id: Seq<char>,
    now: Seq<char>,
    r: AppResult<Passage>,
)
    ensures
        r is Err ==> variants::if_changed(store, book, passage_id, now, r) == store,
        r is Ok ==> forall|i: int|
            #![trigger book.passages[i]]
            0 <= i < book.passages.len() && book.passages[i].id == passage_id && (forall|k: int|
                0 <= k < i ==> (#[trigger] book.passages[k]).id != passage_id) ==> variants::if_changed(
                store,
                book,
                passage_id,
                now,
                r,
            ) == owner::refreshed(store, book, book.passages[i].branch_id, now),
        r is Ok && (forall|i: int| 0 <= i < book.passages.len() ==> (#[trigger] book.passages[i]).id != passage_id)
            ==> variants::if_changed(store, book, passage_id, now, r) == store,
{
    let p = repository::passage_is(passage_id);
    let at = rows::lemma_first_where(book.passages, p);
    assert forall|i: int|
        #![trigger book.passages[i]]
        r is Ok && 0 <= i < book.passages.len() && book.passages[i].id == passage_id && (forall|k: int|
            0 <= k < i ==> (#[trigger] book.passages[k]).id != passage_id) implies variants::if_changed(
        store,
        book,
        passage_id,
        now,
        r,
    ) == owner::refreshed(store, book, book.passages[i].branch_id, now) by {
        assert(p(book.passages[i]));
        assert(rows::any_where(book.passages, p));
        if at < i {
            assert(book.passages[at].id != passage_id);
        }
        assert(at == i);
    }
}

/// A new telling that was kept is answered with the passage as the book has it then, and with all
/// its tellings.
pub proof fn law_new_telling_is_answered_as_kept(
    before: BookView,
    after: BookView,
    target: PassageView,
    first_id: Seq<char>,
    new_id: Seq<char>,
    visible: Seq<char>,
    thoughts: Option<Seq<char>>,
    now: Seq<char>,
    r: AppResult<(Passage, Vec<PassageVariant>)>,
)
    requires
        commands::swipe_kept(before, after, target, first_id, new_id, visible, thoughts, now, r),
    ensures
        after == variants::swiped(before, target, first_id, new_id, visible, thoughts, now),
        r is Ok <==> exists|i: int| 0 <= i < after.passages.len() && (#[trigger] after.passages[i]).id == target.id,
        r is Ok ==> r->Ok_0.0@.id == target.id && after.passages.contains(r->Ok_0.0@) && r->Ok_0.1.deep_view()
            == variants::variants_of(after, target.id),
{
    let p = repository::passage_is(target.id);
    let at = rows::lemma_first_where(after.passages, p);
    if rows::first_where(after.passages, p) is Some {
        assert(after.passages[at].id == target.id);
    } else {
        assert forall|i: int| 0 <= i < after.passages.len() implies (#[trigger] after.passages[i]).id != target.id by {
            if after.passages[i].id == target.id {
                assert(p(after.passages[i]));
            }
        }
    }
}

/// A picture of a passage is planned from the words of the passage, from what the player wants to
/// see, if anything, and from the looks of the cast of the story that are in it. It takes images that
/// are switched on, a key and a passage that is there, and it is made by the model and in the style
/// that are chosen.
pub proof fn law_picture_is_planned_from_its_passage(
    book: BookView,
    cards: Seq<CardView>,
    preferences: PreferencesView,
    passage_id: Seq<char>,
    prompt_hint: Option<Seq<char>>,
)
    ensures
        !settings::image_model(preferences).enabled ==> images::scene_planned(
            book,
            cards,
            preferences,
            passage_id,
            prompt_hint,
        ) is Err,
        images::scene_planned(book, cards, preferences, passage_id, prompt_hint) matches Ok(plan) ==> {
            &&& plan.image_model == settings::image_model(preferences).model
            &&& plan.style == settings::image_model(preferences).style
            &&& settings::api_key_of(preferences, settings::DEFAULT_PROVIDER@) == Some(plan.api_key)
            &&& commands::usable_model(preferences) == Ok::<_, ErrorView>(plan.text_model)
            &&& exists|i: int|
                {
                    &&& 0 <= i < book.passages.len()
                    &&& (#[trigger] book.passages[i]).id == passage_id
                    &&& repository::story_of_branch(book, book.passages[i].branch_id) is Ok
                    &&& plan.matched == images::in_picture(
                        characters::looks_of(
                            cards,
                            repository::story_of_branch(book, book.passages[i].branch_id)->Ok_0,
                        ),
                        book.passages[i].content,
                        if prompt_hint is Some && text::trimmed(prompt_hint->0).len() > 0 {
                            Some(text::trimmed(prompt_hint->0))
                        } else {
                            None
                        },
                    )
                    &&& plan.request.take(7 + book.passages[i].content.len() as int) == "Scene:\n"@
                        + book.passages[i].content
                    &&& prompt_hint is Some && text::trimmed(prompt_hint->0).len() > 0 && plan.matched.len() == 0
                        ==> plan.request == "Scene:\n"@ + book.passages[i].content + "\n\nFocus the image on: "@
                        + text::trimmed(prompt_hint->0)
                }
        },
{
    reveal_strlit("Scene:\n");
    assert("Scene:\n"@.len() == 7);
    if let Ok(plan) = images::scene_planned(book, cards, preferences, passage_id, prompt_hint) {
        let p = repository::passage_is(passage_id);
        let i = rows::lemma_first_where(book.passages, p);
        let content = book.passages[i].content;
        assert(book.passages[i].id == passage_id);
        assert(plan.request.take(7 + content.len() as int) =~= "Scene:\n"@ + content);
        if prompt_hint is Some && text::trimmed(prompt_hint->0).len() > 0 && plan.matched.len() == 0 {
            assert(plan.request =~= "Scene:\n"@ + content + "\n\nFocus the image on: "@ + text::trimmed(
                prompt_hint->0,
            ));
        }
    }
}

/// What a picture is described from names each of those in it with their look.
pub proof fn law_description_has_everybody_in_it(
    passage: Seq<char>,
    hint: Option<Seq<char>>,
    matched: Seq<(Seq<char>, Seq<char>)>,
    next: (Seq<char>, Seq<char>),
)
    ensures
        matched.len() > 0 ==> images::description_request(passage, hint, matched.push(next))
            == images::description_request(passage, hint, matched) + "\n- "@ + next.0 + ": "@ + next.1,
{
    if matched.len() > 0 {
        assert(matched.push(next).drop_last() =~= matched);
        assert(images::description_request(passage, hint, matched.push(next)) =~= images::description_request(
            passage,
            hint,
            matched,
        ) + "\n- "@ + next.0 + ": "@ + next.1);
    }
}

/// A new telling is made of the last passage of the branch, and only where the narrator told it.
pub proof fn law_only_the_last_telling_is_told_anew(book: BookView, branch_id: Seq<char>, passage_id: Seq<char>)
    ensures
        variants::swipe_refusal(book, branch_id, passage_id) is None <==> {
            &&& repository::last_passage(book, branch_id) is Some
            &&& repository::last_passage(book, branch_id)->0.id == passage_id
            &&& repository::last_passage(book, branch_id)->0.role == "narrator"@
        },
{
}

/// The note of the author goes with whatever is told, without the space around it, and nothing goes
/// where it says nothing.
pub proof fn law_note_goes_with_the_telling(
    book: BookView,
    store: StoreView,
    preferences: PreferencesView,
    branch_id: Seq<char>,
    before_seq: Option<i64>,
    prompt: Seq<char>,
    input_mode: Seq<char>,
)
    ensures
        telling::planned(book, store, preferences, branch_id, before_seq, prompt, input_mode) matches Ok(plan) ==> {
            let note = author_note::note_of(
                stories::settings_of(store, repository::story_of_branch(book, branch_id)->Ok_0)->0,
            );
            &&& text::trimmed(note).len() == 0 ==> plan.extra_preamble.len() == 0
            &&& text::trimmed(note).len() > 0 ==> plan.extra_preamble
                == "Author's note — keep this in mind throughout: "@ + text::trimmed(note)
            &&& plan.prompt == prompt
            &&& plan.input_mode == input_mode
            &&& plan.history == history::history_of(book, branch_id, before_seq)
        },
{
}

} // verus!
