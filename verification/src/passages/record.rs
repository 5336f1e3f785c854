//! What a book has of the passages that were put down, told anew or taken back.

use vstd::prelude::*;

use super::commands;
use super::history;
use super::images;
use super::model::{BookView, PassageImageView, PassageView};
use super::repository;
use super::telling;
use crate::ai::HistoryTurnView;
use crate::settings;
use crate::settings::PreferencesView;
use crate::sorting;
use crate::store::StoreView;
use crate::{rows, sequence, text};

verus! {

/// The passages of a branch are listed in the order of their numbers, all of them and none of
/// another branch.
pub proof fn law_branch_is_listed_in_sequence(book: BookView, branch_id: Seq<char>)
    ensures
        ({
            let list = repository::passages_of(book, branch_id);
            &&& forall|p: PassageView|
                #[trigger] list.contains(p) <==> book.passages.contains(p) && p.branch_id == branch_id
            &&& forall|i: int, k: int| 0 <= i < k < list.len() ==> (#[trigger] list[i]).seq <= (#[trigger] list[k]).seq
            &&& list.len() == book.passages.filter(|p: PassageView| p.branch_id == branch_id).len()
        }),
{
    let own = repository::of_branch(branch_id);
    let number = repository::passage_number();
    let kept = book.passages.filter(own);
    let list = repository::passages_of(book, branch_id);
    assert((|p: PassageView| p.branch_id == branch_id) =~= own);
    assert forall|p: PassageView|
        #[trigger] list.contains(p) <==> book.passages.contains(p) && p.branch_id == branch_id by {
        rows::lemma_filter_member(book.passages, own, p);
        sequence::lemma_member(kept, number, p);
    }
    sequence::lemma_rises(kept, number);
    sequence::lemma_member(kept, number, list[0]);
    assert forall|i: int, k: int| 0 <= i < k < list.len() implies (#[trigger] list[i]).seq <= (#[trigger] list[k]).seq by {
        assert(number(list[i]) <= number(list[k]));
    }
}

/// Whether a passage is the last of a branch: no passage of the branch has a higher number.
pub open spec fn is_last(book: BookView, branch_id: Seq<char>, last: PassageView) -> bool {
    &&& book.passages.contains(last)
    &&& last.branch_id == branch_id
    &&& forall|i: int|
        0 <= i < book.passages.len() && (#[trigger] book.passages[i]).branch_id == branch_id ==> book.passages[i].seq
            <= last.seq
}

/// The last passage of a branch is one that no other of the branch comes after; there is none only
/// where the branch has no passage.
pub proof fn law_last_passage_comes_last(book: BookView, branch_id: Seq<char>)
    ensures
        match repository::last_passage(book, branch_id) {
            Some(last) => is_last(book, branch_id, last),
            None => forall|i: int|
                0 <= i < book.passages.len() ==> (#[trigger] book.passages[i]).branch_id != branch_id,
        },
{
    law_branch_is_listed_in_sequence(book, branch_id);
    let list = repository::passages_of(book, branch_id);
    match repository::last_passage(book, branch_id) {
        Some(last) => {
            assert(list.contains(last));
            assert forall|i: int|
                0 <= i < book.passages.len() && (#[trigger] book.passages[i]).branch_id == branch_id
                    implies book.passages[i].seq <= last.seq by {
                assert(book.passages.contains(book.passages[i]));
                assert(list.contains(book.passages[i]));
                let k = choose|k: int| 0 <= k < list.len() && list[k] == book.passages[i];
                if k < list.len() - 1 {
                    assert(list[k].seq <= list[list.len() - 1].seq);
                }
            }
        },
        None => {
            assert forall|i: int| 0 <= i < book.passages.len() implies (#[trigger] book.passages[i]).branch_id
                != branch_id by {
                if book.passages[i].branch_id == branch_id {
                    assert(book.passages.contains(book.passages[i]));
                    assert(list.contains(book.passages[i]));
                }
            }
        },
    }
}

/// A passage that is put down has what it was given, an identifier that no other has, and a number
/// above the others of its branch; it stands behind them, and nothing else of the book changes.
pub proof fn law_passage_is_put_down_as_given(
    book: BookView,
    id: Seq<char>,
    now: Seq<char>,
    branch_id: Seq<char>,
    role: Seq<char>,
    input_mode: Seq<char>,
    content: Seq<char>,
    thoughts: Option<Seq<char>>,
)
    ensures
        repository::inserted(book, id, now, branch_id, role, input_mode, content, thoughts) matches Ok(done) ==> {
            let made = done.1;
            &&& made == (PassageView {
                id,
                branch_id,
                seq: made.seq,
                role,
                input_mode,
                content,
                thoughts,
                created_at: now,
                edited_at: None,
            })
            &&& done.0 == (BookView { passages: book.passages.push(made), ..book })
            &&& forall|i: int|
                0 <= i < book.passages.len() ==> (#[trigger] book.passages[i]).id != id && (
                book.passages[i].branch_id == branch_id ==> book.passages[i].seq < made.seq)
        },
{
    if let Ok(done) = repository::inserted(book, id, now, branch_id, role, input_mode, content, thoughts) {
        let p = repository::passage_is(id);
        rows::lemma_first_where(book.passages, p);
        assert forall|i: int| 0 <= i < book.passages.len() implies (#[trigger] book.passages[i]).id != id && (
        book.passages[i].branch_id == branch_id ==> book.passages[i].seq < done.1.seq) by {
            if book.passages[i].id == id {
                assert(p(book.passages[i]));
            }
            if book.passages[i].branch_id == branch_id {
                repository::lemma_highest(book.passages, branch_id, i);
            }
        }
    }
}

/// What the player does or says is put down as theirs, without the space around it, and only in
/// words and in one of the two ways.
pub proof fn law_turn_is_put_down_as_the_players(
    book: BookView,
    store: StoreView,
    preferences: PreferencesView,
    id: Seq<char>,
    now: Seq<char>,
    branch_id: Seq<char>,
    input_mode: Seq<char>,
    content: Seq<char>,
)
    ensures
        commands::turn_submitted(book, store, preferences, id, now, branch_id, input_mode, content) matches Ok(done)
            ==> {
            &&& done.0.passages == book.passages.push(done.1)
            &&& done.1.id == id
            &&& done.1.branch_id == branch_id
            &&& done.1.role == "player"@
            &&& done.1.input_mode == input_mode
            &&& input_mode == "do"@ || input_mode == "say"@
            &&& done.1.content == text::trimmed(content)
            &&& text::trimmed(content).len() > 0
            &&& done.1.thoughts is None
            &&& done.1.created_at == now
        },
        commands::story_told(book, id, now, branch_id, content) matches Ok(done) ==> {
            &&& done.0.passages == book.passages.push(done.1)
            &&& done.1.id == id
            &&& done.1.branch_id == branch_id
            &&& done.1.role == "narrator"@
            &&& done.1.input_mode == "story"@
            &&& done.1.content == text::trimmed(content)
            &&& text::trimmed(content).len() > 0
            &&& done.1.thoughts is None
            &&& done.1.created_at == now
        },
{
}

/// Taking back an exchange takes the last passage of the branch, and, where the narrator made it and
/// the player's comes last without it, that too; every other passage stays where it is.
pub proof fn law_erase_takes_the_last_exchange(book: BookView, branch_id: Seq<char>)
    ensures
        ({
            let done = commands::exchange_erased(book, branch_id);
            match repository::last_passage(book, branch_id) {
                None => done.0 == book && done.1.len() == 0,
                Some(last) => {
                    let mid = BookView {
                        passages: book.passages.filter(|p: PassageView| p.id != last.id),
                        ..book
                    };
                    let prev = repository::last_passage(mid, branch_id);
                    if last.role == "narrator"@ && last.input_mode == "generated"@ && prev is Some && prev->0.role
                        == "player"@ {
                        &&& done.1 == seq![last.id, prev->0.id]
                        &&& done.0 == (BookView {
                            passages: mid.passages.filter(|p: PassageView| p.id != prev->0.id),
                            ..book
                        })
                    } else {
                        done.1 == seq![last.id] && done.0 == mid
                    }
                },
            }
        }),
{
    if let Some(last) = repository::last_passage(book, branch_id) {
        assert((|p: PassageView| p.id != last.id) =~= repository::passage_is_not(last.id));
        let mid = repository::without_passage(book, last.id);
        if let Some(prev) = repository::last_passage(mid, branch_id) {
            assert((|p: PassageView| p.id != prev.id) =~= repository::passage_is_not(prev.id));
        }
    }
}

/// The image that a passage shows is the one that was made last of those that it has.
pub proof fn law_passage_shows_its_latest_image(book: BookView, passage_id: Seq<char>)
    ensures
        ({
            let shown = images::images_of(book, passage_id);
            &&& forall|image: PassageImageView|
                #[trigger] shown.contains(image) <==> book.images.contains(image) && image.passage_id == passage_id
            &&& forall|i: int, k: int|
                0 <= i < k < shown.len() ==> !text::precedes(
                    (#[trigger] shown[k]).created_at,
                    (#[trigger] shown[i]).created_at,
                )
        }),
{
    let p = images::shows(passage_id);
    let key = sorting::key_fn::<super::model::PassageImage>();
    let kept = book.images.filter(p);
    let shown = images::images_of(book, passage_id);
    let places = sorting::law_ordered_is_a_rearrangement(kept, key);
    sorting::law_ordered(kept, key);
    assert forall|image: PassageImageView|
        #[trigger] shown.contains(image) <==> book.images.contains(image) && image.passage_id == passage_id by {
        rows::lemma_filter_member(book.images, p, image);
        if shown.contains(image) {
            let m = choose|m: int| 0 <= m < shown.len() && shown[m] == image;
            assert(kept[places[m]] == image);
        }
        if kept.contains(image) {
            let k = choose|k: int| 0 <= k < kept.len() && kept[k] == image;
            assert(places.contains(k));
            let m = choose|m: int| 0 <= m < places.len() && places[m] == k;
            assert(shown[m] == kept[places[m]]);
        }
    }
    assert forall|i: int, k: int| 0 <= i < k < shown.len() implies !text::precedes(
        (#[trigger] shown[k]).created_at,
        (#[trigger] shown[i]).created_at,
    ) by {
        assert(key(shown[k]) == shown[k].created_at);
        assert(key(shown[i]) == shown[i].created_at);
    }
}

/// The narrator is told the last sixty passages of the branch before a number, or all where there
/// are fewer, in their order: whose each is, its words, and, behind them, what its latest image
/// shows. No later passage is left out for an earlier one.
pub proof fn law_history_tells_the_last_passages(book: BookView, branch_id: Seq<char>, before_seq: Option<i64>) -> (all: Seq<
    PassageView,
>)
    ensures
        forall|p: PassageView|
            #[trigger] all.contains(p) <==> book.passages.contains(p) && p.branch_id == branch_id && (before_seq is Some
                ==> p.seq < before_seq->0),
        forall|i: int, k: int| 0 <= i < k < all.len() ==> (#[trigger] all[i]).seq <= (#[trigger] all[k]).seq,
        ({
            let told = history::history_of(book, branch_id, before_seq);
            let n = if all.len() < 60 {
                all.len() as int
            } else {
                60
            };
            &&& told.len() == n
            &&& forall|i: int|
                #![trigger told[i]]
                0 <= i < n ==> {
                    let p = all[all.len() - n + i];
                    let shown = images::images_of(book, p.id);
                    &&& told[i].is_player <==> p.role == "player"@
                    &&& shown.len() == 0 ==> told[i].content == p.content
                    &&& shown.len() > 0 ==> told[i].content == p.content
                        + "\n\n[A scene image was generated here, depicting: "@ + shown.last().prompt + "]"@
                }
        }),
{
    let own = history::told_before(branch_id, before_seq);
    let number = repository::passage_number();
    let kept = book.passages.filter(own);
    let all = sequence::in_sequence(kept, number);
    assert forall|p: PassageView|
        #[trigger] all.contains(p) <==> book.passages.contains(p) && p.branch_id == branch_id && (before_seq is Some
            ==> p.seq < before_seq->0) by {
        rows::lemma_filter_member(book.passages, own, p);
        sequence::lemma_member(kept, number, p);
    }
    sequence::lemma_rises(kept, number);
    assert forall|i: int, k: int| 0 <= i < k < all.len() implies (#[trigger] all[i]).seq <= (#[trigger] all[k]).seq by {
        assert(number(all[i]) <= number(all[k]));
    }
    let n = if all.len() < 60 {
        all.len() as int
    } else {
        60
    };
    let told = history::history_of(book, branch_id, before_seq);
    let ending = history::told_passages(book, branch_id, before_seq);
    assert forall|i: int|
        #![trigger told[i]]
        0 <= i < n implies ({
        let p = all[all.len() - n + i];
        let shown = images::images_of(book, p.id);
        &&& told[i].is_player <==> p.role == "player"@
        &&& shown.len() == 0 ==> told[i].content == p.content
        &&& shown.len() > 0 ==> told[i].content == p.content + "\n\n[A scene image was generated here, depicting: "@
            + shown.last().prompt + "]"@
    }) by {
        assert(ending[i] == all[all.len() - n + i]);
        assert(told[i] == history::turn_of(book)(ending[i]));
    }
    all
}

/// What was told last is said in four lines at most, the newest last, each by who speaks.
pub proof fn law_recent_words_are_the_last_four(told: Seq<HistoryTurnView>)
    ensures
        ({
            let n = if told.len() < 4 {
                told.len() as int
            } else {
                4
            };
            history::recent_words(told) == text::joined(
                Seq::new(
                    n as nat,
                    |i: int|
                        if told[told.len() - n + i].is_player {
                            "Player"@ + ": "@ + told[told.len() - n + i].content
                        } else {
                            "Narrator"@ + ": "@ + told[told.len() - n + i].content
                        },
                ),
                "\n"@,
            )
        }),
{
    let n = if told.len() < 4 {
        told.len() as int
    } else {
        4
    };
    let lines = Seq::new(
        n as nat,
        |i: int|
            if told[told.len() - n + i].is_player {
                "Player"@ + ": "@ + told[told.len() - n + i].content
            } else {
                "Narrator"@ + ": "@ + told[told.len() - n + i].content
            },
    );
    let said = history::ending(told, history::RECENT_TURNS as nat).map_values(history::spoken());
    assert(said =~= lines);
}

/// A passage is told anew only where it is the last of its branch and the narrator's. What the
/// narrator is told then does not have it, and the new passage answers the player where theirs
/// comes last without it.
pub proof fn law_retry_is_told_without_the_passage(
    book: BookView,
    store: StoreView,
    preferences: PreferencesView,
    branch_id: Seq<char>,
    passage_id: Seq<char>,
)
    ensures
        telling::retry_planned(book, store, preferences, branch_id, passage_id) matches Ok(plan) ==> {
            let last = repository::last_passage(book, branch_id);
            let rest = BookView { passages: book.passages.filter(|p: PassageView| p.id != passage_id), ..book };
            let before = repository::last_passage(rest, branch_id);
            &&& last is Some
            &&& last->0.id == passage_id
            &&& last->0.role == "narrator"@
            &&& plan.history == history::history_of(rest, branch_id, None)
            &&& plan.input_mode == (if before is Some && before->0.role == "player"@ {
                "generated"@
            } else {
                "generated_continue"@
            })
        },
        telling::swipe_planned(book, store, preferences, branch_id, passage_id) matches Ok(done) ==> {
            &&& repository::last_passage(book, branch_id) == Some(done.0)
            &&& done.0.id == passage_id
            &&& done.0.role == "narrator"@
            &&& done.1.history == history::history_of(book, branch_id, Some(done.0.seq))
            &&& done.1.input_mode == done.0.input_mode
        },
{
    assert((|p: PassageView| p.id != passage_id) =~= repository::passage_is_not(passage_id));
}

/// A passage that is told anew stands for the old one: the old one is gone, the new one is the
/// narrator's and has what was told, and every other passage stays.
pub proof fn law_replacement_stands_for_the_old(
    book: BookView,
    id: Seq<char>,
    now: Seq<char>,
    branch_id: Seq<char>,
    passage_id: Seq<char>,
    input_mode: Seq<char>,
    visible: Seq<char>,
    thoughts: Option<Seq<char>>,
)
    ensures
        telling::replaced(book, id, now, branch_id, passage_id, input_mode, visible, thoughts) matches Ok(done) ==> {
            &&& done.0 == (BookView {
                passages: book.passages.filter(|p: PassageView| p.id != passage_id).push(done.1),
                ..book
            })
            &&& done.1.id == id
            &&& done.1.branch_id == branch_id
            &&& done.1.role == "narrator"@
            &&& done.1.input_mode == input_mode
            &&& done.1.content == visible
            &&& done.1.thoughts == thoughts
            &&& done.1.created_at == now
        },
{
    assert((|p: PassageView| p.id != passage_id) =~= repository::passage_is_not(passage_id));
}

/// A text model can be used where one is named, its provider is the one that is supported, and a
/// key for it is kept.
pub proof fn law_usable_model_has_its_key(preferences: PreferencesView)
    ensures
        ({
            let chosen = settings::text_model(preferences);
            let key = settings::api_key_of(preferences, chosen.provider);
            &&& commands::usable_model(preferences) is Ok <==> text::trimmed(chosen.model).len() > 0 && key is Some
                && chosen.provider == "openrouter"@
            &&& commands::usable_model(preferences) matches Ok(found) ==> found.0 == chosen.model && Some(found.1)
                == key
        }),
{
}

/// The narrator is told what the player says in quotes, and what they do without.
pub proof fn law_prompt_tells_saying_from_doing(content: Seq<char>)
    ensures
        commands::prompt_of("say"@, content) == "[The player says] \""@ + content + "\""@,
        commands::prompt_of("do"@, content) == "[The player does] "@ + content,
{
    reveal_strlit("say");
    reveal_strlit("do");
    assert("say"@.len() != "do"@.len());
}

/// The characters that a picture shows are those that its hint names, in whatever case; without a
/// hint, or where it names none, those that the passage names.
pub proof fn law_picture_shows_who_is_named(
    characters: Seq<(Seq<char>, Seq<char>)>,
    passage: Seq<char>,
    hint: Option<Seq<char>>,
)
    ensures
        ({
            let by_hint = characters.filter(
                |c: (Seq<char>, Seq<char>)|
                    hint is Some && text::occurs(text::lowercased(hint->0), text::lowercased(c.0)),
            );
            let by_passage = characters.filter(
                |c: (Seq<char>, Seq<char>)| text::occurs(text::lowercased(passage), text::lowercased(c.0)),
            );
            images::in_picture(characters, passage, hint) == (if hint is Some && by_hint.len() > 0 {
                by_hint
            } else {
                by_passage
            })
        }),
{
    if let Some(words) = hint {
        assert((|c: (Seq<char>, Seq<char>)|
            hint is Some && text::occurs(text::lowercased(hint->0), text::lowercased(c.0))) =~= images::named_in(words));
    }
    assert((|c: (Seq<char>, Seq<char>)| text::occurs(text::lowercased(passage), text::lowercased(c.0)))
        =~= images::named_in(passage));
}

/// An image that is kept belongs to the passage that it was made for, with its prompt and its path,
/// and stands behind the others.
pub proof fn law_image_is_kept_with_its_passage(
    book: BookView,
    id: Seq<char>,
    now: Seq<char>,
    passage_id: Seq<char>,
    path: Seq<char>,
    prompt: Seq<char>,
)
    ensures
        images::image_kept(book, id, now, passage_id, path, prompt) matches Ok(done) ==> {
            &&& done.0 == (BookView { images: book.images.push(done.1), ..book })
            &&& done.1.id == id
            &&& done.1.passage_id == passage_id
            &&& done.1.path == path
            &&& done.1.prompt == prompt
            &&& done.1.provider == "openrouter"@
            &&& done.1.seed is None
            &&& done.1.created_at == now
            &&& forall|i: int| 0 <= i < book.images.len() ==> (#[trigger] book.images[i]).id != id
        },
{
    assert forall|i: int| 0 <= i < book.images.len() && (#[trigger] book.images[i]).id == id implies rows::any_where(
        book.images,
        images::image_is(id),
    ) by {
        assert(images::image_is(id)(book.images[i]));
    }
}

} // verus!
