//! What a story has of what the player and the narrator said.

use vstd::prelude::*;

use super::commands;
use super::commands::{ActionPlanView, EndingView, RetryPlanView};
use super::model;
use super::passage;
use super::passage::Telling;
use super::repository as messages;
use super::retry;
use super::taken_back;
use crate::entities::attributes::{Clamped, Reading};
use crate::entities::model::RegistryView;
use crate::entities::registry;
use crate::json;
use crate::ledger::model::EntryView;
use crate::ledger::repository as ledger;
use crate::narrator::catalog::NarratorToolSettings;
use crate::narrator::commit;
use crate::narrator::commit::Scope;
use crate::narrator::staging::StagingView;
use crate::images::model::ImageRequestView;
use crate::settings::ImageModelView;
use crate::store::StoreView;
use crate::{rows, text};

verus! {

/// Whether an entry is a message that was put down: seen by the player, by who said it, with its
/// words, the way in which it was put in, and what was thought, where there was anything.
pub open spec fn says(
    entry: EntryView,
    story_id: Seq<char>,
    is_player: bool,
    input_mode: Seq<char>,
    content: Seq<char>,
    thoughts: Option<Seq<char>>,
    turn_id: Option<Seq<char>>,
) -> bool {
    &&& entry.story_id == story_id
    &&& entry.kind == (if is_player {
        "player_message"@
    } else {
        "narration"@
    })
    &&& entry.visibility == "visible"@
    &&& entry.content == Some(content)
    &&& entry.target_entry_id is None
    &&& entry.turn_id == turn_id
    &&& json::text_field(entry.payload, "input_mode"@) == Some(input_mode)
    &&& json::text_field(entry.payload, "thoughts"@) == (if thoughts is Some && text::trimmed(thoughts->0).len() > 0 {
        Some(text::trimmed(thoughts->0))
    } else {
        None
    })
}

/// A message is put down as who said it said it.
pub proof fn law_message_is_put_down_as_said(
    store: StoreView,
    id: Seq<char>,
    now: Seq<char>,
    story_id: Seq<char>,
    role: Seq<char>,
    input_mode: Seq<char>,
    content: Seq<char>,
    thoughts: Option<Seq<char>>,
    turn_id: Option<Seq<char>>,
)
    ensures
        says(
            ledger::drafted_entry(
                store,
                id,
                now,
                messages::message_draft(story_id, role, input_mode, content, thoughts, turn_id),
            ),
            story_id,
            role == "player"@,
            input_mode,
            content,
            thoughts,
            turn_id,
        ),
{
    reveal_strlit("input_mode");
    reveal_strlit("thoughts");
    assert("input_mode"@.len() != "thoughts"@.len());
    reveal_with_fuel(rows::first_where, 3);
}

/// What the player reads of a message is its words and who said it how; what the narrator thought is
/// kept from them.
pub proof fn law_player_reads_words_and_no_thoughts(entry: EntryView)
    ensures
        ({
            let seen = model::story_entry_of(entry);
            &&& seen.id == entry.id
            &&& seen.story_id == entry.story_id
            &&& seen.seq == entry.seq
            &&& entry.content is Some ==> seen.content == entry.content->0
            &&& entry.content is None ==> seen.content.len() == 0
            &&& seen.role == (if entry.kind == "player_message"@ {
                "player"@
            } else {
                "narrator"@
            })
            &&& json::text_field(entry.payload, "input_mode"@) is Some ==> Some(seen.input_mode) == json::text_field(
                entry.payload,
                "input_mode"@,
            )
            &&& json::text_field(entry.payload, "input_mode"@) is None ==> seen.input_mode == "generated"@
            &&& seen.thoughts is None
            &&& seen.created_at == entry.created_at
        }),
{
}

/// A passage that was told stands behind the others as the narrator's, with its words, and what the
/// turn changed is written down about it, in the story and the turn of the telling.
pub proof fn law_telling_is_put_down<F: Fn(Reading) -> Clamped>(
    clamp: &F,
    telling: Telling,
    staging: Option<StagingView>,
    before: StoreView,
    mid: StoreView,
    after: StoreView,
)
    requires
        passage::told(clamp, telling, staging, before, mid, after, None),
    ensures
        mid.entries == before.entries.push(mid.entries.last()),
        says(
            mid.entries.last(),
            telling.story_id,
            false,
            telling.input_mode,
            telling.visible,
            telling.thoughts,
            Some(telling.turn_id),
        ),
        mid == (StoreView { entries: mid.entries, stories: mid.stories, ..before }),
        staging is None ==> after == mid,
        staging is Some ==> commit::committed(
            clamp,
            Scope {
                story_id: staging->0.story_id,
                passage_id: mid.entries.last().id,
                turn_id: telling.turn_id,
            },
            staging->0,
            mid,
            after,
            None,
        ),
{
    reveal_strlit("player");
    reveal_strlit("narrator");
    assert("player"@.len() != "narrator"@.len());
    let entry = mid.entries.last();
    law_message_is_put_down_as_said(
        before,
        entry.id,
        entry.created_at,
        telling.story_id,
        "narrator"@,
        telling.input_mode,
        telling.visible,
        telling.thoughts,
        Some(telling.turn_id),
    );
}

/// What the player does is put down as theirs, without the space around it, behind the others. Only
/// going on where what they did last still waits for an answer, and no image was made for it, puts
/// down nothing and gives that. Without words they can go on or look, and nothing else.
pub proof fn law_action_is_put_down_once(
    store: StoreView,
    entry_id: Seq<char>,
    now: Seq<char>,
    story_id: Seq<char>,
    mode: Seq<char>,
    content: Seq<char>,
    turn_id: Option<Seq<char>>,
)
    ensures
        ({
            let done = commands::submitted(store, entry_id, now, story_id, mode, content, turn_id);
            let said = messages::messages_of(store, story_id);
            let waits = mode == "continue"@ && said.len() > 0 && said.last().kind == "player_message"@ && forall|i: int|
                0 <= i < store.entries.len() ==> !((#[trigger] store.entries[i]).kind == "image_generated"@
                    && store.entries[i].target_entry_id == Some(said.last().id));
            &&& waits ==> done.0 == store
            &&& waits && done.1 is Ok ==> done.1->Ok_0.id == said.last().id
            &&& text::trimmed(content).len() == 0 && mode != "continue"@ && mode != "see"@ ==> done.1 is Err && done.0
                == store
            &&& !waits && done.1 is Ok ==> {
                &&& done.0.entries == store.entries.push(done.0.entries.last())
                &&& done.0.entries.last().id == entry_id
                &&& says(
                    done.0.entries.last(),
                    story_id,
                    true,
                    mode,
                    text::trimmed(content),
                    None,
                    turn_id,
                )
                &&& done.0 == (StoreView { entries: done.0.entries, stories: done.0.stories, ..store })
                &&& done.1->Ok_0.id == entry_id
            }
        }),
{
    let done = commands::submitted(store, entry_id, now, story_id, mode, content, turn_id);
    let said = messages::messages_of(store, story_id);
    let last = said.last();
    reveal_strlit("player");
    reveal_strlit("narrator");
    assert("player"@.len() != "narrator"@.len());
    let p = commands::illustrates(last.id);
    let none_shown = forall|i: int|
        0 <= i < store.entries.len() ==> !((#[trigger] store.entries[i]).kind == "image_generated"@
            && store.entries[i].target_entry_id == Some(last.id));
    assert(none_shown == !rows::any_where(store.entries, p)) by {
        if rows::any_where(store.entries, p) {
            let i = choose|i: int| 0 <= i < store.entries.len() && p(#[trigger] store.entries[i]);
            assert(store.entries[i].kind == "image_generated"@);
        }
        if !none_shown {
            let i = choose|i: int|
                0 <= i < store.entries.len() && (#[trigger] store.entries[i]).kind == "image_generated"@
                    && store.entries[i].target_entry_id == Some(last.id);
            assert(p(store.entries[i]));
        }
    }
    if done.1 is Ok {
        lemma_found_by_id(done.0.entries, entry_id);
        lemma_found_by_id(done.0.entries, last.id);
    }
    law_message_is_put_down_as_said(
        store,
        entry_id,
        now,
        story_id,
        "player"@,
        mode,
        text::trimmed(content),
        None,
        turn_id,
    );
}

proof fn lemma_found_by_id(entries: Seq<EntryView>, id: Seq<char>)
    ensures
        ledger::active_entry_of(entries, id) is Some ==> ledger::active_entry_of(entries, id)->0.id == id,
{
    if let Some(base) = ledger::entry_with_id(entries, id) {
        let messages = crate::ledger::reducer::active_messages(ledger::story_entries(entries, base.story_id));
        rows::lemma_first_where(messages, ledger::entry_is(id));
    }
}

/// The scene that is looked at is what the narrator told last, as it reads now.
pub proof fn law_scene_is_what_was_told_last(store: StoreView, story_id: Seq<char>)
    ensures
        ({
            let said = messages::messages_of(store, story_id);
            match commands::last_scene(store, story_id) {
                Some(scene) => exists|i: int|
                    0 <= i < said.len() && (#[trigger] said[i]).kind == "narration"@ && said[i].id == scene.0 && (
                    said[i].content is Some ==> said[i].content->0 == scene.1) && forall|k: int|
                        i < k < said.len() ==> (#[trigger] said[k]).kind != "narration"@,
                None => forall|i: int| 0 <= i < said.len() ==> (#[trigger] said[i]).kind != "narration"@,
            }
        }),
{
    let said = messages::messages_of(store, story_id);
    let p = commands::is_narration();
    rows::lemma_last_where_places(said, p);
    match rows::last_where(said, p) {
        Some(entry) => {
            let i = choose|j: int|
                0 <= j < said.len() && #[trigger] said[j] == entry && p(said[j]) && forall|l: int|
                    j < l < said.len() ==> !p(#[trigger] said[l]);
            assert forall|k: int| i < k < said.len() implies (#[trigger] said[k]).kind != "narration"@ by {
                assert(!p(said[k]));
            }
            assert(said[i].kind == "narration"@);
        },
        None => {
            assert forall|i: int| 0 <= i < said.len() implies (#[trigger] said[i]).kind != "narration"@ by {
                assert(!p(said[i]));
            }
        },
    }
}

/// An image is made in a turn only where images are switched on, there is a key for them, and the
/// narrator may ask for them. Looking takes such a turn and a scene, and leaves the world alone; any
/// other turn may use the tools of the world that are switched on.
pub proof fn law_looking_takes_a_scene_and_images(
    store: StoreView,
    story_id: Seq<char>,
    mode: Seq<char>,
    tools: NarratorToolSettings,
    images: ImageModelView,
    reasoning_effort: Seq<char>,
)
    ensures
        ({
            let can = images.enabled && images.has_api_key && tools.illustrate_scene;
            let scene = commands::last_scene(store, story_id);
            let plan = commands::action_planned(store, story_id, mode, tools, images, reasoning_effort);
            &&& plan is Ok <==> mode != "see"@ || (can && scene is Some)
            &&& plan matches Ok(made) ==> {
                &&& made.is_see == (mode == "see"@)
                &&& made.image_enabled == can
                &&& made.with_world == (mode != "see"@ && (tools.get_entities || tools.create_entity
                    || tools.update_entity || tools.adjust_entity_attribute || tools.roll_check))
                &&& made.scene == scene
                &&& made.reasoning_effort == (if reasoning_effort.len() > 0 {
                    Some(reasoning_effort)
                } else {
                    None
                })
            }
        }),
{
}

/// A turn that looks ends in the first image that was asked for, of its scene; any other ends in
/// what was told with every image that was asked for, or in nothing where nothing was told.
pub proof fn law_turn_ends_in_what_it_was_for(plan: ActionPlanView, visible: Seq<char>, requests: Seq<ImageRequestView>)
    ensures
        plan.is_see && requests.len() > 0 && plan.scene is Some ==> commands::ending_of(plan, visible, requests)
            == Ok::<EndingView, crate::error::ErrorView>(
            EndingView::Illustrate {
                scene_id: (plan.scene->0).0,
                scene: (plan.scene->0).1,
                request: requests[0],
            },
        ),
        plan.is_see && (requests.len() == 0 || plan.scene is None) ==> commands::ending_of(plan, visible, requests) is Err,
        !plan.is_see && visible.len() > 0 ==> commands::ending_of(plan, visible, requests) == Ok::<
            EndingView,
            crate::error::ErrorView,
        >(EndingView::Tell { requests }),
        !plan.is_see && visible.len() == 0 ==> commands::ending_of(plan, visible, requests) == Ok::<
            EndingView,
            crate::error::ErrorView,
        >(EndingView::Nothing),
{
}

/// Only the last message of a story is told anew. What the player said is answered again, with the
/// story up to it; what the narrator told is replaced.
pub proof fn law_retry_answers_or_replaces(store: StoreView, story_id: Seq<char>, entry_id: Seq<char>)
    ensures
        commands::retry_planned(store, story_id, entry_id) matches Ok(plan) ==> {
            let said = messages::messages_of(store, story_id);
            &&& said.len() > 0
            &&& said.last().id == entry_id
            &&& match plan {
                RetryPlanView::Answer { action, mode, before_seq } => {
                    &&& said.last().kind == "player_message"@
                    &&& action.id == entry_id
                    &&& json::text_field(said.last().payload, "input_mode"@) is Some ==> Some(mode)
                        == json::text_field(said.last().payload, "input_mode"@)
                    &&& before_seq is Some ==> before_seq->0 == said.last().seq + 1
                    &&& before_seq is None ==> said.last().seq == i64::MAX
                },
                RetryPlanView::Replace { target_id } => said.last().kind != "player_message"@ && target_id == entry_id,
            }
        },
{
    reveal_strlit("player");
    reveal_strlit("narrator");
    assert("player"@.len() != "narrator"@.len());
    lemma_found_by_id(store.entries, entry_id);
}

/// What a reply is told anew on is the story without the reply and what came of it, beside what the
/// story was when it began, so that a story that has changed meanwhile is seen to have.
pub proof fn law_retry_is_told_without_the_reply(
    store: StoreView,
    story_id: Seq<char>,
    entry_id: Seq<char>,
    now: Seq<char>,
)
    ensures
        retry::snapshot_of(store, story_id, entry_id, now) matches Ok(snapshot) ==> {
            let said = messages::messages_of(store, story_id);
            &&& said.len() > 0
            &&& said.last().id == entry_id
            &&& said.last().kind != "player_message"@
            &&& taken_back::left_without(store, snapshot.scratch, story_id, entry_id)
            &&& snapshot.original_entries == ledger::story_entries(store.entries, story_id)
            &&& exists|i: int|
                0 <= i < store.stories.len() && (#[trigger] store.stories[i]).id == story_id
                    && snapshot.original_updated_at == store.stories[i].updated_at && snapshot.original_settings_json
                    == store.stories[i].settings_json
            &&& snapshot.original_registry_aliases.len() == store.registry.len()
            &&& forall|i: int|
                #![trigger snapshot.original_registry_aliases[i]]
                0 <= i < store.registry.len() ==> snapshot.original_registry_aliases[i] == (
                    store.registry[i].id,
                    store.registry[i].aliases_json,
                )
        },
{
    reveal_strlit("player");
    reveal_strlit("narrator");
    assert("player"@.len() != "narrator"@.len());
    if let Ok(snapshot) = retry::snapshot_of(store, story_id, entry_id, now) {
        taken_back::law_message_goes_with_its_images(store, story_id, entry_id, Seq::empty(), now);
        let i = rows::lemma_first_where(store.stories, crate::stories::story_is(story_id));
        assert(store.stories[i].id == story_id);
    }
}

/// Joining the names of an attribute keeps those that it has in front and adds each further one that
/// it does not have, whatever the case of its ASCII letters, once.
pub proof fn law_joined_names_lose_none(have: Seq<Seq<char>>, more: Seq<Seq<char>>)
    ensures
        ({
            let all = retry::combined(have, more);
            &&& all.len() >= have.len()
            &&& all.take(have.len() as int) == have
            &&& forall|k: int|
                0 <= k < more.len() ==> exists|i: int|
                    0 <= i < all.len() && text::same_ignoring_case(#[trigger] all[i], #[trigger] more[k])
            &&& forall|i: int| have.len() <= i < all.len() ==> more.contains(#[trigger] all[i])
        }),
    decreases more.len(),
{
    let all = retry::combined(have, more);
    if more.len() == 0 {
        assert(all.take(have.len() as int) =~= have);
    } else {
        let rest = more.drop_last();
        law_joined_names_lose_none(have, rest);
        let front = retry::combined(have, rest);
        assert(all.take(have.len() as int) =~= front.take(have.len() as int));
        assert forall|k: int| 0 <= k < more.len() implies exists|i: int|
            0 <= i < all.len() && text::same_ignoring_case(#[trigger] all[i], #[trigger] more[k]) by {
            if k < rest.len() {
                assert(rest[k] == more[k]);
                let i = choose|i: int|
                    0 <= i < front.len() && text::same_ignoring_case(#[trigger] front[i], rest[k]);
                assert(all[i] == front[i]);
                assert(text::same_ignoring_case(all[i], more[k]));
            } else if registry::holds_name(front, more.last()) {
                let i = choose|i: int|
                    0 <= i < front.len() && text::same_ignoring_case(#[trigger] front[i], more.last());
                assert(text::same_ignoring_case(all[i], more[k]));
            } else {
                assert(all[front.len() as int] == more[k]);
                assert(text::same_ignoring_case(all[front.len() as int], more[k]));
            }
        }
        assert forall|i: int| have.len() <= i < all.len() implies more.contains(#[trigger] all[i]) by {
            if i < front.len() {
                assert(all[i] == front[i]);
                let k = choose|k: int| 0 <= k < rest.len() && rest[k] == front[i];
                assert(more[k] == all[i]);
            } else {
                assert(more[more.len() - 1] == all[i]);
            }
        }
    }
}

/// Taking over the attributes of a retelling loses none and renames none: each stands where it
/// stood, with at most more aliases, and new ones come behind.
pub proof fn law_reconciling_loses_no_attribute(
    live: Seq<RegistryView>,
    original: Seq<(Seq<char>, Seq<char>)>,
    scratch: Seq<RegistryView>,
)
    ensures
        retry::reconciled(live, original, scratch) matches Ok(after) ==> {
            &&& after.len() >= live.len()
            &&& forall|i: int|
                #![trigger after[i]]
                0 <= i < live.len() ==> after[i] == (RegistryView {
                    aliases_json: after[i].aliases_json,
                    ..live[i]
                })
            &&& forall|i: int|
                live.len() <= i < after.len() ==> exists|k: int|
                    0 <= k < scratch.len() && (#[trigger] after[i]).id == (#[trigger] scratch[k]).id
        },
    decreases scratch.len(),
{
    if scratch.len() > 0 {
        let rest = scratch.drop_last();
        law_reconciling_loses_no_attribute(live, original, rest);
        if let Ok(after) = retry::reconciled(live, original, scratch) {
            let front = retry::reconciled(live, original, rest)->Ok_0;
            let row = scratch.last();
            let p = registry::attribute_id_is(row.id);
            let k = rows::lemma_first_where(front, p);
            if rows::first_where(front, p) is Some {
                let have = json::list_reading(front[k].aliases_json)->Ok_0;
                let more = json::list_reading(row.aliases_json)->Ok_0;
                rows::lemma_upserted_hit(
                    front,
                    p,
                    RegistryView { aliases_json: json::printed_list(retry::combined(have, more)), ..front[k] },
                    k,
                );
            }
            assert forall|i: int| live.len() <= i < after.len() implies exists|k: int|
                0 <= k < scratch.len() && (#[trigger] after[i]).id == (#[trigger] scratch[k]).id by {
                if i < front.len() {
                    assert(after[i].id == front[i].id);
                    let m = choose|m: int| 0 <= m < rest.len() && front[i].id == (#[trigger] rest[m]).id;
                    assert(scratch[m].id == after[i].id);
                } else {
                    assert(scratch[scratch.len() - 1].id == after[i].id);
                }
            }
        }
    }
}

} // verus!
