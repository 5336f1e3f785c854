//! What a turn of the player comes to.

use vstd::prelude::*;

use super::repository as messages;
use super::retry;
use super::rewind::CONTENT_EMPTY;
use crate::error::{AppError, AppResult, ErrorView};
use crate::images::model::{ImageRequest, ImageRequestView};
use crate::ledger::kind;
use crate::ledger::model as ledger_model;
use crate::ledger::model::{EntryView, LedgerEntry, VISIBLE};
use crate::ledger::repository as ledger;
use crate::ledger::repository::{Draft, DraftView};
use crate::json;
use crate::json::Json;
use crate::narrator::catalog::NarratorToolSettings;
use crate::prompts;
use crate::settings::{ImageModelSettings, ImageModelView};
use crate::stamp;
use crate::store::{Store, StoreView};
use crate::{rows, text};

verus! {

/// The message where an image is asked for and none can be made.
pub const NO_IMAGES: &'static str = "image generation is disabled or has no API key";

/// The message where an image is asked for and nothing was told.
pub const NO_SCENE: &'static str = "there is no narrated scene to illustrate";

/// The message where the narrator asks for no image though that is all it was asked for.
pub const NO_REQUEST: &'static str = "the narrator did not request an illustration";

/// The message where there is nothing that an image could show.
pub const NOTHING_TO_ILLUSTRATE: &'static str = "no narration to illustrate";

/// A turn that was begun: what the player did, and the stream of what is told.
#[derive(Debug, PartialEq)]
pub struct SubmitTurnResult {
    pub entry: LedgerEntry,
    pub stream_id: String,
}

/// A message that is told anew, and the stream of what is told.
#[derive(Debug, PartialEq)]
pub struct RetryResult {
    pub entry_id: String,
    pub stream_id: String,
}

/// The tools that have a scene drawn.
pub fn narrator_image_tools(enabled: bool) -> (r: Vec<&'static str>)
    ensures
        r.deep_view() == (if enabled {
            seq![prompts::ILLUSTRATE_SCENE_TOOL_NAME@]
        } else {
            Seq::empty()
        }),
{
    if enabled {
        let r: Vec<&'static str> = vec![prompts::ILLUSTRATE_SCENE_TOOL_NAME];
        assert(r.deep_view() =~= seq![prompts::ILLUSTRATE_SCENE_TOOL_NAME@]);
        r
    } else {
        let r: Vec<&'static str> = Vec::new();
        assert(r.deep_view() =~= Seq::empty());
        r
    }
}

/// The condition of telling of an image that was made for an entry.
pub open spec fn illustrates(entry_id: Seq<char>) -> spec_fn(EntryView) -> bool {
    |e: EntryView| e.target_entry_id == Some(entry_id) && e.kind == kind::IMAGE_GENERATED@
}

/// What the player did last and has not been answered.
pub open spec fn open_action(store: StoreView, story_id: Seq<char>) -> Option<EntryView> {
    match messages::last_message(store, story_id) {
        Some(last) => if ledger_model::role_of(last) == "player"@ && !rows::any_where(
            store.entries,
            illustrates(last.id),
        ) {
            Some(last)
        } else {
            None
        },
        None => None,
    }
}

/// Why the player cannot act in this way.
pub open spec fn turn_refusal(mode: Seq<char>, content: Seq<char>) -> Option<ErrorView> {
    if !prompts::turn_modes().contains(mode) {
        Some(ErrorView::Invalid("invalid turn mode: "@ + mode))
    } else if mode != "continue"@ && mode != "see"@ && text::blank(content) {
        Some(ErrorView::Invalid(CONTENT_EMPTY@))
    } else {
        None
    }
}

/// The refusal where a message is not there.
pub open spec fn missing_message(store: StoreView, entry_id: Seq<char>) -> ErrorView {
    ledger::no_active_entry(store.entries, entry_id)
}

/// What the player did, put down.
pub open spec fn action_draft(story_id: Seq<char>, mode: Seq<char>, content: Seq<char>, turn_id: Option<Seq<char>>) -> DraftView {
    messages::message_draft(story_id, "player"@, mode, text::trimmed(content), None, turn_id)
}

/// The tables after the player acted, and the message of it. Going on after something that was
/// not answered puts down nothing new.
pub open spec fn submitted(
    store: StoreView,
    entry_id: Seq<char>,
    now: Seq<char>,
    story_id: Seq<char>,
    mode: Seq<char>,
    content: Seq<char>,
    turn_id: Option<Seq<char>>,
) -> (StoreView, Result<EntryView, ErrorView>) {
    match turn_refusal(mode, content) {
        Some(e) => (store, Err(e)),
        None => {
            let draft = action_draft(story_id, mode, content, turn_id);
            let open = if mode == "continue"@ {
                open_action(store, story_id)
            } else {
                None
            };
            match open {
                Some(action) => (store, message_or_missing(store, action.id)),
                None => match ledger::append_refusal(store, entry_id, draft) {
                    Some(e) => (store, Err(e)),
                    None => {
                        let after = ledger::appended(store, ledger::drafted_entry(store, entry_id, now, draft));
                        (after, message_or_missing(after, entry_id))
                    },
                },
            }
        },
    }
}

/// A message as it reads now.
pub open spec fn message_or_missing(store: StoreView, entry_id: Seq<char>) -> Result<EntryView, ErrorView> {
    match ledger::active_entry_of(store.entries, entry_id) {
        Some(entry) => Ok(entry),
        None => Err(missing_message(store, entry_id)),
    }
}

fn is_illustrated(entries: &Vec<LedgerEntry>, entry_id: &str) -> (r: bool)
    ensures
        r == rows::any_where(entries.deep_view(), illustrates(entry_id@)),
{
    let ghost all = entries.deep_view();
    let ghost p = illustrates(entry_id@);
    let mut i: usize = 0;
    while i < entries.len()
        invariant
            0 <= i <= entries@.len(),
            all == entries.deep_view(),
            p == illustrates(entry_id@),
            forall|k: int| 0 <= k < i ==> !p(#[trigger] all[k]),
        decreases entries@.len() - i,
    {
        let entry = &entries[i];
        assert(all[i as int] == entry@);
        if text::same_text(entry.kind.as_str(), kind::IMAGE_GENERATED) {
            if let Some(target) = &entry.target_entry_id {
                if text::same_text(target.as_str(), entry_id) {
                    assert(p(all[i as int]));
                    return true;
                }
            }
        }
        i += 1;
    }
    false
}

fn find_open_action(store: &Store, story_id: &str) -> (r: Option<LedgerEntry>)
    ensures
        r.deep_view() == open_action(store@, story_id@),
{
    match messages::get_last_entry(store, story_id) {
        Some(last) => if text::same_text(last.role(), "player") && !is_illustrated(
            &store.entries,
            last.id.as_str(),
        ) {
            Some(last)
        } else {
            None
        },
        None => None,
    }
}

/// What the player does is put down, unless it is to go on after something that was not answered.
pub fn submit_turn_at(
    store: &mut Store,
    entry_id: &str,
    now: &str,
    story_id: &str,
    mode: &str,
    content: &str,
    turn_id: Option<&str>,
) -> (r: AppResult<LedgerEntry>)
    ensures
        ({
            let done = submitted(
                old(store)@,
                entry_id@,
                now@,
                story_id@,
                mode@,
                content@,
                turn_id.deep_view(),
            );
            &&& final(store)@ == done.0
            &&& match done.1 {
                Ok(entry) => r is Ok && r->Ok_0@ == entry,
                Err(e) => r is Err && r->Err_0@ == e,
            }
        }),
{
    if !prompts::is_turn_mode(mode) {
        return Err(AppError::Invalid(text::concat2("invalid turn mode: ", mode)));
    }
    let trimmed = text::trim(content);
    if !text::same_text(mode, "continue") && !text::same_text(mode, "see") && trimmed.as_str().is_empty() {
        return Err(AppError::Invalid(CONTENT_EMPTY.to_string()));
    }
    if text::same_text(mode, "continue") {
        if let Some(action) = find_open_action(store, story_id) {
            return ledger::active_entry(store, action.id.as_str());
        }
    }
    let payload = Json::Object(vec![json::pair("input_mode", json::of_text(mode))]);
    let draft = Draft {
        story_id,
        kind: kind::PLAYER_MESSAGE,
        visibility: VISIBLE,
        content: Some(trimmed.as_str()),
        payload: &payload,
        target_entry_id: None,
        turn_id,
    };
    proof {
        let expected = action_draft(story_id@, mode@, content@, turn_id.deep_view());
        assert(payload@->Object_0 =~= expected.payload->Object_0);
        assert(draft@ == expected);
    }
    match ledger::append_entry_at(store, entry_id, now, &draft) {
        Ok(_) => ledger::active_entry(store, entry_id),
        Err(e) => Err(e),
    }
}

/// Whether a turn was begun as it should.
pub open spec fn turn_begun(
    before: StoreView,
    after: StoreView,
    entry_id: Seq<char>,
    now: Seq<char>,
    story_id: Seq<char>,
    mode: Seq<char>,
    content: Seq<char>,
    turn_id: Option<Seq<char>>,
    r: AppResult<SubmitTurnResult>,
) -> bool {
    let done = submitted(before, entry_id, now, story_id, mode, content, turn_id);
    &&& after == done.0
    &&& match done.1 {
        Ok(entry) => r is Ok && r->Ok_0.entry@ == entry && stamp::fresh_like(r->Ok_0.stream_id@),
        Err(e) => r is Err && r->Err_0@ == e,
    }
}

/// Begins a turn: what the player does is put down with a new identifier at the present time,
/// unless it is to go on after something that was not answered.
pub fn submit_turn(store: &mut Store, story_id: &str, mode: &str, content: &str, turn_id: Option<&str>) -> (r: AppResult<
    SubmitTurnResult,
>)
    ensures
        exists|entry_id: Seq<char>, now: Seq<char>|
            stamp::fresh_like(entry_id) && #[trigger] turn_begun(
                old(store)@,
                final(store)@,
                entry_id,
                now,
                story_id@,
                mode@,
                content@,
                turn_id.deep_view(),
                r,
            ),
{
    let entry_id = stamp::fresh_id();
    let now = stamp::now();
    let ghost before = store@;
    let action = submit_turn_at(store, entry_id.as_str(), now.as_str(), story_id, mode, content, turn_id);
    let r = match action {
        Ok(entry) => Ok(SubmitTurnResult { entry, stream_id: stamp::fresh_id() }),
        Err(e) => Err(e),
    };
    assert(turn_begun(
        before,
        store@,
        entry_id@,
        now@,
        story_id@,
        mode@,
        content@,
        turn_id.deep_view(),
        r,
    ));
    r
}

/// How the answer to an action is made.
#[derive(Debug, PartialEq)]
pub struct ActionPlan {
    /// The player only wants to see the scene.
    pub is_see: bool,
    pub image_enabled: bool,
    /// The narrator may look at the world of the story, and change it.
    pub with_world: bool,
    /// What the narrator told last: its identifier and what it says.
    pub scene: Option<(String, String)>,
    pub reasoning_effort: Option<String>,
}

/// What an `ActionPlan` stands for.
#[verifier::ext_equal]
pub struct ActionPlanView {
    pub is_see: bool,
    pub image_enabled: bool,
    pub with_world: bool,
    pub scene: Option<(Seq<char>, Seq<char>)>,
    pub reasoning_effort: Option<Seq<char>>,
}

impl View for ActionPlan {
    type V = ActionPlanView;

    open spec fn view(&self) -> ActionPlanView {
        ActionPlanView {
            is_see: self.is_see,
            image_enabled: self.image_enabled,
            with_world: self.with_world,
            scene: self.scene.deep_view(),
            reasoning_effort: self.reasoning_effort.deep_view(),
        }
    }
}

/// The condition of being told by the narrator.
pub open spec fn is_narration() -> spec_fn(EntryView) -> bool {
    |e: EntryView| e.kind == kind::NARRATION@
}

/// What the narrator told last.
pub open spec fn last_scene(store: StoreView, story_id: Seq<char>) -> Option<(Seq<char>, Seq<char>)> {
    match rows::last_where(messages::messages_of(store, story_id), is_narration()) {
        Some(entry) => Some(
            (
                entry.id,
                match entry.content {
                    Some(content) => content,
                    None => Seq::empty(),
                },
            ),
        ),
        None => None,
    }
}

/// Whether the narrator may use a tool that looks at the world of the story or changes it.
pub open spec fn uses_world(tools: NarratorToolSettings) -> bool {
    tools.get_entities || tools.create_entity || tools.update_entity || tools.adjust_entity_attribute || tools.roll_check
}

/// How the answer to an action is made, or why there is none.
pub open spec fn action_planned(
    store: StoreView,
    story_id: Seq<char>,
    mode: Seq<char>,
    tools: NarratorToolSettings,
    images: ImageModelView,
    reasoning_effort: Seq<char>,
) -> Result<ActionPlanView, ErrorView> {
    let is_see = mode == "see"@;
    let image_enabled = images.enabled && images.has_api_key && tools.illustrate_scene;
    let scene = last_scene(store, story_id);
    if is_see && !image_enabled {
        Err(ErrorView::Invalid(NO_IMAGES@))
    } else if is_see && scene is None {
        Err(ErrorView::Invalid(NO_SCENE@))
    } else {
        Ok(
            ActionPlanView {
                is_see,
                image_enabled,
                with_world: !is_see && uses_world(tools),
                scene,
                reasoning_effort: if reasoning_effort.len() == 0 {
                    None
                } else {
                    Some(reasoning_effort)
                },
            },
        )
    }
}

fn find_scene(store: &Store, story_id: &str) -> (r: Option<(String, String)>)
    ensures
        r.deep_view() == last_scene(store@, story_id@),
{
    let raw = ledger::list_logical_entries(store, story_id);
    let active = crate::ledger::reducer::active_visible_entries(&raw);
    let ghost all = active.deep_view();
    let ghost p = is_narration();
    let mut i: usize = active.len();
    while i > 0
        invariant
            0 <= i <= active@.len(),
            all == active.deep_view(),
            all == messages::messages_of(store@, story_id@),
            p == is_narration(),
            forall|k: int| i <= k < all.len() ==> !p(#[trigger] all[k]),
        decreases i,
    {
        i -= 1;
        let entry = &active[i];
        assert(all[i as int] == entry@);
        if text::same_text(entry.kind.as_str(), kind::NARRATION) {
            proof {
                rows::lemma_last_where_hit(all, p, i as int);
            }
            let content = match &entry.content {
                Some(content) => content.clone(),
                None => String::new(),
            };
            return Some((entry.id.clone(), content));
        }
    }
    proof {
        rows::lemma_last_where_miss(all, p);
    }
    None
}

/// How the answer to an action is made. One that is only there to show the scene needs a scene,
/// and that images can be made.
pub fn plan_action(
    store: &Store,
    story_id: &str,
    mode: &str,
    tools: &NarratorToolSettings,
    images: &ImageModelSettings,
    reasoning_effort: &str,
) -> (r: AppResult<ActionPlan>)
    ensures
        match action_planned(store@, story_id@, mode@, *tools, images@, reasoning_effort@) {
            Ok(plan) => r is Ok && r->Ok_0@ == plan,
            Err(e) => r is Err && r->Err_0@ == e,
        },
{
    let is_see = text::same_text(mode, "see");
    let image_enabled = images.enabled && images.has_api_key && tools.illustrate_scene;
    if is_see && !image_enabled {
        return Err(AppError::Invalid(NO_IMAGES.to_string()));
    }
    let scene = find_scene(store, story_id);
    if is_see && scene.is_none() {
        return Err(AppError::Invalid(NO_SCENE.to_string()));
    }
    let with_world = !is_see && (tools.get_entities || tools.create_entity || tools.update_entity
        || tools.adjust_entity_attribute || tools.roll_check);
    let reasoning_effort = if reasoning_effort.is_empty() {
        None
    } else {
        Some(reasoning_effort.to_string())
    };
    Ok(ActionPlan { is_see, image_enabled, with_world, scene, reasoning_effort })
}

/// What is left to do when the narrator has answered.
#[derive(Debug, PartialEq)]
pub enum Ending {
    /// An image of a scene is made; nothing new is told.
    Illustrate { scene_id: String, scene: String, request: ImageRequest },
    /// Nothing was told.
    Nothing,
    /// What was told is put down, and images of it are made.
    Tell { requests: Vec<ImageRequest> },
}

/// What an `Ending` stands for.
#[verifier::ext_equal]
pub enum EndingView {
    Illustrate { scene_id: Seq<char>, scene: Seq<char>, request: ImageRequestView },
    Nothing,
    Tell { requests: Seq<ImageRequestView> },
}

impl View for Ending {
    type V = EndingView;

    open spec fn view(&self) -> EndingView {
        match *self {
            Ending::Illustrate { scene_id, scene, request } => EndingView::Illustrate {
                scene_id: scene_id@,
                scene: scene@,
                request: request@,
            },
            Ending::Nothing => EndingView::Nothing,
            Ending::Tell { requests } => EndingView::Tell { requests: requests.deep_view() },
        }
    }
}

/// What is left to do when the narrator has answered.
pub open spec fn ending_of(plan: ActionPlanView, visible: Seq<char>, requests: Seq<ImageRequestView>) -> Result<
    EndingView,
    ErrorView,
> {
    if plan.is_see {
        if requests.len() == 0 {
            Err(ErrorView::Other(NO_REQUEST@))
        } else {
            match plan.scene {
                Some(scene) => Ok(
                    EndingView::Illustrate { scene_id: scene.0, scene: scene.1, request: requests[0] },
                ),
                None => Err(ErrorView::Invalid(NOTHING_TO_ILLUSTRATE@)),
            }
        }
    } else if visible.len() == 0 {
        Ok(EndingView::Nothing)
    } else {
        Ok(EndingView::Tell { requests })
    }
}

/// What is left to do when the narrator has answered.
pub fn end_action(plan: &ActionPlan, visible: &str, requests: Vec<ImageRequest>) -> (r: AppResult<Ending>)
    ensures
        match ending_of(plan@, visible@, requests.deep_view()) {
            Ok(ending) => r is Ok && r->Ok_0@ == ending,
            Err(e) => r is Err && r->Err_0@ == e,
        },
{
    if plan.is_see {
        if requests.len() == 0 {
            return Err(AppError::Other(NO_REQUEST.to_string()));
        }
        let request = requests[0].copy();
        assert(requests.deep_view()[0] == request@);
        return match &plan.scene {
            Some(scene) => Ok(Ending::Illustrate { scene_id: scene.0.clone(), scene: scene.1.clone(), request }),
            None => Err(AppError::Invalid(NOTHING_TO_ILLUSTRATE.to_string())),
        };
    }
    if visible.is_empty() {
        return Ok(Ending::Nothing);
    }
    Ok(Ending::Tell { requests })
}

/// How a message is told anew.
#[derive(Debug, PartialEq)]
pub enum RetryPlan {
    /// What the player did is answered; the story counts up to it.
    Answer { action: LedgerEntry, mode: String, before_seq: Option<i64> },
    /// What the narrator told is replaced.
    Replace { target_id: String },
}

/// What a `RetryPlan` stands for.
#[verifier::ext_equal]
pub enum RetryPlanView {
    Answer { action: EntryView, mode: Seq<char>, before_seq: Option<i64> },
    Replace { target_id: Seq<char> },
}

impl View for RetryPlan {
    type V = RetryPlanView;

    open spec fn view(&self) -> RetryPlanView {
        match *self {
            RetryPlan::Answer { action, mode, before_seq } => RetryPlanView::Answer {
                action: action@,
                mode: mode@,
                before_seq,
            },
            RetryPlan::Replace { target_id } => RetryPlanView::Replace { target_id: target_id@ },
        }
    }
}

/// How a message is told anew, or why it cannot be.
pub open spec fn retry_planned(store: StoreView, story_id: Seq<char>, entry_id: Seq<char>) -> Result<
    RetryPlanView,
    ErrorView,
> {
    match messages::last_message(store, story_id) {
        None => Err(ErrorView::Invalid(retry::NOTHING_TO_RETRY@)),
        Some(last) => if last.id != entry_id {
            Err(ErrorView::Invalid(retry::ONLY_LATEST@))
        } else if ledger_model::role_of(last) == "player"@ {
            match message_or_missing(store, last.id) {
                Err(e) => Err(e),
                Ok(action) => Ok(
                    RetryPlanView::Answer {
                        action,
                        mode: ledger_model::input_mode_of(last),
                        before_seq: if last.seq == i64::MAX {
                            None
                        } else {
                            Some((last.seq + 1) as i64)
                        },
                    },
                ),
            }
        } else {
            Ok(RetryPlanView::Replace { target_id: entry_id })
        },
    }
}

/// How a message is told anew: an action that was not answered is answered, and what the
/// narrator told last is replaced.
pub fn plan_retry(store: &Store, story_id: &str, entry_id: &str) -> (r: AppResult<RetryPlan>)
    ensures
        match retry_planned(store@, story_id@, entry_id@) {
            Ok(plan) => r is Ok && r->Ok_0@ == plan,
            Err(e) => r is Err && r->Err_0@ == e,
        },
{
    let last = match messages::get_last_entry(store, story_id) {
        Some(last) => last,
        None => {
            return Err(AppError::Invalid(retry::NOTHING_TO_RETRY.to_string()));
        },
    };
    if !text::same_text(last.id.as_str(), entry_id) {
        return Err(AppError::Invalid(retry::ONLY_LATEST.to_string()));
    }
    if text::same_text(last.role(), "player") {
        let action = match ledger::active_entry(store, last.id.as_str()) {
            Ok(action) => action,
            Err(e) => {
                return Err(e);
            },
        };
        let before_seq: Option<i64> = if last.seq == i64::MAX {
            None
        } else {
            Some(last.seq + 1)
        };
        return Ok(RetryPlan::Answer { action, mode: last.input_mode().to_string(), before_seq });
    }
    Ok(RetryPlan::Replace { target_id: entry_id.to_string() })
}

/// Begins to tell a message anew.
pub fn retry_narration(store: &Store, story_id: &str, entry_id: &str) -> (r: AppResult<(RetryPlan, RetryResult)>)
    ensures
        match retry_planned(store@, story_id@, entry_id@) {
            Ok(plan) => {
                &&& r is Ok && r->Ok_0.0@ == plan && r->Ok_0.1.entry_id@ == entry_id@
                &&& stamp::fresh_like(r->Ok_0.1.stream_id@)
            },
            Err(e) => r is Err && r->Err_0@ == e,
        },
{
    match plan_retry(store, story_id, entry_id) {
        Ok(plan) => Ok((plan, RetryResult { entry_id: entry_id.to_string(), stream_id: stamp::fresh_id() })),
        Err(e) => Err(e),
    }
}

/// Only the last message of a story can be told anew.
pub proof fn law_only_the_last_message_is_told_anew(store: StoreView, story_id: Seq<char>, entry_id: Seq<char>)
    requires
        retry_planned(store, story_id, entry_id) is Ok,
    ensures
        messages::last_message(store, story_id) is Some,
        messages::last_message(store, story_id)->0.id == entry_id,
{
}

/// Going on after something that was not answered changes nothing.
pub proof fn law_going_on_reuses_the_open_action(
    store: StoreView,
    entry_id: Seq<char>,
    now: Seq<char>,
    story_id: Seq<char>,
    content: Seq<char>,
    turn_id: Option<Seq<char>>,
)
    requires
        open_action(store, story_id) is Some,
    ensures
        submitted(store, entry_id, now, story_id, "continue"@, content, turn_id).0 == store,
{
}

} // verus!
