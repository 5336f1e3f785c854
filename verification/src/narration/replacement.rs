//! Beginning to tell the last message of the narrator anew.

use vstd::prelude::*;

use super::commands;
use super::history;
use super::repository as messages;
use super::retry;
use super::retry::{RetrySnapshot, SnapshotView};
use crate::ai::{HistoryTurn, HistoryTurnView};
use crate::error::{AppError, AppResult, ErrorView};
use crate::ledger::model as ledger_model;
use crate::ledger::repository as ledger;
use crate::narrator::catalog::NarratorToolSettings;
use crate::passages::commands as models;
use crate::passages::commands::TextModel;
use crate::settings::{ImageModelSettings, ImageModelView, Preferences, PreferencesView};
use crate::store::{Store, StoreView};
use crate::text;

verus! {

/// The message where the last message is the player's.
pub const ONLY_NARRATION: &'static str = "only a narration entry can be retried";

/// How a message is told anew: over a copy of the story without it, from what is told up to there.
#[derive(Debug, PartialEq)]
pub struct ReplacementPlan {
    pub snapshot: RetrySnapshot,
    pub history: Vec<HistoryTurn>,
    pub model: TextModel,
    pub image_enabled: bool,
    /// The narrator may look at the world of the story, and change it.
    pub with_world: bool,
    pub reasoning_effort: Option<String>,
}

/// What a `ReplacementPlan` stands for; the model by its name and the key for it.
#[verifier::ext_equal]
pub struct ReplacementPlanView {
    pub snapshot: SnapshotView,
    pub history: Seq<HistoryTurnView>,
    pub model: (Seq<char>, Seq<char>),
    pub image_enabled: bool,
    pub with_world: bool,
    pub reasoning_effort: Option<Seq<char>>,
}

impl View for ReplacementPlan {
    type V = ReplacementPlanView;

    open spec fn view(&self) -> ReplacementPlanView {
        ReplacementPlanView {
            snapshot: self.snapshot@,
            history: self.history.deep_view(),
            model: (self.model.model@, self.model.api_key@),
            image_enabled: self.image_enabled,
            with_world: self.with_world,
            reasoning_effort: self.reasoning_effort.deep_view(),
        }
    }
}

/// Why a message cannot be replaced: nothing was told, something else was told last, or the player
/// told it.
pub open spec fn replacement_refusal(store: StoreView, story_id: Seq<char>, entry_id: Seq<char>) -> Option<ErrorView> {
    match messages::last_message(store, story_id) {
        None => Some(ErrorView::Invalid(retry::NOTHING_TO_RETRY@)),
        Some(last) => if last.id != entry_id {
            Some(ErrorView::Invalid(retry::ONLY_LATEST@))
        } else if ledger_model::role_of(last) != "narrator"@ {
            Some(ErrorView::Invalid(ONLY_NARRATION@))
        } else {
            None
        },
    }
}

/// How a message is told anew, or why it cannot be.
pub open spec fn replacement_planned(
    store: StoreView,
    preferences: PreferencesView,
    story_id: Seq<char>,
    entry_id: Seq<char>,
    now: Seq<char>,
    tools: NarratorToolSettings,
    images: ImageModelView,
    reasoning_effort: Seq<char>,
) -> Result<ReplacementPlanView, ErrorView> {
    match replacement_refusal(store, story_id, entry_id) {
        Some(e) => Err(e),
        None => match retry::snapshot_of(store, story_id, entry_id, now) {
            Err(e) => Err(e),
            Ok(snapshot) => match models::usable_model(preferences) {
                Err(e) => Err(e),
                Ok(model) => Ok(
                    ReplacementPlanView {
                        snapshot,
                        history: history::history_of(
                            ledger::story_entries(snapshot.scratch.entries, story_id).filter(history::before_cut(None)),
                        ),
                        model,
                        image_enabled: images.enabled && images.has_api_key && tools.illustrate_scene,
                        with_world: commands::uses_world(tools),
                        reasoning_effort: if reasoning_effort.len() == 0 {
                            None
                        } else {
                            Some(reasoning_effort)
                        },
                    },
                ),
            },
        },
    }
}

/// Begins to tell the last message of the narrator anew. The story itself stays as it is, whether or
/// not that is possible.
pub fn start_replacement_generation(
    store: &Store,
    preferences: &Preferences,
    story_id: &str,
    entry_id: &str,
    now: &str,
    tools: &NarratorToolSettings,
    images: &ImageModelSettings,
    reasoning_effort: &str,
) -> (r: AppResult<ReplacementPlan>)
    ensures
        match replacement_planned(
            store@,
            preferences@,
            story_id@,
            entry_id@,
            now@,
            *tools,
            images@,
            reasoning_effort@,
        ) {
            Ok(plan) => r is Ok && r->Ok_0@ == plan,
            Err(e) => r is Err && r->Err_0@ == e,
        },
{
    let last = match messages::get_last_entry(store, story_id) {
        Some(last) => last,
        None => {
            return Err(AppError::Invalid(retry::NOTHING_TO_RETRY.to_string()));
        },
    };
    if !text::same_text(last.id.as_str(), entry_id) {
        return Err(AppError::Invalid(retry::ONLY_LATEST.to_string()));
    }
    if !text::same_text(last.role(), "narrator") {
        return Err(AppError::Invalid(ONLY_NARRATION.to_string()));
    }
    let snapshot = match retry::snapshot_for_retry(store, story_id, entry_id, now) {
        Ok(snapshot) => snapshot,
        Err(e) => {
            return Err(e);
        },
    };
    let history = history::load_history(&snapshot.scratch, story_id, None);
    let model = match models::resolve_text_model(preferences) {
        Ok(model) => model,
        Err(e) => {
            return Err(e);
        },
    };
    let image_enabled = images.enabled && images.has_api_key && tools.illustrate_scene;
    let with_world = tools.get_entities || tools.create_entity || tools.update_entity
        || tools.adjust_entity_attribute || tools.roll_check;
    let reasoning_effort = if reasoning_effort.is_empty() {
        None
    } else {
        Some(reasoning_effort.to_string())
    };
    Ok(ReplacementPlan { snapshot, history, model, image_enabled, with_world, reasoning_effort })
}

/// What is told in place of a message is told from a copy of the story without it, while the story
/// itself is still the one that was copied.
pub proof fn law_replacement_is_told_without_the_old_message(
    store: StoreView,
    preferences: PreferencesView,
    story_id: Seq<char>,
    entry_id: Seq<char>,
    now: Seq<char>,
    tools: NarratorToolSettings,
    images: ImageModelView,
    reasoning_effort: Seq<char>,
)
    ensures
        replacement_planned(store, preferences, story_id, entry_id, now, tools, images, reasoning_effort) matches Ok(plan)
            ==> {
            &&& !ledger::holds_id(plan.snapshot.scratch.entries, entry_id)
            &&& retry::unchanged(store, plan.snapshot, story_id, entry_id)
        },
{
    if replacement_planned(store, preferences, story_id, entry_id, now, tools, images, reasoning_effort) is Ok {
        retry::law_untouched_story_can_be_replaced(store, story_id, entry_id, now);
    }
}

} // verus!
