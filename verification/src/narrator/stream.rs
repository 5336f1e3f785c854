//! Asking the narrator, and what is made of its answer.

use vstd::prelude::*;

use super::generation;
use super::injection;
use super::model::{Candidate, CandidateView};
use super::tools;
use crate::ai::{ChunkView, HistoryTurn, HistoryTurnView, NarratorChunk, ToolActivityPhase};
use crate::entities::repository;
use crate::error::{AppError, AppResult, ErrorView};
use crate::images::model::ImageRequest;
use crate::text;

verus! {

/// What is sent: the turns before the action, and the action behind what else the narrator
/// is told.
pub open spec fn request_of(history: Seq<HistoryTurnView>, live: Seq<char>) -> Result<
    (Seq<HistoryTurnView>, Seq<char>),
    ErrorView,
> {
    if history.len() == 0 {
        Err(ErrorView::Other(generation::NO_ACTION@))
    } else if !history.last().is_player {
        Err(ErrorView::Other(generation::NOT_LAST@))
    } else {
        Ok((history.drop_last(), injection::combined(seq![live, history.last().content])))
    }
}

/// What is sent: the turns before the action, and the action behind what else the narrator
/// is told.
pub fn request_turns(history: Vec<HistoryTurn>, live: &str) -> (r: AppResult<(Vec<HistoryTurn>, String)>)
    ensures
        match request_of(history.deep_view(), live@) {
            Ok(sent) => r is Ok && r->Ok_0.0.deep_view() == sent.0 && r->Ok_0.1@ == sent.1,
            Err(e) => r is Err && r->Err_0@ == e,
        },
{
    let mut turns = history;
    match turns.pop() {
        None => Err(AppError::Other(generation::NO_ACTION.to_string())),
        Some(action) => {
            if !action.is_player {
                return Err(AppError::Other(generation::NOT_LAST.to_string()));
            }
            let parts: Vec<String> = vec![live.to_string(), action.content];
            assert(parts.deep_view() =~= seq![live@, action.content@]);
            assert(turns.deep_view() =~= history.deep_view().drop_last());
            Ok((turns, injection::combine_context_blocks(&parts)))
        },
    }
}

/// What an answer comes to: the passage without the whitespace around it, and what the
/// narrator thought, if anything.
pub fn candidate(visible: &str, thoughts: &str, image_requests: Vec<ImageRequest>) -> (r: Candidate)
    ensures
        r@ == (CandidateView {
            visible: text::trimmed(visible@),
            thoughts: text::non_blank(Some(thoughts@)),
            image_requests: image_requests.deep_view(),
        }),
{
    Candidate {
        visible: text::trim(visible),
        thoughts: repository::described(Some(thoughts)),
        image_requests,
    }
}

/// What the player is shown of an answer while it comes.
#[derive(Debug, PartialEq)]
pub enum StreamEvent {
    Delta(String),
    Thoughts(String),
    ToolActivity { call_id: String, label: String, phase: &'static str, ok: Option<bool> },
}

/// Whether an event shows a piece of an answer as it should.
pub open spec fn shows(event: StreamEvent, chunk: ChunkView) -> bool {
    match chunk {
        ChunkView::Text(t) => event matches StreamEvent::Delta(shown) && shown@ == t,
        ChunkView::Reasoning(t) => event matches StreamEvent::Thoughts(shown) && shown@ == t,
        ChunkView::ToolActivity { call_id, tool_name, args, phase } => {
            &&& event matches StreamEvent::ToolActivity { call_id: id, label, phase: word, ok }
            &&& id@ == call_id
            &&& label@ == tools::label_of(tool_name, tools::arguments_of(args))
            &&& word@ == (match phase {
                ToolActivityPhase::Started => "started"@,
                ToolActivityPhase::Finished { .. } => "finished"@,
            })
            &&& ok == (match phase {
                ToolActivityPhase::Started => None,
                ToolActivityPhase::Finished { ok } => Some(ok),
            })
        },
    }
}

/// What the player is shown of a piece of an answer.
pub fn stream_event(chunk: NarratorChunk) -> (r: StreamEvent)
    ensures
        shows(r, chunk@),
{
    match chunk {
        NarratorChunk::Text(t) => StreamEvent::Delta(t),
        NarratorChunk::Reasoning(t) => StreamEvent::Thoughts(t),
        NarratorChunk::ToolActivity { call_id, tool_name, args, phase } => {
            let (word, ok): (&'static str, Option<bool>) = match phase {
                ToolActivityPhase::Started => ("started", None),
                ToolActivityPhase::Finished { ok } => ("finished", Some(ok)),
            };
            StreamEvent::ToolActivity {
                call_id,
                label: tools::friendly_tool_label(tool_name.as_str(), args.as_str()),
                phase: word,
                ok,
            }
        },
    }
}

} // verus!
