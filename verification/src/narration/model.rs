//! What the player reads of a story.

use vstd::prelude::*;

use crate::ledger::model;
use crate::ledger::model::{EntryView, LedgerEntry};

verus! {

/// A message of a story as the player reads it.
#[derive(Debug, PartialEq)]
pub struct ActiveStoryEntry {
    pub id: String,
    pub story_id: String,
    pub seq: i64,
    pub role: String,
    pub input_mode: String,
    pub content: String,
    pub thoughts: Option<String>,
    pub created_at: String,
    pub edited_at: Option<String>,
}

/// What an `ActiveStoryEntry` stands for.
#[verifier::ext_equal]
pub struct ActiveView {
    pub id: Seq<char>,
    pub story_id: Seq<char>,
    pub seq: i64,
    pub role: Seq<char>,
    pub input_mode: Seq<char>,
    pub content: Seq<char>,
    pub thoughts: Option<Seq<char>>,
    pub created_at: Seq<char>,
    pub edited_at: Option<Seq<char>>,
}

impl View for ActiveStoryEntry {
    type V = ActiveView;

    open spec fn view(&self) -> ActiveView {
        ActiveView {
            id: self.id@,
            story_id: self.story_id@,
            seq: self.seq,
            role: self.role@,
            input_mode: self.input_mode@,
            content: self.content@,
            thoughts: self.thoughts.deep_view(),
            created_at: self.created_at@,
            edited_at: self.edited_at.deep_view(),
        }
    }
}

impl DeepView for ActiveStoryEntry {
    type V = ActiveView;

    open spec fn deep_view(&self) -> ActiveView {
        self@
    }
}

/// What the player reads of an entry. What the narrator thought is not part of it.
pub open spec fn story_entry_of(entry: EntryView) -> ActiveView {
    ActiveView {
        id: entry.id,
        story_id: entry.story_id,
        seq: entry.seq,
        role: model::role_of(entry),
        input_mode: model::input_mode_of(entry),
        content: match entry.content {
            Some(content) => content,
            None => Seq::empty(),
        },
        thoughts: None,
        created_at: entry.created_at,
        edited_at: None,
    }
}

/// What the player reads of an entry.
pub fn to_story_entry(entry: LedgerEntry) -> (r: ActiveStoryEntry)
    ensures
        r@ == story_entry_of(entry@),
{
    let role = entry.role().to_string();
    let input_mode = entry.input_mode().to_string();
    let content = match entry.content {
        Some(content) => content,
        None => String::new(),
    };
    ActiveStoryEntry {
        id: entry.id,
        story_id: entry.story_id,
        seq: entry.seq,
        role,
        input_mode,
        content,
        thoughts: None,
        created_at: entry.created_at,
        edited_at: None,
    }
}

} // verus!
