//! What the ledger holds.

use vstd::prelude::*;

use super::kind;
use crate::json::{Json, JsonView};
use crate::{json, text};
use crate::rows::Copied;

verus! {

/// The visibility of an entry that is part of the story as the player reads it.
pub const VISIBLE: &'static str = "visible";

/// The visibility of an entry that only the narrator and the record see.
pub const HIDDEN: &'static str = "hidden";

/// One entry of the ledger.
#[derive(Debug, PartialEq)]
pub struct LedgerEntry {
    pub id: String,
    pub story_id: String,
    pub seq: i64,
    pub kind: String,
    pub visibility: String,
    pub content: Option<String>,
    pub payload: Json,
    pub target_entry_id: Option<String>,
    pub turn_id: Option<String>,
    pub created_at: String,
}

/// What a `LedgerEntry` stands for.
#[verifier::ext_equal]
pub struct EntryView {
    pub id: Seq<char>,
    pub story_id: Seq<char>,
    pub seq: i64,
    pub kind: Seq<char>,
    pub visibility: Seq<char>,
    pub content: Option<Seq<char>>,
    pub payload: JsonView,
    pub target_entry_id: Option<Seq<char>>,
    pub turn_id: Option<Seq<char>>,
    pub created_at: Seq<char>,
}

impl View for LedgerEntry {
    type V = EntryView;

    open spec fn view(&self) -> EntryView {
        EntryView {
            id: self.id@,
            story_id: self.story_id@,
            seq: self.seq,
            kind: self.kind@,
            visibility: self.visibility@,
            content: self.content.deep_view(),
            payload: self.payload@,
            target_entry_id: self.target_entry_id.deep_view(),
            turn_id: self.turn_id.deep_view(),
            created_at: self.created_at@,
        }
    }
}

impl DeepView for LedgerEntry {
    type V = EntryView;

    open spec fn deep_view(&self) -> EntryView {
        self@
    }
}

/// Who speaks in an entry.
pub open spec fn role_of(entry: EntryView) -> Seq<char> {
    if entry.kind == kind::PLAYER_MESSAGE@ {
        "player"@
    } else {
        "narrator"@
    }
}

/// How an entry was put in.
pub open spec fn input_mode_of(entry: EntryView) -> Seq<char> {
    match json::text_field(entry.payload, "input_mode"@) {
        Some(mode) => mode,
        None => "generated"@,
    }
}

impl LedgerEntry {
    /// Who speaks in the entry.
    pub fn role(&self) -> (r: &str)
        ensures
            r@ == role_of(self@),
    {
        if text::same_text(self.kind.as_str(), kind::PLAYER_MESSAGE) {
            "player"
        } else {
            "narrator"
        }
    }

    /// How the entry was put in; `generated` where the payload does not say.
    pub fn input_mode(&self) -> (r: &str)
        ensures
            r@ == input_mode_of(self@),
    {
        match self.payload.str_field("input_mode") {
            Some(mode) => mode,
            None => "generated",
        }
    }

    /// The same entry.
    pub fn copy(&self) -> (r: LedgerEntry)
        ensures
            r@ == self@,
    {
        LedgerEntry {
            id: self.id.clone(),
            story_id: self.story_id.clone(),
            seq: self.seq,
            kind: self.kind.clone(),
            visibility: self.visibility.clone(),
            content: text::copy_option(&self.content),
            payload: self.payload.copy(),
            target_entry_id: text::copy_option(&self.target_entry_id),
            turn_id: text::copy_option(&self.turn_id),
            created_at: self.created_at.clone(),
        }
    }
}

/// A turn as the player's view lists it.
#[derive(Debug, PartialEq)]
pub struct TurnSummary {
    pub id: String,
    pub status: String,
}

/// What a `TurnSummary` stands for.
#[verifier::ext_equal]
pub struct TurnSummaryView {
    pub id: Seq<char>,
    pub status: Seq<char>,
}

impl View for TurnSummary {
    type V = TurnSummaryView;

    open spec fn view(&self) -> TurnSummaryView {
        TurnSummaryView { id: self.id@, status: self.status@ }
    }
}

impl DeepView for TurnSummary {
    type V = TurnSummaryView;

    open spec fn deep_view(&self) -> TurnSummaryView {
        self@
    }
}

/// A story as it reads now, with what is hidden from the player beside it.
#[derive(Debug, PartialEq)]
pub struct LedgerSnapshot {
    pub visible: Vec<LedgerEntry>,
    pub hidden: Vec<LedgerEntry>,
    pub turns: Vec<TurnSummary>,
}

impl Copied for LedgerEntry {
    fn copied(&self) -> (r: LedgerEntry) {
        self.copy()
    }
}

/// Who said an entry is the player where it is the player's message, and the narrator otherwise; how
/// it came about is what its payload says, or that it was generated.
pub proof fn law_entry_says_who_said_it(entry: EntryView)
    ensures
        role_of(entry) == "player"@ <==> entry.kind == "player_message"@,
        role_of(entry) == "narrator"@ <==> entry.kind != "player_message"@,
        json::text_field(entry.payload, "input_mode"@) is Some ==> Some(input_mode_of(entry)) == json::text_field(
            entry.payload,
            "input_mode"@,
        ),
        json::text_field(entry.payload, "input_mode"@) is None ==> input_mode_of(entry) == "generated"@,
{
    reveal_strlit("player");
    reveal_strlit("narrator");
    assert("player"@.len() == 6);
    assert("narrator"@.len() == 8);
}

} // verus!
