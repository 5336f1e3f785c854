//! The story as it reads now: the messages of the ledger with their edits folded in.

use vstd::prelude::*;

use super::kind;
use super::model::{EntryView, LedgerEntry, LedgerSnapshot, TurnSummary, HIDDEN};
use crate::{rows, text};

verus! {

/// Whether an entry replaces the content of another.
pub open spec fn edits(entry: EntryView, id: Seq<char>) -> bool {
    &&& entry.kind == kind::CONTENT_EDITED@
    &&& entry.target_entry_id == Some(id)
    &&& entry.content is Some
}

/// The content that the last edit of an entry gives it.
pub open spec fn edited_content(entries: Seq<EntryView>, id: Seq<char>) -> Option<Seq<char>> {
    match rows::last_where(entries, |e: EntryView| edits(e, id)) {
        Some(edit) => edit.content,
        None => None,
    }
}

/// Whether an entry is a message of the player or of the narrator.
pub open spec fn is_message(entry: EntryView) -> bool {
    entry.kind == kind::PLAYER_MESSAGE@ || entry.kind == kind::NARRATION@
}

/// An entry with the content that it has now.
pub open spec fn active(entries: Seq<EntryView>, entry: EntryView) -> EntryView {
    match edited_content(entries, entry.id) {
        Some(content) => EntryView { content: Some(content), ..entry },
        None => entry,
    }
}

/// The messages of a ledger, each with the content that it has now.
pub open spec fn active_messages(entries: Seq<EntryView>) -> Seq<EntryView> {
    entries.filter(|e: EntryView| is_message(e)).map_values(|e: EntryView| active(entries, e))
}

/// The content that the last edit of an entry gives it.
fn edit_of(entries: &Vec<LedgerEntry>, id: &str) -> (r: Option<String>)
    ensures
        r.deep_view() == edited_content(entries.deep_view(), id@),
{
    let ghost all = entries.deep_view();
    let ghost p = |e: EntryView| edits(e, id@);
    let mut i: usize = entries.len();
    while i > 0
        invariant
            0 <= i <= entries@.len(),
            all == entries.deep_view(),
            p == (|e: EntryView| edits(e, id@)),
            forall|k: int| i <= k < all.len() ==> !p(#[trigger] all[k]),
        decreases i,
    {
        i -= 1;
        let entry = &entries[i];
        assert(all[i as int] == entry@);
        if text::same_text(entry.kind.as_str(), kind::CONTENT_EDITED) {
            if let (Some(target), Some(content)) = (&entry.target_entry_id, &entry.content) {
                if text::same_text(target.as_str(), id) {
                    proof {
                        rows::lemma_last_where_hit(all, p, i as int);
                    }
                    return Some(content.clone());
                }
            }
        }
    }
    proof {
        rows::lemma_last_where_miss(all, p);
    }
    None
}

/// An entry with the content that it has now.
pub fn active_copy(entries: &Vec<LedgerEntry>, entry: &LedgerEntry) -> (r: LedgerEntry)
    ensures
        r@ == active(entries.deep_view(), entry@),
{
    let mut copy = entry.copy();
    if let Some(content) = edit_of(entries, entry.id.as_str()) {
        copy.content = Some(content);
    }
    copy
}

/// The messages of a ledger in their order, each with the content of its last edit; the
/// entries themselves stay as they are.
pub fn active_visible_entries(entries: &Vec<LedgerEntry>) -> (r: Vec<LedgerEntry>)
    ensures
        r.deep_view() == active_messages(entries.deep_view()),
{
    let ghost all = entries.deep_view();
    let ghost p = |e: EntryView| is_message(e);
    let ghost f = |e: EntryView| active(all, e);
    let mut out: Vec<LedgerEntry> = Vec::new();
    let mut i: usize = 0;
    proof {
        assert(all.take(0).filter(p).map_values(f) =~= Seq::empty()) by {
            reveal(Seq::filter);
        }
    }
    while i < entries.len()
        invariant
            0 <= i <= entries@.len(),
            all == entries.deep_view(),
            p == (|e: EntryView| is_message(e)),
            f == (|e: EntryView| active(all, e)),
            out.deep_view() == all.take(i as int).filter(p).map_values(f),
        decreases entries@.len() - i,
    {
        let entry = &entries[i];
        proof {
            assert(all[i as int] == entry@);
            rows::lemma_filter_step(all, p, i as int);
            rows::lemma_map_push(all.take(i as int).filter(p), entry@, f);
        }
        if text::same_text(entry.kind.as_str(), kind::PLAYER_MESSAGE) || text::same_text(
            entry.kind.as_str(),
            kind::NARRATION,
        ) {
            let copy = active_copy(entries, entry);
            let ghost before = out;
            let ghost value = copy;
            out.push(copy);
            proof {
                rows::lemma_deep_push(before, out, value);
            }
        }
        i += 1;
    }
    proof {
        rows::lemma_take_all(all);
    }
    out
}

/// The entries that are hidden from the player.
fn hidden_entries(entries: &Vec<LedgerEntry>) -> (r: Vec<LedgerEntry>)
    ensures
        r.deep_view() == entries.deep_view().filter(|e: EntryView| e.visibility == HIDDEN@),
{
    let ghost all = entries.deep_view();
    let ghost p = |e: EntryView| e.visibility == HIDDEN@;
    let mut out: Vec<LedgerEntry> = Vec::new();
    let mut i: usize = 0;
    proof {
        assert(all.take(0).filter(p) =~= Seq::empty()) by {
            reveal(Seq::filter);
        }
    }
    while i < entries.len()
        invariant
            0 <= i <= entries@.len(),
            all == entries.deep_view(),
            p == (|e: EntryView| e.visibility == HIDDEN@),
            out.deep_view() == all.take(i as int).filter(p),
        decreases entries@.len() - i,
    {
        let entry = &entries[i];
        proof {
            assert(all[i as int] == entry@);
            rows::lemma_filter_step(all, p, i as int);
        }
        if text::same_text(entry.visibility.as_str(), HIDDEN) {
            let copy = entry.copy();
            let ghost before = out;
            let ghost value = copy;
            out.push(copy);
            proof {
                rows::lemma_deep_push(before, out, value);
            }
        }
        i += 1;
    }
    proof {
        rows::lemma_take_all(all);
    }
    out
}

/// The story as it reads now, the hidden entries, and the turns.
pub fn snapshot(entries: Vec<LedgerEntry>, turns: Vec<TurnSummary>) -> (r: LedgerSnapshot)
    ensures
        r.visible.deep_view() == active_messages(entries.deep_view()),
        r.hidden.deep_view() == entries.deep_view().filter(|e: EntryView| e.visibility == HIDDEN@),
        r.turns == turns,
{
    LedgerSnapshot {
        visible: active_visible_entries(&entries),
        hidden: hidden_entries(&entries),
        turns,
    }
}

/// Of two edits of the same entry the later one decides, whatever stands between them;
/// the entry keeps everything but its content.
pub proof fn law_latest_edit_wins(
    before: Seq<EntryView>,
    between: Seq<EntryView>,
    entry: EntryView,
    edit: EntryView,
)
    requires
        edits(edit, entry.id),
    ensures
        active((before + between).push(edit), entry) == (EntryView { content: edit.content, ..entry }),
{
    let all = (before + between).push(edit);
    assert(all.last() == edit);
}

/// An entry that nothing edits reads as it was written.
pub proof fn law_unedited_reads_as_written(entries: Seq<EntryView>, entry: EntryView)
    requires
        forall|i: int| 0 <= i < entries.len() ==> !edits(#[trigger] entries[i], entry.id),
    ensures
        active(entries, entry) == entry,
{
    rows::lemma_last_where_miss(entries, |e: EntryView| edits(e, entry.id));
}

/// Whether an entry reads with some content: what the last edit of it says, or its own where
/// nothing edits it.
pub open spec fn reads(entries: Seq<EntryView>, entry: EntryView, content: Option<Seq<char>>) -> bool {
    ||| content == entry.content && forall|j: int|
        0 <= j < entries.len() ==> !((#[trigger] entries[j]).kind == kind::CONTENT_EDITED@
            && entries[j].target_entry_id == Some(entry.id) && entries[j].content is Some)
    ||| exists|j: int|
        0 <= j < entries.len() && (#[trigger] entries[j]).kind == kind::CONTENT_EDITED@
            && entries[j].target_entry_id == Some(entry.id) && entries[j].content is Some && content
            == entries[j].content && forall|l: int|
            j < l < entries.len() ==> !((#[trigger] entries[l]).kind == kind::CONTENT_EDITED@
                && entries[l].target_entry_id == Some(entry.id) && entries[l].content is Some)
}

/// An entry reads as it was last edited, and is otherwise as it was written.
pub proof fn law_entry_reads_as_last_edited(entries: Seq<EntryView>, entry: EntryView)
    ensures
        reads(entries, entry, active(entries, entry).content),
        active(entries, entry) == (EntryView { content: active(entries, entry).content, ..entry }),
{
    let p = |e: EntryView| edits(e, entry.id);
    rows::lemma_last_where_places(entries, p);
}

/// The messages of a ledger are what the player and the narrator said, each once and in the order
/// in which it was said, as it was last edited.
pub proof fn law_messages_are_what_was_said(entries: Seq<EntryView>) -> (places: Seq<int>)
    ensures
        rows::rising_places(places, entries.len() as int),
        places.len() == active_messages(entries).len(),
        forall|m: int|
            0 <= m < places.len() ==> {
                let said = entries[#[trigger] places[m]];
                let read = active_messages(entries)[m];
                &&& said.kind == kind::PLAYER_MESSAGE@ || said.kind == kind::NARRATION@
                &&& reads(entries, said, read.content)
                &&& read == (EntryView { content: read.content, ..said })
            },
        forall|k: int|
            0 <= k < entries.len() && ((#[trigger] entries[k]).kind == kind::PLAYER_MESSAGE@ || entries[k].kind
                == kind::NARRATION@) ==> places.contains(k),
{
    let is = |e: EntryView| is_message(e);
    let places = rows::lemma_filter_places(entries, is);
    assert forall|m: int| 0 <= m < places.len() implies ({
        let said = entries[#[trigger] places[m]];
        let read = active_messages(entries)[m];
        &&& said.kind == kind::PLAYER_MESSAGE@ || said.kind == kind::NARRATION@
        &&& reads(entries, said, read.content)
        &&& read == (EntryView { content: read.content, ..said })
    }) by {
        assert(is(entries[places[m]]));
        law_entry_reads_as_last_edited(entries, entries[places[m]]);
    }
    assert forall|k: int|
        0 <= k < entries.len() && ((#[trigger] entries[k]).kind == kind::PLAYER_MESSAGE@ || entries[k].kind
            == kind::NARRATION@) implies places.contains(k) by {
        assert(is(entries[k]));
    }
    places
}

} // verus!
