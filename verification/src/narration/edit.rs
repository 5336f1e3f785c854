//! Changing what a message says.

use vstd::prelude::*;

use super::rewind::CONTENT_EMPTY;
use crate::error::{AppError, AppResult, ErrorView};
use crate::images::repository as images;
use crate::json;
use crate::json::{Json, JsonView};
use crate::ledger::kind;
use crate::ledger::model::{EntryView, LedgerEntry, HIDDEN};
use crate::ledger::reducer;
use crate::ledger::repository as ledger;
use crate::ledger::repository::{Draft, DraftView};
use crate::stamp;
use crate::store::{Store, StoreView};
use crate::{rows, text};

verus! {

/// What the player's change of a message is put down as.
pub open spec fn edit_draft(story_id: Seq<char>, entry_id: Seq<char>, content: Seq<char>) -> DraftView {
    DraftView {
        story_id,
        kind: kind::CONTENT_EDITED@,
        visibility: HIDDEN@,
        content: Some(text::trimmed(content)),
        payload: JsonView::Object(seq![("reason"@, JsonView::Str("user_edit"@))]),
        target_entry_id: Some(entry_id),
        turn_id: None,
    }
}

/// The condition of not telling of an image that was made for an entry.
pub open spec fn not_illustrating(entry_id: Seq<char>) -> spec_fn(EntryView) -> bool {
    |e: EntryView| !(e.kind == kind::IMAGE_GENERATED@ && e.target_entry_id == Some(entry_id))
}

/// The tables without the images of an entry.
pub open spec fn unillustrated(store: StoreView, entry_id: Seq<char>) -> StoreView {
    StoreView {
        entries: store.entries.filter(not_illustrating(entry_id)),
        images: store.images.filter(images::of_other_entry(entry_id)),
        ..store
    }
}

/// What changing a message comes to: the tables, the message as it reads now, and where the
/// images were kept that showed what it said before.
pub open spec fn edited(
    store: StoreView,
    edit_id: Seq<char>,
    now: Seq<char>,
    entry_id: Seq<char>,
    content: Seq<char>,
) -> Result<(StoreView, EntryView, Seq<Seq<char>>), ErrorView> {
    if text::blank(content) {
        Err(ErrorView::Invalid(CONTENT_EMPTY@))
    } else {
        match ledger::entry_with_id(store.entries, entry_id) {
            None => Err(ErrorView::NotFound("ledger entry "@ + entry_id + " not found"@)),
            Some(target) => {
                let draft = edit_draft(target.story_id, entry_id, content);
                match ledger::append_refusal(store, edit_id, draft) {
                    Some(e) => Err(e),
                    None => {
                        let after = unillustrated(
                            ledger::appended(store, ledger::drafted_entry(store, edit_id, now, draft)),
                            entry_id,
                        );
                        match ledger::active_entry_of(after.entries, entry_id) {
                            Some(entry) => Ok((after, entry, images::paths_of_entry(store.images, entry_id))),
                            None => Err(
                                ErrorView::NotFound(
                                    (if ledger::entry_with_id(after.entries, entry_id) is Some {
                                        "active ledger entry "@
                                    } else {
                                        "ledger entry "@
                                    }) + entry_id + " not found"@,
                                ),
                            ),
                        }
                    },
                }
            },
        }
    }
}

fn is_illustration(entry: &LedgerEntry, entry_id: &str) -> (r: bool)
    ensures
        r == !not_illustrating(entry_id@)(entry@),
{
    if !text::same_text(entry.kind.as_str(), kind::IMAGE_GENERATED) {
        return false;
    }
    match &entry.target_entry_id {
        Some(target) => text::same_text(target.as_str(), entry_id),
        None => false,
    }
}

/// Changes what a message says. The images that showed what it said before go; where anything
/// fails, the tables are as they were.
pub fn edit_ledger_entry_at(store: &mut Store, edit_id: &str, now: &str, entry_id: &str, content: &str) -> (r: AppResult<
    (LedgerEntry, Vec<String>),
>)
    ensures
        match edited(old(store)@, edit_id@, now@, entry_id@, content@) {
            Ok(done) => {
                &&& r is Ok
                &&& r->Ok_0.0@ == done.1
                &&& r->Ok_0.1.deep_view() == done.2
                &&& final(store)@ == done.0
            },
            Err(e) => r is Err && r->Err_0@ == e && final(store)@ == old(store)@,
        },
{
    let trimmed = text::trim(content);
    if trimmed.as_str().is_empty() {
        return Err(AppError::Invalid(CONTENT_EMPTY.to_string()));
    }
    let image_paths = images::image_paths_for_entry(store, entry_id);
    let target = match ledger::get_entry(store, entry_id) {
        Ok(target) => target,
        Err(e) => {
            return Err(e);
        },
    };
    let payload = Json::Object(vec![json::pair("reason", json::of_text("user_edit"))]);
    let draft = Draft {
        story_id: target.story_id.as_str(),
        kind: kind::CONTENT_EDITED,
        visibility: HIDDEN,
        content: Some(trimmed.as_str()),
        payload: &payload,
        target_entry_id: Some(entry_id),
        turn_id: None,
    };
    proof {
        let expected = edit_draft(target@.story_id, entry_id@, content@);
        assert(payload@->Object_0 =~= expected.payload->Object_0);
        assert(draft@ == expected);
    }
    let backup = store.copy();
    match ledger::append_entry_at(store, edit_id, now, &draft) {
        Ok(_) => {},
        Err(e) => {
            return Err(e);
        },
    }
    images::delete_for_entry(store, entry_id);
    let ghost p = not_illustrating(entry_id@);
    let keep = |entry: &LedgerEntry| -> (b: bool)
        ensures
            b == p(entry@),
    {
        !is_illustration(entry, entry_id)
    };
    let left = rows::kept_rows(&store.entries, keep, Ghost(p));
    store.entries = left;
    match ledger::active_entry(store, entry_id) {
        Ok(entry) => Ok((entry, image_paths)),
        Err(e) => {
            *store = backup;
            Err(e)
        },
    }
}

/// Changes what a message says at the present time.
pub fn edit_ledger_entry(store: &mut Store, entry_id: &str, content: &str) -> (r: AppResult<
    (LedgerEntry, Vec<String>),
>)
    ensures
        exists|edit_id: Seq<char>, now: Seq<char>|
            stamp::fresh_like(edit_id) && match #[trigger] edited(old(store)@, edit_id, now, entry_id@, content@) {
                Ok(done) => {
                    &&& r is Ok
                    &&& r->Ok_0.0@ == done.1
                    &&& r->Ok_0.1.deep_view() == done.2
                    &&& final(store)@ == done.0
                },
                Err(e) => r is Err && r->Err_0@ == e && final(store)@ == old(store)@,
            },
{
    let edit_id = stamp::fresh_id();
    let now = stamp::now();
    let r = edit_ledger_entry_at(store, edit_id.as_str(), now.as_str(), entry_id, content);
    assert(edited(old(store)@, edit_id@, now@, entry_id@, content@) == edited(
        old(store)@,
        edit_id@,
        now@,
        entry_id@,
        content@,
    ));
    r
}

/// A message that was changed reads as the change says, without the space around it, and its
/// images are gone.
pub proof fn law_edited_message_reads_as_changed(
    store: StoreView,
    edit_id: Seq<char>,
    now: Seq<char>,
    entry_id: Seq<char>,
    content: Seq<char>,
)
    requires
        ledger::distinct_ids(store.entries),
        edited(store, edit_id, now, entry_id, content) is Ok,
    ensures
        ({
            let done = edited(store, edit_id, now, entry_id, content)->Ok_0;
            &&& done.1.id == entry_id
            &&& done.1.content == Some(text::trimmed(content))
            &&& images::paths_of_entry(done.0.images, entry_id).len() == 0
        }),
{
    let done = edited(store, edit_id, now, entry_id, content)->Ok_0;
    let target = ledger::entry_with_id(store.entries, entry_id)->0;
    let draft = edit_draft(target.story_id, entry_id, content);
    let edit = ledger::drafted_entry(store, edit_id, now, draft);
    let p = not_illustrating(entry_id);
    let all = store.entries.push(edit);
    let kept = store.entries.filter(p);
    assert(p(edit)) by {
        reveal_strlit("content_edited");
        reveal_strlit("image_generated");
        assert(kind::CONTENT_EDITED@.len() != kind::IMAGE_GENERATED@.len());
    }
    rows::lemma_filter_step(all, p, store.entries.len() as int);
    assert(all.take(store.entries.len() as int) =~= store.entries);
    rows::lemma_take_all(all);
    assert(all.filter(p) == kept.push(edit));
    let base = ledger::entry_with_id(done.0.entries, entry_id)->0;
    let b = rows::lemma_first_where(done.0.entries, ledger::entry_is(entry_id));
    let t = rows::lemma_first_where(store.entries, ledger::entry_is(entry_id));
    assert(base.story_id == target.story_id) by {
        if b < kept.len() {
            assert(kept[b] == base);
            assert(kept.contains(base));
            rows::lemma_filter_member(store.entries, p, base);
            let k = choose|k: int| 0 <= k < store.entries.len() && store.entries[k] == base;
            if k < t {
                assert(store.entries[k].id != store.entries[t].id);
            } else if t < k {
                assert(store.entries[t].id != store.entries[k].id);
            }
        }
    }
    let story = ledger::story_entries(done.0.entries, base.story_id);
    ledger::lemma_drafted_is_newest(store, edit_id, now, draft);
    assert forall|i: int| 0 <= i < kept.len() && (#[trigger] kept[i]).story_id == edit.story_id implies kept[i].seq
        <= edit.seq by {
        assert(kept.contains(kept[i]));
        rows::lemma_filter_member(store.entries, p, kept[i]);
        let k = choose|k: int| 0 <= k < store.entries.len() && store.entries[k] == kept[i];
        assert(store.entries[k].story_id == edit.story_id);
    }
    ledger::law_appended_entry_is_listed_last(StoreView { entries: kept, ..store }, edit, i64::MIN);
    assert(story.last() == edit);
    let messages = reducer::active_messages(story);
    let m = rows::lemma_first_where(messages, ledger::entry_is(entry_id));
    let own = story.filter(|e: EntryView| reducer::is_message(e))[m];
    assert(messages[m] == reducer::active(story, own));
    reducer::law_latest_edit_wins(story.drop_last(), Seq::empty(), own, edit);
    assert((story.drop_last() + Seq::<EntryView>::empty()).push(edit) =~= story);
    images::law_detached_leaves_the_others(store, entry_id, store.images[0], edit);
}

} // verus!
