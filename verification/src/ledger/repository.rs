//! Reading and extending the ledger.

use vstd::prelude::*;

use super::kind;
use super::model::{EntryView, LedgerEntry, HIDDEN, VISIBLE};
use super::reducer;
use crate::error::{AppError, AppResult, ErrorView};
use crate::json::{Json, JsonView};
use crate::store::{Store, StoreView, StoryRowView};
use crate::sequence::Numbered;
use crate::{json, rows, sequence, stamp, text};

verus! {

/// The highest sequence number of a story.
pub open spec fn highest_seq(entries: Seq<EntryView>, story_id: Seq<char>) -> Option<int>
    decreases entries.len(),
{
    if entries.len() == 0 {
        None
    } else {
        let rest = highest_seq(entries.drop_last(), story_id);
        let last = entries.last();
        if last.story_id != story_id {
            rest
        } else {
            match rest {
                Some(seq) => if last.seq > seq {
                    Some(last.seq as int)
                } else {
                    Some(seq)
                },
                None => Some(last.seq as int),
            }
        }
    }
}

/// The sequence number of the next entry of a story.
pub open spec fn following_seq(entries: Seq<EntryView>, story_id: Seq<char>) -> int {
    match highest_seq(entries, story_id) {
        Some(seq) => seq + 1,
        None => 0,
    }
}

/// Whether a story has an entry with an identifier.
pub open spec fn belongs(entries: Seq<EntryView>, id: Seq<char>, story_id: Seq<char>) -> bool {
    rows::any_where(entries, |e: EntryView| e.id == id && e.story_id == story_id)
}

/// Whether the ledger has an entry with an identifier.
pub open spec fn holds_id(entries: Seq<EntryView>, id: Seq<char>) -> bool {
    rows::any_where(entries, |e: EntryView| e.id == id)
}

/// The stories after one of them was changed at a time.
pub open spec fn touched(stories: Seq<StoryRowView>, story_id: Seq<char>, now: Seq<char>) -> Seq<
    StoryRowView,
> {
    stories.map_values(
        |s: StoryRowView|
            if s.id == story_id {
                StoryRowView { updated_at: now, ..s }
            } else {
                s
            },
    )
}

/// What a new entry is made from.
#[verifier::ext_equal]
pub struct DraftView {
    pub story_id: Seq<char>,
    pub kind: Seq<char>,
    pub visibility: Seq<char>,
    pub content: Option<Seq<char>>,
    pub payload: JsonView,
    pub target_entry_id: Option<Seq<char>>,
    pub turn_id: Option<Seq<char>>,
}

/// What a new entry is made from.
pub struct Draft<'a> {
    pub story_id: &'a str,
    pub kind: &'a str,
    pub visibility: &'a str,
    pub content: Option<&'a str>,
    pub payload: &'a Json,
    pub target_entry_id: Option<&'a str>,
    pub turn_id: Option<&'a str>,
}

impl<'a> View for Draft<'a> {
    type V = DraftView;

    open spec fn view(&self) -> DraftView {
        DraftView {
            story_id: self.story_id@,
            kind: self.kind@,
            visibility: self.visibility@,
            content: self.content.deep_view(),
            payload: self.payload@,
            target_entry_id: self.target_entry_id.deep_view(),
            turn_id: self.turn_id.deep_view(),
        }
    }
}

/// Why a draft cannot become an entry, whatever identifier it gets.
pub open spec fn draft_refusal(store: StoreView, draft: DraftView) -> Option<ErrorView> {
    if draft.visibility != VISIBLE@ && draft.visibility != HIDDEN@ {
        Some(ErrorView::Invalid("invalid ledger visibility: "@ + draft.visibility))
    } else if draft.target_entry_id is Some && !belongs(
        store.entries,
        draft.target_entry_id->0,
        draft.story_id,
    ) {
        Some(
            ErrorView::Invalid(
                "target ledger entry "@ + draft.target_entry_id->0 + " does not belong to story "@
                    + draft.story_id,
            ),
        )
    } else if following_seq(store.entries, draft.story_id) > i64::MAX {
        Some(ErrorView::Db("ledger sequence is exhausted"@))
    } else {
        None
    }
}

/// Why a draft cannot become an entry with an identifier.
pub open spec fn append_refusal(store: StoreView, id: Seq<char>, draft: DraftView) -> Option<
    ErrorView,
> {
    match draft_refusal(store, draft) {
        Some(refusal) => Some(refusal),
        None => if holds_id(store.entries, id) {
            Some(ErrorView::Db("ledger entry identifier is already in use"@))
        } else {
            None
        },
    }
}

/// The entry that a draft becomes.
pub open spec fn drafted_entry(store: StoreView, id: Seq<char>, now: Seq<char>, draft: DraftView) -> EntryView {
    EntryView {
        id,
        story_id: draft.story_id,
        seq: following_seq(store.entries, draft.story_id) as i64,
        kind: draft.kind,
        visibility: draft.visibility,
        content: draft.content,
        payload: draft.payload,
        target_entry_id: draft.target_entry_id,
        turn_id: draft.turn_id,
        created_at: now,
    }
}

/// The tables after an entry was added behind the others.
pub open spec fn appended(store: StoreView, entry: EntryView) -> StoreView {
    StoreView {
        entries: store.entries.push(entry),
        stories: touched(store.stories, entry.story_id, entry.created_at),
        ..store
    }
}

/// The sequence number of the next entry of a story, unless there is none left.
fn next_seq(entries: &Vec<LedgerEntry>, story_id: &str) -> (r: Option<i64>)
    ensures
        match r {
            Some(seq) => seq == following_seq(entries.deep_view(), story_id@),
            None => following_seq(entries.deep_view(), story_id@) > i64::MAX,
        },
{
    let ghost all = entries.deep_view();
    let mut highest: Option<i64> = None;
    let mut i: usize = 0;
    while i < entries.len()
        invariant
            0 <= i <= entries@.len(),
            all == entries.deep_view(),
            highest_seq(all.take(i as int), story_id@) == (match highest {
                Some(seq) => Some(seq as int),
                None => None,
            }),
        decreases entries@.len() - i,
    {
        proof {
            assert(all.take(i + 1).drop_last() =~= all.take(i as int));
            assert(all.take(i + 1).last() == entries@[i as int]@);
        }
        if text::same_text(entries[i].story_id.as_str(), story_id) {
            let seq: i64 = entries[i].seq;
            highest = match highest {
                Some(known) => if seq > known {
                    Some(seq)
                } else {
                    Some(known)
                },
                None => Some(seq),
            };
        }
        i += 1;
    }
    proof {
        rows::lemma_take_all(all);
    }
    match highest {
        Some(seq) => if seq == i64::MAX {
            None
        } else {
            Some(seq + 1)
        },
        None => Some(0),
    }
}

/// Whether a story has an entry with an identifier.
pub fn belongs_to_story(entries: &Vec<LedgerEntry>, id: &str, story_id: &str) -> (r: bool)
    ensures
        r == belongs(entries.deep_view(), id@, story_id@),
{
    let ghost all = entries.deep_view();
    let mut i: usize = 0;
    while i < entries.len()
        invariant
            0 <= i <= entries@.len(),
            all == entries.deep_view(),
            forall|k: int|
                0 <= k < i ==> !((#[trigger] all[k]).id == id@ && all[k].story_id == story_id@),
        decreases entries@.len() - i,
    {
        assert(all[i as int] == entries@[i as int]@);
        if text::same_text(entries[i].id.as_str(), id) && text::same_text(
            entries[i].story_id.as_str(),
            story_id,
        ) {
            return true;
        }
        i += 1;
    }
    false
}

/// Whether the ledger has an entry with an identifier.
pub fn has_entry(entries: &Vec<LedgerEntry>, id: &str) -> (r: bool)
    ensures
        r == holds_id(entries.deep_view(), id@),
{
    let ghost all = entries.deep_view();
    let mut i: usize = 0;
    while i < entries.len()
        invariant
            0 <= i <= entries@.len(),
            all == entries.deep_view(),
            forall|k: int| 0 <= k < i ==> (#[trigger] all[k]).id != id@,
        decreases entries@.len() - i,
    {
        assert(all[i as int] == entries@[i as int]@);
        if text::same_text(entries[i].id.as_str(), id) {
            return true;
        }
        i += 1;
    }
    false
}

/// Notes the time at which a story was changed.
pub fn touch_story(store: &mut Store, story_id: &str, now: &str)
    ensures
        final(store)@ == (StoreView {
            stories: touched(old(store)@.stories, story_id@, now@),
            ..old(store)@
        }),
{
    let ghost before = store.stories.deep_view();
    let ghost target = touched(before, story_id@, now@);
    let mut i: usize = 0;
    while i < store.stories.len()
        invariant
            0 <= i <= store.stories@.len(),
            before == old(store)@.stories,
            target == touched(before, story_id@, now@),
            store.stories@.len() == before.len(),
            forall|k: int| 0 <= k < i ==> (#[trigger] store.stories@[k])@ == target[k],
            forall|k: int| i <= k < before.len() ==> (#[trigger] store.stories@[k])@ == before[k],
            store@ == (StoreView { stories: store.stories.deep_view(), ..old(store)@ }),
        decreases store.stories@.len() - i,
    {
        if text::same_text(store.stories[i].id.as_str(), story_id) {
            let mut row = store.stories[i].copy();
            row.updated_at = now.to_string();
            store.stories.set(i, row);
        }
        i += 1;
    }
    assert(store.stories.deep_view() =~= target);
}

/// Adds an entry with a given identifier at a given time.
pub fn append_entry_at(store: &mut Store, id: &str, now: &str, draft: &Draft) -> (r: AppResult<LedgerEntry>)
    ensures
        match append_refusal(old(store)@, id@, draft@) {
            Some(refusal) => r is Err && r->Err_0@ == refusal && final(store)@ == old(store)@,
            None => {
                &&& r is Ok
                &&& r->Ok_0@ == drafted_entry(old(store)@, id@, now@, draft@)
                &&& final(store)@ == appended(old(store)@, r->Ok_0@)
            },
        },
{
    if !text::same_text(draft.visibility, VISIBLE) && !text::same_text(draft.visibility, HIDDEN) {
        return Err(AppError::Invalid(text::concat2("invalid ledger visibility: ", draft.visibility)));
    }
    if let Some(target_id) = draft.target_entry_id {
        if !belongs_to_story(&store.entries, target_id, draft.story_id) {
            return Err(
                AppError::Invalid(
                    text::concat4(
                        "target ledger entry ",
                        target_id,
                        " does not belong to story ",
                        draft.story_id,
                    ),
                ),
            );
        }
    }
    let seq: i64 = match next_seq(&store.entries, draft.story_id) {
        Some(seq) => seq,
        None => {
            return Err(AppError::Db("ledger sequence is exhausted".to_string()));
        },
    };
    if has_entry(&store.entries, id) {
        return Err(AppError::Db("ledger entry identifier is already in use".to_string()));
    }
    let entry = LedgerEntry {
        id: id.to_string(),
        story_id: draft.story_id.to_string(),
        seq,
        kind: draft.kind.to_string(),
        visibility: draft.visibility.to_string(),
        content: text::owned_option(draft.content),
        payload: draft.payload.copy(),
        target_entry_id: text::owned_option(draft.target_entry_id),
        turn_id: text::owned_option(draft.turn_id),
        created_at: now.to_string(),
    };
    let row = entry.copy();
    let ghost before = store.entries;
    let ghost value = row;
    store.entries.push(row);
    proof {
        rows::lemma_deep_push(before, store.entries, value);
    }
    touch_story(store, draft.story_id, now);
    Ok(entry)
}

/// Adds an entry: behind all others of its story, with a new identifier, at the present
/// time.
pub fn append_draft(store: &mut Store, draft: &Draft) -> (r: AppResult<LedgerEntry>)
    ensures
        append_outcome(old(store)@, final(store)@, draft@, r),
{
    let id = stamp::fresh_id();
    let now = stamp::now();
    append_entry_at(store, id.as_str(), now.as_str(), draft)
}

/// Whether a new identifier can be one that an entry has: some entry has one as long as new ones
/// are.
pub open spec fn may_clash(entries: Seq<EntryView>) -> bool {
    exists|id: Seq<char>| stamp::fresh_like(id) && #[trigger] holds_id(entries, id)
}

/// Whether an error is why a draft did not become an entry with a new identifier: what refuses the
/// draft, or, where nothing does, that the identifier is taken.
pub open spec fn append_failed(before: StoreView, draft: DraftView, e: ErrorView) -> bool {
    match draft_refusal(before, draft) {
        Some(refusal) => e == refusal,
        None => e == ErrorView::Db("ledger entry identifier is already in use"@) && may_clash(before.entries),
    }
}

/// What adding an entry with a new identifier at the present time comes to.
pub open spec fn append_outcome(
    before: StoreView,
    after: StoreView,
    draft: DraftView,
    r: AppResult<LedgerEntry>,
) -> bool {
    match r {
        Ok(entry) => {
            &&& stamp::fresh_like(entry@.id)
            &&& append_refusal(before, entry@.id, draft) is None
            &&& entry@ == drafted_entry(before, entry@.id, entry@.created_at, draft)
            &&& after == appended(before, entry@)
        },
        Err(e) => after == before && append_failed(before, draft, e@),
    }
}

/// Adds an entry: behind all others of its story, with a new identifier, at the present
/// time.
pub fn append_entry(
    store: &mut Store,
    story_id: &str,
    kind: &str,
    visibility: &str,
    content: Option<&str>,
    payload: &Json,
    target_entry_id: Option<&str>,
    turn_id: Option<&str>,
) -> (r: AppResult<LedgerEntry>)
    ensures
        append_outcome(
            old(store)@,
            final(store)@,
            (DraftView {
                story_id: story_id@,
                kind: kind@,
                visibility: visibility@,
                content: content.deep_view(),
                payload: payload@,
                target_entry_id: target_entry_id.deep_view(),
                turn_id: turn_id.deep_view(),
            }),
            r,
        ),
{
    append_draft(
        store,
        &Draft { story_id, kind, visibility, content, payload, target_entry_id, turn_id },
    )
}

/// The payload that a row's text stands for: the value, or an object without fields where
/// the text is not JSON.
pub open spec fn stored_payload(text: Seq<char>) -> JsonView {
    match json::parsed(text) {
        Some(v) => v,
        None => JsonView::Object(Seq::empty()),
    }
}

/// The payload that a row's text stands for: the value, or an object without fields where
/// the text is not JSON.
pub fn payload_of_row(text: &str) -> (r: Json)
    ensures
        r@ == stored_payload(text@),
{
    match json::parse(text) {
        Some(v) => v,
        None => {
            let r = Json::Object(Vec::new());
            assert(r@->Object_0 =~= Seq::empty());
            r
        },
    }
}

/// The text that a row keeps of a payload. A payload whose numbers are whole is read back
/// from it as it was.
pub fn row_of_payload(payload: &Json) -> (r: String)
    ensures
        r@ == json::printed(payload@),
        json::storable(payload@, json::DEPTH_LIMIT as nat) ==> stored_payload(r@) == payload@,
{
    json::print(payload)
}

/// The condition of having an identifier.
pub open spec fn entry_is(id: Seq<char>) -> spec_fn(EntryView) -> bool {
    |e: EntryView| e.id == id
}

/// The first entry that has an identifier.
pub open spec fn entry_with_id(entries: Seq<EntryView>, id: Seq<char>) -> Option<EntryView> {
    rows::first_where(entries, entry_is(id))
}

/// Where the entry with an identifier stands.
pub fn entry_position(entries: &Vec<LedgerEntry>, id: &str) -> (r: Option<usize>)
    ensures
        match r {
            Some(i) => {
                &&& i < entries@.len()
                &&& entries@[i as int]@.id == id@
                &&& entry_with_id(entries.deep_view(), id@) == Some(entries@[i as int]@)
            },
            None => entry_with_id(entries.deep_view(), id@) is None,
        },
{
    let ghost p = entry_is(id@);
    let meant = |row: &LedgerEntry| -> (b: bool)
        ensures
            b == p(row.deep_view()),
    {
        text::same_text(row.id.as_str(), id)
    };
    rows::position(entries, meant, Ghost(p))
}

/// The entry that has an identifier.
pub fn get_entry(store: &Store, id: &str) -> (r: AppResult<LedgerEntry>)
    ensures
        match entry_with_id(store@.entries, id@) {
            Some(entry) => r is Ok && r->Ok_0@ == entry,
            None => r is Err && r->Err_0@ == ErrorView::NotFound("ledger entry "@ + id@ + " not found"@),
        },
{
    match entry_position(&store.entries, id) {
        Some(i) => Ok(store.entries[i].copy()),
        None => Err(AppError::NotFound(text::concat3("ledger entry ", id, " not found"))),
    }
}

impl Numbered for LedgerEntry {
    open spec fn number_of(row: EntryView) -> int {
        row.seq as int
    }

    fn number(&self) -> (r: i64) {
        self.seq
    }
}

/// The sequence number by which entries are ordered.
pub open spec fn entry_number() -> spec_fn(EntryView) -> int {
    sequence::number_fn::<LedgerEntry>()
}

/// The condition of belonging to a story, from a sequence number on.
pub open spec fn own_since(story_id: Seq<char>, since: i64) -> spec_fn(EntryView) -> bool {
    |e: EntryView| e.story_id == story_id && e.seq >= since
}

/// The entries of a story from a sequence number on, in the order of their sequence numbers.
pub open spec fn entries_since(entries: Seq<EntryView>, story_id: Seq<char>, since: i64) -> Seq<EntryView> {
    sequence::in_sequence(entries.filter(own_since(story_id, since)), entry_number())
}

/// The entries of a story in the order of their sequence numbers.
pub open spec fn story_entries(entries: Seq<EntryView>, story_id: Seq<char>) -> Seq<EntryView> {
    entries_since(entries, story_id, i64::MIN)
}

/// Whether no entry of its story comes after an entry.
pub open spec fn newest(entries: Seq<EntryView>, entry: EntryView) -> bool {
    forall|i: int|
        0 <= i < entries.len() && (#[trigger] entries[i]).story_id == entry.story_id ==> entries[i].seq <= entry.seq
}

/// What is listed of a story is what the ledger holds of it.
pub proof fn lemma_listed(entries: Seq<EntryView>, story_id: Seq<char>, since: i64, e: EntryView)
    ensures
        entries_since(entries, story_id, since).contains(e) <==> entries.contains(e) && e.story_id == story_id && e.seq
            >= since,
{
    let own = own_since(story_id, since);
    rows::lemma_filter_member(entries, own, e);
    sequence::lemma_member(entries.filter(own), entry_number(), e);
}

/// Entries with identifiers of their own are listed with them.
pub proof fn lemma_listed_distinct(entries: Seq<EntryView>, story_id: Seq<char>, since: i64)
    requires
        distinct_ids(entries),
    ensures
        distinct_ids(entries_since(entries, story_id, since)),
{
    let own = own_since(story_id, since);
    let f = entries.filter(own);
    let s = entries_since(entries, story_id, since);
    let rel = |a: EntryView, b: EntryView| a.id != b.id;
    rows::lemma_filter_pairwise(entries, own, rel);
    assert forall|i: int, k: int| 0 <= i < f.len() && 0 <= k < f.len() && i != k implies rel(
        #[trigger] f[i],
        #[trigger] f[k],
    ) by {
        if i < k {
            assert(rel(f[i], f[k]));
        } else {
            assert(rel(f[k], f[i]));
        }
    }
    sequence::lemma_pairwise(f, entry_number(), rel);
    assert forall|i: int, k: int| 0 <= i < k < s.len() implies (#[trigger] s[i]).id != (#[trigger] s[k]).id by {
        assert(rel(s[i], s[k]));
    }
}

/// An entry that no other of its story comes after is listed last in its story, and in no other.
pub proof fn lemma_listed_push(entries: Seq<EntryView>, entry: EntryView, story_id: Seq<char>, since: i64)
    requires
        newest(entries, entry),
    ensures
        entries_since(entries.push(entry), story_id, since) == (if entry.story_id == story_id && entry.seq >= since {
            entries_since(entries, story_id, since).push(entry)
        } else {
            entries_since(entries, story_id, since)
        }),
{
    let own = own_since(story_id, since);
    let s = entries.filter(own);
    reveal(Seq::filter);
    assert(entries.push(entry).drop_last() =~= entries);
    if own(entry) {
        assert forall|i: int| 0 <= i < s.len() implies entry_number()(#[trigger] s[i]) <= entry_number()(entry) by {
            assert(s.contains(s[i]));
            rows::lemma_filter_member(entries, own, s[i]);
            let k = choose|k: int| 0 <= k < entries.len() && entries[k] == s[i];
            assert(entries[k].story_id == entry.story_id);
        }
        sequence::lemma_push_highest(s, entry_number(), entry);
    }
}

/// What is listed of a ledger from which entries were taken is what was listed, without them.
pub proof fn lemma_listed_filter(entries: Seq<EntryView>, story_id: Seq<char>, since: i64, p: spec_fn(EntryView) -> bool)
    ensures
        entries_since(entries.filter(p), story_id, since) == entries_since(entries, story_id, since).filter(p),
{
    let own = own_since(story_id, since);
    rows::lemma_filter_filter(entries, p, own);
    sequence::lemma_filter(entries.filter(own), entry_number(), p);
}

/// What is listed from a sequence number on is what is listed of the story from there on.
pub proof fn lemma_listed_since(entries: Seq<EntryView>, story_id: Seq<char>, since: i64)
    ensures
        entries_since(entries, story_id, since) == story_entries(entries, story_id).filter(own_since(story_id, since)),
{
    let own = own_since(story_id, i64::MIN);
    let late = own_since(story_id, since);
    rows::lemma_filter_implied(entries, own, late);
    sequence::lemma_filter(entries.filter(own), entry_number(), late);
}

/// Entries that stand in order are listed as they stand.
pub proof fn lemma_listed_as_they_stand(entries: Seq<EntryView>, story_id: Seq<char>, since: i64)
    requires
        in_order(entries),
    ensures
        entries_since(entries, story_id, since) == entries.filter(own_since(story_id, since)),
{
    let own = own_since(story_id, since);
    let s = entries.filter(own);
    let before = |a: EntryView, b: EntryView| a.story_id == b.story_id ==> a.seq < b.seq;
    rows::lemma_filter_pairwise(entries, own, before);
    assert forall|i: int, k: int| 0 <= i < k < s.len() implies entry_number()(#[trigger] s[i]) <= entry_number()(
        #[trigger] s[k],
    ) by {
        assert(s.contains(s[i]) && s.contains(s[k]));
        rows::lemma_filter_member(entries, own, s[i]);
        rows::lemma_filter_member(entries, own, s[k]);
        assert(before(s[i], s[k]));
    }
    sequence::lemma_rising_stays(s, entry_number());
}

/// An entry that a draft becomes is the newest of its story.
pub proof fn lemma_drafted_is_newest(store: StoreView, id: Seq<char>, now: Seq<char>, draft: DraftView)
    requires
        draft_refusal(store, draft) is None,
    ensures
        newest(store.entries, drafted_entry(store, id, now, draft)),
{
    assert forall|i: int| 0 <= i < store.entries.len() && (#[trigger] store.entries[i]).story_id == draft.story_id implies
        store.entries[i].seq <= drafted_entry(store, id, now, draft).seq by {
        lemma_highest(store.entries, draft.story_id, i);
    }
}

fn entries_from(store: &Store, story_id: &str, since: i64) -> (r: Vec<LedgerEntry>)
    ensures
        r.deep_view() == entries_since(store@.entries, story_id@, since),
{
    let entries = &store.entries;
    let ghost all = entries.deep_view();
    let ghost p = own_since(story_id@, since);
    let mut out: Vec<LedgerEntry> = Vec::new();
    let mut i: usize = 0;
    proof {
        assert(all.take(0).filter(p) =~= Seq::empty()) by {
            reveal(Seq::filter);
        }
    }
    while i < entries.len()
        invariant
            0 <= i <= entries@.len(),
            all == entries.deep_view(),
            p == own_since(story_id@, since),
            out.deep_view() == all.take(i as int).filter(p),
        decreases entries@.len() - i,
    {
        let entry = &entries[i];
        proof {
            assert(all[i as int] == entry@);
            rows::lemma_filter_step(all, p, i as int);
        }
        if text::same_text(entry.story_id.as_str(), story_id) && entry.seq >= since {
            let copy = entry.copy();
            let ghost before = out;
            let ghost value = copy;
            out.push(copy);
            proof {
                rows::lemma_deep_push(before, out, value);
            }
        }
        i += 1;
    }
    proof {
        rows::lemma_take_all(all);
    }
    sequence::line_up(out)
}

/// The entries of a story in their order.
pub fn list_logical_entries(store: &Store, story_id: &str) -> (r: Vec<LedgerEntry>)
    ensures
        r.deep_view() == story_entries(store@.entries, story_id@),
{
    entries_from(store, story_id, i64::MIN)
}

/// The entries of a story from a sequence number on, in their order.
pub fn list_logical_entries_since(store: &Store, story_id: &str, since_seq: i64) -> (r: Vec<LedgerEntry>)
    ensures
        r.deep_view() == entries_since(store@.entries, story_id@, since_seq),
{
    entries_from(store, story_id, since_seq)
}

/// The message with an identifier as it reads now, in the story that its entry belongs to.
pub open spec fn active_entry_of(entries: Seq<EntryView>, id: Seq<char>) -> Option<EntryView> {
    match entry_with_id(entries, id) {
        Some(base) => rows::first_where(
            reducer::active_messages(story_entries(entries, base.story_id)),
            entry_is(id),
        ),
        None => None,
    }
}

/// The refusal where an entry is not there, or is no message that counts.
pub open spec fn no_active_entry(entries: Seq<EntryView>, entry_id: Seq<char>) -> ErrorView {
    ErrorView::NotFound(
        (if entry_with_id(entries, entry_id) is Some {
            "active ledger entry "@
        } else {
            "ledger entry "@
        }) + entry_id + " not found"@,
    )
}

/// The message with an identifier as it reads now.
pub fn active_entry(store: &Store, entry_id: &str) -> (r: AppResult<LedgerEntry>)
    ensures
        match active_entry_of(store@.entries, entry_id@) {
            Some(entry) => r is Ok && r->Ok_0@ == entry,
            None => r is Err && r->Err_0@ == no_active_entry(store@.entries, entry_id@),
        },
{
    let base = match entry_position(&store.entries, entry_id) {
        Some(i) => store.entries[i].copy(),
        None => {
            return Err(AppError::NotFound(text::concat3("ledger entry ", entry_id, " not found")));
        },
    };
    let entries = list_logical_entries(store, base.story_id.as_str());
    let active = reducer::active_visible_entries(&entries);
    match entry_position(&active, entry_id) {
        Some(i) => Ok(active[i].copy()),
        None => Err(AppError::NotFound(text::concat3("active ledger entry ", entry_id, " not found"))),
    }
}

/// Whether the entries of each story stand in the order of their sequence numbers.
pub open spec fn in_order(entries: Seq<EntryView>) -> bool {
    forall|i: int, k: int|
        0 <= i < k < entries.len() && (#[trigger] entries[i]).story_id == (#[trigger] entries[k]).story_id
            ==> entries[i].seq < entries[k].seq
}

/// Whether no two entries have the same identifier.
pub open spec fn distinct_ids(entries: Seq<EntryView>) -> bool {
    forall|i: int, k: int|
        0 <= i < k < entries.len() ==> (#[trigger] entries[i]).id != (#[trigger] entries[k]).id
}

proof fn lemma_highest(entries: Seq<EntryView>, story_id: Seq<char>, i: int)
    requires
        0 <= i < entries.len(),
        entries[i].story_id == story_id,
    ensures
        highest_seq(entries, story_id) is Some,
        entries[i].seq <= highest_seq(entries, story_id)->0,
    decreases entries.len(),
{
    if i < entries.len() - 1 {
        assert(entries.drop_last()[i] == entries[i]);
        lemma_highest(entries.drop_last(), story_id, i);
    }
}

/// An appended entry has a sequence number above all others of its story and an identifier
/// of its own, so that the ledger stays in order.
pub proof fn law_append_keeps_order(store: StoreView, id: Seq<char>, now: Seq<char>, draft: DraftView)
    requires
        in_order(store.entries),
        distinct_ids(store.entries),
        append_refusal(store, id, draft) is None,
    ensures
        in_order(appended(store, drafted_entry(store, id, now, draft)).entries),
        distinct_ids(appended(store, drafted_entry(store, id, now, draft)).entries),
        forall|i: int|
            0 <= i < store.entries.len() && (#[trigger] store.entries[i]).story_id == draft.story_id
                ==> store.entries[i].seq < drafted_entry(store, id, now, draft).seq,
{
    let entry = drafted_entry(store, id, now, draft);
    let after = appended(store, entry).entries;
    assert forall|i: int|
        0 <= i < store.entries.len() && (#[trigger] store.entries[i]).story_id
            == draft.story_id implies store.entries[i].seq < entry.seq by {
        lemma_highest(store.entries, draft.story_id, i);
    }
    assert forall|i: int, k: int|
        0 <= i < k < after.len() && (#[trigger] after[i]).story_id == (#[trigger] after[k]).story_id
        implies after[i].seq < after[k].seq by {
        assert(after[i] == store.entries[i]);
        if k < store.entries.len() {
            assert(after[k] == store.entries[k]);
        }
    }
    assert forall|i: int, k: int|
        0 <= i < k < after.len() implies (#[trigger] after[i]).id != (#[trigger] after[k]).id by {
        assert(after[i] == store.entries[i]);
        if k < store.entries.len() {
            assert(after[k] == store.entries[k]);
        } else if after[i].id == id {
            assert(holds_id(store.entries, id));
        }
    }
}

/// An appended entry is listed behind all that its story had, from any sequence number on
/// that its own is not below.
pub proof fn law_appended_entry_is_listed_last(store: StoreView, entry: EntryView, since: i64)
    requires
        newest(store.entries, entry),
        entry.seq >= since,
    ensures
        entries_since(appended(store, entry).entries, entry.story_id, since) == entries_since(
            store.entries,
            entry.story_id,
            since,
        ).push(entry),
{
    lemma_listed_push(store.entries, entry, entry.story_id, since);
}

/// Every entry refreshes the story that it belongs to, and leaves the other stories as they were.
pub proof fn law_entry_refreshes_its_story(store: StoreView, entry: EntryView, i: int)
    requires
        0 <= i < store.stories.len(),
    ensures
        appended(store, entry).stories.len() == store.stories.len(),
        appended(store, entry).stories[i] == (if store.stories[i].id == entry.story_id {
            StoryRowView { updated_at: entry.created_at, ..store.stories[i] }
        } else {
            store.stories[i]
        }),
{
}

/// The entries of a story are listed from a sequence number on, all of them and none of another
/// story, in the order of their sequence numbers, and none twice that the ledger has once.
pub proof fn law_story_is_listed_in_sequence(entries: Seq<EntryView>, story_id: Seq<char>, since: i64)
    ensures
        ({
            let list = entries_since(entries, story_id, since);
            &&& forall|e: EntryView|
                #[trigger] list.contains(e) <==> entries.contains(e) && e.story_id == story_id && e.seq >= since
            &&& forall|i: int, k: int| 0 <= i < k < list.len() ==> (#[trigger] list[i]).seq <= (#[trigger] list[k]).seq
            &&& distinct_ids(entries) ==> distinct_ids(list)
            &&& list.len() == entries.filter(|e: EntryView| e.story_id == story_id && e.seq >= since).len()
        }),
{
    let own = own_since(story_id, since);
    let kept = entries.filter(own);
    let list = entries_since(entries, story_id, since);
    assert((|e: EntryView| e.story_id == story_id && e.seq >= since) =~= own);
    assert forall|e: EntryView|
        #[trigger] list.contains(e) <==> entries.contains(e) && e.story_id == story_id && e.seq >= since by {
        lemma_listed(entries, story_id, since, e);
    }
    sequence::lemma_rises(kept, entry_number());
    let number = entry_number();
    assert forall|i: int, k: int| 0 <= i < k < list.len() implies (#[trigger] list[i]).seq <= (#[trigger] list[k]).seq by {
        assert(number(list[i]) <= number(list[k]));
    }
    sequence::lemma_member(kept, number, list[0]);
    if distinct_ids(entries) {
        let rel = |a: EntryView, b: EntryView| a.id != b.id;
        assert forall|i: int, k: int| 0 <= i < k < entries.len() && own(entries[i]) && own(entries[k]) implies rel(
            #[trigger] entries[i],
            #[trigger] entries[k],
        ) by {}
        rows::lemma_filter_pairwise(entries, own, rel);
        assert forall|i: int, k: int| 0 <= i < kept.len() && 0 <= k < kept.len() && i != k implies rel(
            #[trigger] kept[i],
            #[trigger] kept[k],
        ) by {
            if i < k {
                assert(rel(kept[i], kept[k]));
            } else {
                assert(rel(kept[k], kept[i]));
            }
        }
        sequence::lemma_pairwise(kept, number, rel);
        assert forall|i: int, k: int| 0 <= i < k < list.len() implies (#[trigger] list[i]).id != (#[trigger] list[k]).id by {
            assert(rel(list[i], list[k]));
        }
    }
}

/// The first entry of a story is numbered 0, and each further one by one more than the highest that
/// the story has. An entry targets only an entry of its own story, and is seen or hidden.
pub proof fn law_entry_is_numbered_next(store: StoreView, id: Seq<char>, now: Seq<char>, draft: DraftView)
    requires
        append_refusal(store, id, draft) is None,
    ensures
        ({
            let entry = drafted_entry(store, id, now, draft);
            &&& (forall|i: int|
                0 <= i < store.entries.len() ==> (#[trigger] store.entries[i]).story_id != draft.story_id)
                ==> entry.seq == 0
            &&& (exists|i: int|
                0 <= i < store.entries.len() && (#[trigger] store.entries[i]).story_id == draft.story_id)
                ==> exists|i: int|
                0 <= i < store.entries.len() && (#[trigger] store.entries[i]).story_id == draft.story_id
                    && store.entries[i].seq + 1 == entry.seq
            &&& forall|i: int|
                0 <= i < store.entries.len() && (#[trigger] store.entries[i]).story_id == draft.story_id
                    ==> store.entries[i].seq < entry.seq
            &&& draft.target_entry_id is Some ==> exists|i: int|
                0 <= i < store.entries.len() && (#[trigger] store.entries[i]).id == draft.target_entry_id->0
                    && store.entries[i].story_id == draft.story_id
            &&& draft.visibility == "visible"@ || draft.visibility == "hidden"@
            &&& forall|i: int| 0 <= i < store.entries.len() ==> (#[trigger] store.entries[i]).id != id
            &&& entry.id == id && entry.story_id == draft.story_id && entry.kind == draft.kind && entry.visibility
                == draft.visibility && entry.content == draft.content && entry.payload == draft.payload
                && entry.target_entry_id == draft.target_entry_id && entry.turn_id == draft.turn_id
                && entry.created_at == now
        }),
{
    let entry = drafted_entry(store, id, now, draft);
    lemma_highest_is_there(store.entries, draft.story_id);
    assert forall|i: int|
        0 <= i < store.entries.len() && (#[trigger] store.entries[i]).story_id == draft.story_id
            implies store.entries[i].seq < entry.seq by {
        lemma_highest(store.entries, draft.story_id, i);
    }
    if exists|i: int| 0 <= i < store.entries.len() && (#[trigger] store.entries[i]).story_id == draft.story_id {
        let i = choose|i: int| 0 <= i < store.entries.len() && (#[trigger] store.entries[i]).story_id == draft.story_id;
        lemma_highest(store.entries, draft.story_id, i);
    }
    assert forall|i: int| 0 <= i < store.entries.len() implies (#[trigger] store.entries[i]).id != id by {
        if store.entries[i].id == id {
            assert(holds_id(store.entries, id));
        }
    }
}

proof fn lemma_highest_is_there(entries: Seq<EntryView>, story_id: Seq<char>)
    ensures
        highest_seq(entries, story_id) is Some ==> exists|i: int|
            0 <= i < entries.len() && (#[trigger] entries[i]).story_id == story_id && entries[i].seq == highest_seq(
                entries,
                story_id,
            )->0,
    decreases entries.len(),
{
    if entries.len() > 0 {
        let t = entries.drop_last();
        lemma_highest_is_there(t, story_id);
        if highest_seq(t, story_id) is Some {
            let i = choose|i: int|
                0 <= i < t.len() && (#[trigger] t[i]).story_id == story_id && t[i].seq == highest_seq(t, story_id)->0;
            assert(entries[i] == t[i]);
        }
        assert(entries[entries.len() - 1] == entries.last());
    }
}

/// An entry reads as the message of its story that has its identifier, as it was last edited; an
/// entry that is no such message does not read at all.
pub proof fn law_entry_reads_as_its_message(entries: Seq<EntryView>, id: Seq<char>)
    ensures
        match active_entry_of(entries, id) {
            Some(found) => {
                &&& found.id == id
                &&& exists|i: int|
                    0 <= i < entries.len() && (#[trigger] entries[i]).id == id && reducer::active_messages(
                        story_entries(entries, entries[i].story_id),
                    ).contains(found)
            },
            None => (forall|i: int| 0 <= i < entries.len() ==> (#[trigger] entries[i]).id != id) || exists|i: int|
                0 <= i < entries.len() && (#[trigger] entries[i]).id == id && forall|e: EntryView|
                    #[trigger] reducer::active_messages(story_entries(entries, entries[i].story_id)).contains(e)
                        ==> e.id != id,
        },
{
    let p = entry_is(id);
    let i = rows::lemma_first_where(entries, p);
    match entry_with_id(entries, id) {
        Some(base) => {
            assert(entries[i].id == id);
            let messages = reducer::active_messages(story_entries(entries, base.story_id));
            let k = rows::lemma_first_where(messages, p);
            if rows::first_where(messages, p) is Some {
                assert(messages.contains(messages[k]));
            } else {
                assert forall|e: EntryView| #[trigger] messages.contains(e) implies e.id != id by {
                    let m = choose|m: int| 0 <= m < messages.len() && messages[m] == e;
                    if e.id == id {
                        assert(p(messages[m]));
                    }
                }
            }
        },
        None => {
            assert forall|m: int| 0 <= m < entries.len() implies (#[trigger] entries[m]).id != id by {
                if entries[m].id == id {
                    assert(p(entries[m]));
                }
            }
        },
    }
}

} // verus!
