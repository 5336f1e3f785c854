//! Stories and the settings that each keeps.

use vstd::prelude::*;

use crate::error::{AppError, AppResult, ErrorView};
use crate::json::{Json, JsonView};
use crate::ledger::model::EntryView;
use crate::ledger::repository;
use crate::ledger::repository::{Draft, DraftView};
use crate::sorting::Keyed;
use crate::store::{Store, StoreView, StoryRow, StoryRowView};
use crate::{json, rows, sorting, stamp, text};

verus! {

/// The condition of being the row of a story.
pub open spec fn story_is(id: Seq<char>) -> spec_fn(StoryRowView) -> bool {
    |s: StoryRowView| s.id == id
}

/// The settings that a story keeps: those that its row holds, or none where the row's text
/// is not JSON.
pub open spec fn settings_of(store: StoreView, story_id: Seq<char>) -> Option<JsonView> {
    match rows::first_where(store.stories, story_is(story_id)) {
        Some(row) => Some(repository::stored_payload(row.settings_json)),
        None => None,
    }
}

/// The refusal where there is no such story.
pub open spec fn no_story(story_id: Seq<char>) -> ErrorView {
    ErrorView::NotFound("story "@ + story_id + " not found"@)
}

/// Where a story stands.
pub fn story_position(stories: &Vec<StoryRow>, id: &str) -> (r: Option<usize>)
    ensures
        match r {
            Some(i) => i < stories@.len() && rows::first_where(stories.deep_view(), story_is(id@)) == Some(
                stories@[i as int]@,
            ),
            None => rows::first_where(stories.deep_view(), story_is(id@)) is None,
        },
{
    let ghost p = story_is(id@);
    let meant = |row: &StoryRow| -> (b: bool)
        ensures
            b == p(row.deep_view()),
    {
        text::same_text(row.id.as_str(), id)
    };
    rows::position(stories, meant, Ghost(p))
}

/// The refusal where there is no such story.
pub fn story_not_found(story_id: &str) -> (r: AppError)
    ensures
        r@ == no_story(story_id@),
{
    AppError::NotFound(text::concat3("story ", story_id, " not found"))
}

/// The settings that a story keeps.
pub fn read_settings(store: &Store, story_id: &str) -> (r: AppResult<Json>)
    ensures
        match settings_of(store@, story_id@) {
            Some(settings) => r is Ok && r->Ok_0@ == settings,
            None => r is Err && r->Err_0@ == no_story(story_id@),
        },
{
    match story_position(&store.stories, story_id) {
        Some(i) => Ok(repository::payload_of_row(store.stories[i].settings_json.as_str())),
        None => Err(story_not_found(story_id)),
    }
}

/// The row of a story after its settings were written at a time.
pub open spec fn resettled(story_id: Seq<char>, settings_json: Seq<char>, now: Seq<char>) -> spec_fn(
    StoryRowView,
) -> StoryRowView {
    |s: StoryRowView|
        if s.id == story_id {
            StoryRowView { settings_json, updated_at: now, ..s }
        } else {
            s
        }
}

/// The tables after the settings of a story were written at a time.
pub open spec fn saved(store: StoreView, story_id: Seq<char>, settings: JsonView, now: Seq<char>) -> StoreView {
    StoreView {
        stories: store.stories.map_values(resettled(story_id, json::printed(settings), now)),
        ..store
    }
}

proof fn lemma_first_where_mapped(stories: Seq<StoryRowView>, f: spec_fn(StoryRowView) -> StoryRowView, id: Seq<char>)
    requires
        forall|s: StoryRowView| (#[trigger] f(s)).id == s.id,
    ensures
        rows::first_where(stories.map_values(f), story_is(id)) == (match rows::first_where(
            stories,
            story_is(id),
        ) {
            Some(s) => Some(f(s)),
            None => None,
        }),
    decreases stories.len(),
{
    if stories.len() > 0 {
        let t = stories.drop_first();
        assert(stories.map_values(f).drop_first() =~= t.map_values(f));
        assert(f(stories[0]).id == stories[0].id);
        lemma_first_where_mapped(t, f, id);
    }
}

/// Noting the time of a change leaves the settings of every story as they were.
pub proof fn lemma_touched_settings(store: StoreView, story_id: Seq<char>, now: Seq<char>, id: Seq<char>)
    ensures
        settings_of(
            (StoreView { stories: repository::touched(store.stories, story_id, now), ..store }),
            id,
        ) == settings_of(store, id),
{
    let f = |s: StoryRowView|
        if s.id == story_id {
            StoryRowView { updated_at: now, ..s }
        } else {
            s
        };
    lemma_first_where_mapped(store.stories, f, id);
}

/// Writes the settings of a story and notes the time. Settings whose numbers are whole are
/// read back as they were written.
pub fn save_settings(store: &mut Store, story_id: &str, settings: &Json, now: &str)
    ensures
        final(store)@ == saved(old(store)@, story_id@, settings@, now@),
        settings_of(old(store)@, story_id@) is Some && json::storable(settings@, json::DEPTH_LIMIT as nat)
            ==> settings_of(final(store)@, story_id@) == Some(settings@),
{
    let written = json::print(settings);
    let ghost before = store.stories.deep_view();
    let ghost f = resettled(story_id@, written@, now@);
    let ghost target = before.map_values(f);
    let mut i: usize = 0;
    while i < store.stories.len()
        invariant
            0 <= i <= store.stories@.len(),
            before == old(store)@.stories,
            f == resettled(story_id@, written@, now@),
            target == before.map_values(f),
            store.stories@.len() == before.len(),
            forall|k: int| 0 <= k < i ==> (#[trigger] store.stories@[k])@ == target[k],
            forall|k: int| i <= k < before.len() ==> (#[trigger] store.stories@[k])@ == before[k],
            store@ == (StoreView { stories: store.stories.deep_view(), ..old(store)@ }),
        decreases store.stories@.len() - i,
    {
        if text::same_text(store.stories[i].id.as_str(), story_id) {
            let mut row = store.stories[i].copy();
            row.settings_json = written.clone();
            row.updated_at = now.to_string();
            store.stories.set(i, row);
        }
        i += 1;
    }
    assert(store.stories.deep_view() =~= target);
    proof {
        lemma_first_where_mapped(before, f, story_id@);
        lemma_first_where_found(before, story_id@);
    }
}

proof fn lemma_first_where_found(stories: Seq<StoryRowView>, id: Seq<char>)
    ensures
        rows::first_where(stories, story_is(id)) is Some ==> rows::first_where(stories, story_is(id))->0.id
            == id,
{
    let i = rows::lemma_first_where(stories, story_is(id));
}

/// Whether an entry is what a draft became after the settings of a story were written.
pub open spec fn settled_with(
    before: StoreView,
    after: StoreView,
    story_id: Seq<char>,
    settings: JsonView,
    draft: DraftView,
    now: Seq<char>,
    entry: EntryView,
) -> bool {
    let mid = saved(before, story_id, settings, now);
    &&& repository::append_refusal(mid, entry.id, draft) is None
    &&& entry == repository::drafted_entry(mid, entry.id, entry.created_at, draft)
    &&& after == repository::appended(mid, entry)
}

/// What writing the settings of a story together with an entry that tells of it comes to.
pub open spec fn settings_outcome(
    before: StoreView,
    after: StoreView,
    story_id: Seq<char>,
    settings: JsonView,
    draft: DraftView,
    r: AppResult<()>,
) -> bool {
    match r {
        Ok(_) => {
            &&& exists|now: Seq<char>, entry: EntryView| #[trigger]
                settled_with(before, after, story_id, settings, draft, now, entry)
            &&& settings_of(before, story_id) is Some && json::storable(settings, json::DEPTH_LIMIT as nat)
                ==> settings_of(after, story_id) == Some(settings)
        },
        Err(e) => after == before && repository::append_failed(before, draft, e@),
    }
}

/// Writes the settings of a story together with an entry that tells of it, or neither.
pub fn record_settings(store: &mut Store, story_id: &str, settings: &Json, draft: &Draft) -> (r: AppResult<()>)
    ensures
        settings_outcome(old(store)@, final(store)@, story_id@, settings@, draft@, r),
{
    let backup = store.copy();
    let now = stamp::now();
    save_settings(store, story_id, settings, now.as_str());
    let ghost mid = store@;
    match repository::append_draft(store, draft) {
        Ok(entry) => {
            proof {
                assert(settled_with(old(store)@, store@, story_id@, settings@, draft@, now@, entry@));
                lemma_touched_settings(mid, entry@.story_id, entry@.created_at, story_id@);
            }
            Ok(())
        },
        Err(e) => {
            *store = backup;
            Err(e)
        },
    }
}

impl Keyed for StoryRow {
    open spec fn key_of(row: StoryRowView) -> Seq<char> {
        row.updated_at
    }

    fn key(&self) -> (r: &str) {
        self.updated_at.as_str()
    }
}

/// The stories, those that were changed last before the others.
pub open spec fn listed_stories(store: StoreView) -> Seq<StoryRowView> {
    sorting::ordered(store.stories, sorting::key_fn::<StoryRow>()).reverse()
}

/// The stories, the one that was changed last in front.
pub fn list_stories(store: &Store) -> (r: Vec<StoryRow>)
    ensures
        r.deep_view() == listed_stories(store@),
{
    let sorted = sorting::sort_rows(rows::copy_rows(&store.stories));
    let mut out: Vec<StoryRow> = Vec::new();
    let mut i: usize = sorted.len();
    while i > 0
        invariant
            0 <= i <= sorted@.len(),
            out@.len() == sorted@.len() - i,
            forall|k: int| 0 <= k < out@.len() ==> (#[trigger] out@[k])@ == sorted@[sorted@.len() - 1 - k]@,
        decreases i,
    {
        i -= 1;
        out.push(sorted[i].copy());
    }
    assert(out.deep_view() =~= sorted.deep_view().reverse());
    out
}

/// The row of a new story.
pub open spec fn fresh_story(id: Seq<char>, title: Seq<char>, now: Seq<char>) -> StoryRowView {
    StoryRowView { id, title: text::trimmed(title), created_at: now, updated_at: now, settings_json: "{}"@ }
}

/// Adds a story with a given identifier at a given time.
pub fn create_story_at(store: &mut Store, id: &str, now: &str, title: &str) -> (r: AppResult<StoryRow>)
    ensures
        if text::blank(title@) {
            r is Err && r->Err_0@ == ErrorView::Invalid("title must not be empty"@) && final(store)@ == old(
                store,
            )@
        } else if rows::first_where(old(store)@.stories, story_is(id@)) is Some {
            r is Err && r->Err_0@ == ErrorView::Db("story identifier is already in use"@) && final(store)@
                == old(store)@
        } else {
            &&& r is Ok
            &&& r->Ok_0@ == fresh_story(id@, title@, now@)
            &&& final(store)@ == (StoreView {
                stories: old(store)@.stories.push(r->Ok_0@),
                ..old(store)@
            })
        },
{
    if text::is_blank(title) {
        return Err(AppError::Invalid("title must not be empty".to_string()));
    }
    if story_position(&store.stories, id).is_some() {
        return Err(AppError::Db("story identifier is already in use".to_string()));
    }
    let row = StoryRow {
        id: id.to_string(),
        title: text::trim(title),
        created_at: now.to_string(),
        updated_at: now.to_string(),
        settings_json: "{}".to_string(),
    };
    let copy = row.copy();
    let ghost before = store.stories;
    let ghost value = copy;
    store.stories.push(copy);
    proof {
        rows::lemma_deep_push(before, store.stories, value);
    }
    Ok(row)
}

/// Adds a story with a new identifier at the present time. It has no settings of its own.
pub fn create_story(store: &mut Store, title: &str) -> (r: AppResult<StoryRow>)
    ensures
        match r {
            Ok(row) => {
                &&& !text::blank(title@)
                &&& stamp::fresh_like(row@.id)
                &&& rows::first_where(old(store)@.stories, story_is(row@.id)) is None
                &&& row@ == fresh_story(row@.id, title@, row@.created_at)
                &&& final(store)@ == (StoreView {
                    stories: old(store)@.stories.push(row@),
                    ..old(store)@
                })
            },
            Err(e) => {
                &&& final(store)@ == old(store)@
                &&& if text::blank(title@) {
                    e@ == ErrorView::Invalid("title must not be empty"@)
                } else {
                    &&& e@ == ErrorView::Db("story identifier is already in use"@)
                    &&& exists|id: Seq<char>|
                        stamp::fresh_like(id) && rows::first_where(
                            old(store)@.stories,
                            #[trigger] story_is(id),
                        ) is Some
                }
            },
        },
{
    let id = stamp::fresh_id();
    let now = stamp::now();
    create_story_at(store, id.as_str(), now.as_str(), title)
}

/// The stories are listed each once, and none behind one that was changed before it.
pub proof fn law_stories_are_listed_newest_first(store: StoreView) -> (places: Seq<int>)
    ensures
        sorting::all_places(places, store.stories.len() as int),
        listed_stories(store).len() == store.stories.len(),
        forall|m: int| 0 <= m < places.len() ==> listed_stories(store)[m] == store.stories[#[trigger] places[m]],
        forall|a: int, b: int|
            0 <= a < b < places.len() ==> !text::precedes(
                (#[trigger] listed_stories(store)[a]).updated_at,
                (#[trigger] listed_stories(store)[b]).updated_at,
            ),
{
    let key = sorting::key_fn::<StoryRow>();
    let list = sorting::ordered(store.stories, key);
    let up = sorting::law_ordered_is_a_rearrangement(store.stories, key);
    sorting::law_ordered(store.stories, key);
    let n = up.len() as int;
    let places = Seq::new(n as nat, |m: int| up[n - 1 - m]);
    let newest = listed_stories(store);
    assert forall|m: int| 0 <= m < n implies newest[m] == store.stories[#[trigger] places[m]] by {
        assert(newest[m] == list[n - 1 - m]);
        assert(list[n - 1 - m] == store.stories[up[n - 1 - m]]);
    }
    assert forall|k: int| 0 <= k < n implies #[trigger] places.contains(k) by {
        assert(up.contains(k));
        let m = choose|m: int| 0 <= m < n && up[m] == k;
        assert(places[n - 1 - m] == k);
    }
    assert forall|a: int, b: int| 0 <= a < b < n implies !text::precedes(
        (#[trigger] newest[a]).updated_at,
        (#[trigger] newest[b]).updated_at,
    ) by {
        assert(newest[a] == list[n - 1 - a]);
        assert(newest[b] == list[n - 1 - b]);
        assert(key(newest[a]) == newest[a].updated_at);
        assert(key(newest[b]) == newest[b].updated_at);
    }
    places
}

/// Saving the settings of a story changes the settings of that story and the time of its last
/// change; its title and every other story stay the same. A new story has its title without the
/// space around it, no settings, and was changed when it was made.
pub proof fn law_settings_are_saved_for_their_story(
    store: StoreView,
    story_id: Seq<char>,
    settings: JsonView,
    now: Seq<char>,
    title: Seq<char>,
)
    ensures
        saved(store, story_id, settings, now).stories.len() == store.stories.len(),
        forall|i: int|
            #![trigger saved(store, story_id, settings, now).stories[i]]
            0 <= i < store.stories.len() ==> saved(store, story_id, settings, now).stories[i] == (
            if store.stories[i].id == story_id {
                StoryRowView { settings_json: json::printed(settings), updated_at: now, ..store.stories[i] }
            } else {
                store.stories[i]
            }),
        saved(store, story_id, settings, now) == (StoreView {
            stories: saved(store, story_id, settings, now).stories,
            ..store
        }),
        fresh_story(story_id, title, now).id == story_id,
        fresh_story(story_id, title, now).title == text::trimmed(title),
        fresh_story(story_id, title, now).settings_json == "{}"@,
        fresh_story(story_id, title, now).created_at == now,
        fresh_story(story_id, title, now).updated_at == now,
{
}

/// Settings that were saved are told of by one entry behind the others, with what it is drafted
/// with; the story keeps everything but its settings, and nothing else of the tables changes. Where
/// they could not be saved, nothing changes.
pub proof fn law_saved_settings_are_told_of(
    before: StoreView,
    after: StoreView,
    story_id: Seq<char>,
    settings: JsonView,
    draft: DraftView,
    r: AppResult<()>,
)
    requires
        settings_outcome(before, after, story_id, settings, draft, r),
    ensures
        r is Err ==> after == before,
        r is Ok ==> {
            let entry = after.entries.last();
            &&& after.entries == before.entries.push(entry)
            &&& entry.story_id == draft.story_id
            &&& entry.kind == draft.kind
            &&& entry.visibility == draft.visibility
            &&& entry.content == draft.content
            &&& entry.payload == draft.payload
            &&& after == (StoreView { entries: after.entries, stories: after.stories, ..before })
            &&& after.stories.len() == before.stories.len()
            &&& forall|i: int|
                #![trigger after.stories[i]]
                0 <= i < before.stories.len() ==> {
                    &&& after.stories[i].id == before.stories[i].id
                    &&& after.stories[i].title == before.stories[i].title
                    &&& after.stories[i].created_at == before.stories[i].created_at
                    &&& after.stories[i].settings_json == (if before.stories[i].id == story_id {
                        json::printed(settings)
                    } else {
                        before.stories[i].settings_json
                    })
                }
        },
{
    if r is Ok {
        let (now, entry) = choose|now: Seq<char>, entry: EntryView| #[trigger]
            settled_with(before, after, story_id, settings, draft, now, entry);
        assert(settled_with(before, after, story_id, settings, draft, now, entry));
        assert(after.entries.last() == entry);
        assert(after.entries =~= before.entries.push(entry));
    }
}

} // verus!
