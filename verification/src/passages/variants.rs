//! Other tellings of a passage, and the one that counts.

use vstd::prelude::*;

use super::model::{Book, BookView, Passage, PassageVariant, PassageView, VariantView};
use super::owner;
use super::repository;
use crate::error::{AppError, AppResult, ErrorView};
use crate::narration::rewind::CONTENT_EMPTY;
use crate::sorting;
use crate::store::{Store, StoreView};
use crate::{rows, stamp, text};

verus! {

/// The condition of being a telling of a passage.
pub open spec fn tells(passage_id: Seq<char>) -> spec_fn(VariantView) -> bool {
    |v: VariantView| v.passage_id == passage_id
}

/// The condition of being a certain telling of a passage.
pub open spec fn variant_is(id: Seq<char>, passage_id: Seq<char>) -> spec_fn(VariantView) -> bool {
    |v: VariantView| v.id == id && v.passage_id == passage_id
}

/// The tellings of a passage in the order in which they were made.
pub open spec fn variants_of(book: BookView, passage_id: Seq<char>) -> Seq<VariantView> {
    sorting::ordered(book.variants.filter(tells(passage_id)), sorting::key_fn::<PassageVariant>())
}

/// The tellings of a passage in the order in which they were made.
pub fn list_variants(book: &Book, passage_id: &str) -> (r: Vec<PassageVariant>)
    ensures
        r.deep_view() == variants_of(book@, passage_id@),
{
    let ghost p = tells(passage_id@);
    let keep = |variant: &PassageVariant| -> (b: bool)
        ensures
            b == p(variant@),
    {
        text::same_text(variant.passage_id.as_str(), passage_id)
    };
    let own = rows::kept_rows(&book.variants, keep, Ghost(p));
    sorting::sort_rows(own)
}

/// A telling that no longer counts, if it tells a passage.
pub open spec fn deselected(passage_id: Seq<char>) -> spec_fn(VariantView) -> VariantView {
    |v: VariantView|
        if v.passage_id == passage_id {
            VariantView { is_selected: false, ..v }
        } else {
            v
        }
}

/// A telling that counts, if it has an identifier.
pub open spec fn selected(id: Seq<char>) -> spec_fn(VariantView) -> VariantView {
    |v: VariantView|
        if v.id == id {
            VariantView { is_selected: true, ..v }
        } else {
            v
        }
}

/// A telling with other words, if it is the one that counts of a passage.
pub open spec fn reworded(passage_id: Seq<char>, content: Seq<char>) -> spec_fn(VariantView) -> VariantView {
    |v: VariantView|
        if v.passage_id == passage_id && v.is_selected {
            VariantView { content, ..v }
        } else {
            v
        }
}

/// A passage with other words, if it has an identifier.
pub open spec fn rewritten(id: Seq<char>, content: Seq<char>, now: Seq<char>) -> spec_fn(PassageView) -> PassageView {
    |p: PassageView|
        if p.id == id {
            PassageView { content, edited_at: Some(now), ..p }
        } else {
            p
        }
}

/// A passage with other words and thoughts, if it has an identifier.
pub open spec fn retold(id: Seq<char>, content: Seq<char>, thoughts: Option<Seq<char>>, now: Seq<char>) -> spec_fn(
    PassageView,
) -> PassageView {
    |p: PassageView|
        if p.id == id {
            PassageView { content, thoughts, edited_at: Some(now), ..p }
        } else {
            p
        }
}

fn map_variants<F: Fn(&PassageVariant) -> PassageVariant>(
    variants: &Vec<PassageVariant>,
    change: F,
    Ghost(f): Ghost<spec_fn(VariantView) -> VariantView>,
) -> (r: Vec<PassageVariant>)
    requires
        forall|v: &PassageVariant| call_requires(change, (v,)),
        forall|v: &PassageVariant, w: PassageVariant| #[trigger] call_ensures(change, (v,), w) ==> w@ == f(v@),
    ensures
        r.deep_view() == variants.deep_view().map_values(f),
{
    let ghost all = variants.deep_view();
    let mut out: Vec<PassageVariant> = Vec::new();
    let mut i: usize = 0;
    while i < variants.len()
        invariant
            0 <= i <= variants@.len(),
            out@.len() == i,
            forall|v: &PassageVariant| call_requires(change, (v,)),
            forall|v: &PassageVariant, w: PassageVariant| #[trigger] call_ensures(change, (v,), w) ==> w@ == f(v@),
            forall|k: int| 0 <= k < i ==> (#[trigger] out@[k])@ == f(variants@[k]@),
        decreases variants@.len() - i,
    {
        let changed = change(&variants[i]);
        out.push(changed);
        i += 1;
    }
    assert(out.deep_view() =~= all.map_values(f));
    out
}

fn map_passages<F: Fn(&Passage) -> Passage>(
    passages: &Vec<Passage>,
    change: F,
    Ghost(f): Ghost<spec_fn(PassageView) -> PassageView>,
) -> (r: Vec<Passage>)
    requires
        forall|p: &Passage| call_requires(change, (p,)),
        forall|p: &Passage, q: Passage| #[trigger] call_ensures(change, (p,), q) ==> q@ == f(p@),
    ensures
        r.deep_view() == passages.deep_view().map_values(f),
{
    let ghost all = passages.deep_view();
    let mut out: Vec<Passage> = Vec::new();
    let mut i: usize = 0;
    while i < passages.len()
        invariant
            0 <= i <= passages@.len(),
            out@.len() == i,
            forall|p: &Passage| call_requires(change, (p,)),
            forall|p: &Passage, q: Passage| #[trigger] call_ensures(change, (p,), q) ==> q@ == f(p@),
            forall|k: int| 0 <= k < i ==> (#[trigger] out@[k])@ == f(passages@[k]@),
        decreases passages@.len() - i,
    {
        let changed = change(&passages[i]);
        out.push(changed);
        i += 1;
    }
    assert(out.deep_view() =~= all.map_values(f));
    out
}

fn deselect(book: &mut Book, passage_id: &str)
    ensures
        final(book)@ == (BookView {
            variants: old(book)@.variants.map_values(deselected(passage_id@)),
            ..old(book)@
        }),
{
    let ghost f = deselected(passage_id@);
    let change = |v: &PassageVariant| -> (w: PassageVariant)
        ensures
            w@ == f(v@),
    {
        let mut copy = v.copy();
        if text::same_text(v.passage_id.as_str(), passage_id) {
            copy.is_selected = false;
        }
        copy
    };
    let variants = map_variants(&book.variants, change, Ghost(f));
    book.variants = variants;
}

/// Why a passage has no other telling made.
pub open spec fn swipe_refusal(book: BookView, branch_id: Seq<char>, passage_id: Seq<char>) -> Option<ErrorView> {
    match repository::last_passage(book, branch_id) {
        None => Some(ErrorView::Invalid("no passages to swipe"@)),
        Some(last) => if last.id != passage_id {
            Some(ErrorView::Invalid("only the latest passage can be swiped"@))
        } else if last.role != "narrator"@ {
            Some(ErrorView::Invalid("only a narrator passage can be swiped"@))
        } else {
            None
        },
    }
}

/// The passage that another telling is made of: the last one, which the narrator told.
pub fn swipe_target(book: &Book, branch_id: &str, passage_id: &str) -> (r: AppResult<Passage>)
    ensures
        match swipe_refusal(book@, branch_id@, passage_id@) {
            None => r is Ok && Some(r->Ok_0@) == repository::last_passage(book@, branch_id@),
            Some(e) => r is Err && r->Err_0@ == e,
        },
{
    let last = match repository::get_last_passage(book, branch_id) {
        Some(last) => last,
        None => {
            return Err(AppError::Invalid("no passages to swipe".to_string()));
        },
    };
    if !text::same_text(last.id.as_str(), passage_id) {
        return Err(AppError::Invalid("only the latest passage can be swiped".to_string()));
    }
    if !text::same_text(last.role.as_str(), "narrator") {
        return Err(AppError::Invalid("only a narrator passage can be swiped".to_string()));
    }
    Ok(last)
}

/// The tellings of a passage with one more, which counts. The words that the passage had are kept
/// as a telling where there was none.
pub open spec fn with_variant(
    variants: Seq<VariantView>,
    target: PassageView,
    first_id: Seq<char>,
    new_id: Seq<char>,
    visible: Seq<char>,
    now: Seq<char>,
) -> Seq<VariantView> {
    let kept = if rows::any_where(variants, tells(target.id)) {
        variants
    } else {
        variants.push(
            VariantView {
                id: first_id,
                passage_id: target.id,
                content: target.content,
                is_selected: false,
                created_at: target.created_at,
            },
        )
    };
    kept.map_values(deselected(target.id)).push(
        VariantView { id: new_id, passage_id: target.id, content: visible, is_selected: true, created_at: now },
    )
}

/// The book after another telling of a passage was made.
pub open spec fn swiped(
    book: BookView,
    target: PassageView,
    first_id: Seq<char>,
    new_id: Seq<char>,
    visible: Seq<char>,
    thoughts: Option<Seq<char>>,
    now: Seq<char>,
) -> BookView {
    BookView {
        passages: book.passages.map_values(retold(target.id, visible, thoughts, now)),
        variants: with_variant(book.variants, target, first_id, new_id, visible, now),
        ..book
    }
}

fn has_variant(variants: &Vec<PassageVariant>, passage_id: &str) -> (r: bool)
    ensures
        r == rows::any_where(variants.deep_view(), tells(passage_id@)),
{
    let ghost all = variants.deep_view();
    let ghost p = tells(passage_id@);
    let mut i: usize = 0;
    while i < variants.len()
        invariant
            0 <= i <= variants@.len(),
            all == variants.deep_view(),
            p == tells(passage_id@),
            forall|k: int| 0 <= k < i ==> !p(#[trigger] all[k]),
        decreases variants@.len() - i,
    {
        assert(all[i as int] == variants@[i as int]@);
        if text::same_text(variants[i].passage_id.as_str(), passage_id) {
            assert(p(all[i as int]));
            return true;
        }
        i += 1;
    }
    false
}

/// Keeps another telling of a passage, which counts from now on, and gives the passage with all
/// its tellings.
pub fn finish_swipe_at(
    store: &mut Store,
    book: &mut Book,
    target: &Passage,
    first_id: &str,
    new_id: &str,
    visible: &str,
    thoughts: Option<&str>,
    now: &str,
) -> (r: AppResult<(Passage, Vec<PassageVariant>)>)
    ensures
        final(book)@ == swiped(
            old(book)@,
            target@,
            first_id@,
            new_id@,
            visible@,
            thoughts.deep_view(),
            now@,
        ),
        match rows::first_where(final(book)@.passages, repository::passage_is(target@.id)) {
            Some(passage) => r is Ok && r->Ok_0.0@ == passage && r->Ok_0.1.deep_view() == variants_of(
                final(book)@,
                target@.id,
            ),
            None => r is Err && r->Err_0@ == ErrorView::NotFound("passage "@ + target@.id + " not found"@),
        },
        final(store)@ == (if r is Ok {
            owner::refreshed(old(store)@, old(book)@, target@.branch_id, now@)
        } else {
            old(store)@
        }),
{
    if !has_variant(&book.variants, target.id.as_str()) {
        let first = PassageVariant {
            id: first_id.to_string(),
            passage_id: target.id.clone(),
            content: target.content.clone(),
            is_selected: false,
            created_at: target.created_at.clone(),
        };
        let ghost before = book.variants;
        let ghost value = first;
        book.variants.push(first);
        proof {
            rows::lemma_deep_push(before, book.variants, value);
        }
    }
    deselect(book, target.id.as_str());
    let made = PassageVariant {
        id: new_id.to_string(),
        passage_id: target.id.clone(),
        content: visible.to_string(),
        is_selected: true,
        created_at: now.to_string(),
    };
    let ghost before = book.variants;
    let ghost value = made;
    book.variants.push(made);
    proof {
        rows::lemma_deep_push(before, book.variants, value);
    }
    let ghost f = retold(target@.id, visible@, thoughts.deep_view(), now@);
    let change = |p: &Passage| -> (q: Passage)
        ensures
            q@ == f(p@),
    {
        let mut copy = p.copy();
        if text::same_text(p.id.as_str(), target.id.as_str()) {
            copy.content = visible.to_string();
            copy.thoughts = text::owned_option(thoughts);
            copy.edited_at = Some(now.to_string());
        }
        copy
    };
    let passages = map_passages(&book.passages, change, Ghost(f));
    book.passages = passages;
    let passage = match repository::get_passage(book, target.id.as_str()) {
        Ok(passage) => passage,
        Err(e) => {
            return Err(e);
        },
    };
    owner::refresh(store, book, target.branch_id.as_str(), now);
    Ok((passage, list_variants(book, target.id.as_str())))
}

fn rewrite(book: &mut Book, passage_id: &str, content: &str, now: &str)
    ensures
        final(book)@ == (BookView {
            passages: old(book)@.passages.map_values(rewritten(passage_id@, content@, now@)),
            ..old(book)@
        }),
{
    let ghost f = rewritten(passage_id@, content@, now@);
    let change = |p: &Passage| -> (q: Passage)
        ensures
            q@ == f(p@),
    {
        let mut copy = p.copy();
        if text::same_text(p.id.as_str(), passage_id) {
            copy.content = content.to_string();
            copy.edited_at = Some(now.to_string());
        }
        copy
    };
    let passages = map_passages(&book.passages, change, Ghost(f));
    book.passages = passages;
}

/// The book after another telling of a passage was chosen.
pub open spec fn switched(book: BookView, passage_id: Seq<char>, variant: VariantView, now: Seq<char>) -> BookView {
    BookView {
        passages: book.passages.map_values(rewritten(passage_id, variant.content, now)),
        variants: book.variants.map_values(deselected(passage_id)).map_values(selected(variant.id)),
        ..book
    }
}

fn variant_position(variants: &Vec<PassageVariant>, id: &str, passage_id: &str) -> (r: Option<usize>)
    ensures
        match r {
            Some(i) => i < variants@.len() && rows::first_where(
                variants.deep_view(),
                variant_is(id@, passage_id@),
            ) == Some(variants@[i as int]@) && variants@[i as int]@.id == id@,
            None => rows::first_where(variants.deep_view(), variant_is(id@, passage_id@)) is None,
        },
{
    let ghost p = variant_is(id@, passage_id@);
    let meant = |row: &PassageVariant| -> (b: bool)
        ensures
            b == p(row.deep_view()),
    {
        text::same_text(row.id.as_str(), id) && text::same_text(row.passage_id.as_str(), passage_id)
    };
    rows::position(variants, meant, Ghost(p))
}

/// The tables after a passage was changed at a time, which refreshes its story, or after it was not.
pub open spec fn if_changed(store: StoreView, book: BookView, passage_id: Seq<char>, now: Seq<char>, r: AppResult<Passage>) -> StoreView {
    if r is Ok {
        owner::refreshed_by_passage(store, book, passage_id, now)
    } else {
        store
    }
}

proof fn lemma_rewritten_stays(passages: Seq<PassageView>, passage_id: Seq<char>, content: Seq<char>, now: Seq<char>)
    ensures
        ({
            let p = repository::passage_is(passage_id);
            let f = rewritten(passage_id, content, now);
            rows::first_where(passages.map_values(f), p) == (match rows::first_where(passages, p) {
                Some(passage) => Some(f(passage)),
                None => None,
            })
        }),
    decreases passages.len(),
{
    let f = rewritten(passage_id, content, now);
    if passages.len() > 0 {
        assert(passages.map_values(f).drop_first() =~= passages.drop_first().map_values(f));
        lemma_rewritten_stays(passages.drop_first(), passage_id, content, now);
    }
}

/// Gives a passage after it was rewritten, and notes the change in its story.
fn note_change(
    store: &mut Store,
    book: &Book,
    passage_id: &str,
    now: &str,
    Ghost(before): Ghost<BookView>,
    Ghost(content): Ghost<Seq<char>>,
) -> (r: AppResult<Passage>)
    requires
        book@.branches == before.branches,
        book@.passages == before.passages.map_values(rewritten(passage_id@, content, now@)),
    ensures
        match rows::first_where(book@.passages, repository::passage_is(passage_id@)) {
            Some(passage) => r is Ok && r->Ok_0@ == passage,
            None => r is Err && r->Err_0@ == ErrorView::NotFound("passage "@ + passage_id@ + " not found"@),
        },
        final(store)@ == if_changed(old(store)@, before, passage_id@, now@, r),
{
    proof {
        lemma_rewritten_stays(before.passages, passage_id@, content, now@);
    }
    owner::refresh_by_passage(store, book, passage_id, now);
    repository::get_passage(book, passage_id)
}

/// Whether a telling of a passage was chosen, or is not there.
pub open spec fn switch_ended(
    before: BookView,
    after: BookView,
    passage_id: Seq<char>,
    variant_id: Seq<char>,
    now: Seq<char>,
    r: AppResult<Passage>,
) -> bool {
    match rows::first_where(before.variants, variant_is(variant_id, passage_id)) {
        None => {
            &&& after == before
            &&& r is Err
            &&& r->Err_0@ == ErrorView::NotFound("variant "@ + variant_id + " not found"@)
        },
        Some(variant) => {
            &&& after == switched(before, passage_id, variant, now)
            &&& match rows::first_where(after.passages, repository::passage_is(passage_id)) {
                Some(passage) => r is Ok && r->Ok_0@ == passage,
                None => r is Err && r->Err_0@ == ErrorView::NotFound("passage "@ + passage_id + " not found"@),
            }
        },
    }
}

/// Chooses another telling of a passage at a given time.
pub fn switch_variant_at(store: &mut Store, book: &mut Book, passage_id: &str, variant_id: &str, now: &str) -> (r: AppResult<
    Passage,
>)
    ensures
        switch_ended(old(book)@, final(book)@, passage_id@, variant_id@, now@, r),
        final(store)@ == if_changed(old(store)@, old(book)@, passage_id@, now@, r),
{
    let content = match variant_position(&book.variants, variant_id, passage_id) {
        Some(i) => book.variants[i].content.clone(),
        None => {
            return Err(AppError::NotFound(text::concat3("variant ", variant_id, " not found")));
        },
    };
    deselect(book, passage_id);
    let ghost f = selected(variant_id@);
    let change = |v: &PassageVariant| -> (w: PassageVariant)
        ensures
            w@ == f(v@),
    {
        let mut copy = v.copy();
        if text::same_text(v.id.as_str(), variant_id) {
            copy.is_selected = true;
        }
        copy
    };
    let variants = map_variants(&book.variants, change, Ghost(f));
    book.variants = variants;
    rewrite(book, passage_id, content.as_str(), now);
    note_change(store, book, passage_id, now, Ghost(old(book)@), Ghost(content@))
}

/// Chooses another telling of a passage.
pub fn switch_variant(store: &mut Store, book: &mut Book, passage_id: &str, variant_id: &str) -> (r: AppResult<Passage>)
    ensures
        exists|now: Seq<char>|
            #[trigger] switch_ended(old(book)@, final(book)@, passage_id@, variant_id@, now, r) && final(store)@
                == if_changed(old(store)@, old(book)@, passage_id@, now, r),
{
    let now = stamp::now();
    switch_variant_at(store, book, passage_id, variant_id, now.as_str())
}

/// The book after a passage was rewritten. The telling that counts is rewritten with it.
pub open spec fn passage_edited(book: BookView, passage_id: Seq<char>, content: Seq<char>, now: Seq<char>) -> BookView {
    BookView {
        passages: book.passages.map_values(rewritten(passage_id, text::trimmed(content), now)),
        variants: book.variants.map_values(reworded(passage_id, text::trimmed(content))),
        ..book
    }
}

/// Whether a passage was rewritten, or why it was not.
pub open spec fn edit_ended(
    before: BookView,
    after: BookView,
    passage_id: Seq<char>,
    content: Seq<char>,
    now: Seq<char>,
    r: AppResult<Passage>,
) -> bool {
    if text::blank(content) {
        after == before && r is Err && r->Err_0@ == ErrorView::Invalid(CONTENT_EMPTY@)
    } else {
        &&& after == passage_edited(before, passage_id, content, now)
        &&& match rows::first_where(after.passages, repository::passage_is(passage_id)) {
            Some(passage) => r is Ok && r->Ok_0@ == passage,
            None => r is Err && r->Err_0@ == ErrorView::NotFound("passage "@ + passage_id + " not found"@),
        }
    }
}

/// Rewrites a passage at a given time.
pub fn edit_passage_at(store: &mut Store, book: &mut Book, passage_id: &str, content: &str, now: &str) -> (r: AppResult<
    Passage,
>)
    ensures
        edit_ended(old(book)@, final(book)@, passage_id@, content@, now@, r),
        final(store)@ == if_changed(old(store)@, old(book)@, passage_id@, now@, r),
{
    let trimmed = text::trim(content);
    if trimmed.as_str().is_empty() {
        return Err(AppError::Invalid(CONTENT_EMPTY.to_string()));
    }
    rewrite(book, passage_id, trimmed.as_str(), now);
    let ghost f = reworded(passage_id@, trimmed@);
    let change = |v: &PassageVariant| -> (w: PassageVariant)
        ensures
            w@ == f(v@),
    {
        let mut copy = v.copy();
        if text::same_text(v.passage_id.as_str(), passage_id) && v.is_selected {
            copy.content = trimmed.clone();
        }
        copy
    };
    let variants = map_variants(&book.variants, change, Ghost(f));
    book.variants = variants;
    note_change(store, book, passage_id, now, Ghost(old(book)@), Ghost(trimmed@))
}

/// Rewrites a passage.
pub fn edit_passage(store: &mut Store, book: &mut Book, passage_id: &str, content: &str) -> (r: AppResult<Passage>)
    ensures
        exists|now: Seq<char>|
            #[trigger] edit_ended(old(book)@, final(book)@, passage_id@, content@, now, r) && final(store)@
                == if_changed(old(store)@, old(book)@, passage_id@, now, r),
{
    let now = stamp::now();
    edit_passage_at(store, book, passage_id, content, now.as_str())
}

/// Whether no more than one telling of a passage counts.
pub open spec fn one_counts(variants: Seq<VariantView>, passage_id: Seq<char>) -> bool {
    forall|i: int, k: int|
        0 <= i < variants.len() && 0 <= k < variants.len() && (#[trigger] variants[i]).is_selected && (#[trigger] variants[k]).is_selected
            && variants[i].passage_id == passage_id && variants[k].passage_id == passage_id ==> i == k
}

/// Whatever tellings of a passage counted before, just the new one counts after it was made, and
/// no telling is lost.
pub proof fn law_new_telling_is_the_one_that_counts(
    variants: Seq<VariantView>,
    target: PassageView,
    first_id: Seq<char>,
    new_id: Seq<char>,
    visible: Seq<char>,
    now: Seq<char>,
)
    ensures
        ({
            let after = with_variant(variants, target, first_id, new_id, visible, now);
            &&& one_counts(after, target.id)
            &&& after.last().is_selected
            &&& after.last().content == visible
            &&& after.len() > variants.len()
            &&& forall|i: int|
                0 <= i < variants.len() ==> (#[trigger] after[i]).content == variants[i].content && after[i].id
                    == variants[i].id
        }),
{
    let after = with_variant(variants, target, first_id, new_id, visible, now);
    assert forall|i: int| 0 <= i < after.len() - 1 && (#[trigger] after[i]).passage_id == target.id implies !after[i].is_selected by {}
}

/// After a telling was chosen, just it counts of its passage, which reads as it does.
pub proof fn law_chosen_telling_is_the_one_that_counts(book: BookView, passage_id: Seq<char>, variant_id: Seq<char>, now: Seq<char>)
    requires
        forall|i: int, k: int|
            0 <= i < k < book.variants.len() ==> (#[trigger] book.variants[i]).id != (#[trigger] book.variants[k]).id,
        rows::first_where(book.variants, variant_is(variant_id, passage_id)) is Some,
    ensures
        ({
            let variant = rows::first_where(book.variants, variant_is(variant_id, passage_id))->0;
            let after = switched(book, passage_id, variant, now);
            &&& one_counts(after.variants, passage_id)
            &&& forall|i: int|
                0 <= i < after.passages.len() && (#[trigger] after.passages[i]).id == passage_id
                    ==> after.passages[i].content == variant.content
        }),
{
    let variant = rows::first_where(book.variants, variant_is(variant_id, passage_id))->0;
    let after = switched(book, passage_id, variant, now);
    let at = rows::lemma_first_where(book.variants, variant_is(variant_id, passage_id));
    assert forall|i: int|
        0 <= i < after.variants.len() && (#[trigger] after.variants[i]).is_selected && after.variants[i].passage_id
            == passage_id implies i == at by {
        assert(book.variants[i].id == variant.id);
        if i < at {
            assert(book.variants[i].id != book.variants[at].id);
        } else if at < i {
            assert(book.variants[at].id != book.variants[i].id);
        }
    }
}

/// An edit changes the words of the passage and of the telling of it that counts, and nothing else:
/// the tellings that do not count and those of other passages keep their words, and no telling
/// begins or ceases to count. Without words nothing changes, and a passage that is not there is
/// said not to be.
pub proof fn law_edit_rewords_what_counts(
    before: BookView,
    after: BookView,
    passage_id: Seq<char>,
    content: Seq<char>,
    now: Seq<char>,
    r: AppResult<Passage>,
)
    requires
        edit_ended(before, after, passage_id, content, now, r),
    ensures
        text::trimmed(content).len() == 0 ==> after == before && r is Err,
        after == (BookView { passages: after.passages, variants: after.variants, ..before }),
        after.variants.len() == before.variants.len(),
        forall|i: int|
            #![trigger after.variants[i]]
            0 <= i < before.variants.len() && text::trimmed(content).len() > 0 ==> {
                let old_telling = before.variants[i];
                if old_telling.passage_id == passage_id && old_telling.is_selected {
                    after.variants[i] == (VariantView { content: text::trimmed(content), ..old_telling })
                } else {
                    after.variants[i] == old_telling
                }
            },
        after.passages.len() == before.passages.len(),
        forall|i: int|
            #![trigger after.passages[i]]
            0 <= i < before.passages.len() && text::trimmed(content).len() > 0 ==> {
                let old_passage = before.passages[i];
                if old_passage.id == passage_id {
                    after.passages[i] == (PassageView {
                        content: text::trimmed(content),
                        edited_at: Some(now),
                        ..old_passage
                    })
                } else {
                    after.passages[i] == old_passage
                }
            },
        r is Ok <==> text::trimmed(content).len() > 0 && exists|i: int|
            0 <= i < before.passages.len() && (#[trigger] before.passages[i]).id == passage_id,
        r is Ok ==> {
            &&& r->Ok_0@.id == passage_id
            &&& r->Ok_0@.content == text::trimmed(content)
            &&& after.passages.contains(r->Ok_0@)
        },
{
    if !text::blank(content) {
        let p = repository::passage_is(passage_id);
        let at = rows::lemma_first_where(after.passages, p);
        if rows::any_where(after.passages, p) {
            assert(before.passages[at].id == passage_id);
            assert(after.passages.contains(r->Ok_0@));
        }
        if exists|i: int| 0 <= i < before.passages.len() && (#[trigger] before.passages[i]).id == passage_id {
            let i = choose|i: int| 0 <= i < before.passages.len() && (#[trigger] before.passages[i]).id == passage_id;
            assert(p(after.passages[i]));
        }
    }
}

/// Choosing a telling makes it count in place of the others of its passage, and gives the passage
/// its words. No telling changes its words, and those of other passages count as before. A telling
/// that the passage does not have changes nothing.
pub proof fn law_switch_takes_the_chosen_words(
    before: BookView,
    after: BookView,
    passage_id: Seq<char>,
    variant_id: Seq<char>,
    now: Seq<char>,
    r: AppResult<Passage>,
) -> (at: int)
    requires
        switch_ended(before, after, passage_id, variant_id, now, r),
    ensures
        (exists|i: int|
            0 <= i < before.variants.len() && (#[trigger] before.variants[i]).id == variant_id
                && before.variants[i].passage_id == passage_id) ==> {
            &&& 0 <= at < before.variants.len()
            &&& before.variants[at].id == variant_id
            &&& before.variants[at].passage_id == passage_id
            &&& forall|i: int|
                #![trigger after.variants[i]]
                0 <= i < before.variants.len() ==> after.variants[i] == (VariantView {
                    is_selected: if before.variants[i].id == variant_id {
                        true
                    } else if before.variants[i].passage_id == passage_id {
                        false
                    } else {
                        before.variants[i].is_selected
                    },
                    ..before.variants[i]
                })
            &&& forall|i: int|
                #![trigger after.passages[i]]
                0 <= i < before.passages.len() ==> after.passages[i] == (if before.passages[i].id == passage_id {
                    PassageView {
                        content: before.variants[at].content,
                        edited_at: Some(now),
                        ..before.passages[i]
                    }
                } else {
                    before.passages[i]
                })
        },
        !(exists|i: int|
            0 <= i < before.variants.len() && (#[trigger] before.variants[i]).id == variant_id
                && before.variants[i].passage_id == passage_id) ==> after == before && r is Err,
        after == (BookView { passages: after.passages, variants: after.variants, ..before }),
        after.variants.len() == before.variants.len(),
        after.passages.len() == before.passages.len(),
        r is Ok ==> r->Ok_0@.id == passage_id && r->Ok_0@.content == before.variants[at].content
            && after.passages.contains(r->Ok_0@),
{
    let p = variant_is(variant_id, passage_id);
    let at = rows::lemma_first_where(before.variants, p);
    if exists|i: int|
        0 <= i < before.variants.len() && (#[trigger] before.variants[i]).id == variant_id
            && before.variants[i].passage_id == passage_id {
        let i = choose|i: int|
            0 <= i < before.variants.len() && (#[trigger] before.variants[i]).id == variant_id
                && before.variants[i].passage_id == passage_id;
        assert(p(before.variants[i]));
        let k = rows::lemma_first_where(after.passages, repository::passage_is(passage_id));
        if r is Ok {
            assert(after.passages[k].id == passage_id);
            assert(before.passages[k].id == passage_id);
        }
    } else {
        if rows::any_where(before.variants, p) {
            assert(p(before.variants[at]));
        }
    }
    at
}

/// Another telling gives the passage its words and thoughts and counts in place of the ones before
/// it, which keep their words. Where the passage had no telling, the words that it had become one.
/// Other passages and their tellings stay as they are.
pub proof fn law_swipe_keeps_the_words_before(
    before: BookView,
    target: PassageView,
    first_id: Seq<char>,
    new_id: Seq<char>,
    visible: Seq<char>,
    thoughts: Option<Seq<char>>,
    now: Seq<char>,
)
    ensures
        ({
            let after = swiped(before, target, first_id, new_id, visible, thoughts, now);
            let n = before.variants.len();
            let told_before = exists|i: int| 0 <= i < n && (#[trigger] before.variants[i]).passage_id == target.id;
            &&& after == (BookView { passages: after.passages, variants: after.variants, ..before })
            &&& after.passages.len() == before.passages.len()
            &&& forall|i: int|
                #![trigger after.passages[i]]
                0 <= i < before.passages.len() ==> after.passages[i] == (if before.passages[i].id == target.id {
                    PassageView { content: visible, thoughts, edited_at: Some(now), ..before.passages[i] }
                } else {
                    before.passages[i]
                })
            &&& after.variants.len() == n + (if told_before {
                1int
            } else {
                2int
            })
            &&& forall|i: int|
                #![trigger after.variants[i]]
                0 <= i < n ==> after.variants[i] == (VariantView {
                    is_selected: before.variants[i].is_selected && before.variants[i].passage_id != target.id,
                    ..before.variants[i]
                })
            &&& !told_before ==> after.variants[n as int] == (VariantView {
                id: first_id,
                passage_id: target.id,
                content: target.content,
                is_selected: false,
                created_at: target.created_at,
            })
            &&& after.variants.last() == (VariantView {
                id: new_id,
                passage_id: target.id,
                content: visible,
                is_selected: true,
                created_at: now,
            })
        }),
{
    let after = swiped(before, target, first_id, new_id, visible, thoughts, now);
    let told_before = exists|i: int|
        0 <= i < before.variants.len() && (#[trigger] before.variants[i]).passage_id == target.id;
    let p = tells(target.id);
    assert(told_before == rows::any_where(before.variants, p)) by {
        if rows::any_where(before.variants, p) {
            let i = choose|i: int| 0 <= i < before.variants.len() && p(#[trigger] before.variants[i]);
            assert(before.variants[i].passage_id == target.id);
        }
        if told_before {
            let i = choose|i: int|
                0 <= i < before.variants.len() && (#[trigger] before.variants[i]).passage_id == target.id;
            assert(p(before.variants[i]));
        }
    }
}

} // verus!
