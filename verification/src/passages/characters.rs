//! The entities of stories that are told in passages: who and what there is, each with a card.

use vstd::prelude::*;

use super::owner;
use crate::error::{AppError, AppResult, ErrorView};
use crate::ledger::repository as ledger;
use crate::rows::Copied;
use crate::sorting::Keyed;
use crate::store::{Store, StoreView};
use crate::{rows, sorting, stamp, text};

verus! {

/// The message where an entity has no name.
pub const NAME_EMPTY: &'static str = "name must not be empty";

/// The message where an identifier is taken.
pub const CARD_TAKEN: &'static str = "entity identifier is already in use";

/// An entity of a story.
#[derive(Debug, PartialEq)]
pub struct Card {
    pub id: String,
    pub story_id: String,
    pub kind: String,
    pub name: String,
    pub card_json: String,
    pub appearance_anchor: Option<String>,
    pub created_at: String,
}

/// What a `Card` stands for.
#[verifier::ext_equal]
pub struct CardView {
    pub id: Seq<char>,
    pub story_id: Seq<char>,
    pub kind: Seq<char>,
    pub name: Seq<char>,
    pub card_json: Seq<char>,
    pub appearance_anchor: Option<Seq<char>>,
    pub created_at: Seq<char>,
}

impl View for Card {
    type V = CardView;

    open spec fn view(&self) -> CardView {
        CardView {
            id: self.id@,
            story_id: self.story_id@,
            kind: self.kind@,
            name: self.name@,
            card_json: self.card_json@,
            appearance_anchor: self.appearance_anchor.deep_view(),
            created_at: self.created_at@,
        }
    }
}

impl DeepView for Card {
    type V = CardView;

    open spec fn deep_view(&self) -> CardView {
        self@
    }
}

impl Card {
    /// The same row.
    pub fn copy(&self) -> (r: Card)
        ensures
            r@ == self@,
    {
        Card {
            id: self.id.clone(),
            story_id: self.story_id.clone(),
            kind: self.kind.clone(),
            name: self.name.clone(),
            card_json: self.card_json.clone(),
            appearance_anchor: text::copy_option(&self.appearance_anchor),
            created_at: self.created_at.clone(),
        }
    }
}

impl Copied for Card {
    fn copied(&self) -> (r: Card) {
        self.copy()
    }
}

impl Keyed for Card {
    open spec fn key_of(row: CardView) -> Seq<char> {
        row.created_at
    }

    fn key(&self) -> (r: &str) {
        self.created_at.as_str()
    }
}

/// The entities of all stories.
#[derive(Debug, PartialEq)]
pub struct Cast {
    pub cards: Vec<Card>,
}

impl View for Cast {
    type V = Seq<CardView>;

    open spec fn view(&self) -> Seq<CardView> {
        self.cards.deep_view()
    }
}

/// The condition of having an identifier.
pub open spec fn card_is(id: Seq<char>) -> spec_fn(CardView) -> bool {
    |card: CardView| card.id == id
}

/// The condition of having another identifier.
pub open spec fn card_is_not(id: Seq<char>) -> spec_fn(CardView) -> bool {
    |card: CardView| card.id != id
}

/// The condition of belonging to a story, and of being of a kind where one is asked for.
pub open spec fn belongs(story_id: Seq<char>, kind: Option<Seq<char>>) -> spec_fn(CardView) -> bool {
    |card: CardView| card.story_id == story_id && (kind is Some ==> card.kind == kind->0)
}

/// The entities of a story, of a kind where one is asked for, in the order in which they were made.
pub open spec fn listed_cards(cards: Seq<CardView>, story_id: Seq<char>, kind: Option<Seq<char>>) -> Seq<CardView> {
    sorting::ordered(cards.filter(belongs(story_id, kind)), sorting::key_fn::<Card>())
}

/// The entities of a story, of one kind or of all, those that were made first before the others.
pub fn list_entities(cast: &Cast, story_id: &str, kind: Option<&str>) -> (r: Vec<Card>)
    ensures
        r.deep_view() == listed_cards(cast@, story_id@, kind.deep_view()),
{
    let ghost p = belongs(story_id@, kind.deep_view());
    let keep = |card: &Card| -> (b: bool)
        ensures
            b == p(card@),
    {
        text::same_text(card.story_id.as_str(), story_id) && match kind {
            Some(kind) => text::same_text(card.kind.as_str(), kind),
            None => true,
        }
    };
    let own = rows::kept_rows(&cast.cards, keep, Ghost(p));
    sorting::sort_rows(own)
}

fn position(cards: &Vec<Card>, id: &str) -> (r: Option<usize>)
    ensures
        match r {
            Some(i) => i < cards@.len() && rows::first_where(cards.deep_view(), card_is(id@)) == Some(
                cards@[i as int]@,
            ),
            None => rows::first_where(cards.deep_view(), card_is(id@)) is None,
        },
{
    let ghost p = card_is(id@);
    let meant = |row: &Card| -> (b: bool)
        ensures
            b == p(row.deep_view()),
    {
        text::same_text(row.id.as_str(), id)
    };
    rows::position(cards, meant, Ghost(p))
}

/// The entities after one was added, and the new one.
pub open spec fn created(
    cards: Seq<CardView>,
    id: Seq<char>,
    now: Seq<char>,
    story_id: Seq<char>,
    kind: Seq<char>,
    name: Seq<char>,
    appearance_anchor: Option<Seq<char>>,
) -> Result<(Seq<CardView>, CardView), ErrorView> {
    let card = CardView {
        id,
        story_id,
        kind,
        name: text::trimmed(name),
        card_json: "{}"@,
        appearance_anchor: text::non_blank(appearance_anchor),
        created_at: now,
    };
    if text::blank(name) {
        Err(ErrorView::Invalid(NAME_EMPTY@))
    } else if rows::first_where(cards, card_is(id)) is Some {
        Err(ErrorView::Db(CARD_TAKEN@))
    } else {
        Ok((cards.push(card), card))
    }
}

/// Adds an entity to a story under an identifier.
pub fn create_entity_at(
    store: &mut Store,
    cast: &mut Cast,
    id: &str,
    now: &str,
    story_id: &str,
    kind: &str,
    name: &str,
    appearance_anchor: Option<&str>,
) -> (r: AppResult<Card>)
    ensures
        match created(old(cast)@, id@, now@, story_id@, kind@, name@, appearance_anchor.deep_view()) {
            Ok(done) => {
                &&& r is Ok && r->Ok_0@ == done.1 && final(cast)@ == done.0
                &&& final(store)@ == owner::story_refreshed(old(store)@, story_id@, now@)
            },
            Err(e) => r is Err && r->Err_0@ == e && final(cast)@ == old(cast)@ && final(store)@ == old(store)@,
        },
{
    let name = text::trim(name);
    if name.as_str().is_empty() {
        return Err(AppError::Invalid(NAME_EMPTY.to_string()));
    }
    if position(&cast.cards, id).is_some() {
        return Err(AppError::Db(CARD_TAKEN.to_string()));
    }
    let card = Card {
        id: id.to_string(),
        story_id: story_id.to_string(),
        kind: kind.to_string(),
        name,
        card_json: "{}".to_string(),
        appearance_anchor: text::clean_option(appearance_anchor),
        created_at: now.to_string(),
    };
    let copy = card.copy();
    let ghost before = cast.cards;
    let ghost added = copy;
    cast.cards.push(copy);
    proof {
        rows::lemma_deep_push(before, cast.cards, added);
    }
    ledger::touch_story(store, story_id, now);
    Ok(card)
}

/// Adds an entity to a story at the present time.
pub fn create_entity(
    store: &mut Store,
    cast: &mut Cast,
    story_id: &str,
    kind: &str,
    name: &str,
    appearance_anchor: Option<&str>,
) -> (r: AppResult<Card>)
    ensures
        exists|id: Seq<char>, now: Seq<char>|
            stamp::fresh_like(id) && match #[trigger] created(
                old(cast)@,
                id,
                now,
                story_id@,
                kind@,
                name@,
                appearance_anchor.deep_view(),
            ) {
                Ok(done) => {
                    &&& r is Ok && r->Ok_0@ == done.1 && final(cast)@ == done.0
                    &&& final(store)@ == owner::story_refreshed(old(store)@, story_id@, now)
                },
                Err(e) => r is Err && r->Err_0@ == e && final(cast)@ == old(cast)@ && final(store)@ == old(store)@,
            },
{
    let id = stamp::fresh_id();
    let now = stamp::now();
    create_entity_at(store, cast, id.as_str(), now.as_str(), story_id, kind, name, appearance_anchor)
}

/// What becomes of an entity when the one with an identifier gets a name and a look.
pub open spec fn renamed(id: Seq<char>, name: Seq<char>, appearance_anchor: Option<Seq<char>>) -> spec_fn(CardView) -> CardView {
    |card: CardView|
        if card.id == id {
            CardView { name: text::trimmed(name), appearance_anchor: text::non_blank(appearance_anchor), ..card }
        } else {
            card
        }
}

fn rename(cards: &mut Vec<Card>, id: &str, name: &str, appearance_anchor: Option<&str>)
    ensures
        final(cards).deep_view() == old(cards).deep_view().map_values(
            renamed(id@, name@, appearance_anchor.deep_view()),
        ),
{
    let ghost all = cards.deep_view();
    let ghost f = renamed(id@, name@, appearance_anchor.deep_view());
    let mut i: usize = 0;
    while i < cards.len()
        invariant
            0 <= i <= cards@.len(),
            cards@.len() == all.len(),
            f == renamed(id@, name@, appearance_anchor.deep_view()),
            forall|k: int| 0 <= k < i ==> (#[trigger] cards@[k])@ == f(all[k]),
            forall|k: int| i <= k < all.len() ==> (#[trigger] cards@[k])@ == all[k],
        decreases cards@.len() - i,
    {
        assert(cards@[i as int]@ == all[i as int]);
        if text::same_text(cards[i].id.as_str(), id) {
            let mut card = cards[i].copy();
            card.name = text::trim(name);
            card.appearance_anchor = text::clean_option(appearance_anchor);
            assert(card@ == f(all[i as int]));
            cards.set(i, card);
        }
        i += 1;
    }
    assert(cards.deep_view() =~= all.map_values(f));
}

/// The tables after the story of an entity was changed at a time.
pub open spec fn refreshed_by_card(store: StoreView, cards: Seq<CardView>, id: Seq<char>, now: Seq<char>) -> StoreView {
    match rows::first_where(cards, card_is(id)) {
        Some(card) => owner::story_refreshed(store, card.story_id, now),
        None => store,
    }
}

fn refresh_by_card(store: &mut Store, cast: &Cast, id: &str, now: &str)
    ensures
        final(store)@ == refreshed_by_card(old(store)@, cast@, id@, now@),
{
    if let Some(i) = position(&cast.cards, id) {
        ledger::touch_story(store, cast.cards[i].story_id.as_str(), now);
    }
}

/// Whether an entity was given a name and a look at a time, or why not.
pub open spec fn update_ended(
    store: StoreView,
    store_after: StoreView,
    cards: Seq<CardView>,
    cards_after: Seq<CardView>,
    entity_id: Seq<char>,
    name: Seq<char>,
    appearance_anchor: Option<Seq<char>>,
    now: Seq<char>,
    r: AppResult<Card>,
) -> bool {
    if text::blank(name) {
        &&& r is Err && r->Err_0@ == ErrorView::Invalid(NAME_EMPTY@)
        &&& cards_after == cards && store_after == store
    } else {
        &&& cards_after == cards.map_values(renamed(entity_id, name, appearance_anchor))
        &&& store_after == refreshed_by_card(store, cards, entity_id, now)
        &&& match rows::first_where(cards_after, card_is(entity_id)) {
            Some(card) => r is Ok && r->Ok_0@ == card,
            None => r is Err && r->Err_0@ == ErrorView::NotFound("entity "@ + entity_id + " not found"@),
        }
    }
}

/// Gives an entity a name and a look at a given time.
pub fn update_entity_at(
    store: &mut Store,
    cast: &mut Cast,
    entity_id: &str,
    name: &str,
    appearance_anchor: Option<&str>,
    now: &str,
) -> (r: AppResult<Card>)
    ensures
        update_ended(
            old(store)@,
            final(store)@,
            old(cast)@,
            final(cast)@,
            entity_id@,
            name@,
            appearance_anchor.deep_view(),
            now@,
            r,
        ),
{
    if text::is_blank(name) {
        return Err(AppError::Invalid(NAME_EMPTY.to_string()));
    }
    refresh_by_card(store, cast, entity_id, now);
    rename(&mut cast.cards, entity_id, name, appearance_anchor);
    match position(&cast.cards, entity_id) {
        Some(i) => Ok(cast.cards[i].copy()),
        None => Err(AppError::NotFound(text::concat3("entity ", entity_id, " not found"))),
    }
}

/// Gives an entity a name and a look.
pub fn update_entity(store: &mut Store, cast: &mut Cast, entity_id: &str, name: &str, appearance_anchor: Option<&str>) -> (r: AppResult<
    Card,
>)
    ensures
        exists|now: Seq<char>|
            #[trigger] update_ended(
                old(store)@,
                final(store)@,
                old(cast)@,
                final(cast)@,
                entity_id@,
                name@,
                appearance_anchor.deep_view(),
                now,
                r,
            ),
{
    let now = stamp::now();
    update_entity_at(store, cast, entity_id, name, appearance_anchor, now.as_str())
}

/// Removes an entity at a given time.
pub fn delete_entity_at(store: &mut Store, cast: &mut Cast, entity_id: &str, now: &str)
    ensures
        final(cast)@ == old(cast)@.filter(card_is_not(entity_id@)),
        final(store)@ == refreshed_by_card(old(store)@, old(cast)@, entity_id@, now@),
{
    refresh_by_card(store, cast, entity_id, now);
    let ghost p = card_is_not(entity_id@);
    let keep = |card: &Card| -> (b: bool)
        ensures
            b == p(card@),
    {
        !text::same_text(card.id.as_str(), entity_id)
    };
    let left = rows::kept_rows(&cast.cards, keep, Ghost(p));
    cast.cards = left;
}

/// Removes an entity.
pub fn delete_entity(store: &mut Store, cast: &mut Cast, entity_id: &str)
    ensures
        final(cast)@ == old(cast)@.filter(card_is_not(entity_id@)),
        exists|now: Seq<char>|
            final(store)@ == #[trigger] refreshed_by_card(old(store)@, old(cast)@, entity_id@, now),
{
    let now = stamp::now();
    delete_entity_at(store, cast, entity_id, now.as_str())
}

/// The condition of being a character of a story whose look is known.
pub open spec fn has_look(story_id: Seq<char>) -> spec_fn(CardView) -> bool {
    |card: CardView| card.story_id == story_id && card.kind == "character"@ && card.appearance_anchor is Some
}

/// The name and the look of a character.
pub open spec fn look() -> spec_fn(CardView) -> (Seq<char>, Seq<char>) {
    |card: CardView| (card.name, card.appearance_anchor->0)
}

/// The names and the looks of the characters of a story whose look is described.
pub open spec fn looks_of(cards: Seq<CardView>, story_id: Seq<char>) -> Seq<(Seq<char>, Seq<char>)> {
    cards.filter(has_look(story_id)).map_values(look())
}

/// The characters of a story whose look is known, each by name and look.
pub fn characters_of(cast: &Cast, story_id: &str) -> (r: Vec<(String, String)>)
    ensures
        r.deep_view() == looks_of(cast@, story_id@),
{
    let ghost p = has_look(story_id@);
    let ghost f = look();
    let mut out: Vec<(String, String)> = Vec::new();
    let ghost all = cast.cards.deep_view();
    let mut i: usize = 0;
    assert(out.deep_view() =~= all.take(0).filter(p).map_values(f)) by {
        reveal(Seq::filter);
    }
    while i < cast.cards.len()
        invariant
            0 <= i <= cast.cards@.len(),
            all == cast.cards.deep_view(),
            p == has_look(story_id@),
            f == look(),
            out.deep_view() == all.take(i as int).filter(p).map_values(f),
        decreases cast.cards@.len() - i,
    {
        let card = &cast.cards[i];
        assert(all[i as int] == card@);
        proof {
            rows::lemma_filter_step(all, p, i as int);
        }
        if text::same_text(card.story_id.as_str(), story_id) && text::same_text(card.kind.as_str(), "character") {
            if let Some(anchor) = &card.appearance_anchor {
                let ghost before = out;
                let pair = (card.name.clone(), anchor.clone());
                let ghost added = pair;
                out.push(pair);
                proof {
                    rows::lemma_deep_push(before, out, added);
                    rows::lemma_map_push(all.take(i as int).filter(p), card@, f);
                }
            }
        }
        i += 1;
    }
    proof {
        rows::lemma_take_all(all);
    }
    out
}

/// An entity that was removed is not listed any more, and every other entity is still there.
pub proof fn law_removed_entity_is_gone(cards: Seq<CardView>, id: Seq<char>, card: CardView)
    ensures
        rows::first_where(cards.filter(card_is_not(id)), card_is(id)) is None,
        cards.contains(card) && card.id != id ==> cards.filter(card_is_not(id)).contains(card),
{
    rows::lemma_first_where_filtered(cards, card_is(id), card_is_not(id));
    rows::lemma_filter_member(cards, card_is_not(id), card);
}

/// The entities of a story are listed each once, only those of the kind that is asked for, in the
/// order in which they were made; the characters with a look are told by name and look.
pub proof fn law_cards_of_the_story_are_listed(cards: Seq<CardView>, story_id: Seq<char>, kind: Option<Seq<char>>)
    ensures
        ({
            let list = listed_cards(cards, story_id, kind);
            &&& forall|card: CardView|
                #[trigger] list.contains(card) <==> cards.contains(card) && card.story_id == story_id && (kind is Some
                    ==> card.kind == kind->0)
            &&& list.len() == cards.filter(
                |card: CardView| card.story_id == story_id && (kind is Some ==> card.kind == kind->0),
            ).len()
            &&& forall|a: int, b: int|
                0 <= a < b < list.len() ==> !text::precedes(
                    (#[trigger] list[b]).created_at,
                    (#[trigger] list[a]).created_at,
                )
        }),
        looks_of(cards, story_id) == cards.filter(
            |card: CardView|
                card.story_id == story_id && card.kind == "character"@ && card.appearance_anchor is Some,
        ).map_values(|card: CardView| (card.name, card.appearance_anchor->0)),
{
    let p = belongs(story_id, kind);
    let key = sorting::key_fn::<Card>();
    let kept = cards.filter(p);
    let list = listed_cards(cards, story_id, kind);
    assert((|card: CardView| card.story_id == story_id && (kind is Some ==> card.kind == kind->0)) =~= p);
    assert((|card: CardView|
        card.story_id == story_id && card.kind == "character"@ && card.appearance_anchor is Some) =~= has_look(
        story_id,
    ));
    assert((|card: CardView| (card.name, card.appearance_anchor->0)) =~= look());
    let places = sorting::law_ordered_is_a_rearrangement(kept, key);
    sorting::law_ordered(kept, key);
    assert forall|card: CardView|
        #[trigger] list.contains(card) <==> cards.contains(card) && card.story_id == story_id && (kind is Some
            ==> card.kind == kind->0) by {
        rows::lemma_filter_member(cards, p, card);
        if list.contains(card) {
            let m = choose|m: int| 0 <= m < list.len() && list[m] == card;
            assert(kept[places[m]] == card);
        }
        if kept.contains(card) {
            let k = choose|k: int| 0 <= k < kept.len() && kept[k] == card;
            assert(places.contains(k));
            let m = choose|m: int| 0 <= m < places.len() && places[m] == k;
            assert(list[m] == kept[places[m]]);
        }
    }
    assert forall|a: int, b: int| 0 <= a < b < list.len() implies !text::precedes(
        (#[trigger] list[b]).created_at,
        (#[trigger] list[a]).created_at,
    ) by {
        assert(key(list[b]) == list[b].created_at);
        assert(key(list[a]) == list[a].created_at);
    }
}

/// A look as it is kept: without the whitespace around it, and none where nothing is left of it.
pub open spec fn look_kept(look: Option<Seq<char>>) -> Option<Seq<char>> {
    if look is Some && text::trimmed(look->0).len() > 0 {
        Some(text::trimmed(look->0))
    } else {
        None
    }
}

/// A new entity has what it was given and stands behind the others; an entity that is changed gets
/// the name and the look that it was given, and no other one changes.
pub proof fn law_card_is_kept_as_given(
    store: StoreView,
    store_after: StoreView,
    cards: Seq<CardView>,
    cards_after: Seq<CardView>,
    entity_id: Seq<char>,
    now: Seq<char>,
    story_id: Seq<char>,
    kind: Seq<char>,
    name: Seq<char>,
    appearance_anchor: Option<Seq<char>>,
    r: AppResult<Card>,
)
    ensures
        created(cards, entity_id, now, story_id, kind, name, appearance_anchor) matches Ok(done) ==> {
            &&& done.0 == cards.push(done.1)
            &&& text::trimmed(name).len() > 0
            &&& done.1.id == entity_id
            &&& done.1.story_id == story_id
            &&& done.1.kind == kind
            &&& done.1.name == text::trimmed(name)
            &&& done.1.appearance_anchor == look_kept(appearance_anchor)
            &&& done.1.created_at == now
            &&& forall|i: int| 0 <= i < cards.len() ==> (#[trigger] cards[i]).id != entity_id
        },
        update_ended(store, store_after, cards, cards_after, entity_id, name, appearance_anchor, now, r) ==> {
            &&& text::trimmed(name).len() == 0 ==> cards_after == cards && r is Err
            &&& cards_after.len() == cards.len()
            &&& text::trimmed(name).len() > 0 ==> forall|i: int|
                #![trigger cards_after[i]]
                0 <= i < cards.len() ==> cards_after[i] == (if cards[i].id == entity_id {
                    CardView {
                        name: text::trimmed(name),
                        appearance_anchor: look_kept(appearance_anchor),
                        ..cards[i]
                    }
                } else {
                    cards[i]
                })
            &&& r is Ok <==> text::trimmed(name).len() > 0 && exists|i: int|
                0 <= i < cards.len() && (#[trigger] cards[i]).id == entity_id
            &&& r is Ok ==> r->Ok_0@.id == entity_id && r->Ok_0@.name == text::trimmed(name)
                && r->Ok_0@.appearance_anchor == look_kept(appearance_anchor)
        },
{
    let p = card_is(entity_id);
    let k = rows::lemma_first_where(cards, p);
    assert forall|i: int| 0 <= i < cards.len() && (#[trigger] cards[i]).id == entity_id implies rows::any_where(cards, p) by {
        assert(p(cards[i]));
    }
    if update_ended(store, store_after, cards, cards_after, entity_id, name, appearance_anchor, now, r) && !text::blank(
        name,
    ) {
        let f = renamed(entity_id, name, appearance_anchor);
        assert(cards_after == cards.map_values(f));
        let m = rows::lemma_first_where(cards_after, p);
        if rows::any_where(cards_after, p) {
            assert(cards_after[m] == f(cards[m]));
            assert(cards[m].id == entity_id);
        }
        if exists|i: int| 0 <= i < cards.len() && (#[trigger] cards[i]).id == entity_id {
            let i = choose|i: int| 0 <= i < cards.len() && (#[trigger] cards[i]).id == entity_id;
            assert(cards_after[i] == f(cards[i]));
            assert(p(cards_after[i]));
        }
    }
}

} // verus!
