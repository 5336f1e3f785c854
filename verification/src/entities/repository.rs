//! Creating, changing, removing and listing entities.

use vstd::prelude::*;

use super::attributes;
use super::events::{EntityEvent, EventView, NameAnchor, NameAnchorView};
use super::model::{Entity, EntityView};
use super::projection;
use crate::error::{AppError, AppResult, ErrorView};
use crate::ledger::repository::DraftView;
use crate::sorting::Keyed;
use crate::store::{EntityRow, EntityRowView, Store, StoreView};
use crate::{rows, sorting, stamp, text};

verus! {

/// The message to a name that holds nothing but whitespace.
pub const NAME_EMPTY: &'static str = "name must not be empty";

impl Keyed for Entity {
    open spec fn key_of(row: EntityView) -> Seq<char> {
        row.created_at
    }

    fn key(&self) -> (r: &str) {
        self.created_at.as_str()
    }
}

/// The condition of being an entity of a story, of a kind where one is asked for, that is
/// there.
pub open spec fn listed(store: StoreView, story_id: Seq<char>, filter_kind: Option<Seq<char>>) -> spec_fn(EntityRowView) -> bool {
    |e: EntityRowView|
        {
            &&& e.story_id == story_id
            &&& filter_kind is Some ==> e.kind == filter_kind->0
            &&& rows::first_where(store.states, attributes::present_as(story_id, e.id)) is Some
        }
}

/// An entity with the name and the look that it has now.
pub open spec fn with_state(store: StoreView, story_id: Seq<char>) -> spec_fn(EntityRowView) -> EntityView {
    |e: EntityRowView|
        {
            let state = rows::first_where(store.states, attributes::present_as(story_id, e.id))->0;
            EntityView {
                id: e.id,
                story_id: e.story_id,
                kind: e.kind,
                name: state.name,
                appearance_anchor: state.appearance_anchor,
                created_at: e.created_at,
            }
        }
}

/// The entities of a story that are there, in the order of their creation.
pub open spec fn listed_entities(store: StoreView, story_id: Seq<char>, filter_kind: Option<Seq<char>>) -> Seq<EntityView> {
    sorting::ordered(
        store.entities.filter(listed(store, story_id, filter_kind)).map_values(
            with_state(store, story_id),
        ),
        sorting::key_fn::<Entity>(),
    )
}

/// The entities of a story that are there, in the order of their creation; only those of a
/// kind where one is asked for.
pub fn list_entities_sync(store: &Store, story_id: &str, filter_kind: Option<&str>) -> (r: Vec<Entity>)
    ensures
        r.deep_view() == listed_entities(store@, story_id@, filter_kind.deep_view()),
{
    let ghost all = store@.entities;
    let ghost p = listed(store@, story_id@, filter_kind.deep_view());
    let ghost f = with_state(store@, story_id@);
    let mut out: Vec<Entity> = Vec::new();
    let mut i: usize = 0;
    proof {
        assert(all.take(0).filter(p).map_values(f) =~= Seq::empty()) by {
            reveal(Seq::filter);
        }
    }
    while i < store.entities.len()
        invariant
            0 <= i <= store.entities@.len(),
            all == store@.entities,
            p == listed(store@, story_id@, filter_kind.deep_view()),
            f == with_state(store@, story_id@),
            out.deep_view() == all.take(i as int).filter(p).map_values(f),
        decreases store.entities@.len() - i,
    {
        let row = &store.entities[i];
        proof {
            assert(all[i as int] == row@);
            rows::lemma_filter_step(all, p, i as int);
            rows::lemma_map_push(all.take(i as int).filter(p), row@, f);
        }
        let of_kind = match filter_kind {
            Some(kind) => text::same_text(row.kind.as_str(), kind),
            None => true,
        };
        if of_kind && text::same_text(row.story_id.as_str(), story_id) {
            if let Some(k) = attributes::present_position(&store.states, story_id, row.id.as_str()) {
                let state = &store.states[k];
                let entity = Entity {
                    id: row.id.clone(),
                    story_id: row.story_id.clone(),
                    kind: row.kind.clone(),
                    name: state.name.clone(),
                    appearance_anchor: text::copy_option(&state.appearance_anchor),
                    created_at: row.created_at.clone(),
                };
                let ghost before = out;
                let ghost value = entity;
                out.push(entity);
                proof {
                    rows::lemma_deep_push(before, out, value);
                }
            }
        }
        i += 1;
    }
    proof {
        rows::lemma_take_all(all);
    }
    sorting::sort_rows(out)
}

/// A look that was described, without the whitespace around the description.
pub fn described(appearance_anchor: Option<&str>) -> (r: Option<String>)
    ensures
        r.deep_view() == text::non_blank(appearance_anchor.deep_view()),
{
    text::clean_option(appearance_anchor)
}

/// The entry that a creation is written to.
pub open spec fn creation_draft(
    id: Seq<char>,
    story_id: Seq<char>,
    entity_kind: Seq<char>,
    name: Seq<char>,
    appearance_anchor: Option<Seq<char>>,
    source: Seq<char>,
    target_entry_id: Option<Seq<char>>,
    turn_id: Option<Seq<char>>,
) -> DraftView {
    projection::event_draft(
        story_id,
        target_entry_id,
        text::trimmed(name) + " was added as a "@ + entity_kind + "."@,
        EventView::Created {
            entity_id: id,
            kind: entity_kind,
            name: text::trimmed(name),
            appearance_anchor: text::non_blank(appearance_anchor),
            source,
            created_at: Seq::empty(),
        },
        turn_id,
    )
}

/// What creating an entity comes to.
pub open spec fn creation_outcome(
    before: StoreView,
    after: StoreView,
    id: Seq<char>,
    draft: DraftView,
    entity_kind: Seq<char>,
    name: Seq<char>,
    appearance_anchor: Option<Seq<char>>,
    r: AppResult<Entity>,
) -> bool {
    if text::blank(name) {
        r is Err && r->Err_0@ == ErrorView::Invalid(NAME_EMPTY@) && after == before
    } else {
        match r {
            Ok(entity) => {
                &&& projection::record_step(before, after, draft)
                &&& entity@ == (EntityView {
                    id,
                    story_id: draft.story_id,
                    kind: entity_kind,
                    name: text::trimmed(name),
                    appearance_anchor: text::non_blank(appearance_anchor),
                    created_at: after.entries.last().created_at,
                })
            },
            Err(e) => projection::unwritten(before, after, draft, e@),
        }
    }
}

/// Creates an entity with a given identifier in a turn: a narrator's tool gives an entity
/// its identifier before it is written, and another tool of the same turn may name it.
pub fn create_entity_with_id_in_turn(
    store: &mut Store,
    id: &str,
    story_id: &str,
    entity_kind: &str,
    name: &str,
    appearance_anchor: Option<&str>,
    source: &str,
    target_entry_id: Option<&str>,
    turn_id: Option<&str>,
) -> (r: AppResult<Entity>)
    ensures
        creation_outcome(
            old(store)@,
            final(store)@,
            id@,
            creation_draft(
                id@,
                story_id@,
                entity_kind@,
                name@,
                appearance_anchor.deep_view(),
                source@,
                target_entry_id.deep_view(),
                turn_id.deep_view(),
            ),
            entity_kind@,
            name@,
            appearance_anchor.deep_view(),
            r,
        ),
{
    let trimmed = text::trim(name);
    if trimmed.as_str().is_empty() {
        return Err(AppError::Invalid(NAME_EMPTY.to_string()));
    }
    let anchor = described(appearance_anchor);
    let event = EntityEvent::Created {
        entity_id: id.to_string(),
        kind: entity_kind.to_string(),
        name: trimmed.clone(),
        appearance_anchor: text::copy_option(&anchor),
        source: source.to_string(),
        created_at: String::new(),
    };
    let content = text::concat4(trimmed.as_str(), " was added as a ", entity_kind, ".");
    match projection::record(store, story_id, target_entry_id, content.as_str(), &event, turn_id) {
        Ok(entry) => Ok(
            Entity {
                id: id.to_string(),
                story_id: story_id.to_string(),
                kind: entity_kind.to_string(),
                name: trimmed,
                appearance_anchor: anchor,
                created_at: entry.created_at,
            },
        ),
        Err(e) => Err(e),
    }
}

/// Creates an entity with a given identifier, outside any turn.
pub fn create_entity_with_id_sync(
    store: &mut Store,
    id: &str,
    story_id: &str,
    entity_kind: &str,
    name: &str,
    appearance_anchor: Option<&str>,
    source: &str,
    target_entry_id: Option<&str>,
) -> (r: AppResult<Entity>)
    ensures
        creation_outcome(
            old(store)@,
            final(store)@,
            id@,
            creation_draft(
                id@,
                story_id@,
                entity_kind@,
                name@,
                appearance_anchor.deep_view(),
                source@,
                target_entry_id.deep_view(),
                None,
            ),
            entity_kind@,
            name@,
            appearance_anchor.deep_view(),
            r,
        ),
{
    create_entity_with_id_in_turn(
        store,
        id,
        story_id,
        entity_kind,
        name,
        appearance_anchor,
        source,
        target_entry_id,
        None,
    )
}

/// Creates an entity with a new identifier, outside any turn.
pub fn create_entity_sync(
    store: &mut Store,
    story_id: &str,
    entity_kind: &str,
    name: &str,
    appearance_anchor: Option<&str>,
    source: &str,
    target_entry_id: Option<&str>,
) -> (r: AppResult<Entity>)
    ensures
        exists|id: Seq<char>|
            stamp::fresh_like(id) && #[trigger] creation_outcome(
                old(store)@,
                final(store)@,
                id,
                creation_draft(
                    id,
                    story_id@,
                    entity_kind@,
                    name@,
                    appearance_anchor.deep_view(),
                    source@,
                    target_entry_id.deep_view(),
                    None,
                ),
                entity_kind@,
                name@,
                appearance_anchor.deep_view(),
                r,
            ),
{
    let id = stamp::fresh_id();
    create_entity_with_id_sync(
        store,
        id.as_str(),
        story_id,
        entity_kind,
        name,
        appearance_anchor,
        source,
        target_entry_id,
    )
}

/// The entity with an identifier, with the name and the look that it has in a story.
pub open spec fn present_entity(store: StoreView, story_id: Seq<char>, entity_id: Seq<char>) -> Option<EntityView> {
    match (
        rows::first_where(store.entities, projection::entity_id_is(entity_id)),
        rows::first_where(store.states, attributes::present_as(story_id, entity_id)),
    ) {
        (Some(row), Some(state)) => Some(
            EntityView {
                id: row.id,
                story_id: row.story_id,
                kind: row.kind,
                name: state.name,
                appearance_anchor: state.appearance_anchor,
                created_at: row.created_at,
            },
        ),
        _ => None,
    }
}

/// Where the entity with an identifier stands.
fn entity_position(entities: &Vec<EntityRow>, id: &str) -> (r: Option<usize>)
    ensures
        match r {
            Some(i) => i < entities@.len() && rows::first_where(
                entities.deep_view(),
                projection::entity_id_is(id@),
            ) == Some(entities@[i as int]@),
            None => rows::first_where(entities.deep_view(), projection::entity_id_is(id@)) is None,
        },
{
    let ghost p = projection::entity_id_is(id@);
    let meant = |row: &EntityRow| -> (b: bool)
        ensures
            b == p(row.deep_view()),
    {
        text::same_text(row.id.as_str(), id)
    };
    rows::position(entities, meant, Ghost(p))
}

/// The entity with an identifier, with the name and the look that it has in a story.
pub fn find_present_entity(store: &Store, story_id: &str, entity_id: &str) -> (r: Option<Entity>)
    ensures
        r.deep_view() == present_entity(store@, story_id@, entity_id@),
{
    match (
        entity_position(&store.entities, entity_id),
        attributes::present_position(&store.states, story_id, entity_id),
    ) {
        (Some(i), Some(k)) => Some(
            Entity {
                id: store.entities[i].id.clone(),
                story_id: store.entities[i].story_id.clone(),
                kind: store.entities[i].kind.clone(),
                name: store.states[k].name.clone(),
                appearance_anchor: text::copy_option(&store.states[k].appearance_anchor),
                created_at: store.entities[i].created_at.clone(),
            },
        ),
        _ => None,
    }
}

/// The entry that an update is written to.
pub open spec fn update_draft(
    before: EntityView,
    story_id: Seq<char>,
    entity_id: Seq<char>,
    name: Seq<char>,
    appearance_anchor: Option<Seq<char>>,
    source: Seq<char>,
    target_entry_id: Option<Seq<char>>,
    turn_id: Option<Seq<char>>,
) -> DraftView {
    projection::event_draft(
        story_id,
        target_entry_id,
        before.name + " is now named "@ + text::trimmed(name) + "; appearance details were updated."@,
        EventView::Updated {
            entity_id,
            before: NameAnchorView {
                name: before.name,
                appearance_anchor: before.appearance_anchor,
            },
            after: NameAnchorView {
                name: text::trimmed(name),
                appearance_anchor: text::non_blank(appearance_anchor),
            },
            source,
        },
        turn_id,
    )
}

/// What updating an entity comes to.
pub open spec fn update_outcome(
    before: StoreView,
    after: StoreView,
    story_id: Seq<char>,
    entity_id: Seq<char>,
    name: Seq<char>,
    appearance_anchor: Option<Seq<char>>,
    source: Seq<char>,
    target_entry_id: Option<Seq<char>>,
    turn_id: Option<Seq<char>>,
    r: AppResult<Entity>,
) -> bool {
    if text::blank(name) {
        r is Err && r->Err_0@ == ErrorView::Invalid(NAME_EMPTY@) && after == before
    } else {
        match present_entity(before, story_id, entity_id) {
            None => r is Err && r->Err_0@ == ErrorView::NotFound("entity "@ + entity_id + " not found"@)
                && after == before,
            Some(entity) => {
                let draft = update_draft(
                    entity,
                    story_id,
                    entity_id,
                    name,
                    appearance_anchor,
                    source,
                    target_entry_id,
                    turn_id,
                );
                match r {
                    Ok(updated) => {
                        &&& projection::record_step(before, after, draft)
                        &&& updated@ == (EntityView {
                            name: text::trimmed(name),
                            appearance_anchor: text::non_blank(appearance_anchor),
                            ..entity
                        })
                    },
                    Err(e) => projection::unwritten(before, after, draft, e@),
                }
            },
        }
    }
}

/// Gives an entity a name and a look, in a turn.
pub fn update_entity_in_turn(
    store: &mut Store,
    story_id: &str,
    entity_id: &str,
    name: &str,
    appearance_anchor: Option<&str>,
    source: &str,
    target_entry_id: Option<&str>,
    turn_id: Option<&str>,
) -> (r: AppResult<Entity>)
    ensures
        update_outcome(
            old(store)@,
            final(store)@,
            story_id@,
            entity_id@,
            name@,
            appearance_anchor.deep_view(),
            source@,
            target_entry_id.deep_view(),
            turn_id.deep_view(),
            r,
        ),
{
    let trimmed = text::trim(name);
    if trimmed.as_str().is_empty() {
        return Err(AppError::Invalid(NAME_EMPTY.to_string()));
    }
    let before = match find_present_entity(store, story_id, entity_id) {
        Some(entity) => entity,
        None => {
            return Err(AppError::NotFound(text::concat3("entity ", entity_id, " not found")));
        },
    };
    let anchor = described(appearance_anchor);
    let content = text::concat4(
        before.name.as_str(),
        " is now named ",
        trimmed.as_str(),
        "; appearance details were updated.",
    );
    let event = EntityEvent::Updated {
        entity_id: entity_id.to_string(),
        before: NameAnchor {
            name: before.name.clone(),
            appearance_anchor: text::copy_option(&before.appearance_anchor),
        },
        after: NameAnchor {
            name: trimmed.clone(),
            appearance_anchor: text::copy_option(&anchor),
        },
        source: source.to_string(),
    };
    match projection::record(store, story_id, target_entry_id, content.as_str(), &event, turn_id) {
        Ok(_) => Ok(
            Entity {
                id: before.id,
                story_id: before.story_id,
                kind: before.kind,
                name: trimmed,
                appearance_anchor: anchor,
                created_at: before.created_at,
            },
        ),
        Err(e) => Err(e),
    }
}

/// Gives an entity a name and a look, outside any turn.
pub fn update_entity_sync(
    store: &mut Store,
    story_id: &str,
    entity_id: &str,
    name: &str,
    appearance_anchor: Option<&str>,
    source: &str,
    target_entry_id: Option<&str>,
) -> (r: AppResult<Entity>)
    ensures
        update_outcome(
            old(store)@,
            final(store)@,
            story_id@,
            entity_id@,
            name@,
            appearance_anchor.deep_view(),
            source@,
            target_entry_id.deep_view(),
            None,
            r,
        ),
{
    update_entity_in_turn(
        store,
        story_id,
        entity_id,
        name,
        appearance_anchor,
        source,
        target_entry_id,
        None,
    )
}

/// The entry that a removal is written to.
pub open spec fn deletion_draft(story_id: Seq<char>, entity_id: Seq<char>, name: Seq<char>) -> DraftView {
    projection::event_draft(
        story_id,
        None,
        name + " was removed from the authoritative entity state."@,
        EventView::Deleted { entity_id, name, source: attributes::USER@ },
        None,
    )
}

/// What removing an entity comes to.
pub open spec fn deletion_outcome(
    before: StoreView,
    after: StoreView,
    story_id: Seq<char>,
    entity_id: Seq<char>,
    r: AppResult<()>,
) -> bool {
    match rows::first_where(before.states, attributes::present_as(story_id, entity_id)) {
        None => {
            &&& r is Err
            &&& r->Err_0@ == ErrorView::NotFound("entity "@ + entity_id + " not found"@)
            &&& after == before
        },
        Some(state) => {
            let draft = deletion_draft(story_id, entity_id, state.name);
            match r {
                Ok(_) => projection::record_step(before, after, draft),
                Err(e) => projection::unwritten(before, after, draft, e@),
            }
        },
    }
}

/// Removes an entity from the story's state; what the ledger tells of it stays.
pub fn delete_entity_sync(store: &mut Store, story_id: &str, entity_id: &str) -> (r: AppResult<()>)
    ensures
        deletion_outcome(old(store)@, final(store)@, story_id@, entity_id@, r),
{
    let name = match attributes::present_position(&store.states, story_id, entity_id) {
        Some(i) => store.states[i].name.clone(),
        None => {
            return Err(AppError::NotFound(text::concat3("entity ", entity_id, " not found")));
        },
    };
    let content = text::concat2(
        name.as_str(),
        " was removed from the authoritative entity state.",
    );
    let event = EntityEvent::Deleted {
        entity_id: entity_id.to_string(),
        name,
        source: attributes::USER.to_string(),
    };
    match projection::record(store, story_id, None, content.as_str(), &event, None) {
        Ok(_) => Ok(()),
        Err(e) => Err(e),
    }
}

} // verus!
