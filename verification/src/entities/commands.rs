//! What the player does to entities by hand. A story that generates is left alone: each change
//! needs a ticket from when the story was idle, and is made whole or not at all.

use vstd::prelude::*;

use super::attributes;
use super::attributes::USER;
use super::model::{Entity, EntityAttributeValue};
use super::repository;
use crate::double::Double;
use crate::error::{AppResult, ErrorView};
use crate::ledger::turn_tx;
use crate::ledger::turn_tx::{TurnGate, TurnTicket, BUSY};
use crate::stamp;
use crate::store::{Store, StoreView};

verus! {

/// Whether a change was refused because the story generates or has generated since.
pub open spec fn turned_away<T>(before: StoreView, after: StoreView, r: AppResult<T>) -> bool {
    r is Err && r->Err_0@ == ErrorView::Invalid(BUSY@) && after == before
}

/// The tables after a change that led to an end: all as it was where the change failed.
pub open spec fn whole<T>(before: StoreView, end: StoreView, r: AppResult<T>) -> StoreView {
    match r {
        Ok(_) => end,
        Err(_) => before,
    }
}

/// Adds an entity to a story.
pub fn create_entity(
    gate: &TurnGate,
    ticket: &TurnTicket,
    store: &mut Store,
    story_id: &str,
    kind: &str,
    name: &str,
    appearance_anchor: Option<&str>,
) -> (r: AppResult<Entity>)
    ensures
        if turn_tx::still_valid(gate@, ticket@) {
            exists|id: Seq<char>, end: StoreView|
                stamp::fresh_like(id) && #[trigger] repository::creation_outcome(
                    old(store)@,
                    end,
                    id,
                    repository::creation_draft(
                        id,
                        story_id@,
                        kind@,
                        name@,
                        appearance_anchor.deep_view(),
                        USER@,
                        None,
                        None,
                    ),
                    kind@,
                    name@,
                    appearance_anchor.deep_view(),
                    r,
                ) && final(store)@ == whole(old(store)@, end, r)
        } else {
            turned_away(old(store)@, final(store)@, r)
        },
{
    match gate.still_idle(ticket) {
        Ok(_) => {},
        Err(e) => {
            return Err(e);
        },
    }
    let backup = store.copy();
    let r = repository::create_entity_sync(store, story_id, kind, name, appearance_anchor, USER, None);
    if r.is_err() {
        *store = backup;
    }
    r
}

/// Gives an entity of a story a name and a look.
pub fn update_entity(
    gate: &TurnGate,
    ticket: &TurnTicket,
    store: &mut Store,
    story_id: &str,
    entity_id: &str,
    name: &str,
    appearance_anchor: Option<&str>,
) -> (r: AppResult<Entity>)
    ensures
        if turn_tx::still_valid(gate@, ticket@) {
            exists|end: StoreView|
                #[trigger] repository::update_outcome(
                    old(store)@,
                    end,
                    story_id@,
                    entity_id@,
                    name@,
                    appearance_anchor.deep_view(),
                    USER@,
                    None,
                    None,
                    r,
                ) && final(store)@ == whole(old(store)@, end, r)
        } else {
            turned_away(old(store)@, final(store)@, r)
        },
{
    match gate.still_idle(ticket) {
        Ok(_) => {},
        Err(e) => {
            return Err(e);
        },
    }
    let backup = store.copy();
    let r = repository::update_entity_sync(store, story_id, entity_id, name, appearance_anchor, USER, None);
    if r.is_err() {
        *store = backup;
    }
    r
}

/// Removes an entity from a story.
pub fn delete_entity(gate: &TurnGate, ticket: &TurnTicket, store: &mut Store, story_id: &str, entity_id: &str) -> (r: AppResult<()>)
    ensures
        if turn_tx::still_valid(gate@, ticket@) {
            exists|end: StoreView|
                #[trigger] repository::deletion_outcome(old(store)@, end, story_id@, entity_id@, r) && final(store)@
                    == whole(old(store)@, end, r)
        } else {
            turned_away(old(store)@, final(store)@, r)
        },
{
    match gate.still_idle(ticket) {
        Ok(_) => {},
        Err(e) => {
            return Err(e);
        },
    }
    let backup = store.copy();
    let r = repository::delete_entity_sync(store, story_id, entity_id);
    if r.is_err() {
        *store = backup;
    }
    r
}

/// Sets the value that an entity has on an attribute.
pub fn set_entity_attribute(
    gate: &TurnGate,
    ticket: &TurnTicket,
    store: &mut Store,
    story_id: &str,
    entity_id: &str,
    attribute_id: &str,
    value: &Double,
) -> (r: AppResult<EntityAttributeValue>)
    ensures
        if turn_tx::still_valid(gate@, ticket@) {
            exists|end: StoreView|
                #[trigger] attributes::set_outcome(
                    old(store)@,
                    end,
                    story_id@,
                    entity_id@,
                    attribute_id@,
                    value@,
                    r,
                ) && final(store)@ == whole(old(store)@, end, r)
        } else {
            turned_away(old(store)@, final(store)@, r)
        },
{
    match gate.still_idle(ticket) {
        Ok(_) => {},
        Err(e) => {
            return Err(e);
        },
    }
    let backup = store.copy();
    let r = attributes::set_entity_attribute_sync(store, story_id, entity_id, attribute_id, value);
    if r.is_err() {
        *store = backup;
    }
    r
}

/// Removes the value that an entity has on an attribute.
pub fn remove_entity_attribute(
    gate: &TurnGate,
    ticket: &TurnTicket,
    store: &mut Store,
    story_id: &str,
    entity_id: &str,
    attribute_id: &str,
) -> (r: AppResult<()>)
    ensures
        if turn_tx::still_valid(gate@, ticket@) {
            exists|end: StoreView|
                #[trigger] attributes::removal_outcome(
                    old(store)@,
                    end,
                    story_id@,
                    entity_id@,
                    attribute_id@,
                    r,
                ) && final(store)@ == whole(old(store)@, end, r)
        } else {
            turned_away(old(store)@, final(store)@, r)
        },
{
    match gate.still_idle(ticket) {
        Ok(_) => {},
        Err(e) => {
            return Err(e);
        },
    }
    let backup = store.copy();
    let r = attributes::remove_entity_attribute_sync(store, story_id, entity_id, attribute_id);
    if r.is_err() {
        *store = backup;
    }
    r
}

} // verus!
