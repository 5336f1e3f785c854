//! The entities as they would be without a turn.

use vstd::prelude::*;

use super::projection;
use crate::store::{Store, StoreView};

verus! {

/// Tables that hold nothing of any entity yet.
pub open spec fn without_entities(store: StoreView) -> StoreView {
    StoreView {
        entities: Seq::empty(),
        states: Seq::empty(),
        attributes: Seq::empty(),
        ..store
    }
}

/// A copy of the tables in which the state of a story's entities is made anew from the
/// ledger, as if nothing had happened in a turn. The tables themselves stay as they are.
pub fn excluding_turn(live: &Store, story_id: &str, turn_id: &str, now: &str) -> (r: Store)
    ensures
        r@ == projection::rebuilt(without_entities(live@), story_id@, Some(turn_id@), now@),
{
    let mut view = live.copy();
    view.entities = Vec::new();
    view.states = Vec::new();
    view.attributes = Vec::new();
    assert(view@ =~= without_entities(live@));
    projection::rebuild_story(&mut view, story_id, Some(turn_id), now);
    view
}

} // verus!
