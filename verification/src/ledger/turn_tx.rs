//! The barrier that lets one turn generate at a time, and the state of a turn's transaction.

use vstd::prelude::*;

use crate::error::{AppError, AppResult, ErrorView};
use crate::store::Store;
use crate::{rows, text};

verus! {

/// Which story generates now, and how many turns each story has started.
#[derive(Debug, PartialEq)]
pub struct TurnGate {
    pub current: Option<String>,
    pub started: Vec<(String, u64)>,
}

/// What a `TurnGate` stands for.
#[verifier::ext_equal]
pub struct GateView {
    pub current: Option<Seq<char>>,
    pub started: Seq<(Seq<char>, u64)>,
}

impl View for TurnGate {
    type V = GateView;

    open spec fn view(&self) -> GateView {
        GateView { current: self.current.deep_view(), started: self.started.deep_view() }
    }
}

/// Evidence that a story was idle, and how many turns it had started then.
#[derive(Debug, PartialEq)]
pub struct TurnTicket {
    pub story_id: String,
    pub started: u64,
}

/// What a `TurnTicket` stands for.
#[verifier::ext_equal]
pub struct TicketView {
    pub story_id: Seq<char>,
    pub started: u64,
}

impl View for TurnTicket {
    type V = TicketView;

    open spec fn view(&self) -> TicketView {
        TicketView { story_id: self.story_id@, started: self.started }
    }
}

/// The right to generate; it ends when it is given back.
#[derive(Debug, PartialEq)]
pub struct GateGuard {
    pub story_id: String,
}

/// The message to a story whose own turn generates.
pub const BUSY: &'static str = "a turn is already generating";

/// The message to a story while another one generates.
pub const BUSY_ELSEWHERE: &'static str = "another story is generating";

/// The message of a transaction that was committed or rolled back.
pub const FINISHED: &'static str = "turn transaction is already finished";

/// The condition of counting for a story.
pub open spec fn counts_for(story_id: Seq<char>) -> spec_fn((Seq<char>, u64)) -> bool {
    |s: (Seq<char>, u64)| s.0 == story_id
}

/// How many turns a story has started.
pub open spec fn turns_started(gate: GateView, story_id: Seq<char>) -> u64 {
    match rows::first_where(gate.started, counts_for(story_id)) {
        Some(s) => s.1,
        None => 0,
    }
}

/// The barrier while a story generates the turn that it just started.
pub open spec fn taken(gate: GateView, story_id: Seq<char>) -> GateView {
    GateView {
        current: Some(story_id),
        started: rows::upserted(
            gate.started,
            counts_for(story_id),
            (story_id, (turns_started(gate, story_id) + 1) as u64),
        ),
    }
}

/// The barrier when nothing generates.
pub open spec fn released(gate: GateView) -> GateView {
    GateView { current: None, ..gate }
}

/// The barrier after a story asked for it, and why it did not get it where it did not.
pub open spec fn asked(gate: GateView, story_id: Seq<char>) -> (GateView, Option<ErrorView>) {
    match gate.current {
        Some(current) => (
            gate,
            Some(
                ErrorView::Invalid(
                    if current == story_id {
                        BUSY@
                    } else {
                        BUSY_ELSEWHERE@
                    },
                ),
            ),
        ),
        None => (taken(gate, story_id), None),
    }
}

/// Whether a story is idle and has started no turn since a ticket was issued.
pub open spec fn still_valid(gate: GateView, ticket: TicketView) -> bool {
    gate.current != Some(ticket.story_id) && turns_started(gate, ticket.story_id) == ticket.started
}

impl Default for TurnGate {
    fn default() -> (r: TurnGate)
        ensures
            r@.current is None,
            r@.started.len() == 0,
    {
        TurnGate { current: None, started: Vec::new() }
    }
}

impl TurnGate {
    fn position(&self, story_id: &str) -> (r: Option<usize>)
        ensures
            match r {
                Some(i) => {
                    &&& i < self.started@.len()
                    &&& self@.started[i as int].0 == story_id@
                    &&& rows::first_where(self@.started, counts_for(story_id@)) == Some(self@.started[i as int])
                    &&& forall|k: int| 0 <= k < i ==> !counts_for(story_id@)(#[trigger] self@.started[k])
                },
                None => {
                    &&& rows::first_where(self@.started, counts_for(story_id@)) is None
                    &&& forall|k: int|
                        0 <= k < self@.started.len() ==> !counts_for(story_id@)(#[trigger] self@.started[k])
                },
            },
    {
        let ghost p = counts_for(story_id@);
        let meant = |row: &(String, u64)| -> (b: bool)
            ensures
                b == p(row.deep_view()),
        {
            text::same_text(row.0.as_str(), story_id)
        };
        rows::position(&self.started, meant, Ghost(p))
    }

    fn count(&self, story_id: &str) -> (r: u64)
        ensures
            r == turns_started(self@, story_id@),
    {
        match self.position(story_id) {
            Some(i) => self.started[i].1,
            None => 0,
        }
    }

    fn is_generating(&self, story_id: &str) -> (r: bool)
        ensures
            r == (self@.current == Some(story_id@)),
    {
        match &self.current {
            Some(current) => text::same_text(current.as_str(), story_id),
            None => false,
        }
    }

    /// Takes the barrier for a turn of a story, unless a turn generates.
    pub fn acquire(&mut self, story_id: &str) -> (r: AppResult<GateGuard>)
        requires
            old(self)@.current is None ==> turns_started(old(self)@, story_id@) < u64::MAX,
        ensures
            final(self)@ == asked(old(self)@, story_id@).0,
            match asked(old(self)@, story_id@).1 {
                Some(e) => r is Err && r->Err_0@ == e,
                None => r is Ok && r->Ok_0.story_id@ == story_id@,
            },
    {
        if let Some(current) = &self.current {
            return Err(
                AppError::Invalid(
                    if text::same_text(current.as_str(), story_id) {
                        BUSY.to_string()
                    } else {
                        BUSY_ELSEWHERE.to_string()
                    },
                ),
            );
        }
        let count: u64 = self.count(story_id);
        let ghost p = counts_for(story_id@);
        let ghost row = (story_id@, (count + 1) as u64);
        let ghost before = self.started;
        match self.position(story_id) {
            Some(i) => {
                let value = (story_id.to_string(), count + 1);
                let ghost kept = value;
                self.started.set(i, value);
                proof {
                    rows::lemma_upserted_hit(before.deep_view(), p, row, i as int);
                    rows::lemma_deep_update(before, self.started, i as int, kept);
                }
            },
            None => {
                let value = (story_id.to_string(), count + 1);
                let ghost kept = value;
                self.started.push(value);
                proof {
                    rows::lemma_upserted_miss(before.deep_view(), p, row);
                    rows::lemma_deep_push(before, self.started, kept);
                }
            },
        }
        self.current = Some(story_id.to_string());
        Ok(GateGuard { story_id: story_id.to_string() })
    }

    /// Gives the barrier back.
    pub fn release(&mut self, guard: GateGuard)
        ensures
            final(self)@ == released(old(self)@),
    {
        self.current = None;
    }

    /// A ticket for a story that does not generate.
    pub fn check_idle(&self, story_id: &str) -> (r: AppResult<TurnTicket>)
        ensures
            if self@.current == Some(story_id@) {
                r is Err && r->Err_0@ == ErrorView::Invalid(BUSY@)
            } else {
                r is Ok && r->Ok_0@ == (TicketView {
                    story_id: story_id@,
                    started: turns_started(self@, story_id@),
                })
            },
    {
        if self.is_generating(story_id) {
            return Err(AppError::Invalid(BUSY.to_string()));
        }
        Ok(TurnTicket { story_id: story_id.to_string(), started: self.count(story_id) })
    }

    /// Whether a ticket is still good: its story does not generate and has started no turn
    /// since.
    pub fn still_idle(&self, ticket: &TurnTicket) -> (r: AppResult<()>)
        ensures
            r is Ok <==> still_valid(self@, ticket@),
            r is Err ==> r->Err_0@ == ErrorView::Invalid(BUSY@),
    {
        if self.is_generating(ticket.story_id.as_str()) || self.count(ticket.story_id.as_str())
            != ticket.started {
            return Err(AppError::Invalid(BUSY.to_string()));
        }
        Ok(())
    }
}

proof fn lemma_upserted_other(all: Seq<(Seq<char>, u64)>, key: Seq<char>, other: Seq<char>, n: u64)
    requires
        key != other,
    ensures
        rows::first_where(
            rows::upserted(all, counts_for(key), (key, n)),
            counts_for(other),
        ) == rows::first_where(all, counts_for(other)),
        rows::first_where(
            rows::upserted(all, counts_for(key), (key, n)),
            counts_for(key),
        ) == Some((key, n)),
    decreases all.len(),
{
    reveal_with_fuel(rows::first_where, 2);
    let p = counts_for(key);
    let after = rows::upserted(all, p, (key, n));
    if all.len() == 0 {
        assert(after[0] == (key, n));
        assert(after.drop_first() =~= Seq::empty());
    } else if p(all[0]) {
        assert(after[0] == (key, n));
        assert(after.drop_first() =~= all.drop_first());
    } else {
        lemma_upserted_other(all.drop_first(), key, other, n);
        assert(after[0] == all[0]);
        assert(after.drop_first() =~= rows::upserted(all.drop_first(), p, (key, n)));
    }
}

/// A turn of the ticket's own story, once started, makes the ticket void, also when the
/// turn is over.
pub proof fn law_own_turn_voids_ticket(gate: GateView, story_id: Seq<char>)
    requires
        turns_started(gate, story_id) < u64::MAX,
    ensures
        !still_valid(
            released(taken(gate, story_id)),
            TicketView { story_id, started: turns_started(gate, story_id) },
        ),
        !still_valid(
            taken(gate, story_id),
            TicketView { story_id, started: turns_started(gate, story_id) },
        ),
{
    let after = taken(gate, story_id);
    let n = (turns_started(gate, story_id) + 1) as u64;
    assert(story_id.push('a').len() != story_id.len());
    lemma_upserted_other(gate.started, story_id, story_id.push('a'), n);
    assert(turns_started(after, story_id) == n);
    assert(turns_started(released(after), story_id) == n);
}

/// A turn of another story leaves a ticket as it is.
pub proof fn law_other_turn_keeps_ticket(gate: GateView, ticket: TicketView, other: Seq<char>)
    requires
        other != ticket.story_id,
        gate.current is None,
    ensures
        still_valid(taken(gate, other), ticket) == still_valid(gate, ticket),
        still_valid(released(taken(gate, other)), ticket) == still_valid(gate, ticket),
{
    let n = (turns_started(gate, other) + 1) as u64;
    lemma_upserted_other(gate.started, other, ticket.story_id, n);
}

/// The barrier is refused just where a story holds it, with a message that tells whether it is the
/// story itself. A refusal changes nothing: who holds the barrier keeps it, and every ticket is worth
/// what it was.
pub proof fn law_only_a_free_barrier_is_taken(gate: GateView, story_id: Seq<char>, ticket: TicketView)
    ensures
        asked(gate, story_id).1 is Some <==> gate.current is Some,
        gate.current == Some(story_id) ==> asked(gate, story_id).1 == Some(ErrorView::Invalid(BUSY@)),
        gate.current is Some && gate.current != Some(story_id) ==> asked(gate, story_id).1 == Some(
            ErrorView::Invalid(BUSY_ELSEWHERE@),
        ),
        asked(gate, story_id).1 is Some ==> asked(gate, story_id).0 == gate && still_valid(
            asked(gate, story_id).0,
            ticket,
        ) == still_valid(gate, ticket),
        asked(gate, story_id).1 is None ==> asked(gate, story_id).0.current == Some(story_id),
{
}

/// While a story holds the barrier nobody else gets it, and when the story gives it back anybody does.
pub proof fn law_barrier_is_held_until_it_is_given_back(gate: GateView, holder: Seq<char>, other: Seq<char>)
    requires
        asked(gate, holder).1 is None,
    ensures
        asked(asked(gate, holder).0, other).1 is Some,
        asked(asked(gate, holder).0, other).0.current == Some(holder),
        asked(released(asked(asked(gate, holder).0, other).0), other).1 is None,
{
}

/// A turn that generates in a transaction of its own.
#[derive(Debug, PartialEq)]
pub struct TurnTx {
    pub story_id: String,
    pub guard: Option<GateGuard>,
}

/// Whether a transaction was committed or rolled back.
pub open spec fn finished(tx: TurnTx) -> bool {
    tx.guard is None
}

impl TurnTx {
    /// Takes the barrier for a turn; the transaction is then open.
    pub fn begin(gate: &mut TurnGate, story_id: &str) -> (r: AppResult<TurnTx>)
        requires
            old(gate)@.current is None ==> turns_started(old(gate)@, story_id@) < u64::MAX,
        ensures
            final(gate)@ == asked(old(gate)@, story_id@).0,
            match asked(old(gate)@, story_id@).1 {
                Some(e) => r is Err && r->Err_0@ == e,
                None => r is Ok && r->Ok_0.story_id@ == story_id@ && !finished(r->Ok_0),
            },
    {
        match gate.acquire(story_id) {
            Ok(guard) => Ok(TurnTx { story_id: story_id.to_string(), guard: Some(guard) }),
            Err(e) => Err(e),
        }
    }

    /// Whether the transaction still takes reads and writes.
    pub fn with(&self) -> (r: AppResult<()>)
        ensures
            r is Ok <==> !finished(*self),
            r is Err ==> r->Err_0@ == ErrorView::Invalid(FINISHED@),
    {
        if self.guard.is_none() {
            return Err(AppError::Invalid(FINISHED.to_string()));
        }
        Ok(())
    }

    /// Runs a step of the turn. Where the step fails, its writes are undone and no others; the
    /// turn stays open.
    pub fn with_savepoint<T, S: FnOnce(Store) -> (Store, AppResult<T>)>(&self, store: &mut Store, step: S) -> (r: AppResult<T>)
        requires
            forall|given: Store| call_requires(step, (given,)),
        ensures
            if finished(*self) {
                r is Err && r->Err_0@ == ErrorView::Invalid(FINISHED@) && final(store)@ == old(store)@
            } else {
                exists|given: Store, done: (Store, AppResult<T>)| #[trigger]
                    call_ensures(step, (given,), done) && given@ == old(store)@ && r == done.1 && final(store)@
                        == (if done.1 is Ok {
                        done.0@
                    } else {
                        old(store)@
                    })
            },
    {
        if self.guard.is_none() {
            return Err(AppError::Invalid(FINISHED.to_string()));
        }
        let given = store.copy();
        let ghost start = given;
        let done = step(given);
        let ghost outcome = done;
        assert(call_ensures(step, (start,), outcome));
        let (after, result) = done;
        if result.is_ok() {
            *store = after;
        }
        result
    }

    /// Ends the transaction after the database has committed it or rolled it back, and gives
    /// the barrier back.
    fn finish(&mut self, gate: &mut TurnGate) -> (r: AppResult<()>)
        ensures
            final(self).story_id == old(self).story_id,
            finished(*final(self)),
            if finished(*old(self)) {
                r is Err && r->Err_0@ == ErrorView::Invalid(FINISHED@) && final(gate)@ == old(gate)@
            } else {
                r is Ok && final(gate)@ == released(old(gate)@)
            },
    {
        match self.guard.take() {
            Some(guard) => {
                gate.release(guard);
                Ok(())
            },
            None => Err(AppError::Invalid(FINISHED.to_string())),
        }
    }

    /// Ends the transaction with its writes kept: where the database could not commit them,
    /// it stays open.
    pub fn commit(&mut self, gate: &mut TurnGate, committed: AppResult<()>) -> (r: AppResult<()>)
        ensures
            final(self).story_id == old(self).story_id,
            if finished(*old(self)) {
                &&& r is Err && r->Err_0@ == ErrorView::Invalid(FINISHED@)
                &&& finished(*final(self))
                &&& final(gate)@ == old(gate)@
            } else {
                match committed {
                    Ok(_) => r is Ok && finished(*final(self)) && final(gate)@ == released(
                        old(gate)@,
                    ),
                    Err(e) => r == committed && *final(self) == *old(self) && final(gate)@ == old(gate)@,
                }
            },
    {
        if self.guard.is_none() {
            return Err(AppError::Invalid(FINISHED.to_string()));
        }
        match committed {
            Ok(_) => self.finish(gate),
            Err(e) => Err(e),
        }
    }

    /// Ends the transaction with its writes undone: where the database could not roll them
    /// back, it stays open.
    pub fn rollback(&mut self, gate: &mut TurnGate, rolled_back: AppResult<()>) -> (r: AppResult<()>)
        ensures
            final(self).story_id == old(self).story_id,
            if finished(*old(self)) {
                &&& r is Err && r->Err_0@ == ErrorView::Invalid(FINISHED@)
                &&& finished(*final(self))
                &&& final(gate)@ == old(gate)@
            } else {
                match rolled_back {
                    Ok(_) => r is Ok && finished(*final(self)) && final(gate)@ == released(
                        old(gate)@,
                    ),
                    Err(e) => r == rolled_back && *final(self) == *old(self) && final(gate)@ == old(gate)@,
                }
            },
    {
        self.commit(gate, rolled_back)
    }

    /// The story whose turn this is.
    pub fn story_id(&self) -> (r: &str)
        ensures
            r@ == self.story_id@,
    {
        self.story_id.as_str()
    }
}

} // verus!
