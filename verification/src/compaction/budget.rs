//! How much of a conversation is sent as it was, and how much by a summary.

use vstd::prelude::*;

use crate::ai::{HistoryTurn, HistoryTurnView, TextModelConfig};

verus! {

/// The size that a model is taken to have where its own is unknown.
pub const FALLBACK_CONTEXT_WINDOW: usize = 32768;

/// How many messages are always sent as they were.
pub const RAW_TAIL_MESSAGES: usize = 12;

/// The most that is held back for an answer.
pub const LARGEST_RESPONSE: usize = 8192;

/// Who speaks in a message.
#[derive(Debug, Clone, Copy, PartialEq, Eq, Structural)]
pub enum Role {
    System,
    User,
    Assistant,
}

/// A message as a model reads it.
#[derive(Debug, PartialEq)]
pub struct Speech {
    pub role: Role,
    pub text: String,
}

impl View for Speech {
    type V = (Role, Seq<char>);

    open spec fn view(&self) -> (Role, Seq<char>) {
        (self.role, self.text@)
    }
}

impl DeepView for Speech {
    type V = (Role, Seq<char>);

    open spec fn deep_view(&self) -> (Role, Seq<char>) {
        self@
    }
}

/// The number of tokens that `rig_memory::HeuristicTokenCounter::openai` counts in a message.
pub uninterp spec fn token_count(role: Role, text: Seq<char>) -> usize;

/// The tokens of a run of messages.
pub open spec fn total_tokens(messages: Seq<(Role, Seq<char>)>) -> nat
    decreases messages.len(),
{
    if messages.len() == 0 {
        0
    } else {
        total_tokens(messages.drop_last()) + token_count(messages.last().0, messages.last().1) as nat
    }
}

/// How many of the newest messages fit in a budget, counted from the end until one does not.
pub open spec fn newest_fitting(messages: Seq<(Role, Seq<char>)>, budget: int) -> nat
    decreases messages.len(),
{
    if messages.len() == 0 {
        0
    } else {
        let cost = token_count(messages.last().0, messages.last().1) as int;
        if cost > budget {
            0
        } else {
            newest_fitting(messages.drop_last(), budget - cost) + 1
        }
    }
}

/// A message in the form of the `rig_core` crate, one constructor for each speaker.
#[verifier::external_body]
fn message_of(message: &Speech) -> rig_core::completion::Message {
    match message.role {
        Role::System => rig_core::completion::Message::system(message.text.clone()),
        Role::User => rig_core::completion::Message::user(message.text.clone()),
        Role::Assistant => rig_core::completion::Message::assistant(message.text.clone()),
    }
}

/// A message as the `rig_core` crate holds it.
#[verifier::external_type_specification]
#[verifier::external_body]
pub struct ExMessage(rig_core::completion::Message);

/// `rig_memory::TokenCounter::count` of the counter `HeuristicTokenCounter::openai`: the
/// number of tokens is a function of the message alone.
#[verifier::external_body]
fn count_tokens(message: &Speech) -> (r: usize)
    ensures
        r == token_count(message@.0, message@.1),
{
    rig_memory::TokenCounter::count(&rig_memory::HeuristicTokenCounter::openai(), &message_of(message))
}

/// `rig_memory::TokenWindowMemory::apply` with the counter `HeuristicTokenCounter::openai`,
/// by the number of messages that it keeps: it never fails, and on messages that are not
/// results of tools it keeps the newest, from the end until one does not fit in what is
/// left of the budget.
#[verifier::external_body]
fn keep_newest(messages: &Vec<Speech>, budget: usize) -> (r: Option<usize>)
    ensures
        r is Some,
        r->0 == newest_fitting(messages.deep_view(), budget as int),
{
    let policy = rig_memory::TokenWindowMemory::new(budget, rig_memory::HeuristicTokenCounter::openai());
    rig_memory::MemoryPolicy::apply(&policy, messages.iter().map(message_of).collect())
        .ok()
        .map(|kept| kept.len())
}

/// A conversation as a model reads it.
pub open spec fn spoken(history: Seq<HistoryTurnView>) -> Seq<(Role, Seq<char>)> {
    history.map_values(
        |t: HistoryTurnView|
            (
                if t.is_player {
                    Role::User
                } else {
                    Role::Assistant
                },
                t.content,
            ),
    )
}

/// A conversation as a model reads it.
pub fn messages(history: &Vec<HistoryTurn>) -> (r: Vec<Speech>)
    ensures
        r.deep_view() == spoken(history.deep_view()),
{
    let mut out: Vec<Speech> = Vec::new();
    let mut i: usize = 0;
    while i < history.len()
        invariant
            0 <= i <= history@.len(),
            out@.len() == i,
            forall|k: int|
                0 <= k < i ==> (#[trigger] out@[k])@ == (
                    if history@[k].is_player {
                        Role::User
                    } else {
                        Role::Assistant
                    },
                    history@[k].content@,
                ),
        decreases history@.len() - i,
    {
        let role = if history[i].is_player {
            Role::User
        } else {
            Role::Assistant
        };
        out.push(Speech { role, text: history[i].content.clone() });
        i += 1;
    }
    assert(out.deep_view() =~= spoken(history.deep_view()));
    out
}

/// The size of a model: its own, or the fallback where it is unknown.
pub fn context_window(config: &TextModelConfig) -> (r: usize)
    ensures
        r == (if config.context_window == 0 {
            FALLBACK_CONTEXT_WINDOW
        } else {
            config.context_window
        }),
{
    if config.context_window == 0 {
        FALLBACK_CONTEXT_WINDOW
    } else {
        config.context_window
    }
}

/// The limits of a request: the size of the model, the size from which the older part is
/// summed up, and the size that is aimed at then.
#[derive(Debug, Clone, Copy, PartialEq, Eq)]
pub struct Limits {
    pub context_window: usize,
    pub trigger: usize,
    pub target: usize,
}

/// What of a request does not change with the conversation.
pub open spec fn fixed_tokens(limits: Limits, preamble: Seq<char>, prompt: Seq<char>) -> int {
    token_count(Role::System, preamble) + token_count(Role::User, prompt) + (if limits.context_window / 5
        < LARGEST_RESPONSE {
        limits.context_window / 5
    } else {
        LARGEST_RESPONSE
    })
}

/// Where the part of a conversation begins that is sent as it was: at its start where all
/// of it is below the trigger; else as many of the newest turns as fit in the target, and
/// never fewer than `RAW_TAIL_MESSAGES`.
pub open spec fn tail_start(
    history: Seq<HistoryTurnView>,
    limits: Limits,
    preamble: Seq<char>,
    prompt: Seq<char>,
) -> int {
    let fixed = fixed_tokens(limits, preamble, prompt);
    let all = spoken(history);
    if fixed + total_tokens(all) < limits.trigger {
        0
    } else {
        let budget = if limits.target > fixed {
            limits.target - fixed
        } else {
            0
        };
        let fitting = newest_fitting(all, budget);
        if history.len() <= RAW_TAIL_MESSAGES {
            0
        } else if fitting < RAW_TAIL_MESSAGES {
            history.len() - RAW_TAIL_MESSAGES
        } else {
            history.len() - fitting
        }
    }
}

proof fn lemma_newest_fitting(messages: Seq<(Role, Seq<char>)>, budget: int)
    ensures
        newest_fitting(messages, budget) <= messages.len(),
    decreases messages.len(),
{
    if messages.len() > 0 {
        let cost = token_count(messages.last().0, messages.last().1) as int;
        lemma_newest_fitting(messages.drop_last(), budget - cost);
    }
}

/// A sum that stops at the largest number.
pub open spec fn capped(n: int) -> int {
    if n > usize::MAX {
        usize::MAX as int
    } else {
        n
    }
}

fn sum_tokens(messages: &Vec<Speech>) -> (r: usize)
    ensures
        r == capped(total_tokens(messages.deep_view()) as int),
{
    let ghost all = messages.deep_view();
    let mut sum: usize = 0;
    let mut i: usize = 0;
    while i < messages.len()
        invariant
            0 <= i <= messages@.len(),
            all == messages.deep_view(),
            sum == capped(total_tokens(all.take(i as int)) as int),
        decreases messages@.len() - i,
    {
        proof {
            assert(all.take(i + 1).drop_last() =~= all.take(i as int));
            assert(all.take(i + 1).last() == messages@[i as int]@);
        }
        sum = sum.saturating_add(count_tokens(&messages[i]));
        i += 1;
    }
    proof {
        crate::rows::lemma_take_all(all);
    }
    sum
}

/// Where the part of a conversation begins that is sent as it was.
pub fn raw_tail_boundary(history: &Vec<HistoryTurn>, limits: Limits, preamble: &str, prompt: &str) -> (r: usize)
    ensures
        r == tail_start(history.deep_view(), limits, preamble@, prompt@),
        r <= history@.len(),
{
    let share: usize = limits.context_window / 5;
    let response_reserve: usize = if share < LARGEST_RESPONSE {
        share
    } else {
        LARGEST_RESPONSE
    };
    let preamble_cost: usize = count_tokens(&Speech { role: Role::System, text: preamble.to_string() });
    let prompt_cost: usize = count_tokens(&Speech { role: Role::User, text: prompt.to_string() });
    let fixed: usize = preamble_cost.saturating_add(prompt_cost).saturating_add(response_reserve);
    let history_messages = messages(history);
    let total: usize = fixed.saturating_add(sum_tokens(&history_messages));
    if total < limits.trigger {
        return 0;
    }
    let budget: usize = limits.target.saturating_sub(fixed);
    proof {
        lemma_newest_fitting(spoken(history.deep_view()), budget as int);
    }
    let kept: usize = match keep_newest(&history_messages, budget) {
        Some(kept) => kept,
        None => history_messages.len(),
    };
    let least: usize = if history.len() < RAW_TAIL_MESSAGES {
        history.len()
    } else {
        RAW_TAIL_MESSAGES
    };
    let keep_count: usize = if kept > least {
        kept
    } else {
        least
    };
    history.len() - keep_count
}

/// Of a conversation that is cut, the newest turns are always sent as they were.
pub proof fn law_newest_turns_are_kept(
    history: Seq<HistoryTurnView>,
    limits: Limits,
    preamble: Seq<char>,
    prompt: Seq<char>,
)
    ensures
        0 <= tail_start(history, limits, preamble, prompt) <= history.len(),
        history.len() <= RAW_TAIL_MESSAGES ==> tail_start(history, limits, preamble, prompt) == 0,
        history.len() > RAW_TAIL_MESSAGES ==> history.len() - tail_start(history, limits, preamble, prompt)
            >= RAW_TAIL_MESSAGES,
{
    let fixed = fixed_tokens(limits, preamble, prompt);
    let budget = if limits.target > fixed {
        limits.target - fixed
    } else {
        0
    };
    lemma_newest_fitting(spoken(history), budget);
}

/// What the turns from a place on cost: those of the player as a user's words, the others as an
/// assistant's.
pub open spec fn cost_from(history: Seq<HistoryTurnView>, k: int) -> int
    decreases history.len() - k,
{
    if k < 0 || k >= history.len() {
        0
    } else {
        cost_from(history, k + 1) + (if history[k].is_player {
            token_count(Role::User, history[k].content) as int
        } else {
            token_count(Role::Assistant, history[k].content) as int
        })
    }
}

proof fn lemma_cost_of_front(history: Seq<HistoryTurnView>, k: int)
    requires
        history.len() > 0,
        0 <= k <= history.len(),
    ensures
        cost_from(history, k) == (if k == history.len() {
            0
        } else {
            cost_from(history.drop_last(), k) + (if history.last().is_player {
                token_count(Role::User, history.last().content) as int
            } else {
                token_count(Role::Assistant, history.last().content) as int
            })
        }),
    decreases history.len() - k,
{
    if k < history.len() {
        lemma_cost_of_front(history, k + 1);
        if k == history.len() - 1 {
            assert(cost_from(history, k + 1) == 0);
            assert(cost_from(history.drop_last(), k) == 0);
        } else {
            assert(history.drop_last()[k] == history[k]);
        }
    }
}

proof fn lemma_cost_of_all(history: Seq<HistoryTurnView>)
    ensures
        total_tokens(spoken(history)) == cost_from(history, 0),
    decreases history.len(),
{
    let all = spoken(history);
    if history.len() > 0 {
        assert(all.drop_last() =~= spoken(history.drop_last()));
        lemma_cost_of_all(history.drop_last());
        lemma_cost_of_front(history, 0);
        assert(all.last() == all[all.len() - 1]);
    } else {
        assert(all.len() == 0);
    }
}

proof fn lemma_cost_falls(history: Seq<HistoryTurnView>, a: int, b: int)
    requires
        0 <= a <= b <= history.len(),
    ensures
        cost_from(history, a) >= cost_from(history, b) >= 0,
    decreases history.len() - a,
{
    if a < history.len() {
        if a < b {
            lemma_cost_falls(history, a + 1, b);
        } else {
            lemma_cost_falls(history, a + 1, history.len() as int);
        }
    }
}

proof fn lemma_fitting(history: Seq<HistoryTurnView>, budget: int)
    requires
        budget >= 0,
    ensures
        ({
            let n = newest_fitting(spoken(history), budget);
            &&& n <= history.len()
            &&& cost_from(history, history.len() - n) <= budget
            &&& n < history.len() ==> cost_from(history, history.len() - n - 1) > budget
        }),
    decreases history.len(),
{
    let all = spoken(history);
    if history.len() > 0 {
        let front = history.drop_last();
        assert(all.drop_last() =~= spoken(front));
        let cost = token_count(all.last().0, all.last().1) as int;
        assert(all.last() == all[all.len() - 1]);
        let last = history.len() - 1;
        assert(cost_from(history, last + 1) == 0);
        if cost <= budget {
            lemma_fitting(front, budget - cost);
            let n = newest_fitting(spoken(front), budget - cost);
            lemma_cost_of_front(history, front.len() - n);
            if n < front.len() {
                lemma_cost_of_front(history, front.len() - n - 1);
            }
        } else {
            assert(cost_from(history, last) == cost);
        }
    }
}

/// Nothing is summed up of a conversation that stays below the trigger with all that is sent
/// beside it: the preamble, the prompt, and what is held back for the answer. From there on the
/// newest turns are sent as they were, at least 12 of them, and beyond these no more than fit in
/// the target, but as many as do.
pub proof fn law_what_is_sent_fits(history: Seq<HistoryTurnView>, limits: Limits, preamble: Seq<char>, prompt: Seq<char>)
    ensures
        ({
            let start = tail_start(history, limits, preamble, prompt);
            let reserve: int = if limits.context_window / 5 > 8192 {
                8192
            } else {
                limits.context_window as int / 5
            };
            let beside = token_count(Role::System, preamble) + token_count(Role::User, prompt) + reserve;
            &&& 0 <= start <= history.len()
            &&& beside + cost_from(history, 0) < limits.trigger ==> start == 0
            &&& history.len() <= 12 ==> start == 0
            &&& beside + cost_from(history, 0) >= limits.trigger && history.len() > 12 ==> {
                &&& history.len() - start >= 12
                &&& history.len() - start > 12 ==> cost_from(history, start) == 0 || beside + cost_from(history, start)
                    <= limits.target
                &&& start > 0 ==> beside + cost_from(history, start - 1) > limits.target
            }
        }),
{
    let fixed = fixed_tokens(limits, preamble, prompt);
    let budget = if limits.target > fixed {
        limits.target - fixed
    } else {
        0
    };
    lemma_cost_of_all(history);
    lemma_fitting(history, budget);
    let n = newest_fitting(spoken(history), budget);
    let start = tail_start(history, limits, preamble, prompt);
    if history.len() > 12 {
        if n < 12 {
            lemma_cost_falls(history, history.len() - 13, history.len() - n - 1);
        }
        lemma_cost_falls(history, start, history.len() as int);
    }
}

/// What is sent of a history is each of its turns, in their order and in their words: the player's as
/// those of the user, and the others as those of the assistant.
pub proof fn law_turns_are_sent_as_who_said_them(history: Seq<HistoryTurnView>, i: int)
    requires
        0 <= i < history.len(),
    ensures
        spoken(history).len() == history.len(),
        spoken(history)[i].1 == history[i].content,
        history[i].is_player ==> spoken(history)[i].0 == Role::User,
        !history[i].is_player ==> spoken(history)[i].0 == Role::Assistant,
{
}

} // verus!
