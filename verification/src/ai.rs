//! A conversation with the narrator: what is sent, what comes back while it answers, and
//! what is kept of the tools that it called.

use vstd::prelude::*;

use crate::error::{AppError, ErrorView};
use crate::json::{Json, JsonView};
use crate::{json, prompts, rows, stamp, text};

verus! {

/// Where a model that speaks plain chat completions is found.
pub const NOUS_PORTAL_BASE_URL: &'static str = "https://inference-api.nousresearch.com/v1";

/// How the program names itself there.
pub const NOUS_PORTAL_USER_AGENT: &'static str = "Dungeon/0.1 (+https://github.com/dungeon-app/dungeon)";

/// The provider that is reached through `NOUS_PORTAL_BASE_URL`.
pub const NOUS_PORTAL: &'static str = "nous_portal";

/// How many times a model may answer in a turn in which it calls tools.
pub const MAX_TOOL_TURNS: usize = 8;

/// Which model narrates, and how it is reached.
#[derive(Debug, PartialEq)]
pub struct TextModelConfig {
    pub provider: String,
    pub model: String,
    pub api_key: String,
    pub context_window: usize,
}

/// Where a turn of the conversation comes from.
#[derive(Debug, Clone, Copy, PartialEq, Eq, Structural)]
pub enum HistoryTurnMarker {
    Ledger,
    Summary,
}

/// A turn of the conversation so far.
#[derive(Debug, PartialEq)]
pub struct HistoryTurn {
    pub entry_id: Option<String>,
    pub is_player: bool,
    pub content: String,
    pub marker: HistoryTurnMarker,
}

/// What a `HistoryTurn` stands for.
#[verifier::ext_equal]
pub struct HistoryTurnView {
    pub entry_id: Option<Seq<char>>,
    pub is_player: bool,
    pub content: Seq<char>,
    pub marker: HistoryTurnMarker,
}

impl View for HistoryTurn {
    type V = HistoryTurnView;

    open spec fn view(&self) -> HistoryTurnView {
        HistoryTurnView {
            entry_id: self.entry_id.deep_view(),
            is_player: self.is_player,
            content: self.content@,
            marker: self.marker,
        }
    }
}

impl DeepView for HistoryTurn {
    type V = HistoryTurnView;

    open spec fn deep_view(&self) -> HistoryTurnView {
        self@
    }
}

impl HistoryTurn {
    /// The same turn.
    pub fn copy(&self) -> (r: HistoryTurn)
        ensures
            r@ == self@,
    {
        HistoryTurn {
            entry_id: text::copy_option(&self.entry_id),
            is_player: self.is_player,
            content: self.content.clone(),
            marker: self.marker,
        }
    }
}

/// How far a call of a tool has come.
#[derive(Debug, Clone, Copy, PartialEq, Eq, Structural)]
pub enum ToolActivityPhase {
    Started,
    Finished { ok: bool },
}

/// A piece of an answer.
#[derive(Debug, PartialEq)]
pub enum NarratorChunk {
    Text(String),
    Reasoning(String),
    ToolActivity { call_id: String, tool_name: String, args: String, phase: ToolActivityPhase },
}

/// What a `NarratorChunk` stands for.
#[verifier::ext_equal]
pub enum ChunkView {
    Text(Seq<char>),
    Reasoning(Seq<char>),
    ToolActivity {
        call_id: Seq<char>,
        tool_name: Seq<char>,
        args: Seq<char>,
        phase: ToolActivityPhase,
    },
}

impl View for NarratorChunk {
    type V = ChunkView;

    open spec fn view(&self) -> ChunkView {
        match *self {
            NarratorChunk::Text(t) => ChunkView::Text(t@),
            NarratorChunk::Reasoning(t) => ChunkView::Reasoning(t@),
            NarratorChunk::ToolActivity { call_id, tool_name, args, phase } => ChunkView::ToolActivity {
                call_id: call_id@,
                tool_name: tool_name@,
                args: args@,
                phase,
            },
        }
    }
}

impl DeepView for NarratorChunk {
    type V = ChunkView;

    open spec fn deep_view(&self) -> ChunkView {
        self@
    }
}

/// A call of a tool that has come to its end.
#[derive(Debug, PartialEq)]
pub struct CompletedToolCall {
    pub tool: String,
    pub args: Json,
    pub result: Json,
    pub ok: bool,
}

/// What a `CompletedToolCall` stands for.
#[verifier::ext_equal]
pub struct CompletedView {
    pub tool: Seq<char>,
    pub args: JsonView,
    pub result: JsonView,
    pub ok: bool,
}

impl View for CompletedToolCall {
    type V = CompletedView;

    open spec fn view(&self) -> CompletedView {
        CompletedView { tool: self.tool@, args: self.args@, result: self.result@, ok: self.ok }
    }
}

impl DeepView for CompletedToolCall {
    type V = CompletedView;

    open spec fn deep_view(&self) -> CompletedView {
        self@
    }
}

impl CompletedToolCall {
    /// The same call.
    pub fn copy(&self) -> (r: CompletedToolCall)
        ensures
            r@ == self@,
    {
        CompletedToolCall {
            tool: self.tool.clone(),
            args: self.args.copy(),
            result: self.result.copy(),
            ok: self.ok,
        }
    }
}

/// A text as JSON, or as a JSON string where it is none.
pub open spec fn json_or_text(value: Seq<char>) -> JsonView {
    match json::parsed(value) {
        Some(v) => v,
        None => JsonView::Str(value),
    }
}

/// A text as JSON, or as a JSON string where it is none.
pub fn json_or_string(value: &str) -> (r: Json)
    ensures
        r@ == json_or_text(value@),
{
    match json::parse(value) {
        Some(v) => v,
        None => json::of_text(value),
    }
}

/// What a tool returned: its value, or what it was rendered as where it has none.
pub open spec fn canonical_result(structured: Option<JsonView>, rendered: Seq<char>) -> JsonView {
    match structured {
        Some(v) => v,
        None => JsonView::Str(rendered),
    }
}

/// What a tool returned: its value, or what it was rendered as where it has none.
pub fn canonical_tool_result(structured: Option<&Json>, rendered: &str) -> (r: Json)
    ensures
        r@ == canonical_result(structured.deep_view(), rendered@),
{
    match structured {
        Some(v) => v.copy(),
        None => json::of_text(rendered),
    }
}

/// The record of a call: the tool, its arguments, what it returned and whether it went well.
pub fn completed_tool_call(
    tool: &str,
    args: &str,
    structured: Option<&Json>,
    rendered: &str,
    ok: bool,
) -> (r: CompletedToolCall)
    ensures
        r@ == (CompletedView {
            tool: tool@,
            args: json_or_text(args@),
            result: canonical_result(structured.deep_view(), rendered@),
            ok,
        }),
{
    CompletedToolCall {
        tool: tool.to_string(),
        args: json_or_string(args),
        result: canonical_tool_result(structured, rendered),
        ok,
    }
}

/// The calls of a turn: the order in which they were started, and those that have ended.
#[derive(Debug, PartialEq)]
pub struct ToolCallCapture {
    started: Vec<(String, usize)>,
    next_order: usize,
    completed: Vec<(usize, CompletedToolCall)>,
}

/// What a `ToolCallCapture` holds.
#[verifier::ext_equal]
pub struct CaptureView {
    pub started: Seq<(Seq<char>, usize)>,
    pub next_order: usize,
    pub completed: Seq<(usize, CompletedView)>,
}

impl View for ToolCallCapture {
    type V = CaptureView;

    closed spec fn view(&self) -> CaptureView {
        CaptureView {
            started: self.started.deep_view(),
            next_order: self.next_order,
            completed: self.completed.deep_view(),
        }
    }
}

/// Whether a row of the started calls is that of a call.
pub open spec fn started_as(call_id: Seq<char>) -> spec_fn((Seq<char>, usize)) -> bool {
    |row: (Seq<char>, usize)| row.0 == call_id
}

/// The place that a call has among those that were started.
pub open spec fn order_of(capture: CaptureView, call_id: Seq<char>) -> Option<usize> {
    match rows::first_where(capture.started, started_as(call_id)) {
        Some(row) => Some(row.1),
        None => None,
    }
}

/// The calls after one more was started; a call that was started before keeps its place.
pub open spec fn after_start(capture: CaptureView, call_id: Seq<char>) -> CaptureView {
    if order_of(capture, call_id) is Some {
        capture
    } else {
        CaptureView {
            started: capture.started.push((call_id, capture.next_order)),
            next_order: (capture.next_order + 1) as usize,
            ..capture
        }
    }
}

/// The calls after one of them ended. A call that nobody saw start takes the next place.
pub open spec fn after_finish(capture: CaptureView, call_id: Seq<char>, call: CompletedView) -> CaptureView {
    match order_of(capture, call_id) {
        Some(order) => CaptureView { completed: capture.completed.push((order, call)), ..capture },
        None => CaptureView {
            completed: capture.completed.push((capture.next_order, call)),
            next_order: (capture.next_order + 1) as usize,
            ..capture
        },
    }
}

/// A list with one more call in it, before the first that was started later.
pub open spec fn inserted(sorted: Seq<(usize, CompletedView)>, row: (usize, CompletedView)) -> Seq<
    (usize, CompletedView),
>
    decreases sorted.len(),
{
    if sorted.len() == 0 {
        seq![row]
    } else if sorted.last().0 <= row.0 {
        sorted.push(row)
    } else {
        inserted(sorted.drop_last(), row).push(sorted.last())
    }
}

/// The calls that have ended, in the order in which they were started; those with the same
/// place in the order in which they ended.
pub open spec fn in_start_order(completed: Seq<(usize, CompletedView)>) -> Seq<(usize, CompletedView)>
    decreases completed.len(),
{
    if completed.len() == 0 {
        Seq::empty()
    } else {
        inserted(in_start_order(completed.drop_last()), completed.last())
    }
}

/// Whether the places of a list never fall.
pub open spec fn rising(s: Seq<(usize, CompletedView)>) -> bool {
    forall|i: int, k: int| 0 <= i <= k < s.len() ==> (#[trigger] s[i]).0 <= (#[trigger] s[k]).0
}

proof fn lemma_inserted(sorted: Seq<(usize, CompletedView)>, row: (usize, CompletedView))
    requires
        rising(sorted),
    ensures
        rising(inserted(sorted, row)),
        inserted(sorted, row).to_multiset() == sorted.to_multiset().insert(row),
        inserted(sorted, row).len() == sorted.len() + 1,
        forall|i: int|
            0 <= i < inserted(sorted, row).len() ==> (#[trigger] inserted(sorted, row)[i]).0 <= row.0 || (
            sorted.len() > 0 && inserted(sorted, row)[i].0 <= sorted.last().0),
    decreases sorted.len(),
{
    broadcast use vstd::seq_lib::group_to_multiset_ensures;

    if sorted.len() == 0 {
        assert(seq![row] =~= sorted.push(row));
    } else if sorted.last().0 <= row.0 {
    } else {
        let front = sorted.drop_last();
        lemma_inserted(front, row);
        let whole = inserted(front, row).push(sorted.last());
        assert(sorted =~= front.push(sorted.last()));
        assert forall|i: int, k: int| 0 <= i <= k < whole.len() implies (#[trigger] whole[i]).0 <= (
        #[trigger] whole[k]).0 by {
            if k == whole.len() - 1 && i < k {
                assert(whole[i] == inserted(front, row)[i]);
                if front.len() > 0 {
                    assert(front.last() == sorted[sorted.len() - 2]);
                }
            } else if i < k {
                assert(whole[i] == inserted(front, row)[i]);
                assert(whole[k] == inserted(front, row)[k]);
            }
        }
        assert forall|i: int| 0 <= i < whole.len() implies (#[trigger] whole[i]).0 <= row.0
            || whole[i].0 <= sorted.last().0 by {
            if i < whole.len() - 1 {
                assert(whole[i] == inserted(front, row)[i]);
                if front.len() > 0 {
                    assert(front.last() == sorted[sorted.len() - 2]);
                }
            }
        }
        assert(whole.to_multiset() =~= sorted.to_multiset().insert(row)) by {
            inserted(front, row).to_multiset_ensures();
            front.to_multiset_ensures();
            assert(whole.to_multiset() =~= inserted(front, row).to_multiset().insert(sorted.last()));
            assert(sorted.to_multiset() =~= front.to_multiset().insert(sorted.last()));
        }
    }
}

/// The calls that have ended are handed over in the order in which they were started, each
/// of them once.
pub proof fn law_calls_follow_start_order(completed: Seq<(usize, CompletedView)>)
    ensures
        rising(in_start_order(completed)),
        in_start_order(completed).to_multiset() == completed.to_multiset(),
        in_start_order(completed).len() == completed.len(),
    decreases completed.len(),
{
    broadcast use vstd::seq_lib::group_to_multiset_ensures;

    if completed.len() > 0 {
        let front = completed.drop_last();
        law_calls_follow_start_order(front);
        lemma_inserted(in_start_order(front), completed.last());
        assert(completed =~= front.push(completed.last()));
        front.to_multiset_ensures();
        assert(completed.to_multiset() =~= front.to_multiset().insert(completed.last()));
    } else {
        assert(in_start_order(completed) =~= completed);
    }
}

impl Default for ToolCallCapture {
    /// No call yet.
    fn default() -> (r: ToolCallCapture)
        ensures
            r@ == (CaptureView { started: Seq::empty(), next_order: 0, completed: Seq::empty() }),
    {
        let r = ToolCallCapture { started: Vec::new(), next_order: 0, completed: Vec::new() };
        assert(r@.started =~= Seq::empty());
        assert(r@.completed =~= Seq::empty());
        r
    }
}

impl ToolCallCapture {
    fn order(&self, call_id: &str) -> (r: Option<usize>)
        ensures
            r == order_of(self@, call_id@),
    {
        let ghost all = self@.started;
        let ghost p = started_as(call_id@);
        let mut i: usize = 0;
        while i < self.started.len()
            invariant
                0 <= i <= self.started@.len(),
                all == self@.started,
                all == self.started.deep_view(),
                p == started_as(call_id@),
                forall|k: int| 0 <= k < i ==> !p(#[trigger] all[k]),
            decreases self.started@.len() - i,
        {
            assert(all[i as int] == (self.started@[i as int].0@, self.started@[i as int].1));
            if text::same_text(self.started[i].0.as_str(), call_id) {
                proof {
                    rows::lemma_first_where_hit(all, p, i as int);
                }
                return Some(self.started[i].1);
            }
            i += 1;
        }
        proof {
            rows::lemma_first_where_miss(all, p);
        }
        None
    }

    /// Whether one more call can be counted.
    pub fn has_room(&self) -> (r: bool)
        ensures
            r == (self@.next_order < usize::MAX),
    {
        self.next_order < usize::MAX
    }

    /// Notes that a call was started.
    pub fn start(&mut self, call_id: &str)
        requires
            old(self)@.next_order < usize::MAX,
        ensures
            final(self)@ == after_start(old(self)@, call_id@),
    {
        if self.order(call_id).is_some() {
            return;
        }
        let order: usize = self.next_order;
        self.next_order = order + 1;
        let ghost before = self.started;
        let row = (call_id.to_string(), order);
        let ghost value = row;
        self.started.push(row);
        proof {
            rows::lemma_deep_push(before, self.started, value);
        }
    }

    /// Notes that a call has ended.
    pub fn finish(&mut self, call_id: &str, call: CompletedToolCall)
        requires
            old(self)@.next_order < usize::MAX,
        ensures
            final(self)@ == after_finish(old(self)@, call_id@, call@),
    {
        let order: usize = match self.order(call_id) {
            Some(order) => order,
            None => {
                let order: usize = self.next_order;
                self.next_order = order + 1;
                order
            },
        };
        let ghost before = self.completed;
        let row = (order, call);
        let ghost value = row;
        self.completed.push(row);
        proof {
            rows::lemma_deep_push(before, self.completed, value);
        }
    }

    /// Hands over the calls that have ended, in the order in which they were started.
    pub fn take_completed(&mut self) -> (r: Vec<CompletedToolCall>)
        ensures
            r.deep_view() == in_start_order(old(self)@.completed).map_values(
                |row: (usize, CompletedView)| row.1,
            ),
            final(self)@ == (CaptureView { completed: Seq::empty(), ..old(self)@ }),
    {
        let ghost all = self@.completed;
        let mut sorted: Vec<(usize, CompletedToolCall)> = Vec::new();
        let mut i: usize = 0;
        assert(sorted.deep_view() =~= in_start_order(all.take(0)));
        while i < self.completed.len()
            invariant
                0 <= i <= self.completed@.len(),
                self@ == old(self)@,
                all == self@.completed,
                all == self.completed.deep_view(),
                sorted.deep_view() == in_start_order(all.take(i as int)),
            decreases self.completed@.len() - i,
        {
            let row = (self.completed[i].0, self.completed[i].1.copy());
            proof {
                assert(all[i as int] == row.deep_view());
                assert(all.take(i + 1).drop_last() =~= all.take(i as int));
                assert(all.take(i + 1).last() == all[i as int]);
            }
            insert_sorted(&mut sorted, row);
            i += 1;
        }
        proof {
            rows::lemma_take_all(all);
        }
        let mut out: Vec<CompletedToolCall> = Vec::new();
        let mut k: usize = 0;
        while k < sorted.len()
            invariant
                0 <= k <= sorted@.len(),
                out@.len() == k,
                forall|n: int| 0 <= n < k ==> (#[trigger] out@[n])@ == sorted@[n].1@,
            decreases sorted@.len() - k,
        {
            out.push(sorted[k].1.copy());
            k += 1;
        }
        assert(out.deep_view() =~= sorted.deep_view().map_values(
            |row: (usize, CompletedView)| row.1,
        ));
        self.completed = Vec::new();
        assert(self@.completed =~= Seq::empty());
        out
    }
}

proof fn lemma_inserted_at(sorted: Seq<(usize, CompletedView)>, row: (usize, CompletedView), at: int)
    requires
        0 <= at <= sorted.len(),
        forall|k: int| at <= k < sorted.len() ==> (#[trigger] sorted[k]).0 > row.0,
        at > 0 ==> sorted[at - 1].0 <= row.0,
    ensures
        inserted(sorted, row) == sorted.insert(at, row),
    decreases sorted.len() - at,
{
    if at == sorted.len() {
        assert(sorted.insert(at, row) =~= sorted.push(row));
        assert(seq![row] =~= Seq::<(usize, CompletedView)>::empty().push(row));
        if sorted.len() == 0 {
            assert(sorted =~= Seq::empty());
        }
    } else {
        assert(sorted[sorted.len() - 1].0 > row.0);
        lemma_inserted_at(sorted.drop_last(), row, at);
        assert(sorted.drop_last().insert(at, row).push(sorted.last()) =~= sorted.insert(at, row));
    }
}

fn insert_sorted(sorted: &mut Vec<(usize, CompletedToolCall)>, row: (usize, CompletedToolCall))
    ensures
        final(sorted).deep_view() == inserted(old(sorted).deep_view(), row.deep_view()),
{
    let ghost all = sorted.deep_view();
    let mut at: usize = sorted.len();
    while at > 0 && sorted[at - 1].0 > row.0
        invariant
            0 <= at <= sorted@.len(),
            all == sorted.deep_view(),
            *sorted == *old(sorted),
            forall|k: int| at <= k < all.len() ==> (#[trigger] all[k]).0 > row.0,
        decreases at,
    {
        at -= 1;
    }
    proof {
        lemma_inserted_at(all, row.deep_view(), at as int);
    }
    let ghost value = row;
    sorted.insert(at, row);
    assert(sorted.deep_view() =~= all.insert(at as int, value.deep_view()));
}

/// What is done with the result of a tool.
#[derive(Debug, PartialEq)]
pub enum ToolResultAction {
    Keep,
    Stop(String),
}

/// The result of a tool ends the turn where it is that of the illustrator and the turn was
/// to end there; every other result goes back to the narrator.
pub fn tool_result_action(stop_reason: Option<&str>, tool_name: &str) -> (r: ToolResultAction)
    ensures
        match r {
            ToolResultAction::Stop(reason) => {
                &&& tool_name@ == prompts::ILLUSTRATE_SCENE_TOOL_NAME@
                &&& stop_reason.deep_view() == Some(reason@)
            },
            ToolResultAction::Keep => tool_name@ != prompts::ILLUSTRATE_SCENE_TOOL_NAME@
                || stop_reason is None,
        },
{
    if text::same_text(tool_name, prompts::ILLUSTRATE_SCENE_TOOL_NAME) {
        if let Some(reason) = stop_reason {
            return ToolResultAction::Stop(reason.to_string());
        }
    }
    ToolResultAction::Keep
}

/// The words by which a turn that ends at its first result knows its own end.
pub fn stop_reason(stop_after_tool_result: bool) -> (r: Option<String>)
    ensures
        match r {
            Some(reason) => {
                &&& stop_after_tool_result
                &&& reason@.len() > 36
                &&& reason@.take(reason@.len() - 36) == "decision captured/"@
            },
            None => !stop_after_tool_result,
        },
{
    if stop_after_tool_result {
        let id = stamp::fresh_id();
        let reason = text::concat2("decision captured/", id.as_str());
        proof {
            reveal_strlit("decision captured/");
            assert(reason@.take(reason@.len() - 36) =~= "decision captured/"@);
        }
        Some(reason)
    } else {
        None
    }
}

/// An item of the stream that an answer comes in: a piece of visible text from which
/// reasoning was taken out, a piece of reasoning, an item of another sort, the end of a
/// turn that was called off, or a failure.
#[derive(Debug, PartialEq)]
pub enum StreamItem {
    Text(String),
    Reasoning(String),
    Quiet,
    Cancelled { reason: String, message: String },
    Failed { message: String },
}

/// What a `StreamItem` stands for.
#[verifier::ext_equal]
#[allow(inconsistent_fields)]
pub enum StreamItemView {
    Text(Seq<char>),
    Reasoning(Seq<char>),
    Quiet,
    Cancelled { reason: Seq<char>, message: Seq<char> },
    Failed { message: Seq<char> },
}

impl View for StreamItem {
    type V = StreamItemView;

    open spec fn view(&self) -> StreamItemView {
        match *self {
            StreamItem::Text(t) => StreamItemView::Text(t@),
            StreamItem::Reasoning(t) => StreamItemView::Reasoning(t@),
            StreamItem::Quiet => StreamItemView::Quiet,
            StreamItem::Cancelled { reason, message } => StreamItemView::Cancelled {
                reason: reason@,
                message: message@,
            },
            StreamItem::Failed { message } => StreamItemView::Failed { message: message@ },
        }
    }
}

/// Whether a stream that was called off was called off for the reason that the turn itself gave.
pub fn is_expected_tool_stop(stop_reason: Option<&str>, reason: &str) -> (r: bool)
    ensures
        r == (stop_reason.deep_view() == Some(reason@)),
{
    match stop_reason {
        Some(expected) => text::same_text(expected, reason),
        None => false,
    }
}

/// What has come of an answer so far.
#[derive(Debug, PartialEq)]
pub struct Answer {
    pub visible: String,
    pub thoughts: String,
}

/// What an `Answer` stands for.
#[verifier::ext_equal]
pub struct AnswerView {
    pub visible: Seq<char>,
    pub thoughts: Seq<char>,
}

impl View for Answer {
    type V = AnswerView;

    open spec fn view(&self) -> AnswerView {
        AnswerView { visible: self.visible@, thoughts: self.thoughts@ }
    }
}

/// What follows on an item of the stream.
#[derive(Debug, PartialEq)]
pub enum StreamStep {
    Emit(NarratorChunk),
    Quiet,
    End,
    Fail(AppError),
}

/// What a `StreamStep` stands for.
#[verifier::ext_equal]
pub enum StreamStepView {
    Emit(ChunkView),
    Quiet,
    End,
    Fail(ErrorView),
}

impl View for StreamStep {
    type V = StreamStepView;

    open spec fn view(&self) -> StreamStepView {
        match *self {
            StreamStep::Emit(chunk) => StreamStepView::Emit(chunk@),
            StreamStep::Quiet => StreamStepView::Quiet,
            StreamStep::End => StreamStepView::End,
            StreamStep::Fail(e) => StreamStepView::Fail(e@),
        }
    }
}

/// What follows on an item of the stream: a piece of text or reasoning is passed on, an
/// end that the turn itself called for ends the stream, and any other error fails it.
pub open spec fn stream_step(stop_reason: Option<Seq<char>>, item: StreamItemView) -> StreamStepView {
    match item {
        StreamItemView::Text(t) => if t.len() == 0 {
            StreamStepView::Quiet
        } else {
            StreamStepView::Emit(ChunkView::Text(t))
        },
        StreamItemView::Reasoning(t) => StreamStepView::Emit(ChunkView::Reasoning(t)),
        StreamItemView::Quiet => StreamStepView::Quiet,
        StreamItemView::Cancelled { reason, message } => if stop_reason == Some(reason) {
            StreamStepView::End
        } else {
            StreamStepView::Fail(ErrorView::Other("narrator stream error: "@ + message))
        },
        StreamItemView::Failed { message } => StreamStepView::Fail(
            ErrorView::Other("narrator stream error: "@ + message),
        ),
    }
}

/// An answer after an item of its stream.
pub open spec fn answered(answer: AnswerView, item: StreamItemView) -> AnswerView {
    match item {
        StreamItemView::Text(t) => AnswerView { visible: answer.visible + t, ..answer },
        StreamItemView::Reasoning(t) => AnswerView { thoughts: answer.thoughts + t, ..answer },
        _ => answer,
    }
}

impl Answer {
    /// Nothing yet.
    pub fn new() -> (r: Answer)
        ensures
            r@ == (AnswerView { visible: Seq::empty(), thoughts: Seq::empty() }),
    {
        Answer { visible: String::new(), thoughts: String::new() }
    }

    /// Takes in an item of the stream and tells what follows on it.
    pub fn take(&mut self, stop_reason: Option<&str>, item: StreamItem) -> (r: StreamStep)
        ensures
            final(self)@ == answered(old(self)@, item@),
            r@ == stream_step(stop_reason.deep_view(), item@),
    {
        match item {
            StreamItem::Text(t) => {
                if text::same_text(t.as_str(), "") {
                    proof {
                        reveal_strlit("");
                        assert(self.visible@ + t@ =~= self.visible@);
                    }
                    return StreamStep::Quiet;
                }
                proof {
                    reveal_strlit("");
                    assert(t@.len() == 0 ==> t@ =~= ""@);
                }
                self.visible.append(t.as_str());
                StreamStep::Emit(NarratorChunk::Text(t))
            },
            StreamItem::Reasoning(t) => {
                self.thoughts.append(t.as_str());
                StreamStep::Emit(NarratorChunk::Reasoning(t))
            },
            StreamItem::Quiet => StreamStep::Quiet,
            StreamItem::Cancelled { reason, message } => {
                if is_expected_tool_stop(stop_reason, reason.as_str()) {
                    StreamStep::End
                } else {
                    StreamStep::Fail(
                        AppError::Other(text::concat2("narrator stream error: ", message.as_str())),
                    )
                }
            },
            StreamItem::Failed { message } => StreamStep::Fail(
                AppError::Other(text::concat2("narrator stream error: ", message.as_str())),
            ),
        }
    }
}

/// How a model is reached.
#[derive(Debug, PartialEq)]
pub enum Endpoint {
    /// Plain chat completions at an address, under a name of the program.
    ChatCompletions { base_url: &'static str, user_agent: &'static str },
    /// The gateway that takes fields of its own beside those of a chat.
    OpenRouter { extra: Option<Json> },
}

/// What a request to a model is made of, besides its texts.
#[derive(Debug, PartialEq)]
pub struct AgentPlan {
    pub endpoint: Endpoint,
    pub max_turns: Option<usize>,
}

/// The field by which the gateway passes the effort of reasoning on.
pub open spec fn effort_field(effort: Seq<char>) -> JsonView {
    JsonView::Object(seq![("reasoning"@, JsonView::Object(seq![("effort"@, JsonView::Str(effort))]))])
}

/// How a model is asked. Only the gateway is told the effort of reasoning, and only a
/// model that has tools may answer more than once.
pub fn agent_plan(config: &TextModelConfig, has_tools: bool, reasoning_effort: Option<&str>) -> (r: AgentPlan)
    ensures
        r.max_turns == (if has_tools {
            Some(MAX_TOOL_TURNS)
        } else {
            None
        }),
        match r.endpoint {
            Endpoint::ChatCompletions { base_url, user_agent } => {
                &&& config.provider@ == NOUS_PORTAL@
                &&& base_url == NOUS_PORTAL_BASE_URL
                &&& user_agent == NOUS_PORTAL_USER_AGENT
            },
            Endpoint::OpenRouter { extra } => {
                &&& config.provider@ != NOUS_PORTAL@
                &&& extra.deep_view() == (match reasoning_effort.deep_view() {
                    Some(effort) => Some(effort_field(effort)),
                    None => None,
                })
            },
        },
{
    let max_turns: Option<usize> = if has_tools {
        Some(MAX_TOOL_TURNS)
    } else {
        None
    };
    if text::same_text(config.provider.as_str(), NOUS_PORTAL) {
        return AgentPlan {
            endpoint: Endpoint::ChatCompletions {
                base_url: NOUS_PORTAL_BASE_URL,
                user_agent: NOUS_PORTAL_USER_AGENT,
            },
            max_turns,
        };
    }
    let extra: Option<Json> = match reasoning_effort {
        Some(effort) => {
            let inner = Json::Object(vec![json::pair("effort", json::of_text(effort))]);
            assert(inner@->Object_0 =~= seq![("effort"@, JsonView::Str(effort@))]);
            let outer = Json::Object(vec![json::pair("reasoning", inner)]);
            assert(outer@->Object_0 =~= effort_field(effort@)->Object_0);
            Some(outer)
        },
        None => None,
    };
    AgentPlan { endpoint: Endpoint::OpenRouter { extra }, max_turns }
}

/// A call that is started takes the next place, and keeps it however often it is started. When it is
/// finished it stands at the place that it took, and a call that was never started at the next one.
pub proof fn law_call_keeps_the_place_it_took(capture: CaptureView, call_id: Seq<char>, other: Seq<char>, call: CompletedView)
    requires
        capture.next_order < usize::MAX,
    ensures
        order_of(after_start(capture, call_id), call_id) is Some,
        order_of(capture, call_id) is None ==> order_of(after_start(capture, call_id), call_id) == Some(
            capture.next_order,
        ) && after_start(capture, call_id).next_order == capture.next_order + 1,
        order_of(capture, call_id) is Some ==> after_start(capture, call_id) == capture,
        other != call_id ==> order_of(after_start(capture, call_id), other) == order_of(capture, other),
        after_start(capture, call_id).completed == capture.completed,
        ({
            let after = after_finish(capture, call_id, call);
            &&& after.completed.len() == capture.completed.len() + 1
            &&& after.completed.drop_last() == capture.completed
            &&& after.completed.last().1 == call
            &&& order_of(capture, call_id) is Some ==> after.completed.last().0 == order_of(capture, call_id)->0
                && after.next_order == capture.next_order
            &&& order_of(capture, call_id) is None ==> after.completed.last().0 == capture.next_order
                && after.next_order == capture.next_order + 1
            &&& after.started == capture.started
        }),
{
    let p = started_as(call_id);
    let q = started_as(other);
    if order_of(capture, call_id) is None {
        lemma_started_last(capture.started, (call_id, capture.next_order), p);
        lemma_started_last(capture.started, (call_id, capture.next_order), q);
    }
    assert(after_finish(capture, call_id, call).completed.drop_last() =~= capture.completed);
}

proof fn lemma_started_last(started: Seq<(Seq<char>, usize)>, row: (Seq<char>, usize), p: spec_fn((Seq<char>, usize)) -> bool)
    ensures
        rows::first_where(started.push(row), p) == (match rows::first_where(started, p) {
            Some(found) => Some(found),
            None => if p(row) {
                Some(row)
            } else {
                None
            },
        }),
    decreases started.len(),
{
    if started.len() == 0 {
        reveal_with_fuel(rows::first_where, 2);
        assert(started.push(row)[0] == row);
        assert(started.push(row).drop_first() =~= started);
    } else {
        assert(started.push(row)[0] == started[0]);
        assert(started.push(row).drop_first() =~= started.drop_first().push(row));
        lemma_started_last(started.drop_first(), row, p);
    }
}

/// Text is told and gathered as it comes, thoughts apart from it, and nothing else adds to an answer.
/// A stop ends the telling where it is the one that was meant, and fails it otherwise, as any
/// failure does.
pub proof fn law_stream_tells_text_and_thoughts_apart(
    answer: AnswerView,
    stop_reason: Option<Seq<char>>,
    words: Seq<char>,
    message: Seq<char>,
)
    ensures
        answered(answer, StreamItemView::Text(words)).visible == answer.visible + words,
        answered(answer, StreamItemView::Text(words)).thoughts == answer.thoughts,
        answered(answer, StreamItemView::Reasoning(words)).thoughts == answer.thoughts + words,
        answered(answer, StreamItemView::Reasoning(words)).visible == answer.visible,
        answered(answer, StreamItemView::Quiet) == answer,
        answered(answer, (StreamItemView::Failed { message })) == answer,
        words.len() > 0 ==> stream_step(stop_reason, StreamItemView::Text(words)) == StreamStepView::Emit(
            ChunkView::Text(words),
        ),
        words.len() == 0 ==> stream_step(stop_reason, StreamItemView::Text(words)) is Quiet,
        stream_step(stop_reason, StreamItemView::Reasoning(words)) == StreamStepView::Emit(ChunkView::Reasoning(words)),
        stream_step(stop_reason, StreamItemView::Quiet) is Quiet,
        stream_step(stop_reason, (StreamItemView::Cancelled { reason: words, message })) is End <==> stop_reason == Some(
            words,
        ),
        stop_reason != Some(words) ==> stream_step(
            stop_reason,
            (StreamItemView::Cancelled { reason: words, message }),
        ) is Fail,
        stream_step(stop_reason, (StreamItemView::Failed { message })) is Fail,
{
}

/// What a call was given, or gave back, is kept as the value that it is: a text that can be read as a
/// value as that value and any other as it is, and a value that was given apart before its text.
pub proof fn law_values_are_kept_as_they_are(value: Seq<char>, structured: JsonView)
    ensures
        json::parsed(value) is Some ==> json_or_text(value) == json::parsed(value)->0,
        json::parsed(value) is None ==> json_or_text(value) == JsonView::Str(value),
        canonical_result(Some(structured), value) == structured,
        canonical_result(None, value) == JsonView::Str(value),
{
}

} // verus!
