//! What the narrator is told beside the conversation: the entities of the story, the note of
//! its author, and the tools that it has.

use vstd::prelude::*;

use super::catalog::ToolSpec;
use crate::ai::{HistoryTurn, HistoryTurnView};
use crate::compaction::budget;
use crate::compaction::budget::Limits;
use crate::entities::model::{AttributeValueView, Entity, EntityAttributeValue, EntityView};
use crate::entities::{attributes, repository};
use crate::error::AppResult;
use crate::json::JsonView;
use crate::ledger::kind;
use crate::ledger::model::{EntryView, LedgerEntry};
use crate::narration::author_note;
use crate::store::{Store, StoreView};
use crate::{json, prompts, rows, stories, text};

verus! {

/// No entity is told of.
pub const MODE_NONE: &'static str = "none";

/// Every entity is told of in full.
pub const MODE_ALL: &'static str = "all";

/// An attribute and its value.
pub open spec fn attribute_text() -> spec_fn(AttributeValueView) -> Seq<char> {
    |v: AttributeValueView| v.canonical_name + "="@ + v.value.display
}

/// The attributes of an entity, behind what else is said of it.
pub open spec fn attribute_part(values: Seq<AttributeValueView>) -> Seq<char> {
    if values.len() == 0 {
        Seq::empty()
    } else {
        "; attributes: "@ + text::joined(values.map_values(attribute_text()), ", "@)
    }
}

/// The look of an entity, behind its name.
pub open spec fn appearance_part(appearance_anchor: Option<Seq<char>>) -> Seq<char> {
    match appearance_anchor {
        Some(look) => "; appearance: "@ + look,
        None => Seq::empty(),
    }
}

/// The line of an entity: its name and kind, and its look and attributes where it is told of
/// in full.
pub open spec fn entity_line(store: StoreView, story_id: Seq<char>, detailed: Option<Set<Seq<char>>>) -> spec_fn(
    EntityView,
) -> Seq<char> {
    |e: EntityView|
        if detailed is Some && !detailed->0.contains(e.id) {
            "- "@ + e.name + " ("@ + e.kind + ")"@
        } else {
            "- "@ + e.name + " ("@ + e.kind + ")"@ + appearance_part(e.appearance_anchor) + attribute_part(
                attributes::listed_values(store, story_id, e.id),
            )
        }
}

/// The entities of a story, a line for each. Where only some are told of in full, the others
/// are named.
pub open spec fn entity_context(store: StoreView, story_id: Seq<char>, detailed: Option<Set<Seq<char>>>) -> Seq<char> {
    let lines = repository::listed_entities(store, story_id, None).map_values(
        entity_line(store, story_id, detailed),
    );
    "<entities>\n"@ + text::joined(seq![prompts::ENTITY_CONTEXT_HEADER@] + lines, "\n"@) + "\n</entities>"@
}

fn attribute_words(values: &Vec<EntityAttributeValue>) -> (r: String)
    ensures
        r@ == attribute_part(values.deep_view()),
{
    if values.len() == 0 {
        return String::new();
    }
    let mut parts: Vec<String> = Vec::new();
    let mut i: usize = 0;
    while i < values.len()
        invariant
            0 <= i <= values@.len(),
            parts@.len() == i,
            forall|k: int|
                0 <= k < i ==> (#[trigger] parts@[k])@ == values@[k]@.canonical_name + "="@
                    + values@[k]@.value.display,
        decreases values@.len() - i,
    {
        parts.push(
            text::concat3(
                values[i].canonical_name.as_str(),
                "=",
                values[i].value.display.as_str(),
            ),
        );
        i += 1;
    }
    assert(parts.deep_view() =~= values.deep_view().map_values(attribute_text()));
    let list = text::join(&parts, ", ");
    text::concat2("; attributes: ", list.as_str())
}

fn line_for(store: &Store, story_id: &str, entity: &Entity, detailed: Option<&Vec<String>>) -> (r: String)
    ensures
        r@ == entity_line(store@, story_id@, detailed_set(detailed.deep_view()))(entity@),
{
    let head = text::concat5("- ", entity.name.as_str(), " (", entity.kind.as_str(), ")");
    if let Some(ids) = detailed {
        proof {
            vstd::seq_lib::seq_to_set_is_finite(ids.deep_view());
        }
        if !text::list_contains(ids, entity.id.as_str()) {
            return head;
        }
    }
    let appearance = match &entity.appearance_anchor {
        Some(look) => text::concat2("; appearance: ", look.as_str()),
        None => String::new(),
    };
    let values = attributes::list_entity_attributes_sync(store, story_id, entity.id.as_str());
    let words = attribute_words(&values);
    text::concat3(head.as_str(), appearance.as_str(), words.as_str())
}

/// The set that a list of identifiers stands for.
pub open spec fn detailed_set(ids: Option<Seq<Seq<char>>>) -> Option<Set<Seq<char>>> {
    match ids {
        Some(ids) => Some(ids.to_set()),
        None => None,
    }
}

/// The entities of a story, a line for each. Where only some are told of in full, the others
/// are named.
pub fn format_entity_context(store: &Store, story_id: &str, detailed: Option<&Vec<String>>) -> (r: String)
    ensures
        r@ == entity_context(store@, story_id@, detailed_set(detailed.deep_view())),
{
    let entities = repository::list_entities_sync(store, story_id, None);
    let ghost all = entities.deep_view();
    let ghost f = entity_line(store@, story_id@, detailed_set(detailed.deep_view()));
    let mut lines: Vec<String> = Vec::new();
    lines.push(prompts::ENTITY_CONTEXT_HEADER.to_string());
    let mut i: usize = 0;
    while i < entities.len()
        invariant
            0 <= i <= entities@.len(),
            all == entities.deep_view(),
            f == entity_line(store@, story_id@, detailed_set(detailed.deep_view())),
            lines@.len() == i + 1,
            lines@[0]@ == prompts::ENTITY_CONTEXT_HEADER@,
            forall|k: int| 1 <= k <= i ==> (#[trigger] lines@[k])@ == f(all[k - 1]),
        decreases entities@.len() - i,
    {
        assert(all[i as int] == entities@[i as int]@);
        lines.push(line_for(store, story_id, &entities[i], detailed));
        i += 1;
    }
    assert(lines.deep_view() =~= seq![prompts::ENTITY_CONTEXT_HEADER@] + all.map_values(f));
    let body = text::join(&lines, "\n");
    text::concat3("<entities>\n", body.as_str(), "\n</entities>")
}

/// Whether an entry is about an entity.
pub open spec fn mentions(entry: EntryView, id: Seq<char>) -> bool {
    if entry.kind == kind::ENTITY_CREATED@ || entry.kind == kind::ENTITY_UPDATED@ || entry.kind
        == kind::ENTITY_ATTRIBUTE_CHANGED@ {
        json::text_field(entry.payload, "entity_id"@) == Some(id)
    } else if entry.kind == kind::ENTITY_QUERIED@ {
        match json::field(entry.payload, "entity_ids"@) {
            Some(JsonView::Array(items)) => exists|i: int|
                0 <= i < items.len() && json::text_of(#[trigger] items[i]) == Some(id),
            _ => false,
        }
    } else {
        false
    }
}

/// Whether an entry is one of those that a part of a conversation tells of.
pub open spec fn told_of(tail: Seq<HistoryTurnView>, entry: EntryView) -> bool {
    exists|k: int| 0 <= k < tail.len() && (#[trigger] tail[k]).entry_id == Some(entry.id)
}

/// The entities that the entries are about that a part of a conversation tells of.
pub open spec fn touched_set(entries: Seq<EntryView>, tail: Seq<HistoryTurnView>) -> Set<Seq<char>> {
    Set::new(
        |id: Seq<char>|
            exists|i: int|
                0 <= i < entries.len() && told_of(tail, #[trigger] entries[i]) && mentions(entries[i], id),
    )
}

fn is_told_of(history: &Vec<HistoryTurn>, from: usize, entry: &LedgerEntry) -> (r: bool)
    requires
        from <= history@.len(),
    ensures
        r == told_of(history.deep_view().skip(from as int), entry@),
{
    let ghost tail = history.deep_view().skip(from as int);
    let mut i: usize = from;
    while i < history.len()
        invariant
            from <= i <= history@.len(),
            tail == history.deep_view().skip(from as int),
            forall|k: int| 0 <= k < i - from ==> (#[trigger] tail[k]).entry_id != Some(entry@.id),
        decreases history@.len() - i,
    {
        assert(tail[i - from] == history@[i as int]@);
        if let Some(id) = &history[i].entry_id {
            if text::same_text(id.as_str(), entry.id.as_str()) {
                assert(tail[i - from].entry_id == Some(entry@.id));
                return true;
            }
        }
        i += 1;
    }
    false
}

fn mentioned(entry: &LedgerEntry) -> (r: Vec<String>)
    ensures
        forall|id: Seq<char>| #[trigger] r.deep_view().contains(id) <==> mentions(entry@, id),
{
    let mut out: Vec<String> = Vec::new();
    let k = entry.kind.as_str();
    if text::same_text(k, kind::ENTITY_CREATED) || text::same_text(k, kind::ENTITY_UPDATED) || text::same_text(
        k,
        kind::ENTITY_ATTRIBUTE_CHANGED,
    ) {
        if let Some(id) = entry.payload.str_field("entity_id") {
            out.push(id.to_string());
            assert(out.deep_view() =~= seq![id@]);
            assert(out.deep_view()[0] == id@);
        }
        return out;
    }
    if text::same_text(k, kind::ENTITY_QUERIED) {
        if let Some(list) = entry.payload.get("entity_ids") {
            if let crate::json::Json::Array(items) = list {
                let ghost all = list@->Array_0;
                let mut i: usize = 0;
                while i < items.len()
                    invariant
                        0 <= i <= items@.len(),
                        *list == crate::json::Json::Array(*items),
                        all == list@->Array_0,
                        all.len() == items@.len(),
                        forall|id: Seq<char>| #[trigger]
                            out.deep_view().contains(id) <==> exists|n: int|
                                0 <= n < i && json::text_of(#[trigger] all[n]) == Some(id),
                    decreases items@.len() - i,
                {
                    assert(all[i as int] == items@[i as int]@);
                    let ghost earlier = out.deep_view();
                    if let Some(id) = items[i].as_str() {
                        let ghost before = out;
                        let own = id.to_string();
                        let ghost value = own;
                        out.push(own);
                        proof {
                            rows::lemma_deep_push(before, out, value);
                            assert forall|x: Seq<char>| #[trigger] out.deep_view().contains(x) <==> exists|n: int|
                                0 <= n < i + 1 && json::text_of(#[trigger] all[n]) == Some(x) by {
                                rows::lemma_push_contains(earlier, id@, x);
                                if earlier.contains(x) {
                                    let n = choose|n: int|
                                        0 <= n < i && json::text_of(#[trigger] all[n]) == Some(x);
                                    assert(json::text_of(all[n]) == Some(x));
                                }
                                if x == id@ {
                                    assert(json::text_of(all[i as int]) == Some(x));
                                }
                            }
                        }
                    } else {
                        proof {
                            assert forall|x: Seq<char>| #[trigger] out.deep_view().contains(x) <==> exists|n: int|
                                0 <= n < i + 1 && json::text_of(#[trigger] all[n]) == Some(x) by {
                                if earlier.contains(x) {
                                    let n = choose|n: int|
                                        0 <= n < i && json::text_of(#[trigger] all[n]) == Some(x);
                                    assert(json::text_of(all[n]) == Some(x));
                                }
                            }
                        }
                    }
                    i += 1;
                }
                return out;
            }
        }
    }
    out
}

/// The entities that the entries are about that the end of a conversation tells of.
pub fn touched_entity_ids(store: &Store, history: &Vec<HistoryTurn>, from: usize) -> (r: Vec<String>)
    requires
        from <= history@.len(),
    ensures
        r.deep_view().to_set() == touched_set(store@.entries, history.deep_view().skip(from as int)),
{
    let ghost all = store@.entries;
    let ghost tail = history.deep_view().skip(from as int);
    let mut out: Vec<String> = Vec::new();
    let mut i: usize = 0;
    while i < store.entries.len()
        invariant
            0 <= i <= store.entries@.len(),
            from <= history@.len(),
            all == store@.entries,
            tail == history.deep_view().skip(from as int),
            forall|id: Seq<char>| #[trigger]
                out.deep_view().contains(id) <==> exists|n: int|
                    0 <= n < i && told_of(tail, #[trigger] all[n]) && mentions(all[n], id),
        decreases store.entries@.len() - i,
    {
        let entry = &store.entries[i];
        assert(all[i as int] == entry@);
        let ghost earlier = out.deep_view();
        let told = is_told_of(history, from, entry);
        if told {
            let mut found = mentioned(entry);
            let ghost added = found.deep_view();
            let ghost before = out;
            let ghost extra = found;
            out.append(&mut found);
            proof {
                assert(out@ == before@ + extra@);
                assert(out.deep_view() =~= earlier + added);
            }
            proof {
                assert forall|x: Seq<char>| #[trigger] out.deep_view().contains(x) <==> exists|n: int|
                    0 <= n < i + 1 && told_of(tail, #[trigger] all[n]) && mentions(all[n], x) by {
                    lemma_contains_sum(earlier, added, x);
                    if earlier.contains(x) {
                        let n = choose|n: int|
                            0 <= n < i && told_of(tail, #[trigger] all[n]) && mentions(all[n], x);
                        assert(told_of(tail, all[n]));
                    }
                    if added.contains(x) {
                        assert(told_of(tail, all[i as int]));
                    }
                }
            }
        } else {
            proof {
                assert forall|x: Seq<char>| #[trigger] out.deep_view().contains(x) <==> exists|n: int|
                    0 <= n < i + 1 && told_of(tail, #[trigger] all[n]) && mentions(all[n], x) by {
                    if earlier.contains(x) {
                        let n = choose|n: int|
                            0 <= n < i && told_of(tail, #[trigger] all[n]) && mentions(all[n], x);
                        assert(told_of(tail, all[n]));
                    }
                }
            }
        }
        i += 1;
    }
    assert(out.deep_view().to_set() =~= touched_set(all, tail));
    out
}

proof fn lemma_contains_sum<A>(a: Seq<A>, b: Seq<A>, x: A)
    ensures
        (a + b).contains(x) <==> a.contains(x) || b.contains(x),
{
    if a.contains(x) {
        let i = choose|i: int| 0 <= i < a.len() && a[i] == x;
        assert((a + b)[i] == x);
    }
    if b.contains(x) {
        let i = choose|i: int| 0 <= i < b.len() && b[i] == x;
        assert((a + b)[i + a.len()] == x);
    }
    if (a + b).contains(x) {
        let i = choose|i: int| 0 <= i < (a + b).len() && (a + b)[i] == x;
        if i < a.len() {
            assert(a[i] == x);
        } else {
            assert(b[i - a.len()] == x);
        }
    }
}

/// What the narrator is told of its tools: their names, then what there is to say of them;
/// nothing where it has none.
pub open spec fn tools_block(names: Seq<Seq<char>>, instructions: Seq<Seq<char>>) -> Seq<char> {
    if names.len() == 0 {
        Seq::empty()
    } else {
        "<additional_instructions>\n"@ + text::joined(
            seq!["Available narrator tools for this turn: "@ + text::joined(names, ", "@) + "."@]
                + instructions,
            "\n"@,
        ) + "\n</additional_instructions>"@
    }
}

/// What the narrator is told of its tools.
pub fn format_tools(names: &Vec<String>, instructions: &Vec<String>) -> (r: String)
    ensures
        r@ == tools_block(names.deep_view(), instructions.deep_view()),
{
    if names.len() == 0 {
        return String::new();
    }
    let list = text::join(names, ", ");
    let mut lines: Vec<String> = Vec::new();
    lines.push(text::concat3("Available narrator tools for this turn: ", list.as_str(), "."));
    let mut i: usize = 0;
    while i < instructions.len()
        invariant
            0 <= i <= instructions@.len(),
            lines@.len() == i + 1,
            lines@[0]@ == "Available narrator tools for this turn: "@ + text::joined(
                names.deep_view(),
                ", "@,
            ) + "."@,
            forall|k: int| 1 <= k <= i ==> (#[trigger] lines@[k])@ == instructions@[k - 1]@,
        decreases instructions@.len() - i,
    {
        lines.push(instructions[i].clone());
        i += 1;
    }
    assert(lines.deep_view() =~= seq![lines@[0]@] + instructions.deep_view());
    let body = text::join(&lines, "\n");
    text::concat3("<additional_instructions>\n", body.as_str(), "\n</additional_instructions>")
}

/// The names of tools.
pub open spec fn tool_names(specs: Seq<ToolSpec>) -> Seq<Seq<char>> {
    specs.map_values(|s: ToolSpec| s.name@)
}

/// What there is to say of tools.
pub open spec fn tool_instructions(specs: Seq<ToolSpec>) -> Seq<Seq<char>>
    decreases specs.len(),
{
    if specs.len() == 0 {
        Seq::empty()
    } else {
        let before = tool_instructions(specs.drop_last());
        match specs.last().instruction {
            Some(instruction) => before.push(instruction@),
            None => before,
        }
    }
}

/// What the narrator is told of the tools of a turn.
pub fn tool_context(specs: &Vec<ToolSpec>) -> (r: String)
    ensures
        r@ == tools_block(tool_names(specs@), tool_instructions(specs@)),
{
    let mut names: Vec<String> = Vec::new();
    let mut instructions: Vec<String> = Vec::new();
    let mut i: usize = 0;
    assert(instructions.deep_view() =~= tool_instructions(specs@.take(0)));
    while i < specs.len()
        invariant
            0 <= i <= specs@.len(),
            names@.len() == i,
            forall|k: int| 0 <= k < i ==> (#[trigger] names@[k])@ == specs@[k].name@,
            instructions.deep_view() == tool_instructions(specs@.take(i as int)),
        decreases specs@.len() - i,
    {
        proof {
            assert(specs@.take(i + 1).drop_last() =~= specs@.take(i as int));
            assert(specs@.take(i + 1).last() == specs@[i as int]);
        }
        names.push(specs[i].name.to_string());
        if let Some(instruction) = specs[i].instruction {
            let ghost before = instructions;
            let own = instruction.to_string();
            let ghost value = own;
            instructions.push(own);
            proof {
                rows::lemma_deep_push(before, instructions, value);
            }
        }
        i += 1;
    }
    proof {
        rows::lemma_take_all(specs@);
        assert(names.deep_view() =~= tool_names(specs@));
    }
    format_tools(&names, &instructions)
}

/// The condition of saying something.
pub open spec fn filled() -> spec_fn(Seq<char>) -> bool {
    |part: Seq<char>| part.len() > 0
}

/// The parts that say something, an empty line between each two.
pub open spec fn combined(parts: Seq<Seq<char>>) -> Seq<char> {
    text::joined(parts.filter(filled()), "\n\n"@)
}

/// The parts that say something, an empty line between each two.
pub fn combine_context_blocks(parts: &Vec<String>) -> (r: String)
    ensures
        r@ == combined(parts.deep_view()),
{
    let ghost all = parts.deep_view();
    let ghost p = filled();
    let mut kept: Vec<String> = Vec::new();
    let mut i: usize = 0;
    assert(kept.deep_view() =~= all.take(0).filter(p)) by {
        reveal(Seq::filter);
    }
    while i < parts.len()
        invariant
            0 <= i <= parts@.len(),
            all == parts.deep_view(),
            p == filled(),
            kept.deep_view() == all.take(i as int).filter(p),
        decreases parts@.len() - i,
    {
        proof {
            assert(all[i as int] == parts@[i as int]@);
            rows::lemma_filter_step(all, p, i as int);
            reveal_strlit("");
            assert(parts@[i as int]@.len() == 0 ==> parts@[i as int]@ =~= ""@);
        }
        if !text::same_text(parts[i].as_str(), "") {
            let copy = parts[i].clone();
            let ghost before = kept;
            let ghost value = copy;
            kept.push(copy);
            proof {
                rows::lemma_deep_push(before, kept, value);
            }
        }
        i += 1;
    }
    proof {
        rows::lemma_take_all(all);
    }
    text::join(&kept, "\n\n")
}

/// What stands before the action of a turn, and what it would be with every entity in full.
#[derive(Debug, PartialEq)]
pub struct ContextPlan {
    pub live: String,
    pub full: String,
}

/// What a `ContextPlan` stands for.
#[verifier::ext_equal]
pub struct ContextPlanView {
    pub live: Seq<char>,
    pub full: Seq<char>,
}

impl View for ContextPlan {
    type V = ContextPlanView;

    open spec fn view(&self) -> ContextPlanView {
        ContextPlanView { live: self.live@, full: self.full@ }
    }
}

/// The entities in full, unless none is told of.
pub open spec fn entities_full_of(store: StoreView, story_id: Seq<char>, mode: Seq<char>) -> Seq<char> {
    if mode == MODE_NONE@ {
        Seq::empty()
    } else {
        entity_context(store, story_id, None)
    }
}

/// The entities as a mode tells of them: none, all in full, or in full only those that the
/// part of the conversation is about that is sent as it was.
pub open spec fn entities_live_of(
    store: StoreView,
    story_id: Seq<char>,
    mode: Seq<char>,
    history: Seq<HistoryTurnView>,
    split: int,
) -> Seq<char> {
    if mode == MODE_NONE@ {
        Seq::empty()
    } else if mode == MODE_ALL@ {
        entity_context(store, story_id, None)
    } else {
        entity_context(store, story_id, Some(touched_set(store.entries, history.skip(split))))
    }
}

/// What the narrator is told beside the conversation: the entities, the note, the tools, in
/// this order.
pub open spec fn planned(
    store: StoreView,
    story_id: Seq<char>,
    note: Seq<char>,
    history: Seq<HistoryTurnView>,
    limits: Limits,
    preamble: Seq<char>,
    mode: Seq<char>,
    tools: Seq<char>,
) -> ContextPlanView {
    let full = combined(seq![entities_full_of(store, story_id, mode), note, tools]);
    let split = budget::tail_start(history, limits, preamble, full);
    ContextPlanView {
        full,
        live: combined(seq![entities_live_of(store, story_id, mode, history, split), note, tools]),
    }
}

/// What the narrator is told beside the conversation, with its tools already put in words.
pub fn assemble(
    store: &Store,
    story_id: &str,
    history: &Vec<HistoryTurn>,
    limits: Limits,
    preamble: &str,
    mode: &str,
    tools: &str,
) -> (r: AppResult<ContextPlan>)
    ensures
        match stories::settings_of(store@, story_id@) {
            Some(settings) => r is Ok && r->Ok_0@ == planned(
                store@,
                story_id@,
                author_note::note_block(settings),
                history.deep_view(),
                limits,
                preamble@,
                mode@,
                tools@,
            ),
            None => r is Err && r->Err_0@ == stories::no_story(story_id@),
        },
{
    let entities_full = if text::same_text(mode, MODE_NONE) {
        String::new()
    } else {
        format_entity_context(store, story_id, None)
    };
    let note = match author_note::context_block(store, story_id) {
        Ok(note) => note,
        Err(e) => {
            return Err(e);
        },
    };
    let full_parts: Vec<String> = vec![entities_full.clone(), note.clone(), tools.to_string()];
    assert(full_parts.deep_view() =~= seq![entities_full@, note@, tools@]);
    let full = combine_context_blocks(&full_parts);
    let entities_live = if text::same_text(mode, MODE_NONE) {
        String::new()
    } else if text::same_text(mode, MODE_ALL) {
        entities_full
    } else {
        let split = budget::raw_tail_boundary(history, limits, preamble, full.as_str());
        let touched = touched_entity_ids(store, history, split);
        format_entity_context(store, story_id, Some(&touched))
    };
    let live_parts: Vec<String> = vec![entities_live, note, tools.to_string()];
    assert(live_parts.deep_view() =~= seq![live_parts@[0]@, live_parts@[1]@, tools@]);
    let live = combine_context_blocks(&live_parts);
    Ok(ContextPlan { live, full })
}

/// What the narrator is told beside the conversation.
pub fn build_message_context(
    store: &Store,
    story_id: &str,
    history: &Vec<HistoryTurn>,
    limits: Limits,
    preamble: &str,
    mode: &str,
    tool_specs: &Vec<ToolSpec>,
) -> (r: AppResult<ContextPlan>)
    ensures
        match stories::settings_of(store@, story_id@) {
            Some(settings) => r is Ok && r->Ok_0@ == planned(
                store@,
                story_id@,
                author_note::note_block(settings),
                history.deep_view(),
                limits,
                preamble@,
                mode@,
                tools_block(tool_names(tool_specs@), tool_instructions(tool_specs@)),
            ),
            None => r is Err && r->Err_0@ == stories::no_story(story_id@),
        },
{
    let tools = tool_context(tool_specs);
    assemble(store, story_id, history, limits, preamble, mode, tools.as_str())
}

} // verus!
