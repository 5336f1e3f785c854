//! The attributes that entities can have: looking them up by name, giving them aliases,
//! and minting new ones.

use vstd::prelude::*;

use super::model::{AttributeRegistryEntry, RegistryView};
use crate::error::{AppError, AppResult, ErrorView};
use crate::json::{Json, JsonView};
use crate::sorting::Keyed;
use crate::store::{Store, StoreView};
use crate::{double, json, rows, sorting, stamp, text};

verus! {

/// The bits of 0.85, the similarity from which two names count as the same attribute.
pub const SIMILARITY_THRESHOLD_BITS: u64 = 0x3feb_3333_3333_3333;

/// The message where the kinds that an attribute is meant for are no JSON.
pub const MALFORMED: &'static str = "malformed JSON";

impl Keyed for AttributeRegistryEntry {
    open spec fn key_of(row: RegistryView) -> Seq<char> {
        row.canonical_name
    }

    fn key(&self) -> (r: &str) {
        self.canonical_name.as_str()
    }
}

/// The aliases of an attribute; none where they cannot be read.
pub open spec fn aliases_of(aliases_json: Seq<char>) -> Seq<Seq<char>> {
    match json::parsed_list(aliases_json) {
        Some(aliases) => aliases,
        None => Seq::empty(),
    }
}

/// Whether a list holds a name, whatever the case of its ASCII letters.
pub open spec fn holds_name(names: Seq<Seq<char>>, name: Seq<char>) -> bool {
    exists|i: int| 0 <= i < names.len() && text::same_ignoring_case(#[trigger] names[i], name)
}

/// The condition of being known by a name, as the name or as an alias.
pub open spec fn known_as(name: Seq<char>) -> spec_fn(RegistryView) -> bool {
    |a: RegistryView|
        text::same_ignoring_case(a.canonical_name, name) || holds_name(aliases_of(a.aliases_json), name)
}

/// The condition of having an identifier.
pub open spec fn attribute_id_is(id: Seq<char>) -> spec_fn(RegistryView) -> bool {
    |a: RegistryView| a.id == id
}

/// The first attribute that is known by a name.
pub open spec fn exact_match(registry: Seq<RegistryView>, name: Seq<char>) -> Option<RegistryView> {
    rows::first_where(registry, known_as(text::trimmed(name)))
}

/// All attributes, in the order of their names.
pub fn list_attribute_registry_sync(store: &Store) -> (r: Vec<AttributeRegistryEntry>)
    ensures
        r.deep_view() == sorting::ordered(
            store@.registry,
            sorting::key_fn::<AttributeRegistryEntry>(),
        ),
{
    sorting::sort_rows(rows::copy_rows(&store.registry))
}

fn read_aliases(aliases_json: &str) -> (r: Vec<String>)
    ensures
        r.deep_view() == aliases_of(aliases_json@),
{
    match json::parse_list(aliases_json) {
        Some(aliases) => aliases,
        None => {
            let none: Vec<String> = Vec::new();
            assert(none.deep_view() =~= Seq::empty());
            none
        },
    }
}

pub fn has_name(names: &Vec<String>, name: &str) -> (r: bool)
    ensures
        r == holds_name(names.deep_view(), name@),
{
    let ghost all = names.deep_view();
    let mut i: usize = 0;
    while i < names.len()
        invariant
            0 <= i <= names@.len(),
            all == names.deep_view(),
            forall|k: int| 0 <= k < i ==> !text::same_ignoring_case(#[trigger] all[k], name@),
        decreases names@.len() - i,
    {
        assert(all[i as int] == names@[i as int]@);
        if text::eq_ignore_ascii_case(names[i].as_str(), name) {
            return true;
        }
        i += 1;
    }
    false
}

/// The first attribute that is known by a name, as its name or as an alias, whatever the
/// case of the ASCII letters and the whitespace around the name.
pub fn find_exact_match(store: &Store, proposed_name: &str) -> (r: Option<AttributeRegistryEntry>)
    ensures
        r.deep_view() == exact_match(store@.registry, proposed_name@),
{
    let needle = text::trim(proposed_name);
    let ghost p = known_as(needle@);
    let meant = |row: &AttributeRegistryEntry| -> (b: bool)
        ensures
            b == p(row.deep_view()),
    {
        text::eq_ignore_ascii_case(row.canonical_name.as_str(), needle.as_str()) || has_name(
            &read_aliases(row.aliases_json.as_str()),
            needle.as_str(),
        )
    };
    match rows::position(&store.registry, meant, Ghost(p)) {
        Some(i) => Some(store.registry[i].copy()),
        None => None,
    }
}

/// Whether a value is a text, or holds it as an item of a list or as a field of an object.
pub open spec fn lists_text(v: JsonView, wanted: Seq<char>) -> bool {
    match v {
        JsonView::Str(s) => s == wanted,
        JsonView::Array(items) => items.contains(JsonView::Str(wanted)),
        JsonView::Object(fields) => exists|i: int|
            0 <= i < fields.len() && (#[trigger] fields[i]).1 == JsonView::Str(wanted),
        _ => false,
    }
}

/// Whether a value is a text, or holds it as an item of a list or as a field of an object.
fn is_listing(v: &Json, wanted: &str) -> (r: bool)
    ensures
        r == lists_text(v@, wanted@),
{
    match v {
        Json::Str(s) => text::same_text(s.as_str(), wanted),
        Json::Array(items) => {
            let ghost all = v@->Array_0;
            let mut i: usize = 0;
            while i < items.len()
                invariant
                    0 <= i <= items@.len(),
                    *v == Json::Array(*items),
                    all == v@->Array_0,
                    all.len() == items@.len(),
                    forall|k: int| 0 <= k < i ==> (#[trigger] all[k]) != JsonView::Str(wanted@),
                decreases items@.len() - i,
            {
                assert(all[i as int] == items@[i as int]@);
                if let Json::Str(s) = &items[i] {
                    if text::same_text(s.as_str(), wanted) {
                        assert(all[i as int] == JsonView::Str(wanted@));
                        return true;
                    }
                }
                i += 1;
            }
            false
        },
        Json::Object(fields) => {
            let ghost all = v@->Object_0;
            let mut i: usize = 0;
            while i < fields.len()
                invariant
                    0 <= i <= fields@.len(),
                    *v == Json::Object(*fields),
                    all == v@->Object_0,
                    all.len() == fields@.len(),
                    forall|k: int| 0 <= k < i ==> (#[trigger] all[k]).1 != JsonView::Str(wanted@),
                decreases fields@.len() - i,
            {
                assert(all[i as int].1 == fields@[i as int].1@);
                if let Json::Str(s) = &fields[i].1 {
                    if text::same_text(s.as_str(), wanted) {
                        return true;
                    }
                }
                i += 1;
            }
            false
        },
        _ => false,
    }
}

/// The condition of being meant for a kind of entity.
pub open spec fn meant_for(entity_kind: Seq<char>) -> spec_fn(RegistryView) -> bool {
    |a: RegistryView|
        match json::parsed(a.entity_kinds_json) {
            Some(kinds) => lists_text(kinds, entity_kind),
            None => false,
        }
}

/// The condition that the kinds of entity that an attribute is meant for cannot be read.
pub open spec fn kinds_unreadable() -> spec_fn(RegistryView) -> bool {
    |a: RegistryView| json::parsed(a.entity_kinds_json) is None
}

/// The attributes that are meant for a kind of entity, unless it cannot be read of one of them which
/// kinds it is meant for.
pub open spec fn candidates_for(registry: Seq<RegistryView>, entity_kind: Seq<char>) -> Result<
    Seq<RegistryView>,
    ErrorView,
> {
    if rows::any_where(registry, kinds_unreadable()) {
        Err(ErrorView::Db(MALFORMED@))
    } else {
        Ok(registry.filter(meant_for(entity_kind)))
    }
}

/// The attributes that are meant for a kind of entity.
pub fn load_registry_for_kind(store: &Store, entity_kind: &str) -> (r: AppResult<Vec<AttributeRegistryEntry>>)
    ensures
        match candidates_for(store@.registry, entity_kind@) {
            Ok(found) => r is Ok && r->Ok_0.deep_view() == found,
            Err(e) => r is Err && r->Err_0@ == e,
        },
{
    let ghost all = store@.registry;
    let ghost p = meant_for(entity_kind@);
    let mut out: Vec<AttributeRegistryEntry> = Vec::new();
    let mut i: usize = 0;
    proof {
        assert(all.take(0).filter(p) =~= Seq::empty()) by {
            reveal(Seq::filter);
        }
    }
    while i < store.registry.len()
        invariant
            0 <= i <= store.registry@.len(),
            all == store@.registry,
            p == meant_for(entity_kind@),
            out.deep_view() == all.take(i as int).filter(p),
            forall|k: int| 0 <= k < i ==> !kinds_unreadable()(#[trigger] all[k]),
        decreases store.registry@.len() - i,
    {
        let entry = &store.registry[i];
        proof {
            assert(all[i as int] == entry@);
            rows::lemma_filter_step(all, p, i as int);
        }
        let kinds = match json::parse(entry.entity_kinds_json.as_str()) {
            Some(kinds) => kinds,
            None => {
                assert(kinds_unreadable()(all[i as int]));
                return Err(AppError::Db(MALFORMED.to_string()));
            },
        };
        if is_listing(&kinds, entity_kind) {
            let copy = entry.copy();
            let ghost before = out;
            let ghost value = copy;
            out.push(copy);
            proof {
                rows::lemma_deep_push(before, out, value);
            }
        }
        i += 1;
    }
    proof {
        rows::lemma_take_all(all);
    }
    Ok(out)
}

/// Where the attribute with an identifier stands.
pub fn attribute_position(registry: &Vec<AttributeRegistryEntry>, id: &str) -> (r: Option<usize>)
    ensures
        match r {
            Some(i) => {
                &&& i < registry@.len()
                &&& registry@[i as int]@.id == id@
                &&& rows::first_where(registry.deep_view(), attribute_id_is(id@)) == Some(
                    registry@[i as int]@,
                )
                &&& forall|k: int| 0 <= k < i ==> (#[trigger] registry.deep_view()[k]).id != id@
            },
            None => {
                &&& rows::first_where(registry.deep_view(), attribute_id_is(id@)) is None
                &&& forall|k: int|
                    0 <= k < registry@.len() ==> (#[trigger] registry.deep_view()[k]).id != id@
            },
        },
{
    let ghost p = attribute_id_is(id@);
    let meant = |row: &AttributeRegistryEntry| -> (b: bool)
        ensures
            b == p(row.deep_view()),
    {
        text::same_text(row.id.as_str(), id)
    };
    rows::position(registry, meant, Ghost(p))
}

/// The attribute that has an identifier.
pub fn find_attribute_by_id(store: &Store, attribute_id: &str) -> (r: AppResult<AttributeRegistryEntry>)
    ensures
        match rows::first_where(store@.registry, attribute_id_is(attribute_id@)) {
            Some(entry) => r is Ok && r->Ok_0@ == entry,
            None => r is Err && r->Err_0@ == ErrorView::Db("Query returned no rows"@),
        },
{
    match attribute_position(&store.registry, attribute_id) {
        Some(i) => Ok(store.registry[i].copy()),
        None => Err(AppError::Db("Query returned no rows".to_string())),
    }
}

/// An attribute with one more alias, unless it has it, whatever the case of its ASCII letters.
pub open spec fn aliased(entry: RegistryView, alias: Seq<char>) -> RegistryView {
    if holds_name(aliases_of(entry.aliases_json), alias) {
        entry
    } else {
        RegistryView {
            aliases_json: json::printed_list(aliases_of(entry.aliases_json).push(alias)),
            ..entry
        }
    }
}

/// Gives an attribute one more alias, unless it has it, whatever the case of its ASCII
/// letters. The attribute is then known by the alias, and giving it once more changes
/// nothing.
pub fn add_alias(store: &mut Store, attribute_id: &str, alias: &str) -> (r: AppResult<()>)
    ensures
        match rows::first_where(old(store)@.registry, attribute_id_is(attribute_id@)) {
            Some(entry) => r is Ok && final(store)@ == (StoreView {
                registry: rows::upserted(
                    old(store)@.registry,
                    attribute_id_is(attribute_id@),
                    aliased(entry, alias@),
                ),
                ..old(store)@
            }) && known_as(alias@)(aliased(entry, alias@)) && aliased(aliased(entry, alias@), alias@)
                == aliased(entry, alias@),
            None => r is Err && r->Err_0@ == ErrorView::Db("Query returned no rows"@) && final(store)@
                == old(store)@,
        },
{
    let i: usize = match attribute_position(&store.registry, attribute_id) {
        Some(i) => i,
        None => {
            return Err(AppError::Db("Query returned no rows".to_string()));
        },
    };
    let ghost all = store@.registry;
    let ghost p = attribute_id_is(attribute_id@);
    let ghost before = store.registry;
    let mut entry = store.registry[i].copy();
    let ghost found = entry@;
    let mut aliases = read_aliases(entry.aliases_json.as_str());
    proof {
        assert(all[i as int] == found);
        assert forall|k: int| 0 <= k < i implies !p(#[trigger] all[k]) by {}
        rows::lemma_upserted_hit(all, p, aliased(found, alias@), i as int);
    }
    if !has_name(&aliases, alias) {
        let ghost known = aliases;
        let added = alias.to_string();
        let ghost value = added;
        aliases.push(added);
        proof {
            rows::lemma_deep_push(known, aliases, value);
        }
        entry.aliases_json = json::print_list(&aliases);
        let ghost row = entry;
        store.registry.set(i, entry);
        proof {
            rows::lemma_deep_update(before, store.registry, i as int, row);
            let names = aliases_of(row@.aliases_json);
            assert(names == known.deep_view().push(alias@));
            assert(text::same_ignoring_case(names[known.deep_view().len() as int], alias@));
            assert(holds_name(names, alias@));
        }
    } else {
        proof {
            assert(all.update(i as int, found) =~= all);
        }
    }
    Ok(())
}

/// A new attribute for a kind of entity, on the scale from zero to ten.
pub open spec fn minted(id: Seq<char>, now: Seq<char>, proposed_name: Seq<char>, entity_kind: Seq<char>, story_id: Seq<char>) -> RegistryView {
    RegistryView {
        id,
        canonical_name: text::trimmed(proposed_name),
        aliases_json: "[]"@,
        entity_kinds_json: json::printed(JsonView::Array(seq![JsonView::Str(entity_kind)])),
        min: double::zero_view(),
        max: double::ten_view(),
        category: "user"@,
        is_user_created: true,
        created_in_story_id: Some(story_id),
        created_at: now,
    }
}

/// A new attribute with a given identifier and time.
pub fn build_minted_attribute_at(id: &str, now: &str, proposed_name: &str, entity_kind: &str, story_id: &str) -> (r: AttributeRegistryEntry)
    ensures
        r@ == minted(id@, now@, proposed_name@, entity_kind@, story_id@),
        meant_for(entity_kind@)(r@),
{
    let kinds = Json::Array(vec![json::of_text(entity_kind)]);
    assert(kinds@->Array_0 =~= seq![JsonView::Str(entity_kind@)]);
    assert(kinds@->Array_0[0] == JsonView::Str(entity_kind@));
    assert(json::storable(kinds@, json::DEPTH_LIMIT as nat)) by {
        reveal_with_fuel(json::storable, 3);
    }
    AttributeRegistryEntry {
        id: id.to_string(),
        canonical_name: text::trim(proposed_name),
        aliases_json: "[]".to_string(),
        entity_kinds_json: json::print(&kinds),
        min: double::zero(),
        max: double::ten(),
        category: "user".to_string(),
        is_user_created: true,
        created_in_story_id: Some(story_id.to_string()),
        created_at: now.to_string(),
    }
}

/// A new attribute with a new identifier, of the present time.
pub fn build_minted_attribute(proposed_name: &str, entity_kind: &str, story_id: &str) -> (r: AttributeRegistryEntry)
    ensures
        stamp::fresh_like(r@.id),
        r@ == minted(r@.id, r@.created_at, proposed_name@, entity_kind@, story_id@),
        meant_for(entity_kind@)(r@),
{
    let id = stamp::fresh_id();
    let now = stamp::now();
    build_minted_attribute_at(id.as_str(), now.as_str(), proposed_name, entity_kind, story_id)
}

/// Whether an attribute cannot stand beside those that there are: one of them has its
/// identifier or its very name.
pub open spec fn clashes(registry: Seq<RegistryView>, entry: RegistryView) -> bool {
    rows::any_where(registry, same_identity(entry))
}

/// The condition of having the identifier or the very name of an attribute.
pub open spec fn same_identity(entry: RegistryView) -> spec_fn(RegistryView) -> bool {
    |a: RegistryView| a.id == entry.id || a.canonical_name == entry.canonical_name
}

/// The attributes after a new one was offered: it is added where none is known by its name
/// and none clashes with it.
pub open spec fn offered(registry: Seq<RegistryView>, entry: RegistryView) -> Seq<RegistryView> {
    if exact_match(registry, entry.canonical_name) is Some || clashes(registry, entry) {
        registry
    } else {
        registry.push(entry)
    }
}

/// Whether an attribute cannot stand beside those that there are.
pub fn has_clash(registry: &Vec<AttributeRegistryEntry>, entry: &AttributeRegistryEntry) -> (r: bool)
    ensures
        r == clashes(registry.deep_view(), entry@),
{
    let ghost all = registry.deep_view();
    let ghost p = same_identity(entry@);
    let mut i: usize = 0;
    while i < registry.len()
        invariant
            0 <= i <= registry@.len(),
            all == registry.deep_view(),
            p == same_identity(entry@),
            forall|k: int| 0 <= k < i ==> !p(#[trigger] all[k]),
        decreases registry@.len() - i,
    {
        assert(all[i as int] == registry@[i as int]@);
        if registry[i].id == entry.id || registry[i].canonical_name == entry.canonical_name {
            assert(p(all[i as int]));
            return true;
        }
        i += 1;
    }
    false
}

/// Adds a minted attribute and gives the identifier of the attribute that its name stands
/// for: another one where another is known by that name.
pub fn insert_minted_attribute(store: &mut Store, entry: &AttributeRegistryEntry) -> (r: AppResult<String>)
    ensures
        final(store)@ == (StoreView {
            registry: offered(old(store)@.registry, entry@),
            ..old(store)@
        }),
        match exact_match(offered(old(store)@.registry, entry@), entry@.canonical_name) {
            Some(known) => r is Ok && r->Ok_0@ == known.id,
            None => r is Err && r->Err_0@ == ErrorView::Other(
                "minted attribute was not found after insert: "@ + entry@.canonical_name,
            ),
        },
{
    if let Some(known) = find_exact_match(store, entry.canonical_name.as_str()) {
        return Ok(known.id);
    }
    if !has_clash(&store.registry, entry) {
        let row = entry.copy();
        let ghost before = store.registry;
        let ghost value = row;
        store.registry.push(row);
        proof {
            rows::lemma_deep_push(before, store.registry, value);
        }
    }
    match find_exact_match(store, entry.canonical_name.as_str()) {
        Some(known) => Ok(known.id),
        None => Err(
            AppError::Other(
                text::concat2(
                    "minted attribute was not found after insert: ",
                    entry.canonical_name.as_str(),
                ),
            ),
        ),
    }
}

/// How a proposed attribute is to be taken.
#[derive(Debug, PartialEq)]
pub enum AttributeResolution {
    Existing(AttributeRegistryEntry),
    AddAlias { attribute: AttributeRegistryEntry, alias: String },
    Mint(AttributeRegistryEntry),
}

/// How far a proposed attribute can be taken without comparing meanings.
#[derive(Debug, PartialEq)]
pub enum ResolutionStep {
    Done(AttributeResolution),
    Compare { proposed_name: String, candidates: Vec<AttributeRegistryEntry> },
}

/// How far a proposed attribute is told by its name.
pub open spec fn named_step(
    registry: Seq<RegistryView>,
    proposed_name: Seq<char>,
    entity_kind: Seq<char>,
    story_id: Seq<char>,
    r: AppResult<ResolutionStep>,
) -> bool {
    let name = text::trimmed(proposed_name);
    let known = exact_match(registry, name);
    let candidates = candidates_for(registry, entity_kind);
    if name.len() == 0 {
        r is Err && r->Err_0@ == ErrorView::Invalid("attribute name must not be empty"@)
    } else if known is Some {
        r matches Ok(ResolutionStep::Done(AttributeResolution::Existing(entry))) && entry@ == known->0
    } else if candidates is Err {
        r is Err && r->Err_0@ == candidates->Err_0
    } else if candidates->Ok_0.len() == 0 {
        r matches Ok(ResolutionStep::Done(AttributeResolution::Mint(entry))) && entry@ == minted(
            entry@.id,
            entry@.created_at,
            name,
            entity_kind,
            story_id,
        )
    } else {
        r matches Ok(ResolutionStep::Compare { proposed_name: compared, candidates: found })
            && compared@ == name && found.deep_view() == candidates->Ok_0
    }
}

/// Takes a proposed attribute as far as its name goes: an attribute that is known by the
/// name, a new one where none is meant for the kind of entity, and otherwise the
/// candidates whose meanings are to be compared with it.
pub fn resolve_by_name(store: &Store, proposed_name: &str, entity_kind: &str, story_id: &str) -> (r: AppResult<ResolutionStep>)
    ensures
        named_step(store@.registry, proposed_name@, entity_kind@, story_id@, r),
{
    let name = text::trim(proposed_name);
    if name.as_str().is_empty() {
        return Err(AppError::Invalid("attribute name must not be empty".to_string()));
    }
    if let Some(entry) = find_exact_match(store, name.as_str()) {
        return Ok(ResolutionStep::Done(AttributeResolution::Existing(entry)));
    }
    let candidates = match load_registry_for_kind(store, entity_kind) {
        Ok(candidates) => candidates,
        Err(e) => {
            return Err(e);
        },
    };
    if candidates.len() == 0 {
        assert(candidates.deep_view().len() == 0);
        return Ok(
            ResolutionStep::Done(
                AttributeResolution::Mint(build_minted_attribute(name.as_str(), entity_kind, story_id)),
            ),
        );
    }
    assert(candidates.deep_view().len() != 0);
    Ok(ResolutionStep::Compare { proposed_name: name, candidates })
}

/// The texts whose meanings are compared: the proposed name, then those of the candidates.
pub fn compared_texts(proposed_name: &str, candidates: &Vec<AttributeRegistryEntry>) -> (r: Vec<String>)
    ensures
        r.deep_view() == seq![proposed_name@] + candidates.deep_view().map_values(
            |c: RegistryView| c.canonical_name,
        ),
{
    let mut out: Vec<String> = Vec::new();
    out.push(proposed_name.to_string());
    let mut i: usize = 0;
    while i < candidates.len()
        invariant
            0 <= i <= candidates@.len(),
            out@.len() == i + 1,
            out@[0]@ == proposed_name@,
            forall|k: int| 0 <= k < i ==> (#[trigger] out@[k + 1])@ == candidates@[k]@.canonical_name,
        decreases candidates@.len() - i,
    {
        out.push(candidates[i].canonical_name.clone());
        i += 1;
    }
    proof {
        let target = seq![proposed_name@] + candidates.deep_view().map_values(
            |c: RegistryView| c.canonical_name,
        );
        assert forall|k: int| 0 <= k < out@.len() implies out.deep_view()[k] == target[k] by {
            if k > 0 {
                assert(out@[(k - 1) + 1]@ == candidates@[k - 1]@.canonical_name);
            }
        }
        assert(out.deep_view() =~= target);
    }
    out
}

/// The first of the largest similarities: where it stands, among the first `n`.
pub open spec fn best_similarity(similarities: Seq<u64>, n: nat) -> Option<int>
    decreases n,
{
    if n == 0 {
        None
    } else {
        match best_similarity(similarities, (n - 1) as nat) {
            Some(best) => if double::below(similarities[best], similarities[n - 1]) {
                Some(n - 1)
            } else {
                Some(best)
            },
            None => Some(0int),
        }
    }
}

/// Whether a similarity reaches the threshold.
pub open spec fn similar_enough(bits: u64) -> bool {
    !double::undefined(bits) && !double::below(bits, SIMILARITY_THRESHOLD_BITS)
}

/// The smaller of two numbers.
pub open spec fn fewer(a: nat, b: nat) -> nat {
    if a < b {
        a
    } else {
        b
    }
}

/// Takes a proposed attribute by the similarities of its candidates: an alias of the most
/// similar one where that reaches the threshold, a new attribute otherwise.
pub fn resolve_by_similarity(
    proposed_name: &str,
    entity_kind: &str,
    story_id: &str,
    candidates: &Vec<AttributeRegistryEntry>,
    similarities: &Vec<u64>,
) -> (r: AttributeResolution)
    ensures
        ({
            let n = fewer(candidates@.len(), similarities@.len());
            let best = best_similarity(similarities@, n);
            if best is Some && similar_enough(similarities@[best->0]) {
                r matches AttributeResolution::AddAlias { attribute, alias } && attribute@
                    == candidates.deep_view()[best->0] && alias@ == proposed_name@
            } else {
                r matches AttributeResolution::Mint(entry) && entry@ == minted(
                    entry@.id,
                    entry@.created_at,
                    proposed_name@,
                    entity_kind@,
                    story_id@,
                )
            }
        }),
{
    let mut best: Option<usize> = None;
    let mut i: usize = 0;
    while i < candidates.len() && i < similarities.len()
        invariant
            0 <= i <= candidates@.len(),
            i <= similarities@.len(),
            best_similarity(similarities@, i as nat) == (match best {
                Some(b) => Some(b as int),
                None => None,
            }),
            best is Some ==> best->0 < i,
            i > 0 ==> best is Some,
        decreases candidates@.len() - i,
    {
        best = match best {
            Some(b) => if double::bits_below(similarities[b], similarities[i]) {
                Some(i)
            } else {
                Some(b)
            },
            None => Some(0),
        };
        i += 1;
    }
    if let Some(b) = best {
        let bits: u64 = similarities[b];
        if !double::is_undefined(bits) && !double::bits_below(bits, SIMILARITY_THRESHOLD_BITS) {
            return AttributeResolution::AddAlias {
                attribute: candidates[b].copy(),
                alias: proposed_name.to_string(),
            };
        }
    }
    AttributeResolution::Mint(build_minted_attribute(proposed_name, entity_kind, story_id))
}

/// An attribute that was offered under a name that nothing was known by, and that clashes with
/// nothing, is what the name stands for from then on, in whatever case of ASCII letters and with
/// whatever white space around it.
pub proof fn law_minted_attribute_is_found_by_its_name(
    registry: Seq<RegistryView>,
    id: Seq<char>,
    now: Seq<char>,
    proposed_name: Seq<char>,
    entity_kind: Seq<char>,
    story_id: Seq<char>,
    asked: Seq<char>,
)
    requires
        exact_match(registry, proposed_name) is None,
        !clashes(registry, minted(id, now, proposed_name, entity_kind, story_id)),
        text::same_ignoring_case(text::trimmed(asked), text::trimmed(proposed_name)),
    ensures
        exact_match(offered(registry, minted(id, now, proposed_name, entity_kind, story_id)), asked) == Some(
            minted(id, now, proposed_name, entity_kind, story_id),
        ),
{
    let entry = minted(id, now, proposed_name, entity_kind, story_id);
    let name = text::trimmed(proposed_name);
    let p = known_as(name);
    let q = known_as(text::trimmed(asked));
    text::lemma_trimmed_twice(proposed_name);
    rows::lemma_first_where(registry, p);
    let after = registry.push(entry);
    assert forall|k: int| 0 <= k < registry.len() implies !q(#[trigger] after[k]) by {
        assert(!p(registry[k]));
        let names = aliases_of(registry[k].aliases_json);
        if holds_name(names, text::trimmed(asked)) {
            let j = choose|j: int| 0 <= j < names.len() && text::same_ignoring_case(#[trigger] names[j], text::trimmed(asked));
            assert(text::same_ignoring_case(names[j], name));
        }
    }
    rows::lemma_first_where_hit(after, q, registry.len() as int);
}

/// Where every similarity is a number, the candidate that is taken is the most similar one, and the
/// first of those that are equally similar.
pub proof fn law_most_similar_candidate_is_taken(similarities: Seq<u64>, n: nat)
    requires
        n <= similarities.len(),
        forall|i: int| 0 <= i < n ==> !double::undefined(#[trigger] similarities[i]),
    ensures
        best_similarity(similarities, n) is Some <==> n > 0,
        n > 0 ==> {
            let best = best_similarity(similarities, n)->0;
            &&& 0 <= best < n
            &&& forall|i: int| 0 <= i < n ==> double::rank(#[trigger] similarities[i]) <= double::rank(similarities[best])
            &&& forall|i: int|
                0 <= i < best ==> double::rank(#[trigger] similarities[i]) < double::rank(similarities[best])
        },
    decreases n,
{
    if n > 1 {
        law_most_similar_candidate_is_taken(similarities, (n - 1) as nat);
    } else if n == 1 {
        assert(best_similarity(similarities, 0) is None);
    }
}

/// The attributes that a proposed name is held against are those that list the kind of the entity,
/// in their order, and all of them.
pub proof fn law_candidates_are_meant_for_the_kind(registry: Seq<RegistryView>, entity_kind: Seq<char>) -> (places: Seq<int>)
    ensures
        match candidates_for(registry, entity_kind) {
            Ok(found) => {
                &&& forall|i: int|
                    0 <= i < registry.len() ==> json::parsed((#[trigger] registry[i]).entity_kinds_json) is Some
                &&& found.len() == places.len()
                &&& rows::rising_places(places, registry.len() as int)
                &&& forall|m: int|
                    0 <= m < places.len() ==> found[m] == registry[#[trigger] places[m]] && lists_text(
                        json::parsed(registry[places[m]].entity_kinds_json)->0,
                        entity_kind,
                    )
                &&& forall|i: int|
                    0 <= i < registry.len() && lists_text(
                        json::parsed((#[trigger] registry[i]).entity_kinds_json)->0,
                        entity_kind,
                    ) ==> places.contains(i)
            },
            Err(_) => exists|i: int|
                0 <= i < registry.len() && json::parsed((#[trigger] registry[i]).entity_kinds_json) is None,
        },
{
    let p = meant_for(entity_kind);
    let q = kinds_unreadable();
    let places = rows::lemma_filter_places(registry, p);
    if rows::any_where(registry, q) {
        let i = choose|i: int| 0 <= i < registry.len() && q(#[trigger] registry[i]);
        assert(json::parsed(registry[i].entity_kinds_json) is None);
    } else {
        assert forall|i: int| 0 <= i < registry.len() implies json::parsed(
            (#[trigger] registry[i]).entity_kinds_json,
        ) is Some by {
            if json::parsed(registry[i].entity_kinds_json) is None {
                assert(q(registry[i]));
            }
        }
        assert forall|i: int|
            0 <= i < registry.len() && lists_text(
                json::parsed((#[trigger] registry[i]).entity_kinds_json)->0,
                entity_kind,
            ) implies places.contains(i) by {
            assert(p(registry[i]));
        }
    }
    places
}

/// A new attribute has the name that was proposed, without the space around it, no alias, a scale
/// from zero to ten, and belongs to the story that it was made in, as one of its own.
pub proof fn law_minted_attribute_is_new(
    id: Seq<char>,
    now: Seq<char>,
    proposed_name: Seq<char>,
    entity_kind: Seq<char>,
    story_id: Seq<char>,
)
    ensures
        ({
            let made = minted(id, now, proposed_name, entity_kind, story_id);
            &&& made.id == id
            &&& made.canonical_name == text::trimmed(proposed_name)
            &&& made.aliases_json == "[]"@
            &&& made.entity_kinds_json == json::printed(JsonView::Array(seq![JsonView::Str(entity_kind)]))
            &&& made.min.bits == 0
            &&& made.max.bits == 0x4024_0000_0000_0000
            &&& made.is_user_created
            &&& made.created_in_story_id == Some(story_id)
            &&& made.created_at == now
        }),
{
}

/// A proposed name says something, or it is refused. One that an attribute goes by is that attribute;
/// otherwise it is held against all that are meant for the kind, and is new where there are none.
pub proof fn law_proposed_name_is_known_compared_or_new(
    registry: Seq<RegistryView>,
    proposed_name: Seq<char>,
    entity_kind: Seq<char>,
    story_id: Seq<char>,
    r: AppResult<ResolutionStep>,
)
    requires
        named_step(registry, proposed_name, entity_kind, story_id, r),
    ensures
        text::trimmed(proposed_name).len() == 0 ==> r is Err,
        text::trimmed(proposed_name).len() > 0 ==> match r {
            Ok(ResolutionStep::Done(AttributeResolution::Existing(entry))) => exact_match(
                registry,
                text::trimmed(proposed_name),
            ) == Some(entry@),
            Ok(ResolutionStep::Done(AttributeResolution::Mint(entry))) => {
                &&& exact_match(registry, text::trimmed(proposed_name)) is None
                &&& candidates_for(registry, entity_kind) matches Ok(found) && found.len() == 0
                &&& entry@.canonical_name == text::trimmed(text::trimmed(proposed_name))
                &&& entry@.created_in_story_id == Some(story_id)
            },
            Ok(ResolutionStep::Done(AttributeResolution::AddAlias { .. })) => false,
            Ok(ResolutionStep::Compare { proposed_name: compared, candidates }) => {
                &&& exact_match(registry, text::trimmed(proposed_name)) is None
                &&& compared@ == text::trimmed(proposed_name)
                &&& candidates.deep_view().len() > 0
                &&& candidates_for(registry, entity_kind) matches Ok(found) && found == candidates.deep_view()
            },
            Err(_) => exact_match(registry, text::trimmed(proposed_name)) is None && candidates_for(
                registry,
                entity_kind,
            ) is Err,
        },
{
}

} // verus!
