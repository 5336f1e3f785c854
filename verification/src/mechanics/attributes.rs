//! Attributes that a model proposes for the entities of a story, taken in as they come.

use vstd::prelude::*;

use crate::entities::model::{AttributeRegistryEntry, RegistryView};
use crate::entities::registry;
use crate::entities::registry::AttributeResolution;
use crate::error::{AppError, AppResult, ErrorView};
use crate::narrator::landing;
use crate::store::{Store, StoreView};
use crate::{json, rows, stamp, text};

verus! {

/// Whether a list holds a name, whatever its case.
pub open spec fn holds_lowered(names: Seq<Seq<char>>, needle: Seq<char>) -> bool {
    exists|i: int| 0 <= i < names.len() && text::lowercased(#[trigger] names[i]) == needle
}

/// The condition of being known by a name, as the name or as an alias, whatever the case.
pub open spec fn called(name: Seq<char>) -> spec_fn(RegistryView) -> bool {
    |a: RegistryView|
        text::lowercased(a.canonical_name) == text::lowercased(text::trimmed(name)) || holds_lowered(
            registry::aliases_of(a.aliases_json),
            text::lowercased(text::trimmed(name)),
        )
}

fn has_lowered(names: &Vec<String>, needle: &str) -> (r: bool)
    ensures
        r == holds_lowered(names.deep_view(), needle@),
{
    let ghost all = names.deep_view();
    let mut i: usize = 0;
    while i < names.len()
        invariant
            0 <= i <= names@.len(),
            all == names.deep_view(),
            forall|k: int| 0 <= k < i ==> text::lowercased(#[trigger] all[k]) != needle@,
        decreases names@.len() - i,
    {
        assert(all[i as int] == names@[i as int]@);
        let lowered = text::to_lowercase(names[i].as_str());
        if text::same_text(lowered.as_str(), needle) {
            return true;
        }
        i += 1;
    }
    false
}

fn aliases(aliases_json: &str) -> (r: Vec<String>)
    ensures
        r.deep_view() == registry::aliases_of(aliases_json@),
{
    match json::parse_list(aliases_json) {
        Some(list) => list,
        None => {
            let none: Vec<String> = Vec::new();
            assert(none.deep_view() =~= Seq::empty());
            none
        },
    }
}

/// The first attribute that is known by a name, as its name or as an alias, whatever the
/// case and the whitespace around the name.
pub fn find_exact_match(store: &Store, proposed_name: &str) -> (r: Option<AttributeRegistryEntry>)
    ensures
        r.deep_view() == rows::first_where(store@.registry, called(proposed_name@)),
{
    let trimmed = text::trim(proposed_name);
    let needle = text::to_lowercase(trimmed.as_str());
    let ghost p = called(proposed_name@);
    let meant = |row: &AttributeRegistryEntry| -> (b: bool)
        ensures
            b == p(row.deep_view()),
    {
        let own = text::to_lowercase(row.canonical_name.as_str());
        text::same_text(own.as_str(), needle.as_str()) || has_lowered(
            &aliases(row.aliases_json.as_str()),
            needle.as_str(),
        )
    };
    match rows::position(&store.registry, meant, Ghost(p)) {
        Some(i) => Some(store.registry[i].copy()),
        None => None,
    }
}

/// Whether a new attribute was added, or one has its very name or identifier.
pub open spec fn minting(
    before: StoreView,
    after: StoreView,
    name: Seq<char>,
    entity_kind: Seq<char>,
    story_id: Seq<char>,
    r: AppResult<AttributeRegistryEntry>,
) -> bool {
    match r {
        Ok(entry) => {
            &&& stamp::fresh_like(entry@.id)
            &&& entry@ == registry::minted(entry@.id, entry@.created_at, name, entity_kind, story_id)
            &&& !registry::clashes(before.registry, entry@)
            &&& after == (StoreView { registry: before.registry.push(entry@), ..before })
        },
        Err(e) => {
            &&& e@ == ErrorView::Db("attribute is already in the registry"@)
            &&& exists|entry: RegistryView| #[trigger]
                registry::clashes(before.registry, entry) && stamp::fresh_like(entry.id) && entry == registry::minted(
                    entry.id,
                    entry.created_at,
                    name,
                    entity_kind,
                    story_id,
                )
            &&& after == before
        },
    }
}

/// Adds a new attribute for a kind of entity, unless one has its very name.
pub fn mint_new(store: &mut Store, proposed_name: &str, entity_kind: &str, story_id: &str) -> (r: AppResult<
    AttributeRegistryEntry,
>)
    ensures
        minting(old(store)@, final(store)@, proposed_name@, entity_kind@, story_id@, r),
{
    let entry = registry::build_minted_attribute(proposed_name, entity_kind, story_id);
    if registry::has_clash(&store.registry, &entry) {
        assert(registry::clashes(store@.registry, entry@));
        return Err(AppError::Db("attribute is already in the registry".to_string()));
    }
    let row = entry.copy();
    let ghost before = store.registry;
    let ghost value = row;
    store.registry.push(row);
    proof {
        rows::lemma_deep_push(before, store.registry, value);
    }
    Ok(entry)
}

/// How far a proposed attribute was taken without comparing meanings.
#[derive(Debug, PartialEq)]
pub enum Proposal {
    Taken(AttributeRegistryEntry),
    Compare { proposed_name: String, candidates: Vec<AttributeRegistryEntry> },
}

/// Whether a proposed attribute was taken as a new one came out.
pub open spec fn taken_as(made: AppResult<AttributeRegistryEntry>, r: AppResult<Proposal>) -> bool {
    match made {
        Ok(entry) => r matches Ok(Proposal::Taken(taken)) && taken@ == entry@,
        Err(e) => r is Err && r->Err_0@ == e@,
    }
}

/// Takes a proposed attribute as far as its name goes: the attribute that is known by it,
/// a new one where none is meant for the kind of entity, and otherwise the candidates
/// whose meanings are to be compared with it.
pub fn resolve_or_create_attribute(store: &mut Store, proposed_name: &str, entity_kind: &str, story_id: &str) -> (r: AppResult<
    Proposal,
>)
    ensures
        ({
            let name = text::trimmed(proposed_name@);
            let known = rows::first_where(old(store)@.registry, called(name));
            let candidates = registry::candidates_for(old(store)@.registry, entity_kind@);
            if name.len() == 0 {
                &&& r is Err && r->Err_0@ == ErrorView::Invalid("attribute name must not be empty"@)
                &&& final(store)@ == old(store)@
            } else if known is Some {
                &&& r matches Ok(Proposal::Taken(entry)) && entry@ == known->0
                &&& final(store)@ == old(store)@
            } else if candidates is Err {
                r is Err && r->Err_0@ == candidates->Err_0 && final(store)@ == old(store)@
            } else if candidates->Ok_0.len() == 0 {
                exists|made: AppResult<AttributeRegistryEntry>|
                    #[trigger] minting(old(store)@, final(store)@, name, entity_kind@, story_id@, made)
                        && taken_as(made, r)
            } else {
                &&& r matches Ok(Proposal::Compare { proposed_name: compared, candidates: found })
                    && compared@ == name && found.deep_view() == candidates->Ok_0
                &&& final(store)@ == old(store)@
            }
        }),
{
    let name = text::trim(proposed_name);
    if name.as_str().is_empty() {
        return Err(AppError::Invalid("attribute name must not be empty".to_string()));
    }
    if let Some(entry) = find_exact_match(store, name.as_str()) {
        return Ok(Proposal::Taken(entry));
    }
    let candidates = match registry::load_registry_for_kind(store, entity_kind) {
        Ok(candidates) => candidates,
        Err(e) => {
            return Err(e);
        },
    };
    if candidates.len() == 0 {
        assert(candidates.deep_view().len() == 0);
        proof {
            text::lemma_trimmed_twice(proposed_name@);
        }
        let made = mint_new(store, name.as_str(), entity_kind, story_id);
        let ghost result = made;
        assert(minting(old(store)@, store@, name@, entity_kind@, story_id@, result));
        return match made {
            Ok(entry) => Ok(Proposal::Taken(entry)),
            Err(e) => Err(e),
        };
    }
    assert(candidates.deep_view().len() != 0);
    Ok(Proposal::Compare { proposed_name: name, candidates })
}

/// What comes of a proposed attribute once its meaning was compared with those of candidates.
pub open spec fn proposal_ended(
    before: StoreView,
    after: StoreView,
    name: Seq<char>,
    entity_kind: Seq<char>,
    story_id: Seq<char>,
    candidates: Seq<RegistryView>,
    similarities: Seq<u64>,
    r: AppResult<AttributeRegistryEntry>,
) -> bool {
    let best = registry::best_similarity(
        similarities,
        registry::fewer(candidates.len(), similarities.len()),
    );
    if best is Some && registry::similar_enough(similarities[best->0]) {
        let similar = candidates[best->0];
        match rows::first_where(before.registry, registry::attribute_id_is(similar.id)) {
            Some(row) => r is Ok && r->Ok_0@ == similar && after == (StoreView {
                registry: rows::upserted(
                    before.registry,
                    registry::attribute_id_is(similar.id),
                    registry::aliased(row, name),
                ),
                ..before
            }),
            None => r is Err && r->Err_0@ == ErrorView::Db("Query returned no rows"@) && after == before,
        }
    } else {
        minting(before, after, name, entity_kind, story_id, r)
    }
}

/// Takes a proposed attribute by the similarities of its candidates: as an alias of the most
/// similar one where that reaches the threshold, as a new attribute otherwise.
pub fn finish_proposal(
    store: &mut Store,
    proposed_name: &str,
    entity_kind: &str,
    story_id: &str,
    candidates: &Vec<AttributeRegistryEntry>,
    similarities: &Vec<u64>,
) -> (r: AppResult<AttributeRegistryEntry>)
    ensures
        proposal_ended(
            old(store)@,
            final(store)@,
            proposed_name@,
            entity_kind@,
            story_id@,
            candidates.deep_view(),
            similarities@,
            r,
        ),
{
    match registry::resolve_by_similarity(proposed_name, entity_kind, story_id, candidates, similarities) {
        AttributeResolution::AddAlias { attribute, alias } => match registry::add_alias(
            store,
            attribute.id.as_str(),
            alias.as_str(),
        ) {
            Ok(_) => Ok(attribute),
            Err(e) => Err(e),
        },
        _ => mint_new(store, proposed_name, entity_kind, story_id),
    }
}

/// A proposed attribute is taken for the most similar one that is near enough, which then has the
/// name as an alias while everything else stays; otherwise it is a new one behind the others, with
/// the name that was proposed.
pub proof fn law_proposal_is_an_alias_or_new(
    before: StoreView,
    after: StoreView,
    name: Seq<char>,
    entity_kind: Seq<char>,
    story_id: Seq<char>,
    candidates: Seq<RegistryView>,
    similarities: Seq<u64>,
    r: AppResult<AttributeRegistryEntry>,
)
    requires
        proposal_ended(before, after, name, entity_kind, story_id, candidates, similarities, r),
    ensures
        after == (StoreView { registry: after.registry, ..before }),
        r is Err ==> after == before,
        r is Ok && after.registry.len() == before.registry.len() ==> {
            &&& exists|k: int|
                {
                    &&& 0 <= k < before.registry.len()
                    &&& #[trigger] before.registry[k].id == r->Ok_0@.id
                    &&& landing::got_alias(before.registry[k], after.registry[k], name)
                    &&& forall|i: int|
                        0 <= i < before.registry.len() && i != k ==> #[trigger] after.registry[i] == before.registry[i]
                }
            &&& exists|b: int|
                0 <= b < candidates.len() && b < similarities.len() && #[trigger] candidates[b] == r->Ok_0@
                    && registry::similar_enough(similarities[b]) && registry::best_similarity(
                    similarities,
                    if candidates.len() < similarities.len() {
                        candidates.len()
                    } else {
                        similarities.len()
                    },
                ) == Some(b)
        },
        r is Ok && after.registry.len() != before.registry.len() ==> {
            &&& after.registry == before.registry.push(r->Ok_0@)
            &&& r->Ok_0@.canonical_name == text::trimmed(name)
            &&& r->Ok_0@.created_in_story_id == Some(story_id)
            &&& r->Ok_0@.is_user_created
            &&& forall|i: int|
                0 <= i < before.registry.len() ==> (#[trigger] before.registry[i]).id != r->Ok_0@.id
                    && before.registry[i].canonical_name != r->Ok_0@.canonical_name
        },
{
    let n = registry::fewer(candidates.len(), similarities.len());
    let best = registry::best_similarity(similarities, n);
    if best is Some && registry::similar_enough(similarities[best->0]) {
        lemma_best_within(similarities, n);
        let similar = candidates[best->0];
        let p = registry::attribute_id_is(similar.id);
        let k = rows::lemma_first_where(before.registry, p);
        if let Some(row) = rows::first_where(before.registry, p) {
            rows::lemma_upserted_hit(before.registry, p, registry::aliased(row, name), k);
            landing::lemma_got_alias(row, name);
            assert(before.registry[k].id == r->Ok_0@.id);
            assert(candidates[best->0] == r->Ok_0@);
        }
    } else if r is Ok {
        let entry = r->Ok_0@;
        let q = registry::same_identity(entry);
        assert forall|i: int| 0 <= i < before.registry.len() implies (#[trigger] before.registry[i]).id != entry.id
            && before.registry[i].canonical_name != entry.canonical_name by {
            if q(before.registry[i]) {
                assert(registry::clashes(before.registry, entry));
            }
        }
    }
}

proof fn lemma_best_within(similarities: Seq<u64>, n: nat)
    ensures
        registry::best_similarity(similarities, n) matches Some(best) ==> 0 <= best < n,
    decreases n,
{
    if n > 0 {
        lemma_best_within(similarities, (n - 1) as nat);
    }
}

} // verus!
