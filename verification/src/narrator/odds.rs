//! What a check rests on, and what is written of it.

use vstd::prelude::*;

use super::dice;
use super::dice::{FactorView, OutcomeView, RollFactor};
use super::staged_roll;
use super::staging;
use super::staging::{OpView, StagingView};
use super::tool_error::ToolError;
use crate::double;
use crate::entities::attributes::{Clamped, Reading};
use crate::entities::model::{AttributeValueView, EntityView, RegistryView};
use crate::entities::{attributes, reads, registry, repository};
use crate::error::ErrorView;
use crate::json::{Json, JsonView};
use crate::store::StoreView;
use crate::{json, rows, text};

verus! {

/// Whether the registry has an attribute by a name at a place, as its name or as an alias, before
/// any other, whatever the case of the ASCII letters and the whitespace around the name.
pub open spec fn goes_by(registry: Seq<RegistryView>, name: Seq<char>, k: int) -> bool {
    &&& 0 <= k < registry.len()
    &&& bears(registry[k], text::trimmed(name))
    &&& forall|i: int| 0 <= i < k ==> !bears(#[trigger] registry[i], text::trimmed(name))
}

/// Whether an attribute has a name or an alias, whatever the case of the ASCII letters.
pub open spec fn bears(attribute: RegistryView, name: Seq<char>) -> bool {
    ||| text::same_ignoring_case(attribute.canonical_name, name)
    ||| json::parsed_list(attribute.aliases_json) is Some && exists|i: int|
        0 <= i < json::parsed_list(attribute.aliases_json)->0.len() && text::same_ignoring_case(
            #[trigger] json::parsed_list(attribute.aliases_json)->0[i],
            name,
        )
}

/// Whether a factor reads what an entity of a story that is there has for an attribute: the one
/// that goes by the name, or, where none does, the one that is listed by it. The value lies on a
/// scale that has an extent.
pub open spec fn reads_value(
    store: StoreView,
    story_id: Seq<char>,
    entity_id: Seq<char>,
    attribute_name: Seq<char>,
    factor: FactorView,
) -> bool {
    &&& factor.entity_id == entity_id
    &&& exists|e: EntityView|
        #[trigger] repository::listed_entities(store, story_id, None).contains(e) && e.id == entity_id && e.name
            == factor.entity_name
    &&& exists|v: AttributeValueView|
        #[trigger] attributes::listed_values(store, story_id, entity_id).contains(v) && v.attribute_id
            == factor.attribute_id && v.canonical_name == factor.attribute_name && v.value == factor.value && v.min
            == factor.min && v.max == factor.max
    &&& forall|k: int|
        #[trigger] goes_by(store.registry, attribute_name, k) ==> factor.attribute_id == store.registry[k].id
    &&& (exists|k: int| #[trigger] goes_by(store.registry, attribute_name, k)) || text::same_ignoring_case(
        factor.attribute_name,
        attribute_name,
    )
    &&& double::finite(factor.value.bits) && double::finite(factor.min.bits) && double::finite(factor.max.bits)
    &&& double::below(factor.min.bits, factor.max.bits)
    &&& !double::below(factor.value.bits, factor.min.bits)
    &&& !double::below(factor.max.bits, factor.value.bits)
}

/// The factors that the arguments of a check name, as they stand there.
pub open spec fn named_factors(args: JsonView) -> Seq<JsonView> {
    match json::field(args, "factors"@) {
        Some(JsonView::Array(items)) => items,
        _ => Seq::empty(),
    }
}

/// Whether a payload says how a check came out, by which number, drawn by which seed.
pub open spec fn tells_outcome(payload: JsonView, chance: u8) -> bool {
    exists|seed: i64, roll: i64|
        #![trigger dice::drawn(seed as u64, 0, 100), json::int_value(roll)]
        {
            &&& 0 <= seed <= u32::MAX
            &&& roll == dice::drawn(seed as u64, 0, 100)
            &&& 0 <= roll < 100
            &&& json::field(payload, "seed"@) == Some(json::int_value(seed))
            &&& json::field(payload, "roll"@) == Some(json::int_value(roll))
            &&& json::field(payload, "needed"@) == Some(json::int_value((100 - chance) as i64))
            &&& json::field(payload, "chance_percent"@) == Some(json::int_value(chance as i64))
            &&& json::text_field(payload, "outcome"@) == Some(
                if roll >= 100 - chance {
                    "success"@
                } else {
                    "failure"@
                },
            )
        }
}

/// Whether a payload says of each factor whose it is and what it reads.
pub open spec fn tells_factors(payload: JsonView, factors: Seq<FactorView>) -> bool {
    match json::field(payload, "factors"@) {
        Some(JsonView::Array(items)) => items.len() == factors.len() && forall|i: int|
            #![trigger items[i]]
            0 <= i < items.len() ==> {
                &&& json::text_field(items[i], "entity_id"@) == Some(factors[i].entity_id)
                &&& json::text_field(items[i], "entity_name"@) == Some(factors[i].entity_name)
                &&& json::text_field(items[i], "attribute_id"@) == Some(factors[i].attribute_id)
                &&& json::text_field(items[i], "attribute_name"@) == Some(factors[i].attribute_name)
                &&& json::field(items[i], "value"@) == Some(json::double_value(factors[i].value))
                &&& json::field(items[i], "min"@) == Some(json::double_value(factors[i].min))
                &&& json::field(items[i], "max"@) == Some(json::double_value(factors[i].max))
            },
        _ => false,
    }
}

/// Whether a payload says where the chance came from, and the reason that was given.
pub open spec fn tells_why(payload: JsonView, args: JsonView) -> bool {
    &&& json::text_field(payload, "chance_source"@) == Some(
        if named_factors(args).len() > 0 {
            "attributes"@
        } else if json::field(args, "chance_percent"@) is Some {
            "narrator"@
        } else {
            "default"@
        },
    )
    &&& json::text_field(payload, "reason"@) == (match json::text_field(args, "reason"@) {
        Some(reason) => if text::trimmed(reason).len() > 0 {
            Some(text::trimmed(reason))
        } else {
            None
        },
        None => None,
    })
}

proof fn lemma_field_names()
    ensures
        "chance_percent"@.len() == 14,
        "chance_source"@.len() == 13,
        "factors"@.len() == 7 && "factors"@[0] == 'f',
        "needed"@.len() == 6 && "needed"@[0] == 'n',
        "outcome"@.len() == 7 && "outcome"@[0] == 'o',
        "reason"@.len() == 6 && "reason"@[0] == 'r',
        "roll"@.len() == 4 && "roll"@[0] == 'r',
        "seed"@.len() == 4 && "seed"@[0] == 's',
        "attribute_id"@.len() == 12,
        "attribute_name"@.len() == 14,
        "entity_id"@.len() == 9,
        "entity_name"@.len() == 11,
        "max"@.len() == 3 && "max"@[1] == 'a',
        "min"@.len() == 3 && "min"@[1] == 'i',
        "value"@.len() == 5,
{
    reveal_strlit("chance_percent");
    reveal_strlit("chance_source");
    reveal_strlit("factors");
    reveal_strlit("needed");
    reveal_strlit("outcome");
    reveal_strlit("reason");
    reveal_strlit("roll");
    reveal_strlit("seed");
    reveal_strlit("attribute_id");
    reveal_strlit("attribute_name");
    reveal_strlit("entity_id");
    reveal_strlit("entity_name");
    reveal_strlit("max");
    reveal_strlit("min");
    reveal_strlit("value");
}

pub(crate) proof fn lemma_payload_tells(
    chance: u8,
    outcome: OutcomeView,
    reason: Option<Seq<char>>,
    source: Seq<char>,
    factors: Seq<FactorView>,
)
    requires
        chance <= 100,
        dice::possible_outcome(chance, outcome),
    ensures
        ({
            let payload = dice::roll_payload_of(outcome, reason, Some(source), factors);
            &&& tells_outcome(payload, chance)
            &&& tells_factors(payload, factors)
            &&& json::text_field(payload, "chance_source"@) == Some(source)
            &&& json::text_field(payload, "reason"@) == reason
        }),
{
    lemma_field_names();
    reveal_with_fuel(rows::first_where, 9);
    let payload = dice::roll_payload_of(outcome, reason, Some(source), factors);
    let roll = outcome.roll;
    let seed = outcome.seed;
    assert(dice::drawn(seed as u64, 0, 100) == roll);
    assert(json::field(payload, "roll"@) == Some(json::int_value(roll)));
    assert(tells_outcome(payload, chance));
    let items = factors.map_values(|f: FactorView| dice::factor_value(f));
    assert(json::field(payload, "factors"@) == Some(JsonView::Array(items)));
    assert forall|i: int|
        #![trigger items[i]]
        0 <= i < items.len() implies ({
        &&& json::text_field(items[i], "entity_id"@) == Some(factors[i].entity_id)
        &&& json::text_field(items[i], "entity_name"@) == Some(factors[i].entity_name)
        &&& json::text_field(items[i], "attribute_id"@) == Some(factors[i].attribute_id)
        &&& json::text_field(items[i], "attribute_name"@) == Some(factors[i].attribute_name)
        &&& json::field(items[i], "value"@) == Some(json::double_value(factors[i].value))
        &&& json::field(items[i], "min"@) == Some(json::double_value(factors[i].min))
        &&& json::field(items[i], "max"@) == Some(json::double_value(factors[i].max))
    }) by {
        assert(items[i] == dice::factor_value(factors[i]));
    }
}

pub(crate) proof fn lemma_payload_numbers(
    outcome: OutcomeView,
    reason: Option<Seq<char>>,
    source: Seq<char>,
    factors: Seq<FactorView>,
)
    ensures
        ({
            let payload = dice::roll_payload_of(outcome, reason, Some(source), factors);
            &&& json::field(payload, "roll"@) == Some(json::int_value(outcome.roll))
            &&& json::field(payload, "seed"@) == Some(json::int_value(outcome.seed))
        }),
{
    lemma_field_names();
    reveal_with_fuel(rows::first_where, 9);
}

pub(crate) proof fn lemma_goes_by(registry: Seq<RegistryView>, name: Seq<char>) -> (k: int)
    ensures
        match registry::exact_match(registry, name) {
            Some(attribute) => goes_by(registry, name, k) && attribute == registry[k],
            None => forall|i: int| !#[trigger] goes_by(registry, name, i),
        },
        forall|i: int| #[trigger] goes_by(registry, name, i) ==> i == k,
{
    let p = registry::known_as(text::trimmed(name));
    assert forall|a: RegistryView| #[trigger] p(a) == bears(a, text::trimmed(name)) by {
        let aliases = registry::aliases_of(a.aliases_json);
        if registry::holds_name(aliases, text::trimmed(name)) {
            let i = choose|i: int|
                0 <= i < aliases.len() && text::same_ignoring_case(#[trigger] aliases[i], text::trimmed(name));
            assert(text::same_ignoring_case(json::parsed_list(a.aliases_json)->0[i], text::trimmed(name)));
        }
    }
    let k = rows::lemma_first_where(registry, p);
    assert forall|i: int| #[trigger] goes_by(registry, name, i) implies i == k && registry::exact_match(registry, name) is Some by {
        assert(p(registry[i]));
        if k < i {
            assert(p(registry[k]));
            assert(!bears(registry[k], text::trimmed(name)));
        }
    }
    k
}

/// A factor of a check reads the value that the story keeps of the entity and the attribute that
/// it names.
pub proof fn law_factor_reads_what_is_kept(
    store: StoreView,
    story_id: Seq<char>,
    entity_id: Seq<char>,
    attribute_name: Seq<char>,
)
    ensures
        match dice::factor_of(store, story_id, entity_id, attribute_name) {
            Ok(factor) => reads_value(store, story_id, entity_id, attribute_name, factor),
            Err(_) => true,
        },
{
    let entities = repository::listed_entities(store, story_id, None);
    let values = attributes::listed_values(store, story_id, entity_id);
    let known = registry::exact_match(store.registry, attribute_name);
    let named = dice::named_value(known, attribute_name);
    let i = rows::lemma_first_where(entities, dice::is_entity(entity_id));
    let m = rows::lemma_first_where(values, named);
    let k = lemma_goes_by(store.registry, attribute_name);
    if dice::factor_of(store, story_id, entity_id, attribute_name) is Ok {
        assert(entities.contains(entities[i]));
        assert(values.contains(values[m]));
        assert(named(values[m]));
        if known is Some {
            assert(goes_by(store.registry, attribute_name, k));
        }
    }
}

/// Whether the list that the arithmetic was given has one factor for each that was named, as many
/// and in the order in which they were named, each read from the tables of the story.
pub open spec fn read_from_tables(
    store: StoreView,
    story_id: Seq<char>,
    items: Seq<JsonView>,
    factors: Seq<FactorView>,
) -> bool {
    &&& factors.len() == items.len()
    &&& forall|i: int|
        #![trigger factors[i]]
        0 <= i < items.len() ==> {
            &&& json::text_field(items[i], "entity_id"@) is Some
            &&& json::text_field(items[i], "attribute_name"@) is Some
            &&& reads_value(
                store,
                story_id,
                json::text_field(items[i], "entity_id"@)->0,
                json::text_field(items[i], "attribute_name"@)->0,
                factors[i],
            )
        }
}

proof fn lemma_references(items: Seq<JsonView>)
    requires
        dice::references_of(items) is Ok,
    ensures
        ({
            let references = dice::references_of(items)->Ok_0;
            &&& references.len() == items.len()
            &&& forall|i: int|
                #![trigger references[i]]
                0 <= i < items.len() ==> json::text_field(items[i], "entity_id"@) == Some(references[i].0)
                    && json::text_field(items[i], "attribute_name"@) == Some(references[i].1)
        }),
    decreases items.len(),
{
    if items.len() > 0 {
        lemma_references(items.drop_last());
        let references = dice::references_of(items)->Ok_0;
        let front = dice::references_of(items.drop_last())->Ok_0;
        assert forall|i: int|
            #![trigger references[i]]
            0 <= i < items.len() implies json::text_field(items[i], "entity_id"@) == Some(references[i].0)
            && json::text_field(items[i], "attribute_name"@) == Some(references[i].1) by {
            if i < items.len() - 1 {
                assert(references[i] == front[i]);
                assert(items.drop_last()[i] == items[i]);
            }
        }
    }
}

proof fn lemma_readings(store: StoreView, story_id: Seq<char>, references: Seq<(Seq<char>, Seq<char>)>)
    requires
        dice::readings_of(store, story_id, references) is Ok,
    ensures
        ({
            let factors = dice::readings_of(store, story_id, references)->Ok_0;
            &&& factors.len() == references.len()
            &&& forall|i: int|
                #![trigger factors[i]]
                0 <= i < references.len() ==> reads_value(
                    store,
                    story_id,
                    references[i].0,
                    references[i].1,
                    factors[i],
                )
        }),
    decreases references.len(),
{
    if references.len() > 0 {
        lemma_readings(store, story_id, references.drop_last());
        let last = references.last();
        law_factor_reads_what_is_kept(store, story_id, last.0, last.1);
        let front = dice::readings_of(store, story_id, references.drop_last())->Ok_0;
        let factors = dice::readings_of(store, story_id, references)->Ok_0;
        assert forall|i: int|
            #![trigger factors[i]]
            0 <= i < references.len() implies reads_value(
            store,
            story_id,
            references[i].0,
            references[i].1,
            factors[i],
        ) by {
            if i < references.len() - 1 {
                assert(factors[i] == front[i]);
                assert(references.drop_last()[i] == references[i]);
            }
        }
    }
}

/// The arguments of a check name at most two factors, and a chance from 0 to 100 only where they
/// name none.
pub proof fn law_check_is_asked_for_by_chance_or_by_factors(args: JsonView)
    ensures
        match dice::request_of(args) {
            Ok(request) => {
                let items = named_factors(args);
                &&& items.len() <= 2
                &&& request.references.len() == items.len()
                &&& forall|i: int|
                    #![trigger request.references[i]]
                    0 <= i < items.len() ==> json::text_field(items[i], "entity_id"@) == Some(
                        request.references[i].0,
                    ) && json::text_field(items[i], "attribute_name"@) == Some(request.references[i].1)
                &&& request.chance_percent is Some <==> json::field(args, "chance_percent"@) is Some
                &&& request.chance_percent is Some ==> {
                    &&& items.len() == 0
                    &&& request.chance_percent->0 <= 100
                    &&& json::int_field(args, "chance_percent"@) == Some(request.chance_percent->0 as i64)
                }
                &&& request.reason == (match json::text_field(args, "reason"@) {
                    Some(reason) => if text::trimmed(reason).len() > 0 {
                        Some(text::trimmed(reason))
                    } else {
                        None
                    },
                    None => None,
                })
            },
            Err(_) => true,
        },
{
    if dice::request_of(args) is Ok {
        let items = dice::factors_named(args)->Ok_0;
        lemma_references(items);
        assert(items == named_factors(args));
    }
}

proof fn lemma_read_from_tables(store: StoreView, story_id: Seq<char>, args: JsonView)
    requires
        dice::request_of(args) is Ok,
        dice::readings_of(store, story_id, dice::request_of(args)->Ok_0.references) is Ok,
    ensures
        read_from_tables(
            store,
            story_id,
            named_factors(args),
            dice::readings_of(store, story_id, dice::request_of(args)->Ok_0.references)->Ok_0,
        ),
{
    let request = dice::request_of(args)->Ok_0;
    let factors = dice::readings_of(store, story_id, request.references)->Ok_0;
    let items = named_factors(args);
    law_check_is_asked_for_by_chance_or_by_factors(args);
    lemma_readings(store, story_id, request.references);
    assert forall|i: int|
        #![trigger factors[i]]
        #![trigger items[i]]
        0 <= i < items.len() implies ({
        &&& json::text_field(items[i], "entity_id"@) is Some
        &&& json::text_field(items[i], "attribute_name"@) is Some
        &&& reads_value(
            store,
            story_id,
            json::text_field(items[i], "entity_id"@)->0,
            json::text_field(items[i], "attribute_name"@)->0,
            factors[i],
        )
    }) by {
        let reference = request.references[i];
        assert(json::text_field(items[i], "entity_id"@) == Some(reference.0));
        assert(json::text_field(items[i], "attribute_name"@) == Some(reference.1));
    }
}

/// Where a check rests on factors, the chance is one that the arithmetic gives for the whole list of
/// them, each read from the tables; otherwise it is the one that was asked for, or even. By that
/// chance the check comes out, and one hidden entry of the turn keeps what the narrator is given:
/// the outcome with the number and its seed, the factors, and where the chance came from.
pub proof fn law_check_rests_on_every_factor<F: Fn(Vec<RollFactor>) -> u8>(
    chance_of: &F,
    before: StoreView,
    after: StoreView,
    story_id: Seq<char>,
    target_entry_id: Seq<char>,
    turn_id: Seq<char>,
    args: JsonView,
    r: Result<Json, ToolError>,
) -> (chance: u8)
    requires
        forall|factors: Vec<RollFactor>, chance: u8|
            call_ensures(chance_of, (factors,), chance) ==> chance <= 100,
        dice::check_ended(chance_of, before, after, story_id, target_entry_id, turn_id, args, r),
    ensures
        r is Err ==> after == before,
        r is Ok ==> {
            let items = named_factors(args);
            let payload = r->Ok_0@;
            &&& items.len() == 0 ==> json::field(payload, "factors"@) == Some(JsonView::Array(Seq::empty()))
            &&& items.len() == 0 && json::field(args, "chance_percent"@) is Some ==> json::int_field(
                args,
                "chance_percent"@,
            ) == Some(chance as i64)
            &&& items.len() == 0 && json::field(args, "chance_percent"@) is None ==> chance == 50
            &&& items.len() > 0 ==> exists|given: Vec<RollFactor>|
                #[trigger] call_ensures(chance_of, (given,), chance) && read_from_tables(
                    before,
                    story_id,
                    items,
                    given.deep_view(),
                ) && tells_factors(payload, given.deep_view())
            &&& tells_outcome(payload, chance)
            &&& tells_why(payload, args)
            &&& after.entries.last().payload == payload
            &&& reads::one_hidden_entry(
                before,
                after,
                story_id,
                "diceroll"@,
                Some(target_entry_id),
                Some(turn_id),
            )
            &&& after.entities == before.entities && after.states == before.states && after.attributes
                == before.attributes && after.registry == before.registry
        },
{
    if r is Ok {
        let request = dice::request_of(args)->Ok_0;
        let factors = dice::readings_of(before, story_id, request.references)->Ok_0;
        let source = dice::chance_source_of(request);
        let (chance, outcome) = choose|chance: u8, outcome: OutcomeView|
            #[trigger] dice::possible_outcome(chance, outcome) && dice::chance_for(chance_of, request, factors, chance)
                && dice::roll_outcome_told(
                before,
                after,
                dice::roll_draft(
                    story_id,
                    outcome,
                    request.reason,
                    source,
                    factors,
                    target_entry_id,
                    turn_id,
                ),
                r,
            );
        law_check_is_asked_for_by_chance_or_by_factors(args);
        lemma_read_from_tables(before, story_id, args);
        let items = named_factors(args);
        if items.len() > 0 {
            let given = choose|given: Vec<RollFactor>|
                given.deep_view() == factors && #[trigger] call_ensures(chance_of, (given,), chance);
            assert(read_from_tables(before, story_id, items, given.deep_view()));
        }
        lemma_payload_tells(chance, outcome, request.reason, source, factors);
        let payload = r->Ok_0@;
        if items.len() == 0 {
            let found = json::field(payload, "factors"@);
            assert(found->0->Array_0 =~= Seq::empty());
        }
        chance
    } else {
        0
    }
}

proof fn lemma_staged_readings<F: Fn(Reading) -> Clamped>(
    clamp: &F,
    store: StoreView,
    turn: StagingView,
    references: Seq<(Seq<char>, Seq<char>)>,
    factors: Seq<FactorView>,
)
    requires
        staged_roll::factors_read(clamp, store, turn, references, Ok(factors)),
    ensures
        factors.len() == references.len(),
        forall|i: int|
            #![trigger factors[i]]
            0 <= i < references.len() ==> staging::factor_read(
                clamp,
                store,
                turn,
                references[i].0,
                references[i].1,
                Ok(factors[i]),
            ),
    decreases references.len(),
{
    if references.len() > 0 {
        let r: Result<Seq<FactorView>, ErrorView> = Ok(factors);
        let front = choose|front: Result<Seq<FactorView>, ErrorView>|
            staged_roll::factors_read(clamp, store, turn, references.drop_last(), front)
                && #[trigger] staged_roll::factor_step(clamp, store, turn, references.last(), front, r);
        assert(front is Ok);
        let list = front->Ok_0;
        lemma_staged_readings(clamp, store, turn, references.drop_last(), list);
        let last = choose|last: Result<FactorView, ErrorView>|
            #[trigger] staging::factor_read(
                clamp,
                store,
                turn,
                references.last().0,
                references.last().1,
                last,
            ) && r == (match last {
                Err(e) => Err::<Seq<FactorView>, ErrorView>(e),
                Ok(factor) => Ok(list.push(factor)),
            });
        assert(factors == list.push(last->Ok_0));
        assert forall|i: int|
            #![trigger factors[i]]
            0 <= i < references.len() implies staging::factor_read(
            clamp,
            store,
            turn,
            references[i].0,
            references[i].1,
            Ok(factors[i]),
        ) by {
            if i < references.len() - 1 {
                assert(factors[i] == list[i]);
                assert(references.drop_last()[i] == references[i]);
            }
        }
    }
}

/// Whether the list that the arithmetic was given has one factor for each that was named, as many
/// and in the order in which they were named, each read as it is for the rest of a turn.
pub open spec fn read_in_turn<F: Fn(Reading) -> Clamped>(
    clamp: &F,
    store: StoreView,
    turn: StagingView,
    items: Seq<JsonView>,
    factors: Seq<FactorView>,
) -> bool {
    &&& factors.len() == items.len()
    &&& forall|i: int|
        #![trigger factors[i]]
        0 <= i < items.len() ==> {
            &&& json::text_field(items[i], "entity_id"@) is Some
            &&& json::text_field(items[i], "attribute_name"@) is Some
            &&& staging::factor_read(
                clamp,
                store,
                turn,
                json::text_field(items[i], "entity_id"@)->0,
                json::text_field(items[i], "attribute_name"@)->0,
                Ok(factors[i]),
            )
        }
}

proof fn lemma_read_in_turn<F: Fn(Reading) -> Clamped>(
    clamp: &F,
    store: StoreView,
    turn: StagingView,
    args: JsonView,
    factors: Seq<FactorView>,
)
    requires
        dice::request_of(args) is Ok,
        staged_roll::factors_read(clamp, store, turn, dice::request_of(args)->Ok_0.references, Ok(factors)),
    ensures
        read_in_turn(clamp, store, turn, named_factors(args), factors),
{
    let request = dice::request_of(args)->Ok_0;
    let items = named_factors(args);
    law_check_is_asked_for_by_chance_or_by_factors(args);
    lemma_staged_readings(clamp, store, turn, request.references, factors);
    assert forall|i: int|
        #![trigger factors[i]]
        #![trigger items[i]]
        0 <= i < items.len() implies ({
        &&& json::text_field(items[i], "entity_id"@) is Some
        &&& json::text_field(items[i], "attribute_name"@) is Some
        &&& staging::factor_read(
            clamp,
            store,
            turn,
            json::text_field(items[i], "entity_id"@)->0,
            json::text_field(items[i], "attribute_name"@)->0,
            Ok(factors[i]),
        )
    }) by {
        let reference = request.references[i];
        assert(json::text_field(items[i], "entity_id"@) == Some(reference.0));
        assert(json::text_field(items[i], "attribute_name"@) == Some(reference.1));
    }
}

/// Whether a check waits to be written down with what its payload says of it.
pub open spec fn waits_as_told(payload: JsonView, chance: u8, op: OpView) -> bool {
    match op {
        OpView::Roll(roll) => {
            &&& tells_factors(payload, roll.factors)
            &&& roll.output.chance_percent == chance
            &&& json::field(payload, "roll"@) == Some(json::int_value(roll.output.roll))
            &&& json::field(payload, "seed"@) == Some(json::int_value(roll.output.seed))
            &&& json::text_field(payload, "outcome"@) == Some(roll.output.outcome)
            &&& json::text_field(payload, "reason"@) == roll.reason
            &&& json::text_field(payload, "chance_source"@) == Some(roll.chance_source)
        },
        _ => false,
    }
}

/// A check that is rolled while a turn is told rests on the whole list of its factors too, each
/// read as it is for the rest of the turn. It waits behind what the turn has changed, with the
/// factors and the outcome that the narrator is given, and the tables are not asked for more.
pub proof fn law_staged_check_rests_on_every_factor<F: Fn(Reading) -> Clamped, G: Fn(Vec<RollFactor>) -> u8>(
    clamp: &F,
    chance_of: &G,
    store: StoreView,
    before: StagingView,
    after: StagingView,
    args: JsonView,
    r: Result<Json, ToolError>,
) -> (chance: u8)
    requires
        forall|factors: Vec<RollFactor>, chance: u8|
            call_ensures(chance_of, (factors,), chance) ==> chance <= 100,
        staged_roll::staged_check_ended(clamp, chance_of, store, before, after, args, r),
    ensures
        r is Err ==> after == before,
        r is Ok ==> {
            let items = named_factors(args);
            let payload = r->Ok_0@;
            &&& items.len() == 0 ==> json::field(payload, "factors"@) == Some(JsonView::Array(Seq::empty()))
            &&& items.len() == 0 && json::field(args, "chance_percent"@) is Some ==> json::int_field(
                args,
                "chance_percent"@,
            ) == Some(chance as i64)
            &&& items.len() == 0 && json::field(args, "chance_percent"@) is None ==> chance == 50
            &&& items.len() > 0 ==> exists|given: Vec<RollFactor>|
                #[trigger] call_ensures(chance_of, (given,), chance) && read_in_turn(
                    clamp,
                    store,
                    before,
                    items,
                    given.deep_view(),
                ) && tells_factors(payload, given.deep_view())
            &&& tells_outcome(payload, chance)
            &&& tells_why(payload, args)
            &&& after.pending.len() == before.pending.len() + 1
            &&& after.pending.drop_last() == before.pending
            &&& waits_as_told(payload, chance, after.pending.last())
            &&& after == (StagingView { pending: after.pending, ..before })
        },
{
    if r is Ok {
        let request = dice::request_of(args)->Ok_0;
        let read = choose|read: Result<Seq<FactorView>, ErrorView>|
            staged_roll::factors_read(clamp, store, before, request.references, read)
                && #[trigger] staged_roll::roll_staged(chance_of, request, read, before, after, r);
        let factors = read->Ok_0;
        let source = dice::chance_source_of(request);
        let (chance, outcome) = choose|chance: u8, outcome: OutcomeView|
            #[trigger] staged_roll::roll_noted(chance_of, request, factors, chance, outcome, before, after, r);
        law_check_is_asked_for_by_chance_or_by_factors(args);
        lemma_read_in_turn(clamp, store, before, args, factors);
        let items = named_factors(args);
        if items.len() > 0 {
            let given = choose|given: Vec<RollFactor>|
                given.deep_view() == factors && #[trigger] call_ensures(chance_of, (given,), chance);
            assert(read_in_turn(clamp, store, before, items, given.deep_view()));
        }
        lemma_payload_tells(chance, outcome, request.reason, source, factors);
        let payload = r->Ok_0@;
        if items.len() == 0 {
            let found = json::field(payload, "factors"@);
            assert(found->0->Array_0 =~= Seq::empty());
        }
        assert(after.pending.drop_last() =~= before.pending);
        assert(waits_as_told(payload, chance, after.pending.last())) by {
            lemma_field_names();
            reveal_with_fuel(rows::first_where, 9);
        }
        chance
    } else {
        0
    }
}

} // verus!
