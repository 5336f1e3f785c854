//! Dice: what a check is rolled for, how it comes out, and how it is written down.

use vstd::prelude::*;

use super::tool_error;
use super::tool_error::{ToolError, ToolErrorView};
use crate::double::{Double, DoubleView};
use crate::entities::model::{AttributeValueView, EntityAttributeValue, EntityView, RegistryView};
use crate::entities::{attributes, registry, repository};
use crate::error::{AppError, AppResult, ErrorView};
use crate::json::{Json, JsonNumber, JsonNumberView, JsonView};
use crate::ledger::kind;
use crate::ledger::model::HIDDEN;
use crate::ledger::repository as ledger;
use crate::ledger::repository::{Draft, DraftView};
use crate::rows::Copied;
use crate::store::{Store, StoreView};
use crate::{double, json, rows, text};

verus! {

/// The outcome of a check that comes off.
pub const SUCCESS: &'static str = "success";

/// The outcome of a check that does not.
pub const FAILURE: &'static str = "failure";

/// A value that bears on a check.
#[derive(Debug, PartialEq)]
pub struct RollFactor {
    pub entity_id: String,
    pub entity_name: String,
    pub attribute_id: String,
    pub attribute_name: String,
    pub value: Double,
    pub min: Double,
    pub max: Double,
}

/// What a `RollFactor` stands for.
#[verifier::ext_equal]
pub struct FactorView {
    pub entity_id: Seq<char>,
    pub entity_name: Seq<char>,
    pub attribute_id: Seq<char>,
    pub attribute_name: Seq<char>,
    pub value: DoubleView,
    pub min: DoubleView,
    pub max: DoubleView,
}

impl View for RollFactor {
    type V = FactorView;

    open spec fn view(&self) -> FactorView {
        FactorView {
            entity_id: self.entity_id@,
            entity_name: self.entity_name@,
            attribute_id: self.attribute_id@,
            attribute_name: self.attribute_name@,
            value: self.value@,
            min: self.min@,
            max: self.max@,
        }
    }
}

impl DeepView for RollFactor {
    type V = FactorView;

    open spec fn deep_view(&self) -> FactorView {
        self@
    }
}

impl RollFactor {
    /// The same row.
    pub fn copy(&self) -> (r: RollFactor)
        ensures
            r@ == self@,
    {
        RollFactor {
            entity_id: self.entity_id.clone(),
            entity_name: self.entity_name.clone(),
            attribute_id: self.attribute_id.clone(),
            attribute_name: self.attribute_name.clone(),
            value: self.value.copy(),
            min: self.min.copy(),
            max: self.max.copy(),
        }
    }
}

impl Copied for RollFactor {
    fn copied(&self) -> (r: RollFactor) {
        self.copy()
    }
}

/// How a check came out.
#[derive(Debug, PartialEq)]
pub struct RollOutcome {
    pub chance_percent: u8,
    pub seed: i64,
    pub roll: i64,
    pub needed: i64,
    pub outcome: &'static str,
}

/// What a `RollOutcome` stands for.
#[verifier::ext_equal]
pub struct OutcomeView {
    pub chance_percent: u8,
    pub seed: i64,
    pub roll: i64,
    pub needed: i64,
    pub outcome: Seq<char>,
}

impl View for RollOutcome {
    type V = OutcomeView;

    open spec fn view(&self) -> OutcomeView {
        OutcomeView {
            chance_percent: self.chance_percent,
            seed: self.seed,
            roll: self.roll,
            needed: self.needed,
            outcome: self.outcome@,
        }
    }
}

/// The number from `low` up to, not including, `high` that `rand`'s `StdRng` draws first when it
/// is seeded with a number.
pub uninterp spec fn drawn(seed: u64, low: i64, high: i64) -> i64;

/// `rand::random`: a number by chance, of which nothing is stated.
#[verifier::external_body]
fn random_seed() -> u32 {
    rand::random()
}

/// `rand::Rng::gen_range` on `rand::rngs::StdRng`, seeded by `rand::SeedableRng::seed_from_u64`:
/// the generator is deterministic, so the draw is a function of the seed and the range, and
/// lies in the range. Which number it is is not stated.
#[verifier::external_body]
fn draw(seed: u64, low: i64, high: i64) -> (r: i64)
    requires
        low < high,
    ensures
        r == drawn(seed, low, high),
        low <= r < high,
{
    let mut rng: rand::rngs::StdRng = rand::SeedableRng::seed_from_u64(seed);
    rand::Rng::gen_range(&mut rng, low..high)
}

/// How a check with a chance comes out when a number was drawn by a seed.
pub open spec fn rolled(chance_percent: u8, seed: i64, roll: i64) -> OutcomeView {
    OutcomeView {
        chance_percent,
        seed,
        roll,
        needed: (100 - chance_percent) as i64,
        outcome: if roll >= 100 - chance_percent {
            SUCCESS@
        } else {
            FAILURE@
        },
    }
}

/// How a check with a chance comes out when a number was drawn by a seed: it comes off
/// where the number reaches what the chance leaves to a hundred.
pub fn judge_roll(chance_percent: u8, seed: i64, roll: i64) -> (r: RollOutcome)
    requires
        chance_percent <= 100,
    ensures
        r@ == rolled(chance_percent, seed, roll),
{
    let needed: i64 = 100 - chance_percent as i64;
    RollOutcome {
        chance_percent,
        seed,
        roll,
        needed,
        outcome: if roll >= needed {
            SUCCESS
        } else {
            FAILURE
        },
    }
}

/// Whether an outcome is one that a check with a chance can have: the number is the one that
/// its seed draws.
pub open spec fn possible_outcome(chance_percent: u8, outcome: OutcomeView) -> bool {
    &&& 0 <= outcome.seed <= u32::MAX
    &&& outcome == rolled(chance_percent, outcome.seed, drawn(outcome.seed as u64, 0, 100))
    &&& 0 <= outcome.roll < 100
}

/// Rolls a check: a seed by chance, the number that it draws, and how the check comes out. The
/// seed draws the same number again.
pub fn resolve_roll(chance_percent: u8) -> (r: RollOutcome)
    requires
        chance_percent <= 100,
    ensures
        possible_outcome(chance_percent, r@),
{
    let seed: u32 = random_seed();
    let roll: i64 = draw(seed as u64, 0, 100);
    judge_roll(chance_percent, seed as i64, roll)
}

/// A check without a chance never comes off, and one with a chance of a hundred always does.
pub proof fn law_certain_rolls(outcome: OutcomeView)
    ensures
        possible_outcome(0, outcome) ==> outcome.outcome == FAILURE@ && outcome.needed == 100,
        possible_outcome(100, outcome) ==> outcome.outcome == SUCCESS@ && outcome.needed == 0,
{
}

/// A check comes off exactly where the number that was drawn reaches what is needed, and it
/// does so for as many of the hundred numbers as its chance says.
pub proof fn law_success_iff_needed(chance_percent: u8, outcome: OutcomeView)
    requires
        chance_percent <= 100,
        possible_outcome(chance_percent, outcome),
    ensures
        outcome.outcome == SUCCESS@ <==> outcome.roll >= outcome.needed,
        100 - outcome.needed == chance_percent,
{
    reveal_strlit("success");
    reveal_strlit("failure");
    assert(SUCCESS@[0] == 's');
    assert(FAILURE@[0] == 'f');
}

/// The condition of being the entity with an identifier.
pub open spec fn is_entity(id: Seq<char>) -> spec_fn(EntityView) -> bool {
    |e: EntityView| e.id == id
}

/// The condition of being the value that an attribute's name stands for: that of the attribute
/// which is known by the name, or one of that name where none is.
pub open spec fn named_value(known: Option<RegistryView>, name: Seq<char>) -> spec_fn(AttributeValueView) -> bool {
    |v: AttributeValueView|
        match known {
            Some(attribute) => attribute.id == v.attribute_id,
            None => text::same_ignoring_case(v.canonical_name, name),
        }
}

/// Whether a value lies on a scale that has an extent.
pub open spec fn sound(value: DoubleView, min: DoubleView, max: DoubleView) -> bool {
    &&& double::finite(value.bits)
    &&& double::finite(min.bits)
    &&& double::finite(max.bits)
    &&& double::below(min.bits, max.bits)
    &&& !double::below(value.bits, min.bits)
    &&& !double::below(max.bits, value.bits)
}

/// Whether a value lies on a scale that has an extent.
pub fn is_sound(value: &Double, min: &Double, max: &Double) -> (r: bool)
    ensures
        r == sound(value@, min@, max@),
{
    value.is_finite() && min.is_finite() && max.is_finite() && min.is_below(max) && !value.is_below(
        min,
    ) && !max.is_below(value)
}

/// What a factor of a check reads in a story, or why it cannot be read.
pub open spec fn factor_of(store: StoreView, story_id: Seq<char>, entity_id: Seq<char>, attribute_name: Seq<char>) -> Result<
    FactorView,
    ErrorView,
> {
    match rows::first_where(
        repository::listed_entities(store, story_id, None),
        is_entity(entity_id),
    ) {
        None => Err(ErrorView::NotFound("entity "@ + entity_id + " not found in this story"@)),
        Some(entity) => match rows::first_where(
            attributes::listed_values(store, story_id, entity_id),
            named_value(registry::exact_match(store.registry, attribute_name), attribute_name),
        ) {
            None => Err(
                ErrorView::NotFound(
                    "attribute "@ + attribute_name + " is not set on "@ + entity.name,
                ),
            ),
            Some(value) => if !sound(value.value, value.min, value.max) {
                Err(
                    ErrorView::Invalid(
                        "invalid value or range for "@ + entity.name + "'s "@
                            + value.canonical_name,
                    ),
                )
            } else {
                Ok(
                    FactorView {
                        entity_id: entity.id,
                        entity_name: entity.name,
                        attribute_id: value.attribute_id,
                        attribute_name: value.canonical_name,
                        value: value.value,
                        min: value.min,
                        max: value.max,
                    },
                )
            },
        },
    }
}

/// Where the entity with an identifier stands in a list.
pub fn listed_position(entities: &Vec<crate::entities::model::Entity>, id: &str) -> (r: Option<usize>)
    ensures
        match r {
            Some(i) => i < entities@.len() && rows::first_where(entities.deep_view(), is_entity(id@))
                == Some(entities@[i as int]@),
            None => rows::first_where(entities.deep_view(), is_entity(id@)) is None,
        },
{
    let ghost p = is_entity(id@);
    let meant = |row: &crate::entities::model::Entity| -> (b: bool)
        ensures
            b == p(row.deep_view()),
    {
        text::same_text(row.id.as_str(), id)
    };
    rows::position(entities, meant, Ghost(p))
}

fn value_position(
    values: &Vec<EntityAttributeValue>,
    known: &Option<crate::entities::model::AttributeRegistryEntry>,
    name: &str,
) -> (r: Option<usize>)
    ensures
        match r {
            Some(i) => i < values@.len() && rows::first_where(
                values.deep_view(),
                named_value(known.deep_view(), name@),
            ) == Some(values@[i as int]@),
            None => rows::first_where(values.deep_view(), named_value(known.deep_view(), name@)) is None,
        },
{
    let ghost p = named_value(known.deep_view(), name@);
    let meant = |row: &EntityAttributeValue| -> (b: bool)
        ensures
            b == p(row.deep_view()),
    {
        match known {
            Some(attribute) => attribute.id == row.attribute_id,
            None => text::eq_ignore_ascii_case(row.canonical_name.as_str(), name),
        }
    };
    rows::position(values, meant, Ghost(p))
}

/// What a factor of a check reads in a story.
pub fn factor_reading(store: &Store, story_id: &str, entity_id: &str, attribute_name: &str) -> (r: AppResult<RollFactor>)
    ensures
        match factor_of(store@, story_id@, entity_id@, attribute_name@) {
            Ok(factor) => r is Ok && r->Ok_0@ == factor,
            Err(e) => r is Err && r->Err_0@ == e,
        },
{
    let entities = repository::list_entities_sync(store, story_id, None);
    let entity = match listed_position(&entities, entity_id) {
        Some(i) => &entities[i],
        None => {
            return Err(
                AppError::NotFound(text::concat3("entity ", entity_id, " not found in this story")),
            );
        },
    };
    let known = registry::find_exact_match(store, attribute_name);
    let values = attributes::list_entity_attributes_sync(store, story_id, entity_id);
    let value = match value_position(&values, &known, attribute_name) {
        Some(i) => &values[i],
        None => {
            return Err(
                AppError::NotFound(
                    text::concat4(
                        "attribute ",
                        attribute_name,
                        " is not set on ",
                        entity.name.as_str(),
                    ),
                ),
            );
        },
    };
    if !is_sound(&value.value, &value.min, &value.max) {
        return Err(
            AppError::Invalid(
                text::concat4(
                    "invalid value or range for ",
                    entity.name.as_str(),
                    "'s ",
                    value.canonical_name.as_str(),
                ),
            ),
        );
    }
    Ok(
        RollFactor {
            entity_id: entity.id.clone(),
            entity_name: entity.name.clone(),
            attribute_id: value.attribute_id.clone(),
            attribute_name: value.canonical_name.clone(),
            value: value.value.copy(),
            min: value.min.copy(),
            max: value.max.copy(),
        },
    )
}

/// What a check is asked for with.
#[derive(Debug, PartialEq)]
pub struct RollRequest {
    pub chance_percent: Option<u8>,
    pub reason: Option<String>,
    pub references: Vec<(String, String)>,
}

/// What a `RollRequest` stands for.
#[verifier::ext_equal]
pub struct RequestView {
    pub chance_percent: Option<u8>,
    pub reason: Option<Seq<char>>,
    pub references: Seq<(Seq<char>, Seq<char>)>,
}

impl View for RollRequest {
    type V = RequestView;

    open spec fn view(&self) -> RequestView {
        RequestView {
            chance_percent: self.chance_percent,
            reason: self.reason.deep_view(),
            references: self.references.deep_view(),
        }
    }
}

/// Whether a check can be asked for with a field of that name.
pub open spec fn roll_field(name: Seq<char>) -> bool {
    name == "chance_percent"@ || name == "reason"@ || name == "factors"@
}

/// The chance that is asked for.
pub open spec fn chance_asked(args: JsonView) -> Result<Option<u8>, Seq<char>> {
    match json::field(args, "chance_percent"@) {
        None => Ok(None),
        Some(JsonView::Number(JsonNumberView::Unsigned(n))) => if n <= 100 {
            Ok(Some(n as u8))
        } else {
            Err("chance_percent must be an integer from 0 to 100"@)
        },
        Some(_) => Err("chance_percent must be an integer from 0 to 100"@),
    }
}

/// The reason that is given.
pub open spec fn reason_given(args: JsonView) -> Result<Option<Seq<char>>, Seq<char>> {
    match json::field(args, "reason"@) {
        None => Ok(None),
        Some(JsonView::Null) => Ok(None),
        Some(JsonView::Str(s)) => Ok(text::non_blank(Some(s))),
        Some(_) => Err("reason must be a string"@),
    }
}

/// The factors that are named, as they stand in the arguments.
pub open spec fn factors_named(args: JsonView) -> Result<Seq<JsonView>, Seq<char>> {
    match json::field(args, "factors"@) {
        None => Ok(Seq::empty()),
        Some(JsonView::Array(items)) => if items.len() <= 2 {
            Ok(items)
        } else {
            Err("factors must be an array of at most two entity-attribute references"@)
        },
        Some(_) => Err("factors must be an array of at most two entity-attribute references"@),
    }
}

/// The text of a field that is not blank.
pub open spec fn filled_field(v: JsonView, name: Seq<char>) -> Option<Seq<char>> {
    match json::text_field(v, name) {
        Some(s) => if text::blank(s) {
            None
        } else {
            Some(s)
        },
        None => None,
    }
}

/// The entity and the attribute that a factor names.
pub open spec fn reference_of(v: JsonView) -> Result<(Seq<char>, Seq<char>), Seq<char>> {
    match v {
        JsonView::Object(fields) => if fields.len() != 2 {
            Err("each factor requires only entity_id and attribute_name"@)
        } else {
            match filled_field(v, "entity_id"@) {
                None => Err("factor entity_id is required"@),
                Some(entity_id) => match filled_field(v, "attribute_name"@) {
                    None => Err("factor attribute_name is required"@),
                    Some(attribute_name) => Ok((entity_id, attribute_name)),
                },
            }
        },
        _ => Err("each factor must be an object"@),
    }
}

/// The entities and the attributes that factors name.
pub open spec fn references_of(items: Seq<JsonView>) -> Result<Seq<(Seq<char>, Seq<char>)>, Seq<char>>
    decreases items.len(),
{
    if items.len() == 0 {
        Ok(Seq::empty())
    } else {
        match references_of(items.drop_last()) {
            Err(e) => Err(e),
            Ok(found) => match reference_of(items.last()) {
                Err(e) => Err(e),
                Ok(reference) => Ok(found.push(reference)),
            },
        }
    }
}

/// Whether an object has a field that a check cannot be asked for with.
pub open spec fn strange_field(fields: Seq<(Seq<char>, JsonView)>) -> bool {
    exists|i: int| 0 <= i < fields.len() && !roll_field((#[trigger] fields[i]).0)
}

/// What the arguments ask for, or what is wrong with them.
pub open spec fn request_of(args: JsonView) -> Result<RequestView, Seq<char>> {
    match args {
        JsonView::Object(fields) => if strange_field(fields) {
            Err("roll_check accepts only chance_percent, reason, and factors"@)
        } else {
            match chance_asked(args) {
                Err(e) => Err(e),
                Ok(chance_percent) => match reason_given(args) {
                    Err(e) => Err(e),
                    Ok(reason) => match factors_named(args) {
                        Err(e) => Err(e),
                        Ok(items) => match references_of(items) {
                            Err(e) => Err(e),
                            Ok(references) => if references.len() > 0 && chance_percent is Some {
                                Err("chance_percent cannot be supplied with attribute factors"@)
                            } else {
                                Ok(RequestView { chance_percent, reason, references })
                            },
                        },
                    },
                },
            }
        },
        _ => Err("roll_check expects an object"@),
    }
}

fn has_strange_field(fields: &Vec<(String, Json)>, args: &Json) -> (r: bool)
    requires
        *args == Json::Object(*fields),
    ensures
        r == strange_field(args@->Object_0),
{
    let ghost seen = args@->Object_0;
    let mut i: usize = 0;
    while i < fields.len()
        invariant
            0 <= i <= fields@.len(),
            *args == Json::Object(*fields),
            seen == args@->Object_0,
            forall|k: int| 0 <= k < i ==> roll_field((#[trigger] seen[k]).0),
        decreases fields@.len() - i,
    {
        assert(seen[i as int].0 == fields@[i as int].0@);
        let name = fields[i].0.as_str();
        if !text::same_text(name, "chance_percent") && !text::same_text(name, "reason")
            && !text::same_text(name, "factors") {
            return true;
        }
        i += 1;
    }
    false
}

/// The text of a field that is not blank.
pub fn filled<'a>(v: &'a Json, name: &str) -> (r: Option<&'a str>)
    ensures
        r.deep_view() == filled_field(v@, name@),
{
    match v.str_field(name) {
        Some(s) => if text::is_blank(s) {
            None
        } else {
            Some(s)
        },
        None => None,
    }
}

fn read_reference(v: &Json) -> (r: Result<(String, String), &'static str>)
    ensures
        match reference_of(v@) {
            Ok(reference) => r is Ok && r->Ok_0.deep_view() == reference,
            Err(e) => r is Err && r->Err_0@ == e,
        },
{
    match v {
        Json::Object(fields) => {
            assert(v@->Object_0.len() == fields@.len());
            if fields.len() != 2 {
                return Err("each factor requires only entity_id and attribute_name");
            }
            match filled(v, "entity_id") {
                None => Err("factor entity_id is required"),
                Some(entity_id) => match filled(v, "attribute_name") {
                    None => Err("factor attribute_name is required"),
                    Some(attribute_name) => Ok((entity_id.to_string(), attribute_name.to_string())),
                },
            }
        },
        _ => Err("each factor must be an object"),
    }
}

fn read_references(args: &Json, items: &Vec<Json>) -> (r: Result<Vec<(String, String)>, &'static str>)
    requires
        *args == Json::Array(*items),
    ensures
        match references_of(args@->Array_0) {
            Ok(references) => r is Ok && r->Ok_0.deep_view() == references,
            Err(e) => r is Err && r->Err_0@ == e,
        },
{
    let ghost all = args@->Array_0;
    let mut out: Vec<(String, String)> = Vec::new();
    let mut i: usize = 0;
    proof {
        assert(out.deep_view() =~= Seq::empty());
    }
    while i < items.len()
        invariant
            0 <= i <= items@.len(),
            *args == Json::Array(*items),
            all == args@->Array_0,
            all.len() == items@.len(),
            references_of(all.take(i as int)) == Ok::<Seq<(Seq<char>, Seq<char>)>, Seq<char>>(
                out.deep_view(),
            ),
        decreases items@.len() - i,
    {
        proof {
            assert(all[i as int] == items@[i as int]@);
            assert(all.take(i + 1).drop_last() =~= all.take(i as int));
            assert(all.take(i + 1).last() == all[i as int]);
        }
        match read_reference(&items[i]) {
            Ok(reference) => {
                let ghost before = out;
                let ghost value = reference;
                out.push(reference);
                proof {
                    rows::lemma_deep_push(before, out, value);
                }
            },
            Err(e) => {
                proof {
                    lemma_first_error(all, i as int);
                }
                return Err(e);
            },
        }
        i += 1;
    }
    proof {
        rows::lemma_take_all(all);
    }
    Ok(out)
}

proof fn lemma_first_error(items: Seq<JsonView>, i: int)
    requires
        0 <= i < items.len(),
        references_of(items.take(i)) is Ok,
        reference_of(items[i]) is Err,
    ensures
        references_of(items) == Err::<Seq<(Seq<char>, Seq<char>)>, Seq<char>>(
            reference_of(items[i])->Err_0,
        ),
    decreases items.len(),
{
    if i == items.len() - 1 {
        assert(items.drop_last() =~= items.take(i));
    } else {
        let t = items.drop_last();
        assert(t.take(i) =~= items.take(i));
        lemma_first_error(t, i);
    }
}

/// What the arguments of a check ask for.
pub fn roll_request(args: &Json) -> (r: Result<RollRequest, &'static str>)
    ensures
        match request_of(args@) {
            Ok(request) => r is Ok && r->Ok_0@ == request,
            Err(e) => r is Err && r->Err_0@ == e,
        },
{
    match args {
        Json::Object(fields) => {
            if has_strange_field(fields, args) {
                return Err("roll_check accepts only chance_percent, reason, and factors");
            }
        },
        _ => {
            return Err("roll_check expects an object");
        },
    }
    let chance_percent: Option<u8> = match args.get("chance_percent") {
        None => None,
        Some(Json::Number(JsonNumber::Unsigned(n))) => {
            if *n > 100 {
                return Err("chance_percent must be an integer from 0 to 100");
            }
            Some(*n as u8)
        },
        Some(_) => {
            return Err("chance_percent must be an integer from 0 to 100");
        },
    };
    let reason = match args.get("reason") {
        None => None,
        Some(Json::Null) => None,
        Some(Json::Str(s)) => repository::described(Some(s.as_str())),
        Some(_) => {
            return Err("reason must be a string");
        },
    };
    let references = match args.get("factors") {
        None => {
            let none: Vec<(String, String)> = Vec::new();
            assert(none.deep_view() =~= Seq::empty());
            none
        },
        Some(named) => match named {
            Json::Array(items) => {
                assert(named@->Array_0.len() == items@.len());
                if items.len() > 2 {
                    return Err(
                        "factors must be an array of at most two entity-attribute references",
                    );
                }
                match read_references(named, items) {
                    Ok(references) => references,
                    Err(e) => {
                        return Err(e);
                    },
                }
            },
            _ => {
                return Err("factors must be an array of at most two entity-attribute references");
            },
        },
    };
    assert(references.deep_view().len() == references@.len());
    if references.len() > 0 && chance_percent.is_some() {
        return Err("chance_percent cannot be supplied with attribute factors");
    }
    Ok(RollRequest { chance_percent, reason, references })
}

/// The value that a factor is written as.
pub open spec fn factor_value(factor: FactorView) -> JsonView {
    JsonView::Object(
        seq![
            ("attribute_id"@, JsonView::Str(factor.attribute_id)),
            ("attribute_name"@, JsonView::Str(factor.attribute_name)),
            ("entity_id"@, JsonView::Str(factor.entity_id)),
            ("entity_name"@, JsonView::Str(factor.entity_name)),
            ("max"@, json::double_value(factor.max)),
            ("min"@, json::double_value(factor.min)),
            ("value"@, json::double_value(factor.value)),
        ],
    )
}

/// The payload that a check is written with, and that the narrator is given.
pub open spec fn roll_payload_of(
    outcome: OutcomeView,
    reason: Option<Seq<char>>,
    chance_source: Option<Seq<char>>,
    factors: Seq<FactorView>,
) -> JsonView {
    JsonView::Object(
        seq![
            ("chance_percent"@, json::int_value(outcome.chance_percent as i64)),
            ("chance_source"@, json::optional_text(chance_source)),
            ("factors"@, JsonView::Array(factors.map_values(|f: FactorView| factor_value(f)))),
            ("needed"@, json::int_value(outcome.needed)),
            ("outcome"@, JsonView::Str(outcome.outcome)),
            ("reason"@, json::optional_text(reason)),
            ("roll"@, json::int_value(outcome.roll)),
            ("seed"@, json::int_value(outcome.seed)),
        ],
    )
}

/// A check as it is written down.
#[derive(Debug, PartialEq)]
pub struct RollPayload {
    pub chance_percent: u8,
    pub roll: i64,
    pub needed: i64,
    pub outcome: &'static str,
    pub reason: Option<String>,
    pub chance_source: Option<&'static str>,
    pub factors: Vec<RollFactor>,
    pub seed: i64,
}

fn factor_json(factor: &RollFactor) -> (r: Json)
    ensures
        r@ == factor_value(factor@),
{
    let mut fields: Vec<(String, Json)> = Vec::new();
    fields.push(json::pair("attribute_id", json::of_text(factor.attribute_id.as_str())));
    fields.push(json::pair("attribute_name", json::of_text(factor.attribute_name.as_str())));
    fields.push(json::pair("entity_id", json::of_text(factor.entity_id.as_str())));
    fields.push(json::pair("entity_name", json::of_text(factor.entity_name.as_str())));
    fields.push(json::pair("max", json::of_double(&factor.max)));
    fields.push(json::pair("min", json::of_double(&factor.min)));
    fields.push(json::pair("value", json::of_double(&factor.value)));
    let r = Json::Object(fields);
    assert(r@->Object_0 =~= factor_value(factor@)->Object_0);
    r
}

impl RollPayload {
    /// How the check came out.
    pub open spec fn outcome_view(&self) -> OutcomeView {
        OutcomeView {
            chance_percent: self.chance_percent,
            seed: self.seed,
            roll: self.roll,
            needed: self.needed,
            outcome: self.outcome@,
        }
    }

    /// The value that the check is written as: exactly eight fields.
    pub fn to_json(&self) -> (r: Json)
        ensures
            r@ == roll_payload_of(
                self.outcome_view(),
                self.reason.deep_view(),
                self.chance_source.deep_view(),
                self.factors.deep_view(),
            ),
    {
        let mut factors: Vec<Json> = Vec::new();
        let mut i: usize = 0;
        while i < self.factors.len()
            invariant
                0 <= i <= self.factors@.len(),
                factors@.len() == i,
                forall|k: int|
                    0 <= k < i ==> (#[trigger] factors@[k])@ == factor_value(self.factors@[k]@),
            decreases self.factors@.len() - i,
        {
            factors.push(factor_json(&self.factors[i]));
            i += 1;
        }
        let written = Json::Array(factors);
        assert(written@->Array_0 =~= self.factors.deep_view().map_values(
            |f: FactorView| factor_value(f),
        ));
        let mut fields: Vec<(String, Json)> = Vec::new();
        fields.push(json::pair("chance_percent", json::of_int(self.chance_percent as i64)));
        fields.push(
            json::pair(
                "chance_source",
                match self.chance_source {
                    Some(source) => json::of_text(source),
                    None => Json::Null,
                },
            ),
        );
        fields.push(json::pair("factors", written));
        fields.push(json::pair("needed", json::of_int(self.needed)));
        fields.push(json::pair("outcome", json::of_text(self.outcome)));
        fields.push(json::pair("reason", json::of_option(&self.reason)));
        fields.push(json::pair("roll", json::of_int(self.roll)));
        fields.push(json::pair("seed", json::of_int(self.seed)));
        let r = Json::Object(fields);
        assert(r@->Object_0 =~= roll_payload_of(
            self.outcome_view(),
            self.reason.deep_view(),
            self.chance_source.deep_view(),
            self.factors.deep_view(),
        )->Object_0);
        r
    }
}

/// The sentence that a check is written with.
pub open spec fn roll_sentence(outcome: OutcomeView) -> Seq<char> {
    "Dice-roll outcome: rolled "@ + text::signed_decimal(outcome.roll as int) + " with "@ + text::decimal(
        outcome.chance_percent as nat,
    ) + "% chance and got "@ + outcome.outcome + "."@
}

/// The sentence that a check is written with.
pub fn roll_content(outcome: &RollOutcome) -> (r: String)
    ensures
        r@ == roll_sentence(outcome@),
{
    let roll = text::int_text(outcome.roll);
    let chance = text::nat_text(outcome.chance_percent as u64);
    let mut r = text::concat5(
        "Dice-roll outcome: rolled ",
        roll.as_str(),
        " with ",
        chance.as_str(),
        "% chance and got ",
    );
    r.append(outcome.outcome);
    r.append(".");
    r
}

/// What the factors of a check read, or why one of them cannot be read.
pub open spec fn readings_of(store: StoreView, story_id: Seq<char>, references: Seq<(Seq<char>, Seq<char>)>) -> Result<
    Seq<FactorView>,
    ErrorView,
>
    decreases references.len(),
{
    if references.len() == 0 {
        Ok(Seq::empty())
    } else {
        match readings_of(store, story_id, references.drop_last()) {
            Err(e) => Err(e),
            Ok(found) => match factor_of(store, story_id, references.last().0, references.last().1) {
                Err(e) => Err(e),
                Ok(factor) => Ok(found.push(factor)),
            },
        }
    }
}

proof fn lemma_first_unreadable(store: StoreView, story_id: Seq<char>, references: Seq<(Seq<char>, Seq<char>)>, i: int)
    requires
        0 <= i < references.len(),
        readings_of(store, story_id, references.take(i)) is Ok,
        factor_of(store, story_id, references[i].0, references[i].1) is Err,
    ensures
        readings_of(store, story_id, references) == Err::<Seq<FactorView>, ErrorView>(
            factor_of(store, story_id, references[i].0, references[i].1)->Err_0,
        ),
    decreases references.len(),
{
    if i == references.len() - 1 {
        assert(references.drop_last() =~= references.take(i));
    } else {
        let t = references.drop_last();
        assert(t.take(i) =~= references.take(i));
        lemma_first_unreadable(store, story_id, t, i);
    }
}

/// What the factors of a check read.
pub fn read_factors(store: &Store, story_id: &str, references: &Vec<(String, String)>) -> (r: AppResult<Vec<RollFactor>>)
    ensures
        match readings_of(store@, story_id@, references.deep_view()) {
            Ok(factors) => r is Ok && r->Ok_0.deep_view() == factors,
            Err(e) => r is Err && r->Err_0@ == e,
        },
{
    let ghost all = references.deep_view();
    let mut out: Vec<RollFactor> = Vec::new();
    let mut i: usize = 0;
    proof {
        assert(out.deep_view() =~= Seq::empty());
    }
    while i < references.len()
        invariant
            0 <= i <= references@.len(),
            all == references.deep_view(),
            readings_of(store@, story_id@, all.take(i as int)) == Ok::<Seq<FactorView>, ErrorView>(
                out.deep_view(),
            ),
        decreases references@.len() - i,
    {
        proof {
            assert(all[i as int] == references@[i as int].deep_view());
            assert(all.take(i + 1).drop_last() =~= all.take(i as int));
            assert(all.take(i + 1).last() == all[i as int]);
        }
        match factor_reading(store, story_id, references[i].0.as_str(), references[i].1.as_str()) {
            Ok(factor) => {
                let ghost before = out;
                let ghost value = factor;
                out.push(factor);
                proof {
                    rows::lemma_deep_push(before, out, value);
                }
            },
            Err(e) => {
                proof {
                    lemma_first_unreadable(store@, story_id@, all, i as int);
                }
                return Err(e);
            },
        }
        i += 1;
    }
    proof {
        rows::lemma_take_all(all);
    }
    Ok(out)
}

/// Where the chance of a check comes from.
pub open spec fn chance_source_of(request: RequestView) -> Seq<char> {
    if request.references.len() > 0 {
        "attributes"@
    } else if request.chance_percent is Some {
        "narrator"@
    } else {
        "default"@
    }
}

/// The chance of a check that rests on no factor: the one that was asked for, or even odds.
pub open spec fn plain_chance(request: RequestView) -> u8 {
    match request.chance_percent {
        Some(chance) => chance,
        None => 50,
    }
}

/// Whether a chance is that of a check: what the arithmetic gives of its factors, or the plain one
/// where it rests on none.
pub open spec fn chance_for<F: Fn(Vec<RollFactor>) -> u8>(
    chance_of: &F,
    request: RequestView,
    factors: Seq<FactorView>,
    chance: u8,
) -> bool {
    if factors.len() == 0 {
        chance == plain_chance(request)
    } else {
        exists|given: Vec<RollFactor>|
            given.deep_view() == factors && #[trigger] call_ensures(chance_of, (given,), chance)
    }
}

/// The chance of a check, and where it comes from. What the factors give is `chance_of`'s arithmetic.
pub fn check_chance<F: Fn(Vec<RollFactor>) -> u8>(request: &RollRequest, factors: &Vec<RollFactor>, chance_of: &F) -> (r: (
    u8,
    &'static str,
))
    requires
        factors@.len() == request.references@.len(),
        forall|given: Vec<RollFactor>| call_requires(chance_of, (given,)),
    ensures
        chance_for(chance_of, request@, factors.deep_view(), r.0),
        r.1@ == chance_source_of(request@),
{
    assert(request@.references.len() == request.references@.len());
    if factors.len() == 0 {
        match request.chance_percent {
            Some(chance) => (chance, "narrator"),
            None => (50, "default"),
        }
    } else {
        let given = rows::copy_rows(factors);
        let ghost asked = given;
        let chance: u8 = chance_of(given);
        assert(call_ensures(chance_of, (asked,), chance));
        (chance, "attributes")
    }
}

/// The entry that a check is written to.
pub open spec fn roll_draft(
    story_id: Seq<char>,
    outcome: OutcomeView,
    reason: Option<Seq<char>>,
    chance_source: Seq<char>,
    factors: Seq<FactorView>,
    target_entry_id: Seq<char>,
    turn_id: Seq<char>,
) -> DraftView {
    DraftView {
        story_id,
        kind: kind::DICEROLL@,
        visibility: HIDDEN@,
        content: Some(roll_sentence(outcome)),
        payload: roll_payload_of(outcome, reason, Some(chance_source), factors),
        target_entry_id: Some(target_entry_id),
        turn_id: Some(turn_id),
    }
}

/// What a check comes to that was rolled: it is written down, and the narrator is given what
/// was written.
pub open spec fn roll_outcome_told(
    before: StoreView,
    after: StoreView,
    draft: DraftView,
    r: Result<Json, ToolError>,
) -> bool {
    match r {
        Ok(output) => {
            let entry = after.entries.last();
            &&& output@ == draft.payload
            &&& after.entries.len() > 0
            &&& ledger::append_refusal(before, entry.id, draft) is None
            &&& entry == ledger::drafted_entry(before, entry.id, entry.created_at, draft)
            &&& after == ledger::appended(before, entry)
        },
        Err(e) => {
            &&& after == before
            &&& exists|why: ErrorView|
                #[trigger] ledger::append_failed(before, draft, why) && e@ == tool_error::argument_error(why)
        },
    }
}

/// Whether a check was refused, could not be rolled, or was rolled and written down, and what the
/// narrator is given.
pub open spec fn check_ended<F: Fn(Vec<RollFactor>) -> u8>(
    chance_of: &F,
    before: StoreView,
    after: StoreView,
    story_id: Seq<char>,
    target_entry_id: Seq<char>,
    turn_id: Seq<char>,
    args: JsonView,
    r: Result<Json, ToolError>,
) -> bool {
    match request_of(args) {
        Err(e) => {
            &&& r is Err
            &&& r->Err_0@ == ToolErrorView::InvalidArgs(e)
            &&& after == before
        },
        Ok(request) => match readings_of(before, story_id, request.references) {
            Err(e) => {
                &&& r is Err
                &&& r->Err_0@ == tool_error::argument_error(e)
                &&& after == before
            },
            Ok(factors) => exists|chance: u8, outcome: OutcomeView|
                #[trigger] possible_outcome(chance, outcome) && chance_for(chance_of, request, factors, chance)
                    && roll_outcome_told(
                    before,
                    after,
                    roll_draft(
                        story_id,
                        outcome,
                        request.reason,
                        chance_source_of(request),
                        factors,
                        target_entry_id,
                        turn_id,
                    ),
                    r,
                ),
        },
    }
}

/// Rolls a check and writes it down: with the chance that the factors give, which is
/// `chance_of`'s arithmetic, or with the one that was asked for.
pub fn roll_check<F: Fn(Vec<RollFactor>) -> u8>(
    store: &mut Store,
    story_id: &str,
    target_entry_id: &str,
    turn_id: &str,
    args: &Json,
    chance_of: &F,
) -> (r: Result<Json, ToolError>)
    requires
        forall|factors: Vec<RollFactor>| call_requires(chance_of, (factors,)),
        forall|factors: Vec<RollFactor>, chance: u8|
            call_ensures(chance_of, (factors,), chance) ==> chance <= 100,
    ensures
        check_ended(
            chance_of,
            old(store)@,
            final(store)@,
            story_id@,
            target_entry_id@,
            turn_id@,
            args@,
            r,
        ),
{
    let request = match roll_request(args) {
        Ok(request) => request,
        Err(e) => {
            return Err(ToolError::InvalidArgs(e.to_string()));
        },
    };
    let factors = match read_factors(store, story_id, &request.references) {
        Ok(factors) => factors,
        Err(e) => {
            return Err(tool_error::to_argument_error(e));
        },
    };
    proof {
        lemma_readings_len(store@, story_id@, request@.references);
        assert(factors.deep_view().len() == factors@.len());
        assert(request@.references.len() == request.references@.len());
    }
    let (chance, chance_source): (u8, &'static str) = check_chance(&request, &factors, chance_of);
    proof {
        lemma_request_chance(args@);
    }
    let output = resolve_roll(chance);
    let content = roll_content(&output);
    let payload = RollPayload {
        chance_percent: output.chance_percent,
        roll: output.roll,
        needed: output.needed,
        outcome: output.outcome,
        reason: request.reason,
        chance_source: Some(chance_source),
        factors,
        seed: output.seed,
    };
    let written = payload.to_json();
    let draft = Draft {
        story_id,
        kind: kind::DICEROLL,
        visibility: HIDDEN,
        content: Some(content.as_str()),
        payload: &written,
        target_entry_id: Some(target_entry_id),
        turn_id: Some(turn_id),
    };
    assert(possible_outcome(chance, output@));
    match ledger::append_draft(store, &draft) {
        Ok(_) => Ok(written),
        Err(e) => Err(tool_error::to_argument_error(e)),
    }
}

pub(crate) proof fn lemma_readings_len(store: StoreView, story_id: Seq<char>, references: Seq<(Seq<char>, Seq<char>)>)
    ensures
        readings_of(store, story_id, references) is Ok ==> readings_of(store, story_id, references)->Ok_0.len()
            == references.len(),
    decreases references.len(),
{
    if references.len() > 0 {
        lemma_readings_len(store, story_id, references.drop_last());
    }
}

pub(crate) proof fn lemma_request_chance(args: JsonView)
    ensures
        request_of(args) is Ok && request_of(args)->Ok_0.chance_percent is Some
            ==> request_of(args)->Ok_0.chance_percent->0 <= 100,
{
}

/// What the player reads while a check is rolled.
pub open spec fn roll_label_of(args: JsonView) -> Seq<char> {
    "Rolling for "@ + (match json::text_field(args, "reason"@) {
        Some(reason) => reason,
        None => "a check"@,
    }) + "…"@
}

/// What the player reads while a check is rolled.
pub fn roll_check_label(args: &Json) -> (r: String)
    ensures
        r@ == roll_label_of(args@),
{
    text::concat3(
        "Rolling for ",
        match args.str_field("reason") {
            Some(reason) => reason,
            None => "a check",
        },
        "…",
    )
}

} // verus!
