//! Reconciling repository rulesets.

use vstd::prelude::*;
use vstd::string::*;

use crate::change::{add_change, change_views, creation, Change, ChangeView};
use crate::compare::{align, aligned, canonical, canonicalize, covered, covers};
use crate::config::{
    BypassActor, BypassMode, RefNameCondition, Rule, RulesetConditions, RulesetConfig,
};
use crate::github::Ruleset;
use crate::json::{
    clone_items, clone_object, compact, item_views, json_string_list, lemma_array_view,
    lemma_lookup_views, lemma_object_view, object_view, opt_json, put, string_array, Json, JsonView,
    Number, NumberView,
};
use crate::keymap::{lookup, with_entry, KeyMap};
use crate::text::texts;

verus! {

/// A planned change to one repository ruleset.
#[derive(Debug, Clone)]
pub struct RulesetPlan {
    pub name: String,
    /// `None` means the ruleset does not exist yet and must be created.
    pub id: Option<u64>,
    /// Full body for `POST /rulesets` or `PUT /rulesets/{id}`.
    pub body: Json,
    pub changes: Vec<Change>,
}

/// The model of a planned change to a ruleset.
pub struct RulesetPlanView {
    pub name: Seq<char>,
    pub id: Option<u64>,
    pub body: JsonView,
    pub changes: Seq<ChangeView>,
}

impl View for RulesetPlan {
    type V = RulesetPlanView;

    open spec fn view(&self) -> RulesetPlanView {
        RulesetPlanView {
            name: self.name@,
            id: self.id,
            body: self.body@,
            changes: change_views(self.changes@),
        }
    }
}

// --- Models -------------------------------------------------------------

/// An object without fields.
pub open spec fn no_fields() -> Seq<(Seq<char>, JsonView)> {
    Seq::empty()
}

/// The entries with `value` under `key`, or unchanged where there is none.
pub open spec fn with_optional(
    entries: Seq<(Seq<char>, JsonView)>,
    key: Seq<char>,
    value: Option<JsonView>,
) -> Seq<(Seq<char>, JsonView)> {
    match value {
        Some(v) => with_entry(entries, key, v),
        None => entries,
    }
}

/// The array of an optional list of values.
pub open spec fn opt_array(items: Option<Vec<Json>>) -> Option<JsonView> {
    match items {
        Some(i) => Some(JsonView::Array(item_views(i@))),
        None => None,
    }
}

/// The strings among some values, in their order.
pub open spec fn strings_in(items: Seq<JsonView>) -> Seq<Seq<char>>
    decreases items.len(),
{
    if items.len() == 0 {
        Seq::empty()
    } else {
        match items.last() {
            JsonView::String(s) => strings_in(items.drop_last()).push(s),
            _ => strings_in(items.drop_last()),
        }
    }
}

/// The strings of an array; `None` where the value is no array.
pub open spec fn string_list_of(value: JsonView) -> Option<Seq<Seq<char>>> {
    match value {
        JsonView::Array(items) => Some(strings_in(items)),
        _ => None,
    }
}

/// The value that GitHub gets for a bypass actor. The ID is sent for the types
/// of actor that are told apart by one; the mode defaults to `always`.
pub open spec fn actor_value(actor: BypassActor) -> JsonView {
    let typed = with_entry(
        no_fields(),
        "actor_type"@,
        JsonView::String(actor.actor_type.api_text()),
    );
    let identified = with_optional(
        typed,
        "actor_id"@,
        if actor.actor_type.identified() && actor.actor_id is Some {
            Some(JsonView::Number(NumberView::Int(actor.actor_id->0 as int)))
        } else {
            None
        },
    );
    let mode = match actor.bypass_mode {
        Some(m) => m,
        None => BypassMode::Always,
    };
    JsonView::Object(with_entry(identified, "bypass_mode"@, JsonView::String(mode.api_text())))
}

/// The value that GitHub gets for a rule: its type, and its parameters unless
/// there are none.
pub open spec fn rule_body(rule: Rule) -> JsonView {
    JsonView::Object(
        with_optional(
            with_entry(no_fields(), "type"@, JsonView::String(rule.rule_type@)),
            "parameters"@,
            match rule.parameters {
                Some(p) => if p@.len() > 0 {
                    Some(JsonView::Object(object_view(p)))
                } else {
                    None
                },
                None => None,
            },
        ),
    )
}

/// The array of the declared bypass actors.
pub open spec fn declared_actors(cfg: RulesetConfig) -> Option<JsonView> {
    match cfg.bypass_actors {
        Some(actors) => Some(JsonView::Array(actors@.map_values(|a: BypassActor| actor_value(a)))),
        None => None,
    }
}

/// The array of the declared rules.
pub open spec fn declared_rules(cfg: RulesetConfig) -> Option<JsonView> {
    match cfg.rules {
        Some(rules) => Some(JsonView::Array(rules@.map_values(|r: Rule| rule_body(r)))),
        None => None,
    }
}

/// The array of some declared ref patterns.
pub open spec fn declared_refs(refs: Option<Vec<String>>) -> Option<JsonView> {
    match refs {
        Some(r) => Some(string_array(texts(r@))),
        None => None,
    }
}

/// The declared sides of the `ref_name` condition.
pub open spec fn declared_ref_name(ref_name: RefNameCondition) -> JsonView {
    JsonView::Object(
        with_optional(
            with_optional(no_fields(), "include"@, declared_refs(ref_name.included)),
            "exclude"@,
            declared_refs(ref_name.excluded),
        ),
    )
}

/// The declared conditions. Without a `ref_name` they ask for nothing.
pub open spec fn declared_conditions(cfg: RulesetConfig) -> Option<JsonView> {
    match cfg.conditions {
        Some(conditions) => match conditions.ref_name {
            Some(ref_name) => Some(
                JsonView::Object(
                    with_entry(no_fields(), "ref_name"@, declared_ref_name(ref_name)),
                ),
            ),
            None => None,
        },
        None => None,
    }
}

/// One side of the `ref_name` condition: as declared, or else as it is live,
/// or else empty.
pub open spec fn ref_side(
    declared: Option<Vec<String>>,
    live_ref: Option<JsonView>,
    side: Seq<char>,
) -> Seq<Seq<char>> {
    match declared {
        Some(refs) => texts(refs@),
        None => match live_ref {
            Some(r) => match r.field(side) {
                Some(value) => match string_list_of(value) {
                    Some(refs) => refs,
                    None => Seq::empty(),
                },
                None => Seq::empty(),
            },
            None => Seq::empty(),
        },
    }
}

/// The live `ref_name` condition.
pub open spec fn live_ref_name(live: Option<JsonView>) -> Option<JsonView> {
    match live {
        Some(conditions) => conditions.field("ref_name"@),
        None => None,
    }
}

/// The declared conditions over the live ones. Where there is a `ref_name`
/// condition, declared or live, both of its sides are present.
pub open spec fn merged_conditions(
    conditions: RulesetConditions,
    live: Option<JsonView>,
) -> Seq<(Seq<char>, JsonView)> {
    let live_ref = live_ref_name(live);
    let included = match conditions.ref_name {
        Some(r) => r.included,
        None => None,
    };
    let excluded = match conditions.ref_name {
        Some(r) => r.excluded,
        None => None,
    };
    if conditions.ref_name is Some || live_ref is Some {
        with_entry(
            no_fields(),
            "ref_name"@,
            JsonView::Object(
                with_entry(
                    with_entry(
                        no_fields(),
                        "include"@,
                        string_array(ref_side(included, live_ref, "include"@)),
                    ),
                    "exclude"@,
                    string_array(ref_side(excluded, live_ref, "exclude"@)),
                ),
            ),
        )
    } else {
        no_fields()
    }
}

/// What the ruleset is to target: as declared, or else as it is live, or else
/// branches.
pub open spec fn target_text(cfg: RulesetConfig, current: Option<Ruleset>) -> Seq<char> {
    match cfg.target {
        Some(t) => t.api_text(),
        None => match current {
            Some(c) => match c.target {
                Some(t) => t@,
                None => "branch"@,
            },
            None => "branch"@,
        },
    }
}

/// How the ruleset is to be enforced: as declared, or else as it is live, or
/// else actively.
pub open spec fn enforcement_text(cfg: RulesetConfig, current: Option<Ruleset>) -> Seq<char> {
    match cfg.enforcement {
        Some(e) => e.api_text(),
        None => match current {
            Some(c) => c.enforcement@,
            None => "active"@,
        },
    }
}

/// The live conditions.
pub open spec fn live_conditions(current: Option<Ruleset>) -> Option<JsonView> {
    match current {
        Some(c) => opt_json(c.conditions),
        None => None,
    }
}

/// The conditions that are sent: the declared ones over the live ones, left
/// out where that is nothing, or the live ones where none were declared.
pub open spec fn sent_conditions(cfg: RulesetConfig, current: Option<Ruleset>) -> Option<JsonView> {
    match cfg.conditions {
        Some(c) => {
            let merged = merged_conditions(c, live_conditions(current));
            if merged.len() > 0 {
                Some(JsonView::Object(merged))
            } else {
                None
            }
        },
        None => live_conditions(current),
    }
}

/// The bypass actors that are sent: those declared, or else those that are
/// live.
pub open spec fn sent_actors(cfg: RulesetConfig, current: Option<Ruleset>) -> Option<JsonView> {
    match declared_actors(cfg) {
        Some(actors) => Some(actors),
        None => match current {
            Some(c) => opt_array(c.bypass_actors),
            None => None,
        },
    }
}

/// The rules that are sent: those declared, or else those that are live.
pub open spec fn sent_rules(cfg: RulesetConfig, current: Option<Ruleset>) -> Option<JsonView> {
    match declared_rules(cfg) {
        Some(rules) => Some(rules),
        None => match current {
            Some(c) => opt_array(c.rules),
            None => None,
        },
    }
}

/// The full ruleset that is sent on create or update.
pub open spec fn ruleset_body(
    name: Seq<char>,
    cfg: RulesetConfig,
    current: Option<Ruleset>,
) -> JsonView {
    let named = with_entry(no_fields(), "name"@, JsonView::String(name));
    let targeted = with_entry(named, "target"@, JsonView::String(target_text(cfg, current)));
    let enforced = with_entry(
        targeted,
        "enforcement"@,
        JsonView::String(enforcement_text(cfg, current)),
    );
    let conditioned = with_optional(enforced, "conditions"@, sent_conditions(cfg, current));
    let bypassed = with_optional(conditioned, "bypass_actors"@, sent_actors(cfg, current));
    JsonView::Object(with_optional(bypassed, "rules"@, sent_rules(cfg, current)))
}

/// The declared fields of a ruleset, for change detection.
pub open spec fn desired_ruleset(cfg: RulesetConfig) -> JsonView {
    let targeted = with_optional(
        no_fields(),
        "target"@,
        match cfg.target {
            Some(t) => Some(JsonView::String(t.api_text())),
            None => None,
        },
    );
    let enforced = with_optional(
        targeted,
        "enforcement"@,
        match cfg.enforcement {
            Some(e) => Some(JsonView::String(e.api_text())),
            None => None,
        },
    );
    let conditioned = with_optional(enforced, "conditions"@, declared_conditions(cfg));
    let bypassed = with_optional(conditioned, "bypass_actors"@, declared_actors(cfg));
    JsonView::Object(with_optional(bypassed, "rules"@, declared_rules(cfg)))
}

/// The managed fields of a live ruleset, for change detection.
pub open spec fn live_ruleset(current: Ruleset) -> JsonView {
    let targeted = with_optional(
        no_fields(),
        "target"@,
        match current.target {
            Some(t) => Some(JsonView::String(t@)),
            None => None,
        },
    );
    let enforced = with_entry(
        targeted,
        "enforcement"@,
        JsonView::String(current.enforcement@),
    );
    let conditioned = with_optional(enforced, "conditions"@, opt_json(current.conditions));
    let bypassed = with_optional(conditioned, "bypass_actors"@, opt_array(current.bypass_actors));
    JsonView::Object(with_optional(bypassed, "rules"@, opt_array(current.rules)))
}

/// How a value is shown in a difference.
pub open spec fn shown(value: JsonView) -> Seq<char> {
    match value {
        JsonView::String(text) => text,
        JsonView::Null => "null"@,
        _ => compact(value),
    }
}

/// The path of a field below `path`.
pub open spec fn below(path: Seq<char>, key: Seq<char>) -> Seq<char> {
    if path.len() == 0 {
        key
    } else {
        path + "."@ + key
    }
}

/// The differences between a declared value and a live one: one for each
/// declared field, however deep, that is missing or not covered.
pub open spec fn differences(
    scope: Seq<char>,
    path: Seq<char>,
    desired: JsonView,
    live: JsonView,
) -> Seq<ChangeView>
    decreases desired, 0nat,
{
    if covered(desired, live) {
        Seq::empty()
    } else {
        match (desired, live) {
            (JsonView::Object(wanted), JsonView::Object(found)) => field_differences(
                scope,
                path,
                wanted,
                found,
                wanted.len(),
            ),
            _ => seq![
                ChangeView { scope: scope, field: path, from: Some(shown(live)), to: shown(desired) },
            ],
        }
    }
}

/// The differences in the first `n` declared fields, in the order of the
/// fields.
pub open spec fn field_differences(
    scope: Seq<char>,
    path: Seq<char>,
    wanted: Seq<(Seq<char>, JsonView)>,
    found: Seq<(Seq<char>, JsonView)>,
    n: nat,
) -> Seq<ChangeView>
    decreases wanted, n,
{
    if n == 0 || n > wanted.len() {
        Seq::empty()
    } else {
        let (key, value) = wanted[n - 1];
        field_differences(scope, path, wanted, found, (n - 1) as nat) + match lookup(found, key) {
            Some(live) => differences(scope, below(path, key), value, live),
            None => seq![
                ChangeView { scope: scope, field: below(path, key), from: None, to: shown(value) },
            ],
        }
    }
}

/// The plan for one declared ruleset: its creation where there is none of that
/// name, an update where the live one does not cover what was declared, and
/// else nothing.
pub open spec fn planned_ruleset(
    key: Seq<char>,
    name: Seq<char>,
    cfg: RulesetConfig,
    current: Option<Ruleset>,
) -> Option<RulesetPlanView> {
    let scope = "rulesets."@ + key;
    match current {
        None => Some(
            RulesetPlanView {
                name: name,
                id: None,
                body: ruleset_body(name, cfg, current),
                changes: seq![creation(scope)],
            },
        ),
        Some(live) => {
            let desired = canonical(desired_ruleset(cfg));
            let found = aligned(desired, canonical(live_ruleset(live)));
            if covered(desired, found) {
                None
            } else {
                Some(
                    RulesetPlanView {
                        name: name,
                        id: Some(live.id),
                        body: ruleset_body(name, cfg, current),
                        changes: differences(scope, Seq::empty(), desired, found),
                    },
                )
            }
        },
    }
}

// --- Operations ----------------------------------------------------------

/// The strings of an array; `None` where the value is no array.
pub fn string_list(value: &Json) -> (strings: Option<Vec<String>>)
    ensures
        match strings {
            Some(s) => string_list_of(value@) == Some(texts(s@)),
            None => string_list_of(value@) is None,
        },
{
    match value.as_array() {
        Some(items) => {
            let mut strings: Vec<String> = Vec::new();
            let mut i: usize = 0;
            assert(texts(strings@) =~= strings_in(item_views(items@).take(0)));
            while i < items.len()
                invariant
                    i <= items@.len(),
                    texts(strings@) == strings_in(item_views(items@).take(i as int)),
                decreases items@.len() - i,
            {
                let ghost strings_before = strings@;
                proof {
                    let next = item_views(items@).take(i + 1);
                    assert(next.drop_last() =~= item_views(items@).take(i as int));
                    assert(next.last() == items@[i as int]@);
                }
                if let Some(text) = items[i].as_str() {
                    strings.push(text.to_owned());
                    assert(texts(strings@) =~= texts(strings_before).push(text@));
                }
                i = i + 1;
            }
            assert(item_views(items@).take(items@.len() as int) =~= item_views(items@));
            Some(strings)
        },
        None => None,
    }
}

/// One side of the `ref_name` condition.
fn merge_side(declared: Option<&Vec<String>>, live_ref: Option<&Json>, side: &str) -> (json: Json)
    ensures
        json@ == string_array(
            ref_side(
                match declared {
                    Some(refs) => Some(*refs),
                    None => None,
                },
                match live_ref {
                    Some(r) => Some(r@),
                    None => None,
                },
                side@,
            ),
        ),
{
    if let Some(refs) = declared {
        return json_string_list(refs);
    }
    if let Some(live) = live_ref {
        if let Some(value) = live.get(side) {
            if let Some(refs) = string_list(value) {
                return json_string_list(&refs);
            }
        }
    }
    let none: Vec<String> = Vec::new();
    assert(texts(none@) =~= Seq::empty());
    json_string_list(&none)
}

/// Merges declared conditions over the live ones, so that an update keeps
/// whichever of `include`/`exclude` was not declared.
///
/// GitHub requires both sides under `ref_name`, so whenever there is such a
/// condition the missing side defaults to an empty list instead of being
/// omitted.
pub fn merge_conditions(cfg: &RulesetConditions, current: Option<&Json>) -> (merged: KeyMap<Json>)
    ensures
        object_view(merged) == merged_conditions(
            *cfg,
            match current {
                Some(c) => Some(c@),
                None => None,
            },
        ),
{
    let live_ref = match current {
        Some(conditions) => conditions.get("ref_name"),
        None => None,
    };
    let mut merged: KeyMap<Json> = KeyMap::new();
    assert(object_view(merged) =~= no_fields());
    if cfg.ref_name.is_some() || live_ref.is_some() {
        let declared_in: Option<&Vec<String>> = match &cfg.ref_name {
            Some(r) => r.included.as_ref(),
            None => None,
        };
        let declared_ex: Option<&Vec<String>> = match &cfg.ref_name {
            Some(r) => r.excluded.as_ref(),
            None => None,
        };
        let mut sides: KeyMap<Json> = KeyMap::new();
        assert(object_view(sides) =~= no_fields());
        put(&mut sides, "include", merge_side(declared_in, live_ref, "include"));
        put(&mut sides, "exclude", merge_side(declared_ex, live_ref, "exclude"));
        proof {
            lemma_object_view(sides);
        }
        put(&mut merged, "ref_name", Json::Object(sides));
    }
    merged
}

/// The value that GitHub gets for a bypass actor.
pub fn bypass_actor_value(actor: &BypassActor) -> (value: Json)
    ensures
        value@ == actor_value(*actor),
{
    let mut map: KeyMap<Json> = KeyMap::new();
    assert(object_view(map) =~= no_fields());
    put(&mut map, "actor_type", Json::String(actor.actor_type.api_str().to_owned()));
    if actor.actor_type.needs_actor_id() {
        if let Some(id) = actor.actor_id {
            put(&mut map, "actor_id", Json::Number(Number::PosInt(id)));
        }
    }
    let mode = match actor.bypass_mode {
        Some(mode) => mode,
        None => BypassMode::Always,
    };
    put(&mut map, "bypass_mode", Json::String(mode.api_str().to_owned()));
    proof {
        lemma_object_view(map);
    }
    Json::Object(map)
}

/// The value that GitHub gets for a rule.
pub fn rule_value(rule: &Rule) -> (value: Json)
    ensures
        value@ == rule_body(*rule),
{
    let mut map: KeyMap<Json> = KeyMap::new();
    assert(object_view(map) =~= no_fields());
    put(&mut map, "type", Json::String(rule.rule_type.clone()));
    if let Some(parameters) = &rule.parameters {
        if !parameters.is_empty() {
            let copy = clone_object(parameters);
            proof {
                lemma_object_view(copy);
            }
            put(&mut map, "parameters", Json::Object(copy));
        }
    }
    proof {
        lemma_object_view(map);
    }
    Json::Object(map)
}

fn actor_values(actors: &Vec<BypassActor>) -> (value: Json)
    ensures
        value@ == JsonView::Array(actors@.map_values(|a: BypassActor| actor_value(a))),
{
    let mut items: Vec<Json> = Vec::new();
    let mut i: usize = 0;
    while i < actors.len()
        invariant
            i <= actors@.len(),
            items@.len() == i,
            forall|j: int| 0 <= j < i ==> (#[trigger] items@[j])@ == actor_value(actors@[j]),
        decreases actors@.len() - i,
    {
        items.push(bypass_actor_value(&actors[i]));
        i = i + 1;
    }
    proof {
        lemma_array_view(items);
        assert(item_views(items@) =~= actors@.map_values(|a: BypassActor| actor_value(a)));
    }
    Json::Array(items)
}

fn rule_values(rules: &Vec<Rule>) -> (value: Json)
    ensures
        value@ == JsonView::Array(rules@.map_values(|r: Rule| rule_body(r))),
{
    let mut items: Vec<Json> = Vec::new();
    let mut i: usize = 0;
    while i < rules.len()
        invariant
            i <= rules@.len(),
            items@.len() == i,
            forall|j: int| 0 <= j < i ==> (#[trigger] items@[j])@ == rule_body(rules@[j]),
        decreases rules@.len() - i,
    {
        items.push(rule_value(&rules[i]));
        i = i + 1;
    }
    proof {
        lemma_array_view(items);
        assert(item_views(items@) =~= rules@.map_values(|r: Rule| rule_body(r)));
    }
    Json::Array(items)
}

/// A live list of values as an array.
fn array_of(items: &Vec<Json>) -> (value: Json)
    ensures
        value@ == JsonView::Array(item_views(items@)),
{
    let copies = clone_items(items);
    proof {
        lemma_array_view(copies);
    }
    Json::Array(copies)
}

/// Builds the full ruleset body sent on create or update. Undeclared fields
/// are carried over from the live ruleset so an update never drops them.
pub fn build_ruleset_body(name: &str, cfg: &RulesetConfig, current: Option<&Ruleset>) -> (body: Json)
    ensures
        body@ == ruleset_body(
            name@,
            *cfg,
            match current {
                Some(c) => Some(*c),
                None => None,
            },
        ),
{
    let ghost live = match current {
        Some(c) => Some(*c),
        None => None,
    };
    let mut body: KeyMap<Json> = KeyMap::new();
    assert(object_view(body) =~= no_fields());
    put(&mut body, "name", Json::String(name.to_owned()));

    let target = match cfg.target {
        Some(target) => target.api_str().to_owned(),
        None => match current {
            Some(c) => match &c.target {
                Some(target) => target.clone(),
                None => "branch".to_owned(),
            },
            None => "branch".to_owned(),
        },
    };
    assert(target@ == target_text(*cfg, live));
    put(&mut body, "target", Json::String(target));

    let enforcement = match cfg.enforcement {
        Some(enforcement) => enforcement.api_str().to_owned(),
        None => match current {
            Some(c) => c.enforcement.clone(),
            None => "active".to_owned(),
        },
    };
    assert(enforcement@ == enforcement_text(*cfg, live));
    put(&mut body, "enforcement", Json::String(enforcement));

    let current_conditions: Option<&Json> = match current {
        Some(c) => c.conditions.as_ref(),
        None => None,
    };
    let ghost enforced = object_view(body);
    match &cfg.conditions {
        Some(conditions) => {
            let merged = merge_conditions(conditions, current_conditions);
            assert(merged@.len() == object_view(merged).len());
            if !merged.is_empty() {
                proof {
                    lemma_object_view(merged);
                }
                put(&mut body, "conditions", Json::Object(merged));
            }
        },
        None => {
            if let Some(conditions) = current_conditions {
                put(&mut body, "conditions", conditions.copied());
            }
        },
    }
    assert(object_view(body) == with_optional(enforced, "conditions"@, sent_conditions(*cfg, live)));

    let ghost conditioned = object_view(body);
    if let Some(actors) = &cfg.bypass_actors {
        put(&mut body, "bypass_actors", actor_values(actors));
    } else if let Some(c) = current {
        if let Some(actors) = &c.bypass_actors {
            put(&mut body, "bypass_actors", array_of(actors));
        }
    }
    assert(object_view(body) == with_optional(
        conditioned,
        "bypass_actors"@,
        sent_actors(*cfg, live),
    ));

    let ghost bypassed = object_view(body);
    if let Some(rules) = &cfg.rules {
        put(&mut body, "rules", rule_values(rules));
    } else if let Some(c) = current {
        if let Some(rules) = &c.rules {
            put(&mut body, "rules", array_of(rules));
        }
    }
    assert(object_view(body) == with_optional(bypassed, "rules"@, sent_rules(*cfg, live)));
    proof {
        lemma_object_view(body);
    }
    Json::Object(body)
}

/// The conditions with the declared sides of `ref_name`, for change detection.
fn conditions_value(ref_name: &RefNameCondition) -> (value: Json)
    ensures
        value@ == JsonView::Object(
            with_entry(no_fields(), "ref_name"@, declared_ref_name(*ref_name)),
        ),
{
    let mut patterns: KeyMap<Json> = KeyMap::new();
    assert(object_view(patterns) =~= no_fields());
    if let Some(refs) = &ref_name.included {
        put(&mut patterns, "include", json_string_list(refs));
    }
    if let Some(refs) = &ref_name.excluded {
        put(&mut patterns, "exclude", json_string_list(refs));
    }
    let mut outer: KeyMap<Json> = KeyMap::new();
    assert(object_view(outer) =~= no_fields());
    proof {
        lemma_object_view(patterns);
    }
    put(&mut outer, "ref_name", Json::Object(patterns));
    proof {
        lemma_object_view(outer);
    }
    Json::Object(outer)
}

/// The declared fields of a ruleset, used for change detection.
pub fn ruleset_desired(cfg: &RulesetConfig) -> (value: Json)
    ensures
        value@ == desired_ruleset(*cfg),
{
    let mut map: KeyMap<Json> = KeyMap::new();
    assert(object_view(map) =~= no_fields());
    if let Some(target) = cfg.target {
        put(&mut map, "target", Json::String(target.api_str().to_owned()));
    }
    if let Some(enforcement) = cfg.enforcement {
        put(&mut map, "enforcement", Json::String(enforcement.api_str().to_owned()));
    }
    if let Some(conditions) = &cfg.conditions {
        if let Some(ref_name) = &conditions.ref_name {
            put(&mut map, "conditions", conditions_value(ref_name));
        }
    }
    if let Some(actors) = &cfg.bypass_actors {
        put(&mut map, "bypass_actors", actor_values(actors));
    }
    if let Some(rules) = &cfg.rules {
        put(&mut map, "rules", rule_values(rules));
    }
    proof {
        lemma_object_view(map);
    }
    Json::Object(map)
}

/// The managed fields of a live ruleset, used for change detection.
pub fn ruleset_current(current: &Ruleset) -> (value: Json)
    ensures
        value@ == live_ruleset(*current),
{
    let mut map: KeyMap<Json> = KeyMap::new();
    assert(object_view(map) =~= no_fields());
    if let Some(target) = &current.target {
        put(&mut map, "target", Json::String(target.clone()));
    }
    put(&mut map, "enforcement", Json::String(current.enforcement.clone()));
    if let Some(conditions) = &current.conditions {
        put(&mut map, "conditions", conditions.copied());
    }
    if let Some(actors) = &current.bypass_actors {
        put(&mut map, "bypass_actors", array_of(actors));
    }
    if let Some(rules) = &current.rules {
        put(&mut map, "rules", array_of(rules));
    }
    proof {
        lemma_object_view(map);
    }
    Json::Object(map)
}

/// How a value is shown in a difference.
pub fn display_value(value: &Json) -> (text: String)
    ensures
        text@ == shown(value@),
{
    match value {
        Json::String(text) => text.clone(),
        Json::Null => "null".to_owned(),
        _ => value.to_text(),
    }
}

/// Adds the differences between a declared value and a live one.
pub fn diff(scope: &str, path: &str, desired: &Json, live: &Json, changes: &mut Vec<Change>)
    ensures
        change_views(final(changes)@) == change_views(old(changes)@) + differences(
            scope@,
            path@,
            desired@,
            live@,
        ),
    decreases desired,
{
    if covers(desired, live) {
        assert(change_views(changes@) =~= change_views(changes@) + Seq::<ChangeView>::empty());
        return;
    }
    match (desired, live) {
        (Json::Object(wanted), Json::Object(found)) => {
            proof {
                lemma_object_view(*wanted);
                lemma_object_view(*found);
            }
            diff_fields(scope, path, wanted, found, changes);
        },
        _ => {
            let change = Change::new(
                scope,
                path,
                Some(display_value(live)),
                display_value(desired),
            );
            add_change(changes, change);
            assert(change_views(changes@) =~= change_views(old(changes)@) + differences(
                scope@,
                path@,
                desired@,
                live@,
            ));
        },
    }
}

/// Adds the differences in each declared field.
fn diff_fields(
    scope: &str,
    path: &str,
    wanted: &KeyMap<Json>,
    found: &KeyMap<Json>,
    changes: &mut Vec<Change>,
)
    ensures
        change_views(final(changes)@) == change_views(old(changes)@) + field_differences(
            scope@,
            path@,
            object_view(*wanted),
            object_view(*found),
            object_view(*wanted).len(),
        ),
    decreases wanted,
{
    let ghost start = change_views(changes@);
    let mut i: usize = 0;
    assert(start =~= start + field_differences(
        scope@,
        path@,
        object_view(*wanted),
        object_view(*found),
        0,
    ));
    while i < wanted.entries.len()
        invariant
            i <= wanted.entries@.len(),
            change_views(changes@) == start + field_differences(
                scope@,
                path@,
                object_view(*wanted),
                object_view(*found),
                i as nat,
            ),
        decreases wanted.entries@.len() - i,
    {
        assert(decreases_to!(wanted => wanted.entries@[i as int].1));
        let ghost so_far = change_views(changes@);
        let key = wanted.entries[i].0.as_str();
        let child = if path.is_empty() {
            key.to_owned()
        } else {
            path.to_owned().concat(".").concat(key)
        };
        assert(child@ == below(path@, key@));
        proof {
            lemma_lookup_views(found@, key@);
            assert(object_view(*wanted)[i as int] == (key@, wanted.entries@[i as int].1@));
        }
        let ghost more = match lookup(object_view(*found), key@) {
            Some(value) => differences(scope@, child@, wanted.entries@[i as int].1@, value),
            None => seq![
                ChangeView {
                    scope: scope@,
                    field: child@,
                    from: None,
                    to: shown(wanted.entries@[i as int].1@),
                },
            ],
        };
        match found.get(key) {
            Some(value) => {
                diff(scope, child.as_str(), &wanted.entries[i].1, value, changes);
            },
            None => {
                let change = Change::new(
                    scope,
                    child.as_str(),
                    None,
                    display_value(&wanted.entries[i].1),
                );
                add_change(changes, change);
                assert(so_far.push(change@) =~= so_far + more);
            },
        }
        assert(change_views(changes@) == so_far + more);
        assert(field_differences(
            scope@,
            path@,
            object_view(*wanted),
            object_view(*found),
            (i + 1) as nat,
        ) == field_differences(scope@, path@, object_view(*wanted), object_view(*found), i as nat)
            + more);
        assert(so_far + more =~= start + (field_differences(
            scope@,
            path@,
            object_view(*wanted),
            object_view(*found),
            i as nat,
        ) + more));
        i = i + 1;
    }
}

/// Plans a single ruleset, or `None` when it already matches.
pub fn plan_ruleset(
    key: &str,
    name: &str,
    cfg: &RulesetConfig,
    current: Option<&Ruleset>,
) -> (plan: Option<RulesetPlan>)
    ensures
        match plan {
            Some(p) => planned_ruleset(
                key@,
                name@,
                *cfg,
                match current {
                    Some(c) => Some(*c),
                    None => None,
                },
            ) == Some(p@),
            None => planned_ruleset(
                key@,
                name@,
                *cfg,
                match current {
                    Some(c) => Some(*c),
                    None => None,
                },
            ) is None,
        },
{
    let scope = "rulesets.".to_owned().concat(key);
    let body = build_ruleset_body(name, cfg, current);
    let mut changes: Vec<Change> = Vec::new();
    match current {
        None => {
            add_change(
                &mut changes,
                Change::new(scope.as_str(), "create", None, "create".to_owned()),
            );
            assert(change_views(changes@) =~= seq![creation(scope@)]);
            Some(RulesetPlan { name: name.to_owned(), id: None, body: body, changes: changes })
        },
        Some(current) => {
            let desired = canonicalize(&ruleset_desired(cfg));
            let live = align(&desired, &canonicalize(&ruleset_current(current)));
            if covers(&desired, &live) {
                return None;
            }
            diff(scope.as_str(), "", &desired, &live, &mut changes);
            proof {
                reveal_strlit("");
                assert(""@ =~= Seq::<char>::empty());
                assert(change_views(changes@) =~= differences(
                    scope@,
                    Seq::empty(),
                    desired@,
                    live@,
                ));
            }
            Some(
                RulesetPlan {
                    name: name.to_owned(),
                    id: Some(current.id),
                    body: body,
                    changes: changes,
                },
            )
        },
    }
}

} // verus!
