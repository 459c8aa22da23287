//! Laws of declared rulesets: what is sent, what is compared and what is
//! reported, field by field.

use vstd::prelude::*;

use crate::change::ChangeView;
use crate::compare::{aligned, canonical, covered, key_of};
use crate::config::{BypassActor, Rule, RulesetConfig};
use crate::github::Ruleset;
use crate::json::{compact, object_view, Json, JsonView, NumberView};
use crate::keymap::{lookup, with_entry};
use crate::laws::rulesets::{
    law_fields_of_the_body, lemma_desired, lemma_every_key, lemma_keys_differ, lemma_live,
    lemma_merged,
};
use crate::rulesets::{
    actor_value, below, declared_refs, desired_ruleset, differences, field_differences,
    live_conditions, live_ruleset, merged_conditions, no_fields, planned_ruleset, rule_body,
    ruleset_body, sent_actors, sent_conditions, sent_rules, shown, strings_in, with_optional,
};
use crate::text::decimal;

verus! {

// --- Actors and rules -----------------------------------------------------------

/// A bypass actor is sent with its type, with its ID where its type is told
/// apart by one, and with its mode, which is `always` where none is declared.
pub proof fn law_actors_are_written_in_full(actor: BypassActor)
    ensures
        ({
            let value = actor_value(actor);
            let alone = actor.actor_type is OrganizationAdmin || actor.actor_type is DeployKey;
            &&& value.field("actor_type"@) == Some(JsonView::String(actor.actor_type.api_text()))
            &&& value.field("actor_id"@) == (if actor.actor_id is Some && !alone {
                Some(JsonView::Number(NumberView::Int(actor.actor_id->0 as int)))
            } else {
                None
            })
            &&& value.field("bypass_mode"@) == Some(
                JsonView::String(
                    if actor.bypass_mode is Some {
                        actor.bypass_mode->0.api_text()
                    } else {
                        "always"@
                    },
                ),
            )
            &&& forall|key: Seq<char>|
                key != "actor_type"@ && key != "actor_id"@ && key != "bypass_mode"@ ==> (
                #[trigger] value.field(key)) is None
        }),
{
    reveal_strlit("actor_type");
    reveal_strlit("actor_id");
    reveal_strlit("bypass_mode");
    assert("actor_type"@.len() == 10 && "actor_id"@.len() == 8 && "bypass_mode"@.len() == 11);
    let kind = JsonView::String(actor.actor_type.api_text());
    let typed = with_optional(no_fields(), "actor_type"@, Some(kind));
    let id = if actor.actor_type.identified() && actor.actor_id is Some {
        Some(JsonView::Number(NumberView::Int(actor.actor_id->0 as int)))
    } else {
        None
    };
    let identified = with_optional(typed, "actor_id"@, id);
    let mode = actor_value(actor).field("bypass_mode"@);
    lemma_every_key(no_fields(), "actor_type"@, Some(kind));
    lemma_every_key(typed, "actor_id"@, id);
    let word = match actor.bypass_mode {
        Some(m) => m.api_text(),
        None => "always"@,
    };
    lemma_every_key(identified, "bypass_mode"@, Some(JsonView::String(word)));
    assert(actor_value(actor) == JsonView::Object(
        with_optional(identified, "bypass_mode"@, Some(JsonView::String(word))),
    ));
}

/// A rule is sent with its type, and with its parameters where it has any.
pub proof fn law_rules_are_written_in_full(rule: Rule)
    ensures
        ({
            let value = rule_body(rule);
            &&& value.field("type"@) == Some(JsonView::String(rule.rule_type@))
            &&& value.field("parameters"@) == (if rule.parameters is Some
                && rule.parameters->0.entries@.len() > 0 {
                Some(JsonView::Object(object_view(rule.parameters->0)))
            } else {
                None
            })
            &&& forall|key: Seq<char>|
                key != "type"@ && key != "parameters"@ ==> (#[trigger] value.field(key)) is None
        }),
{
    reveal_strlit("type");
    reveal_strlit("parameters");
    assert("type"@.len() == 4 && "parameters"@.len() == 10);
    assert(rule.parameters is Some ==> rule.parameters->0@.len()
        == rule.parameters->0.entries@.len());
    let kind = JsonView::String(rule.rule_type@);
    let typed = with_optional(no_fields(), "type"@, Some(kind));
    let parameters = if rule.parameters is Some && rule.parameters->0@.len() > 0 {
        Some(JsonView::Object(object_view(rule.parameters->0)))
    } else {
        None
    };
    lemma_every_key(no_fields(), "type"@, Some(kind));
    lemma_every_key(typed, "parameters"@, parameters);
}

/// Whether a value lists the values of some rules, in their order.
pub open spec fn lists_rules(value: Option<JsonView>, rules: Seq<Rule>) -> bool {
    match value {
        Some(JsonView::Array(items)) => items.len() == rules.len() && forall|i: int|
            0 <= i < items.len() ==> #[trigger] items[i] == rule_body(rules[i]),
        _ => false,
    }
}

/// Whether a value lists the values of some actors, in their order.
pub open spec fn lists_actors(value: Option<JsonView>, actors: Seq<BypassActor>) -> bool {
    match value {
        Some(JsonView::Array(items)) => items.len() == actors.len() && forall|i: int|
            0 <= i < items.len() ==> #[trigger] items[i] == actor_value(actors[i]),
        _ => false,
    }
}

/// Whether a value lists some live values, and is left out where there are
/// none.
pub open spec fn lists_values(value: Option<JsonView>, live: Option<Vec<Json>>) -> bool {
    match (value, live) {
        (Some(JsonView::Array(items)), Some(values)) => items.len() == values@.len() && forall|
            i: int,
        |
            0 <= i < items.len() ==> #[trigger] items[i] == values@[i]@,
        (None, None) => true,
        _ => false,
    }
}

// --- What is sent ---------------------------------------------------------------

/// What is declared of a ruleset is sent as it is declared. What is not
/// declared is sent as it is live; a new ruleset targets branches and is
/// active.
pub proof fn law_declared_fields_are_sent(
    name: Seq<char>,
    cfg: RulesetConfig,
    current: Option<Ruleset>,
)
    ensures
        ({
            let body = ruleset_body(name, cfg, current);
            &&& body.field("name"@) == Some(JsonView::String(name))
            &&& body.field("target"@) == Some(
                JsonView::String(
                    if cfg.target is Some {
                        cfg.target->0.api_text()
                    } else if current is Some && current->0.target is Some {
                        current->0.target->0@
                    } else {
                        "branch"@
                    },
                ),
            )
            &&& body.field("enforcement"@) == Some(
                JsonView::String(
                    if cfg.enforcement is Some {
                        cfg.enforcement->0.api_text()
                    } else if current is Some {
                        current->0.enforcement@
                    } else {
                        "active"@
                    },
                ),
            )
            &&& if cfg.rules is Some {
                lists_rules(body.field("rules"@), cfg.rules->0@)
            } else if current is Some {
                lists_values(body.field("rules"@), current->0.rules)
            } else {
                body.field("rules"@) is None
            }
            &&& if cfg.bypass_actors is Some {
                lists_actors(body.field("bypass_actors"@), cfg.bypass_actors->0@)
            } else if current is Some {
                lists_values(body.field("bypass_actors"@), current->0.bypass_actors)
            } else {
                body.field("bypass_actors"@) is None
            }
            &&& cfg.conditions is None ==> body.field("conditions"@) == (if current is Some
                && current->0.conditions is Some {
                Some(current->0.conditions->0@)
            } else {
                None
            })
        }),
{
    law_fields_of_the_body(name, cfg, current);
}

/// Nothing else is sent of a ruleset.
pub proof fn law_no_other_fields_are_sent(
    name: Seq<char>,
    cfg: RulesetConfig,
    current: Option<Ruleset>,
    key: Seq<char>,
)
    requires
        key != "name"@,
        key != "target"@,
        key != "enforcement"@,
        key != "conditions"@,
        key != "bypass_actors"@,
        key != "rules"@,
    ensures
        ruleset_body(name, cfg, current).field(key) is None,
{
    let body = ruleset_body(name, cfg, current);
    let target = body.field("target"@);
    law_fields_of_the_body(name, cfg, current);
    let enforcement = body.field("enforcement"@);
    let named = with_entry(no_fields(), "name"@, JsonView::String(name));
    let targeted = with_optional(named, "target"@, target);
    let enforced = with_optional(targeted, "enforcement"@, enforcement);
    let conditioned = with_optional(enforced, "conditions"@, sent_conditions(cfg, current));
    let bypassed = with_optional(conditioned, "bypass_actors"@, sent_actors(cfg, current));
    lemma_every_key(no_fields(), "name"@, Some(JsonView::String(name)));
    lemma_every_key(named, "target"@, target);
    lemma_every_key(targeted, "enforcement"@, enforcement);
    lemma_every_key(enforced, "conditions"@, sent_conditions(cfg, current));
    lemma_every_key(conditioned, "bypass_actors"@, sent_actors(cfg, current));
    lemma_every_key(bypassed, "rules"@, sent_rules(cfg, current));
}

/// The strings among some values are found in their order.
pub proof fn law_strings_among_values(items: Seq<JsonView>, item: JsonView)
    ensures
        match item {
            JsonView::String(text) => strings_in(items.push(item)) == strings_in(items).push(text),
            _ => strings_in(items.push(item)) == strings_in(items),
        },
        strings_in(Seq::empty()).len() == 0,
{
    assert(items.push(item).drop_last() =~= items);
}

/// The live `ref_name` condition of a ruleset.
pub open spec fn ref_name_now(current: Option<Ruleset>) -> Option<JsonView> {
    if current is Some && current->0.conditions is Some {
        current->0.conditions->0@.field("ref_name"@)
    } else {
        None
    }
}

/// Whether one side of the `ref_name` condition that is sent holds the declared
/// patterns, or else the live ones, or else none.
pub open spec fn is_side(
    sent: Option<JsonView>,
    declared: Option<Vec<String>>,
    live: Option<JsonView>,
    side: Seq<char>,
) -> bool {
    match sent {
        Some(JsonView::Array(items)) => if declared is Some {
            &&& items.len() == declared->0@.len()
            &&& forall|i: int|
                0 <= i < items.len() ==> #[trigger] items[i] == JsonView::String(declared->0@[i]@)
        } else {
            match (match live {
                Some(value) => value.field(side),
                None => None,
            }) {
                Some(JsonView::Array(values)) => {
                    &&& items.len() == strings_in(values).len()
                    &&& forall|i: int|
                        0 <= i < items.len() ==> #[trigger] items[i] == JsonView::String(
                            strings_in(values)[i],
                        )
                },
                _ => items.len() == 0,
            }
        },
        _ => false,
    }
}

/// Declared conditions are merged with the live ones side by side, and left out
/// where neither has a `ref_name`.
pub proof fn law_conditions_are_merged(
    name: Seq<char>,
    cfg: RulesetConfig,
    current: Option<Ruleset>,
)
    requires
        cfg.conditions is Some,
    ensures
        ({
            let sent = ruleset_body(name, cfg, current).field("conditions"@);
            let declared = cfg.conditions->0.ref_name;
            let live = ref_name_now(current);
            match sent {
                Some(conditions) => match conditions.field("ref_name"@) {
                    Some(sides) => {
                        &&& declared is Some || live is Some
                        &&& is_side(
                            sides.field("include"@),
                            if declared is Some {
                                declared->0.included
                            } else {
                                None
                            },
                            live,
                            "include"@,
                        )
                        &&& is_side(
                            sides.field("exclude"@),
                            if declared is Some {
                                declared->0.excluded
                            } else {
                                None
                            },
                            live,
                            "exclude"@,
                        )
                    },
                    None => false,
                },
                None => declared is None && live is None,
            }
        }),
{
    law_fields_of_the_body(name, cfg, current);
    lemma_merged(cfg.conditions->0, live_conditions(current));
    let conditions = cfg.conditions->0;
    let merged = merged_conditions(conditions, live_conditions(current));
    if merged.len() == 0 {
        assert(lookup(merged, "ref_name"@) is None);
    }
}

// --- What is compared -------------------------------------------------------------

/// What is compared of a declaration is what was declared, and nothing else.
pub proof fn law_only_declared_fields_are_compared(cfg: RulesetConfig)
    ensures
        ({
            let desired = desired_ruleset(cfg);
            &&& desired.field("target"@) == (if cfg.target is Some {
                Some(JsonView::String(cfg.target->0.api_text()))
            } else {
                None
            })
            &&& desired.field("enforcement"@) == (if cfg.enforcement is Some {
                Some(JsonView::String(cfg.enforcement->0.api_text()))
            } else {
                None
            })
            &&& if cfg.rules is Some {
                lists_rules(desired.field("rules"@), cfg.rules->0@)
            } else {
                desired.field("rules"@) is None
            }
            &&& if cfg.bypass_actors is Some {
                lists_actors(desired.field("bypass_actors"@), cfg.bypass_actors->0@)
            } else {
                desired.field("bypass_actors"@) is None
            }
            &&& desired.field("conditions"@) is Some <==> cfg.conditions is Some
                && cfg.conditions->0.ref_name is Some
            &&& forall|key: Seq<char>|
                key != "target"@ && key != "enforcement"@ && key != "rules"@ && key
                    != "bypass_actors"@ && key != "conditions"@ ==> (#[trigger] desired.field(key))
                    is None
        }),
{
    lemma_keys_differ();
    lemma_desired(cfg);
    let fields = desired_ruleset(cfg)->Object_0;
    assert forall|key: Seq<char>|
        key != "target"@ && key != "enforcement"@ && key != "rules"@ && key != "bypass_actors"@
            && key != "conditions"@ implies (#[trigger] desired_ruleset(cfg).field(key)) is None by {
        assert(lookup(fields, key) is None);
    }
}

/// Whether a declared side of a condition is an array of just its patterns.
pub open spec fn is_declared_side(value: Option<JsonView>, declared: Option<Vec<String>>) -> bool {
    match (value, declared) {
        (Some(JsonView::Array(items)), Some(patterns)) => items.len() == patterns@.len()
            && forall|i: int|
            0 <= i < items.len() ==> #[trigger] items[i] == JsonView::String(patterns@[i]@),
        (None, None) => true,
        _ => false,
    }
}

/// Of declared conditions the declared sides of `ref_name` are compared.
pub proof fn law_declared_sides_are_compared(cfg: RulesetConfig)
    requires
        cfg.conditions is Some,
        cfg.conditions->0.ref_name is Some,
    ensures
        ({
            let declared = cfg.conditions->0.ref_name->0;
            match desired_ruleset(cfg).field("conditions"@) {
                Some(conditions) => match conditions.field("ref_name"@) {
                    Some(sides) => {
                        &&& is_declared_side(sides.field("include"@), declared.included)
                        &&& is_declared_side(sides.field("exclude"@), declared.excluded)
                    },
                    None => false,
                },
                None => false,
            }
        }),
{
    lemma_keys_differ();
    lemma_desired(cfg);
    let declared = cfg.conditions->0.ref_name->0;
    let included = declared_refs(declared.included);
    let excluded = declared_refs(declared.excluded);
    let first = with_optional(no_fields(), "include"@, included);
    lemma_every_key(no_fields(), "include"@, included);
    lemma_every_key(first, "exclude"@, excluded);
    let sides = JsonView::Object(with_optional(first, "exclude"@, excluded));
    lemma_every_key(no_fields(), "ref_name"@, Some(sides));
    assert(lookup(desired_ruleset(cfg)->Object_0, "conditions"@) is Some);
}

/// What is compared of a live ruleset is its target, its enforcement, its
/// conditions, its actors and its rules, as they are.
pub proof fn law_live_fields_are_compared(current: Ruleset)
    ensures
        ({
            let live = live_ruleset(current);
            &&& live.field("target"@) == (if current.target is Some {
                Some(JsonView::String(current.target->0@))
            } else {
                None
            })
            &&& live.field("enforcement"@) == Some(JsonView::String(current.enforcement@))
            &&& live.field("conditions"@) == (if current.conditions is Some {
                Some(current.conditions->0@)
            } else {
                None
            })
            &&& lists_values(live.field("bypass_actors"@), current.bypass_actors)
            &&& lists_values(live.field("rules"@), current.rules)
        }),
{
    lemma_live(current);
}

/// A ruleset that is missing is created, and one that differs is replaced under
/// its own ID; either way under its name and with the full body.
pub proof fn law_plans_for_rulesets(
    key: Seq<char>,
    name: Seq<char>,
    cfg: RulesetConfig,
    current: Option<Ruleset>,
)
    ensures
        current is None ==> planned_ruleset(key, name, cfg, current) is Some,
        match planned_ruleset(key, name, cfg, current) {
            Some(plan) => {
                &&& plan.name == name
                &&& plan.body == ruleset_body(name, cfg, current)
                &&& current is Some ==> plan.id == Some(current->0.id)
                &&& current is None ==> plan.id is None && plan.changes.len() == 1
                    && plan.changes[0] == (ChangeView {
                    scope: "rulesets."@ + key,
                    field: "create"@,
                    from: None,
                    to: "create"@,
                })
                &&& forall|i: int|
                    0 <= i < plan.changes.len() ==> (#[trigger] plan.changes[i]).scope
                        == "rulesets."@ + key
            },
            None => true,
        },
{
    if let Some(live) = current {
        if let Some(plan) = planned_ruleset(key, name, cfg, current) {
            lemma_one_scope(
                "rulesets."@ + key,
                Seq::empty(),
                canonical(desired_ruleset(cfg)),
                aligned(
                    canonical(desired_ruleset(cfg)),
                    canonical(live_ruleset(live)),
                ),
            );
        }
    }
}

// --- What is reported -------------------------------------------------------------

/// All differences between two values are reported under one scope.
proof fn lemma_one_scope(scope: Seq<char>, path: Seq<char>, desired: JsonView, live: JsonView)
    ensures
        forall|i: int|
            0 <= i < differences(scope, path, desired, live).len() ==> (#[trigger] differences(
                scope,
                path,
                desired,
                live,
            )[i]).scope == scope,
    decreases desired, 0nat,
{
    if let (JsonView::Object(wanted), JsonView::Object(found)) = (desired, live) {
        lemma_fields_one_scope(scope, path, wanted, found, wanted.len());
    }
}

proof fn lemma_fields_one_scope(
    scope: Seq<char>,
    path: Seq<char>,
    wanted: Seq<(Seq<char>, JsonView)>,
    found: Seq<(Seq<char>, JsonView)>,
    n: nat,
)
    requires
        n <= wanted.len(),
    ensures
        forall|i: int|
            0 <= i < field_differences(scope, path, wanted, found, n).len() ==> (
            #[trigger] field_differences(scope, path, wanted, found, n)[i]).scope == scope,
    decreases wanted, n,
{
    if n > 0 {
        let (key, value) = wanted[n - 1];
        lemma_fields_one_scope(scope, path, wanted, found, (n - 1) as nat);
        if let Some(live) = lookup(found, key) {
            assert(decreases_to!(wanted => wanted[n - 1].1));
            lemma_one_scope(scope, below(path, key), value, live);
        }
        let before = field_differences(scope, path, wanted, found, (n - 1) as nat);
        let all = field_differences(scope, path, wanted, found, n);
        assert forall|i: int| 0 <= i < all.len() implies (#[trigger] all[i]).scope == scope by {
            if i < before.len() {
                assert(all[i] == before[i]);
            }
        }
    }
}

/// The path of a field below another: the names of the fields on the way, with
/// dots between them.
pub proof fn law_paths(path: Seq<char>, key: Seq<char>)
    ensures
        path.len() == 0 ==> below(path, key) == key,
        path.len() > 0 ==> below(path, key) == path + ("."@ + key),
{
    if path.len() > 0 {
        assert(below(path, key) =~= path + ("."@ + key));
    }
}

/// A text is shown as it is, and any other value in JSON.
pub proof fn law_values_are_shown(value: JsonView, text: Seq<char>)
    ensures
        shown(JsonView::String(text)) == text,
        shown(JsonView::Null) == "null"@,
        !(value is String) && !(value is Null) ==> shown(value) == compact(value),
{
}

/// Two values that are not both objects differ as a whole.
pub proof fn law_values_differ_as_a_whole(
    scope: Seq<char>,
    path: Seq<char>,
    desired: JsonView,
    live: JsonView,
)
    requires
        !(desired is Object && live is Object),
        !covered(desired, live),
    ensures
        differences(scope, path, desired, live).len() == 1,
        differences(scope, path, desired, live)[0] == (ChangeView {
            scope: scope,
            field: path,
            from: Some(shown(live)),
            to: shown(desired),
        }),
{
}

/// Two objects differ in each declared field that is missing, and wherever the
/// values of a field differ.
pub proof fn law_objects_differ_by_field(
    scope: Seq<char>,
    path: Seq<char>,
    wanted: Seq<(Seq<char>, JsonView)>,
    found: Seq<(Seq<char>, JsonView)>,
    index: int,
)
    requires
        0 <= index < wanted.len(),
    ensures
        ({
            let all = differences(scope, path, JsonView::Object(wanted), JsonView::Object(found));
            let (key, value) = wanted[index];
            match lookup(found, key) {
                Some(live) => forall|change: ChangeView| #[trigger]
                    differences(scope, below(path, key), value, live).contains(change)
                        ==> all.contains(change),
                None => all.contains(
                    ChangeView {
                        scope: scope,
                        field: below(path, key),
                        from: None,
                        to: shown(value),
                    },
                ),
            }
        }),
{
    let desired = JsonView::Object(wanted);
    let live = JsonView::Object(found);
    lemma_field_reported(scope, path, wanted, found, wanted.len(), index);
    if covered(desired, live) {
        assert(lookup(found, wanted[index].0) is Some);
        assert(covered(wanted[index].1, lookup(found, wanted[index].0)->0));
    }
}

proof fn lemma_field_reported(
    scope: Seq<char>,
    path: Seq<char>,
    wanted: Seq<(Seq<char>, JsonView)>,
    found: Seq<(Seq<char>, JsonView)>,
    n: nat,
    index: int,
)
    requires
        0 <= index < n <= wanted.len(),
    ensures
        ({
            let all = field_differences(scope, path, wanted, found, n);
            let (key, value) = wanted[index];
            match lookup(found, key) {
                Some(live) => forall|change: ChangeView| #[trigger]
                    differences(scope, below(path, key), value, live).contains(change)
                        ==> all.contains(change),
                None => all.contains(
                    ChangeView {
                        scope: scope,
                        field: below(path, key),
                        from: None,
                        to: shown(value),
                    },
                ),
            }
        }),
    decreases n,
{
    broadcast use vstd::seq_lib::group_seq_properties;

    if index < n - 1 {
        lemma_field_reported(scope, path, wanted, found, (n - 1) as nat, index);
    }
}

/// Whether a difference is that of one declared field.
pub open spec fn is_field_difference(
    change: ChangeView,
    scope: Seq<char>,
    path: Seq<char>,
    field: (Seq<char>, JsonView),
    found: Seq<(Seq<char>, JsonView)>,
) -> bool {
    match lookup(found, field.0) {
        Some(live) => differences(scope, below(path, field.0), field.1, live).contains(change),
        None => change == (ChangeView {
            scope: scope,
            field: below(path, field.0),
            from: None,
            to: shown(field.1),
        }),
    }
}

/// Two objects differ in nothing but their declared fields.
pub proof fn law_objects_differ_in_nothing_else(
    scope: Seq<char>,
    path: Seq<char>,
    wanted: Seq<(Seq<char>, JsonView)>,
    found: Seq<(Seq<char>, JsonView)>,
    change: ChangeView,
)
    requires
        differences(scope, path, JsonView::Object(wanted), JsonView::Object(found)).contains(
            change,
        ),
    ensures
        exists|i: int|
            0 <= i < wanted.len() && is_field_difference(
                change,
                scope,
                path,
                #[trigger] wanted[i],
                found,
            ),
{
    lemma_field_of(scope, path, wanted, found, wanted.len(), change);
}

proof fn lemma_field_of(
    scope: Seq<char>,
    path: Seq<char>,
    wanted: Seq<(Seq<char>, JsonView)>,
    found: Seq<(Seq<char>, JsonView)>,
    n: nat,
    change: ChangeView,
)
    requires
        n <= wanted.len(),
        field_differences(scope, path, wanted, found, n).contains(change),
    ensures
        exists|i: int|
            0 <= i < wanted.len() && is_field_difference(
                change,
                scope,
                path,
                #[trigger] wanted[i],
                found,
            ),
    decreases n,
{
    broadcast use vstd::seq_lib::group_seq_properties;

    if n > 0 {
        if field_differences(scope, path, wanted, found, (n - 1) as nat).contains(change) {
            lemma_field_of(scope, path, wanted, found, (n - 1) as nat, change);
        } else {
            assert(is_field_difference(change, scope, path, wanted[n - 1], found));
        }
    }
}

// --- The order of items -----------------------------------------------------------

/// The items of an array are ordered by what tells them apart: rules by their
/// type, status checks by their context, actors by their type and ID, texts by
/// themselves, and all else by its notation.
pub proof fn law_items_are_ordered_by_what_they_are(value: JsonView)
    ensures
        match (value.field("type"@), value.field("context"@), value.field("actor_type"@)) {
            (Some(JsonView::String(kind)), _, _) => key_of(value) == "0:"@ + kind,
            (_, Some(JsonView::String(context)), _) => key_of(value) == "1:"@ + context,
            (_, _, Some(JsonView::String(actor))) => key_of(value) == "2:"@ + actor + ":"@
                + decimal(
                match value.field("actor_id"@) {
                    Some(JsonView::Number(NumberView::Int(id))) => if id > 0 {
                        id as nat
                    } else {
                        0
                    },
                    _ => 0,
                },
            ),
            _ => if value is String {
                key_of(value) == "3:"@ + value->String_0
            } else {
                key_of(value) == compact(value)
            },
        },
{
}

} // verus!
