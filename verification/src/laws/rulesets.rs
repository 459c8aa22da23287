//! Laws of the rulesets.

use vstd::prelude::*;

use crate::compare::{aligned, canonical, canonical_entries, covered, matched};
use crate::config::{BypassActor, BypassMode, Rule, RulesetConditions, RulesetConfig};
use crate::github::Ruleset;
use crate::json::{object_view, opt_json, string_array, JsonView, NumberView};
use crate::keymap::{
    in_order, lemma_lookup_with_entry, lemma_with_entry_in_order, lookup, with_entry,
};
use crate::laws::comparison::{
    law_array_order_does_not_matter, law_covered_by_itself, law_differences_where_not_covered,
    lemma_canonical_lookup, lemma_canonical_wf, lemma_lookup_in_order,
};
use crate::laws::matching::{
    law_covered_is_matched, law_covered_where_matched, law_matched_is_transitive,
    law_order_does_not_matter_to_a_match, lemma_matched_by,
};
use crate::pairing::is_pairing;
use crate::rulesets::{
    actor_value, declared_actors, declared_conditions, declared_ref_name, declared_refs,
    declared_rules, desired_ruleset, enforcement_text, live_conditions, live_ref_name, live_ruleset,
    merged_conditions, no_fields, opt_array, planned_ruleset, ref_side, rule_body, ruleset_body,
    sent_actors, sent_conditions, sent_rules, target_text, with_optional,
};
use crate::text::{text_before, texts};

verus! {

// --- Fields of objects ------------------------------------------------------

/// What an optional field changes.
proof fn lemma_optional(
    entries: Seq<(Seq<char>, JsonView)>,
    key: Seq<char>,
    value: Option<JsonView>,
    other: Seq<char>,
)
    ensures
        lookup(with_optional(entries, key, value), key) == (if value is Some {
            value
        } else {
            lookup(entries, key)
        }),
        other != key ==> lookup(with_optional(entries, key, value), other) == lookup(
            entries,
            other,
        ),
        in_order(entries) ==> in_order(with_optional(entries, key, value)),
{
    if let Some(v) = value {
        lemma_lookup_with_entry(entries, key, v, other);
        if in_order(entries) {
            lemma_with_entry_in_order(entries, key, v);
        }
    }
}

/// The keys of a ruleset differ.
pub proof fn lemma_keys_differ()
    ensures
        "name"@.len() == 4,
        "rules"@.len() == 5,
        "target"@.len() == 6,
        "conditions"@.len() == 10,
        "enforcement"@.len() == 11,
        "bypass_actors"@.len() == 13,
        "ref_name"@.len() == 8,
        "include"@.len() == 7,
        "exclude"@.len() == 7,
        "include"@ != "exclude"@,
{
    reveal_strlit("name");
    reveal_strlit("rules");
    reveal_strlit("target");
    reveal_strlit("conditions");
    reveal_strlit("enforcement");
    reveal_strlit("bypass_actors");
    reveal_strlit("ref_name");
    reveal_strlit("include");
    reveal_strlit("exclude");
    assert("include"@[0] == 'i');
    assert("exclude"@[0] == 'e');
}

/// The fields of the body that is sent for a ruleset.
pub proof fn law_fields_of_the_body(name: Seq<char>, cfg: RulesetConfig, current: Option<Ruleset>)
    ensures
        ruleset_body(name, cfg, current).field("name"@) == Some(JsonView::String(name)),
        ruleset_body(name, cfg, current).field("target"@) == Some(
            JsonView::String(target_text(cfg, current)),
        ),
        ruleset_body(name, cfg, current).field("enforcement"@) == Some(
            JsonView::String(enforcement_text(cfg, current)),
        ),
        ruleset_body(name, cfg, current).field("conditions"@) == sent_conditions(cfg, current),
        ruleset_body(name, cfg, current).field("bypass_actors"@) == sent_actors(cfg, current),
        ruleset_body(name, cfg, current).field("rules"@) == sent_rules(cfg, current),
{
    lemma_keys_differ();
    let named = with_entry(no_fields(), "name"@, JsonView::String(name));
    let target = JsonView::String(target_text(cfg, current));
    let targeted = with_entry(named, "target"@, target);
    let enforcement = JsonView::String(enforcement_text(cfg, current));
    let enforced = with_entry(targeted, "enforcement"@, enforcement);
    let conditioned = with_optional(enforced, "conditions"@, sent_conditions(cfg, current));
    let bypassed = with_optional(conditioned, "bypass_actors"@, sent_actors(cfg, current));
    lemma_every_key(no_fields(), "name"@, Some(JsonView::String(name)));
    lemma_every_key(named, "target"@, Some(target));
    lemma_every_key(targeted, "enforcement"@, Some(enforcement));
    lemma_every_key(enforced, "conditions"@, sent_conditions(cfg, current));
    lemma_every_key(conditioned, "bypass_actors"@, sent_actors(cfg, current));
    lemma_every_key(bypassed, "rules"@, sent_rules(cfg, current));
}

/// What an optional field changes, for every key.
pub proof fn lemma_every_key(
    entries: Seq<(Seq<char>, JsonView)>,
    key: Seq<char>,
    value: Option<JsonView>,
)
    ensures
        forall|other: Seq<char>| #[trigger]
            lookup(with_optional(entries, key, value), other) == (if other == key && value is Some {
                value
            } else {
                lookup(entries, other)
            }),
        in_order(entries) ==> in_order(with_optional(entries, key, value)),
{
    assert forall|other: Seq<char>| #[trigger]
        lookup(with_optional(entries, key, value), other) == (if other == key && value is Some {
            value
        } else {
            lookup(entries, other)
        }) by {
        lemma_optional(entries, key, value, other);
    }
    lemma_optional(entries, key, value, key);
}

/// An update never drops what was not declared: each such field of the live
/// ruleset is sent as it is.
pub proof fn law_update_keeps_undeclared_fields(
    name: Seq<char>,
    cfg: RulesetConfig,
    current: Ruleset,
)
    ensures
        cfg.target is None && current.target is Some ==> ruleset_body(
            name,
            cfg,
            Some(current),
        ).field("target"@) == Some(JsonView::String(current.target->0@)),
        cfg.enforcement is None ==> ruleset_body(name, cfg, Some(current)).field("enforcement"@)
            == Some(JsonView::String(current.enforcement@)),
        cfg.conditions is None ==> ruleset_body(name, cfg, Some(current)).field("conditions"@)
            == opt_json(current.conditions),
        cfg.bypass_actors is None ==> ruleset_body(name, cfg, Some(current)).field(
            "bypass_actors"@,
        ) == opt_array(current.bypass_actors),
        cfg.rules is None ==> ruleset_body(name, cfg, Some(current)).field("rules"@) == opt_array(
            current.rules,
        ),
{
    law_fields_of_the_body(name, cfg, Some(current));
}

/// A declared ruleset is authoritative for the lists it sets: declared rules
/// and bypass actors are sent as they were declared, whatever is live.
pub proof fn law_declared_lists_replace_the_live_ones(
    name: Seq<char>,
    cfg: RulesetConfig,
    current: Option<Ruleset>,
)
    ensures
        cfg.bypass_actors is Some ==> ruleset_body(name, cfg, current).field("bypass_actors"@)
            == declared_actors(cfg),
        cfg.rules is Some ==> ruleset_body(name, cfg, current).field("rules"@) == declared_rules(
            cfg,
        ),
{
    law_fields_of_the_body(name, cfg, current);
}

/// GitHub requires both sides of a `ref_name` condition: where conditions are
/// declared and one is sent, it has an `include` and an `exclude` list.
pub proof fn law_ref_name_has_both_sides(
    name: Seq<char>,
    cfg: RulesetConfig,
    current: Option<Ruleset>,
)
    requires
        cfg.conditions is Some,
        ruleset_body(name, cfg, current).field("conditions"@) is Some,
        ruleset_body(name, cfg, current).field("conditions"@)->0.field("ref_name"@) is Some,
    ensures
        match ruleset_body(name, cfg, current).field("conditions"@)->0.field(
            "ref_name"@,
        )->0.field("include"@) {
            Some(side) => side is Array,
            None => false,
        },
        match ruleset_body(name, cfg, current).field("conditions"@)->0.field(
            "ref_name"@,
        )->0.field("exclude"@) {
            Some(side) => side is Array,
            None => false,
        },
{
    law_fields_of_the_body(name, cfg, current);
    lemma_merged(cfg.conditions->0, live_conditions(current));
}

/// The sides of the merged `ref_name` condition.
pub proof fn lemma_merged(conditions: RulesetConditions, live: Option<JsonView>)
    ensures
        ({
            let live_ref = live_ref_name(live);
            let included = match conditions.ref_name {
                Some(r) => r.included,
                None => None,
            };
            let excluded = match conditions.ref_name {
                Some(r) => r.excluded,
                None => None,
            };
            match lookup(merged_conditions(conditions, live), "ref_name"@) {
                Some(sides) => {
                    &&& conditions.ref_name is Some || live_ref is Some
                    &&& sides.field("include"@) == Some(
                        string_array(ref_side(included, live_ref, "include"@)),
                    )
                    &&& sides.field("exclude"@) == Some(
                        string_array(ref_side(excluded, live_ref, "exclude"@)),
                    )
                    &&& sides is Object
                },
                None => conditions.ref_name is None && live_ref is None,
            }
        }),
{
    lemma_keys_differ();
    let live_ref = live_ref_name(live);
    let included = match conditions.ref_name {
        Some(r) => r.included,
        None => None,
    };
    let excluded = match conditions.ref_name {
        Some(r) => r.excluded,
        None => None,
    };
    let first = with_entry(
        no_fields(),
        "include"@,
        string_array(ref_side(included, live_ref, "include"@)),
    );
    let both = with_entry(
        first,
        "exclude"@,
        string_array(ref_side(excluded, live_ref, "exclude"@)),
    );
    lemma_lookup_with_entry(
        no_fields(),
        "include"@,
        string_array(ref_side(included, live_ref, "include"@)),
        "exclude"@,
    );
    lemma_lookup_with_entry(
        first,
        "exclude"@,
        string_array(ref_side(excluded, live_ref, "exclude"@)),
        "include"@,
    );
    lemma_lookup_with_entry(no_fields(), "ref_name"@, JsonView::Object(both), "ref_name"@);
}

// --- Convergence ------------------------------------------------------------

/// Whether the parameters of every declared rule have their keys in order,
/// each once, as every map built by insertion has.
pub open spec fn well_declared(cfg: RulesetConfig) -> bool {
    match cfg.rules {
        Some(rules) => forall|i: int|
            0 <= i < rules@.len() && (#[trigger] rules@[i]).parameters is Some ==> JsonView::Object(
                object_view(rules@[i].parameters->0),
            ).wf(),
        None => true,
    }
}

/// Whether a field reads back with all that was sent in it: arrays in whatever
/// order, and perhaps with fields that were not sent.
pub open spec fn reads_back(sent: Option<JsonView>, live: Option<JsonView>) -> bool {
    sent is Some ==> live is Some && matched(sent->0, live->0)
}

/// Whether `after` is a live ruleset to which GitHub took the body that is
/// sent for `cfg` over `before`: each field of the body reads back with all
/// that was sent in it. GitHub may list rules and actors in another order, and
/// add parameters to a rule.
pub open spec fn takes(after: Ruleset, cfg: RulesetConfig, before: Option<Ruleset>) -> bool {
    &&& after.target is Some && after.target->0@ == target_text(cfg, before)
    &&& after.enforcement@ == enforcement_text(cfg, before)
    &&& reads_back(sent_conditions(cfg, before), opt_json(after.conditions))
    &&& reads_back(sent_actors(cfg, before), opt_array(after.bypass_actors))
    &&& reads_back(sent_rules(cfg, before), opt_array(after.rules))
}

/// Objects that are built field by field are well-formed where the fields are.
proof fn lemma_object_wf(
    entries: Seq<(Seq<char>, JsonView)>,
    key: Seq<char>,
    value: Option<JsonView>,
)
    requires
        JsonView::Object(entries).wf(),
        value is Some ==> value->0.wf(),
    ensures
        JsonView::Object(with_optional(entries, key, value)).wf(),
{
    if let Some(v) = value {
        let put = with_entry(entries, key, v);
        lemma_with_entry_in_order(entries, key, v);
        assert forall|i: int| 0 <= i < put.len() implies (#[trigger] put[i]).1.wf() by {
            lemma_lookup_in_order(put, i);
            lemma_lookup_with_entry(entries, key, v, put[i].0);
            if put[i].0 != key {
                let j = choose|j: int| 0 <= j < entries.len() && put[i] == entries[j];
                assert(entries[j].1.wf());
            }
        }
    }
}

proof fn lemma_actor_wf(actor: BypassActor)
    ensures
        actor_value(actor).wf(),
{
    let kind = Some(JsonView::String(actor.actor_type.api_text()));
    lemma_object_wf(no_fields(), "actor_type"@, kind);
    let typed = with_optional(no_fields(), "actor_type"@, kind);
    let id = if actor.actor_type.identified() && actor.actor_id is Some {
        Some(JsonView::Number(NumberView::Int(actor.actor_id->0 as int)))
    } else {
        None
    };
    lemma_object_wf(typed, "actor_id"@, id);
    let mode = match actor.bypass_mode {
        Some(m) => m,
        None => BypassMode::Always,
    };
    lemma_object_wf(
        with_optional(typed, "actor_id"@, id),
        "bypass_mode"@,
        Some(JsonView::String(mode.api_text())),
    );
}

proof fn lemma_rule_wf(rule: Rule)
    requires
        rule.parameters is Some ==> JsonView::Object(object_view(rule.parameters->0)).wf(),
    ensures
        rule_body(rule).wf(),
{
    let kind = Some(JsonView::String(rule.rule_type@));
    lemma_object_wf(no_fields(), "type"@, kind);
    let parameters = match rule.parameters {
        Some(p) => if p@.len() > 0 {
            Some(JsonView::Object(object_view(p)))
        } else {
            None
        },
        None => None,
    };
    lemma_object_wf(with_optional(no_fields(), "type"@, kind), "parameters"@, parameters);
}

proof fn lemma_lists_wf(cfg: RulesetConfig)
    requires
        well_declared(cfg),
    ensures
        declared_actors(cfg) is Some ==> declared_actors(cfg)->0.wf(),
        declared_rules(cfg) is Some ==> declared_rules(cfg)->0.wf(),
{
    if let Some(actors) = cfg.bypass_actors {
        let items = actors@.map_values(|a: BypassActor| actor_value(a));
        assert forall|i: int| 0 <= i < items.len() implies (#[trigger] items[i]).wf() by {
            lemma_actor_wf(actors@[i]);
        }
    }
    if let Some(rules) = cfg.rules {
        let items = rules@.map_values(|r: Rule| rule_body(r));
        assert forall|i: int| 0 <= i < items.len() implies (#[trigger] items[i]).wf() by {
            lemma_rule_wf(rules@[i]);
        }
    }
}

/// A well-formed value still covers itself once it is in order.
proof fn lemma_canonical_covers(value: JsonView)
    requires
        value.wf(),
    ensures
        covered(canonical(value), canonical(value)),
{
    lemma_canonical_wf(value);
    law_covered_by_itself(canonical(value));
}

/// An object covers another where each of its keys leads to a value that is
/// covered there.
proof fn lemma_covered_by_keys(
    wanted: Seq<(Seq<char>, JsonView)>,
    found: Seq<(Seq<char>, JsonView)>,
)
    requires
        in_order(wanted),
        forall|key: Seq<char>|
            #![trigger lookup(wanted, key)]
            lookup(wanted, key) is Some ==> lookup(found, key) is Some && covered(
                canonical(lookup(wanted, key)->0),
                canonical(lookup(found, key)->0),
            ),
    ensures
        covered(canonical(JsonView::Object(wanted)), canonical(JsonView::Object(found))),
{
    let desired = canonical_entries(wanted);
    let live = canonical_entries(found);
    assert forall|i: int| 0 <= i < desired.len() implies {
        &&& lookup(live, (#[trigger] desired[i]).0) is Some
        &&& covered(desired[i].1, lookup(live, desired[i].0)->0)
    } by {
        let key = wanted[i].0;
        assert(desired[i] == (key, canonical(wanted[i].1)));
        lemma_lookup_in_order(wanted, i);
        assert(lookup(wanted, key) == Some(wanted[i].1));
        lemma_canonical_lookup(found, key);
    }
}

/// The keys of the declared fields of a ruleset, and what they lead to.
pub proof fn lemma_desired(cfg: RulesetConfig)
    ensures
        desired_ruleset(cfg) is Object,
        in_order(desired_ruleset(cfg)->Object_0),
        forall|key: Seq<char>| #[trigger]
            lookup(desired_ruleset(cfg)->Object_0, key) == (if key == "rules"@ {
                declared_rules(cfg)
            } else if key == "bypass_actors"@ {
                declared_actors(cfg)
            } else if key == "conditions"@ {
                declared_conditions(cfg)
            } else if key == "enforcement"@ {
                match cfg.enforcement {
                    Some(e) => Some(JsonView::String(e.api_text())),
                    None => None,
                }
            } else if key == "target"@ {
                match cfg.target {
                    Some(t) => Some(JsonView::String(t.api_text())),
                    None => None,
                }
            } else {
                None
            }),
{
    lemma_keys_differ();
    let target = match cfg.target {
        Some(t) => Some(JsonView::String(t.api_text())),
        None => None,
    };
    let enforcement = match cfg.enforcement {
        Some(e) => Some(JsonView::String(e.api_text())),
        None => None,
    };
    let conditions = declared_conditions(cfg);
    let targeted = with_optional(no_fields(), "target"@, target);
    let enforced = with_optional(targeted, "enforcement"@, enforcement);
    let conditioned = with_optional(enforced, "conditions"@, conditions);
    let bypassed = with_optional(conditioned, "bypass_actors"@, declared_actors(cfg));
    lemma_every_key(no_fields(), "target"@, target);
    lemma_every_key(targeted, "enforcement"@, enforcement);
    lemma_every_key(enforced, "conditions"@, conditions);
    lemma_every_key(conditioned, "bypass_actors"@, declared_actors(cfg));
    lemma_every_key(bypassed, "rules"@, declared_rules(cfg));
}

/// What the keys of a live ruleset lead to.
pub proof fn lemma_live(current: Ruleset)
    ensures
        live_ruleset(current) is Object,
        lookup(live_ruleset(current)->Object_0, "target"@) == (match current.target {
            Some(t) => Some(JsonView::String(t@)),
            None => None,
        }),
        lookup(live_ruleset(current)->Object_0, "enforcement"@) == Some(
            JsonView::String(current.enforcement@),
        ),
        lookup(live_ruleset(current)->Object_0, "conditions"@) == opt_json(current.conditions),
        lookup(live_ruleset(current)->Object_0, "bypass_actors"@) == opt_array(
            current.bypass_actors,
        ),
        lookup(live_ruleset(current)->Object_0, "rules"@) == opt_array(current.rules),
{
    lemma_keys_differ();
    let target = match current.target {
        Some(t) => Some(JsonView::String(t@)),
        None => None,
    };
    let targeted = with_optional(no_fields(), "target"@, target);
    let enforcement = Some(JsonView::String(current.enforcement@));
    let enforced = with_optional(targeted, "enforcement"@, enforcement);
    let conditioned = with_optional(enforced, "conditions"@, opt_json(current.conditions));
    let bypassed = with_optional(conditioned, "bypass_actors"@, opt_array(current.bypass_actors));
    lemma_every_key(no_fields(), "target"@, target);
    lemma_every_key(targeted, "enforcement"@, enforcement);
    lemma_every_key(enforced, "conditions"@, opt_json(current.conditions));
    lemma_every_key(conditioned, "bypass_actors"@, opt_array(current.bypass_actors));
    lemma_every_key(bypassed, "rules"@, opt_array(current.rules));
}

/// An array of strings is well-formed.
proof fn lemma_strings_wf(strings: Seq<Seq<char>>)
    ensures
        string_array(strings).wf(),
{
    let items = string_array(strings)->Array_0;
    assert forall|i: int| 0 <= i < items.len() implies (#[trigger] items[i]).wf() by {
        assert(items[i] == JsonView::String(strings[i]));
    }
}

/// The merged conditions cover the declared ones.
proof fn lemma_conditions_covered(cfg: RulesetConfig, live: Option<JsonView>)
    requires
        declared_conditions(cfg) is Some,
    ensures
        covered(
            canonical(declared_conditions(cfg)->0),
            canonical(JsonView::Object(merged_conditions(cfg.conditions->0, live))),
        ),
{
    lemma_keys_differ();
    let conditions = cfg.conditions->0;
    lemma_merged(conditions, live);
    let declared = conditions.ref_name->0;
    let first = with_optional(no_fields(), "include"@, declared_refs(declared.included));
    let both = with_optional(first, "exclude"@, declared_refs(declared.excluded));
    lemma_every_key(no_fields(), "include"@, declared_refs(declared.included));
    lemma_every_key(first, "exclude"@, declared_refs(declared.excluded));
    let merged = merged_conditions(conditions, live);
    let sides = lookup(merged, "ref_name"@)->0;
    assert(covered(canonical(JsonView::Object(both)), canonical(sides))) by {
        assert forall|key: Seq<char>|
            #![trigger lookup(both, key)]
            lookup(both, key) is Some implies lookup(sides->Object_0, key) is Some && covered(
            canonical(lookup(both, key)->0),
            canonical(lookup(sides->Object_0, key)->0),
        ) by {
            if key == "include"@ {
                lemma_strings_wf(texts(declared.included->0@));
                lemma_canonical_covers(string_array(texts(declared.included->0@)));
            } else if key == "exclude"@ {
                lemma_strings_wf(texts(declared.excluded->0@));
                lemma_canonical_covers(string_array(texts(declared.excluded->0@)));
            }
        }
        lemma_covered_by_keys(both, sides->Object_0);
    }
    let wanted = with_optional(no_fields(), "ref_name"@, Some(JsonView::Object(both)));
    lemma_every_key(no_fields(), "ref_name"@, Some(JsonView::Object(both)));
    assert forall|key: Seq<char>|
        #![trigger lookup(wanted, key)]
        lookup(wanted, key) is Some implies lookup(merged, key) is Some && covered(
        canonical(lookup(wanted, key)->0),
        canonical(lookup(merged, key)->0),
    ) by {
        assert(key == "ref_name"@);
    }
    lemma_covered_by_keys(wanted, merged);
}

/// The declared fields of a ruleset are well-formed.
proof fn lemma_desired_wf(cfg: RulesetConfig)
    requires
        well_declared(cfg),
    ensures
        desired_ruleset(cfg).wf(),
{
    lemma_lists_wf(cfg);
    let target = match cfg.target {
        Some(t) => Some(JsonView::String(t.api_text())),
        None => None,
    };
    let enforcement = match cfg.enforcement {
        Some(e) => Some(JsonView::String(e.api_text())),
        None => None,
    };
    let conditions = declared_conditions(cfg);
    if conditions is Some {
        let ref_name = cfg.conditions->0.ref_name->0;
        let included = declared_refs(ref_name.included);
        let excluded = declared_refs(ref_name.excluded);
        if included is Some {
            lemma_strings_wf(texts(ref_name.included->0@));
        }
        if excluded is Some {
            lemma_strings_wf(texts(ref_name.excluded->0@));
        }
        let first = with_optional(no_fields(), "include"@, included);
        lemma_object_wf(no_fields(), "include"@, included);
        lemma_object_wf(first, "exclude"@, excluded);
        lemma_object_wf(no_fields(), "ref_name"@, Some(declared_ref_name(ref_name)));
    }
    let targeted = with_optional(no_fields(), "target"@, target);
    let enforced = with_optional(targeted, "enforcement"@, enforcement);
    let conditioned = with_optional(enforced, "conditions"@, conditions);
    let bypassed = with_optional(conditioned, "bypass_actors"@, declared_actors(cfg));
    lemma_object_wf(no_fields(), "target"@, target);
    lemma_object_wf(targeted, "enforcement"@, enforcement);
    lemma_object_wf(enforced, "conditions"@, conditions);
    lemma_object_wf(conditioned, "bypass_actors"@, declared_actors(cfg));
    lemma_object_wf(bypassed, "rules"@, declared_rules(cfg));
}

/// An update is planned exactly where the live ruleset does not match what was
/// declared. Neither the order of lists nor fields that were not declared
/// matter; so nothing is planned where, with all lists in order, the live
/// ruleset covers the declared one item by item.
pub proof fn law_planned_where_not_matched(
    key: Seq<char>,
    name: Seq<char>,
    cfg: RulesetConfig,
    live: Ruleset,
)
    requires
        well_declared(cfg),
    ensures
        planned_ruleset(key, name, cfg, Some(live)) is None <==> matched(
            desired_ruleset(cfg),
            live_ruleset(live),
        ),
        covered(canonical(desired_ruleset(cfg)), canonical(live_ruleset(live)))
            ==> planned_ruleset(key, name, cfg, Some(live)) is None,
{
    if covered(canonical(desired_ruleset(cfg)), canonical(live_ruleset(live))) {
        law_covered_is_matched(canonical(desired_ruleset(cfg)), canonical(live_ruleset(live)));
    }
    lemma_desired_wf(cfg);
    lemma_canonical_wf(desired_ruleset(cfg));
    law_covered_where_matched(canonical(desired_ruleset(cfg)), canonical(live_ruleset(live)));
    law_order_does_not_matter_to_a_match(desired_ruleset(cfg), live_ruleset(live));
}

/// Whether each declared field of a ruleset but its rules is in the live one.
pub open spec fn holds_fields(live: Ruleset, cfg: RulesetConfig) -> bool {
    &&& cfg.target is Some ==> live.target is Some && live.target->0@ == cfg.target->0.api_text()
    &&& cfg.enforcement is Some ==> live.enforcement@ == cfg.enforcement->0.api_text()
    &&& reads_back(declared_conditions(cfg), opt_json(live.conditions))
    &&& reads_back(declared_actors(cfg), opt_array(live.bypass_actors))
}

proof fn lemma_matched_by_fields(cfg: RulesetConfig, live: Ruleset)
    requires
        holds_fields(live, cfg),
        reads_back(declared_rules(cfg), opt_array(live.rules)),
    ensures
        matched(desired_ruleset(cfg), live_ruleset(live)),
{
    lemma_keys_differ();
    lemma_desired(cfg);
    lemma_live(live);
    let wanted = desired_ruleset(cfg)->Object_0;
    let found = live_ruleset(live)->Object_0;
    assert forall|i: int| 0 <= i < wanted.len() implies {
        &&& lookup(found, (#[trigger] wanted[i]).0) is Some
        &&& matched(wanted[i].1, lookup(found, wanted[i].0)->0)
    } by {
        let field = wanted[i].0;
        lemma_lookup_in_order(wanted, i);
        assert(lookup(wanted, field) == Some(wanted[i].1));
    }
}

/// Nothing is planned where the live rules are the declared ones in any order,
/// each perhaps with further fields, and the other declared fields are there.
pub proof fn law_further_fields_do_not_matter(
    key: Seq<char>,
    name: Seq<char>,
    cfg: RulesetConfig,
    live: Ruleset,
    pairing: Seq<int>,
)
    requires
        well_declared(cfg),
        holds_fields(live, cfg),
        cfg.rules is Some,
        live.rules is Some,
        live.rules->0@.len() == cfg.rules->0@.len(),
        is_pairing(pairing, cfg.rules->0@.len()),
        forall|i: int|
            0 <= i < pairing.len() ==> covered(
                rule_body(cfg.rules->0@[i]),
                live.rules->0@[#[trigger] pairing[i]]@,
            ),
    ensures
        planned_ruleset(key, name, cfg, Some(live)) is None,
{
    let wanted = declared_rules(cfg)->0->Array_0;
    let found = opt_array(live.rules)->0->Array_0;
    assert forall|i: int| 0 <= i < wanted.len() implies matched(
        #[trigger] wanted[i],
        found[pairing[i]],
    ) by {
        law_covered_is_matched(rule_body(cfg.rules->0@[i]), live.rules->0@[pairing[i]]@);
    }
    lemma_matched_by(pairing, wanted, found);
    lemma_matched_by_fields(cfg, live);
    law_planned_where_not_matched(key, name, cfg, live);
}

/// Rulesets converge: once GitHub took the body that is sent on create or
/// update, the ruleset matches and nothing is planned for it any more.
pub proof fn law_rulesets_converge(
    key: Seq<char>,
    name: Seq<char>,
    cfg: RulesetConfig,
    before: Option<Ruleset>,
    after: Ruleset,
)
    requires
        well_declared(cfg),
        takes(after, cfg, before),
    ensures
        planned_ruleset(key, name, cfg, Some(after)) is None,
{
    if declared_conditions(cfg) is Some {
        let conditions = cfg.conditions->0;
        let merged = JsonView::Object(merged_conditions(conditions, live_conditions(before)));
        let declared = declared_conditions(cfg)->0;
        lemma_merged(conditions, live_conditions(before));
        assert(merged_conditions(conditions, live_conditions(before)).len() > 0);
        lemma_conditions_covered(cfg, live_conditions(before));
        law_covered_is_matched(canonical(declared), canonical(merged));
        law_order_does_not_matter_to_a_match(declared, merged);
        law_matched_is_transitive(declared, merged, after.conditions->0@);
    }
    lemma_matched_by_fields(cfg, after);
    law_planned_where_not_matched(key, name, cfg, after);
}

/// Putting the values of an object in order and adding an entry can change
/// places.
proof fn lemma_canonical_with_optional(
    entries: Seq<(Seq<char>, JsonView)>,
    key: Seq<char>,
    value: Option<JsonView>,
)
    ensures
        canonical_entries(with_optional(entries, key, value)) == with_optional(
            canonical_entries(entries),
            key,
            match value {
                Some(v) => Some(canonical(v)),
                None => None,
            },
        ),
    decreases entries.len(),
{
    if let Some(v) = value {
        let once = canonical_entries(entries);
        let added = with_entry(entries, key, v);
        if entries.len() > 0 {
            let rest = entries.drop_first();
            assert(once[0] == (entries[0].0, canonical(entries[0].1)));
            assert(once.drop_first() =~= canonical_entries(rest));
            lemma_canonical_with_optional(rest, key, value);
            if entries[0].0 != key && !text_before(key, entries[0].0) {
                let more = with_entry(rest, key, v);
                assert(added == seq![entries[0]] + more);
                assert forall|i: int| 0 <= i < added.len() implies #[trigger] canonical_entries(
                    added,
                )[i] == with_entry(once, key, canonical(v))[i] by {
                    if i > 0 {
                        assert(added[i] == more[i - 1]);
                        assert(canonical_entries(more)[i - 1] == (more[i - 1].0, canonical(
                            more[i - 1].1,
                        )));
                    }
                }
            }
        }
        assert(canonical_entries(added) =~= with_entry(once, key, canonical(v)));
    }
}

/// Whether two lists hold the same items, each as often.
pub open spec fn same_items(a: Option<JsonView>, b: Option<JsonView>) -> bool {
    match (a, b) {
        (Some(JsonView::Array(x)), Some(JsonView::Array(y))) => x.to_multiset() == y.to_multiset(),
        _ => a == b,
    }
}

proof fn lemma_same_items(a: Option<JsonView>, b: Option<JsonView>)
    requires
        same_items(a, b),
    ensures
        a is Some <==> b is Some,
        a is Some ==> canonical(a->0) == canonical(b->0),
{
    if let (Some(JsonView::Array(x)), Some(JsonView::Array(y))) = (a, b) {
        law_array_order_does_not_matter(x, y);
    }
}

/// Two objects that differ only in two lists come out the same where these
/// hold the same items.
proof fn lemma_lists_in_order(
    entries: Seq<(Seq<char>, JsonView)>,
    actors: Option<JsonView>,
    rules: Option<JsonView>,
    other_actors: Option<JsonView>,
    other_rules: Option<JsonView>,
)
    requires
        same_items(actors, other_actors),
        same_items(rules, other_rules),
    ensures
        canonical_entries(
            with_optional(with_optional(entries, "bypass_actors"@, actors), "rules"@, rules),
        ) == canonical_entries(
            with_optional(
                with_optional(entries, "bypass_actors"@, other_actors),
                "rules"@,
                other_rules,
            ),
        ),
{
    lemma_same_items(actors, other_actors);
    lemma_same_items(rules, other_rules);
    let first = with_optional(entries, "bypass_actors"@, actors);
    let second = with_optional(entries, "bypass_actors"@, other_actors);
    lemma_canonical_with_optional(entries, "bypass_actors"@, actors);
    lemma_canonical_with_optional(entries, "bypass_actors"@, other_actors);
    lemma_canonical_with_optional(first, "rules"@, rules);
    lemma_canonical_with_optional(second, "rules"@, other_rules);
}

/// The order in which GitHub lists the rules and the bypass actors of a
/// ruleset does not matter, nor does the order in which they are declared: the
/// same differences are found, and an update is planned alike.
pub proof fn law_list_order_does_not_matter(
    key: Seq<char>,
    name: Seq<char>,
    cfg: RulesetConfig,
    live: Ruleset,
    other_cfg: RulesetConfig,
    other_live: Ruleset,
)
    requires
        other_cfg.target == cfg.target,
        other_cfg.enforcement == cfg.enforcement,
        other_cfg.conditions == cfg.conditions,
        same_items(declared_actors(cfg), declared_actors(other_cfg)),
        same_items(declared_rules(cfg), declared_rules(other_cfg)),
        other_live.target == live.target,
        other_live.enforcement == live.enforcement,
        other_live.conditions == live.conditions,
        same_items(opt_array(live.bypass_actors), opt_array(other_live.bypass_actors)),
        same_items(opt_array(live.rules), opt_array(other_live.rules)),
    ensures
        match planned_ruleset(key, name, cfg, Some(live)) {
            Some(plan) => {
                let other = planned_ruleset(key, name, other_cfg, Some(other_live));
                other is Some && other->0.changes == plan.changes
            },
            None => planned_ruleset(key, name, other_cfg, Some(other_live)) is None,
        },
{
    let target = match cfg.target {
        Some(t) => Some(JsonView::String(t.api_text())),
        None => None,
    };
    let enforcement = match cfg.enforcement {
        Some(e) => Some(JsonView::String(e.api_text())),
        None => None,
    };
    let targeted = with_optional(no_fields(), "target"@, target);
    let enforced = with_optional(targeted, "enforcement"@, enforcement);
    lemma_lists_in_order(
        with_optional(enforced, "conditions"@, declared_conditions(cfg)),
        declared_actors(cfg),
        declared_rules(cfg),
        declared_actors(other_cfg),
        declared_rules(other_cfg),
    );
    assert(canonical(desired_ruleset(cfg)) == canonical(desired_ruleset(other_cfg)));
    let live_target = match live.target {
        Some(t) => Some(JsonView::String(t@)),
        None => None,
    };
    let live_targeted = with_optional(no_fields(), "target"@, live_target);
    let live_enforced = with_entry(
        live_targeted,
        "enforcement"@,
        JsonView::String(live.enforcement@),
    );
    lemma_lists_in_order(
        with_optional(live_enforced, "conditions"@, opt_json(live.conditions)),
        opt_array(live.bypass_actors),
        opt_array(live.rules),
        opt_array(other_live.bypass_actors),
        opt_array(other_live.rules),
    );
    assert(canonical(live_ruleset(live)) == canonical(live_ruleset(other_live)));
}

/// A plan for a ruleset reports a difference: none is planned where nothing
/// would be shown.
pub proof fn law_planned_rulesets_are_reported(
    key: Seq<char>,
    name: Seq<char>,
    cfg: RulesetConfig,
    current: Option<Ruleset>,
)
    ensures
        match planned_ruleset(key, name, cfg, current) {
            Some(plan) => plan.changes.len() > 0,
            None => true,
        },
{
    if let Some(live) = current {
        law_differences_where_not_covered(
            "rulesets."@ + key,
            Seq::empty(),
            canonical(desired_ruleset(cfg)),
            aligned(canonical(desired_ruleset(cfg)), canonical(live_ruleset(live))),
        );
    }
}

} // verus!
