//! The compliance rule engine and its three-operator expression language:
//! `contains:<literal>`, `not:<literal>`, and a bare literal, which is
//! shorthand for `contains:`.

use vstd::prelude::*;
use vstd::string::StringExecFns;

use crate::model::{ComplianceRule, ComplianceRuleV};
use crate::text::{
    chars_vec, concat2, concat3, contains_chars, contains_seq, match_at, starts_with_chars,
    string_from_chars, suffix_from,
};

verus! {

/// A device-id to configuration-text table, the corpus a compliance job
/// evaluates against.  Lookups take the first matching entry.
#[derive(Clone, Debug)]
pub struct DeviceConfigs {
    pub entries: Vec<(String, String)>,
}

/// First-match lookup in the corpus, over views.
pub open spec fn configs_lookup(entries: Seq<(Seq<char>, Seq<char>)>, key: Seq<char>) -> Option<
    Seq<char>,
>
    decreases entries.len(),
{
    if entries.len() == 0 {
        None
    } else if entries[0].0 == key {
        Some(entries[0].1)
    } else {
        configs_lookup(entries.drop_first(), key)
    }
}

impl DeviceConfigs {
    /// An empty corpus.
    pub fn new() -> (r: DeviceConfigs)
        ensures
            r.entries@.len() == 0,
    {
        DeviceConfigs { entries: Vec::new() }
    }

    /// Appends one device's configuration.
    pub fn push(&mut self, device_id: String, config: String)
        ensures
            final(self).entries@ == old(self).entries@.push((device_id, config)),
    {
        self.entries.push((device_id, config));
    }

    /// Looks a device's configuration up, first match wins.
    pub fn get(&self, device_id: &str) -> (r: Option<&String>)
        ensures
            match r {
                Some(c) => configs_lookup(self.entries.deep_view(), device_id@) == Some(c@),
                None => configs_lookup(self.entries.deep_view(), device_id@) is None,
            },
    {
        let ghost dvs = self.entries.deep_view();
        let kv = chars_vec(device_id);
        let mut i: usize = 0;
        proof {
            assert(dvs.subrange(0, dvs.len() as int) =~= dvs);
        }
        while i < self.entries.len()
            invariant
                dvs == self.entries.deep_view(),
                dvs.len() == self.entries@.len(),
                i <= self.entries@.len(),
                kv@ == device_id@,
                configs_lookup(dvs, device_id@) == configs_lookup(
                    dvs.subrange(i as int, dvs.len() as int),
                    device_id@,
                ),
            decreases self.entries@.len() - i,
        {
            let ghost rest = dvs.subrange(i as int, dvs.len() as int);
            let ev = chars_vec(self.entries[i].0.as_str());
            if crate::text::chars_eq(&ev, &kv) {
                return Some(&self.entries[i].1);
            }
            proof {
                assert(rest.drop_first() =~= dvs.subrange(i + 1 as int, dvs.len() as int));
            }
            i = i + 1;
        }
        None
    }
}

/// Whether an expression passes against a configuration text.
pub open spec fn expr_passes(expr: Seq<char>, config: Seq<char>) -> bool {
    if match_at(expr, "not:"@, 0) {
        !contains_seq(config, expr.skip("not:"@.len() as int))
    } else if match_at(expr, "contains:"@, 0) {
        contains_seq(config, expr.skip("contains:"@.len() as int))
    } else {
        contains_seq(config, expr)
    }
}

/// The failure (or, for `not:`, violation) detail of an evaluation:
/// `Some` exactly when the expression does not pass.
pub open spec fn expr_detail(expr: Seq<char>, config: Seq<char>) -> Option<Seq<char>> {
    if match_at(expr, "not:"@, 0) {
        let rest = expr.skip("not:"@.len() as int);
        if contains_seq(config, rest) {
            Some("found forbidden pattern "@ + rest)
        } else {
            None
        }
    } else if match_at(expr, "contains:"@, 0) {
        let rest = expr.skip("contains:"@.len() as int);
        if contains_seq(config, rest) {
            None
        } else {
            Some("missing required pattern "@ + rest)
        }
    } else {
        if contains_seq(config, expr) {
            None
        } else {
            Some("missing required pattern "@ + expr)
        }
    }
}

/// A detail is present exactly when the expression does not pass.
pub proof fn lemma_detail_iff_failed(expr: Seq<char>, config: Seq<char>)
    ensures
        expr_detail(expr, config) is Some <==> !expr_passes(expr, config),
{
}

/// Evaluates one expression against one configuration.  Returns whether
/// it passed, and the detail message when it did not.
pub fn evaluate_expression(expression: &str, config: &str) -> (r: (bool, Option<String>))
    ensures
        r.0 == expr_passes(expression@, config@),
        match r.1 {
            Some(d) => expr_detail(expression@, config@) == Some(d@),
            None => expr_detail(expression@, config@) is None,
        },
{
    proof {
        reveal_strlit("not:");
        reveal_strlit("contains:");
    }
    let ev = chars_vec(expression);
    let cv = chars_vec(config);
    let not_prefix = chars_vec("not:");
    let contains_prefix = chars_vec("contains:");
    if starts_with_chars(&ev, &not_prefix) {
        let rest = suffix_from(&ev, 4);
        let found = contains_chars(&cv, &rest);
        if found {
            let rest_str = string_from_chars(&rest);
            let detail = concat2("found forbidden pattern ", rest_str.as_str());
            (false, Some(detail))
        } else {
            (true, None)
        }
    } else if starts_with_chars(&ev, &contains_prefix) {
        let rest = suffix_from(&ev, 9);
        let found = contains_chars(&cv, &rest);
        if found {
            (true, None)
        } else {
            let rest_str = string_from_chars(&rest);
            let detail = concat2("missing required pattern ", rest_str.as_str());
            (false, Some(detail))
        }
    } else {
        let found = contains_chars(&cv, &ev);
        if found {
            (true, None)
        } else {
            let detail = concat2("missing required pattern ", expression);
            (false, Some(detail))
        }
    }
}

/// The outcome of one rule against one device.
#[derive(Clone, Debug)]
pub struct RuleOutcome {
    pub device_id: String,
    pub rule: String,
    pub passed: bool,
    pub details: Option<String>,
}

/// The ghost image of a `RuleOutcome`, over sequences.
pub ghost struct RuleOutcomeV {
    pub device_id: Seq<char>,
    pub rule: Seq<char>,
    pub passed: bool,
    pub details: Option<Seq<char>>,
}

/// The ghost image of an outcome list.
pub open spec fn outcomes_view(s: Seq<RuleOutcome>) -> Seq<RuleOutcomeV> {
    s.map_values(|o: RuleOutcome| outcome_view(o))
}

pub proof fn lemma_outcomes_view_push(s: Seq<RuleOutcome>, o: RuleOutcome)
    ensures
        outcomes_view(s.push(o)) == outcomes_view(s).push(outcome_view(o)),
{
    assert(outcomes_view(s.push(o)) =~= outcomes_view(s).push(outcome_view(o)));
}

/// The ghost image of an outcome.
pub open spec fn outcome_view(o: RuleOutcome) -> RuleOutcomeV {
    RuleOutcomeV {
        device_id: o.device_id@,
        rule: o.rule@,
        passed: o.passed,
        details: match o.details {
            Some(d) => Some(d@),
            None => None,
        },
    }
}

/// The outcome of one rule against one corpus entry.
pub open spec fn outcome_of(rule: ComplianceRuleV, entry: (Seq<char>, Seq<char>)) -> RuleOutcomeV {
    RuleOutcomeV {
        device_id: entry.0,
        rule: rule.name,
        passed: expr_passes(rule.expression, entry.1),
        details: expr_detail(rule.expression, entry.1),
    }
}

/// All rules applied to one corpus entry, in rule order.
pub open spec fn device_outcomes(rules: Seq<ComplianceRuleV>, entry: (Seq<char>, Seq<char>)) -> Seq<
    RuleOutcomeV,
>
    decreases rules.len(),
{
    if rules.len() == 0 {
        Seq::empty()
    } else {
        device_outcomes(rules.drop_last(), entry).push(outcome_of(rules.last(), entry))
    }
}

/// All rules applied to every corpus entry, in corpus order then rule
/// order.
pub open spec fn eval_spec(
    rules: Seq<ComplianceRuleV>,
    entries: Seq<(Seq<char>, Seq<char>)>,
) -> Seq<RuleOutcomeV>
    decreases entries.len(),
{
    if entries.len() == 0 {
        Seq::empty()
    } else {
        eval_spec(rules, entries.drop_last()) + device_outcomes(rules, entries.last())
    }
}

/// Evaluates rule expressions against device configurations.
pub struct ComplianceEngine;

impl ComplianceEngine {
    /// Applies every rule to every corpus entry.
    pub fn evaluate(rules: &Vec<ComplianceRule>, dataset: &DeviceConfigs) -> (outcomes: Vec<
        RuleOutcome,
    >)
        ensures
            outcomes_view(outcomes@) == eval_spec(rules.deep_view(), dataset.entries.deep_view()),
    {
        let ghost rv = rules.deep_view();
        let ghost dvs = dataset.entries.deep_view();
        let mut outcomes: Vec<RuleOutcome> = Vec::new();
        let mut d: usize = 0;
        proof {
            assert(outcomes_view(outcomes@) =~= eval_spec(rv, dvs.subrange(0, 0)));
        }
        while d < dataset.entries.len()
            invariant
                rv == rules.deep_view(),
                dvs == dataset.entries.deep_view(),
                rv.len() == rules@.len(),
                dvs.len() == dataset.entries@.len(),
                d <= dataset.entries@.len(),
                outcomes_view(outcomes@) == eval_spec(rv, dvs.subrange(0, d as int)),
            decreases dataset.entries@.len() - d,
        {
            let ghost entry = dvs[d as int];
            let mut r: usize = 0;
            while r < rules.len()
                invariant
                    rv == rules.deep_view(),
                    dvs == dataset.entries.deep_view(),
                    rv.len() == rules@.len(),
                    dvs.len() == dataset.entries@.len(),
                    d < dataset.entries@.len(),
                    r <= rules@.len(),
                    entry == dvs[d as int],
                    outcomes_view(outcomes@) == eval_spec(rv, dvs.subrange(0, d as int))
                        + device_outcomes(rv.subrange(0, r as int), entry),
                decreases rules@.len() - r,
            {
                let (passed, details) = evaluate_expression(
                    rules[r].expression.as_str(),
                    dataset.entries[d].1.as_str(),
                );
                let outcome = RuleOutcome {
                    device_id: dataset.entries[d].0.clone(),
                    rule: rules[r].name.clone(),
                    passed,
                    details,
                };
                let ghost old_outcomes = outcomes@;
                outcomes.push(outcome);
                proof {
                    let pre = rv.subrange(0, r + 1 as int);
                    assert(pre.drop_last() =~= rv.subrange(0, r as int));
                    assert(pre.last() == rv[r as int]);
                    lemma_outcomes_view_push(old_outcomes, outcome);
                    assert(outcome_view(outcome) == outcome_of(rv[r as int], entry));
                    assert(device_outcomes(pre, entry) == device_outcomes(
                        rv.subrange(0, r as int),
                        entry,
                    ).push(outcome_of(rv[r as int], entry)));
                    assert(outcomes_view(outcomes@) =~= eval_spec(rv, dvs.subrange(0, d as int))
                        + device_outcomes(pre, entry));
                }
                r = r + 1;
            }
            proof {
                let pre = dvs.subrange(0, d + 1 as int);
                assert(pre.drop_last() =~= dvs.subrange(0, d as int));
                assert(pre.last() == entry);
                assert(rv.subrange(0, rv.len() as int) =~= rv);
            }
            d = d + 1;
        }
        proof {
            assert(dvs.subrange(0, dvs.len() as int) =~= dvs);
        }
        outcomes
    }

    /// Totals of an outcome list.
    pub fn summarize(outcomes: &Vec<RuleOutcome>) -> (s: ComplianceSummary)
        ensures
            s.total == outcomes@.len(),
            s.passed == count_passed(outcomes@),
            s.failed == outcomes@.len() - count_passed(outcomes@),
    {
        proof {
            lemma_count_passed_bound(outcomes@);
        }
        let mut passed: usize = 0;
        let mut i: usize = 0;
        while i < outcomes.len()
            invariant
                i <= outcomes@.len(),
                passed == count_passed(outcomes@.subrange(0, i as int)),
                0 <= passed <= i,
            decreases outcomes@.len() - i,
        {
            proof {
                let pre = outcomes@.subrange(0, i + 1 as int);
                assert(pre.drop_last() =~= outcomes@.subrange(0, i as int));
                lemma_count_passed_bound(pre.drop_last());
            }
            if outcomes[i].passed {
                passed = passed + 1;
            }
            i = i + 1;
        }
        proof {
            assert(outcomes@.subrange(0, outcomes@.len() as int) =~= outcomes@);
        }
        ComplianceSummary { total: outcomes.len(), passed, failed: outcomes.len() - passed }
    }
}

/// Number of outcomes that passed.
pub open spec fn count_passed(os: Seq<RuleOutcome>) -> int
    decreases os.len(),
{
    if os.len() == 0 {
        0
    } else {
        count_passed(os.drop_last()) + if os.last().passed {
            1int
        } else {
            0int
        }
    }
}

pub proof fn lemma_count_passed_bound(os: Seq<RuleOutcome>)
    ensures
        0 <= count_passed(os) <= os.len(),
    decreases os.len(),
{
    if os.len() > 0 {
        lemma_count_passed_bound(os.drop_last());
    }
}

/// Totals of a compliance evaluation.
#[derive(Clone, Debug)]
pub struct ComplianceSummary {
    pub total: usize,
    pub passed: usize,
    pub failed: usize,
}

/// Every rule passes against the configuration.
pub open spec fn all_rules_pass(rules: Seq<ComplianceRuleV>, config: Seq<char>) -> bool {
    forall|i: int| 0 <= i < rules.len() ==> expr_passes(rules[i].expression, config)
}

/// The log line of one rule evaluation: `<name>: pass`, or
/// `<name>: fail (<detail>)`.
pub open spec fn rule_log_line(rule: ComplianceRuleV, config: Seq<char>) -> Seq<char> {
    if expr_passes(rule.expression, config) {
        rule.name + ": pass"@
    } else {
        match expr_detail(rule.expression, config) {
            Some(d) => rule.name + ": fail ("@ + d + ")"@,
            None => rule.name + ": fail (missing required pattern)"@,
        }
    }
}

/// The log lines of all rules against one configuration, in rule order.
pub open spec fn rule_log_lines(rules: Seq<ComplianceRuleV>, config: Seq<char>) -> Seq<Seq<char>>
    decreases rules.len(),
{
    if rules.len() == 0 {
        Seq::empty()
    } else {
        rule_log_lines(rules.drop_last(), config).push(rule_log_line(rules.last(), config))
    }
}

/// Evaluates all rules against one device's configuration, producing the
/// pass flag and one log line per rule.
pub fn evaluate_device_compliance(device_id: &str, rules: &Vec<ComplianceRule>, config: &str) -> (r:
    (bool, Vec<String>))
    ensures
        r.0 == all_rules_pass(rules.deep_view(), config@),
        crate::text::views_of(r.1@) == rule_log_lines(rules.deep_view(), config@),
{
    let ghost rv = rules.deep_view();
    let mut all_passed = true;
    let mut logs: Vec<String> = Vec::new();
    let mut i: usize = 0;
    proof {
        assert(crate::text::views_of(logs@) =~= rule_log_lines(rv.subrange(0, 0), config@));
    }
    while i < rules.len()
        invariant
            rv == rules.deep_view(),
            rv.len() == rules@.len(),
            i <= rules@.len(),
            all_passed == all_rules_pass(rv.subrange(0, i as int), config@),
            crate::text::views_of(logs@) == rule_log_lines(rv.subrange(0, i as int), config@),
        decreases rules@.len() - i,
    {
        let (passed, details) = evaluate_expression(rules[i].expression.as_str(), config);
        let line = if passed {
            concat2(rules[i].name.as_str(), ": pass")
        } else {
            match details {
                Some(d) => {
                    let head = concat3(rules[i].name.as_str(), ": fail (", d.as_str());
                    concat2(head.as_str(), ")")
                },
                None => concat2(rules[i].name.as_str(), ": fail (missing required pattern)"),
            }
        };
        logs.push(line);
        if !passed {
            all_passed = false;
        }
        proof {
            let pre = rv.subrange(0, i + 1 as int);
            assert(pre.drop_last() =~= rv.subrange(0, i as int));
            assert(pre.last() == rv[i as int]);
            assert(crate::text::views_of(logs@) =~= rule_log_lines(pre, config@));
            if all_passed {
                assert forall|k: int| 0 <= k < pre.len() implies expr_passes(
                    pre[k].expression,
                    config@,
                ) by {
                    if k < i {
                        assert(pre[k] == rv.subrange(0, i as int)[k]);
                    }
                }
            } else {
                if all_rules_pass(pre, config@) {
                    assert(expr_passes(pre[i as int].expression, config@));
                    if !passed {
                    } else {
                        let old_pre = rv.subrange(0, i as int);
                        assert(!all_rules_pass(old_pre, config@));
                        let k = choose|k: int|
                            0 <= k < old_pre.len() && !expr_passes(old_pre[k].expression, config@);
                        assert(pre[k] == old_pre[k]);
                    }
                }
            }
        }
        i = i + 1;
    }
    proof {
        assert(rv.subrange(0, rv.len() as int) =~= rv);
    }
    (all_passed, logs)
}

} // verus!
