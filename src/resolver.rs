use vstd::prelude::*;
use crate::model::{rule_valid, strs, validate_rule, CartLine, LineView, PricingRule, RuleView};
use crate::matcher::spec_matches;
use crate::order::{lemma_precedes_irreflexive, lemma_precedes_transitive, precedes, rule_precedes};

verus! {

/// The view of each rule of a sequence.
pub open spec fn rule_views(v: Seq<PricingRule>) -> Seq<RuleView> {
    v.map_values(|r: PricingRule| r@)
}

/// A rule that decodes and matches the line.
pub open spec fn eligible(rule: RuleView, tags: Seq<Seq<char>>, line: LineView) -> bool {
    rule_valid(rule) && spec_matches(rule, tags, line)
}

/// The position of the effective rule among the first `n` rules: the eligible
/// one that precedes the others, the earliest of equals.
pub open spec fn best_upto(rules: Seq<RuleView>, tags: Seq<Seq<char>>, line: LineView, n: int) -> Option<int>
    decreases n,
{
    if n <= 0 {
        None
    } else {
        let prev = best_upto(rules, tags, line, n - 1);
        if eligible(rules[n - 1], tags, line) {
            match prev {
                None => Some(n - 1),
                Some(k) => if precedes(rules[n - 1], rules[k]) {
                    Some(n - 1)
                } else {
                    prev
                },
            }
        } else {
            prev
        }
    }
}

/// The position of the effective rule for a line, if any rule is eligible.
pub open spec fn resolved(rules: Seq<RuleView>, tags: Seq<Seq<char>>, line: LineView) -> Option<int> {
    best_upto(rules, tags, line, rules.len() as int)
}

/// The chosen rule is eligible and no eligible rule precedes it; there is none
/// exactly when no rule is eligible.
pub proof fn lemma_best_upto(rules: Seq<RuleView>, tags: Seq<Seq<char>>, line: LineView, n: int)
    requires
        0 <= n <= rules.len(),
    ensures
        match best_upto(rules, tags, line, n) {
            None => forall|i: int| 0 <= i < n ==> !eligible(#[trigger] rules[i], tags, line),
            Some(k) => {
                &&& 0 <= k < n
                &&& eligible(rules[k], tags, line)
                &&& forall|i: int| 0 <= i < n && eligible(#[trigger] rules[i], tags, line)
                    ==> !precedes(rules[i], rules[k])
            },
        },
    decreases n,
{
    if n > 0 {
        lemma_best_upto(rules, tags, line, n - 1);
        let r = rules[n - 1];
        lemma_precedes_irreflexive(r);
        match best_upto(rules, tags, line, n - 1) {
            None => {},
            Some(k) => {
                if eligible(r, tags, line) && precedes(r, rules[k]) {
                    assert forall|i: int| 0 <= i < n && eligible(#[trigger] rules[i], tags, line)
                        implies !precedes(rules[i], r) by {
                        if i < n - 1 && precedes(rules[i], r) {
                            lemma_precedes_transitive(rules[i], r, rules[k]);
                        }
                    }
                }
            },
        }
    }
}

/// Picks the effective rule for `line`: among the rules that decode and match,
/// the one with the smallest priority, ties going to the smaller id, then to
/// the earlier rule. `None` when no rule is eligible.
pub fn resolve(rules: &Vec<PricingRule>, customer_tags: &Vec<String>, line: &CartLine) -> (r: Option<usize>)
    ensures
        match r {
            None => resolved(rule_views(rules@), strs(customer_tags@), line@) is None,
            Some(k) => resolved(rule_views(rules@), strs(customer_tags@), line@) == Some(k as int),
        },
        match r {
            None => forall|i: int| 0 <= i < rules@.len()
                ==> !eligible(#[trigger] rule_views(rules@)[i], strs(customer_tags@), line@),
            Some(k) => {
                &&& k < rules@.len()
                &&& eligible(rules@[k as int]@, strs(customer_tags@), line@)
                &&& forall|i: int| 0 <= i < rules@.len()
                    && eligible(#[trigger] rule_views(rules@)[i], strs(customer_tags@), line@)
                    ==> !precedes(rules@[i]@, rules@[k as int]@)
            },
        },
{
    let ghost views = rule_views(rules@);
    let ghost tags = strs(customer_tags@);
    let mut best: Option<usize> = None;
    let mut i: usize = 0;
    while i < rules.len()
        invariant
            i <= rules@.len(),
            views == rule_views(rules@),
            tags == strs(customer_tags@),
            match best {
                None => best_upto(views, tags, line@, i as int) is None,
                Some(k) => k < i && best_upto(views, tags, line@, i as int) == Some(k as int),
            },
        decreases rules.len() - i,
    {
        let rule = &rules[i];
        assert(views[i as int] == rule@);
        let ok = validate_rule(rule).is_ok() && crate::matcher::matches(rule, customer_tags, line);
        if ok {
            match best {
                None => {
                    best = Some(i);
                },
                Some(k) => {
                    assert(views[k as int] == rules@[k as int]@);
                    if rule_precedes(rule, &rules[k]) {
                        best = Some(i);
                    }
                },
            }
        }
        i = i + 1;
    }
    proof {
        lemma_best_upto(views, tags, line@, rules@.len() as int);
    }
    best
}

} // verus!
