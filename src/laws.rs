use vstd::prelude::*;
use crate::model::{InputView, LineView, RuleView, RunInput};
use crate::matcher::{axis_passes, intersects, spec_matches};
use crate::order::precedes;
use crate::resolver::{best_upto, eligible, lemma_best_upto, resolved};
use crate::calculator::{lemma_amount_within_line_price, value_in_domain};
use crate::model::spec_validate;
use crate::decision::{any_line_fails, discounts_of, line_discount, line_fails, spec_evaluate, DiscountApplicationStrategy, DiscountView};

verus! {

proof fn lemma_no_rules_no_line_discount(tags: Seq<Seq<char>>, lines: Seq<LineView>)
    ensures
        discounts_of(Seq::empty(), tags, lines).len() == 0,
        !any_line_fails(Seq::empty(), tags, lines),
    decreases lines.len(),
{
    if lines.len() > 0 {
        lemma_no_rules_no_line_discount(tags, lines.drop_last());
    }
    assert forall|i: int| 0 <= i < lines.len() implies !line_fails(Seq::empty(), tags, #[trigger] lines[i]) by {
        assert(best_upto(Seq::empty(), tags, lines[i], 0) is None);
    }
}

/// With no rule set, or an empty one, the decision holds no discount and the
/// strategy is `First`, whatever the buyer and the lines.
pub proof fn lemma_no_rules_no_discount(input: InputView)
    requires
        input.rules matches Some(r) ==> r.len() == 0,
    ensures
        spec_evaluate(input).discounts.len() == 0,
        spec_evaluate(input).strategy == DiscountApplicationStrategy::First,
{
    let tags = match input.customer_tags {
        Some(t) => t,
        None => Seq::empty(),
    };
    match input.rules {
        Some(r) => assert(r == Seq::<RuleView>::empty()),
        None => {},
    }
    lemma_no_rules_no_line_discount(tags, input.lines);
}

/// A rule restricted to buyer tags never matches a buyer without tags, nor
/// one who has none of its tags; it matches a buyer who has one of them,
/// when it is active and its other two axes pass.
pub proof fn lemma_tag_gate(rule: RuleView, tags: Seq<Seq<char>>, line: LineView)
    requires
        rule.customer_tags.len() > 0,
    ensures
        tags.len() == 0 ==> !spec_matches(rule, tags, line),
        !intersects(rule.customer_tags, tags) ==> !spec_matches(rule, tags, line),
        (exists|t: Seq<char>| rule.customer_tags.contains(t) && tags.contains(t))
            && rule.is_active
            && axis_passes(rule.product_ids, seq![line.product_id])
            && axis_passes(rule.collection_ids, line.collection_ids)
            ==> spec_matches(rule, tags, line),
{
    if exists|t: Seq<char>| rule.customer_tags.contains(t) && tags.contains(t) {
        let t = choose|t: Seq<char>| rule.customer_tags.contains(t) && tags.contains(t);
        let i = choose|i: int| 0 <= i < rule.customer_tags.len() && rule.customer_tags[i] == t;
        assert(tags.contains(rule.customer_tags[i]));
    }
}

/// An active rule without product and collection ids matches every line once
/// its tag axis passes.
pub proof fn lemma_unrestricted_rule_matches_every_line(rule: RuleView, tags: Seq<Seq<char>>, line: LineView)
    requires
        rule.is_active,
        rule.product_ids.len() == 0,
        rule.collection_ids.len() == 0,
        axis_passes(rule.customer_tags, tags),
    ensures
        spec_matches(rule, tags, line),
{
}

/// A rule with product ids that do not hold the line's product never matches
/// that line, whatever the buyer's tags.
pub proof fn lemma_product_restriction_excludes(rule: RuleView, tags: Seq<Seq<char>>, line: LineView)
    requires
        rule.product_ids.len() > 0,
        !rule.product_ids.contains(line.product_id),
    ensures
        !spec_matches(rule, tags, line),
{
    if intersects(rule.product_ids, seq![line.product_id]) {
        let i = choose|i: int| 0 <= i < rule.product_ids.len()
            && seq![line.product_id].contains(#[trigger] rule.product_ids[i]);
        let j = choose|j: int| 0 <= j < 1 && seq![line.product_id][j] == rule.product_ids[i];
        assert(rule.product_ids.contains(line.product_id));
    }
}

/// Of two eligible rules for a line, the one with the larger priority is never
/// the effective rule; the effective rule's priority is at most that of every
/// eligible rule.
pub proof fn lemma_lower_priority_wins(rules: Seq<RuleView>, tags: Seq<Seq<char>>, line: LineView, i: int, j: int)
    requires
        0 <= i < rules.len(),
        0 <= j < rules.len(),
        eligible(rules[i], tags, line),
        eligible(rules[j], tags, line),
        rules[i].priority < rules[j].priority,
    ensures
        resolved(rules, tags, line) matches Some(k) && rules[k].priority <= rules[i].priority,
        resolved(rules, tags, line) != Some(j),
{
    lemma_best_upto(rules, tags, line, rules.len() as int);
    let k = resolved(rules, tags, line)->Some_0;
    assert(!precedes(rules[i], rules[k]));
}

/// With two eligible rules of priorities 1 and 2 and no other, the line's
/// effective rule is the one of priority 1.
pub proof fn lemma_priority_one_over_two(rules: Seq<RuleView>, tags: Seq<Seq<char>>, line: LineView, i: int, j: int)
    requires
        0 <= i < rules.len(),
        0 <= j < rules.len(),
        eligible(rules[i], tags, line),
        eligible(rules[j], tags, line),
        rules[i].priority == 1,
        rules[j].priority == 2,
        forall|m: int| 0 <= m < rules.len() && m != i && m != j ==> !eligible(#[trigger] rules[m], tags, line),
    ensures
        resolved(rules, tags, line) == Some(i),
{
    lemma_lower_priority_wins(rules, tags, line, i, j);
    lemma_best_upto(rules, tags, line, rules.len() as int);
}

/// The decision depends on the content of the input alone: two inputs that
/// hold the same strings, numbers and flags give the same decision.
pub proof fn lemma_evaluation_deterministic(a: RunInput, b: RunInput)
    requires
        a@ == b@,
    ensures
        spec_evaluate(a@) == spec_evaluate(b@),
{
}

/// The discount that fits a line: not negative, no more than the line's
/// extended price, and for that line.
pub open spec fn fits_some_line(d: DiscountView, lines: Seq<LineView>) -> bool {
    &&& 0 <= d.amount
    &&& exists|j: int| 0 <= j < lines.len() && (#[trigger] lines[j]).id == d.line_id
        && d.amount <= lines[j].unit_price * lines[j].quantity
}

proof fn lemma_line_discount_fits(rules: Seq<RuleView>, tags: Seq<Seq<char>>, line: LineView)
    requires
        !line_fails(rules, tags, line),
    ensures
        line_discount(rules, tags, line) matches Some(d) ==> {
            &&& d.line_id == line.id
            &&& 0 <= d.amount <= line.unit_price * line.quantity
        },
{
    lemma_best_upto(rules, tags, line, rules.len() as int);
    if let Some(k) = resolved(rules, tags, line) {
        let t = spec_validate(rules[k])->Ok_0;
        assert(value_in_domain(t, rules[k].discount_value));
        lemma_amount_within_line_price(t, rules[k].discount_value, line.quantity, line.unit_price);
    }
}

proof fn lemma_discounts_of_fit(rules: Seq<RuleView>, tags: Seq<Seq<char>>, lines: Seq<LineView>)
    requires
        !any_line_fails(rules, tags, lines),
    ensures
        forall|i: int| 0 <= i < discounts_of(rules, tags, lines).len()
            ==> fits_some_line(#[trigger] discounts_of(rules, tags, lines)[i], lines),
    decreases lines.len(),
{
    if lines.len() > 0 {
        let prefix = lines.drop_last();
        assert forall|i: int| 0 <= i < prefix.len() implies !line_fails(rules, tags, #[trigger] prefix[i]) by {
            assert(prefix[i] == lines[i]);
        }
        lemma_discounts_of_fit(rules, tags, prefix);
        let last = lines.last();
        assert(!line_fails(rules, tags, lines[lines.len() - 1]));
        lemma_line_discount_fits(rules, tags, last);
        let prev = discounts_of(rules, tags, prefix);
        assert forall|i: int| 0 <= i < discounts_of(rules, tags, lines).len()
            implies fits_some_line(#[trigger] discounts_of(rules, tags, lines)[i], lines) by {
            let d = discounts_of(rules, tags, lines)[i];
            if i < prev.len() {
                assert(d == prev[i]);
                assert(fits_some_line(prev[i], prefix));
                let j = choose|j: int| 0 <= j < prefix.len() && (#[trigger] prefix[j]).id == d.line_id
                    && d.amount <= prefix[j].unit_price * prefix[j].quantity;
                assert(lines[j] == prefix[j]);
            } else {
                assert(lines[lines.len() - 1] == last);
            }
        }
    }
}

/// Every discount of a decision is for a line of the cart, not negative, and
/// no more than that line's extended price.
pub proof fn lemma_discounts_within_line_price(input: InputView)
    ensures
        forall|i: int| 0 <= i < spec_evaluate(input).discounts.len()
            ==> fits_some_line(#[trigger] spec_evaluate(input).discounts[i], input.lines),
{
    let rules = match input.rules {
        Some(r) => r,
        None => Seq::empty(),
    };
    let tags = match input.customer_tags {
        Some(t) => t,
        None => Seq::empty(),
    };
    if !any_line_fails(rules, tags, input.lines) {
        lemma_discounts_of_fit(rules, tags, input.lines);
    }
}

} // verus!
