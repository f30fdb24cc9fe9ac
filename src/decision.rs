use vstd::prelude::*;
use crate::model::{spec_validate, strs, validate_rule, CartLine, DiscountType, InputView, LineView, PricingRule, RuleView, RunInput};
use crate::resolver::{resolve, resolved, rule_views};
use crate::calculator::{compute_amount, spec_amount};

verus! {

/// How the host combines the discounts of one decision.
#[derive(Clone, Copy, PartialEq, Eq, Structural, Debug)]
pub enum DiscountApplicationStrategy {
    First,
    All,
}

/// The discount that one rule gives one line, in hundredths of the currency unit.
#[derive(Debug, PartialEq)]
pub struct Discount {
    pub line_id: String,
    pub rule_id: String,
    pub discount_type: DiscountType,
    pub amount: i128,
}

/// The result of one evaluation: the discounts in cart line order, and how to
/// combine them. Each line gets at most one discount, so the strategy is
/// always `First`.
#[derive(Debug, PartialEq)]
pub struct DiscountDecision {
    pub discounts: Vec<Discount>,
    pub discount_application_strategy: DiscountApplicationStrategy,
}

pub struct DiscountView {
    pub line_id: Seq<char>,
    pub rule_id: Seq<char>,
    pub discount_type: DiscountType,
    pub amount: int,
}

pub struct DecisionView {
    pub discounts: Seq<DiscountView>,
    pub strategy: DiscountApplicationStrategy,
}

impl View for Discount {
    type V = DiscountView;

    open spec fn view(&self) -> DiscountView {
        DiscountView {
            line_id: self.line_id@,
            rule_id: self.rule_id@,
            discount_type: self.discount_type,
            amount: self.amount as int,
        }
    }
}

impl View for DiscountDecision {
    type V = DecisionView;

    open spec fn view(&self) -> DecisionView {
        DecisionView {
            discounts: discount_views(self.discounts@),
            strategy: self.discount_application_strategy,
        }
    }
}

pub open spec fn discount_views(v: Seq<Discount>) -> Seq<DiscountView> {
    v.map_values(|d: Discount| d@)
}

/// A line whose effective rule cannot be applied, its price or quantity
/// being negative.
pub open spec fn line_fails(rules: Seq<RuleView>, tags: Seq<Seq<char>>, line: LineView) -> bool {
    resolved(rules, tags, line) is Some && (line.unit_price < 0 || line.quantity < 0)
}

/// The discount of a line: its effective rule applied to it, if it has one.
pub open spec fn line_discount(rules: Seq<RuleView>, tags: Seq<Seq<char>>, line: LineView) -> Option<DiscountView> {
    match resolved(rules, tags, line) {
        None => None,
        Some(k) => {
            let rule = rules[k];
            let t = spec_validate(rule)->Ok_0;
            Some(DiscountView {
                line_id: line.id,
                rule_id: rule.id,
                discount_type: t,
                amount: spec_amount(t, rule.discount_value, line.quantity, line.unit_price),
            })
        },
    }
}

/// The discounts of the lines, in line order.
pub open spec fn discounts_of(rules: Seq<RuleView>, tags: Seq<Seq<char>>, lines: Seq<LineView>) -> Seq<DiscountView>
    decreases lines.len(),
{
    if lines.len() == 0 {
        Seq::empty()
    } else {
        let prev = discounts_of(rules, tags, lines.drop_last());
        match line_discount(rules, tags, lines.last()) {
            None => prev,
            Some(d) => prev.push(d),
        }
    }
}

/// Some line cannot take its discount.
pub open spec fn any_line_fails(rules: Seq<RuleView>, tags: Seq<Seq<char>>, lines: Seq<LineView>) -> bool {
    exists|i: int| 0 <= i < lines.len() && line_fails(rules, tags, #[trigger] lines[i])
}

/// The decision of one evaluation: each line's discount in line order, or no
/// discount at all where some line cannot take its own.
pub open spec fn spec_evaluate(input: InputView) -> DecisionView {
    let rules = match input.rules {
        Some(r) => r,
        None => Seq::empty(),
    };
    let tags = match input.customer_tags {
        Some(t) => t,
        None => Seq::empty(),
    };
    DecisionView {
        discounts: if any_line_fails(rules, tags, input.lines) {
            Seq::empty()
        } else {
            discounts_of(rules, tags, input.lines)
        },
        strategy: DiscountApplicationStrategy::First,
    }
}

pub open spec fn line_views(v: Seq<CartLine>) -> Seq<LineView> {
    v.map_values(|l: CartLine| l@)
}

/// The discount of each line in order, or `None` where some line's effective
/// rule meets a negative price or quantity.
pub fn line_discounts(rules: &Vec<PricingRule>, customer_tags: &Vec<String>, lines: &Vec<CartLine>) -> (r: Option<Vec<Discount>>)
    ensures
        r is None <==> any_line_fails(rule_views(rules@), strs(customer_tags@), line_views(lines@)),
        r matches Some(v) ==> discount_views(v@) == discounts_of(rule_views(rules@), strs(customer_tags@), line_views(lines@)),
{
    let ghost views = rule_views(rules@);
    let ghost tags = strs(customer_tags@);
    let ghost all = line_views(lines@);
    let mut out: Vec<Discount> = Vec::new();
    let mut i: usize = 0;
    while i < lines.len()
        invariant
            i <= lines@.len(),
            views == rule_views(rules@),
            tags == strs(customer_tags@),
            all == line_views(lines@),
            discount_views(out@) == discounts_of(views, tags, all.take(i as int)),
            forall|j: int| 0 <= j < i ==> !line_fails(views, tags, #[trigger] all[j]),
        decreases lines.len() - i,
    {
        let line = &lines[i];
        assert(all[i as int] == line@);
        assert(all.take(i as int + 1).drop_last() == all.take(i as int));
        assert(all.take(i as int + 1).last() == line@);
        match resolve(rules, customer_tags, line) {
            None => {},
            Some(k) => {
                let rule = &rules[k];
                assert(views[k as int] == rule@);
                let t = match validate_rule(rule) {
                    Ok(t) => t,
                    Err(_) => {
                        assert(false);
                        DiscountType::Fixed
                    },
                };
                match compute_amount(t, rule.discount_value, line.quantity, line.unit_price) {
                    Err(_) => {
                        assert(line_fails(views, tags, all[i as int]));
                        return None;
                    },
                    Ok(amount) => {
                        let d = Discount {
                            line_id: line.id.clone(),
                            rule_id: rule.id.clone(),
                            discount_type: t,
                            amount,
                        };
                        out.push(d);
                        assert(discount_views(out@) == discount_views(out@).drop_last().push(d@));
                        assert(discount_views(out@).drop_last() == discount_views(out@.drop_last()));
                    },
                }
            },
        }
        i = i + 1;
    }
    assert(all.take(lines@.len() as int) == all);
    Some(out)
}

/// Evaluates the rule set against the cart. A missing rule set or buyer
/// counts as empty; rules that do not decode are skipped. Every line gets the
/// discount of its effective rule; where some line's effective rule meets a
/// negative price or quantity the decision holds no discount at all.
pub fn run(input: &RunInput) -> (r: DiscountDecision)
    ensures
        r@ == spec_evaluate(input@),
{
    let no_rules: Vec<PricingRule> = Vec::new();
    let no_tags: Vec<String> = Vec::new();
    let rules = match &input.configuration {
        Some(c) => &c.pricing_rules,
        None => &no_rules,
    };
    let tags = match &input.customer_tags {
        Some(t) => t,
        None => &no_tags,
    };
    proof {
        assert(rule_views(no_rules@) == Seq::<RuleView>::empty());
        assert(strs(no_tags@) == Seq::<Seq<char>>::empty());
    }
    let discounts = match line_discounts(rules, tags, &input.lines) {
        Some(v) => v,
        None => Vec::new(),
    };
    proof {
        assert(discount_views(Seq::<Discount>::empty()) == Seq::<DiscountView>::empty());
    }
    DiscountDecision { discounts, discount_application_strategy: DiscountApplicationStrategy::First }
}

} // verus!
