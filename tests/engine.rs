use b2b_pricing::calculator::{compute_amount, CalculationError};
use b2b_pricing::decision::{line_discounts, run, DiscountApplicationStrategy};
use b2b_pricing::matcher::{contains_str, intersects_strs};
use b2b_pricing::model::{
    parse_discount_type, validate_rule, CartLine, ConfigError, Configuration, DiscountType,
    PricingRule, RunInput,
};
use b2b_pricing::order::{lex_less, rule_precedes};
use b2b_pricing::resolver::resolve;

fn strings(v: &[&str]) -> Vec<String> {
    v.iter().map(|s| s.to_string()).collect()
}

fn rule(id: &str, tags: &[&str], kind: &str, value: i64, priority: i32) -> PricingRule {
    PricingRule {
        id: id.to_string(),
        customer_tags: strings(tags),
        product_ids: vec![],
        collection_ids: vec![],
        discount_type: kind.to_string(),
        discount_value: value,
        priority,
        is_active: true,
    }
}

fn line(id: &str, quantity: i32, product: &str, collections: &[&str], unit_price: i64) -> CartLine {
    CartLine {
        id: id.to_string(),
        quantity,
        product_id: product.to_string(),
        collection_ids: strings(collections),
        unit_price,
    }
}

fn input(rules: Vec<PricingRule>, tags: &[&str], lines: Vec<CartLine>) -> RunInput {
    RunInput {
        configuration: Some(Configuration { pricing_rules: rules }),
        customer_tags: Some(strings(tags)),
        lines,
    }
}

#[test]
fn empty_configuration_gives_no_discount() {
    let r = run(&input(vec![], &["wholesale"], vec![line("l1", 3, "p1", &["c1"], 1000)]));
    assert!(r.discounts.is_empty());
    assert_eq!(r.discount_application_strategy, DiscountApplicationStrategy::First);
}

#[test]
fn absent_configuration_and_customer_give_no_discount() {
    let r = run(&RunInput {
        configuration: None,
        customer_tags: None,
        lines: vec![line("l1", 1, "p1", &[], 1000)],
    });
    assert!(r.discounts.is_empty());
    assert_eq!(r.discount_application_strategy, DiscountApplicationStrategy::First);
}

#[test]
fn tag_gate_rejects_buyer_without_tags() {
    let r = rule("r", &["wholesale"], "percentage", 1000, 1);
    let l = line("l1", 1, "p1", &[], 1000);
    assert!(!b2b_pricing::matcher::matches(&r, &vec![], &l));
}

#[test]
fn tag_gate_accepts_buyer_with_shared_tag() {
    let r = rule("r", &["wholesale"], "percentage", 1000, 1);
    let l = line("l1", 1, "p1", &[], 1000);
    assert!(b2b_pricing::matcher::matches(&r, &strings(&["wholesale", "vip"]), &l));
    assert!(!b2b_pricing::matcher::matches(&r, &strings(&["vip"]), &l));
}

#[test]
fn anonymous_buyer_matches_untagged_rule_only() {
    let open_rule = rule("open", &[], "fixed", 100, 1);
    let tagged = rule("tagged", &["vip"], "fixed", 100, 1);
    let l = line("l1", 1, "p1", &[], 1000);
    let r = run(&RunInput {
        configuration: Some(Configuration { pricing_rules: vec![tagged, open_rule] }),
        customer_tags: None,
        lines: vec![l],
    });
    assert_eq!(r.discounts.len(), 1);
    assert_eq!(r.discounts[0].rule_id, "open");
}

#[test]
fn unrestricted_rule_matches_every_line() {
    let r = rule("r", &["wholesale"], "percentage", 1000, 1);
    let tags = strings(&["wholesale"]);
    assert!(b2b_pricing::matcher::matches(&r, &tags, &line("l1", 1, "p1", &[], 1000)));
    assert!(b2b_pricing::matcher::matches(&r, &tags, &line("l2", 5, "p2", &["c9"], 50)));
}

#[test]
fn product_restriction_excludes_other_products() {
    let mut r = rule("r", &[], "percentage", 1000, 1);
    r.product_ids = strings(&["p2"]);
    let tags = strings(&["wholesale"]);
    assert!(!b2b_pricing::matcher::matches(&r, &tags, &line("l1", 1, "p1", &[], 1000)));
    assert!(b2b_pricing::matcher::matches(&r, &tags, &line("l2", 1, "p2", &[], 1000)));
}

#[test]
fn collection_restriction_needs_common_collection() {
    let mut r = rule("r", &[], "fixed", 100, 1);
    r.collection_ids = strings(&["c1", "c2"]);
    assert!(b2b_pricing::matcher::matches(&r, &vec![], &line("l1", 1, "p1", &["c3", "c2"], 1000)));
    assert!(!b2b_pricing::matcher::matches(&r, &vec![], &line("l2", 1, "p1", &["c3"], 1000)));
    assert!(!b2b_pricing::matcher::matches(&r, &vec![], &line("l3", 1, "p1", &[], 1000)));
}

#[test]
fn inactive_rule_never_matches() {
    let mut r = rule("r", &[], "fixed", 100, 1);
    r.is_active = false;
    assert!(!b2b_pricing::matcher::matches(&r, &vec![], &line("l1", 1, "p1", &[], 1000)));
}

#[test]
fn percentage_of_extended_price() {
    assert_eq!(compute_amount(DiscountType::Percentage, 1000, 2, 2000), Ok(400));
    let r = run(&input(
        vec![rule("ten", &[], "percentage", 1000, 1)],
        &[],
        vec![line("l1", 2, "p1", &[], 2000)],
    ));
    assert_eq!(r.discounts.len(), 1);
    assert_eq!(r.discounts[0].amount, 400);
    assert_eq!(r.discounts[0].discount_type, DiscountType::Percentage);
}

#[test]
fn fixed_discount_capped_at_extended_price() {
    assert_eq!(compute_amount(DiscountType::Fixed, 5000, 1, 1000), Ok(1000));
    assert_eq!(compute_amount(DiscountType::Fixed, 300, 4, 1000), Ok(1200));
    let r = run(&input(
        vec![rule("fifty", &[], "fixed", 5000, 1)],
        &[],
        vec![line("l1", 1, "p1", &[], 1000)],
    ));
    assert_eq!(r.discounts[0].amount, 1000);
}

#[test]
fn percentage_rounds_half_to_even() {
    // 50 % of 0.01 is 0.005: rounds to 0.00.
    assert_eq!(compute_amount(DiscountType::Percentage, 5000, 1, 1), Ok(0));
    // 50 % of 0.03 is 0.015: rounds to 0.02.
    assert_eq!(compute_amount(DiscountType::Percentage, 5000, 3, 1), Ok(2));
    // 33.33 % of 1.00 is 0.3333: rounds down.
    assert_eq!(compute_amount(DiscountType::Percentage, 3333, 1, 100), Ok(33));
    // 66.67 % of 1.00 is 0.6667: rounds up.
    assert_eq!(compute_amount(DiscountType::Percentage, 6667, 1, 100), Ok(67));
}

#[test]
fn full_percentage_is_whole_price() {
    assert_eq!(compute_amount(DiscountType::Percentage, 10000, 7, 333), Ok(2331));
    assert_eq!(compute_amount(DiscountType::Percentage, 0, 7, 333), Ok(0));
}

#[test]
fn largest_inputs_do_not_overflow() {
    let p = i64::MAX;
    let q = i32::MAX;
    let extended = (p as i128) * (q as i128);
    assert_eq!(compute_amount(DiscountType::Percentage, 10000, q, p), Ok(extended));
    assert_eq!(compute_amount(DiscountType::Fixed, i64::MAX, q, p), Ok(extended));
}

#[test]
fn negative_price_or_quantity_is_a_calculation_error() {
    assert_eq!(
        compute_amount(DiscountType::Fixed, 100, 1, -1),
        Err(CalculationError::NegativeUnitPrice)
    );
    assert_eq!(
        compute_amount(DiscountType::Percentage, 100, -1, 100),
        Err(CalculationError::NegativeQuantity)
    );
}

#[test]
fn calculation_error_fails_closed() {
    let rules = vec![rule("r", &[], "fixed", 100, 1)];
    let lines = vec![line("l1", 1, "p1", &[], 1000), line("l2", -1, "p2", &[], 1000)];
    assert!(line_discounts(&rules, &vec![], &lines).is_none());
    let r = run(&input(rules, &[], lines));
    assert!(r.discounts.is_empty());
    assert_eq!(r.discount_application_strategy, DiscountApplicationStrategy::First);
}

#[test]
fn lower_priority_value_wins() {
    let rules = vec![
        rule("second", &[], "percentage", 2000, 2),
        rule("first", &[], "percentage", 1000, 1),
    ];
    let l = line("l1", 1, "p1", &[], 1000);
    assert_eq!(resolve(&rules, &vec![], &l), Some(1));
    let r = run(&input(rules, &[], vec![l]));
    assert_eq!(r.discounts.len(), 1);
    assert_eq!(r.discounts[0].rule_id, "first");
    assert_eq!(r.discounts[0].amount, 100);
    assert_eq!(r.discount_application_strategy, DiscountApplicationStrategy::First);
}

#[test]
fn equal_priority_goes_to_smaller_id() {
    let rules = vec![rule("b", &[], "fixed", 100, 1), rule("a", &[], "fixed", 200, 1)];
    assert_eq!(resolve(&rules, &vec![], &line("l1", 1, "p1", &[], 1000)), Some(1));
    assert!(rule_precedes(&rules[1], &rules[0]));
    assert!(!rule_precedes(&rules[0], &rules[1]));
}

#[test]
fn equal_rules_go_to_the_earlier() {
    let rules = vec![rule("a", &[], "fixed", 100, 1), rule("a", &[], "fixed", 200, 1)];
    assert_eq!(resolve(&rules, &vec![], &line("l1", 1, "p1", &[], 1000)), Some(0));
}

#[test]
fn no_eligible_rule_resolves_to_none() {
    let rules = vec![rule("a", &["vip"], "fixed", 100, 1), rule("b", &[], "bogus", 200, 1)];
    assert_eq!(resolve(&rules, &vec![], &line("l1", 1, "p1", &[], 1000)), None);
}

#[test]
fn evaluation_is_repeatable() {
    let make = || {
        input(
            vec![
                rule("p2", &["wholesale"], "fixed", 150, 2),
                rule("p1", &["wholesale"], "percentage", 1000, 1),
            ],
            &["wholesale"],
            vec![line("l1", 3, "p1", &["c1"], 1999), line("l2", 1, "p2", &[], 500)],
        )
    };
    let first = run(&make());
    let second = run(&make());
    assert_eq!(first, second);
    assert_eq!(first.discounts.len(), 2);
    assert_eq!(first.discounts[0].rule_id, "p1");
    assert_eq!(first.discounts[0].amount, 600);
    assert_eq!(first.discounts[1].amount, 50);
}

#[test]
fn wholesale_scenario_discounts_ten_percent_of_line() {
    let r = run(&input(
        vec![rule("wholesale-rule", &["wholesale"], "percentage", 1000, 1)],
        &["wholesale"],
        vec![line("l1", 1, "p1", &[], 4990)],
    ));
    assert_eq!(r.discounts.len(), 1);
    assert_eq!(r.discounts[0].line_id, "l1");
    assert_eq!(r.discounts[0].amount, 499);
    assert_eq!(r.discount_application_strategy, DiscountApplicationStrategy::First);
}

#[test]
fn discounts_follow_line_order() {
    let mut only_p2 = rule("only-p2", &[], "fixed", 100, 1);
    only_p2.product_ids = strings(&["p2"]);
    let r = run(&input(
        vec![only_p2, rule("all", &[], "fixed", 50, 5)],
        &[],
        vec![line("a", 1, "p1", &[], 1000), line("b", 1, "p2", &[], 1000), line("c", 1, "p3", &[], 1000)],
    ));
    let ids: Vec<&str> = r.discounts.iter().map(|d| d.line_id.as_str()).collect();
    assert_eq!(ids, vec!["a", "b", "c"]);
    let rules: Vec<&str> = r.discounts.iter().map(|d| d.rule_id.as_str()).collect();
    assert_eq!(rules, vec!["all", "only-p2", "all"]);
}

#[test]
fn discount_type_literals() {
    assert_eq!(parse_discount_type(&"percentage".to_string()), Some(DiscountType::Percentage));
    assert_eq!(parse_discount_type(&"fixed".to_string()), Some(DiscountType::Fixed));
    assert_eq!(parse_discount_type(&"Percentage".to_string()), None);
    assert_eq!(parse_discount_type(&"".to_string()), None);
}

#[test]
fn config_errors() {
    assert_eq!(validate_rule(&rule("r", &[], "bogus", 10, 1)), Err(ConfigError::UnknownDiscountType));
    assert_eq!(validate_rule(&rule("r", &[], "fixed", -1, 1)), Err(ConfigError::NegativeValue));
    assert_eq!(
        validate_rule(&rule("r", &[], "percentage", 10001, 1)),
        Err(ConfigError::PercentageAbove100)
    );
    assert_eq!(validate_rule(&rule("r", &[], "percentage", 10000, 1)), Ok(DiscountType::Percentage));
    assert_eq!(validate_rule(&rule("r", &[], "fixed", 20000, 1)), Ok(DiscountType::Fixed));
}

#[test]
fn invalid_rules_are_skipped() {
    let r = run(&input(
        vec![rule("bad", &[], "percentage", 20000, 0), rule("good", &[], "fixed", 100, 9)],
        &[],
        vec![line("l1", 2, "p1", &[], 1000)],
    ));
    assert_eq!(r.discounts.len(), 1);
    assert_eq!(r.discounts[0].rule_id, "good");
    assert_eq!(r.discounts[0].amount, 200);
}

#[test]
fn string_helpers() {
    let v = strings(&["x", "y"]);
    assert!(contains_str(&v, &"y".to_string()));
    assert!(!contains_str(&v, &"z".to_string()));
    assert!(intersects_strs(&v, &strings(&["z", "x"])));
    assert!(!intersects_strs(&v, &vec![]));
    assert!(lex_less(&"ab".to_string(), &"b".to_string()));
    assert!(lex_less(&"a".to_string(), &"ab".to_string()));
    assert!(!lex_less(&"ab".to_string(), &"ab".to_string()));
    assert!(!lex_less(&"é".to_string(), &"z".to_string()));
}
