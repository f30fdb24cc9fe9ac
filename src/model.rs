use vstd::prelude::*;

verus! {

/// How a rule's `discount_value` is applied to a line.
#[derive(Clone, Copy, PartialEq, Eq, Structural, Debug)]
pub enum DiscountType {
    Percentage,
    Fixed,
}

/// A merchant's pricing rule as configured.
///
/// `discount_value` counts hundredths: of a percent for a percentage rule, of
/// the currency unit for a fixed rule. Among rules that match one line, the
/// smaller `priority` wins; equal priorities fall back to the smaller `id`.
#[derive(Debug, PartialEq)]
pub struct PricingRule {
    pub id: String,
    pub customer_tags: Vec<String>,
    pub product_ids: Vec<String>,
    pub collection_ids: Vec<String>,
    pub discount_type: String,
    pub discount_value: i64,
    pub priority: i32,
    pub is_active: bool,
}

/// The rule set of one evaluation.
#[derive(Debug, PartialEq)]
pub struct Configuration {
    pub pricing_rules: Vec<PricingRule>,
}

/// Why a configured rule cannot be used.
#[derive(Clone, Copy, PartialEq, Eq, Structural, Debug)]
pub enum ConfigError {
    /// `discount_type` is neither `"percentage"` nor `"fixed"`.
    UnknownDiscountType,
    /// `discount_value` is below zero.
    NegativeValue,
    /// A percentage rule above 100 %.
    PercentageAbove100,
}

/// One line of the cart. `unit_price` counts hundredths of the currency unit.
#[derive(Debug, PartialEq)]
pub struct CartLine {
    pub id: String,
    pub quantity: i32,
    pub product_id: String,
    pub collection_ids: Vec<String>,
    pub unit_price: i64,
}

/// Everything one evaluation reads: the rule set (absent when the merchant
/// stored none), the buyer's tags (absent for an anonymous buyer) and the lines.
#[derive(Debug, PartialEq)]
pub struct RunInput {
    pub configuration: Option<Configuration>,
    pub customer_tags: Option<Vec<String>>,
    pub lines: Vec<CartLine>,
}

/// The characters of each string of a sequence.
pub open spec fn strs(v: Seq<String>) -> Seq<Seq<char>> {
    v.map_values(|s: String| s@)
}

pub struct RuleView {
    pub id: Seq<char>,
    pub customer_tags: Seq<Seq<char>>,
    pub product_ids: Seq<Seq<char>>,
    pub collection_ids: Seq<Seq<char>>,
    pub discount_type: Seq<char>,
    pub discount_value: int,
    pub priority: int,
    pub is_active: bool,
}

pub struct LineView {
    pub id: Seq<char>,
    pub quantity: int,
    pub product_id: Seq<char>,
    pub collection_ids: Seq<Seq<char>>,
    pub unit_price: int,
}

pub struct InputView {
    pub rules: Option<Seq<RuleView>>,
    pub customer_tags: Option<Seq<Seq<char>>>,
    pub lines: Seq<LineView>,
}

impl View for PricingRule {
    type V = RuleView;

    open spec fn view(&self) -> RuleView {
        RuleView {
            id: self.id@,
            customer_tags: strs(self.customer_tags@),
            product_ids: strs(self.product_ids@),
            collection_ids: strs(self.collection_ids@),
            discount_type: self.discount_type@,
            discount_value: self.discount_value as int,
            priority: self.priority as int,
            is_active: self.is_active,
        }
    }
}

impl View for Configuration {
    type V = Seq<RuleView>;

    open spec fn view(&self) -> Seq<RuleView> {
        self.pricing_rules@.map_values(|r: PricingRule| r@)
    }
}

impl View for CartLine {
    type V = LineView;

    open spec fn view(&self) -> LineView {
        LineView {
            id: self.id@,
            quantity: self.quantity as int,
            product_id: self.product_id@,
            collection_ids: strs(self.collection_ids@),
            unit_price: self.unit_price as int,
        }
    }
}

impl View for RunInput {
    type V = InputView;

    open spec fn view(&self) -> InputView {
        InputView {
            rules: match self.configuration {
                Some(c) => Some(c@),
                None => None,
            },
            customer_tags: match self.customer_tags {
                Some(t) => Some(strs(t@)),
                None => None,
            },
            lines: self.lines@.map_values(|l: CartLine| l@),
        }
    }
}

/// What the configured type literal names, if it names a known type.
pub open spec fn spec_discount_type(s: Seq<char>) -> Option<DiscountType> {
    if s == "percentage"@ {
        Some(DiscountType::Percentage)
    } else if s == "fixed"@ {
        Some(DiscountType::Fixed)
    } else {
        None
    }
}

/// The outcome of decoding one configured rule.
pub open spec fn spec_validate(r: RuleView) -> Result<DiscountType, ConfigError> {
    match spec_discount_type(r.discount_type) {
        None => Err(ConfigError::UnknownDiscountType),
        Some(t) => if r.discount_value < 0 {
            Err(ConfigError::NegativeValue)
        } else if t == DiscountType::Percentage && r.discount_value > 10000 {
            Err(ConfigError::PercentageAbove100)
        } else {
            Ok(t)
        },
    }
}

/// A rule that decodes; the evaluation skips every other rule.
pub open spec fn rule_valid(r: RuleView) -> bool {
    spec_validate(r) is Ok
}

/// Reads the wire literal of a discount type.
pub fn parse_discount_type(s: &String) -> (r: Option<DiscountType>)
    ensures
        r == spec_discount_type(s@),
{
    let percentage = "percentage".to_owned();
    let fixed = "fixed".to_owned();
    if *s == percentage {
        Some(DiscountType::Percentage)
    } else if *s == fixed {
        Some(DiscountType::Fixed)
    } else {
        None
    }
}

/// Decodes a configured rule: its discount type, or why it is out of domain.
pub fn validate_rule(rule: &PricingRule) -> (r: Result<DiscountType, ConfigError>)
    ensures
        r == spec_validate(rule@),
{
    match parse_discount_type(&rule.discount_type) {
        None => Err(ConfigError::UnknownDiscountType),
        Some(t) => {
            if rule.discount_value < 0 {
                Err(ConfigError::NegativeValue)
            } else if t == DiscountType::Percentage && rule.discount_value > 10000 {
                Err(ConfigError::PercentageAbove100)
            } else {
                Ok(t)
            }
        },
    }
}

} // verus!
