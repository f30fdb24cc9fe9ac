use vstd::prelude::*;
use crate::model::DiscountType;

verus! {

/// Why an amount cannot be computed; a well-formed cart never gives one.
#[derive(Clone, Copy, PartialEq, Eq, Structural, Debug)]
pub enum CalculationError {
    NegativeUnitPrice,
    NegativeQuantity,
}

/// `n / d` rounded to the nearest integer, halves going to the even one.
pub open spec fn round_half_even(n: int, d: int) -> int {
    let q = n / d;
    let r = n % d;
    if 2 * r < d {
        q
    } else if 2 * r > d {
        q + 1
    } else if q % 2 == 0 {
        q
    } else {
        q + 1
    }
}

/// The discount, in hundredths of the currency unit, that a rule of type `t`
/// and value `value` gives a line of `quantity` items at `unit_price` each.
pub open spec fn spec_amount(t: DiscountType, value: int, quantity: int, unit_price: int) -> int {
    let extended = unit_price * quantity;
    match t {
        DiscountType::Percentage => round_half_even(extended * value, 10000),
        DiscountType::Fixed => if value * quantity <= extended {
            value * quantity
        } else {
            extended
        },
    }
}

/// A value in the domain of its discount type.
pub open spec fn value_in_domain(t: DiscountType, value: int) -> bool {
    0 <= value && (t == DiscountType::Percentage ==> value <= 10000)
}

/// A discount is never negative and never exceeds the extended price of the
/// line, so no line is driven below zero.
pub proof fn lemma_amount_within_line_price(t: DiscountType, value: int, quantity: int, unit_price: int)
    requires
        value_in_domain(t, value),
        0 <= quantity,
        0 <= unit_price,
    ensures
        0 <= spec_amount(t, value, quantity, unit_price) <= unit_price * quantity,
{
    assert(0 <= unit_price * quantity) by (nonlinear_arith)
        requires 0 <= quantity, 0 <= unit_price;
    assert(0 <= value * quantity) by (nonlinear_arith)
        requires 0 <= quantity, 0 <= value;
    if t == DiscountType::Percentage {
        lemma_rounded_within(unit_price * quantity, value);
    }
}

proof fn lemma_rounded_within(e: int, v: int)
    requires
        0 <= e,
        0 <= v <= 10000,
    ensures
        0 <= round_half_even(e * v, 10000) <= e,
{
    let n = e * v;
    assert(0 <= n <= e * 10000) by (nonlinear_arith)
        requires 0 <= e, 0 <= v <= 10000, n == e * v;
    let q = n / 10000;
    let r = n % 10000;
    assert(n == q * 10000 + r && 0 <= r < 10000);
    assert(0 <= q <= e) by (nonlinear_arith)
        requires n == q * 10000 + r, 0 <= r < 10000, 0 <= n <= e * 10000;
    if q == e {
        assert(r == 0) by (nonlinear_arith)
            requires n == q * 10000 + r, 0 <= r, n <= e * 10000, q == e;
    }
}

/// The discount that a rule of type `discount_type` and value
/// `discount_value` gives a line of `quantity` items at `unit_price` each.
/// A percentage is taken of the extended price `unit_price * quantity` and
/// rounded half to even; a fixed value counts per item and is capped at the
/// extended price. The amount never exceeds the extended price.
pub fn compute_amount(
    discount_type: DiscountType,
    discount_value: i64,
    quantity: i32,
    unit_price: i64,
) -> (r: Result<i128, CalculationError>)
    requires
        value_in_domain(discount_type, discount_value as int),
    ensures
        r is Err <==> (unit_price < 0 || quantity < 0),
        unit_price < 0 ==> r == Err::<i128, CalculationError>(CalculationError::NegativeUnitPrice),
        unit_price >= 0 && quantity < 0 ==> r == Err::<i128, CalculationError>(CalculationError::NegativeQuantity),
        r matches Ok(a) ==> {
            &&& a == spec_amount(discount_type, discount_value as int, quantity as int, unit_price as int)
            &&& 0 <= a <= unit_price * quantity
        },
{
    if unit_price < 0 {
        return Err(CalculationError::NegativeUnitPrice);
    }
    if quantity < 0 {
        return Err(CalculationError::NegativeQuantity);
    }
    let p = unit_price as i128;
    let q = quantity as i128;
    let v = discount_value as i128;
    assert(0 <= p * q <= 0x8000_0000_0000_0000 * 0x8000_0000) by (nonlinear_arith)
        requires 0 <= p < 0x8000_0000_0000_0000, 0 <= q < 0x8000_0000;
    let extended = p * q;
    match discount_type {
        DiscountType::Percentage => {
            assert(0 <= extended * v <= 0x8000_0000_0000_0000 * 0x8000_0000 * 10000) by (nonlinear_arith)
                requires 0 <= extended <= 0x8000_0000_0000_0000 * 0x8000_0000, 0 <= v <= 10000;
            let n = extended * v;
            let whole = n / 10000;
            let rest = n % 10000;
            let a = if 2 * rest < 10000 {
                whole
            } else if 2 * rest > 10000 {
                whole + 1
            } else if whole % 2 == 0 {
                whole
            } else {
                whole + 1
            };
            proof {
                lemma_amount_within_line_price(discount_type, v as int, q as int, p as int);
            }
            Ok(a)
        },
        DiscountType::Fixed => {
            assert(0 <= v * q <= 0x8000_0000_0000_0000 * 0x8000_0000) by (nonlinear_arith)
                requires 0 <= v < 0x8000_0000_0000_0000, 0 <= q < 0x8000_0000;
            let per_items = v * q;
            if per_items <= extended {
                Ok(per_items)
            } else {
                Ok(extended)
            }
        },
    }
}

} // verus!
