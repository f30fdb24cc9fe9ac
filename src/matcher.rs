use vstd::prelude::*;
use crate::model::{strs, CartLine, LineView, PricingRule, RuleView};

verus! {

/// Some string is in both sequences.
pub open spec fn intersects(a: Seq<Seq<char>>, b: Seq<Seq<char>>) -> bool {
    exists|i: int| 0 <= i < a.len() && b.contains(#[trigger] a[i])
}

/// An axis with no ids passes; otherwise it needs a common id.
pub open spec fn axis_passes(restriction: Seq<Seq<char>>, present: Seq<Seq<char>>) -> bool {
    restriction.len() == 0 || intersects(restriction, present)
}

/// Whether `rule` applies to `line` for a buyer with tags `tags`.
pub open spec fn spec_matches(rule: RuleView, tags: Seq<Seq<char>>, line: LineView) -> bool {
    &&& rule.is_active
    &&& axis_passes(rule.customer_tags, tags)
    &&& axis_passes(rule.product_ids, seq![line.product_id])
    &&& axis_passes(rule.collection_ids, line.collection_ids)
}

/// Whether `s` is one of the strings of `v`.
pub fn contains_str(v: &Vec<String>, s: &String) -> (r: bool)
    ensures
        r == strs(v@).contains(s@),
{
    let mut i: usize = 0;
    while i < v.len()
        invariant
            i <= v.len(),
            forall|j: int| 0 <= j < i ==> v@[j]@ != s@,
        decreases v.len() - i,
    {
        if v[i] == *s {
            assert(strs(v@)[i as int] == s@);
            return true;
        }
        i = i + 1;
    }
    proof {
        if strs(v@).contains(s@) {
            let j = choose|j: int| 0 <= j < strs(v@).len() && strs(v@)[j] == s@;
            assert(v@[j]@ == s@);
        }
    }
    false
}

/// Whether the two sequences of strings share a string.
pub fn intersects_strs(a: &Vec<String>, b: &Vec<String>) -> (r: bool)
    ensures
        r == intersects(strs(a@), strs(b@)),
{
    let mut i: usize = 0;
    while i < a.len()
        invariant
            i <= a.len(),
            forall|j: int| 0 <= j < i ==> !strs(b@).contains(#[trigger] strs(a@)[j]),
        decreases a.len() - i,
    {
        if contains_str(b, &a[i]) {
            assert(strs(b@).contains(strs(a@)[i as int]));
            return true;
        }
        i = i + 1;
    }
    false
}

/// Whether `rule` applies to `line` for a buyer with tags `customer_tags`:
/// the rule is active and each of its three axes passes.
pub fn matches(rule: &PricingRule, customer_tags: &Vec<String>, line: &CartLine) -> (r: bool)
    ensures
        r == spec_matches(rule@, strs(customer_tags@), line@),
{
    if !rule.is_active {
        return false;
    }
    if rule.customer_tags.len() > 0 && !intersects_strs(&rule.customer_tags, customer_tags) {
        return false;
    }
    if rule.product_ids.len() > 0 && !contains_str(&rule.product_ids, &line.product_id) {
        proof {
            if intersects(strs(rule.product_ids@), seq![line.product_id@]) {
                let i = choose|i: int| 0 <= i < strs(rule.product_ids@).len()
                    && seq![line.product_id@].contains(#[trigger] strs(rule.product_ids@)[i]);
                assert(seq![line.product_id@][0] == line.product_id@);
                assert(strs(rule.product_ids@).contains(line.product_id@));
            }
        }
        return false;
    }
    if rule.collection_ids.len() > 0 && !intersects_strs(&rule.collection_ids, &line.collection_ids) {
        return false;
    }
    proof {
        if rule.product_ids.len() > 0 {
            let j = choose|j: int| 0 <= j < strs(rule.product_ids@).len()
                && strs(rule.product_ids@)[j] == line.product_id@;
            assert(seq![line.product_id@][0] == line.product_id@);
            assert(seq![line.product_id@].contains(strs(rule.product_ids@)[j]));
        }
    }
    true
}

} // verus!
