use vstd::prelude::*;
use vstd::string::*;
use crate::model::{PricingRule, RuleView};

verus! {

/// Lexicographic order by code point, comparing from position `i` on: `a`
/// comes first when it differs first with a smaller character, or is a
/// proper prefix of `b`.
pub open spec fn lex_lt_from(a: Seq<char>, b: Seq<char>, i: int) -> bool
    decreases a.len() - i,
{
    if i < 0 || i >= a.len() {
        0 <= i < b.len()
    } else if i >= b.len() {
        false
    } else if a[i] != b[i] {
        (a[i] as u32) < (b[i] as u32)
    } else {
        lex_lt_from(a, b, i + 1)
    }
}

/// `a` sorts strictly before `b` in lexicographic order.
pub open spec fn lex_lt(a: Seq<char>, b: Seq<char>) -> bool {
    lex_lt_from(a, b, 0)
}

/// Rule `a` takes precedence over rule `b`: a smaller priority, or the same
/// priority and a smaller id.
pub open spec fn precedes(a: RuleView, b: RuleView) -> bool {
    a.priority < b.priority || (a.priority == b.priority && lex_lt(a.id, b.id))
}

pub proof fn lemma_lex_lt_from_irreflexive(a: Seq<char>, i: int)
    requires
        0 <= i,
    ensures
        !lex_lt_from(a, a, i),
    decreases a.len() - i,
{
    if i < a.len() {
        lemma_lex_lt_from_irreflexive(a, i + 1);
    }
}

pub proof fn lemma_lex_lt_from_transitive(a: Seq<char>, b: Seq<char>, c: Seq<char>, i: int)
    requires
        0 <= i,
        lex_lt_from(a, b, i),
        lex_lt_from(b, c, i),
    ensures
        lex_lt_from(a, c, i),
    decreases a.len() - i,
{
    if i < a.len() && i < b.len() && i < c.len() && a[i] == b[i] && b[i] == c[i] {
        lemma_lex_lt_from_transitive(a, b, c, i + 1);
    }
}

/// No rule takes precedence over itself.
pub proof fn lemma_precedes_irreflexive(a: RuleView)
    ensures
        !precedes(a, a),
{
    lemma_lex_lt_from_irreflexive(a.id, 0);
}

/// Precedence is transitive.
pub proof fn lemma_precedes_transitive(a: RuleView, b: RuleView, c: RuleView)
    requires
        precedes(a, b),
        precedes(b, c),
    ensures
        precedes(a, c),
{
    if a.priority == b.priority && b.priority == c.priority {
        lemma_lex_lt_from_transitive(a.id, b.id, c.id, 0);
    }
}

/// Whether `a` sorts strictly before `b`, by code point.
pub fn lex_less(a: &String, b: &String) -> (r: bool)
    ensures
        r == lex_lt(a@, b@),
{
    let sa = a.as_str();
    let sb = b.as_str();
    let la = sa.unicode_len();
    let lb = sb.unicode_len();
    let mut i: usize = 0;
    while i < la && i < lb
        invariant
            la == a@.len(),
            lb == b@.len(),
            sa@ == a@,
            sb@ == b@,
            i <= la,
            i <= lb,
            lex_lt(a@, b@) == lex_lt_from(a@, b@, i as int),
        decreases la - i,
    {
        let ca = sa.get_char(i);
        let cb = sb.get_char(i);
        if ca != cb {
            return (ca as u32) < (cb as u32);
        }
        i = i + 1;
    }
    i < lb
}

/// Whether rule `a` takes precedence over rule `b`.
pub fn rule_precedes(a: &PricingRule, b: &PricingRule) -> (r: bool)
    ensures
        r == precedes(a@, b@),
{
    a.priority < b.priority || (a.priority == b.priority && lex_less(&a.id, &b.id))
}

} // verus!
