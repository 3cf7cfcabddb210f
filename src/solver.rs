use vstd::prelude::*;
use crate::dim::Dim;
use crate::error::TractError;

verus! {

/// A rule between fact slots: two slots hold the same value, or a slot
/// holds a given value.
#[derive(Debug, Clone, Copy, PartialEq, Eq, Structural)]
pub enum Rule {
    Equals(usize, usize),
    Given(usize, Dim),
}

/// Every slot a rule names exists.
pub open spec fn rules_wf(n: int, rules: Seq<Rule>) -> bool {
    forall|k: int| 0 <= k < rules.len() ==> match #[trigger] rules[k] {
        Rule::Equals(a, b) => a < n && b < n,
        Rule::Given(a, _) => a < n,
    }
}

/// Rule `r` ties slot `i` to slot `j`.
pub open spec fn links(r: Rule, i: int, j: int) -> bool {
    match r {
        Rule::Equals(a, b) => (a == i && b == j) || (a == j && b == i),
        Rule::Given(_, _) => false,
    }
}

/// Rule `r` puts value `v` in slot `i`.
pub open spec fn gives(r: Rule, i: int, v: Dim) -> bool {
    match r {
        Rule::Equals(_, _) => false,
        Rule::Given(a, w) => a == i && w == v,
    }
}

/// Slot `i` is shown to hold `v` in at most `depth` steps of propagation
/// from the initial facts and the rules.
pub open spec fn derives(init: Seq<Option<Dim>>, rules: Seq<Rule>, i: int, v: Dim, depth: nat) -> bool
    decreases depth,
{
    ||| (0 <= i < init.len() && init[i] == Some(v))
    ||| (exists|k: int| 0 <= k < rules.len() && #[trigger] gives(rules[k], i, v))
    ||| (depth > 0 && exists|k: int, j: int| 0 <= k < rules.len() && 0 <= j && #[trigger] links(rules[k], i, j)
            && derives(init, rules, j, v, (depth - 1) as nat))
}

/// Some slot is shown to hold two different values.
pub open spec fn conflicting(init: Seq<Option<Dim>>, rules: Seq<Rule>) -> bool {
    exists|i: int, v1: Dim, v2: Dim, d1: nat, d2: nat|
        v1 != v2 && #[trigger] derives(init, rules, i, v1, d1) && #[trigger] derives(init, rules, i, v2, d2)
}

/// What solving yields: the contradiction, or every slot resolved to the
/// value the rules force on it, and left unknown where they force none.
pub open spec fn solved(init: Seq<Option<Dim>>, rules: Seq<Rule>, r: Result<Seq<Option<Dim>>, TractError>) -> bool {
    match r {
        Err(e) => e == TractError::ShapeOrTypeConflict && conflicting(init, rules),
        Ok(s) => {
            &&& !conflicting(init, rules)
            &&& s.len() == init.len()
            &&& forall|i: int, v: Dim| 0 <= i < s.len() ==>
                (s[i] == Some(v) <==> exists|d: nat| #[trigger] derives(init, rules, i, v, d))
        },
    }
}

/// The result with its slots as a sequence.
pub open spec fn result_view(r: Result<Vec<Option<Dim>>, TractError>) -> Result<Seq<Option<Dim>>, TractError> {
    match r {
        Ok(s) => Ok(s@),
        Err(e) => Err(e),
    }
}

/// The rule holds in `s`, its slots being both unknown or both equal.
pub open spec fn settled(r: Rule, s: Seq<Option<Dim>>) -> bool {
    match r {
        Rule::Equals(a, b) => s[a as int] == s[b as int],
        Rule::Given(a, v) => s[a as int] == Some(v),
    }
}

pub open spec fn extends(s: Seq<Option<Dim>>, init: Seq<Option<Dim>>) -> bool {
    &&& s.len() == init.len()
    &&& forall|i: int| 0 <= i < init.len() && (#[trigger] init[i]) is Some ==> s[i] == init[i]
}

pub open spec fn sound(s: Seq<Option<Dim>>, init: Seq<Option<Dim>>, rules: Seq<Rule>) -> bool {
    forall|i: int| 0 <= i < s.len() && (#[trigger] s[i]) is Some ==>
        exists|d: nat| #[trigger] derives(init, rules, i, s[i]->Some_0, d)
}

proof fn lemma_sound_set(s: Seq<Option<Dim>>, init: Seq<Option<Dim>>, rules: Seq<Rule>, i: int, v: Dim, d: nat)
    requires
        sound(s, init, rules),
        derives(init, rules, i, v, d),
        0 <= i < s.len(),
    ensures
        sound(s.update(i, Some(v)), init, rules),
{
    let t = s.update(i, Some(v));
    assert forall|j: int| 0 <= j < t.len() && (#[trigger] t[j]) is Some implies
        exists|d: nat| #[trigger] derives(init, rules, j, t[j]->Some_0, d) by {
        if j != i {
            assert(s[j] == t[j]);
        } else {
            assert(t[j]->Some_0 == v);
            assert(derives(init, rules, j, t[j]->Some_0, d));
        }
    }
}

pub open spec fn unknowns(s: Seq<Option<Dim>>) -> nat
    decreases s.len(),
{
    if s.len() == 0 {
        0
    } else {
        unknowns(s.drop_last()) + if s.last() is None { 1nat } else { 0nat }
    }
}

proof fn lemma_unknowns_resolve(s: Seq<Option<Dim>>, i: int, v: Dim)
    requires
        0 <= i < s.len(),
        s[i] is None,
    ensures
        unknowns(s.update(i, Some(v))) + 1 == unknowns(s),
    decreases s.len(),
{
    let t = s.update(i, Some(v));
    if i == s.len() - 1 {
        assert(t.drop_last() =~= s.drop_last());
    } else {
        lemma_unknowns_resolve(s.drop_last(), i, v);
        assert(t.drop_last() =~= s.drop_last().update(i, Some(v)));
    }
}

/// In a state that extends the initial facts and settles every rule, each
/// derived value is the one the state holds.
proof fn lemma_settled_complete(s: Seq<Option<Dim>>, init: Seq<Option<Dim>>, rules: Seq<Rule>, i: int, v: Dim, d: nat)
    requires
        extends(s, init),
        rules_wf(init.len() as int, rules),
        forall|k: int| 0 <= k < rules.len() ==> settled(#[trigger] rules[k], s),
        derives(init, rules, i, v, d),
        0 <= i < init.len(),
    ensures
        s[i] == Some(v),
    decreases d,
{
    if 0 <= i < init.len() && init[i] == Some(v) {
    } else if exists|k: int| 0 <= k < rules.len() && #[trigger] gives(rules[k], i, v) {
        let k = choose|k: int| 0 <= k < rules.len() && #[trigger] gives(rules[k], i, v);
        assert(settled(rules[k], s));
    } else {
        let (k, j) = choose|k: int, j: int| 0 <= k < rules.len() && 0 <= j && #[trigger] links(rules[k], i, j)
            && derives(init, rules, j, v, (d - 1) as nat);
        assert(settled(rules[k], s));
        assert(rules_wf(init.len() as int, rules));
        let r = rules[k];
        assert(0 <= j < init.len()) by {
            assert(match r { Rule::Equals(a, b) => a < init.len() && b < init.len(), Rule::Given(a, _) => a < init.len() });
        }
        lemma_settled_complete(s, init, rules, j, v, (d - 1) as nat);
    }
}

/// Propagates the rules over the slots until nothing changes. Fails with
/// `ShapeOrTypeConflict` when two rules force different values on a slot.
pub fn solve(init: &Vec<Option<Dim>>, rules: &Vec<Rule>) -> (r: Result<Vec<Option<Dim>>, TractError>)
    requires
        rules_wf(init@.len() as int, rules@),
    ensures
        solved(init@, rules@, result_view(r)),
{
    let ghost g = init@;
    let ghost rs = rules@;
    let mut s: Vec<Option<Dim>> = Vec::new();
    let mut i: usize = 0;
    while i < init.len()
        invariant
            i <= g.len(),
            g == init@,
            s@ == g.take(i as int),
        decreases g.len() - i,
    {
        s.push(init[i]);
        i = i + 1;
        assert(s@ =~= g.take(i as int));
    }
    assert(s@ =~= g);
    assert(sound(s@, g, rs)) by {
        assert forall|i: int| 0 <= i < s@.len() && (#[trigger] s@[i]) is Some implies
            exists|d: nat| #[trigger] derives(g, rs, i, s@[i]->Some_0, d) by {
            assert(derives(g, rs, i, s@[i]->Some_0, 0));
        }
    }
    loop
        invariant
            g == init@,
            rs == rules@,
            rules_wf(g.len() as int, rs),
            extends(s@, g),
            sound(s@, g, rs),
        decreases unknowns(s@),
    {
        let ghost start = s@;
        let mut changed = false;
        let mut k: usize = 0;
        while k < rules.len()
            invariant
                g == init@,
                rs == rules@,
                rules_wf(g.len() as int, rs),
                extends(s@, g),
                sound(s@, g, rs),
                k <= rs.len(),
                changed ==> unknowns(s@) < unknowns(start),
                !changed ==> s@ == start,
                !changed ==> forall|k2: int| 0 <= k2 < k ==> settled(#[trigger] rs[k2], s@),
            decreases rs.len() - k,
        {
            let rule = rules[k];
            assert(rules_wf(g.len() as int, rs));
            assert(match rs[k as int] { Rule::Equals(a, b) => a < g.len() && b < g.len(), Rule::Given(a, _) => a < g.len() });
            match rule {
                Rule::Equals(a, b) => {
                    let sa = s[a];
                    let sb = s[b];
                    match (sa, sb) {
                        (Some(x), Some(y)) => {
                            if x != y {
                                proof {
                                    let da = choose|d: nat| #[trigger] derives(g, rs, a as int, x, d);
                                    let db = choose|d: nat| #[trigger] derives(g, rs, b as int, y, d);
                                    assert(links(rs[k as int], a as int, b as int));
                                    assert(derives(g, rs, a as int, y, db + 1));
                                    assert(derives(g, rs, a as int, x, da));
                                }
                                return Err(TractError::ShapeOrTypeConflict);
                            }
                        },
                        (Some(x), None) => {
                            proof {
                                let da = choose|d: nat| #[trigger] derives(g, rs, a as int, x, d);
                                assert(links(rs[k as int], b as int, a as int));
                                assert(derives(g, rs, b as int, x, da + 1));
                                lemma_unknowns_resolve(s@, b as int, x);
                                lemma_sound_set(s@, g, rs, b as int, x, da + 1);
                            }
                            s.set(b, Some(x));
                            changed = true;
                        },
                        (None, Some(y)) => {
                            proof {
                                let db = choose|d: nat| #[trigger] derives(g, rs, b as int, y, d);
                                assert(links(rs[k as int], a as int, b as int));
                                assert(derives(g, rs, a as int, y, db + 1));
                                lemma_unknowns_resolve(s@, a as int, y);
                                lemma_sound_set(s@, g, rs, a as int, y, db + 1);
                            }
                            s.set(a, Some(y));
                            changed = true;
                        },
                        (None, None) => {},
                    }
                },
                Rule::Given(a, v) => {
                    match s[a] {
                        Some(x) => {
                            if x != v {
                                proof {
                                    let da = choose|d: nat| #[trigger] derives(g, rs, a as int, x, d);
                                    assert(gives(rs[k as int], a as int, v));
                                    assert(derives(g, rs, a as int, v, 0));
                                    assert(derives(g, rs, a as int, x, da));
                                }
                                return Err(TractError::ShapeOrTypeConflict);
                            }
                        },
                        None => {
                            proof {
                                assert(gives(rs[k as int], a as int, v));
                                assert(derives(g, rs, a as int, v, 0));
                                lemma_unknowns_resolve(s@, a as int, v);
                                lemma_sound_set(s@, g, rs, a as int, v, 0);
                            }
                            s.set(a, Some(v));
                            changed = true;
                        },
                    }
                },
            }
            k = k + 1;
        }
        if !changed {
            proof {
                assert forall|i: int, v: Dim| 0 <= i < s@.len() implies
                    (s@[i] == Some(v) <==> exists|d: nat| #[trigger] derives(g, rs, i, v, d)) by {
                    if exists|d: nat| #[trigger] derives(g, rs, i, v, d) {
                        let d = choose|d: nat| #[trigger] derives(g, rs, i, v, d);
                        lemma_settled_complete(s@, g, rs, i, v, d);
                    }
                }
                assert(!conflicting(g, rs)) by {
                    if conflicting(g, rs) {
                        let (i, v1, v2, d1, d2) = choose|i: int, v1: Dim, v2: Dim, d1: nat, d2: nat|
                            v1 != v2 && #[trigger] derives(g, rs, i, v1, d1) && #[trigger] derives(g, rs, i, v2, d2);
                        lemma_derives_in_range(g, rs, i, v1, d1);
                        lemma_settled_complete(s@, g, rs, i, v1, d1);
                        lemma_settled_complete(s@, g, rs, i, v2, d2);
                    }
                }
            }
            return Ok(s);
        }
    }
}

/// Only existing slots are ever derived.
proof fn lemma_derives_in_range(init: Seq<Option<Dim>>, rules: Seq<Rule>, i: int, v: Dim, d: nat)
    requires
        rules_wf(init.len() as int, rules),
        derives(init, rules, i, v, d),
    ensures
        0 <= i < init.len(),
    decreases d,
{
    if 0 <= i < init.len() && init[i] == Some(v) {
    } else if exists|k: int| 0 <= k < rules.len() && #[trigger] gives(rules[k], i, v) {
        let k = choose|k: int| 0 <= k < rules.len() && #[trigger] gives(rules[k], i, v);
        assert(match rules[k] { Rule::Equals(a, b) => a < init.len() && b < init.len(), Rule::Given(a, _) => a < init.len() });
    } else {
        let (k, j) = choose|k: int, j: int| 0 <= k < rules.len() && 0 <= j && #[trigger] links(rules[k], i, j)
            && derives(init, rules, j, v, (d - 1) as nat);
        let r = rules[k];
        assert(match r { Rule::Equals(a, b) => a < init.len() && b < init.len(), Rule::Given(a, _) => a < init.len() });
    }
}

proof fn lemma_derives_same_rules(init: Seq<Option<Dim>>, r1: Seq<Rule>, r2: Seq<Rule>, i: int, v: Dim, d: nat)
    requires
        r1.to_set() == r2.to_set(),
        derives(init, r1, i, v, d),
    ensures
        derives(init, r2, i, v, d),
    decreases d,
{
    if 0 <= i < init.len() && init[i] == Some(v) {
    } else if exists|k: int| 0 <= k < r1.len() && #[trigger] gives(r1[k], i, v) {
        let k = choose|k: int| 0 <= k < r1.len() && #[trigger] gives(r1[k], i, v);
        assert(r1.to_set().contains(r1[k]));
        assert(r2.contains(r1[k]));
        let k2 = choose|k2: int| 0 <= k2 < r2.len() && r2[k2] == r1[k];
        assert(gives(r2[k2], i, v));
    } else {
        let (k, j) = choose|k: int, j: int| 0 <= k < r1.len() && 0 <= j && #[trigger] links(r1[k], i, j)
            && derives(init, r1, j, v, (d - 1) as nat);
        assert(r1.to_set().contains(r1[k]));
        assert(r2.contains(r1[k]));
        let k2 = choose|k2: int| 0 <= k2 < r2.len() && r2[k2] == r1[k];
        lemma_derives_same_rules(init, r1, r2, j, v, (d - 1) as nat);
        assert(links(r2[k2], i, j));
    }
}

/// Solving is confluent: two lists that hold the same rules, in whatever
/// order and with whatever repetition they are propagated, resolve the same
/// facts or meet the same contradiction.
pub proof fn lemma_solve_confluent(
    init: Seq<Option<Dim>>,
    rules1: Seq<Rule>,
    rules2: Seq<Rule>,
    r1: Result<Seq<Option<Dim>>, TractError>,
    r2: Result<Seq<Option<Dim>>, TractError>,
)
    requires
        rules1.to_set() == rules2.to_set(),
        solved(init, rules1, r1),
        solved(init, rules2, r2),
    ensures
        r1 == r2,
{
    assert forall|i: int, v: Dim, d: nat| derives(init, rules1, i, v, d) <==> derives(init, rules2, i, v, d) by {
        if derives(init, rules1, i, v, d) {
            lemma_derives_same_rules(init, rules1, rules2, i, v, d);
        }
        if derives(init, rules2, i, v, d) {
            lemma_derives_same_rules(init, rules2, rules1, i, v, d);
        }
    }
    assert(conflicting(init, rules1) == conflicting(init, rules2));
    match (r1, r2) {
        (Ok(s1), Ok(s2)) => {
            assert forall|i: int| 0 <= i < s1.len() implies s1[i] == s2[i] by {
                match s1[i] {
                    Some(v) => {
                        let d = choose|d: nat| #[trigger] derives(init, rules1, i, v, d);
                        assert(derives(init, rules2, i, v, d));
                    },
                    None => {
                        if s2[i] is Some {
                            let v = s2[i]->Some_0;
                            let d = choose|d: nat| #[trigger] derives(init, rules2, i, v, d);
                            assert(derives(init, rules1, i, v, d));
                        }
                    },
                }
            }
            assert(s1 =~= s2);
        },
        _ => {},
    }
}

/// Once solved without contradiction, the two slots of an equality rule
/// hold the same fact, and the slot of a given rule holds its value.
pub proof fn lemma_solved_rule(init: Seq<Option<Dim>>, rules: Seq<Rule>, s: Seq<Option<Dim>>, k: int)
    requires
        rules_wf(init.len() as int, rules),
        solved(init, rules, Ok(s)),
        0 <= k < rules.len(),
    ensures
        settled(rules[k], s),
{
    let r = rules[k];
    assert(match r { Rule::Equals(a, b) => a < init.len() && b < init.len(), Rule::Given(a, _) => a < init.len() });
    match r {
        Rule::Equals(a, b) => {
            if s[a as int] is Some {
                let v = s[a as int]->Some_0;
                let d = choose|d: nat| #[trigger] derives(init, rules, a as int, v, d);
                assert(links(rules[k], b as int, a as int));
                assert(derives(init, rules, b as int, v, d + 1));
            }
            if s[b as int] is Some {
                let v = s[b as int]->Some_0;
                let d = choose|d: nat| #[trigger] derives(init, rules, b as int, v, d);
                assert(links(rules[k], a as int, b as int));
                assert(derives(init, rules, a as int, v, d + 1));
            }
        },
        Rule::Given(a, v) => {
            assert(gives(rules[k], a as int, v));
            assert(derives(init, rules, a as int, v, 0));
        },
    }
}

} // verus!
