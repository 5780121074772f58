//! Signing policy: keys allowed for the current session, and persisted
//! "always allow" rules.
use vstd::prelude::*;

verus! {

/// Keys the user allowed for this session (cleared on lock and restart).
#[derive(Debug, Clone)]
pub struct SessionRules {
    allowed: Vec<String>,
}

impl SessionRules {
    /// The key ids allowed for this session.
    pub closed spec fn allowed_ids(&self) -> Set<Seq<char>> {
        self.allowed@.map_values(|s: String| s@).to_set()
    }

    pub fn new() -> (r: Self)
        ensures
            r.allowed_ids() == Set::<Seq<char>>::empty(),
    {
        let r = SessionRules { allowed: Vec::new() };
        assert(r.allowed@.map_values(|s: String| s@) =~= Seq::<Seq<char>>::empty());
        assert(r.allowed_ids() =~= Set::<Seq<char>>::empty());
        r
    }

    /// Whether the key was allowed for this session.
    pub fn is_allowed(&self, key_id: &str) -> (r: bool)
        ensures
            r == self.allowed_ids().contains(key_id@),
    {
        let k = key_id.to_string();
        let ghost v = self.allowed@.map_values(|s: String| s@);
        let mut i: usize = 0;
        while i < self.allowed.len()
            invariant
                i <= self.allowed@.len(),
                k@ == key_id@,
                v == self.allowed@.map_values(|s: String| s@),
                forall|j: int| 0 <= j < i ==> v[j] != key_id@,
            decreases self.allowed@.len() - i,
        {
            if self.allowed[i] == k {
                assert(v[i as int] == key_id@);
                return true;
            }
            i = i + 1;
        }
        assert(!v.contains(key_id@));
        false
    }

    /// Allows the key for the rest of the session.
    pub fn allow(&mut self, key_id: &str)
        ensures
            final(self).allowed_ids() == old(self).allowed_ids().insert(key_id@),
    {
        let ghost before = self.allowed@.map_values(|s: String| s@);
        self.allowed.push(key_id.to_string());
        assert(self.allowed@.map_values(|s: String| s@) =~= before.push(key_id@));
        let ghost after = before.push(key_id@);
        assert(after.drop_last() =~= before);
        assert forall|x: Seq<char>| after.to_set().contains(x) <==> before.to_set().insert(key_id@).contains(x) by {
            if before.contains(x) {
                let j = choose|j: int| 0 <= j < before.len() && before[j] == x;
                assert(after[j] == x);
            }
            if x == key_id@ {
                assert(after[before.len() as int] == x);
            }
            if after.contains(x) {
                let j = choose|j: int| 0 <= j < after.len() && after[j] == x;
                if j < before.len() {
                    assert(before[j] == x);
                }
            }
        }
        assert(after.to_set() =~= before.to_set().insert(key_id@));
    }

    /// Forgets every session permission.
    pub fn clear(&mut self)
        ensures
            final(self).allowed_ids() == Set::<Seq<char>>::empty(),
    {
        self.allowed.clear();
        assert(self.allowed@.map_values(|s: String| s@) =~= Seq::<Seq<char>>::empty());
        assert(self.allowed_ids() =~= Set::<Seq<char>>::empty());
    }
}

/// A persistent "always allow" rule.
#[derive(Debug, Clone)]
pub struct PolicyRule {
    pub key_id: String,
    pub key_name: String,
    /// RFC-3339 creation time
    pub created_at: String,
}

/// Whether some rule is for `key_id`.
pub open spec fn has_rule(rules: Seq<PolicyRule>, key_id: Seq<char>) -> bool {
    exists|i: int| 0 <= i < rules.len() && (#[trigger] rules[i]).key_id@ == key_id
}

/// Whether the key has an "always allow" rule among `rules`.
pub fn has_always_rule(rules: &[PolicyRule], key_id: &str) -> (r: bool)
    ensures
        r == has_rule(rules@, key_id@),
{
    let k = key_id.to_string();
    let mut i: usize = 0;
    while i < rules.len()
        invariant
            i <= rules@.len(),
            k@ == key_id@,
            forall|j: int| 0 <= j < i ==> (#[trigger] rules@[j]).key_id@ != key_id@,
        decreases rules@.len() - i,
    {
        if rules[i].key_id == k {
            return true;
        }
        i = i + 1;
    }
    false
}

/// Adds an "always allow" rule unless the key already has one; returns whether
/// a rule was added.
pub fn add_always_rule(rules: &mut Vec<PolicyRule>, key_id: &str, key_name: &str, created_at: &str) -> (added: bool)
    ensures
        added == !has_rule(old(rules)@, key_id@),
        added ==> final(rules)@.len() == old(rules)@.len() + 1 && final(rules)@.drop_last() == old(rules)@
            && final(rules)@.last().key_id@ == key_id@ && final(rules)@.last().key_name@ == key_name@
            && final(rules)@.last().created_at@ == created_at@,
        !added ==> final(rules)@ == old(rules)@,
{
    if has_always_rule(rules.as_slice(), key_id) {
        return false;
    }
    rules.push(
        PolicyRule {
            key_id: key_id.to_string(),
            key_name: key_name.to_string(),
            created_at: created_at.to_string(),
        },
    );
    assert(rules@.drop_last() =~= old(rules)@);
    true
}

/// The rules that are not for `key_id`, in order.
pub open spec fn rules_without(rules: Seq<PolicyRule>, key_id: Seq<char>) -> Seq<PolicyRule>
    decreases rules.len(),
{
    if rules.len() == 0 {
        Seq::empty()
    } else {
        let p = rules_without(rules.drop_last(), key_id);
        if rules.last().key_id@ == key_id {
            p
        } else {
            p.push(rules.last())
        }
    }
}

/// Removes the rules for `key_id`.
pub fn remove_rule(rules: Vec<PolicyRule>, key_id: &str) -> (r: Vec<PolicyRule>)
    ensures
        r@ == rules_without(rules@, key_id@),
{
    let k = key_id.to_string();
    let mut src = rules;
    let ghost all = src@;
    let mut rev: Vec<PolicyRule> = Vec::new();
    while src.len() > 0
        invariant
            k@ == key_id@,
            src@.len() <= all.len(),
            src@ == all.take(src@.len() as int),
            rules_without(all, key_id@) == rules_without(src@, key_id@) + rev@.reverse(),
        decreases src@.len(),
    {
        let ghost before = src@;
        let item = src.pop().unwrap();
        assert(before.drop_last() =~= src@);
        assert(src@ =~= all.take(src@.len() as int));
        if item.key_id != k {
            let ghost r0 = rev@;
            rev.push(item);
            assert(rev@.reverse() =~= seq![item] + r0.reverse());
        }
    }
    let mut out: Vec<PolicyRule> = Vec::new();
    let ghost want = rev@.reverse();
    while rev.len() > 0
        invariant
            want == out@ + rev@.reverse(),
        decreases rev@.len(),
    {
        let ghost r0 = rev@;
        let item = rev.pop().unwrap();
        assert(r0.reverse() =~= seq![item] + rev@.reverse());
        out.push(item);
    }
    assert(out@ =~= want);
    out
}

/// No rules at all.
pub fn clear_all_rules() -> (r: Vec<PolicyRule>)
    ensures
        r@.len() == 0,
{
    Vec::new()
}

/// Removing a key's rules leaves it with no rule and every other key's rules as
/// they were: after `remove_rule(rules, k)`, `has_always_rule` is false for `k` and
/// unchanged for any other key.
pub proof fn lemma_remove_rule_effect(rules: Seq<PolicyRule>, key_id: Seq<char>, other: Seq<char>)
    requires
        other != key_id,
    ensures
        !has_rule(rules_without(rules, key_id), key_id),
        has_rule(rules_without(rules, key_id), other) == has_rule(rules, other),
    decreases rules.len(),
{
    if rules.len() > 0 {
        let d = rules.drop_last();
        lemma_remove_rule_effect(d, key_id, other);
        let p = rules_without(d, key_id);
        let l = rules.last();
        assert forall|x: Seq<char>| has_rule(rules, x) == (has_rule(d, x) || l.key_id@ == x) by {
            if has_rule(rules, x) {
                let i = choose|i: int| 0 <= i < rules.len() && (#[trigger] rules[i]).key_id@ == x;
                if i < d.len() {
                    assert(d[i] == rules[i]);
                }
            }
            if has_rule(d, x) {
                let i = choose|i: int| 0 <= i < d.len() && (#[trigger] d[i]).key_id@ == x;
                assert(rules[i] == d[i]);
            }
        }
        if l.key_id@ != key_id {
            assert forall|x: Seq<char>| has_rule(p.push(l), x) == (has_rule(p, x) || l.key_id@ == x) by {
                if has_rule(p.push(l), x) {
                    let i = choose|i: int| 0 <= i < p.push(l).len() && (#[trigger] p.push(l)[i]).key_id@ == x;
                    if i < p.len() {
                        assert(p[i] == p.push(l)[i]);
                    }
                }
                if has_rule(p, x) {
                    let i = choose|i: int| 0 <= i < p.len() && (#[trigger] p[i]).key_id@ == x;
                    assert(p.push(l)[i] == p[i]);
                }
                if l.key_id@ == x {
                    assert(p.push(l)[p.len() as int] == l);
                }
            }
        }
    }
}

} // verus!

