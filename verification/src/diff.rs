//! Matching the observations of two snapshots: what only the left has, what
//! only the right has, and what both have with different values.

use vstd::prelude::*;
use crate::semantic::observation::{IntentObservation, IntentObservationView, observation_views};
use crate::semantic::rule_id::RuleId;
use crate::snapshot::{MatchKeyView, ResourceMatchKey, spec_match_key, match_key_order,
    lemma_match_key_order};
use crate::text::{seq_order, text_order, lemma_seq_order_antisymmetric, lemma_seq_order_range,
    lemma_seq_order_transitive};

verus! {

/// The identity by which observations are matched: the rule and the resource.
#[derive(Debug, Clone, PartialEq, Eq, Hash, PartialOrd, Ord)]
pub struct SignalKey {
    pub rule_id: RuleId,
    pub resource: ResourceMatchKey,
}

/// The mathematical content of a `SignalKey`.
pub struct SignalKeyView {
    pub rule: Seq<char>,
    pub resource: MatchKeyView,
}

impl View for SignalKey {
    type V = SignalKeyView;

    open spec fn view(&self) -> SignalKeyView {
        SignalKeyView { rule: self.rule_id.0@, resource: self.resource@ }
    }
}

/// The key of an observation.
pub open spec fn obs_key(o: IntentObservationView) -> SignalKeyView {
    SignalKeyView { rule: o.rule_id, resource: spec_match_key(o.resource) }
}

/// The order of keys: by rule identifier, then by resource.
pub open spec fn key_order(a: SignalKeyView, b: SignalKeyView) -> int {
    if seq_order(a.rule, b.rule) != 0 {
        seq_order(a.rule, b.rule)
    } else {
        match_key_order(a.resource, b.resource)
    }
}

/// `key_order` is a three-way comparison of a strict total order.
pub proof fn lemma_key_order(a: SignalKeyView, b: SignalKeyView, c: SignalKeyView)
    ensures
        -1 <= key_order(a, b) <= 1,
        key_order(a, b) == -key_order(b, a),
        key_order(a, b) == 0 <==> a == b,
        key_order(a, b) < 0 && key_order(b, c) < 0 ==> key_order(a, c) < 0,
{
    lemma_seq_order_range(a.rule, b.rule);
    lemma_seq_order_antisymmetric(a.rule, b.rule);
    lemma_seq_order_antisymmetric(b.rule, c.rule);
    lemma_seq_order_antisymmetric(a.rule, c.rule);
    lemma_seq_order_range(b.rule, c.rule);
    lemma_seq_order_range(a.rule, c.rule);
    if seq_order(a.rule, b.rule) < 0 && seq_order(b.rule, c.rule) < 0 {
        lemma_seq_order_transitive(a.rule, b.rule, c.rule);
    }
    lemma_match_key_order(a.resource, b.resource, c.resource);
    lemma_match_key_order(b.resource, c.resource, a.resource);
    lemma_match_key_order(a.resource, c.resource, b.resource);
}

impl SignalKey {
    /// The key of an observation.
    pub fn from_observation(o: &IntentObservation) -> (k: SignalKey)
        ensures
            k@ == obs_key(o@),
    {
        SignalKey { rule_id: o.rule_id, resource: ResourceMatchKey::from_ref(&o.resource) }
    }

    /// Three-way comparison in the order of `key_order`.
    pub fn order(&self, other: &SignalKey) -> (r: i8)
        ensures
            r as int == key_order(self@, other@),
    {
        let by_rule = text_order(self.rule_id.0, other.rule_id.0);
        if by_rule != 0 {
            by_rule
        } else {
            self.resource.order(&other.resource)
        }
    }
}

/// Three-way comparison of the keys of two observations.
fn observation_order(a: &IntentObservation, b: &IntentObservation) -> (r: i8)
    ensures
        r as int == key_order(obs_key(a@), obs_key(b@)),
{
    SignalKey::from_observation(a).order(&SignalKey::from_observation(b))
}


/// Observations in strictly increasing key order.
pub open spec fn sorted_by_key(s: Seq<IntentObservationView>) -> bool {
    forall|i: int, j: int| 0 <= i < j < s.len()
        ==> key_order(obs_key(#[trigger] s[i]), obs_key(#[trigger] s[j])) < 0
}

/// `s[i]` is the last observation of `s` with its key.
pub open spec fn is_last(s: Seq<IntentObservationView>, i: int) -> bool {
    &&& 0 <= i < s.len()
    &&& forall|j: int| i < j < s.len() ==> obs_key(#[trigger] s[j]) != obs_key(s[i])
}

/// Some observation of `s` has the key `k`.
pub open spec fn has_key(s: Seq<IntentObservationView>, k: SignalKeyView) -> bool {
    exists|j: int| 0 <= j < s.len() && obs_key(#[trigger] s[j]) == k
}

/// `o` is the last observation of `from` for its key, and `other` has none
/// with that key. Of several observations with one key, the last one counts.
pub open spec fn only_in(from: Seq<IntentObservationView>, other: Seq<IntentObservationView>,
    o: IntentObservationView) -> bool {
    only_in_before(from, other, o, from.len() as int)
}

/// `only_in`, for the first `n` observations of `from`.
pub open spec fn only_in_before(from: Seq<IntentObservationView>, other: Seq<IntentObservationView>,
    o: IntentObservationView, n: int) -> bool {
    exists|i: int| i < n && #[trigger] is_last(from, i) && from[i] == o && !has_key(other, obs_key(o))
}

/// A pair of observations with one key and different values.
pub struct ObservationChangeView {
    pub left: IntentObservationView,
    pub right: IntentObservationView,
}

/// `c` pairs the last observations of `left` and `right` for one key, and
/// their values differ.
pub open spec fn changed_in(left: Seq<IntentObservationView>, right: Seq<IntentObservationView>,
    c: ObservationChangeView) -> bool {
    changed_before(left, right, c, left.len() as int)
}

/// `changed_in`, for the first `n` observations of `left`.
pub open spec fn changed_before(left: Seq<IntentObservationView>, right: Seq<IntentObservationView>,
    c: ObservationChangeView, n: int) -> bool {
    exists|i: int, j: int| i < n && #[trigger] is_last(left, i) && #[trigger] is_last(right, j)
        && obs_key(left[i]) == obs_key(right[j])
        && c == ObservationChangeView { left: left[i], right: right[j] }
        && left[i].value != right[j].value
}

/// Changes in strictly increasing order of the key of their right side.
pub open spec fn changes_sorted(s: Seq<ObservationChangeView>) -> bool {
    forall|i: int, j: int| 0 <= i < j < s.len()
        ==> key_order(obs_key((#[trigger] s[i]).right), obs_key((#[trigger] s[j]).right)) < 0
}

/// The mathematical content of a `DiffResult`.
pub struct DiffResultView {
    pub added: Seq<IntentObservationView>,
    pub removed: Seq<IntentObservationView>,
    pub changed: Seq<ObservationChangeView>,
}

/// What the diff of `left` and `right` is: the observations only the right
/// has (`added`), only the left has (`removed`), and the pairs both have with
/// different values (`changed`), each list in key order.
pub open spec fn diff_holds(left: Seq<IntentObservationView>, right: Seq<IntentObservationView>,
    d: DiffResultView) -> bool {
    &&& sorted_by_key(d.removed)
    &&& forall|o: IntentObservationView| d.removed.contains(o) <==> only_in(left, right, o)
    &&& sorted_by_key(d.added)
    &&& forall|o: IntentObservationView| d.added.contains(o) <==> only_in(right, left, o)
    &&& changes_sorted(d.changed)
    &&& forall|c: ObservationChangeView| d.changed.contains(c) <==> changed_in(left, right, c)
}

/// What differs between two snapshots.
#[derive(Debug)]
pub struct DiffResult {
    pub added: Vec<IntentObservation>,
    pub removed: Vec<IntentObservation>,
    pub changed: Vec<ObservationChange>,
}

/// One key observed on both sides with different values.
#[derive(Debug)]
pub struct ObservationChange {
    pub left: IntentObservation,
    pub right: IntentObservation,
}

impl View for ObservationChange {
    type V = ObservationChangeView;

    open spec fn view(&self) -> ObservationChangeView {
        ObservationChangeView { left: self.left@, right: self.right@ }
    }
}

/// The contents of a list of changes.
pub open spec fn change_views(s: Seq<ObservationChange>) -> Seq<ObservationChangeView> {
    s.map_values(|c: ObservationChange| c@)
}

impl View for DiffResult {
    type V = DiffResultView;

    open spec fn view(&self) -> DiffResultView {
        DiffResultView {
            added: observation_views(self.added@),
            removed: observation_views(self.removed@),
            changed: change_views(self.changed@),
        }
    }
}

/// Inserting `x` at a position `p` that follows every smaller key and
/// precedes every larger one keeps a key-sorted sequence sorted, and adds
/// exactly `x`.
proof fn lemma_sorted_insert<A>(s: Seq<A>, x: A, p: int, key: spec_fn(A) -> SignalKeyView)
    requires
        0 <= p <= s.len(),
        forall|i: int, j: int| 0 <= i < j < s.len() ==> key_order(key(#[trigger] s[i]), key(#[trigger] s[j])) < 0,
        forall|m: int| 0 <= m < p ==> key_order(key(#[trigger] s[m]), key(x)) < 0,
        p < s.len() ==> key_order(key(x), key(s[p])) < 0,
    ensures
        forall|i: int, j: int| 0 <= i < j < s.insert(p, x).len()
            ==> key_order(key(#[trigger] s.insert(p, x)[i]), key(#[trigger] s.insert(p, x)[j])) < 0,
        forall|y: A| s.insert(p, x).contains(y) <==> (s.contains(y) || y == x),
{
    let t = s.insert(p, x);
    assert forall|i: int, j: int| 0 <= i < j < t.len() implies
        key_order(key(#[trigger] t[i]), key(#[trigger] t[j])) < 0 by {
        if j < p {
            assert(t[i] == s[i] && t[j] == s[j]);
        } else if j == p {
            assert(t[i] == s[i]);
        } else if i == p {
            assert(t[j] == s[j - 1]);
            if j - 1 > p {
                lemma_key_order(key(x), key(s[p]), key(s[j - 1]));
            }
        } else if i < p {
            assert(t[i] == s[i] && t[j] == s[j - 1]);
        } else {
            assert(t[i] == s[i - 1] && t[j] == s[j - 1]);
        }
    }
    assert forall|y: A| t.contains(y) <==> (s.contains(y) || y == x) by {
        if t.contains(y) {
            let k = choose|k: int| 0 <= k < t.len() && t[k] == y;
            if k < p {
                assert(s[k] == y);
            } else if k > p {
                assert(s[k - 1] == y);
            }
        }
        if s.contains(y) {
            let k = choose|k: int| 0 <= k < s.len() && s[k] == y;
            if k < p {
                assert(t[k] == y);
            } else {
                assert(t[k + 1] == y);
            }
        }
        if y == x {
            assert(t[p] == y);
        }
    }
}

/// Inserts `x` at its place in a list sorted by key that has no other
/// observation with its key.
fn insert_observation(v: &mut Vec<IntentObservation>, x: IntentObservation)
    requires
        sorted_by_key(observation_views(old(v)@)),
        forall|m: int| 0 <= m < old(v)@.len() ==> obs_key((#[trigger] old(v)@[m])@) != obs_key(x@),
    ensures
        sorted_by_key(observation_views(final(v)@)),
        forall|o: IntentObservationView| observation_views(final(v)@).contains(o)
            <==> (observation_views(old(v)@).contains(o) || o == x@),
{
    let ghost old_views = observation_views(v@);
    let mut p: usize = 0;
    while p < v.len() && observation_order(&v[p], &x) < 0
        invariant
            p <= v@.len(),
            old_views == observation_views(v@),
            forall|m: int| 0 <= m < p ==> key_order(obs_key((#[trigger] v@[m])@), obs_key(x@)) < 0,
        decreases v@.len() - p,
    {
        p += 1;
    }
    proof {
        if p < v@.len() {
            lemma_key_order(obs_key(v@[p as int]@), obs_key(x@), obs_key(x@));
        }
        let key = |o: IntentObservationView| obs_key(o);
        assert forall|m: int| 0 <= m < p implies key_order(key(#[trigger] old_views[m]), key(x@)) < 0 by {
            assert(old_views[m] == v@[m]@);
        }
        lemma_sorted_insert(old_views, x@, p as int, key);
    }
    let ghost xv = x@;
    v.insert(p, x);
    assert(observation_views(v@) == old_views.insert(p as int, xv));
    assert(forall|o: IntentObservationView| observation_views(v@).contains(o)
        <==> (observation_views(old(v)@).contains(o) || o == x@));
}

/// Inserts `x` at its place in a list of changes sorted by key that has no
/// other change with its key.
fn insert_change(v: &mut Vec<ObservationChange>, x: ObservationChange)
    requires
        changes_sorted(change_views(old(v)@)),
        forall|m: int| 0 <= m < old(v)@.len() ==> obs_key((#[trigger] old(v)@[m])@.right) != obs_key(x@.right),
    ensures
        changes_sorted(change_views(final(v)@)),
        forall|c: ObservationChangeView| change_views(final(v)@).contains(c)
            <==> (change_views(old(v)@).contains(c) || c == x@),
{
    let ghost old_views = change_views(v@);
    let mut p: usize = 0;
    while p < v.len() && observation_order(&v[p].right, &x.right) < 0
        invariant
            p <= v@.len(),
            old_views == change_views(v@),
            forall|m: int| 0 <= m < p ==> key_order(obs_key((#[trigger] v@[m])@.right), obs_key(x@.right)) < 0,
        decreases v@.len() - p,
    {
        p += 1;
    }
    proof {
        if p < v@.len() {
            lemma_key_order(obs_key(v@[p as int]@.right), obs_key(x@.right), obs_key(x@.right));
        }
        let key = |c: ObservationChangeView| obs_key(c.right);
        assert forall|m: int| 0 <= m < p implies key_order(key(#[trigger] old_views[m]), key(x@)) < 0 by {
            assert(old_views[m] == v@[m]@);
        }
        lemma_sorted_insert(old_views, x@, p as int, key);
    }
    let ghost xv = x@;
    v.insert(p, x);
    assert(change_views(v@) == old_views.insert(p as int, xv));
    assert(forall|c: ObservationChangeView| change_views(v@).contains(c)
        <==> (change_views(old(v)@).contains(c) || c == x@));
}

/// Whether `s[i]` is the last observation of `s` with its key.
fn last_of_its_key(s: &[IntentObservation], i: usize) -> (r: bool)
    requires
        i < s@.len(),
    ensures
        r == is_last(observation_views(s@), i as int),
{
    let ghost views = observation_views(s@);
    let n = s.len();
    let mut j: usize = i + 1;
    while j < n
        invariant
            i < j <= s@.len(),
            n == s@.len(),
            views == observation_views(s@),
            forall|m: int| i < m < j ==> obs_key(#[trigger] views[m]) != obs_key(views[i as int]),
        decreases s@.len() - j,
    {
        let o = observation_order(&s[j], &s[i]);
        proof {
            lemma_key_order(obs_key(views[j as int]), obs_key(views[i as int]), obs_key(views[i as int]));
        }
        if o == 0 {
            return false;
        }
        j += 1;
    }
    true
}

/// The position of the last observation of `s` with the key of `x`.
fn last_with_key_of(s: &[IntentObservation], x: &IntentObservation) -> (r: Option<usize>)
    ensures
        r matches Some(j) ==> is_last(observation_views(s@), j as int)
            && obs_key(observation_views(s@)[j as int]) == obs_key(x@),
        r is None ==> !has_key(observation_views(s@), obs_key(x@)),
{
    let ghost views = observation_views(s@);
    let mut j: usize = s.len();
    while j > 0
        invariant
            j <= s@.len(),
            views == observation_views(s@),
            forall|m: int| j <= m < s@.len() ==> obs_key(#[trigger] views[m]) != obs_key(x@),
        decreases j,
    {
        let o = observation_order(&s[j - 1], x);
        proof {
            lemma_key_order(obs_key(views[j - 1]), obs_key(x@), obs_key(x@));
        }
        if o == 0 {
            return Some(j - 1);
        }
        j -= 1;
    }
    None
}


/// One key has one last observation.
pub proof fn lemma_last_unique(s: Seq<IntentObservationView>, i: int, j: int)
    requires
        is_last(s, i),
        is_last(s, j),
        obs_key(s[i]) == obs_key(s[j]),
    ensures
        i == j,
{
    if i < j {
        assert(obs_key(s[j]) != obs_key(s[i]));
    } else if j < i {
        assert(obs_key(s[i]) != obs_key(s[j]));
    }
}

/// Matches the observations of `left` and `right` by rule and resource.
/// Where one side has several observations with one key, its last one counts.
pub fn diff_observations(left: &[IntentObservation], right: &[IntentObservation]) -> (r: DiffResult)
    ensures
        diff_holds(observation_views(left@), observation_views(right@), r@),
{
    let ghost lv = observation_views(left@);
    let ghost rv = observation_views(right@);
    let mut added: Vec<IntentObservation> = Vec::new();
    let mut removed: Vec<IntentObservation> = Vec::new();
    let mut changed: Vec<ObservationChange> = Vec::new();

    let mut i: usize = 0;
    while i < left.len()
        invariant
            i <= left@.len(),
            lv == observation_views(left@),
            rv == observation_views(right@),
            sorted_by_key(observation_views(removed@)),
            forall|o: IntentObservationView| observation_views(removed@).contains(o)
                <==> only_in_before(lv, rv, o, i as int),
            changes_sorted(change_views(changed@)),
            forall|c: ObservationChangeView| change_views(changed@).contains(c)
                <==> changed_before(lv, rv, c, i as int),
        decreases left@.len() - i,
    {
        let ghost removed_before = observation_views(removed@);
        let ghost changed_views_before = change_views(changed@);
        if last_of_its_key(left, i) {
            assert forall|m: int| 0 <= m < removed@.len()
                implies obs_key((#[trigger] removed@[m])@) != obs_key(lv[i as int]) by {
                assert(removed_before[m] == removed@[m]@);
                assert(removed_before.contains(removed@[m]@));
                let k = choose|k: int| k < i && #[trigger] is_last(lv, k) && lv[k] == removed@[m]@
                    && !has_key(rv, obs_key(removed@[m]@));
            }
            assert forall|m: int| 0 <= m < changed@.len()
                implies obs_key((#[trigger] changed@[m])@.right) != obs_key(lv[i as int]) by {
                assert(changed_views_before[m] == changed@[m]@);
                assert(changed_views_before.contains(changed@[m]@));
                let (k, l) = choose|k: int, l: int| k < i && #[trigger] is_last(lv, k)
                    && #[trigger] is_last(rv, l) && obs_key(lv[k]) == obs_key(rv[l])
                    && changed@[m]@ == (ObservationChangeView { left: lv[k], right: rv[l] })
                    && lv[k].value != rv[l].value;
            }
            match last_with_key_of(right, &left[i]) {
                None => {
                    let x = left[i].copy();
                    insert_observation(&mut removed, x);
                    assert forall|o: IntentObservationView| observation_views(removed@).contains(o)
                        <==> only_in_before(lv, rv, o, i + 1) by {
                        if only_in_before(lv, rv, o, i + 1) {
                            let k = choose|k: int| k < i + 1 && #[trigger] is_last(lv, k) && lv[k] == o
                                && !has_key(rv, obs_key(o));
                            if k < i {
                                assert(only_in_before(lv, rv, o, i as int));
                            }
                        }
                        if o == lv[i as int] {
                            assert(only_in_before(lv, rv, o, i + 1));
                        }
                        if only_in_before(lv, rv, o, i as int) {
                            let k = choose|k: int| k < i && #[trigger] is_last(lv, k) && lv[k] == o
                                && !has_key(rv, obs_key(o));
                            assert(only_in_before(lv, rv, o, i + 1));
                        }
                    }
                    assert forall|c: ObservationChangeView| change_views(changed@).contains(c)
                        <==> changed_before(lv, rv, c, i + 1) by {
                        if changed_before(lv, rv, c, i + 1) {
                            let (k, l) = choose|k: int, l: int| k < i + 1 && #[trigger] is_last(lv, k)
                                && #[trigger] is_last(rv, l) && obs_key(lv[k]) == obs_key(rv[l])
                                && c == (ObservationChangeView { left: lv[k], right: rv[l] })
                                && lv[k].value != rv[l].value;
                            if k == i {
                                assert(obs_key(rv[l]) == obs_key(lv[i as int]));
                            }
                            assert(changed_before(lv, rv, c, i as int));
                        }
                        if changed_before(lv, rv, c, i as int) {
                            let (k, l) = choose|k: int, l: int| k < i && #[trigger] is_last(lv, k)
                                && #[trigger] is_last(rv, l) && obs_key(lv[k]) == obs_key(rv[l])
                                && c == (ObservationChangeView { left: lv[k], right: rv[l] })
                                && lv[k].value != rv[l].value;
                            assert(changed_before(lv, rv, c, i + 1));
                        }
                    }
                },
                Some(j) => {
                    let differs = !left[i].value.same_as(&right[j].value);
                    if differs {
                        let change = ObservationChange { left: left[i].copy(), right: right[j].copy() };
                        insert_change(&mut changed, change);
                    }
                    assert forall|o: IntentObservationView| observation_views(removed@).contains(o)
                        <==> only_in_before(lv, rv, o, i + 1) by {
                        if only_in_before(lv, rv, o, i + 1) {
                            let k = choose|k: int| k < i + 1 && #[trigger] is_last(lv, k) && lv[k] == o
                                && !has_key(rv, obs_key(o));
                            if k == i {
                                assert(obs_key(rv[j as int]) == obs_key(o));
                            }
                            assert(only_in_before(lv, rv, o, i as int));
                        }
                        if only_in_before(lv, rv, o, i as int) {
                            let k = choose|k: int| k < i && #[trigger] is_last(lv, k) && lv[k] == o
                                && !has_key(rv, obs_key(o));
                            assert(only_in_before(lv, rv, o, i + 1));
                        }
                    }
                    assert forall|c: ObservationChangeView| change_views(changed@).contains(c)
                        <==> changed_before(lv, rv, c, i + 1) by {
                        if changed_before(lv, rv, c, i + 1) {
                            let (k, l) = choose|k: int, l: int| k < i + 1 && #[trigger] is_last(lv, k)
                                && #[trigger] is_last(rv, l) && obs_key(lv[k]) == obs_key(rv[l])
                                && c == (ObservationChangeView { left: lv[k], right: rv[l] })
                                && lv[k].value != rv[l].value;
                            if k == i {
                                lemma_last_unique(rv, l, j as int);
                            } else {
                                assert(changed_before(lv, rv, c, i as int));
                            }
                        }
                        if changed_before(lv, rv, c, i as int) {
                            let (k, l) = choose|k: int, l: int| k < i && #[trigger] is_last(lv, k)
                                && #[trigger] is_last(rv, l) && obs_key(lv[k]) == obs_key(rv[l])
                                && c == (ObservationChangeView { left: lv[k], right: rv[l] })
                                && lv[k].value != rv[l].value;
                            assert(changed_before(lv, rv, c, i + 1));
                        }
                        if differs && c == (ObservationChangeView { left: lv[i as int], right: rv[j as int] }) {
                            assert(changed_before(lv, rv, c, i + 1));
                        }
                    }
                },
            }
        } else {
            assert forall|o: IntentObservationView| observation_views(removed@).contains(o)
                <==> only_in_before(lv, rv, o, i + 1) by {
                if only_in_before(lv, rv, o, i + 1) {
                    let k = choose|k: int| k < i + 1 && #[trigger] is_last(lv, k) && lv[k] == o
                        && !has_key(rv, obs_key(o));
                    assert(only_in_before(lv, rv, o, i as int));
                }
                if only_in_before(lv, rv, o, i as int) {
                    let k = choose|k: int| k < i && #[trigger] is_last(lv, k) && lv[k] == o
                        && !has_key(rv, obs_key(o));
                    assert(only_in_before(lv, rv, o, i + 1));
                }
            }
            assert forall|c: ObservationChangeView| change_views(changed@).contains(c)
                <==> changed_before(lv, rv, c, i + 1) by {
                if changed_before(lv, rv, c, i + 1) {
                    let (k, l) = choose|k: int, l: int| k < i + 1 && #[trigger] is_last(lv, k)
                        && #[trigger] is_last(rv, l) && obs_key(lv[k]) == obs_key(rv[l])
                        && c == (ObservationChangeView { left: lv[k], right: rv[l] })
                        && lv[k].value != rv[l].value;
                    assert(changed_before(lv, rv, c, i as int));
                }
                if changed_before(lv, rv, c, i as int) {
                    let (k, l) = choose|k: int, l: int| k < i && #[trigger] is_last(lv, k)
                        && #[trigger] is_last(rv, l) && obs_key(lv[k]) == obs_key(rv[l])
                        && c == (ObservationChangeView { left: lv[k], right: rv[l] })
                        && lv[k].value != rv[l].value;
                    assert(changed_before(lv, rv, c, i + 1));
                }
            }
        }
        i += 1;
    }

    let mut j: usize = 0;
    while j < right.len()
        invariant
            j <= right@.len(),
            lv == observation_views(left@),
            rv == observation_views(right@),
            sorted_by_key(observation_views(added@)),
            forall|o: IntentObservationView| observation_views(added@).contains(o)
                <==> only_in_before(rv, lv, o, j as int),
        decreases right@.len() - j,
    {
        let ghost added_before = observation_views(added@);
        let mut fresh = false;
        if last_of_its_key(right, j) {
            if last_with_key_of(left, &right[j]).is_none() {
                fresh = true;
                assert forall|m: int| 0 <= m < added@.len()
                    implies obs_key((#[trigger] added@[m])@) != obs_key(rv[j as int]) by {
                    assert(added_before[m] == added@[m]@);
                    assert(added_before.contains(added@[m]@));
                    let k = choose|k: int| k < j && #[trigger] is_last(rv, k) && rv[k] == added@[m]@
                        && !has_key(lv, obs_key(added@[m]@));
                }
                let x = right[j].copy();
                insert_observation(&mut added, x);
            }
        }
        assert forall|o: IntentObservationView| observation_views(added@).contains(o)
            <==> only_in_before(rv, lv, o, j + 1) by {
            if only_in_before(rv, lv, o, j + 1) {
                let k = choose|k: int| k < j + 1 && #[trigger] is_last(rv, k) && rv[k] == o
                    && !has_key(lv, obs_key(o));
                if k < j {
                    assert(only_in_before(rv, lv, o, j as int));
                }
            }
            if only_in_before(rv, lv, o, j as int) {
                let k = choose|k: int| k < j && #[trigger] is_last(rv, k) && rv[k] == o
                    && !has_key(lv, obs_key(o));
                assert(only_in_before(rv, lv, o, j + 1));
            }
            if fresh && o == rv[j as int] {
                assert(only_in_before(rv, lv, o, j + 1));
            }
        }
        j += 1;
    }

    DiffResult { added, removed, changed }
}


/// Two identical lists of observations have nothing to tell apart.
pub proof fn lemma_identical_observations_have_empty_diff(s: Seq<IntentObservationView>, d: DiffResultView)
    requires
        diff_holds(s, s, d),
    ensures
        d.added.len() == 0,
        d.removed.len() == 0,
        d.changed.len() == 0,
{
    if d.removed.len() > 0 {
        assert(d.removed.contains(d.removed[0]));
        let i = choose|i: int| i < s.len() && #[trigger] is_last(s, i) && s[i] == d.removed[0]
            && !has_key(s, obs_key(d.removed[0]));
        assert(obs_key(s[i]) == obs_key(d.removed[0]));
    }
    if d.added.len() > 0 {
        assert(d.added.contains(d.added[0]));
        let i = choose|i: int| i < s.len() && #[trigger] is_last(s, i) && s[i] == d.added[0]
            && !has_key(s, obs_key(d.added[0]));
        assert(obs_key(s[i]) == obs_key(d.added[0]));
    }
    if d.changed.len() > 0 {
        assert(d.changed.contains(d.changed[0]));
        let (i, j) = choose|i: int, j: int| i < s.len() && #[trigger] is_last(s, i)
            && #[trigger] is_last(s, j) && obs_key(s[i]) == obs_key(s[j])
            && d.changed[0] == (ObservationChangeView { left: s[i], right: s[j] })
            && s[i].value != s[j].value;
        lemma_last_unique(s, i, j);
    }
}

/// A strictly key-sorted sequence is the only one of its elements in that order.
proof fn lemma_sorted_unique<A>(s: Seq<A>, t: Seq<A>, key: spec_fn(A) -> SignalKeyView)
    requires
        forall|i: int, j: int| 0 <= i < j < s.len() ==> key_order(key(#[trigger] s[i]), key(#[trigger] s[j])) < 0,
        forall|i: int, j: int| 0 <= i < j < t.len() ==> key_order(key(#[trigger] t[i]), key(#[trigger] t[j])) < 0,
        forall|x: A| s.contains(x) <==> t.contains(x),
    ensures
        s == t,
    decreases s.len(),
{
    if s.len() == 0 {
        if t.len() > 0 {
            assert(t.contains(t[0]));
        }
        assert(s =~= t);
    } else {
        assert(s.contains(s[0]));
        let k = choose|k: int| 0 <= k < t.len() && t[k] == s[0];
        assert(t.contains(t[0]));
        let m = choose|m: int| 0 <= m < s.len() && s[m] == t[0];
        if k > 0 {
            lemma_key_order(key(t[0]), key(t[k]), key(t[k]));
            if m > 0 {
                lemma_key_order(key(s[0]), key(s[m]), key(s[m]));
            }
            assert(false);
        }
        let s1 = s.drop_first();
        let t1 = t.drop_first();
        assert forall|x: A| s1.contains(x) <==> t1.contains(x) by {
            if s1.contains(x) {
                let i = choose|i: int| 0 <= i < s1.len() && s1[i] == x;
                assert(s[i + 1] == x);
                assert(s.contains(x));
                let j = choose|j: int| 0 <= j < t.len() && t[j] == x;
                if j == 0 {
                    lemma_key_order(key(s[0]), key(s[i + 1]), key(s[i + 1]));
                    assert(false);
                }
                assert(t1[j - 1] == x);
            }
            if t1.contains(x) {
                let i = choose|i: int| 0 <= i < t1.len() && t1[i] == x;
                assert(t[i + 1] == x);
                assert(t.contains(x));
                let j = choose|j: int| 0 <= j < s.len() && s[j] == x;
                if j == 0 {
                    lemma_key_order(key(t[0]), key(t[i + 1]), key(t[i + 1]));
                    assert(false);
                }
                assert(s1[j - 1] == x);
            }
        }
        assert forall|i: int, j: int| 0 <= i < j < s1.len() implies
            key_order(key(#[trigger] s1[i]), key(#[trigger] s1[j])) < 0 by {
            assert(s1[i] == s[i + 1] && s1[j] == s[j + 1]);
        }
        assert forall|i: int, j: int| 0 <= i < j < t1.len() implies
            key_order(key(#[trigger] t1[i]), key(#[trigger] t1[j])) < 0 by {
            assert(t1[i] == t[i + 1] && t1[j] == t[j + 1]);
        }
        lemma_sorted_unique(s1, t1, key);
        assert(s =~= seq![s[0]] + s1);
        assert(t =~= seq![t[0]] + t1);
    }
}

/// The diff of two lists of observations is determined by them: two results
/// that both meet `diff_holds` for the same inputs are equal, whatever order
/// the observations were matched in.
pub proof fn lemma_diff_is_deterministic(left: Seq<IntentObservationView>, right: Seq<IntentObservationView>,
    d1: DiffResultView, d2: DiffResultView)
    requires
        diff_holds(left, right, d1),
        diff_holds(left, right, d2),
    ensures
        d1 == d2,
{
    let ok = |o: IntentObservationView| obs_key(o);
    let ck = |c: ObservationChangeView| obs_key(c.right);
    assert forall|x: IntentObservationView| d1.added.contains(x) <==> d2.added.contains(x) by {}
    assert forall|x: IntentObservationView| d1.removed.contains(x) <==> d2.removed.contains(x) by {}
    assert forall|x: ObservationChangeView| d1.changed.contains(x) <==> d2.changed.contains(x) by {}
    lemma_sorted_unique(d1.added, d2.added, ok);
    lemma_sorted_unique(d1.removed, d2.removed, ok);
    lemma_sorted_unique(d1.changed, d2.changed, ck);
}

/// A change seen from the other side.
pub open spec fn flip_change(c: ObservationChangeView) -> ObservationChangeView {
    ObservationChangeView { left: c.right, right: c.left }
}

/// A diff seen from the other side: what was added is removed, and each
/// change runs the other way.
pub open spec fn flipped(d: DiffResultView) -> DiffResultView {
    DiffResultView {
        added: d.removed,
        removed: d.added,
        changed: d.changed.map_values(|c: ObservationChangeView| flip_change(c)),
    }
}

proof fn lemma_changed_in_flips(left: Seq<IntentObservationView>, right: Seq<IntentObservationView>,
    c: ObservationChangeView)
    ensures
        changed_in(left, right, c) <==> changed_in(right, left, flip_change(c)),
{
    if changed_in(left, right, c) {
        let (i, j) = choose|i: int, j: int| i < left.len() && #[trigger] is_last(left, i)
            && #[trigger] is_last(right, j) && obs_key(left[i]) == obs_key(right[j])
            && c == (ObservationChangeView { left: left[i], right: right[j] })
            && left[i].value != right[j].value;
        assert(is_last(right, j) && is_last(left, i) && j < right.len());
        assert(changed_before(right, left, flip_change(c), right.len() as int));
    }
    if changed_in(right, left, flip_change(c)) {
        let (i, j) = choose|i: int, j: int| i < right.len() && #[trigger] is_last(right, i)
            && #[trigger] is_last(left, j) && obs_key(right[i]) == obs_key(left[j])
            && flip_change(c) == (ObservationChangeView { left: right[i], right: left[j] })
            && right[i].value != left[j].value;
        assert(is_last(left, j) && is_last(right, i) && j < left.len());
        assert(changed_before(left, right, c, left.len() as int));
    }
}

/// Diffing the right against the left gives the same differences seen from
/// the other side: additions become removals, removals additions, and each
/// change runs the other way.
pub proof fn lemma_diff_swaps_sides(left: Seq<IntentObservationView>, right: Seq<IntentObservationView>,
    d: DiffResultView, e: DiffResultView)
    requires
        diff_holds(left, right, d),
        diff_holds(right, left, e),
    ensures
        e == flipped(d),
{
    let f = flipped(d);
    assert forall|c: ObservationChangeView| f.changed.contains(c) <==> changed_in(right, left, c) by {
        if f.changed.contains(c) {
            let k = choose|k: int| 0 <= k < f.changed.len() && f.changed[k] == c;
            assert(d.changed.contains(d.changed[k]));
            lemma_changed_in_flips(left, right, d.changed[k]);
        }
        if changed_in(right, left, c) {
            lemma_changed_in_flips(left, right, flip_change(c));
            assert(flip_change(flip_change(c)) == c);
            assert(d.changed.contains(flip_change(c)));
            let k = choose|k: int| 0 <= k < d.changed.len() && d.changed[k] == flip_change(c);
            assert(f.changed[k] == c);
        }
    }
    assert forall|i: int| 0 <= i < d.changed.len() implies
        obs_key((#[trigger] d.changed[i]).left) == obs_key(d.changed[i].right) by {
        assert(d.changed.contains(d.changed[i]));
    }
    assert forall|i: int, j: int| 0 <= i < j < f.changed.len() implies
        key_order(obs_key((#[trigger] f.changed[i]).right), obs_key((#[trigger] f.changed[j]).right)) < 0 by {
        assert(obs_key(d.changed[i].left) == obs_key(d.changed[i].right));
        assert(obs_key(d.changed[j].left) == obs_key(d.changed[j].right));
    }
    assert(diff_holds(right, left, f));
    lemma_diff_is_deterministic(right, left, e, f);
}

/// No two observations of `s` share a key.
pub open spec fn distinct_keys(s: Seq<IntentObservationView>) -> bool {
    forall|i: int, j: int| 0 <= i < j < s.len() ==> obs_key(#[trigger] s[i]) != obs_key(#[trigger] s[j])
}

proof fn lemma_only_in_distinct(from: Seq<IntentObservationView>, other: Seq<IntentObservationView>,
    o: IntentObservationView)
    requires
        distinct_keys(from),
    ensures
        only_in(from, other, o) <==> (from.contains(o) && !has_key(other, obs_key(o))),
{
    if from.contains(o) && !has_key(other, obs_key(o)) {
        let i = choose|i: int| 0 <= i < from.len() && from[i] == o;
        assert forall|j: int| i < j < from.len() implies obs_key(#[trigger] from[j]) != obs_key(from[i]) by {}
        assert(is_last(from, i));
        assert(only_in_before(from, other, o, from.len() as int));
    }
    if only_in(from, other, o) {
        let i = choose|i: int| i < from.len() && #[trigger] is_last(from, i) && from[i] == o
            && !has_key(other, obs_key(o));
        assert(from.contains(o));
    }
}

proof fn lemma_changed_in_distinct(left: Seq<IntentObservationView>, right: Seq<IntentObservationView>,
    c: ObservationChangeView)
    requires
        distinct_keys(left),
        distinct_keys(right),
    ensures
        changed_in(left, right, c) <==> (left.contains(c.left) && right.contains(c.right)
            && obs_key(c.left) == obs_key(c.right) && c.left.value != c.right.value),
{
    if left.contains(c.left) && right.contains(c.right) && obs_key(c.left) == obs_key(c.right)
        && c.left.value != c.right.value {
        let i = choose|i: int| 0 <= i < left.len() && left[i] == c.left;
        let j = choose|j: int| 0 <= j < right.len() && right[j] == c.right;
        assert forall|m: int| i < m < left.len() implies obs_key(#[trigger] left[m]) != obs_key(left[i]) by {}
        assert forall|m: int| j < m < right.len() implies obs_key(#[trigger] right[m]) != obs_key(right[j]) by {}
        assert(is_last(left, i) && is_last(right, j));
        assert(changed_before(left, right, c, left.len() as int));
    }
    if changed_in(left, right, c) {
        let (i, j) = choose|i: int, j: int| i < left.len() && #[trigger] is_last(left, i)
            && #[trigger] is_last(right, j) && obs_key(left[i]) == obs_key(right[j])
            && c == (ObservationChangeView { left: left[i], right: right[j] })
            && left[i].value != right[j].value;
        assert(left.contains(left[i]) && right.contains(right[j]));
    }
}

proof fn lemma_has_key_same_elements(s: Seq<IntentObservationView>, t: Seq<IntentObservationView>,
    k: SignalKeyView)
    requires
        forall|o: IntentObservationView| s.contains(o) <==> t.contains(o),
    ensures
        has_key(s, k) <==> has_key(t, k),
{
    if has_key(s, k) {
        let i = choose|i: int| 0 <= i < s.len() && obs_key(#[trigger] s[i]) == k;
        assert(s.contains(s[i]));
        let j = choose|j: int| 0 <= j < t.len() && t[j] == s[i];
        assert(obs_key(t[j]) == k);
    }
    if has_key(t, k) {
        let i = choose|i: int| 0 <= i < t.len() && obs_key(#[trigger] t[i]) == k;
        assert(t.contains(t[i]));
        let j = choose|j: int| 0 <= j < s.len() && s[j] == t[i];
        assert(obs_key(s[j]) == k);
    }
}

/// The diff does not depend on the order the observations come in: where
/// no list has two observations with one key, diffing a reordering of the
/// left list against a reordering of the right list gives the same added,
/// removed and changed lists, element for element and in the same order.
pub proof fn lemma_diff_ignores_input_order(left1: Seq<IntentObservationView>, right1: Seq<IntentObservationView>,
    left2: Seq<IntentObservationView>, right2: Seq<IntentObservationView>, d1: DiffResultView, d2: DiffResultView)
    requires
        left2.to_multiset() == left1.to_multiset(),
        right2.to_multiset() == right1.to_multiset(),
        distinct_keys(left1),
        distinct_keys(right1),
        distinct_keys(left2),
        distinct_keys(right2),
        diff_holds(left1, right1, d1),
        diff_holds(left2, right2, d2),
    ensures
        d1 == d2,
{
    assert forall|o: IntentObservationView| left1.contains(o) <==> left2.contains(o) by {
        vstd::seq_lib::to_multiset_contains(left1, o);
        vstd::seq_lib::to_multiset_contains(left2, o);
    }
    assert forall|o: IntentObservationView| right1.contains(o) <==> right2.contains(o) by {
        vstd::seq_lib::to_multiset_contains(right1, o);
        vstd::seq_lib::to_multiset_contains(right2, o);
    }
    assert forall|o: IntentObservationView| d1.removed.contains(o) <==> only_in(left2, right2, o) by {
        lemma_only_in_distinct(left1, right1, o);
        lemma_only_in_distinct(left2, right2, o);
        lemma_has_key_same_elements(right1, right2, obs_key(o));
    }
    assert forall|o: IntentObservationView| d1.added.contains(o) <==> only_in(right2, left2, o) by {
        lemma_only_in_distinct(right1, left1, o);
        lemma_only_in_distinct(right2, left2, o);
        lemma_has_key_same_elements(left1, left2, obs_key(o));
    }
    assert forall|c: ObservationChangeView| d1.changed.contains(c) <==> changed_in(left2, right2, c) by {
        lemma_changed_in_distinct(left1, right1, c);
        lemma_changed_in_distinct(left2, right2, c);
    }
    assert(diff_holds(left2, right2, d1));
    lemma_diff_is_deterministic(left2, right2, d1, d2);
}

} // verus!
