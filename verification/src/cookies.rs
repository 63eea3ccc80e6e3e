//! The session cookie store: a map from cookie names to values whose entries are
//! kept in ascending order of name, as a `BTreeMap<String, String>` keeps them.
use vstd::prelude::*;
use crate::text::{chars_of, join, push_char, push_str, str_equal};

verus! {

/// Strict lexicographic order on character sequences by code point, which is
/// the order of `String` (byte-wise on UTF-8).
pub open spec fn key_lt(a: Seq<char>, b: Seq<char>) -> bool
    decreases a.len(),
{
    if b.len() == 0 {
        false
    } else if a.len() == 0 {
        true
    } else if a[0] != b[0] {
        (a[0] as u32) < (b[0] as u32)
    } else {
        key_lt(a.drop_first(), b.drop_first())
    }
}

/// `key_lt` is irreflexive.
pub proof fn lemma_key_lt_irreflexive(a: Seq<char>)
    ensures
        !key_lt(a, a),
    decreases a.len(),
{
    if a.len() > 0 {
        lemma_key_lt_irreflexive(a.drop_first());
    }
}

/// `key_lt` is transitive.
pub proof fn lemma_key_lt_transitive(a: Seq<char>, b: Seq<char>, c: Seq<char>)
    requires
        key_lt(a, b),
        key_lt(b, c),
    ensures
        key_lt(a, c),
    decreases a.len(),
{
    if a.len() > 0 && b.len() > 0 && c.len() > 0 && a[0] == b[0] && b[0] == c[0] {
        lemma_key_lt_transitive(a.drop_first(), b.drop_first(), c.drop_first());
    }
}

/// `key_lt` is total on distinct sequences.
pub proof fn lemma_key_lt_total(a: Seq<char>, b: Seq<char>)
    ensures
        a == b || key_lt(a, b) || key_lt(b, a),
    decreases a.len(),
{
    if a.len() > 0 && b.len() > 0 && a[0] == b[0] {
        lemma_key_lt_total(a.drop_first(), b.drop_first());
        if a.drop_first() == b.drop_first() {
            assert(a.len() == b.len());
            assert forall|i: int| 0 <= i < a.len() implies a[i] == b[i] by {
                if i > 0 {
                    assert(a[i] == a.drop_first()[i - 1]);
                    assert(b[i] == b.drop_first()[i - 1]);
                }
            }
            assert(a =~= b);
        }
    } else if a.len() == 0 && b.len() == 0 {
        assert(a =~= b);
    } else if a.len() > 0 && b.len() > 0 {
        vstd::utf8::char_u32_cast(a[0], a[0] as u32);
        vstd::utf8::char_u32_cast(b[0], b[0] as u32);
    }
}

/// `key_lt` is asymmetric.
pub proof fn lemma_key_lt_asymmetric(a: Seq<char>, b: Seq<char>)
    requires
        key_lt(a, b),
    ensures
        !key_lt(b, a),
{
    if key_lt(b, a) {
        lemma_key_lt_transitive(a, b, a);
        lemma_key_lt_irreflexive(a);
    }
}

proof fn lemma_key_lt_skip(a: Seq<char>, b: Seq<char>, i: int)
    requires
        0 <= i <= a.len(),
        i <= b.len(),
        forall|j: int| 0 <= j < i ==> a[j] == b[j],
    ensures
        key_lt(a, b) == key_lt(a.skip(i), b.skip(i)),
    decreases i,
{
    if i > 0 {
        lemma_key_lt_skip(a, b, i - 1);
        assert(a.skip(i - 1).drop_first() =~= a.skip(i));
        assert(b.skip(i - 1).drop_first() =~= b.skip(i));
    } else {
        assert(a.skip(0) =~= a);
        assert(b.skip(0) =~= b);
    }
}

/// Whether `a` comes strictly before `b`.
pub fn chars_less(a: &Vec<char>, b: &Vec<char>) -> (r: bool)
    ensures
        r == key_lt(a@, b@),
{
    let mut i: usize = 0;
    while i < a.len() && i < b.len()
        invariant
            0 <= i <= a@.len(),
            i <= b@.len(),
            forall|j: int| 0 <= j < i ==> a@[j] == b@[j],
        decreases a.len() - i,
    {
        if a[i] != b[i] {
            proof {
                lemma_key_lt_skip(a@, b@, i as int);
            }
            return (a[i] as u32) < (b[i] as u32);
        }
        i += 1;
    }
    proof {
        lemma_key_lt_skip(a@, b@, i as int);
    }
    i < b.len()
}

/// The map that a list of (name, value) pairs stands for.
pub open spec fn pairs_to_map(s: Seq<(Seq<char>, Seq<char>)>) -> Map<Seq<char>, Seq<char>>
    decreases s.len(),
{
    if s.len() == 0 {
        Map::empty()
    } else {
        pairs_to_map(s.drop_first()).insert(s[0].0, s[0].1)
    }
}

/// Names strictly ascending.
pub open spec fn strictly_sorted(s: Seq<(Seq<char>, Seq<char>)>) -> bool {
    forall|i: int, j: int| 0 <= i < j < s.len() ==> key_lt(#[trigger] s[i].0, #[trigger] s[j].0)
}

/// In a strictly sorted list, each name maps to its value and nothing else is mapped.
pub proof fn lemma_pairs_to_map(s: Seq<(Seq<char>, Seq<char>)>)
    requires
        strictly_sorted(s),
    ensures
        forall|i: int|
            0 <= i < s.len() ==> pairs_to_map(s).contains_key(#[trigger] s[i].0) && pairs_to_map(
                s,
            )[s[i].0] == s[i].1,
        forall|k: Seq<char>|
            pairs_to_map(s).contains_key(k) ==> exists|i: int| 0 <= i < s.len() && #[trigger] s[i].0 == k,
    decreases s.len(),
{
    if s.len() > 0 {
        let rest = s.drop_first();
        assert forall|i: int, j: int| 0 <= i < j < rest.len() implies key_lt(
            #[trigger] rest[i].0,
            #[trigger] rest[j].0,
        ) by {
            assert(s[i + 1] == rest[i] && s[j + 1] == rest[j]);
        }
        lemma_pairs_to_map(rest);
        assert forall|i: int| 0 <= i < s.len() implies pairs_to_map(s).contains_key(
            #[trigger] s[i].0,
        ) && pairs_to_map(s)[s[i].0] == s[i].1 by {
            if i > 0 {
                assert(s[i] == rest[i - 1]);
                assert(key_lt(s[0].0, s[i].0));
                lemma_key_lt_irreflexive(s[0].0);
            }
        }
        assert forall|k: Seq<char>| pairs_to_map(s).contains_key(k) implies exists|i: int|
            0 <= i < s.len() && #[trigger] s[i].0 == k by {
            if k != s[0].0 {
                assert(pairs_to_map(rest).contains_key(k));
                let j = choose|j: int| 0 <= j < rest.len() && #[trigger] rest[j].0 == k;
                assert(s[j + 1] == rest[j]);
            }
        }
    }
}

/// Two strictly sorted lists that stand for the same map are the same list.
pub proof fn lemma_sorted_pairs_unique(
    s1: Seq<(Seq<char>, Seq<char>)>,
    s2: Seq<(Seq<char>, Seq<char>)>,
)
    requires
        strictly_sorted(s1),
        strictly_sorted(s2),
        pairs_to_map(s1) == pairs_to_map(s2),
    ensures
        s1 == s2,
    decreases s1.len() + s2.len(),
{
    lemma_pairs_to_map(s1);
    lemma_pairs_to_map(s2);
    if s1.len() == 0 || s2.len() == 0 {
        if s1.len() > 0 {
            assert(pairs_to_map(s2).contains_key(s1[0].0));
        }
        if s2.len() > 0 {
            assert(pairs_to_map(s1).contains_key(s2[0].0));
        }
        assert(s1 =~= s2);
    } else {
        let k1 = s1[0].0;
        let k2 = s2[0].0;
        assert(pairs_to_map(s2).contains_key(k1));
        assert(pairs_to_map(s1).contains_key(k2));
        let i2 = choose|i: int| 0 <= i < s2.len() && #[trigger] s2[i].0 == k1;
        let i1 = choose|i: int| 0 <= i < s1.len() && #[trigger] s1[i].0 == k2;
        if k1 != k2 {
            // k1 sits after k2 in s2 and k2 after k1 in s1: a contradiction.
            assert(i2 > 0);
            assert(i1 > 0);
            assert(key_lt(k2, k1));
            assert(key_lt(k1, k2));
            lemma_key_lt_asymmetric(k1, k2);
        }
        let r1 = s1.drop_first();
        let r2 = s2.drop_first();
        assert forall|i: int, j: int| 0 <= i < j < r1.len() implies key_lt(
            #[trigger] r1[i].0,
            #[trigger] r1[j].0,
        ) by {
            assert(s1[i + 1] == r1[i] && s1[j + 1] == r1[j]);
        }
        assert forall|i: int, j: int| 0 <= i < j < r2.len() implies key_lt(
            #[trigger] r2[i].0,
            #[trigger] r2[j].0,
        ) by {
            assert(s2[i + 1] == r2[i] && s2[j + 1] == r2[j]);
        }
        lemma_pairs_to_map(r1);
        lemma_pairs_to_map(r2);
        assert(!pairs_to_map(r1).contains_key(k1)) by {
            if pairs_to_map(r1).contains_key(k1) {
                let j = choose|j: int| 0 <= j < r1.len() && #[trigger] r1[j].0 == k1;
                assert(s1[j + 1] == r1[j]);
                assert(key_lt(s1[0].0, s1[j + 1].0));
                lemma_key_lt_irreflexive(k1);
            }
        }
        assert(!pairs_to_map(r2).contains_key(k1)) by {
            if pairs_to_map(r2).contains_key(k1) {
                let j = choose|j: int| 0 <= j < r2.len() && #[trigger] r2[j].0 == k1;
                assert(s2[j + 1] == r2[j]);
                assert(key_lt(s2[0].0, s2[j + 1].0));
                lemma_key_lt_irreflexive(k1);
            }
        }
        assert(pairs_to_map(r1) =~= pairs_to_map(s1).remove(k1));
        assert(pairs_to_map(r2) =~= pairs_to_map(s2).remove(k1));
        lemma_sorted_pairs_unique(r1, r2);
        assert(s1[0].1 == pairs_to_map(s1)[k1]);
        assert(s2[0].1 == pairs_to_map(s2)[k1]);
        assert(s1 =~= seq![s1[0]] + r1);
        assert(s2 =~= seq![s2[0]] + r2);
    }
}

proof fn lemma_insert_at(s: Seq<(Seq<char>, Seq<char>)>, p: int, k: Seq<char>, v: Seq<char>)
    requires
        strictly_sorted(s),
        0 <= p <= s.len(),
        forall|j: int| 0 <= j < p ==> key_lt(#[trigger] s[j].0, k),
        forall|j: int| p <= j < s.len() ==> key_lt(k, #[trigger] s[j].0),
    ensures
        strictly_sorted(s.insert(p, (k, v))),
        pairs_to_map(s.insert(p, (k, v))) == pairs_to_map(s).insert(k, v),
{
    let n = s.insert(p, (k, v));
    assert forall|i: int, j: int| 0 <= i < j < n.len() implies key_lt(
        #[trigger] n[i].0,
        #[trigger] n[j].0,
    ) by {
        if j < p {
            assert(n[i] == s[i] && n[j] == s[j]);
        } else if j == p {
            assert(n[i] == s[i]);
        } else if i < p {
            assert(n[i] == s[i] && n[j] == s[j - 1]);
        } else if i == p {
            assert(n[j] == s[j - 1]);
        } else {
            assert(n[i] == s[i - 1] && n[j] == s[j - 1]);
        }
    }
    lemma_pairs_to_map(s);
    lemma_pairs_to_map(n);
    let m = pairs_to_map(s).insert(k, v);
    assert forall|q: Seq<char>| #[trigger] pairs_to_map(n).contains_key(q) <==> m.contains_key(q) by {
        if pairs_to_map(n).contains_key(q) {
            let i = choose|i: int| 0 <= i < n.len() && #[trigger] n[i].0 == q;
            if i < p {
                assert(n[i] == s[i]);
            } else if i > p {
                assert(n[i] == s[i - 1]);
            }
        }
        if m.contains_key(q) && q != k {
            let i = choose|i: int| 0 <= i < s.len() && #[trigger] s[i].0 == q;
            if i < p {
                assert(n[i] == s[i]);
            } else {
                assert(n[i + 1] == s[i]);
            }
        }
        if q == k {
            assert(n[p].0 == k);
        }
    }
    assert forall|q: Seq<char>| #[trigger] pairs_to_map(n).contains_key(q) implies pairs_to_map(n)[q]
        == m[q] by {
        let i = choose|i: int| 0 <= i < n.len() && #[trigger] n[i].0 == q;
        if i < p {
            assert(n[i] == s[i]);
        } else if i > p {
            assert(n[i] == s[i - 1]);
        }
        if i != p {
            assert(q != k) by {
                if q == k {
                    assert(n[p].0 == k);
                    if i < p {
                        assert(key_lt(n[i].0, n[p].0));
                    } else {
                        assert(key_lt(n[p].0, n[i].0));
                    }
                    lemma_key_lt_irreflexive(k);
                }
            }
        }
    }
    assert(pairs_to_map(n) =~= m);
}

proof fn lemma_update_at(s: Seq<(Seq<char>, Seq<char>)>, p: int, v: Seq<char>)
    requires
        strictly_sorted(s),
        0 <= p < s.len(),
    ensures
        strictly_sorted(s.update(p, (s[p].0, v))),
        pairs_to_map(s.update(p, (s[p].0, v))) == pairs_to_map(s).insert(s[p].0, v),
{
    let k = s[p].0;
    let n = s.update(p, (k, v));
    assert forall|i: int, j: int| 0 <= i < j < n.len() implies key_lt(
        #[trigger] n[i].0,
        #[trigger] n[j].0,
    ) by {
        assert(n[i].0 == s[i].0 && n[j].0 == s[j].0);
    }
    lemma_pairs_to_map(s);
    lemma_pairs_to_map(n);
    let m = pairs_to_map(s).insert(k, v);
    assert forall|q: Seq<char>| #[trigger] pairs_to_map(n).contains_key(q) <==> m.contains_key(q) by {
        if pairs_to_map(n).contains_key(q) {
            let i = choose|i: int| 0 <= i < n.len() && #[trigger] n[i].0 == q;
            assert(s[i].0 == q);
        }
        if m.contains_key(q) && q != k {
            let i = choose|i: int| 0 <= i < s.len() && #[trigger] s[i].0 == q;
            assert(n[i].0 == q);
        }
        if q == k {
            assert(n[p].0 == k);
        }
    }
    assert forall|q: Seq<char>| #[trigger] pairs_to_map(n).contains_key(q) implies pairs_to_map(n)[q]
        == m[q] by {
        let i = choose|i: int| 0 <= i < n.len() && #[trigger] n[i].0 == q;
        if i != p {
            assert(n[i] == s[i]);
            assert(q != k) by {
                if q == k {
                    if i < p {
                        assert(key_lt(s[i].0, s[p].0));
                    } else {
                        assert(key_lt(s[p].0, s[i].0));
                    }
                    lemma_key_lt_irreflexive(k);
                }
            }
        }
    }
    assert(pairs_to_map(n) =~= m);
}

proof fn lemma_remove_at(s: Seq<(Seq<char>, Seq<char>)>, p: int)
    requires
        strictly_sorted(s),
        0 <= p < s.len(),
    ensures
        strictly_sorted(s.remove(p)),
        pairs_to_map(s.remove(p)) == pairs_to_map(s).remove(s[p].0),
{
    let k = s[p].0;
    let n = s.remove(p);
    assert forall|i: int, j: int| 0 <= i < j < n.len() implies key_lt(
        #[trigger] n[i].0,
        #[trigger] n[j].0,
    ) by {
        if j < p {
            assert(n[i] == s[i] && n[j] == s[j]);
        } else if i < p {
            assert(n[i] == s[i] && n[j] == s[j + 1]);
        } else {
            assert(n[i] == s[i + 1] && n[j] == s[j + 1]);
        }
    }
    lemma_pairs_to_map(s);
    lemma_pairs_to_map(n);
    let m = pairs_to_map(s).remove(k);
    assert forall|q: Seq<char>| #[trigger] pairs_to_map(n).contains_key(q) <==> m.contains_key(q) by {
        if pairs_to_map(n).contains_key(q) {
            let i = choose|i: int| 0 <= i < n.len() && #[trigger] n[i].0 == q;
            let si = if i < p {
                i
            } else {
                i + 1
            };
            assert(n[i] == s[si]);
            assert(q != k) by {
                if q == k {
                    if si < p {
                        assert(key_lt(s[si].0, s[p].0));
                    } else {
                        assert(key_lt(s[p].0, s[si].0));
                    }
                    lemma_key_lt_irreflexive(k);
                }
            }
        }
        if m.contains_key(q) {
            let i = choose|i: int| 0 <= i < s.len() && #[trigger] s[i].0 == q;
            if i < p {
                assert(n[i] == s[i]);
            } else {
                assert(i != p);
                assert(n[i - 1] == s[i]);
            }
        }
    }
    assert forall|q: Seq<char>| #[trigger] pairs_to_map(n).contains_key(q) implies pairs_to_map(n)[q]
        == m[q] by {
        let i = choose|i: int| 0 <= i < n.len() && #[trigger] n[i].0 == q;
        if i < p {
            assert(n[i] == s[i]);
        } else {
            assert(n[i] == s[i + 1]);
        }
    }
    assert(pairs_to_map(n) =~= m);
}

/// A set of cookies, each name at most once, listed in ascending order of name.
#[derive(Debug, PartialEq)]
pub struct CookieJar {
    entries: Vec<(String, String)>,
}

/// The (name, value) character sequences of a list of entries.
pub open spec fn entry_views(e: Seq<(String, String)>) -> Seq<(Seq<char>, Seq<char>)> {
    e.map_values(|p: (String, String)| (p.0@, p.1@))
}

impl CookieJar {
    /// The entries, in ascending order of name.
    pub closed spec fn pairs(&self) -> Seq<(Seq<char>, Seq<char>)> {
        entry_views(self.entries@)
    }

    #[verifier::type_invariant]
    closed spec fn sorted_inv(&self) -> bool {
        strictly_sorted(self.pairs())
    }
}

impl View for CookieJar {
    type V = Map<Seq<char>, Seq<char>>;

    closed spec fn view(&self) -> Map<Seq<char>, Seq<char>> {
        pairs_to_map(self.pairs())
    }
}

/// Which position the name `k` takes among sorted entries `s`: the first whose
/// name is not below `k`.
fn find_position(entries: &Vec<(String, String)>, name: &str) -> (p: usize)
    requires
        strictly_sorted(entry_views(entries@)),
    ensures
        p <= entries@.len(),
        forall|j: int| 0 <= j < p ==> key_lt(#[trigger] entry_views(entries@)[j].0, name@),
        p < entries@.len() ==> !key_lt(entry_views(entries@)[p as int].0, name@),
{
    let key = chars_of(name);
    let mut p: usize = 0;
    while p < entries.len()
        invariant
            p <= entries@.len(),
            key@ == name@,
            forall|j: int| 0 <= j < p ==> key_lt(#[trigger] entry_views(entries@)[j].0, name@),
        decreases entries.len() - p,
    {
        let k = chars_of(entries[p].0.as_str());
        if !chars_less(&k, &key) {
            return p;
        }
        p += 1;
    }
    p
}

impl CookieJar {
    /// An empty jar.
    pub fn new() -> (r: CookieJar)
        ensures
            r@ == Map::<Seq<char>, Seq<char>>::empty(),
    {
        let r = CookieJar { entries: Vec::new() };
        assert(r.pairs() =~= Seq::empty());
        r
    }

    /// The number of cookies.
    pub fn len(&self) -> (n: usize)
        ensures
            n == self@.dom().len(),
    {
        proof {
            use_type_invariant(self);
            lemma_pairs_to_map_len(self.pairs());
        }
        self.entries.len()
    }

    /// Whether the jar holds no cookie.
    pub fn is_empty(&self) -> (b: bool)
        ensures
            b == (self@ == Map::<Seq<char>, Seq<char>>::empty()),
    {
        proof {
            use_type_invariant(self);
            lemma_pairs_to_map(self.pairs());
            if self.entries@.len() > 0 {
                assert(self@.contains_key(self.pairs()[0].0));
            } else {
                assert(self.pairs() =~= Seq::empty());
                assert(self@ =~= Map::empty());
            }
        }
        self.entries.len() == 0
    }

    /// The value of the cookie `name`, if the jar holds one.
    pub fn get(&self, name: &str) -> (r: Option<&String>)
        ensures
            match r {
                Some(v) => self@.contains_key(name@) && self@[name@] == v@,
                None => !self@.contains_key(name@),
            },
    {
        proof {
            use_type_invariant(self);
            lemma_pairs_to_map(self.pairs());
        }
        let p = find_position(&self.entries, name);
        if p < self.entries.len() && str_equal(self.entries[p].0.as_str(), name) {
            proof {
                assert(self.pairs()[p as int].0 == name@);
            }
            return Some(&self.entries[p].1);
        }
        proof {
            if self@.contains_key(name@) {
                let i = choose|i: int| 0 <= i < self.pairs().len() && #[trigger] self.pairs()[i].0 == name@;
                if i < p {
                    lemma_key_lt_irreflexive(name@);
                } else if i > p {
                    assert(key_lt(self.pairs()[p as int].0, self.pairs()[i].0));
                    lemma_key_lt_total(self.pairs()[p as int].0, name@);
                }
            }
        }
        None
    }

    /// Sets the cookie `name` to `value` (`BTreeMap::insert`).
    pub fn insert(&mut self, name: String, value: String)
        ensures
            final(self)@ == old(self)@.insert(name@, value@),
    {
        proof {
            use_type_invariant(&*self);
        }
        let mut entries: Vec<(String, String)> = Vec::new();
        std::mem::swap(&mut entries, &mut self.entries);
        let ghost s = entry_views(entries@);
        assert(s == old(self).pairs());
        let p = find_position(&entries, name.as_str());
        if p < entries.len() && str_equal(entries[p].0.as_str(), name.as_str()) {
            proof {
                lemma_update_at(s, p as int, value@);
            }
            entries.set(p, (name, value));
            proof {
                assert(entry_views(entries@) =~= s.update(p as int, (s[p as int].0, value@)));
            }
        } else {
            proof {
                if p < s.len() {
                    lemma_key_lt_total(s[p as int].0, name@);
                }
                assert forall|j: int| p <= j < s.len() implies key_lt(name@, #[trigger] s[j].0) by {
                    if j > p {
                        lemma_key_lt_transitive(name@, s[p as int].0, s[j].0);
                    }
                }
                lemma_insert_at(s, p as int, name@, value@);
            }
            let ghost nv = name@;
            let ghost vv = value@;
            entries.insert(p, (name, value));
            proof {
                assert(entry_views(entries@) =~= s.insert(p as int, (nv, vv)));
            }
        }
        self.entries = entries;
    }

    /// Removes the cookie `name`, if present (`BTreeMap::remove`).
    pub fn remove(&mut self, name: &str)
        ensures
            final(self)@ == old(self)@.remove(name@),
    {
        proof {
            use_type_invariant(&*self);
        }
        let mut entries: Vec<(String, String)> = Vec::new();
        std::mem::swap(&mut entries, &mut self.entries);
        let ghost s = entry_views(entries@);
        assert(s == old(self).pairs());
        let p = find_position(&entries, name);
        if p < entries.len() && str_equal(entries[p].0.as_str(), name) {
            proof {
                lemma_remove_at(s, p as int);
            }
            entries.remove(p);
            proof {
                assert(entry_views(entries@) =~= s.remove(p as int));
            }
        } else {
            proof {
                lemma_pairs_to_map(s);
                if pairs_to_map(s).contains_key(name@) {
                    let i = choose|i: int| 0 <= i < s.len() && #[trigger] s[i].0 == name@;
                    if i < p {
                        lemma_key_lt_irreflexive(name@);
                    } else if i > p {
                        assert(key_lt(s[p as int].0, s[i].0));
                        lemma_key_lt_total(s[p as int].0, name@);
                    }
                }
                assert(pairs_to_map(s) =~= pairs_to_map(s).remove(name@));
            }
        }
        self.entries = entries;
    }

    /// Removes every cookie.
    pub fn clear(&mut self)
        ensures
            final(self)@ == Map::<Seq<char>, Seq<char>>::empty(),
    {
        self.entries = Vec::new();
        assert(self.pairs() =~= Seq::empty());
    }

    /// The (name, value) pairs in ascending order of name.
    pub fn to_pairs(&self) -> (r: Vec<(String, String)>)
        ensures
            entry_views(r@) == self.pairs(),
            strictly_sorted(entry_views(r@)),
            pairs_to_map(entry_views(r@)) == self@,
    {
        proof {
            use_type_invariant(self);
        }
        let mut r: Vec<(String, String)> = Vec::new();
        let mut i: usize = 0;
        while i < self.entries.len()
            invariant
                0 <= i <= self.entries@.len(),
                r@ == self.entries@.take(i as int),
            decreases self.entries.len() - i,
        {
            let k = self.entries[i].0.clone();
            let v = self.entries[i].1.clone();
            r.push((k, v));
            proof {
                assert(r@ =~= self.entries@.take(i + 1));
            }
            i += 1;
        }
        proof {
            assert(self.entries@.take(i as int) =~= self.entries@);
        }
        r
    }

    /// A jar holding the given pairs, later pairs replacing earlier ones of the same name.
    pub fn from_pairs(pairs: &Vec<(String, String)>) -> (r: CookieJar)
        ensures
            r@ == insert_all(Map::empty(), entry_views(pairs@)),
    {
        let mut jar = CookieJar::new();
        let ghost ps = entry_views(pairs@);
        let mut i: usize = 0;
        while i < pairs.len()
            invariant
                0 <= i <= pairs@.len(),
                ps == entry_views(pairs@),
                jar@ == insert_all(Map::empty(), ps.take(i as int)),
            decreases pairs.len() - i,
        {
            let k = pairs[i].0.clone();
            let v = pairs[i].1.clone();
            proof {
                assert(ps.take(i + 1).drop_last() =~= ps.take(i as int));
            }
            jar.insert(k, v);
            i += 1;
        }
        assert(ps.take(i as int) =~= ps);
        jar
    }
}

/// The `name=value` text of one cookie.
pub open spec fn cookie_pair_text(e: (Seq<char>, Seq<char>)) -> Seq<char> {
    e.0 + seq!['='] + e.1
}

/// The `name=value` texts of a list of cookies.
pub open spec fn pair_texts(s: Seq<(Seq<char>, Seq<char>)>) -> Seq<Seq<char>> {
    s.map_values(|e: (Seq<char>, Seq<char>)| cookie_pair_text(e))
}

/// The value of a `Cookie` request header for a list of cookies: their
/// `name=value` texts joined by `"; "`.
pub open spec fn header_text(s: Seq<(Seq<char>, Seq<char>)>) -> Seq<char> {
    join(pair_texts(s), seq![';', ' '])
}

/// Two cookie lists kept in order of name that hold the same cookies give the
/// same `Cookie` header: the header depends only on the cookies, not on the
/// order in which they were set.
pub proof fn law_header_depends_only_on_cookies(
    s1: Seq<(Seq<char>, Seq<char>)>,
    s2: Seq<(Seq<char>, Seq<char>)>,
)
    requires
        strictly_sorted(s1),
        strictly_sorted(s2),
        pairs_to_map(s1) == pairs_to_map(s2),
    ensures
        header_text(s1) == header_text(s2),
{
    lemma_sorted_pairs_unique(s1, s2);
}

impl CookieJar {
    /// A copy of the jar.
    pub fn duplicate(&self) -> (r: CookieJar)
        ensures
            r@ == self@,
            r.pairs() == self.pairs(),
    {
        let entries = self.to_pairs();
        CookieJar { entries }
    }

    /// The `Cookie` header value for the jar: `name=value` for each cookie in
    /// ascending order of name, joined by `"; "`.
    pub fn header_value(&self) -> (r: String)
        ensures
            r@ == header_text(self.pairs()),
            strictly_sorted(self.pairs()),
            pairs_to_map(self.pairs()) == self@,
    {
        proof {
            use_type_invariant(self);
        }
        let ghost s = self.pairs();
        let mut out = String::new();
        let mut i: usize = 0;
        while i < self.entries.len()
            invariant
                0 <= i <= self.entries@.len(),
                s == entry_views(self.entries@),
                out@ == header_text(s.take(i as int)),
            decreases self.entries.len() - i,
        {
            let ghost before = out@;
            if i > 0 {
                push_char(&mut out, ';');
                push_char(&mut out, ' ');
            }
            push_str(&mut out, self.entries[i].0.as_str());
            push_char(&mut out, '=');
            push_str(&mut out, self.entries[i].1.as_str());
            proof {
                let t = pair_texts(s.take(i + 1));
                assert(t.last() == cookie_pair_text(s[i as int]));
                if i == 0 {
                    assert(out@ =~= cookie_pair_text(s[0]));
                    assert(t.len() == 1);
                } else {
                    assert(t.drop_last() =~= pair_texts(s.take(i as int)));
                    assert(out@ =~= before + seq![';', ' '] + cookie_pair_text(s[i as int]));
                }
            }
            i += 1;
        }
        proof {
            assert(s.take(i as int) =~= s);
        }
        out
    }
}

impl Clone for CookieJar {
    fn clone(&self) -> (r: Self)
        ensures
            r@ == self@,
    {
        self.duplicate()
    }
}

/// The map obtained from `m` by setting each pair of `s` in turn.
pub open spec fn insert_all(m: Map<Seq<char>, Seq<char>>, s: Seq<(Seq<char>, Seq<char>)>) -> Map<
    Seq<char>,
    Seq<char>,
>
    decreases s.len(),
{
    if s.len() == 0 {
        m
    } else {
        insert_all(m, s.drop_last()).insert(s.last().0, s.last().1)
    }
}

/// Rebuilding a jar from the pairs that `to_pairs` lists (each name once, in
/// ascending order) gives back the same cookies.
pub proof fn law_pairs_round_trip(s: Seq<(Seq<char>, Seq<char>)>)
    requires
        strictly_sorted(s),
    ensures
        insert_all(Map::empty(), s) == pairs_to_map(s),
    decreases s.len(),
{
    if s.len() == 0 {
        assert(pairs_to_map(s) =~= Map::empty());
    } else {
        let d = s.drop_last();
        assert forall|i: int, j: int| 0 <= i < j < d.len() implies key_lt(
            #[trigger] d[i].0,
            #[trigger] d[j].0,
        ) by {
            assert(d[i] == s[i] && d[j] == s[j]);
        }
        law_pairs_round_trip(d);
        lemma_pairs_to_map(s);
        lemma_pairs_to_map(d);
        let last = s.last();
        let m = pairs_to_map(d).insert(last.0, last.1);
        assert forall|k: Seq<char>| #[trigger] m.contains_key(k) implies pairs_to_map(s).contains_key(k)
            && pairs_to_map(s)[k] == m[k] by {
            if k == last.0 {
                assert(s[s.len() - 1] == last);
            } else {
                let i = choose|i: int| 0 <= i < d.len() && #[trigger] d[i].0 == k;
                assert(s[i] == d[i]);
            }
        }
        assert forall|k: Seq<char>| #[trigger] pairs_to_map(s).contains_key(k) implies m.contains_key(
            k,
        ) by {
            let i = choose|i: int| 0 <= i < s.len() && #[trigger] s[i].0 == k;
            if i < s.len() - 1 {
                assert(d[i] == s[i]);
            }
        }
        assert(m =~= pairs_to_map(s));
    }
}

proof fn lemma_pairs_to_map_len(s: Seq<(Seq<char>, Seq<char>)>)
    requires
        strictly_sorted(s),
    ensures
        pairs_to_map(s).dom().finite(),
        pairs_to_map(s).dom().len() == s.len(),
    decreases s.len(),
{
    if s.len() > 0 {
        let rest = s.drop_first();
        assert forall|i: int, j: int| 0 <= i < j < rest.len() implies key_lt(
            #[trigger] rest[i].0,
            #[trigger] rest[j].0,
        ) by {
            assert(s[i + 1] == rest[i] && s[j + 1] == rest[j]);
        }
        lemma_pairs_to_map_len(rest);
        lemma_pairs_to_map(rest);
        assert(!pairs_to_map(rest).contains_key(s[0].0)) by {
            if pairs_to_map(rest).contains_key(s[0].0) {
                let j = choose|j: int| 0 <= j < rest.len() && #[trigger] rest[j].0 == s[0].0;
                assert(s[j + 1] == rest[j]);
                assert(key_lt(s[0].0, s[j + 1].0));
                lemma_key_lt_irreflexive(s[0].0);
            }
        }
    } else {
        assert(pairs_to_map(s).dom() =~= Set::empty());
    }
}

} // verus!
