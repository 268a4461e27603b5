//! A map keyed by strings that keeps its entries in ascending key order.
//!
//! Keys compare byte by byte on their UTF-8 encoding, which is the order of
//! `String`'s own comparison; iterating the entries by index therefore visits
//! the keys in ascending order, and every key occurs at most once.
use vstd::prelude::*;
use vstd::utf8::encode_utf8;

verus! {

/// `a` and `b` agree on every position below `i`.
pub open spec fn agree_below(a: Seq<u8>, b: Seq<u8>, i: int) -> bool {
    forall|k: int| 0 <= k < i ==> a[k] == b[k]
}

/// Position `i` is where `a` first departs from `b`, and `a` is the smaller one there.
pub open spec fn first_gap_before(a: Seq<u8>, b: Seq<u8>, i: int) -> bool {
    &&& 0 <= i <= a.len()
    &&& i <= b.len()
    &&& agree_below(a, b, i)
    &&& ((i == a.len() && i < b.len()) || (i < a.len() && i < b.len() && a[i] < b[i]))
}

/// Strict lexicographic order on byte strings.
pub open spec fn bytes_precede(a: Seq<u8>, b: Seq<u8>) -> bool {
    exists|i: int| #[trigger] first_gap_before(a, b, i)
}

/// Strict order on keys: the lexicographic order of their UTF-8 encodings.
pub open spec fn key_precedes(a: Seq<char>, b: Seq<char>) -> bool {
    bytes_precede(encode_utf8(a), encode_utf8(b))
}

/// Every key comes strictly before the keys after it.
pub open spec fn ascending(keys: Seq<Seq<char>>) -> bool {
    forall|i: int, j: int|
        0 <= i < j < keys.len() ==> key_precedes(#[trigger] keys[i], #[trigger] keys[j])
}

/// No key occurs twice.
pub open spec fn distinct(keys: Seq<Seq<char>>) -> bool {
    forall|i: int, j: int| 0 <= i < j < keys.len() ==> #[trigger] keys[i] != #[trigger] keys[j]
}

/// The map obtained by inserting `keys[i] -> vals[i]` for `i = 0, 1, ...` in turn
/// into an empty map (a later key overrides an earlier equal one).
pub open spec fn fold_inserts<V>(keys: Seq<Seq<char>>, vals: Seq<V>) -> Map<Seq<char>, V>
    decreases keys.len(),
{
    if keys.len() == 0 || vals.len() == 0 {
        Map::empty()
    } else {
        fold_inserts(keys.drop_last(), vals.drop_last()).insert(keys.last(), vals.last())
    }
}

pub proof fn lemma_precede_irreflexive(a: Seq<u8>)
    ensures
        !bytes_precede(a, a),
{
    if bytes_precede(a, a) {
        let i = choose|i: int| first_gap_before(a, a, i);
        assert(first_gap_before(a, a, i));
    }
}

pub proof fn lemma_precede_asymmetric(a: Seq<u8>, b: Seq<u8>)
    ensures
        bytes_precede(a, b) ==> !bytes_precede(b, a),
{
    if bytes_precede(a, b) && bytes_precede(b, a) {
        let i = choose|i: int| first_gap_before(a, b, i);
        let j = choose|j: int| first_gap_before(b, a, j);
        assert(first_gap_before(a, b, i));
        assert(first_gap_before(b, a, j));
        if i < j {
            assert(b[i] == a[i]);
        } else if j < i {
            assert(a[j] == b[j]);
        }
    }
}

pub proof fn lemma_precede_transitive(a: Seq<u8>, b: Seq<u8>, c: Seq<u8>)
    requires
        bytes_precede(a, b),
        bytes_precede(b, c),
    ensures
        bytes_precede(a, c),
{
    let i = choose|i: int| first_gap_before(a, b, i);
    let j = choose|j: int| first_gap_before(b, c, j);
    assert(first_gap_before(a, b, i));
    assert(first_gap_before(b, c, j));
    if i < j {
        assert(b[i] == c[i]);
        assert(first_gap_before(a, c, i));
    } else if j < i {
        assert(a[j] == b[j]);
        assert(first_gap_before(a, c, j));
    } else {
        assert(first_gap_before(a, c, i));
    }
}

/// Distinct strings have distinct UTF-8 encodings.
pub proof fn lemma_encoding_injective(a: Seq<char>, b: Seq<char>)
    ensures
        encode_utf8(a) == encode_utf8(b) ==> a == b,
{
    vstd::utf8::encode_utf8_decode_utf8(a);
    vstd::utf8::encode_utf8_decode_utf8(b);
}

pub proof fn lemma_ascending_distinct(keys: Seq<Seq<char>>)
    requires
        ascending(keys),
    ensures
        distinct(keys),
{
    assert forall|i: int, j: int| 0 <= i < j < keys.len() implies #[trigger] keys[i] != #[trigger] keys[j] by {
        assert(key_precedes(keys[i], keys[j]));
        lemma_precede_irreflexive(encode_utf8(keys[i]));
    }
}

/// With distinct keys, the folded map holds exactly the listed keys, each with its own value.
pub proof fn lemma_fold_lookup<V>(keys: Seq<Seq<char>>, vals: Seq<V>)
    requires
        distinct(keys),
        keys.len() == vals.len(),
    ensures
        forall|k: Seq<char>| #[trigger] fold_inserts(keys, vals).contains_key(k) <==> keys.contains(k),
        forall|i: int| 0 <= i < keys.len() ==> #[trigger] fold_inserts(keys, vals)[keys[i]] == vals[i],
    decreases keys.len(),
{
    if keys.len() > 0 {
        let ks = keys.drop_last();
        let vs = vals.drop_last();
        assert(distinct(ks));
        lemma_fold_lookup(ks, vs);
        let m = fold_inserts(keys, vals);
        let last = (keys.len() - 1) as int;
        assert(m == fold_inserts(ks, vs).insert(keys[last], vals[last]));
        assert forall|k: Seq<char>| #[trigger] m.contains_key(k) <==> keys.contains(k) by {
            if keys.contains(k) {
                let i = choose|i: int| 0 <= i < keys.len() && keys[i] == k;
                if i < last {
                    assert(ks[i] == k);
                    assert(ks.contains(k));
                }
            }
            if m.contains_key(k) {
                if k == keys[last] {
                    assert(keys.contains(k));
                } else {
                    assert(fold_inserts(ks, vs).contains_key(k));
                    assert(ks.contains(k));
                    let i = choose|i: int| 0 <= i < ks.len() && ks[i] == k;
                    assert(keys[i] == k);
                    assert(keys.contains(k));
                }
            }
        }
        assert forall|i: int| 0 <= i < keys.len() implies #[trigger] m[keys[i]] == vals[i] by {
            if i < last {
                assert(keys[i] != keys[last]);
                assert(ks[i] == keys[i]);
                assert(fold_inserts(ks, vs)[ks[i]] == vs[i]);
            }
        }
    }
}

/// Changing the value at one position of distinct keys changes the folded map at that key only.
pub proof fn lemma_fold_update<V>(keys: Seq<Seq<char>>, vals: Seq<V>, i: int, x: V)
    requires
        distinct(keys),
        keys.len() == vals.len(),
        0 <= i < keys.len(),
    ensures
        fold_inserts(keys, vals.update(i, x)) == fold_inserts(keys, vals).insert(keys[i], x),
{
    let nv = vals.update(i, x);
    lemma_fold_lookup(keys, vals);
    lemma_fold_lookup(keys, nv);
    let a = fold_inserts(keys, nv);
    let b = fold_inserts(keys, vals).insert(keys[i], x);
    assert forall|k: Seq<char>| #[trigger] a.contains_key(k) <==> b.contains_key(k) by {
        if k == keys[i] {
            assert(keys.contains(k));
        }
    }
    assert forall|k: Seq<char>| #[trigger] a.contains_key(k) implies a[k] == b[k] by {
        let j = choose|j: int| 0 <= j < keys.len() && keys[j] == k;
        assert(a[keys[j]] == nv[j]);
        if j != i {
            assert(keys[j] != keys[i]);
        }
    }
    assert(a =~= b);
}

/// Viewing the values of a folded map is folding the viewed values.
pub proof fn lemma_fold_views(keys: Seq<Seq<char>>, vals: Seq<String>)
    requires
        keys.len() == vals.len(),
    ensures
        fold_inserts(keys, vals).map_values(|v: String| v@) == fold_inserts(
            keys,
            vals.map_values(|v: String| v@),
        ),
    decreases keys.len(),
{
    if keys.len() > 0 {
        lemma_fold_views(keys.drop_last(), vals.drop_last());
        assert(vals.drop_last().map_values(|v: String| v@) =~= vals.map_values(|v: String| v@).drop_last());
        assert(fold_inserts(keys, vals).map_values(|v: String| v@) =~= fold_inserts(
            keys,
            vals.map_values(|v: String| v@),
        ));
    } else {
        assert(fold_inserts(keys, vals).map_values(|v: String| v@) =~= fold_inserts(
            keys,
            vals.map_values(|v: String| v@),
        ));
    }
}

/// Folding distinct keys equals folding a prefix and then inserting the rest one by one.
pub proof fn lemma_fold_push<V>(keys: Seq<Seq<char>>, vals: Seq<V>, k: Seq<char>, v: V)
    requires
        keys.len() == vals.len(),
    ensures
        fold_inserts(keys.push(k), vals.push(v)) == fold_inserts(keys, vals).insert(k, v),
{
    assert(keys.push(k).drop_last() =~= keys);
    assert(vals.push(v).drop_last() =~= vals);
}

/// Which of two keys comes first.
#[derive(Debug)]
pub enum KeyOrder {
    Less,
    Equal,
    Greater,
}

/// Compares two byte strings lexicographically.
pub fn compare_bytes(a: &[u8], b: &[u8]) -> (r: KeyOrder)
    ensures
        (r is Less) == bytes_precede(a@, b@),
        (r is Equal) == (a@ == b@),
        (r is Greater) == bytes_precede(b@, a@),
{
    let n: usize = if a.len() < b.len() {
        a.len()
    } else {
        b.len()
    };
    let mut i: usize = 0;
    while i < n
        invariant
            n <= a@.len(),
            n <= b@.len(),
            n == a@.len() || n == b@.len(),
            0 <= i <= n,
            agree_below(a@, b@, i as int),
        decreases n - i,
    {
        if a[i] != b[i] {
            if a[i] < b[i] {
                proof {
                    assert(first_gap_before(a@, b@, i as int));
                    lemma_precede_asymmetric(a@, b@);
                }
                return KeyOrder::Less;
            } else {
                proof {
                    assert(first_gap_before(b@, a@, i as int));
                    lemma_precede_asymmetric(b@, a@);
                }
                return KeyOrder::Greater;
            }
        }
        i = i + 1;
    }
    if a.len() == b.len() {
        proof {
            assert(a@ =~= b@);
            lemma_precede_irreflexive(a@);
        }
        KeyOrder::Equal
    } else if a.len() < b.len() {
        proof {
            assert(first_gap_before(a@, b@, i as int));
            lemma_precede_asymmetric(a@, b@);
        }
        KeyOrder::Less
    } else {
        proof {
            assert(first_gap_before(b@, a@, i as int));
            lemma_precede_asymmetric(b@, a@);
        }
        KeyOrder::Greater
    }
}

/// Whether two texts are equal.
pub fn same_text(a: &str, b: &str) -> (r: bool)
    ensures
        r == (a@ == b@),
{
    match compare_bytes(a.as_bytes(), b.as_bytes()) {
        KeyOrder::Equal => {
            proof {
                lemma_encoding_injective(a@, b@);
            }
            true
        },
        _ => false,
    }
}

/// A map from strings to values whose entries stay in ascending key order.
#[derive(Debug)]
pub struct SortedMap<V> {
    keys: Vec<String>,
    vals: Vec<V>,
}

impl<V> SortedMap<V> {
    /// The keys, in the order in which the map holds them.
    pub closed spec fn key_views(&self) -> Seq<Seq<char>> {
        self.keys@.map_values(|k: String| k@)
    }

    /// The values, in the order of their keys.
    pub closed spec fn values(&self) -> Seq<V> {
        self.vals@
    }

    #[verifier::type_invariant]
    closed spec fn ordered(&self) -> bool {
        &&& self.keys@.len() == self.vals@.len()
        &&& ascending(self.keys@.map_values(|k: String| k@))
    }

    pub open spec fn map_view(&self) -> Map<Seq<char>, V> {
        fold_inserts(self.key_views(), self.values())
    }

    proof fn lemma_shape(&self)
        requires
            self.ordered(),
        ensures
            self.key_views().len() == self.values().len(),
            ascending(self.key_views()),
            distinct(self.key_views()),
            forall|k: Seq<char>| #[trigger] self@.contains_key(k) <==> self.key_views().contains(k),
            forall|i: int|
                0 <= i < self.key_views().len() ==> #[trigger] self@[self.key_views()[i]]
                    == self.values()[i],
    {
        lemma_ascending_distinct(self.key_views());
        lemma_fold_lookup(self.key_views(), self.values());
    }

    /// An empty map.
    pub fn new() -> (m: Self)
        ensures
            m@ == Map::<Seq<char>, V>::empty(),
            m.key_views() == Seq::<Seq<char>>::empty(),
            m.values() == Seq::<V>::empty(),
    {
        let m = SortedMap { keys: Vec::new(), vals: Vec::new() };
        assert(m.key_views() =~= Seq::<Seq<char>>::empty());
        m
    }

    /// The number of entries.
    pub fn len(&self) -> (n: usize)
        ensures
            n == self.key_views().len(),
            n == self.values().len(),
            ascending(self.key_views()),
            distinct(self.key_views()),
    {
        proof {
            use_type_invariant(self);
            self.lemma_shape();
        }
        self.keys.len()
    }

    /// Whether the map has no entries.
    pub fn is_empty(&self) -> (b: bool)
        ensures
            b == (self.key_views().len() == 0),
            b == (self@.dom() =~= Set::<Seq<char>>::empty()),
    {
        proof {
            use_type_invariant(self);
            self.lemma_shape();
            if self.key_views().len() > 0 {
                assert(self@.contains_key(self.key_views()[0]));
            }
        }
        self.keys.len() == 0
    }

    /// The first position whose key does not come before `key`, and whether the key there is `key`.
    fn locate(&self, key: &str) -> (r: (usize, bool))
        ensures
            r.0 <= self.key_views().len(),
            forall|q: int| 0 <= q < r.0 ==> key_precedes(#[trigger] self.key_views()[q], key@),
            r.1 ==> r.0 < self.key_views().len() && self.key_views()[r.0 as int] == key@,
            !r.1 && r.0 < self.key_views().len() ==> key_precedes(key@, self.key_views()[r.0 as int]),
    {
        proof {
            use_type_invariant(self);
        }
        let n = self.keys.len();
        let target = key.as_bytes();
        let mut i: usize = 0;
        while i < n
            invariant
                n == self.key_views().len(),
                n == self.keys@.len(),
                target@ == encode_utf8(key@),
                0 <= i <= n,
                forall|q: int| 0 <= q < i ==> key_precedes(#[trigger] self.key_views()[q], key@),
            decreases n - i,
        {
            let here = self.keys[i].as_str().as_bytes();
            proof {
                assert(self.key_views()[i as int] == self.keys@[i as int]@);
            }
            match compare_bytes(here, target) {
                KeyOrder::Less => {},
                KeyOrder::Equal => {
                    proof {
                        lemma_encoding_injective(self.keys@[i as int]@, key@);
                    }
                    return (i, true);
                },
                KeyOrder::Greater => {
                    return (i, false);
                },
            }
            i = i + 1;
        }
        (n, false)
    }

    /// Where `key` stands, if the map holds it.
    pub fn position(&self, key: &str) -> (r: Option<usize>)
        ensures
            match r {
                Some(i) => i < self.key_views().len() && self.key_views()[i as int] == key@,
                None => !self.key_views().contains(key@),
            },
            r is Some == self@.contains_key(key@),
    {
        proof {
            use_type_invariant(self);
            self.lemma_shape();
        }
        let (p, found) = self.locate(key);
        if found {
            proof {
                assert(self.key_views().contains(key@));
            }
            Some(p)
        } else {
            proof {
                if self.key_views().contains(key@) {
                    let q = choose|q: int| 0 <= q < self.key_views().len() && self.key_views()[q] == key@;
                    if q < p {
                        assert(key_precedes(self.key_views()[q], key@));
                        lemma_precede_irreflexive(encode_utf8(key@));
                    } else {
                        assert(q != p ==> key_precedes(self.key_views()[p as int], self.key_views()[q]));
                        lemma_precede_asymmetric(encode_utf8(key@), encode_utf8(self.key_views()[p as int]));
                        lemma_precede_irreflexive(encode_utf8(key@));
                    }
                }
            }
            None
        }
    }

    /// Whether the map holds `key`.
    pub fn contains_key(&self, key: &str) -> (b: bool)
        ensures
            b == self@.contains_key(key@),
    {
        self.position(key).is_some()
    }

    /// The value stored under `key`.
    pub fn get(&self, key: &str) -> (r: Option<&V>)
        ensures
            match r {
                Some(v) => self@.contains_key(key@) && *v == self@[key@],
                None => !self@.contains_key(key@),
            },
    {
        proof {
            use_type_invariant(self);
            self.lemma_shape();
        }
        match self.position(key) {
            Some(i) => Some(&self.vals[i]),
            None => None,
        }
    }

    /// The key at position `i`.
    pub fn key_at(&self, i: usize) -> (k: &String)
        requires
            i < self.key_views().len(),
        ensures
            k@ == self.key_views()[i as int],
            self@.contains_key(k@),
            self@[k@] == self.values()[i as int],
    {
        proof {
            use_type_invariant(self);
            self.lemma_shape();
        }
        &self.keys[i]
    }

    /// The value at position `i`.
    pub fn value_at(&self, i: usize) -> (v: &V)
        requires
            i < self.values().len(),
        ensures
            *v == self.values()[i as int],
    {
        &self.vals[i]
    }

    /// The value at position `i`, for changing in place.
    pub fn value_at_mut(&mut self, i: usize) -> (v: &mut V)
        requires
            i < old(self).values().len(),
        ensures
            *v == old(self).values()[i as int],
            final(self).key_views() == old(self).key_views(),
            final(self).values() == old(self).values().update(i as int, *final(v)),
    {
        proof {
            use_type_invariant(&*self);
        }
        &mut self.vals[i]
    }

    /// Stores `value` under `key`, replacing and returning what was stored there before.
    pub fn insert(&mut self, key: String, value: V) -> (previous: Option<V>)
        ensures
            final(self)@ == old(self)@.insert(key@, value),
            match previous {
                Some(p) => old(self)@.contains_key(key@) && p == old(self)@[key@],
                None => !old(self)@.contains_key(key@),
            },
            old(self)@.contains_key(key@) ==> final(self).key_views() == old(self).key_views(),
    {
        proof {
            use_type_invariant(&*self);
            self.lemma_shape();
        }
        let ghost old_keys = self.key_views();
        let ghost old_vals = self.values();
        let (p, found) = self.locate(key.as_str());
        if found {
            let ghost fresh = value;
            let mut slot = value;
            std::mem::swap(&mut self.vals[p], &mut slot);
            proof {
                assert(self.values() == old_vals.update(p as int, fresh));
                assert(self.key_views() == old_keys);
                lemma_fold_lookup(old_keys, self.values());
                lemma_fold_lookup(old_keys, old_vals);
                assert forall|x: Seq<char>| #[trigger] self@.contains_key(x) implies self@[x]
                    == old(self)@.insert(key@, fresh)[x] by {
                    let i = choose|i: int| 0 <= i < old_keys.len() && old_keys[i] == x;
                    assert(self@[old_keys[i]] == self.values()[i]);
                }
                assert(self@ =~= old(self)@.insert(key@, fresh));
            }
            return Some(slot);
        }
        proof {
            assert(!old_keys.contains(key@)) by {
                if old_keys.contains(key@) {
                    let q = choose|q: int| 0 <= q < old_keys.len() && old_keys[q] == key@;
                    if q < p {
                        assert(key_precedes(old_keys[q], key@));
                        lemma_precede_irreflexive(encode_utf8(key@));
                    } else {
                        assert(q != p ==> key_precedes(old_keys[p as int], old_keys[q]));
                        lemma_precede_asymmetric(encode_utf8(key@), encode_utf8(old_keys[p as int]));
                        lemma_precede_irreflexive(encode_utf8(key@));
                    }
                }
            }
        }
        let ghost k = key@;
        let mut taken = SortedMap { keys: Vec::new(), vals: Vec::new() };
        proof {
            assert(taken.key_views() =~= Seq::<Seq<char>>::empty());
        }
        std::mem::swap(self, &mut taken);
        let SortedMap { mut keys, mut vals } = taken;
        keys.insert(p, key);
        vals.insert(p, value);
        proof {
            let nk0 = keys@.map_values(|s: String| s@);
            assert(nk0 =~= old_keys.insert(p as int, k));
            assert(ascending(nk0)) by {
                assert forall|i: int, j: int| 0 <= i < j < nk0.len() implies key_precedes(
                    #[trigger] nk0[i],
                    #[trigger] nk0[j],
                ) by {
                    if j < p {
                        assert(nk0[i] == old_keys[i] && nk0[j] == old_keys[j]);
                    } else if j == p {
                        assert(nk0[i] == old_keys[i]);
                    } else if i > p {
                        assert(nk0[i] == old_keys[i - 1] && nk0[j] == old_keys[j - 1]);
                    } else if i == p {
                        assert(nk0[j] == old_keys[j - 1]);
                        if j - 1 > p {
                            assert(key_precedes(old_keys[p as int], old_keys[j - 1]));
                            lemma_precede_transitive(
                                encode_utf8(k),
                                encode_utf8(old_keys[p as int]),
                                encode_utf8(old_keys[j - 1]),
                            );
                        }
                    } else {
                        assert(nk0[i] == old_keys[i] && nk0[j] == old_keys[j - 1]);
                        assert(key_precedes(old_keys[i], k));
                        if j - 1 > p {
                            assert(key_precedes(old_keys[p as int], old_keys[j - 1]));
                            lemma_precede_transitive(
                                encode_utf8(k),
                                encode_utf8(old_keys[p as int]),
                                encode_utf8(old_keys[j - 1]),
                            );
                        }
                        lemma_precede_transitive(
                            encode_utf8(old_keys[i]),
                            encode_utf8(k),
                            encode_utf8(old_keys[j - 1]),
                        );
                    }
                }
            }
        }
        *self = SortedMap { keys, vals };
        proof {
            let nk = self.key_views();
            assert(nk =~= old_keys.insert(p as int, k));
            lemma_ascending_distinct(nk);
            lemma_fold_lookup(nk, self.values());
            lemma_fold_lookup(old_keys, old_vals);
            assert forall|x: Seq<char>| #[trigger] self@.contains_key(x) <==> old(self)@.insert(
                k,
                value,
            ).contains_key(x) by {
                if nk.contains(x) {
                    let i = choose|i: int| 0 <= i < nk.len() && nk[i] == x;
                    if i < p {
                        assert(old_keys[i] == x);
                    } else if i > p {
                        assert(old_keys[i - 1] == x);
                    }
                }
                if old_keys.contains(x) {
                    let i = choose|i: int| 0 <= i < old_keys.len() && old_keys[i] == x;
                    if i < p {
                        assert(nk[i] == x);
                    } else {
                        assert(nk[i + 1] == x);
                    }
                }
                if x == k {
                    assert(nk[p as int] == x);
                }
            }
            assert forall|x: Seq<char>| #[trigger] self@.contains_key(x) implies self@[x] == old(
                self,
            )@.insert(k, value)[x] by {
                let i = choose|i: int| 0 <= i < nk.len() && nk[i] == x;
                assert(self@[nk[i]] == self.values()[i]);
                if i < p {
                    assert(old_keys[i] == x);
                } else if i > p {
                    assert(old_keys[i - 1] == x);
                }
            }
            assert(self@ =~= old(self)@.insert(k, value));
        }
        None
    }

    /// The keys in ascending order.
    pub fn keys(&self) -> (ks: Vec<String>)
        ensures
            ks@.map_values(|k: String| k@) == self.key_views(),
            ascending(self.key_views()),
    {
        proof {
            use_type_invariant(self);
        }
        let mut out: Vec<String> = Vec::new();
        let n = self.keys.len();
        let mut i: usize = 0;
        while i < n
            invariant
                n == self.keys@.len(),
                0 <= i <= n,
                out@.len() == i,
                forall|j: int| 0 <= j < i ==> #[trigger] out@[j]@ == self.keys@[j]@,
            decreases n - i,
        {
            out.push(self.keys[i].clone());
            i = i + 1;
        }
        assert(out@.map_values(|k: String| k@) =~= self.key_views());
        out
    }
}

impl<V> SortedMap<V> {
    /// A map holding the given pairs, inserted in order (a later pair overrides an
    /// earlier one with the same key).
    pub fn from_pairs(pairs: Vec<(String, V)>) -> (m: Self)
        ensures
            m@ == fold_inserts(
                pairs@.map_values(|p: (String, V)| p.0@),
                pairs@.map_values(|p: (String, V)| p.1),
            ),
    {
        let ghost all = pairs@;
        let mut rest = pairs;
        let mut m = SortedMap::new();
        let ghost mut done: int = 0;
        while rest.len() > 0
            invariant
                0 <= done <= all.len(),
                rest@ == all.skip(done),
                m@ == fold_inserts(
                    all.take(done).map_values(|p: (String, V)| p.0@),
                    all.take(done).map_values(|p: (String, V)| p.1),
                ),
            decreases rest@.len(),
        {
            let (k, v) = rest.remove(0);
            proof {
                assert(all[done] == (k, v));
                let ks = all.take(done).map_values(|p: (String, V)| p.0@);
                let vs = all.take(done).map_values(|p: (String, V)| p.1);
                lemma_fold_push(ks, vs, k@, v);
                assert(all.take(done + 1).map_values(|p: (String, V)| p.0@) =~= ks.push(k@));
                assert(all.take(done + 1).map_values(|p: (String, V)| p.1) =~= vs.push(v));
            }
            m.insert(k, v);
            proof {
                done = done + 1;
                assert(rest@ =~= all.skip(done));
            }
        }
        proof {
            assert(all.take(done) =~= all);
        }
        m
    }
}

/// The pairs of keys and the texts stored under them.
pub open spec fn text_pairs(keys: Seq<Seq<char>>, vals: Seq<String>) -> Seq<(Seq<char>, Seq<char>)> {
    Seq::new(keys.len(), |i: int| (keys[i], vals[i]@))
}

impl SortedMap<String> {
    /// Overwrites every value with zeros and leaves it empty, keeping the keys.
    pub fn wipe_values(&mut self)
        ensures
            final(self).key_views() == old(self).key_views(),
            final(self).values().len() == old(self).values().len(),
            forall|i: int| 0 <= i < final(self).values().len() ==> (#[trigger] final(self).values()[i])@ == Seq::<char>::empty(),
        opens_invariants none
        no_unwind
    {
        proof {
            use_type_invariant(&*self);
        }
        crate::codec::wipe_texts(&mut self.vals);
    }

    /// The entries as pairs of keys and values, in ascending key order.
    pub fn to_pairs(&self) -> (pairs: Vec<(String, String)>)
        ensures
            pairs@.map_values(|p: (String, String)| (p.0@, p.1@)) == text_pairs(self.key_views(), self.values()),
            ascending(self.key_views()),
            self.key_views().len() == self.values().len(),
    {
        proof {
            use_type_invariant(self);
        }
        let mut out: Vec<(String, String)> = Vec::new();
        let n = self.keys.len();
        let mut i: usize = 0;
        while i < n
            invariant
                n == self.keys@.len(),
                n == self.vals@.len(),
                0 <= i <= n,
                out@.len() == i,
                forall|j: int| 0 <= j < i ==> (#[trigger] out@[j]).0@ == self.keys@[j]@ && out@[j].1@ == self.vals@[j]@,
            decreases n - i,
        {
            out.push((self.keys[i].clone(), self.vals[i].clone()));
            i = i + 1;
        }
        assert(out@.map_values(|p: (String, String)| (p.0@, p.1@)) =~= text_pairs(self.key_views(), self.values()));
        out
    }
}

impl<V: Clone> Clone for SortedMap<V> {
    /// A copy with the same keys, each value cloned.
    fn clone(&self) -> (c: Self)
        ensures
            c.key_views() == self.key_views(),
            c.values().len() == self.values().len(),
            forall|i: int| 0 <= i < c.values().len() ==> cloned(self.values()[i], #[trigger] c.values()[i]),
    {
        proof {
            use_type_invariant(self);
        }
        let keys = self.keys.clone();
        let vals = self.vals.clone();
        proof {
            assert(keys@.map_values(|k: String| k@) =~= self.keys@.map_values(|k: String| k@));
        }
        SortedMap { keys, vals }
    }
}

impl<V> View for SortedMap<V> {
    type V = Map<Seq<char>, V>;

    open spec fn view(&self) -> Map<Seq<char>, V> {
        self.map_view()
    }
}

} // verus!
