//! Finite maps from strings to strings, held as vectors of pairs whose keys
//! are distinct, a property that the map type keeps as its invariant.
//! Inserting a key that is present replaces its value, as collecting pairs
//! into a map does.
use vstd::prelude::*;

verus! {

/// The map that a sequence of pairs describes: later pairs override earlier
/// ones with the same key.
pub open spec fn assoc_view(v: Seq<(String, String)>) -> Map<Seq<char>, Seq<char>>
    decreases v.len(),
{
    if v.len() == 0 {
        Map::empty()
    } else {
        assoc_view(v.drop_last()).insert(v.last().0@, v.last().1@)
    }
}

/// No key occurs twice.
pub open spec fn distinct_keys(v: Seq<(String, String)>) -> bool {
    forall|i: int, j: int|
        0 <= i < v.len() && 0 <= j < v.len() && i != j ==> (#[trigger] v[i]).0@ != (
        #[trigger] v[j]).0@
}

/// The map obtained by pairing the first `n` keys with the first `n` values,
/// in order, later pairs overriding earlier ones.
pub open spec fn zip_prefix(keys: Seq<String>, vals: Seq<String>, n: nat) -> Map<
    Seq<char>,
    Seq<char>,
>
    decreases n,
{
    if n == 0 {
        Map::empty()
    } else {
        zip_prefix(keys, vals, (n - 1) as nat).insert(keys[n - 1]@, vals[n - 1]@)
    }
}

/// Shorter of two lengths: the number of pairs that zipping yields.
pub open spec fn min_len(a: nat, b: nat) -> nat {
    if a <= b {
        a
    } else {
        b
    }
}

/// The map obtained by zipping `keys` with `vals` and collecting the pairs.
pub open spec fn zip_view(keys: Seq<String>, vals: Seq<String>) -> Map<Seq<char>, Seq<char>> {
    zip_prefix(keys, vals, min_len(keys.len(), vals.len()))
}

/// The keys of a sequence of pairs are the domain of the map it describes.
pub proof fn lemma_assoc_dom(v: Seq<(String, String)>)
    ensures
        forall|i: int| 0 <= i < v.len() ==> assoc_view(v).contains_key((#[trigger] v[i]).0@),
        forall|k: Seq<char>|
            assoc_view(v).contains_key(k) ==> exists|i: int|
                0 <= i < v.len() && (#[trigger] v[i]).0@ == k,
    decreases v.len(),
{
    if v.len() > 0 {
        lemma_assoc_dom(v.drop_last());
        assert forall|k: Seq<char>| assoc_view(v).contains_key(k) implies exists|i: int|
            0 <= i < v.len() && (#[trigger] v[i]).0@ == k by {
            if k != v.last().0@ {
                assert(assoc_view(v.drop_last()).contains_key(k));
                let i = choose|i: int|
                    0 <= i < v.drop_last().len() && (#[trigger] v.drop_last()[i]).0@ == k;
                assert(v[i] == v.drop_last()[i]);
            } else {
                assert(v[v.len() - 1].0@ == k);
            }
        }
        assert forall|i: int| 0 <= i < v.len() implies assoc_view(v).contains_key(
            (#[trigger] v[i]).0@,
        ) by {
            if i < v.len() - 1 {
                assert(v.drop_last()[i] == v[i]);
            }
        }
    }
}

/// With distinct keys, the value of the pair at `j` is what the map gives its key.
pub proof fn lemma_assoc_lookup(v: Seq<(String, String)>, j: int)
    requires
        distinct_keys(v),
        0 <= j < v.len(),
    ensures
        assoc_view(v).contains_key(v[j].0@),
        assoc_view(v)[v[j].0@] == v[j].1@,
    decreases v.len(),
{
    lemma_assoc_dom(v);
    if j < v.len() - 1 {
        let d = v.drop_last();
        assert(d[j] == v[j]);
        assert(distinct_keys(d)) by {
            assert forall|a: int, b: int|
                0 <= a < d.len() && 0 <= b < d.len() && a != b implies (#[trigger] d[a]).0@ != (
            #[trigger] d[b]).0@ by {
                assert(d[a] == v[a] && d[b] == v[b]);
            }
        }
        lemma_assoc_lookup(d, j);
        assert(v[v.len() - 1].0@ != v[j].0@);
    }
}

/// Replacing the value of the pair at `j`, when keys are distinct, updates the
/// map at that key.
pub proof fn lemma_assoc_update(v: Seq<(String, String)>, j: int, p: (String, String))
    requires
        distinct_keys(v),
        0 <= j < v.len(),
        v[j].0@ == p.0@,
    ensures
        assoc_view(v.update(j, p)) == assoc_view(v).insert(p.0@, p.1@),
        distinct_keys(v.update(j, p)),
    decreases v.len(),
{
    let w = v.update(j, p);
    assert(distinct_keys(w)) by {
        assert forall|a: int, b: int|
            0 <= a < w.len() && 0 <= b < w.len() && a != b implies (#[trigger] w[a]).0@ != (
        #[trigger] w[b]).0@ by {
            assert(w[a].0@ == v[a].0@);
            assert(w[b].0@ == v[b].0@);
        }
    }
    if j == v.len() - 1 {
        assert(w.drop_last() == v.drop_last());
        assert(assoc_view(w) =~= assoc_view(v).insert(p.0@, p.1@));
    } else {
        let d = v.drop_last();
        assert(distinct_keys(d)) by {
            assert forall|a: int, b: int|
                0 <= a < d.len() && 0 <= b < d.len() && a != b implies (#[trigger] d[a]).0@ != (
            #[trigger] d[b]).0@ by {
                assert(d[a] == v[a] && d[b] == v[b]);
            }
        }
        assert(d[j] == v[j]);
        lemma_assoc_update(d, j, p);
        assert(w.drop_last() == d.update(j, p));
        assert(w.last() == v.last());
        assert(v[v.len() - 1].0@ != v[j].0@);
        assert(assoc_view(w) =~= assoc_view(v).insert(p.0@, p.1@));
    }
}

/// With distinct keys, the map has one key per pair.
pub proof fn lemma_assoc_len(v: Seq<(String, String)>)
    requires
        distinct_keys(v),
    ensures
        assoc_view(v).dom().finite(),
        assoc_view(v).dom().len() == v.len(),
    decreases v.len(),
{
    if v.len() > 0 {
        let d = v.drop_last();
        let k = v.last().0@;
        assert(distinct_keys(d)) by {
            assert forall|a: int, b: int|
                0 <= a < d.len() && 0 <= b < d.len() && a != b implies (#[trigger] d[a]).0@ != (
            #[trigger] d[b]).0@ by {
                assert(d[a] == v[a] && d[b] == v[b]);
            }
        }
        lemma_assoc_len(d);
        lemma_assoc_dom(d);
        if assoc_view(d).contains_key(k) {
            let i = choose|i: int| 0 <= i < d.len() && (#[trigger] d[i]).0@ == k;
            assert(d[i] == v[i]);
            assert(v[v.len() - 1].0@ == k);
        }
        assert(assoc_view(v).dom() =~= assoc_view(d).dom().insert(k));
    }
}

/// Position of `key` among the keys of `v`, if it is there.
fn find_key(v: &Vec<(String, String)>, key: &String) -> (r: Option<usize>)
    ensures
        r matches Some(j) ==> j < v@.len() && v@[j as int].0@ == key@,
        r is None ==> forall|i: int| 0 <= i < v@.len() ==> (#[trigger] v@[i]).0@ != key@,
{
    let mut i: usize = 0;
    while i < v.len()
        invariant
            i <= v@.len(),
            forall|k: int| 0 <= k < i ==> (#[trigger] v@[k]).0@ != key@,
        decreases v@.len() - i,
    {
        if v[i].0 == *key {
            return Some(i);
        }
        i = i + 1;
    }
    None
}

/// Sets `key` to `value` in a vector of pairs with distinct keys: the pair
/// with that key gets the new value, or a new pair is added at the end.
fn pairs_insert(v: &mut Vec<(String, String)>, key: String, value: String)
    requires
        distinct_keys(old(v)@),
    ensures
        distinct_keys(final(v)@),
        assoc_view(final(v)@) == assoc_view(old(v)@).insert(key@, value@),
{
    match find_key(v, &key) {
        Some(j) => {
            proof {
                lemma_assoc_update(v@, j as int, (key, value));
            }
            v.set(j, (key, value));
        },
        None => {
            let ghost before = v@;
            let ghost p = (key, value);
            v.push((key, value));
            assert(v@.drop_last() == before);
            assert(v@.last() == p);
            assert(distinct_keys(v@)) by {
                assert forall|a: int, b: int|
                    0 <= a < v@.len() && 0 <= b < v@.len() && a != b implies (
                #[trigger] v@[a]).0@ != (#[trigger] v@[b]).0@ by {
                    if a < before.len() {
                        assert(v@[a] == before[a]);
                    }
                    if b < before.len() {
                        assert(v@[b] == before[b]);
                    }
                }
            }
        },
    }
}

/// A finite map from strings to strings, kept as pairs in the order their
/// keys were first inserted. No key occurs twice.
pub struct StringMap {
    pairs: Vec<(String, String)>,
}

impl View for StringMap {
    type V = Map<Seq<char>, Seq<char>>;

    closed spec fn view(&self) -> Map<Seq<char>, Seq<char>> {
        assoc_view(self.pairs@)
    }
}

impl StringMap {
    #[verifier::type_invariant]
    spec fn keys_distinct(self) -> bool {
        distinct_keys(self.pairs@)
    }

    /// The pairs of the map, in the order their keys were first inserted.
    pub closed spec fn entries(self) -> Seq<(String, String)> {
        self.pairs@
    }

    /// The map is the one its pairs describe.
    pub proof fn lemma_view_is_entries(self)
        ensures
            self@ == assoc_view(self.entries()),
    {
    }

    /// The empty map.
    pub fn new() -> (r: Self)
        ensures
            r@ == Map::<Seq<char>, Seq<char>>::empty(),
            r.entries().len() == 0,
    {
        StringMap { pairs: Vec::new() }
    }

    /// Sets `key` to `value`, replacing the value of a key that is present.
    pub fn insert(&mut self, key: String, value: String)
        ensures
            final(self)@ == old(self)@.insert(key@, value@),
    {
        proof {
            use_type_invariant(&*self);
        }
        let mut pairs: Vec<(String, String)> = Vec::new();
        std::mem::swap(&mut pairs, &mut self.pairs);
        pairs_insert(&mut pairs, key, value);
        self.pairs = pairs;
    }

    /// The value of `key`, if it is present.
    pub fn get(&self, key: &String) -> (r: Option<&String>)
        ensures
            r is Some <==> self@.contains_key(key@),
            r matches Some(v) ==> v@ == self@[key@],
    {
        proof {
            use_type_invariant(self);
            lemma_assoc_dom(self.pairs@);
        }
        match find_key(&self.pairs, key) {
            Some(j) => {
                proof {
                    lemma_assoc_lookup(self.pairs@, j as int);
                }
                Some(&self.pairs[j].1)
            },
            None => None,
        }
    }

    /// Number of keys.
    pub fn len(&self) -> (r: usize)
        ensures
            r == self@.dom().len(),
            r == self.entries().len(),
    {
        proof {
            use_type_invariant(self);
            lemma_assoc_len(self.pairs@);
        }
        self.pairs.len()
    }

    /// The pairs of the map, in the order their keys were first inserted.
    pub fn pairs(&self) -> (r: &Vec<(String, String)>)
        ensures
            r@ == self.entries(),
    {
        &self.pairs
    }
}

/// Zips `keys` with `vals` and collects the pairs into a map: pairs beyond the
/// shorter input are dropped, and a later pair overrides an earlier one with
/// the same key.
pub fn zip_collect(keys: &Vec<String>, vals: &Vec<String>) -> (r: StringMap)
    ensures
        r@ == zip_view(keys@, vals@),
{
    let n: usize = if keys.len() <= vals.len() {
        keys.len()
    } else {
        vals.len()
    };
    let mut out = StringMap::new();
    let mut i: usize = 0;
    while i < n
        invariant
            n == min_len(keys@.len(), vals@.len()),
            i <= n,
            out@ == zip_prefix(keys@, vals@, i as nat),
        decreases n - i,
    {
        out.insert(keys[i].clone(), vals[i].clone());
        i = i + 1;
    }
    out
}

} // verus!
