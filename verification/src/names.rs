//! A map from names to values, kept as a list of pairs in which no name
//! occurs twice. Its model is a `Map` from the names' text to the values'
//! deep views.

use vstd::prelude::*;

verus! {

/// Whether no name occurs twice in `s`.
pub open spec fn distinct_names<V>(s: Seq<(String, V)>) -> bool {
    forall|i: int, j: int| 0 <= i < j < s.len() ==> #[trigger] s[i].0@ != #[trigger] s[j].0@
}

/// Whether some pair of `s` has the name `k`.
pub open spec fn has_name<V>(s: Seq<(String, V)>, k: Seq<char>) -> bool {
    exists|i: int| 0 <= i < s.len() && #[trigger] s[i].0@ == k
}

/// The position of a pair of `s` named `k`.
pub open spec fn name_index<V>(s: Seq<(String, V)>, k: Seq<char>) -> int {
    choose|i: int| 0 <= i < s.len() && #[trigger] s[i].0@ == k
}

/// The map that the pairs `s` describe.
pub open spec fn pairs_map<V: DeepView>(s: Seq<(String, V)>) -> Map<Seq<char>, V::V> {
    Map::new(|k: Seq<char>| has_name(s, k), |k: Seq<char>| s[name_index(s, k)].1.deep_view())
}

proof fn lemma_name_index<V>(s: Seq<(String, V)>, i: int)
    requires
        distinct_names(s),
        0 <= i < s.len(),
    ensures
        has_name(s, s[i].0@),
        name_index(s, s[i].0@) == i,
{
    let k = s[i].0@;
    assert(has_name(s, k));
    let j = name_index(s, k);
    if j < i {
        assert(s[j].0@ != s[i].0@);
    } else if i < j {
        assert(s[i].0@ != s[j].0@);
    }
}

proof fn lemma_lookup<V: DeepView>(s: Seq<(String, V)>, i: int)
    requires
        distinct_names(s),
        0 <= i < s.len(),
    ensures
        pairs_map(s).contains_key(s[i].0@),
        pairs_map(s)[s[i].0@] == s[i].1.deep_view(),
{
    lemma_name_index(s, i);
}

proof fn lemma_push<V: DeepView>(s: Seq<(String, V)>, k: String, v: V)
    requires
        distinct_names(s),
        !has_name(s, k@),
    ensures
        distinct_names(s.push((k, v))),
        pairs_map(s.push((k, v))) == pairs_map(s).insert(k@, v.deep_view()),
{
    let t = s.push((k, v));
    assert forall|i: int, j: int| 0 <= i < j < t.len() implies #[trigger] t[i].0@ != #[trigger] t[j].0@ by {
        if j == s.len() {
            assert(s[i].0@ != k@);
        } else {
            assert(s[i].0@ != s[j].0@);
        }
    }
    let m = pairs_map(s).insert(k@, v.deep_view());
    assert forall|key: Seq<char>| #[trigger] pairs_map(t).contains_key(key) <==> m.contains_key(key) by {
        if has_name(t, key) {
            let i = name_index(t, key);
            if i < s.len() {
                assert(s[i] == t[i]);
                assert(has_name(s, key));
            }
        }
        if has_name(s, key) {
            let i = name_index(s, key);
            assert(t[i] == s[i]);
        }
        if key == k@ {
            assert(t[s.len() as int].0@ == key);
        }
    }
    assert forall|key: Seq<char>| #[trigger] pairs_map(t).contains_key(key) implies pairs_map(t)[key]
        == m[key] by {
        let i = name_index(t, key);
        lemma_name_index(t, i);
        if i < s.len() {
            assert(t[i] == s[i]);
            lemma_name_index(s, i);
        }
    }
    assert(pairs_map(t) =~= m);
}

proof fn lemma_update<V: DeepView>(s: Seq<(String, V)>, i: int, k: String, v: V)
    requires
        distinct_names(s),
        0 <= i < s.len(),
        s[i].0@ == k@,
    ensures
        distinct_names(s.update(i, (k, v))),
        pairs_map(s.update(i, (k, v))) == pairs_map(s).insert(k@, v.deep_view()),
{
    let t = s.update(i, (k, v));
    assert forall|a: int, b: int| 0 <= a < b < t.len() implies #[trigger] t[a].0@ != #[trigger] t[b].0@ by {
        assert(s[a].0@ != s[b].0@);
    }
    let m = pairs_map(s).insert(k@, v.deep_view());
    assert forall|key: Seq<char>| #[trigger] pairs_map(t).contains_key(key) <==> m.contains_key(key) by {
        if has_name(t, key) {
            let j = name_index(t, key);
            assert(t[j].0@ == s[j].0@);
        }
        if has_name(s, key) {
            let j = name_index(s, key);
            assert(t[j].0@ == s[j].0@);
        }
        if key == k@ {
            assert(t[i].0@ == key);
        }
    }
    assert forall|key: Seq<char>| #[trigger] pairs_map(t).contains_key(key) implies pairs_map(t)[key]
        == m[key] by {
        let j = name_index(t, key);
        lemma_name_index(t, j);
        if j != i {
            assert(t[j] == s[j]);
            lemma_name_index(s, j);
        }
    }
    assert(pairs_map(t) =~= m);
}

proof fn lemma_remove<V: DeepView>(s: Seq<(String, V)>, i: int)
    requires
        distinct_names(s),
        0 <= i < s.len(),
    ensures
        distinct_names(s.remove(i)),
        pairs_map(s.remove(i)) == pairs_map(s).remove(s[i].0@),
{
    let t = s.remove(i);
    let k = s[i].0@;
    assert forall|a: int, b: int| 0 <= a < b < t.len() implies #[trigger] t[a].0@ != #[trigger] t[b].0@ by {
        let a2 = if a < i { a } else { a + 1 };
        let b2 = if b < i { b } else { b + 1 };
        assert(t[a] == s[a2]);
        assert(t[b] == s[b2]);
        assert(s[a2].0@ != s[b2].0@);
    }
    let m = pairs_map(s).remove(k);
    assert forall|key: Seq<char>| #[trigger] pairs_map(t).contains_key(key) <==> m.contains_key(key) by {
        if has_name(t, key) {
            let j = name_index(t, key);
            let j2 = if j < i { j } else { j + 1 };
            assert(t[j] == s[j2]);
            assert(s[j2].0@ != s[i].0@);
            assert(has_name(s, key));
        }
        if has_name(s, key) && key != k {
            let j = name_index(s, key);
            assert(j != i);
            let j1 = if j < i { j } else { j - 1 };
            assert(t[j1] == s[j]);
            assert(has_name(t, key));
        }
    }
    assert forall|key: Seq<char>| #[trigger] pairs_map(t).contains_key(key) implies pairs_map(t)[key]
        == m[key] by {
        let j = name_index(t, key);
        lemma_name_index(t, j);
        let j2 = if j < i { j } else { j + 1 };
        assert(t[j] == s[j2]);
        lemma_name_index(s, j2);
    }
    assert(pairs_map(t) =~= m);
}

/// The position of the pair named `k` in `items`, if there is one.
fn find_name<V>(items: &Vec<(String, V)>, k: &String) -> (r: Option<usize>)
    ensures
        match r {
            Some(i) => i < items@.len() && items@[i as int].0@ == k@,
            None => !has_name(items@, k@),
        },
{
    let n = items.len();
    let mut i: usize = 0;
    while i < n
        invariant
            i <= n,
            n == items@.len(),
            forall|j: int| 0 <= j < i ==> #[trigger] items@[j].0@ != k@,
        decreases n - i,
    {
        if items[i].0 == *k {
            return Some(i);
        }
        i = i + 1;
    }
    None
}

/// Values of type `V` under distinct names.
pub struct NameMap<V> {
    items: Vec<(String, V)>,
}

impl<V> NameMap<V> {
    #[verifier::type_invariant]
    spec fn names_are_distinct(self) -> bool {
        distinct_names(self.items@)
    }
}

impl<V: DeepView> View for NameMap<V> {
    type V = Map<Seq<char>, V::V>;

    closed spec fn view(&self) -> Map<Seq<char>, V::V> {
        pairs_map(self.items@)
    }
}

impl<V: DeepView> NameMap<V> {
    /// A map with no names.
    pub fn new() -> (r: Self)
        ensures
            r@ == Map::<Seq<char>, V::V>::empty(),
    {
        let r = NameMap { items: Vec::new() };
        assert(pairs_map(r.items@) =~= Map::<Seq<char>, V::V>::empty());
        r
    }

    /// Whether some value has the name `k`.
    pub fn contains_key(&self, k: &str) -> (r: bool)
        ensures
            r == self@.contains_key(k@),
    {
        let key = k.to_owned();
        match find_name(&self.items, &key) {
            Some(_) => true,
            None => false,
        }
    }

    /// The value named `k`, if there is one.
    pub fn get(&self, k: &str) -> (r: Option<&V>)
        ensures
            match r {
                Some(v) => self@.contains_key(k@) && v.deep_view() == self@[k@],
                None => !self@.contains_key(k@),
            },
    {
        proof {
            use_type_invariant(self);
        }
        let key = k.to_owned();
        match find_name(&self.items, &key) {
            Some(i) => {
                proof {
                    lemma_lookup(self.items@, i as int);
                }
                Some(&self.items[i].1)
            },
            None => None,
        }
    }

    /// Puts `v` under the name `k`, in place of any value that had that name.
    pub fn insert(&mut self, k: String, v: V)
        ensures
            final(self)@ == old(self)@.insert(k@, v.deep_view()),
    {
        proof {
            use_type_invariant(&*self);
        }
        let mut items: Vec<(String, V)> = Vec::new();
        std::mem::swap(&mut items, &mut self.items);
        match find_name(&items, &k) {
            Some(i) => {
                proof {
                    lemma_update(items@, i as int, k, v);
                }
                items.set(i, (k, v));
            },
            None => {
                proof {
                    lemma_push(items@, k, v);
                }
                items.push((k, v));
            },
        }
        self.items = items;
    }
    /// Takes out the value named `k`, if there is one.
    pub fn remove(&mut self, k: &str) -> (r: Option<V>)
        ensures
            final(self)@ == old(self)@.remove(k@),
            match r {
                Some(v) => old(self)@.contains_key(k@) && v.deep_view() == old(self)@[k@],
                None => !old(self)@.contains_key(k@),
            },
    {
        proof {
            use_type_invariant(&*self);
        }
        let key = k.to_owned();
        let mut items: Vec<(String, V)> = Vec::new();
        std::mem::swap(&mut items, &mut self.items);
        match find_name(&items, &key) {
            Some(i) => {
                proof {
                    lemma_lookup(items@, i as int);
                    lemma_remove(items@, i as int);
                }
                let (_, v) = items.remove(i);
                self.items = items;
                Some(v)
            },
            None => {
                assert(pairs_map(items@).remove(k@) =~= pairs_map(items@));
                self.items = items;
                None
            },
        }
    }

    /// Whether no value has a name.
    pub fn is_empty(&self) -> (r: bool)
        ensures
            r == (self@ == Map::<Seq<char>, V::V>::empty()),
    {
        proof {
            use_type_invariant(self);
        }
        if self.items.len() == 0 {
            assert(pairs_map(self.items@) =~= Map::<Seq<char>, V::V>::empty());
            true
        } else {
            proof {
                lemma_lookup(self.items@, 0);
                assert(!Map::<Seq<char>, V::V>::empty().contains_key(self.items@[0].0@));
            }
            false
        }
    }

    /// The names, each once.
    pub fn keys(&self) -> (r: Vec<String>)
        ensures
            forall|i: int| 0 <= i < r.len() ==> self@.contains_key(#[trigger] r@[i]@),
            forall|i: int, j: int| 0 <= i < j < r.len() ==> #[trigger] r@[i]@ != #[trigger] r@[j]@,
            forall|k: Seq<char>| #[trigger] self@.contains_key(k) ==> exists|i: int|
                0 <= i < r.len() && #[trigger] r@[i]@ == k,
    {
        proof {
            use_type_invariant(self);
        }
        let n = self.items.len();
        let mut r: Vec<String> = Vec::new();
        let mut i: usize = 0;
        while i < n
            invariant
                i <= n,
                n == self.items@.len(),
                distinct_names(self.items@),
                r.len() == i,
                forall|j: int| 0 <= j < i ==> #[trigger] r@[j]@ == self.items@[j].0@,
            decreases n - i,
        {
            r.push(self.items[i].0.clone());
            i = i + 1;
        }
        assert forall|a: int| 0 <= a < r.len() implies self@.contains_key(#[trigger] r@[a]@) by {
            lemma_lookup(self.items@, a);
        }
        assert forall|a: int, b: int| 0 <= a < b < r.len() implies #[trigger] r@[a]@
            != #[trigger] r@[b]@ by {
            assert(self.items@[a].0@ != self.items@[b].0@);
        }
        assert forall|k: Seq<char>| #[trigger] self@.contains_key(k) implies exists|a: int|
            0 <= a < r.len() && #[trigger] r@[a]@ == k by {
            let a = name_index(self.items@, k);
            assert(r@[a]@ == k);
        }
        r
    }
}

} // verus!
