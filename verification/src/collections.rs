//! Small collections keyed by strings, with mathematical views.

use vstd::prelude::*;

verus! {

/// The character sequences of a sequence of strings.
pub open spec fn strings_view(v: Seq<String>) -> Seq<Seq<char>> {
    v.map_values(|s: String| s@)
}

/// A sequence without repetitions has as many elements as its set.
pub proof fn lemma_unique_strings(s: Seq<Seq<char>>)
    requires
        s.no_duplicates(),
    ensures
        s.to_set().finite(),
        s.to_set().len() == s.len(),
{
    s.unique_seq_to_set();
}

/// A set of strings that holds each string once, in insertion order.
pub struct StringSet {
    items: Vec<String>,
}

impl View for StringSet {
    type V = Set<Seq<char>>;

    closed spec fn view(&self) -> Set<Seq<char>> {
        strings_view(self.items@).to_set()
    }
}

impl StringSet {
    #[verifier::type_invariant]
    closed spec fn inv(self) -> bool {
        strings_view(self.items@).no_duplicates()
    }

    /// The stored strings, in insertion order.
    pub closed spec fn elements(&self) -> Seq<Seq<char>> {
        strings_view(self.items@)
    }


    pub fn new() -> (res: Self)
        ensures
            res@ == Set::<Seq<char>>::empty(),
            res.elements() == Seq::<Seq<char>>::empty(),
    {
        let res = StringSet { items: Vec::new() };
        assert(strings_view(res.items@) =~= Seq::<Seq<char>>::empty());
        res
    }

    fn find(&self, s: &String) -> (res: Option<usize>)
        ensures
            match res {
                Some(i) => i < self.items@.len() && self.items@[i as int]@ == s@,
                None => !self.elements().contains(s@),
            },
    {
        let mut i: usize = 0;
        while i < self.items.len()
            invariant
                i <= self.items@.len(),
                forall|j: int| 0 <= j < i ==> self.items@[j]@ != s@,
            decreases self.items@.len() - i,
        {
            if self.items[i] == *s {
                return Some(i);
            }
            i = i + 1;
        }
        None
    }

    pub fn contains(&self, s: &String) -> (res: bool)
        ensures
            res == self@.contains(s@),
    {
        proof { use_type_invariant(&*self); lemma_unique_strings(self.elements()); }
        match self.find(s) {
            Some(i) => {
                assert(self.elements()[i as int] == s@);
                true
            },
            None => false,
        }
    }

    /// Adds `s`; returns whether it was new.
    pub fn insert(&mut self, s: String) -> (res: bool)
        ensures
            final(self)@ == old(self)@.insert(s@),
            res == !old(self)@.contains(s@),
    {
        proof { use_type_invariant(&*self); lemma_unique_strings(self.elements()); }
        match self.find(&s) {
            Some(i) => {
                assert(self.elements()[i as int] == s@);
                assert(self@.insert(s@) =~= self@);
                false
            },
            None => {
                let ghost old_elems = self.elements();
                let mut items = Vec::new();
                std::mem::swap(&mut items, &mut self.items);
                items.push(s);
                proof {
                    assert(strings_view(items@) =~= old_elems.push(s@));
                    assert(strings_view(items@).no_duplicates());
                    old_elems.lemma_push_to_set_commute(s@);
                }
                self.items = items;
                true
            },
        }
    }

    /// Removes `s`; returns whether it was present.
    pub fn remove(&mut self, s: &String) -> (res: bool)
        ensures
            final(self)@ == old(self)@.remove(s@),
            res == old(self)@.contains(s@),
    {
        proof { use_type_invariant(&*self); lemma_unique_strings(self.elements()); }
        match self.find(s) {
            Some(i) => {
                let ghost old_elems = self.elements();
                assert(old_elems[i as int] == s@);
                let mut items = Vec::new();
                std::mem::swap(&mut items, &mut self.items);
                items.remove(i);
                proof {
                    let new_elems = old_elems.remove(i as int);
                    assert(strings_view(items@) =~= new_elems);
                    assert(new_elems.no_duplicates()) by {
                        assert forall|a: int, b: int| 0 <= a < b < new_elems.len() implies new_elems[a] != new_elems[b] by {
                            let oa = if a < i { a } else { a + 1 };
                            let ob = if b < i { b } else { b + 1 };
                            assert(new_elems[a] == old_elems[oa]);
                            assert(new_elems[b] == old_elems[ob]);
                        }
                    }
                    assert forall|x| #[trigger] new_elems.to_set().contains(x) <==> old_elems.to_set().remove(s@).contains(x) by {
                        if new_elems.to_set().contains(x) {
                            let k = choose|k: int| 0 <= k < new_elems.len() && new_elems[k] == x;
                            if k < i { assert(old_elems[k] == x); } else { assert(old_elems[k + 1] == x); }
                        }
                        if old_elems.to_set().remove(s@).contains(x) {
                            let k = choose|k: int| 0 <= k < old_elems.len() && old_elems[k] == x;
                            if k < i { assert(new_elems[k] == x); } else { assert(new_elems[k - 1] == x); }
                        }
                    }
                    assert(new_elems.to_set() =~= old_elems.to_set().remove(s@));
                }
                self.items = items;
                true
            },
            None => {
                assert(self@.remove(s@) =~= self@);
                false
            },
        }
    }

    /// Builds the set of the strings in `v`.
    pub fn from_vec(v: Vec<String>) -> (res: Self)
        ensures
            res@ == strings_view(v@).to_set(),
    {
        let mut set = StringSet::new();
        let mut i: usize = 0;
        while i < v.len()
            invariant
                i <= v@.len(),
                set@ == strings_view(v@.subrange(0, i as int)).to_set(),
            decreases v@.len() - i,
        {
            let ghost before = strings_view(v@.subrange(0, i as int));
            set.insert(v[i].clone());
            proof {
                assert(strings_view(v@.subrange(0, i + 1)) =~= before.push(v@[i as int]@));
                before.lemma_push_to_set_commute(v@[i as int]@);
            }
            i = i + 1;
        }
        assert(v@.subrange(0, v@.len() as int) =~= v@);
        set
    }

    /// Copies of the stored strings, in insertion order.
    pub fn to_vec(&self) -> (res: Vec<String>)
        ensures
            strings_view(res@) == self.elements(),
            self.elements().no_duplicates(),
            self.elements().to_set() == self@,
    {
        proof { use_type_invariant(&*self); }
        let mut out: Vec<String> = Vec::new();
        let mut i: usize = 0;
        while i < self.items.len()
            invariant
                i <= self.items@.len(),
                strings_view(out@) == strings_view(self.items@.subrange(0, i as int)),
            decreases self.items@.len() - i,
        {
            out.push(self.items[i].clone());
            assert(strings_view(self.items@.subrange(0, i + 1)) =~= strings_view(self.items@.subrange(0, i as int)).push(self.items@[i as int]@));
            assert(strings_view(out@) =~= strings_view(self.items@.subrange(0, i as int)).push(self.items@[i as int]@));
            i = i + 1;
        }
        assert(self.items@.subrange(0, self.items@.len() as int) =~= self.items@);
        out
    }

    pub fn len(&self) -> (res: usize)
        ensures
            res == self@.len(),
    {
        proof { use_type_invariant(&*self); lemma_unique_strings(self.elements()); }
        self.items.len()
    }
}

/// A key that can be compared with another key of its type.
pub trait MapKey: Sized {
    type KeyView;

    spec fn key_view(&self) -> Self::KeyView;

    fn same_key(&self, other: &Self) -> (res: bool)
        ensures
            res == (self.key_view() == other.key_view()),
    ;
}

impl MapKey for String {
    type KeyView = Seq<char>;

    open spec fn key_view(&self) -> Seq<char> {
        self@
    }

    fn same_key(&self, other: &Self) -> (res: bool) {
        *self == *other
    }
}

impl MapKey for (String, String) {
    type KeyView = (Seq<char>, Seq<char>);

    open spec fn key_view(&self) -> (Seq<char>, Seq<char>) {
        (self.0@, self.1@)
    }

    fn same_key(&self, other: &Self) -> (res: bool) {
        self.0 == other.0 && self.1 == other.1
    }
}

/// A finite map from keys to values that holds each key once.
pub struct KeyMap<K: MapKey, V> {
    keys: Vec<K>,
    vals: Vec<V>,
    map: Ghost<Map<K::KeyView, V>>,
}

impl<K: MapKey, V> View for KeyMap<K, V> {
    type V = Map<K::KeyView, V>;

    closed spec fn view(&self) -> Map<K::KeyView, V> {
        self.map@
    }
}

/// The keys and values of an association list, and the map they stand for, agree.
pub open spec fn assoc_agrees<K: MapKey, V>(keys: Seq<K>, vals: Seq<V>, m: Map<K::KeyView, V>) -> bool {
    &&& keys.len() == vals.len()
    &&& forall|i: int, j: int|
        0 <= i < j < keys.len() ==> #[trigger] keys[i].key_view() != #[trigger] keys[j].key_view()
    &&& forall|i: int|
        0 <= i < keys.len() ==> #[trigger] m.contains_key(keys[i].key_view()) && m[keys[i].key_view()]
            == vals[i]
    &&& forall|k: K::KeyView| #[trigger]
        m.contains_key(k) ==> exists|i: int| 0 <= i < keys.len() && keys[i].key_view() == k
}

impl<K: MapKey, V> KeyMap<K, V> {
    #[verifier::type_invariant]
    closed spec fn inv(self) -> bool {
        assoc_agrees(self.keys@, self.vals@, self.map@)
    }

    pub fn new() -> (res: Self)
        ensures
            res@ == Map::<K::KeyView, V>::empty(),
    {
        KeyMap { keys: Vec::new(), vals: Vec::new(), map: Ghost(Map::empty()) }
    }

    fn find(&self, k: &K) -> (res: Option<usize>)
        ensures
            match res {
                Some(i) => i < self.keys@.len() && self.keys@[i as int].key_view() == k.key_view()
                    && self@.contains_key(k.key_view()) && self@[k.key_view()] == self.vals@[i as int],
                None => !self@.contains_key(k.key_view()),
            },
    {
        proof { use_type_invariant(&*self); }
        let mut i: usize = 0;
        while i < self.keys.len()
            invariant
                i <= self.keys@.len(),
                assoc_agrees(self.keys@, self.vals@, self.map@),
                forall|j: int| 0 <= j < i ==> self.keys@[j].key_view() != k.key_view(),
            decreases self.keys@.len() - i,
        {
            if self.keys[i].same_key(k) {
                return Some(i);
            }
            i = i + 1;
        }
        None
    }

    pub fn contains_key(&self, k: &K) -> (res: bool)
        ensures
            res == self@.contains_key(k.key_view()),
    {
        self.find(k).is_some()
    }

    pub fn get(&self, k: &K) -> (res: Option<&V>)
        ensures
            match res {
                Some(v) => self@.contains_key(k.key_view()) && *v == self@[k.key_view()],
                None => !self@.contains_key(k.key_view()),
            },
    {
        proof { use_type_invariant(&*self); }
        match self.find(k) {
            Some(i) => Some(&self.vals[i]),
            None => None,
        }
    }

    /// Maps `k` to `v`, replacing any earlier value of `k`.
    pub fn insert(&mut self, k: K, v: V)
        ensures
            final(self)@ == old(self)@.insert(k.key_view(), v),
    {
        proof { use_type_invariant(&*self); }
        let found = self.find(&k);
        let mut taken = KeyMap::new();
        std::mem::swap(&mut taken, self);
        let KeyMap { mut keys, mut vals, map } = taken;
        let ghost old_keys = keys@;
        let ghost old_vals = vals@;
        let ghost new_map = map@.insert(k.key_view(), v);
        match found {
            Some(i) => {
                vals.set(i, v);
                proof {
                    assert forall|kk: K::KeyView| #[trigger] new_map.contains_key(kk) implies
                        exists|j: int| 0 <= j < keys@.len() && keys@[j].key_view() == kk by {
                        if kk == k.key_view() {
                            assert(keys@[i as int].key_view() == kk);
                        }
                    }
                }
            },
            None => {
                keys.push(k);
                vals.push(v);
                proof {
                    let n = old_keys.len() as int;
                    assert(keys@[n].key_view() == k.key_view());
                    assert forall|a: int| 0 <= a < keys@.len() implies #[trigger] new_map.contains_key(keys@[a].key_view())
                        && new_map[keys@[a].key_view()] == vals@[a] by {
                        if a < n {
                            assert(keys@[a] == old_keys[a]);
                            assert(old_keys[a].key_view() != k.key_view());
                        }
                    }
                    assert forall|kk: K::KeyView| #[trigger] new_map.contains_key(kk) implies
                        exists|j: int| 0 <= j < keys@.len() && keys@[j].key_view() == kk by {
                        if kk == k.key_view() {
                            assert(keys@[n].key_view() == kk);
                        } else {
                            let j = choose|j: int| 0 <= j < old_keys.len() && old_keys[j].key_view() == kk;
                            assert(keys@[j] == old_keys[j]);
                        }
                    }
                }
            },
        }
        *self = KeyMap { keys, vals, map: Ghost(new_map) };
    }

    /// Removes the entry of `k` and hands its value back.
    pub fn take(&mut self, k: &K) -> (res: Option<V>)
        ensures
            final(self)@ == old(self)@.remove(k.key_view()),
            match res {
                Some(v) => old(self)@.contains_key(k.key_view()) && v == old(self)@[k.key_view()],
                None => !old(self)@.contains_key(k.key_view()),
            },
    {
        proof { use_type_invariant(&*self); }
        let found = self.find(k);
        match found {
            None => {
                assert(self@.remove(k.key_view()) =~= self@);
                None
            },
            Some(i) => {
                let mut taken = KeyMap::new();
                std::mem::swap(&mut taken, self);
                let KeyMap { mut keys, mut vals, map } = taken;
                let ghost old_keys = keys@;
                let ghost old_vals = vals@;
                let ghost new_map = map@.remove(k.key_view());
                assert(assoc_agrees(old_keys, old_vals, map@));
                assert(old_keys[i as int].key_view() == k.key_view());
                keys.remove(i);
                let v = vals.remove(i);
                proof {
                    assert forall|a: int, b: int| 0 <= a < b < keys@.len() implies
                        #[trigger] keys@[a].key_view() != #[trigger] keys@[b].key_view() by {
                        let oa = if a < i { a } else { a + 1 };
                        let ob = if b < i { b } else { b + 1 };
                        assert(keys@[a] == old_keys[oa]);
                        assert(keys@[b] == old_keys[ob]);
                    }
                    assert forall|a: int| 0 <= a < keys@.len() implies #[trigger] new_map.contains_key(keys@[a].key_view())
                        && new_map[keys@[a].key_view()] == vals@[a] by {
                        let oa = if a < i { a } else { a + 1 };
                        assert(keys@[a] == old_keys[oa]);
                        assert(vals@[a] == old_vals[oa]);
                        if oa < i {
                            assert(old_keys[oa].key_view() != old_keys[i as int].key_view());
                        } else {
                            assert(old_keys[i as int].key_view() != old_keys[oa].key_view());
                        }
                        assert(map@.contains_key(old_keys[oa].key_view()));
                    }
                    assert forall|kk: K::KeyView| #[trigger] new_map.contains_key(kk) implies
                        exists|j: int| 0 <= j < keys@.len() && keys@[j].key_view() == kk by {
                        let j = choose|j: int| 0 <= j < old_keys.len() && old_keys[j].key_view() == kk;
                        if j < i {
                            assert(keys@[j] == old_keys[j]);
                        } else {
                            assert(j != i);
                            assert(keys@[j - 1] == old_keys[j]);
                        }
                    }
                }
                *self = KeyMap { keys, vals, map: Ghost(new_map) };
                Some(v)
            },
        }
    }
}

} // verus!
