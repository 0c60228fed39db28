//! Sets of paths and maps keyed by paths, kept as lists without repeated
//! paths; paths are compared by their text.

use vstd::prelude::*;

use crate::text::str_eq;

verus! {

broadcast use {vstd::string::group_string_axioms, vstd::seq_lib::group_seq_properties, vstd::set_lib::group_set_lib_default};

/// Whether the list holds an entry for path `k`.
pub open spec fn has_key<V>(s: Seq<(String, V)>, k: Seq<char>) -> bool {
    exists|i: int| 0 <= i < s.len() && (#[trigger] s[i]).0@ == k
}

/// Some position of an entry for path `k`.
pub open spec fn key_index<V>(s: Seq<(String, V)>, k: Seq<char>) -> int {
    choose|i: int| 0 <= i < s.len() && (#[trigger] s[i]).0@ == k
}

/// Whether no two entries of the list are for the same path.
pub open spec fn unique_keys<V>(s: Seq<(String, V)>) -> bool {
    forall|i: int, j: int|
        0 <= i < s.len() && 0 <= j < s.len() && (#[trigger] s[i]).0@ == (#[trigger] s[j]).0@ ==> i
            == j
}

/// The map that a list of entries stands for.
pub open spec fn entries_view<V: View>(s: Seq<(String, V)>) -> Map<Seq<char>, V::V> {
    Map::new(|k: Seq<char>| has_key(s, k), |k: Seq<char>| s[key_index(s, k)].1@)
}

/// The paths of a list of entries, in order.
pub open spec fn key_views<V>(s: Seq<(String, V)>) -> Seq<Seq<char>> {
    s.map_values(|e: (String, V)| e.0@)
}

proof fn lemma_key_index<V>(s: Seq<(String, V)>, k: Seq<char>)
    requires
        has_key(s, k),
    ensures
        0 <= key_index(s, k) < s.len(),
        s[key_index(s, k)].0@ == k,
{
}

proof fn lemma_view_at<V: View>(s: Seq<(String, V)>, i: int)
    requires
        unique_keys(s),
        0 <= i < s.len(),
    ensures
        entries_view(s).contains_key(s[i].0@),
        entries_view(s)[s[i].0@] == s[i].1@,
        key_index(s, s[i].0@) == i,
{
    let k = s[i].0@;
    assert(has_key(s, k));
    let j = key_index(s, k);
    assert(s[j].0@ == k);
}

proof fn lemma_view_push<V: View>(s: Seq<(String, V)>, k: String, v: V)
    requires
        unique_keys(s),
        !has_key(s, k@),
    ensures
        unique_keys(s.push((k, v))),
        entries_view(s.push((k, v))) == entries_view(s).insert(k@, v@),
{
    let t = s.push((k, v));
    assert forall|i: int, j: int|
        0 <= i < t.len() && 0 <= j < t.len() && (#[trigger] t[i]).0@ == (#[trigger] t[j]).0@ implies i
        == j by {
        if i < s.len() && j < s.len() {
            assert(s[i] == t[i] && s[j] == t[j]);
        } else if i < s.len() {
            assert(s[i] == t[i]);
        } else if j < s.len() {
            assert(s[j] == t[j]);
        }
    }
    let m = entries_view(s).insert(k@, v@);
    assert forall|q: Seq<char>| has_key(t, q) <==> m.contains_key(q) by {
        if has_key(t, q) {
            let i = choose|i: int| 0 <= i < t.len() && (#[trigger] t[i]).0@ == q;
            if i < s.len() {
                assert(s[i] == t[i]);
            }
        }
        if has_key(s, q) {
            let i = choose|i: int| 0 <= i < s.len() && (#[trigger] s[i]).0@ == q;
            assert(t[i] == s[i]);
        }
        if q == k@ {
            assert(t[s.len() as int].0@ == q);
        }
    }
    assert forall|q: Seq<char>| #[trigger] m.contains_key(q) implies entries_view(t)[q] == m[q] by {
        assert(has_key(t, q));
        lemma_key_index(t, q);
        lemma_view_at(t, key_index(t, q));
        let i = key_index(t, q);
        if i < s.len() {
            assert(s[i] == t[i]);
            lemma_view_at(s, i);
        }
    }
    assert(entries_view(t) =~= m);
}

proof fn lemma_view_update<V: View>(s: Seq<(String, V)>, i: int, k: String, v: V)
    requires
        unique_keys(s),
        0 <= i < s.len(),
        s[i].0@ == k@,
    ensures
        unique_keys(s.update(i, (k, v))),
        entries_view(s.update(i, (k, v))) == entries_view(s).insert(k@, v@),
{
    let t = s.update(i, (k, v));
    assert forall|a: int, b: int|
        0 <= a < t.len() && 0 <= b < t.len() && (#[trigger] t[a]).0@ == (#[trigger] t[b]).0@ implies a
        == b by {
        assert(t[a].0@ == s[a].0@);
        assert(t[b].0@ == s[b].0@);
    }
    let m = entries_view(s).insert(k@, v@);
    assert forall|q: Seq<char>| has_key(t, q) <==> m.contains_key(q) by {
        if has_key(t, q) {
            let a = choose|a: int| 0 <= a < t.len() && (#[trigger] t[a]).0@ == q;
            assert(s[a].0@ == q);
        }
        if has_key(s, q) {
            let a = choose|a: int| 0 <= a < s.len() && (#[trigger] s[a]).0@ == q;
            assert(t[a].0@ == q);
        }
        if q == k@ {
            assert(t[i].0@ == q);
        }
    }
    assert forall|q: Seq<char>| #[trigger] m.contains_key(q) implies entries_view(t)[q] == m[q] by {
        assert(has_key(t, q));
        lemma_key_index(t, q);
        lemma_view_at(t, key_index(t, q));
        let a = key_index(t, q);
        if a != i {
            assert(s[a] == t[a]);
            lemma_view_at(s, a);
        }
    }
    assert(entries_view(t) =~= m);
}

proof fn lemma_view_remove<V: View>(s: Seq<(String, V)>, i: int)
    requires
        unique_keys(s),
        0 <= i < s.len(),
    ensures
        unique_keys(s.remove(i)),
        entries_view(s.remove(i)) == entries_view(s).remove(s[i].0@),
{
    let t = s.remove(i);
    let k = s[i].0@;
    assert forall|a: int, b: int|
        0 <= a < t.len() && 0 <= b < t.len() && (#[trigger] t[a]).0@ == (#[trigger] t[b]).0@ implies a
        == b by {
        let sa = if a < i { a } else { a + 1 };
        let sb = if b < i { b } else { b + 1 };
        assert(t[a] == s[sa]);
        assert(t[b] == s[sb]);
    }
    let m = entries_view(s).remove(k);
    assert forall|q: Seq<char>| has_key(t, q) <==> m.contains_key(q) by {
        if has_key(t, q) {
            let a = choose|a: int| 0 <= a < t.len() && (#[trigger] t[a]).0@ == q;
            let sa = if a < i { a } else { a + 1 };
            assert(t[a] == s[sa]);
            assert(sa != i);
            if q == k {
                assert(s[sa].0@ == s[i].0@);
            }
        }
        if has_key(s, q) && q != k {
            let a = choose|a: int| 0 <= a < s.len() && (#[trigger] s[a]).0@ == q;
            assert(a != i);
            let ta = if a < i { a } else { a - 1 };
            assert(t[ta] == s[a]);
        }
    }
    assert forall|q: Seq<char>| #[trigger] m.contains_key(q) implies entries_view(t)[q] == m[q] by {
        assert(has_key(t, q));
        lemma_key_index(t, q);
        lemma_view_at(t, key_index(t, q));
        let a = key_index(t, q);
        let sa = if a < i { a } else { a + 1 };
        assert(t[a] == s[sa]);
        lemma_view_at(s, sa);
    }
    assert(entries_view(t) =~= m);
}

proof fn lemma_view_dom<V: View>(s: Seq<(String, V)>)
    requires
        unique_keys(s),
    ensures
        entries_view(s).dom() == key_views(s).to_set(),
        entries_view(s).dom().finite(),
        entries_view(s).dom().len() == s.len(),
{
    let ks = key_views(s);
    assert forall|q: Seq<char>| has_key(s, q) <==> ks.contains(q) by {
        if has_key(s, q) {
            let a = choose|a: int| 0 <= a < s.len() && (#[trigger] s[a]).0@ == q;
            assert(ks[a] == q);
        }
        if ks.contains(q) {
            let a = choose|a: int| 0 <= a < ks.len() && ks[a] == q;
            assert(s[a].0@ == q);
        }
    }
    assert(entries_view(s).dom() =~= ks.to_set());
    assert forall|a: int, b: int| 0 <= a < ks.len() && 0 <= b < ks.len() && a != b implies ks[a]
        != ks[b] by {
        assert(ks[a] == s[a].0@);
        assert(ks[b] == s[b].0@);
    }
    ks.unique_seq_to_set();
}

proof fn lemma_key_seq_unique<V>(s: Seq<(String, V)>)
    requires
        unique_keys(s),
    ensures
        key_views(s).no_duplicates(),
        key_views(s).len() == s.len(),
{
    let ks = key_views(s);
    assert forall|a: int, b: int| 0 <= a < ks.len() && 0 <= b < ks.len() && a != b implies ks[a]
        != ks[b] by {
        assert(ks[a] == s[a].0@);
        assert(ks[b] == s[b].0@);
    }
}

/// A map from paths to values, with at most one entry per path text.
#[derive(Debug)]
pub struct PathMap<V> {
    entries: Vec<(String, V)>,
}

impl<V: View> View for PathMap<V> {
    type V = Map<Seq<char>, V::V>;

    closed spec fn view(&self) -> Map<Seq<char>, V::V> {
        entries_view(self.entries@)
    }
}

impl<V> PathMap<V> {
    #[verifier::type_invariant]
    closed spec fn wf(self) -> bool {
        unique_keys(self.entries@)
    }
}

impl<V: View> PathMap<V> {
    /// The paths of the entries, in the order they are kept.
    pub closed spec fn key_seq(self) -> Seq<Seq<char>> {
        key_views(self.entries@)
    }

    /// An empty map.
    pub fn new() -> (m: Self)
        ensures
            m@ == Map::<Seq<char>, V::V>::empty(),
    {
        let m = PathMap { entries: Vec::new() };
        assert(m@ =~= Map::<Seq<char>, V::V>::empty());
        m
    }

    fn find(&self, k: &str) -> (r: Option<usize>)
        ensures
            match r {
                Some(i) => i < self.entries@.len() && self.entries@[i as int].0@ == k@,
                None => !has_key(self.entries@, k@),
            },
    {
        let mut i: usize = 0;
        while i < self.entries.len()
            invariant
                i <= self.entries@.len(),
                forall|j: int| 0 <= j < i ==> (#[trigger] self.entries@[j]).0@ != k@,
            decreases self.entries@.len() - i,
        {
            if str_eq(self.entries[i].0.as_str(), k) {
                return Some(i);
            }
            i = i + 1;
        }
        None
    }

    /// The number of entries; the entries' paths, in the order kept, are
    /// that many and all different, and they are the map's paths.
    pub fn len(&self) -> (n: usize)
        ensures
            n == self@.len(),
            self@.dom().finite(),
            self.key_seq().len() == n,
            self.key_seq().no_duplicates(),
            self.key_seq().to_set() == self@.dom(),
    {
        proof {
            use_type_invariant(self);
            lemma_view_dom(self.entries@);
            lemma_key_seq_unique(self.entries@);
        }
        self.entries.len()
    }

    /// The `i`-th entry in the order kept.
    pub fn entry_at(&self, i: usize) -> (r: (&String, &V))
        requires
            i < self.key_seq().len(),
        ensures
            r.0@ == self.key_seq()[i as int],
            self@.contains_key(r.0@),
            self@[r.0@] == r.1@,
    {
        proof {
            use_type_invariant(self);
            lemma_view_at(self.entries@, i as int);
        }
        let e = &self.entries[i];
        (&e.0, &e.1)
    }

    /// Whether the map has no entry.
    pub fn is_empty(&self) -> (r: bool)
        ensures
            r == (self@.dom() == Set::<Seq<char>>::empty()),
    {
        proof {
            use_type_invariant(self);
            lemma_view_dom(self.entries@);
            if self.entries@.len() > 0 {
                lemma_view_at(self.entries@, 0);
                assert(self@.dom().contains(self.entries@[0].0@));
            } else {
                assert(self@.dom() =~= Set::<Seq<char>>::empty());
            }
        }
        self.entries.len() == 0
    }

    /// Whether the map has an entry for `k`.
    pub fn contains_key(&self, k: &str) -> (r: bool)
        ensures
            r == self@.contains_key(k@),
    {
        match self.find(k) {
            Some(_) => true,
            None => false,
        }
    }

    /// The value of the entry for `k`, if there is one.
    pub fn get(&self, k: &str) -> (r: Option<&V>)
        ensures
            match r {
                Some(v) => self@.contains_key(k@) && self@[k@] == v@,
                None => !self@.contains_key(k@),
            },
    {
        proof {
            use_type_invariant(self);
        }
        match self.find(k) {
            Some(i) => {
                proof {
                    lemma_view_at(self.entries@, i as int);
                }
                Some(&self.entries[i].1)
            },
            None => None,
        }
    }

    /// Sets the value for `k`, replacing an earlier one, which is returned.
    pub fn insert(&mut self, k: String, v: V) -> (r: Option<V>)
        ensures
            final(self)@ == old(self)@.insert(k@, v@),
            match r {
                Some(w) => old(self)@.contains_key(k@) && old(self)@[k@] == w@,
                None => !old(self)@.contains_key(k@),
            },
    {
        proof {
            use_type_invariant(&*self);
        }
        match self.find(k.as_str()) {
            Some(i) => {
                proof {
                    lemma_view_at(self.entries@, i as int);
                    lemma_view_update(self.entries@, i as int, k, v);
                }
                let ghost before = self.entries@;
                let mut entries: Vec<(String, V)> = Vec::new();
                std::mem::swap(&mut entries, &mut self.entries);
                let old_entry = entries.remove(i);
                entries.insert(i, (k, v));
                assert(entries@ =~= before.update(i as int, (k, v)));
                self.entries = entries;
                Some(old_entry.1)
            },
            None => {
                proof {
                    lemma_view_push(self.entries@, k, v);
                }
                let mut entries: Vec<(String, V)> = Vec::new();
                std::mem::swap(&mut entries, &mut self.entries);
                entries.push((k, v));
                self.entries = entries;
                None
            },
        }
    }

    /// Removes the entry for `k`, returning its value.
    pub fn remove(&mut self, k: &str) -> (r: Option<V>)
        ensures
            final(self)@ == old(self)@.remove(k@),
            match r {
                Some(w) => old(self)@.contains_key(k@) && old(self)@[k@] == w@,
                None => !old(self)@.contains_key(k@),
            },
    {
        proof {
            use_type_invariant(&*self);
        }
        match self.find(k) {
            Some(i) => {
                proof {
                    lemma_view_at(self.entries@, i as int);
                    lemma_view_remove(self.entries@, i as int);
                }
                let mut entries: Vec<(String, V)> = Vec::new();
                std::mem::swap(&mut entries, &mut self.entries);
                let e = entries.remove(i);
                self.entries = entries;
                Some(e.1)
            },
            None => {
                assert(old(self)@.remove(k@) =~= old(self)@);
                None
            },
        }
    }
}

impl Clone for PathMap<String> {
    fn clone(&self) -> (r: PathMap<String>)
        ensures
            r@ == self@,
    {
        let n = self.len();
        let mut r: PathMap<String> = PathMap::new();
        let mut i: usize = 0;
        while i < n
            invariant
                n == self.key_seq().len(),
                self.key_seq().to_set() == self@.dom(),
                i <= n,
                r@ == self@.restrict(self.key_seq().subrange(0, i as int).to_set()),
            decreases n - i,
        {
            let (k, v) = self.entry_at(i);
            r.insert(k.clone(), v.clone());
            assert(self.key_seq().subrange(0, i + 1) =~= self.key_seq().subrange(0, i as int).push(
                k@,
            ));
            assert(r@ =~= self@.restrict(self.key_seq().subrange(0, i + 1).to_set()));
            i = i + 1;
        }
        assert(self.key_seq().subrange(0, n as int) =~= self.key_seq());
        assert(r@ =~= self@);
        r
    }
}

impl PathMap<String> {
    fn entries_found_in(&self, other: &PathMap<String>) -> (r: bool)
        ensures
            r == (forall|p: Seq<char>| #[trigger]
                self@.contains_key(p) ==> other@.contains_key(p) && other@[p] == self@[p]),
    {
        let n = self.len();
        let mut i: usize = 0;
        while i < n
            invariant
                n == self.key_seq().len(),
                self.key_seq().to_set() == self@.dom(),
                i <= n,
                forall|j: int|
                    0 <= j < i ==> other@.contains_key(#[trigger] self.key_seq()[j]) && other@[self.key_seq()[j]]
                        == self@[self.key_seq()[j]],
            decreases n - i,
        {
            let (k, v) = self.entry_at(i);
            match other.get(k.as_str()) {
                Some(w) => {
                    if !str_eq(w.as_str(), v.as_str()) {
                        assert(self@.contains_key(k@));
                        return false;
                    }
                },
                None => {
                    assert(self@.contains_key(k@));
                    return false;
                },
            }
            i = i + 1;
        }
        assert forall|p: Seq<char>| #[trigger] self@.contains_key(p) implies other@.contains_key(p)
            && other@[p] == self@[p] by {
            assert(self.key_seq().to_set().contains(p));
            let j = choose|j: int| 0 <= j < self.key_seq().len() && self.key_seq()[j] == p;
        }
        true
    }
}

impl PartialEq for PathMap<String> {
    fn eq(&self, other: &PathMap<String>) -> (r: bool) {
        let r = self.entries_found_in(other) && other.entries_found_in(self);
        if r {
            assert(self@ =~= other@);
        }
        r
    }
}

impl vstd::std_specs::cmp::PartialEqSpecImpl for PathMap<String> {
    open spec fn obeys_eq_spec() -> bool {
        true
    }

    open spec fn eq_spec(&self, other: &PathMap<String>) -> bool {
        self@ == other@
    }
}

/// A set of paths, compared by their text.
#[derive(Debug)]
pub struct PathSet {
    map: PathMap<()>,
}

impl View for PathSet {
    type V = Set<Seq<char>>;

    closed spec fn view(&self) -> Set<Seq<char>> {
        self.map@.dom()
    }
}

impl PathSet {
    /// An empty set.
    pub fn new() -> (s: PathSet)
        ensures
            s@ == Set::<Seq<char>>::empty(),
    {
        PathSet { map: PathMap::new() }
    }

    /// The number of paths.
    pub fn len(&self) -> (n: usize)
        ensures
            self@.finite(),
            n == self@.len(),
    {
        self.map.len()
    }

    /// Whether the set holds no path.
    pub fn is_empty(&self) -> (r: bool)
        ensures
            r == (self@ == Set::<Seq<char>>::empty()),
    {
        self.map.is_empty()
    }

    /// Whether the set holds `p`.
    pub fn contains(&self, p: &str) -> (r: bool)
        ensures
            r == self@.contains(p@),
    {
        self.map.contains_key(p)
    }

    /// Adds `p`; `true` when it was not there before.
    pub fn insert(&mut self, p: String) -> (r: bool)
        ensures
            final(self)@ == old(self)@.insert(p@),
            r == !old(self)@.contains(p@),
    {
        let prev = self.map.insert(p, ());
        assert(self.map@.dom() =~= old(self).map@.dom().insert(p@));
        prev.is_none()
    }

    /// Removes `p`; `true` when it was there.
    pub fn remove(&mut self, p: &str) -> (r: bool)
        ensures
            final(self)@ == old(self)@.remove(p@),
            r == old(self)@.contains(p@),
    {
        let prev = self.map.remove(p);
        assert(self.map@.dom() =~= old(self).map@.dom().remove(p@));
        prev.is_some()
    }

    /// The paths, each once.
    pub fn to_vec(&self) -> (v: Vec<String>)
        ensures
            v@.map_values(|s: String| s@).no_duplicates(),
            v@.map_values(|s: String| s@).to_set() == self@,
    {
        let n = self.map.len();
        let mut v: Vec<String> = Vec::new();
        let mut i: usize = 0;
        while i < n
            invariant
                n == self.map.key_seq().len(),
                i <= n,
                v@.map_values(|s: String| s@) == self.map.key_seq().subrange(0, i as int),
            decreases n - i,
        {
            let (k, _) = self.map.entry_at(i);
            v.push(k.clone());
            assert(self.map.key_seq().subrange(0, i + 1) =~= self.map.key_seq().subrange(
                0,
                i as int,
            ).push(k@));
            assert(v@.map_values(|s: String| s@) =~= self.map.key_seq().subrange(0, i + 1));
            i = i + 1;
        }
        assert(self.map.key_seq().subrange(0, n as int) =~= self.map.key_seq());
        v
    }
}

impl Clone for PathSet {
    fn clone(&self) -> (r: PathSet)
        ensures
            r@ == self@,
    {
        let n = self.map.len();
        let mut r = PathSet::new();
        let mut i: usize = 0;
        while i < n
            invariant
                n == self.map.key_seq().len(),
                self.map.key_seq().to_set() == self@,
                i <= n,
                r@ == self.map.key_seq().subrange(0, i as int).to_set(),
            decreases n - i,
        {
            let (k, _) = self.map.entry_at(i);
            r.insert(k.clone());
            assert(self.map.key_seq().subrange(0, i + 1) =~= self.map.key_seq().subrange(
                0,
                i as int,
            ).push(k@));
            assert(r@ =~= self.map.key_seq().subrange(0, i + 1).to_set());
            i = i + 1;
        }
        assert(self.map.key_seq().subrange(0, n as int) =~= self.map.key_seq());
        r
    }
}

impl PartialEq for PathSet {
    fn eq(&self, other: &PathSet) -> (r: bool) {
        let a = self.to_vec();
        let b = other.to_vec();
        let ghost av = a@.map_values(|s: String| s@);
        let ghost bv = b@.map_values(|s: String| s@);
        let mut i: usize = 0;
        while i < a.len()
            invariant
                av == a@.map_values(|s: String| s@),
                av.to_set() == self@,
                i <= a@.len(),
                forall|j: int| 0 <= j < i ==> other@.contains(#[trigger] av[j]),
            decreases a@.len() - i,
        {
            if !other.contains(a[i].as_str()) {
                assert(self@.contains(av[i as int]));
                return false;
            }
            i = i + 1;
        }
        let mut j: usize = 0;
        while j < b.len()
            invariant
                bv == b@.map_values(|s: String| s@),
                bv.to_set() == other@,
                av.to_set() == self@,
                av.len() == a@.len(),
                forall|k: int| 0 <= k < a@.len() ==> other@.contains(#[trigger] av[k]),
                j <= b@.len(),
                forall|k: int| 0 <= k < j ==> self@.contains(#[trigger] bv[k]),
            decreases b@.len() - j,
        {
            if !self.contains(b[j].as_str()) {
                assert(other@.contains(bv[j as int]));
                return false;
            }
            j = j + 1;
        }
        assert forall|p: Seq<char>| self@.contains(p) implies other@.contains(p) by {
            assert(av.contains(p));
            let k = choose|k: int| 0 <= k < av.len() && av[k] == p;
        }
        assert forall|p: Seq<char>| other@.contains(p) implies self@.contains(p) by {
            assert(bv.contains(p));
            let k = choose|k: int| 0 <= k < bv.len() && bv[k] == p;
        }
        assert(self@ =~= other@);
        true
    }
}

impl vstd::std_specs::cmp::PartialEqSpecImpl for PathSet {
    open spec fn obeys_eq_spec() -> bool {
        true
    }

    open spec fn eq_spec(&self, other: &PathSet) -> bool {
        self@ == other@
    }
}

} // verus!
