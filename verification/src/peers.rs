//! Tables keyed by instance name: the properties of known peers, and the
//! time at which each peer was last heard from.
//!
//! A table is a vector of entries in which no instance name occurs twice;
//! its model is the map from each name to its value.

use vstd::prelude::*;

verus! {

/// The map that a sequence of entries stands for; a later entry for the
/// same name wins.
pub open spec fn entries_map<V>(s: Seq<(String, V)>) -> Map<Seq<char>, V>
    decreases s.len(),
{
    if s.len() == 0 {
        Map::empty()
    } else {
        entries_map(s.drop_last()).insert(s.last().0@, s.last().1)
    }
}

/// No instance name occurs twice among the entries.
pub open spec fn distinct_keys<V>(s: Seq<(String, V)>) -> bool {
    forall|i: int, j: int| 0 <= i < j < s.len() ==> (#[trigger] s[i]).0@ != (#[trigger] s[j]).0@
}

/// The map of distinct entries holds exactly their names, each with its value.
pub proof fn lemma_entries_map<V>(s: Seq<(String, V)>)
    requires
        distinct_keys(s),
    ensures
        forall|k: Seq<char>| #[trigger] entries_map(s).dom().contains(k)
            <==> exists|i: int| 0 <= i < s.len() && (#[trigger] s[i]).0@ == k,
        forall|i: int| 0 <= i < s.len() ==> entries_map(s).dom().contains((#[trigger] s[i]).0@)
            && entries_map(s)[s[i].0@] == s[i].1,
        entries_map(s).dom().finite(),
    decreases s.len(),
{
    if s.len() > 0 {
        let t = s.drop_last();
        assert forall|i: int, j: int| 0 <= i < j < t.len() implies (#[trigger] t[i]).0@ != (#[trigger] t[j]).0@ by {
            assert(t[i] == s[i] && t[j] == s[j]);
        }
        lemma_entries_map(t);
        assert forall|k: Seq<char>| #[trigger] entries_map(s).dom().contains(k)
            implies exists|i: int| 0 <= i < s.len() && (#[trigger] s[i]).0@ == k by {
            if k == s.last().0@ {
                assert(s[s.len() - 1].0@ == k);
            } else {
                let i = choose|i: int| 0 <= i < t.len() && (#[trigger] t[i]).0@ == k;
                assert(s[i] == t[i]);
            }
        }
        assert forall|k: Seq<char>| (exists|i: int| 0 <= i < s.len() && (#[trigger] s[i]).0@ == k)
            implies #[trigger] entries_map(s).dom().contains(k) by {
            let i = choose|i: int| 0 <= i < s.len() && (#[trigger] s[i]).0@ == k;
            if i < s.len() - 1 {
                assert(t[i] == s[i]);
            }
        }
        assert forall|i: int| 0 <= i < s.len() implies entries_map(s).dom().contains((#[trigger] s[i]).0@)
            && entries_map(s)[s[i].0@] == s[i].1 by {
            if i < s.len() - 1 {
                assert(t[i] == s[i]);
                assert(s[i].0@ != s[s.len() - 1].0@);
            }
        }
    }
}

/// A table of values keyed by instance name.
pub struct PeerMap<V> {
    entries: Vec<(String, V)>,
}

impl<V> View for PeerMap<V> {
    type V = Map<Seq<char>, V>;

    closed spec fn view(&self) -> Map<Seq<char>, V> {
        entries_map(self.entries@)
    }
}

impl<V> PeerMap<V> {
    /// The table is well formed: no name occurs twice.
    pub closed spec fn wf(&self) -> bool {
        distinct_keys(self.entries@)
    }

    /// Creates an empty table.
    pub fn new() -> (r: Self)
        ensures
            r.wf(),
            r@ == Map::<Seq<char>, V>::empty(),
    {
        PeerMap { entries: Vec::new() }
    }

    /// The number of names in the table.
    pub fn len(&self) -> (n: usize)
        requires
            self.wf(),
        ensures
            n == self@.len(),
    {
        proof {
            self.lemma_len();
        }
        self.entries.len()
    }

    proof fn lemma_len(&self)
        requires
            self.wf(),
        ensures
            self@.len() == self.entries@.len(),
            self@.dom().finite(),
    {
        lemma_entries_map(self.entries@);
        lemma_distinct_len(self.entries@);
    }

    /// The position of the entry for `key`, if there is one.
    fn position(&self, key: &String) -> (r: Option<usize>)
        requires
            self.wf(),
        ensures
            match r {
                Some(i) => i < self.entries@.len() && self.entries@[i as int].0@ == key@,
                None => forall|i: int| 0 <= i < self.entries@.len() ==> (#[trigger] self.entries@[i]).0@ != key@,
            },
    {
        let mut i: usize = 0;
        while i < self.entries.len()
            invariant
                i <= self.entries@.len(),
                forall|j: int| 0 <= j < i ==> (#[trigger] self.entries@[j]).0@ != key@,
            decreases self.entries@.len() - i,
        {
            if self.entries[i].0 == *key {
                return Some(i);
            }
            i = i + 1;
        }
        None
    }

    /// Whether the table holds an entry for `key`.
    pub fn contains_key(&self, key: &String) -> (r: bool)
        requires
            self.wf(),
        ensures
            r == self@.dom().contains(key@),
    {
        proof {
            lemma_entries_map(self.entries@);
        }
        self.position(key).is_some()
    }

    /// The value stored for `key`, if any.
    pub fn get(&self, key: &String) -> (r: Option<&V>)
        requires
            self.wf(),
        ensures
            match r {
                Some(v) => self@.dom().contains(key@) && *v == self@[key@],
                None => !self@.dom().contains(key@),
            },
    {
        proof {
            lemma_entries_map(self.entries@);
        }
        match self.position(key) {
            Some(i) => Some(&self.entries[i].1),
            None => None,
        }
    }

    /// Stores `value` for `key`, replacing an earlier value.
    pub fn insert(&mut self, key: String, value: V)
        requires
            old(self).wf(),
        ensures
            final(self).wf(),
            final(self)@ == old(self)@.insert(key@, value),
    {
        let ghost k = key@;
        let ghost old_entries = self.entries@;
        proof {
            lemma_entries_map(old_entries);
        }
        match self.position(&key) {
            Some(i) => {
                self.entries.set(i, (key, value));
                let ghost s = self.entries@;
                assert(s == old_entries.update(i as int, s[i as int]));
                assert forall|a: int, b: int| 0 <= a < b < s.len() implies (#[trigger] s[a]).0@ != (#[trigger] s[b]).0@ by {
                    if a != i && b != i {
                        assert(s[a] == old_entries[a] && s[b] == old_entries[b]);
                    } else if a == i {
                        assert(s[b] == old_entries[b]);
                        assert(old_entries[a].0@ == k);
                    } else {
                        assert(s[a] == old_entries[a]);
                        assert(old_entries[b].0@ == k);
                    }
                }
                proof {
                    lemma_entries_map(s);
                }
                assert(entries_map(s) =~= entries_map(old_entries).insert(k, value)) by {
                    assert forall|q: Seq<char>| #[trigger] entries_map(s).dom().contains(q)
                        <==> entries_map(old_entries).insert(k, value).dom().contains(q) by {
                        if entries_map(s).dom().contains(q) {
                            let a = choose|a: int| 0 <= a < s.len() && (#[trigger] s[a]).0@ == q;
                            if a != i {
                                assert(s[a] == old_entries[a]);
                            }
                        }
                        if entries_map(old_entries).dom().contains(q) && q != k {
                            let a = choose|a: int| 0 <= a < old_entries.len() && (#[trigger] old_entries[a]).0@ == q;
                            assert(a != i);
                            assert(s[a] == old_entries[a]);
                        }
                        if q == k {
                            assert(s[i as int].0@ == q);
                        }
                    }
                    assert forall|q: Seq<char>| #[trigger] entries_map(s).dom().contains(q)
                        implies entries_map(s)[q] == entries_map(old_entries).insert(k, value)[q] by {
                        let a = choose|a: int| 0 <= a < s.len() && (#[trigger] s[a]).0@ == q;
                        if a != i {
                            assert(s[a] == old_entries[a]);
                        }
                    }
                }
            },
            None => {
                self.entries.push((key, value));
                let ghost s = self.entries@;
                assert(s.drop_last() =~= old_entries);
                assert forall|a: int, b: int| 0 <= a < b < s.len() implies (#[trigger] s[a]).0@ != (#[trigger] s[b]).0@ by {
                    assert(s[a] == old_entries[a]);
                    if b < old_entries.len() {
                        assert(s[b] == old_entries[b]);
                    }
                }
            },
        }
    }

    /// Removes the entry for `key`, and gives back its value if there was one.
    pub fn remove(&mut self, key: &String) -> (r: Option<V>)
        requires
            old(self).wf(),
        ensures
            final(self).wf(),
            final(self)@ == old(self)@.remove(key@),
            match r {
                Some(v) => old(self)@.dom().contains(key@) && v == old(self)@[key@],
                None => !old(self)@.dom().contains(key@),
            },
    {
        let ghost k = key@;
        let ghost old_entries = self.entries@;
        proof {
            lemma_entries_map(old_entries);
        }
        match self.position(key) {
            Some(i) => {
                let (_, v) = self.entries.remove(i);
                let ghost s = self.entries@;
                assert(s =~= old_entries.remove(i as int));
                assert forall|a: int, b: int| 0 <= a < b < s.len() implies (#[trigger] s[a]).0@ != (#[trigger] s[b]).0@ by {
                    let a2 = if a < i { a } else { a + 1 };
                    let b2 = if b < i { b } else { b + 1 };
                    assert(s[a] == old_entries[a2] && s[b] == old_entries[b2]);
                }
                proof {
                    lemma_entries_map(s);
                }
                assert(entries_map(s) =~= entries_map(old_entries).remove(k)) by {
                    assert forall|q: Seq<char>| #[trigger] entries_map(s).dom().contains(q)
                        <==> entries_map(old_entries).remove(k).dom().contains(q) by {
                        if entries_map(s).dom().contains(q) {
                            let a = choose|a: int| 0 <= a < s.len() && (#[trigger] s[a]).0@ == q;
                            let a2 = if a < i { a } else { a + 1 };
                            assert(s[a] == old_entries[a2]);
                            assert(a2 != i);
                        }
                        if entries_map(old_entries).dom().contains(q) && q != k {
                            let a = choose|a: int| 0 <= a < old_entries.len() && (#[trigger] old_entries[a]).0@ == q;
                            assert(a != i);
                            if a < i {
                                assert(s[a] == old_entries[a]);
                            } else {
                                assert(s[a - 1] == old_entries[a]);
                            }
                        }
                    }
                    assert forall|q: Seq<char>| #[trigger] entries_map(s).dom().contains(q)
                        implies entries_map(s)[q] == entries_map(old_entries).remove(k)[q] by {
                        let a = choose|a: int| 0 <= a < s.len() && (#[trigger] s[a]).0@ == q;
                        let a2 = if a < i { a } else { a + 1 };
                        assert(s[a] == old_entries[a2]);
                    }
                }
                Some(v)
            },
            None => {
                assert(entries_map(old_entries) =~= entries_map(old_entries).remove(k));
                None
            },
        }
    }
    /// The entries of the table, in no particular order.
    pub fn entries(&self) -> (r: &[(String, V)])
        requires
            self.wf(),
        ensures
            distinct_keys(r@),
            entries_map(r@) == self@,
    {
        self.entries.as_slice()
    }
}

/// The views of a list of names.
pub open spec fn names_view(names: Seq<String>) -> Seq<Seq<char>> {
    names.map_values(|n: String| n@)
}

/// A peer last heard from at `last_seen` is stale at time `now` when more
/// than `timeout` has passed since then. A time before `last_seen` counts
/// as no time at all. Times are in nanoseconds on one monotonic clock.
pub open spec fn is_stale(last_seen: u128, now: u128, timeout: u128) -> bool {
    now > last_seen && now - last_seen > timeout
}

/// The names in `m` that are stale at time `now`.
pub open spec fn stale_names(m: Map<Seq<char>, u128>, now: u128, timeout: u128) -> Set<Seq<char>> {
    Set::new(|k: Seq<char>| m.dom().contains(k) && is_stale(m[k], now, timeout))
}

/// The part of `m` that is not stale at time `now`.
pub open spec fn fresh_part(m: Map<Seq<char>, u128>, now: u128, timeout: u128) -> Map<Seq<char>, u128> {
    m.restrict(Set::new(|k: Seq<char>| m.dom().contains(k) && !is_stale(m[k], now, timeout)))
}

impl PeerMap<u128> {
    /// Removes the peers that are stale at time `now` and gives back their
    /// names, each once, in no particular order.
    pub fn remove_stale(&mut self, now: u128, timeout: u128) -> (r: Vec<String>)
        requires
            old(self).wf(),
        ensures
            final(self).wf(),
            final(self)@ == fresh_part(old(self)@, now, timeout),
            names_view(r@).no_duplicates(),
            names_view(r@).to_set() == stale_names(old(self)@, now, timeout),
    {
        let ghost old_entries = self.entries@;
        proof {
            lemma_entries_map(old_entries);
        }
        let mut kept: Vec<(String, u128)> = Vec::new();
        let mut stale: Vec<String> = Vec::new();
        let ghost mut kept_src: Seq<int> = Seq::empty();
        let ghost mut stale_src: Seq<int> = Seq::empty();
        let mut i: usize = 0;
        while i < self.entries.len()
            invariant
                self.entries@ == old_entries,
                distinct_keys(old_entries),
                i <= old_entries.len(),
                kept_src.len() == kept@.len(),
                stale_src.len() == stale@.len(),
                forall|a: int, b: int| 0 <= a < b < kept_src.len() ==> kept_src[a] < kept_src[b],
                forall|a: int, b: int| 0 <= a < b < stale_src.len() ==> stale_src[a] < stale_src[b],
                forall|a: int| 0 <= a < kept_src.len() ==> 0 <= #[trigger] kept_src[a] < i
                    && kept@[a] == old_entries[kept_src[a]]
                    && !is_stale(old_entries[kept_src[a]].1, now, timeout),
                forall|a: int| 0 <= a < stale_src.len() ==> 0 <= #[trigger] stale_src[a] < i
                    && stale@[a]@ == old_entries[stale_src[a]].0@
                    && is_stale(old_entries[stale_src[a]].1, now, timeout),
                forall|j: int| 0 <= j < i ==> (is_stale(#[trigger] old_entries[j].1, now, timeout)
                    ==> exists|a: int| 0 <= a < stale_src.len() && stale_src[a] == j)
                    && (!is_stale(old_entries[j].1, now, timeout)
                    ==> exists|a: int| 0 <= a < kept_src.len() && kept_src[a] == j),
            decreases old_entries.len() - i,
        {
            let ghost prev_stale = stale_src;
            let ghost prev_kept = kept_src;
            let last_seen = self.entries[i].1;
            let name = self.entries[i].0.clone();
            if now > last_seen && now - last_seen > timeout {
                stale.push(name);
                proof {
                    stale_src = stale_src.push(i as int);
                }
            } else {
                kept.push((name, last_seen));
                proof {
                    kept_src = kept_src.push(i as int);
                }
            }
            proof {
                assert forall|j: int| 0 <= j < i + 1 implies (is_stale(#[trigger] old_entries[j].1, now, timeout)
                    ==> exists|a: int| 0 <= a < stale_src.len() && stale_src[a] == j)
                    && (!is_stale(old_entries[j].1, now, timeout)
                    ==> exists|a: int| 0 <= a < kept_src.len() && kept_src[a] == j) by {
                    if j == i {
                        if is_stale(old_entries[j].1, now, timeout) {
                            assert(stale_src[stale_src.len() - 1] == j);
                        } else {
                            assert(kept_src[kept_src.len() - 1] == j);
                        }
                    } else if is_stale(old_entries[j].1, now, timeout) {
                        let a = choose|a: int| 0 <= a < prev_stale.len() && prev_stale[a] == j;
                        assert(stale_src[a] == j);
                    } else {
                        let a = choose|a: int| 0 <= a < prev_kept.len() && prev_kept[a] == j;
                        assert(kept_src[a] == j);
                    }
                }
            }
            i = i + 1;
        }
        let ghost k = kept@;
        let ghost st = names_view(stale@);
        assert(distinct_keys(k)) by {
            assert forall|a: int, b: int| 0 <= a < b < k.len() implies (#[trigger] k[a]).0@ != (#[trigger] k[b]).0@ by {
                assert(kept_src[a] < kept_src[b]);
            }
        }
        proof {
            lemma_entries_map(k);
        }
        let ghost m = entries_map(old_entries);
        assert(entries_map(k) =~= fresh_part(m, now, timeout)) by {
            assert forall|q: Seq<char>| #[trigger] entries_map(k).dom().contains(q)
                <==> fresh_part(m, now, timeout).dom().contains(q) by {
                if entries_map(k).dom().contains(q) {
                    let a = choose|a: int| 0 <= a < k.len() && (#[trigger] k[a]).0@ == q;
                    let j = kept_src[a];
                    assert(old_entries[j].0@ == q);
                }
                if fresh_part(m, now, timeout).dom().contains(q) {
                    let j = choose|j: int| 0 <= j < old_entries.len() && (#[trigger] old_entries[j]).0@ == q;
                    assert(!is_stale(old_entries[j].1, now, timeout));
                    let a = choose|a: int| 0 <= a < kept_src.len() && kept_src[a] == j;
                    assert(k[a].0@ == q);
                }
            }
            assert forall|q: Seq<char>| #[trigger] entries_map(k).dom().contains(q)
                implies entries_map(k)[q] == fresh_part(m, now, timeout)[q] by {
                let a = choose|a: int| 0 <= a < k.len() && (#[trigger] k[a]).0@ == q;
                let j = kept_src[a];
                assert(old_entries[j].0@ == q);
            }
        }
        assert(st.no_duplicates()) by {
            assert forall|a: int, b: int| 0 <= a < st.len() && 0 <= b < st.len() && a != b implies st[a] != st[b] by {
                if a < b {
                    assert(stale_src[a] < stale_src[b]);
                } else {
                    assert(stale_src[b] < stale_src[a]);
                }
            }
        }
        assert(st.to_set() =~= stale_names(m, now, timeout)) by {
            assert forall|q: Seq<char>| #[trigger] st.to_set().contains(q) <==> stale_names(m, now, timeout).contains(q) by {
                if st.to_set().contains(q) {
                    assert(st.contains(q));
                    let a = choose|a: int| 0 <= a < st.len() && st[a] == q;
                    let j = stale_src[a];
                    assert(old_entries[j].0@ == q);
                }
                if stale_names(m, now, timeout).contains(q) {
                    let j = choose|j: int| 0 <= j < old_entries.len() && (#[trigger] old_entries[j]).0@ == q;
                    assert(is_stale(old_entries[j].1, now, timeout));
                    let a = choose|a: int| 0 <= a < stale_src.len() && stale_src[a] == j;
                    assert(st[a] == q);
                    assert(st.contains(q));
                }
            }
        }
        self.entries = kept;
        stale
    }
}

/// What a table gives back for a name is what was last stored for it:
/// after storing `v` under `k`, `k` has `v`, and every other name keeps
/// its value.
pub proof fn lemma_get_after_insert<V>(m: Map<Seq<char>, V>, k: Seq<char>, v: V, other: Seq<char>)
    ensures
        m.insert(k, v).dom().contains(k),
        m.insert(k, v)[k] == v,
        other != k ==> (m.insert(k, v).dom().contains(other) == m.dom().contains(other)),
        other != k && m.dom().contains(other) ==> m.insert(k, v)[other] == m[other],
{
}

/// After a name is removed it is no longer in the table, and every other
/// name keeps its value.
pub proof fn lemma_get_after_remove<V>(m: Map<Seq<char>, V>, k: Seq<char>, other: Seq<char>)
    ensures
        !m.remove(k).dom().contains(k),
        other != k ==> (m.remove(k).dom().contains(other) == m.dom().contains(other)),
        other != k && m.dom().contains(other) ==> m.remove(k)[other] == m[other],
{
}

/// Removing the stale peers splits the table: every name is either kept
/// with its time or reported as stale, never both; a cleanup at the same
/// time right after finds nothing more to remove; a peer heard from within
/// the timeout is kept; and a peer heard from at `now` is not stale at `now`.
pub proof fn lemma_cleanup_partition(m: Map<Seq<char>, u128>, now: u128, timeout: u128, k: Seq<char>)
    ensures
        m.dom().contains(k) ==> (fresh_part(m, now, timeout).dom().contains(k) != stale_names(m, now, timeout).contains(k)),
        fresh_part(m, now, timeout).dom().contains(k) ==> fresh_part(m, now, timeout)[k] == m[k],
        !m.dom().contains(k) ==> !fresh_part(m, now, timeout).dom().contains(k) && !stale_names(m, now, timeout).contains(k),
        stale_names(fresh_part(m, now, timeout), now, timeout) == Set::<Seq<char>>::empty(),
        fresh_part(fresh_part(m, now, timeout), now, timeout) == fresh_part(m, now, timeout),
        m.dom().contains(k) && now <= m[k] + timeout ==> fresh_part(m, now, timeout).dom().contains(k),
        !stale_names(m.insert(k, now), now, timeout).contains(k),
{
    let f = fresh_part(m, now, timeout);
    assert(stale_names(f, now, timeout) =~= Set::<Seq<char>>::empty());
    assert(fresh_part(f, now, timeout) =~= f);
}

/// The map of distinct entries has as many names as there are entries.
proof fn lemma_distinct_len<V>(s: Seq<(String, V)>)
    requires
        distinct_keys(s),
    ensures
        entries_map(s).len() == s.len(),
        entries_map(s).dom().finite(),
    decreases s.len(),
{
    if s.len() > 0 {
        let t = s.drop_last();
        assert forall|i: int, j: int| 0 <= i < j < t.len() implies (#[trigger] t[i]).0@ != (#[trigger] t[j]).0@ by {
            assert(t[i] == s[i] && t[j] == s[j]);
        }
        lemma_distinct_len(t);
        lemma_entries_map(t);
        assert(!entries_map(t).dom().contains(s.last().0@)) by {
            if entries_map(t).dom().contains(s.last().0@) {
                let i = choose|i: int| 0 <= i < t.len() && (#[trigger] t[i]).0@ == s.last().0@;
                assert(t[i] == s[i]);
                assert(s[i].0@ != s[s.len() - 1].0@);
            }
        }
    }
}

} // verus!
