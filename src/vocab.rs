//! The vocabulary: words and their dense indices, in first-seen order.

use vstd::prelude::*;
use vstd::hash_map::StringHashMap;

verus! {

/// `ws` after registering `w`: unchanged if `w` is already there, else `w`
/// appended with the next index.
pub open spec fn with_word(ws: Seq<Seq<char>>, w: Seq<char>) -> Seq<Seq<char>> {
    if ws.contains(w) {
        ws
    } else {
        ws.push(w)
    }
}

/// A persisted vocabulary record: a word and its index.
pub open spec fn entry_view(e: (String, usize)) -> (Seq<char>, int) {
    (e.0@, e.1 as int)
}

/// The records of a persisted vocabulary, as words and indices.
pub open spec fn entry_views(es: Seq<(String, usize)>) -> Seq<(Seq<char>, int)> {
    es.map_values(|e: (String, usize)| entry_view(e))
}

/// Records that describe a vocabulary: every index is below the number of
/// records, no index and no word occurs twice, and every index below the
/// number of records is used.
pub open spec fn valid_entries(es: Seq<(Seq<char>, int)>) -> bool {
    &&& forall|k: int| 0 <= k < es.len() ==> (#[trigger] es[k]).1 < es.len()
    &&& forall|k: int, l: int|
        0 <= k < es.len() && 0 <= l < es.len() && (#[trigger] es[k]).1 == (#[trigger] es[l]).1 ==> k == l
    &&& forall|k: int, l: int|
        0 <= k < es.len() && 0 <= l < es.len() && (#[trigger] es[k]).0 == (#[trigger] es[l]).0 ==> k == l
    &&& forall|i: int| 0 <= i < es.len() ==> #[trigger] carries_index(es, i)
}

/// Some record carries index `i`.
pub open spec fn carries_index(es: Seq<(Seq<char>, int)>, i: int) -> bool {
    exists|k: int| 0 <= k < es.len() && es[k].1 == i
}

/// The record that carries index `i`.
pub open spec fn entry_with_index(es: Seq<(Seq<char>, int)>, i: int) -> int {
    choose|k: int| 0 <= k < es.len() && es[k].1 == i
}

/// The words that valid records describe, ordered by index.
pub open spec fn words_of_entries(es: Seq<(Seq<char>, int)>) -> Seq<Seq<char>> {
    Seq::new(es.len(), |i: int| es[entry_with_index(es, i)].0)
}

/// The records of a vocabulary, in index order.
pub open spec fn entries_of(ws: Seq<Seq<char>>) -> Seq<(Seq<char>, int)> {
    Seq::new(ws.len(), |i: int| (ws[i], i))
}

/// Words with dense indices `0..len`, each index given to the first word
/// registered after the previous ones. Entries are never removed.
pub struct Vocabulary {
    index: StringHashMap<usize>,
    words: Vec<String>,
}

impl View for Vocabulary {
    type V = Seq<Seq<char>>;

    /// The words, by index.
    closed spec fn view(&self) -> Seq<Seq<char>> {
        self.words@.map_values(|s: String| s@)
    }
}

impl Vocabulary {
    /// The index map and the word list agree.
    pub closed spec fn wf(&self) -> bool {
        &&& forall|i: int|
            0 <= i < self.words@.len() ==> #[trigger] self.index@.contains_key(self.words@[i]@)
                && self.index@[self.words@[i]@] == i
        &&& forall|w: Seq<char>|
            #[trigger] self.index@.contains_key(w) ==> self.index@[w] < self.words@.len()
                && self.words@[self.index@[w] as int]@ == w
    }

    /// A well-formed vocabulary holds no word twice.
    pub proof fn lemma_distinct(&self)
        requires
            self.wf(),
        ensures
            self@.no_duplicates(),
    {
        assert forall|i: int, j: int|
            0 <= i < self@.len() && 0 <= j < self@.len() && i != j implies self@[i] != self@[j] by {
            assert(self@[i] == self.words@[i]@);
            assert(self@[j] == self.words@[j]@);
            assert(self.index@.contains_key(self.words@[i]@));
            assert(self.index@.contains_key(self.words@[j]@));
        }
    }

    /// An empty vocabulary.
    pub fn new() -> (r: Self)
        ensures
            r.wf(),
            r@ == Seq::<Seq<char>>::empty(),
    {
        let r = Vocabulary { index: StringHashMap::new(), words: Vec::new() };
        assert(r@ =~= Seq::<Seq<char>>::empty());
        r
    }

    /// Number of words.
    pub fn len(&self) -> (r: usize)
        requires
            self.wf(),
        ensures
            r == self@.len(),
    {
        self.words.len()
    }

    /// The word at index `i`.
    pub fn word(&self, i: usize) -> (r: &String)
        requires
            self.wf(),
            i < self@.len(),
        ensures
            r@ == self@[i as int],
    {
        &self.words[i]
    }

    /// The index of `w`, if it is registered.
    pub fn lookup(&self, w: &str) -> (r: Option<usize>)
        requires
            self.wf(),
        ensures
            r matches Some(i) ==> i < self@.len() && self@[i as int] == w@,
            r is None <==> !self@.contains(w@),
    {
        match self.index.get(w) {
            Some(i) => {
                assert(self@[*i as int] == w@);
                Some(*i)
            },
            None => {
                proof {
                    if self@.contains(w@) {
                        let k = self@.index_of(w@);
                        assert(self.words@[k]@ == w@);
                    }
                }
                None
            },
        }
    }

    /// The index of `w`, registering it first if it is new.
    pub fn ensure(&mut self, w: &str) -> (r: usize)
        requires
            old(self).wf(),
        ensures
            final(self).wf(),
            final(self)@ == with_word(old(self)@, w@),
            r < final(self)@.len(),
            final(self)@[r as int] == w@,
    {
        match self.index.get(w) {
            Some(i) => {
                let i = *i;
                assert(self.words@[i as int]@ == w@);
                assert(self@.contains(w@)) by {
                    assert(self@[i as int] == w@);
                }
                i
            },
            None => {
                let ghost old_words = self.words@;
                proof {
                    if self@.contains(w@) {
                        let k = self@.index_of(w@);
                        assert(self.words@[k]@ == w@);
                    }
                }
                let i = self.words.len();
                let key = w.to_owned();
                let stored = key.clone();
                self.index.insert(key, i);
                self.words.push(stored);
                assert(self@ =~= old(self)@.push(w@));
                assert forall|j: int| 0 <= j < self.words@.len() implies
                    #[trigger] self.index@.contains_key(self.words@[j]@)
                        && self.index@[self.words@[j]@] == j by {
                    if j < i {
                        assert(self.words@[j] == old_words[j]);
                        assert(old_words[j]@ != w@) by {
                            assert(old(self)@[j] == old_words[j]@);
                        }
                    }
                }
                i
            },
        }
    }

    /// The vocabulary's records, in index order.
    pub fn entries(&self) -> (r: Vec<(String, usize)>)
        requires
            self.wf(),
        ensures
            entry_views(r@) == entries_of(self@),
    {
        let mut out: Vec<(String, usize)> = Vec::new();
        let mut i: usize = 0;
        while i < self.words.len()
            invariant
                i <= self.words@.len(),
                entry_views(out@) =~= entries_of(self@).take(i as int),
            decreases self.words.len() - i,
        {
            out.push((self.words[i].clone(), i));
            assert(entries_of(self@).take(i as int + 1) =~= entries_of(self@).take(i as int).push(
                (self@[i as int], i as int),
            ));
            assert(entry_views(out@) =~= entry_views(out@.drop_last()).push(entry_view(out@.last())));
            i = i + 1;
        }
        assert(entries_of(self@).take(i as int) =~= entries_of(self@));
        out
    }
    /// The vocabulary that persisted records describe, or `None` when they
    /// describe none (an index out of range, an index or a word twice, an
    /// index missing).
    pub fn from_entries(es: &Vec<(String, usize)>) -> (r: Option<Vocabulary>)
        ensures
            r is Some <==> valid_entries(entry_views(es@)),
            r matches Some(v) ==> v.wf() && v@ == words_of_entries(entry_views(es@)),
    {
        let ghost ev = entry_views(es@);
        let n = es.len();
        let mut slot: Vec<usize> = vec![n; n];
        let mut k: usize = 0;
        while k < n
            invariant
                n == es@.len(),
                ev == entry_views(es@),
                ev.len() == n,
                k <= n,
                slot@.len() == n,
                forall|i: int| 0 <= i < n ==> (#[trigger] slot@[i] == n || (slot@[i] < k && ev[slot@[i] as int].1 == i)),
                forall|j: int| 0 <= j < k ==> (#[trigger] ev[j]).1 < n && slot@[ev[j].1 as int] == j,
            decreases n - k,
        {
            let idx = es[k].1;
            assert(ev[k as int] == entry_view(es@[k as int]));
            if idx >= n {
                return None;
            }
            if slot[idx] != n {
                let other = slot[idx];
                assert(ev[other as int].1 == ev[k as int].1);
                return None;
            }
            slot.set(idx, k);
            k = k + 1;
        }
        // every index is carried, and by exactly one record
        let mut i: usize = 0;
        while i < n
            invariant
                n == es@.len(),
                ev == entry_views(es@),
                ev.len() == n,
                i <= n,
                slot@.len() == n,
                forall|i: int| 0 <= i < n ==> (#[trigger] slot@[i] == n || (slot@[i] < n && ev[slot@[i] as int].1 == i)),
                forall|j: int| 0 <= j < n ==> (#[trigger] ev[j]).1 < n && slot@[ev[j].1 as int] == j,
                forall|j: int| 0 <= j < i ==> #[trigger] slot@[j] < n,
            decreases n - i,
        {
            if slot[i] == n {
                assert(!carries_index(ev, i as int)) by {
                    if carries_index(ev, i as int) {
                        let j = choose|j: int| 0 <= j < ev.len() && ev[j].1 == i;
                        assert(slot@[ev[j].1 as int] == j);
                    }
                }
                return None;
            }
            i = i + 1;
        }
        proof {
            assert forall|k: int, l: int|
                0 <= k < ev.len() && 0 <= l < ev.len() && (#[trigger] ev[k]).1 == (#[trigger] ev[l]).1 implies k == l by {
                assert(slot@[ev[k].1 as int] == k);
                assert(slot@[ev[l].1 as int] == l);
            }
        }
        let mut v = Vocabulary::new();
        let mut i: usize = 0;
        while i < n
            invariant
                n == es@.len(),
                ev == entry_views(es@),
                ev.len() == n,
                i <= n,
                slot@.len() == n,
                forall|i: int| 0 <= i < n ==> (#[trigger] slot@[i] < n && ev[slot@[i] as int].1 == i),
                forall|j: int| 0 <= j < n ==> (#[trigger] ev[j]).1 < n && slot@[ev[j].1 as int] == j,
                v.wf(),
                v@ == words_of_entries(ev).take(i as int),
            decreases n - i,
        {
            let k = slot[i];
            assert(ev[k as int] == entry_view(es@[k as int]));
            let w = &es[k].0;
            proof {
                let c = entry_with_index(ev, i as int);
                assert(ev[slot@[i as int] as int].1 == i);
                assert(0 <= c < ev.len() && ev[c].1 == i);
                assert(slot@[ev[c].1 as int] == c);
            }
            assert(words_of_entries(ev)[i as int] == w@);
            if v.lookup(w.as_str()).is_some() {
                proof {
                    let j = v@.index_of(w@);
                    assert(0 <= j < i);
                    assert(v@[j] == words_of_entries(ev)[j]);
                    let kj = slot@[j];
                    let c = entry_with_index(ev, j);
                    assert(ev[slot@[j] as int].1 == j);
                    assert(slot@[ev[c].1 as int] == c);
                    assert(ev[kj as int].0 == ev[k as int].0);
                    assert(kj != k);
                }
                return None;
            }
            v.ensure(w.as_str());
            assert(v@ =~= words_of_entries(ev).take(i as int + 1));
            i = i + 1;
        }
        assert(v@ =~= words_of_entries(ev));
        proof {
            v.lemma_distinct();
            assert forall|k: int, l: int|
                0 <= k < ev.len() && 0 <= l < ev.len() && (#[trigger] ev[k]).0 == (#[trigger] ev[l]).0 implies k == l by {
                let ck = entry_with_index(ev, ev[k].1 as int);
                let cl = entry_with_index(ev, ev[l].1 as int);
                assert(slot@[ev[k].1 as int] == k);
                assert(slot@[ev[l].1 as int] == l);
                assert(ev[slot@[ev[k].1 as int] as int].1 == ev[k].1);
                assert(slot@[ev[ck].1 as int] == ck);
                assert(slot@[ev[cl].1 as int] == cl);
                assert(v@[ev[k].1 as int] == ev[k].0);
                assert(v@[ev[l].1 as int] == ev[l].0);
            }
            assert forall|i: int| 0 <= i < ev.len() implies #[trigger] carries_index(ev, i) by {
                assert(ev[slot@[i] as int].1 == i);
            }
        }
        Some(v)
    }
}

/// Persisting a vocabulary and loading it back restores it exactly: its
/// records are valid, and they describe the same words at the same indices.
pub proof fn lemma_entries_round_trip(v: &Vocabulary)
    requires
        v.wf(),
    ensures
        valid_entries(entries_of(v@)),
        words_of_entries(entries_of(v@)) == v@,
{
    v.lemma_distinct();
    let ws = v@;
    let es = entries_of(ws);
    assert forall|k: int, l: int|
        0 <= k < es.len() && 0 <= l < es.len() && (#[trigger] es[k]).0 == (#[trigger] es[l]).0 implies k == l by {
        assert(ws[k] == ws[l]);
    }
    assert forall|i: int| 0 <= i < es.len() implies #[trigger] carries_index(es, i) by {
        assert(es[i].1 == i);
    }
    assert forall|i: int| 0 <= i < ws.len() implies words_of_entries(es)[i] == ws[i] by {
        let c = entry_with_index(es, i);
        assert(es[i].1 == i);
        assert(es[c].1 == i);
    }
    assert(words_of_entries(es) =~= ws);
}

} // verus!
