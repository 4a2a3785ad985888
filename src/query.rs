//! Which vocabulary entries a query reads: the words it names, resolved to
//! indices, and the candidates it ranks.

use vstd::prelude::*;
use crate::text::{to_upper, upper_of, views};
use crate::vocab::Vocabulary;

verus! {

/// The index of the upper-cased `word` in `ws`, if it is there.
pub open spec fn find_of(ws: Seq<Seq<char>>, word: Seq<char>) -> Option<int> {
    if ws.contains(upper_of(word)) {
        Some(ws.index_of(upper_of(word)))
    } else {
        None
    }
}

/// Whether an index lies outside `skip`.
pub open spec fn outside(skip: Set<int>) -> spec_fn(int) -> bool {
    |i: int| !skip.contains(i)
}

/// Every index below `n` except those in `skip`, ascending.
pub open spec fn indices_except(n: int, skip: Set<int>) -> Seq<int> {
    Seq::new(n as nat, |i: int| i).filter(outside(skip))
}

/// The indices of a list of `usize`.
pub open spec fn ints(v: Seq<usize>) -> Seq<int> {
    v.map_values(|i: usize| i as int)
}

/// The index of a word, looked up upper-cased, as every query does.
pub fn find_word(vocab: &Vocabulary, word: &str) -> (r: Option<usize>)
    requires
        vocab.wf(),
    ensures
        match find_of(vocab@, word@) {
            None => r is None,
            Some(i) => r matches Some(x) && x as int == i,
        },
{
    let u = to_upper(word);
    let r = vocab.lookup(u.as_str());
    proof {
        vocab.lemma_distinct();
        if let Some(i) = r {
            assert(vocab@.contains(u@));
        }
    }
    r
}

fn all_except(n: usize, skip: &[usize]) -> (r: Vec<usize>)
    ensures
        ints(r@) == indices_except(n as int, ints(skip@).to_set()),
{
    let ghost s = ints(skip@).to_set();
    let ghost all = Seq::new(n as nat, |i: int| i);
    let mut out: Vec<usize> = Vec::new();
    let mut i: usize = 0;
    while i < n
        invariant
            i <= n,
            all == Seq::new(n as nat, |i: int| i),
            s == ints(skip@).to_set(),
            ints(out@) == all.take(i as int).filter(outside(s)),
        decreases n - i,
    {
        let mut skipped = false;
        let mut j: usize = 0;
        while j < skip.len()
            invariant
                j <= skip@.len(),
                skipped == exists|k: int| 0 <= k < j && skip@[k] == i,
            decreases skip.len() - j,
        {
            if skip[j] == i {
                skipped = true;
            }
            j = j + 1;
        }
        proof {
            if skipped {
                let k = choose|k: int| 0 <= k < skip@.len() && skip@[k] == i;
                assert(ints(skip@)[k] == i as int);
            } else {
                if s.contains(i as int) {
                    assert(ints(skip@).contains(i as int));
                    let k = choose|k: int| 0 <= k < ints(skip@).len() && ints(skip@)[k] == i as int;
                    assert(ints(skip@)[k] == skip@[k] as int);
                    assert(false);
                }
            }
            assert(all.take(i as int + 1) =~= all.take(i as int).push(i as int));
            all.take(i as int).lemma_filter_push(i as int, outside(s));
        }
        if !skipped {
            let ghost before = out@;
            out.push(i);
            assert(ints(out@) =~= ints(before).push(i as int));
        }
        i = i + 1;
    }
    assert(all.take(n as int) =~= all);
    out
}

/// The query and candidate indices of a similarity query on `word`: `None`
/// when the word is unknown, else its index and every other index, ascending.
pub fn similarity_candidates(vocab: &Vocabulary, word: &str) -> (r: Option<(usize, Vec<usize>)>)
    requires
        vocab.wf(),
    ensures
        match find_of(vocab@, word@) {
            None => r is None,
            Some(q) => r matches Some((i, cs)) && i == q
                && ints(cs@) == indices_except(vocab@.len() as int, set![q]),
        },
{
    match find_word(vocab, word) {
        None => None,
        Some(q) => {
            let skip = vec![q];
            let cs = all_except(vocab.len(), skip.as_slice());
            assert(ints(skip@).to_set() =~= set![q as int]) by {
                assert(ints(skip@) =~= seq![q as int]);
                assert(seq![q as int].to_set() =~= set![q as int]) by {
                    assert(seq![q as int][0] == q as int);
                }
            }
            Some((q, cs))
        },
    }
}

/// The indices of `a`, `b` and `c` in an analogy query, and the candidates it
/// ranks: `None` when any of the three is unknown, else every index but theirs.
pub fn analogy_candidates(vocab: &Vocabulary, a: &str, b: &str, c: &str)
    -> (r: Option<(usize, usize, usize, Vec<usize>)>)
    requires
        vocab.wf(),
    ensures
        match (find_of(vocab@, a@), find_of(vocab@, b@), find_of(vocab@, c@)) {
            (Some(ia), Some(ib), Some(ic)) => r matches Some((ra, rb, rc, cs)) && ra == ia && rb == ib
                && rc == ic && ints(cs@) == indices_except(vocab@.len() as int, set![ia, ib, ic]),
            _ => r is None,
        },
{
    let ia = match find_word(vocab, a) {
        Some(i) => i,
        None => return None,
    };
    let ib = match find_word(vocab, b) {
        Some(i) => i,
        None => return None,
    };
    let ic = match find_word(vocab, c) {
        Some(i) => i,
        None => return None,
    };
    let skip = vec![ia, ib, ic];
    let cs = all_except(vocab.len(), skip.as_slice());
    assert(ints(skip@).to_set() =~= set![ia as int, ib as int, ic as int]) by {
        let sq = ints(skip@);
        assert(sq =~= seq![ia as int, ib as int, ic as int]);
        assert forall|x: int| sq.to_set().contains(x) <==> set![ia as int, ib as int, ic as int].contains(x) by {
            if x == ia as int { assert(sq[0] == x); }
            if x == ib as int { assert(sq[1] == x); }
            if x == ic as int { assert(sq[2] == x); }
        }
    }
    Some((ia, ib, ic, cs))
}

/// The positions and indices of the known words among `words`, in order.
pub open spec fn known_of(ws: Seq<Seq<char>>, words: Seq<Seq<char>>) -> Seq<(int, int)>
    decreases words.len(),
{
    if words.len() == 0 {
        Seq::empty()
    } else {
        let prev = known_of(ws, words.drop_last());
        match find_of(ws, words.last()) {
            Some(i) => prev.push(((words.len() - 1) as int, i)),
            None => prev,
        }
    }
}

/// Position and index pairs as integers.
pub open spec fn int_pairs(v: Seq<(usize, usize)>) -> Seq<(int, int)> {
    v.map_values(|p: (usize, usize)| (p.0 as int, p.1 as int))
}

/// The words of `words` that are known, each as its position in `words` and
/// its vocabulary index, in order; unknown words are left out.
pub fn known_words(vocab: &Vocabulary, words: &[String]) -> (r: Vec<(usize, usize)>)
    requires
        vocab.wf(),
    ensures
        int_pairs(r@) == known_of(vocab@, views(words@)),
{
    let mut out: Vec<(usize, usize)> = Vec::new();
    let mut j: usize = 0;
    while j < words.len()
        invariant
            vocab.wf(),
            j <= words@.len(),
            int_pairs(out@) == known_of(vocab@, views(words@).take(j as int)),
        decreases words.len() - j,
    {
        let ghost next = views(words@).take(j as int + 1);
        assert(next.drop_last() =~= views(words@).take(j as int));
        assert(next.last() == words@[j as int]@);
        match find_word(vocab, words[j].as_str()) {
            Some(i) => {
                let ghost before = out@;
                out.push((j, i));
                assert(int_pairs(out@) =~= int_pairs(before).push((j as int, i as int)));
            },
            None => {},
        }
        j = j + 1;
    }
    assert(views(words@).take(words@.len() as int) =~= views(words@));
    out
}

} // verus!
