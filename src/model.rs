//! The embedding model's decisions: which words a training call registers,
//! which (target, context) vector pairs it updates and with which weight
//! class, and the deterministic draws that seed new vectors.
//!
//! The vector arithmetic itself is carried out by the caller, pair by pair,
//! in the order given here.

use vstd::prelude::*;
use crate::hashing::{hash_chars, hash_of, indexed_hash, indexed_hash_of};
use crate::text::{chars_of, to_upper, upper_of, views};
use crate::vocab::{Vocabulary, with_word};

verus! {

/// Length of every embedding vector.
pub const EMBEDDING_DIM: usize = 128;

/// Below this many words no noise samples are drawn.
pub const MIN_VOCAB_FOR_NOISE: usize = 10;

/// A common word is skipped when its hash modulo this is below `SKIP_BELOW`.
pub const SKIP_MODULUS: u64 = 100;

/// See `SKIP_MODULUS`.
pub const SKIP_BELOW: u64 = 80;

/// Initial-vector draws are integers below this.
pub const INIT_DRAW_RANGE: u64 = 1000;

/// How a context vector is paired with the target in one update.
#[derive(Clone, Copy, Debug, PartialEq, Eq, Structural)]
pub enum PairKind {
    /// A word seen near the target: pulled towards it.
    Context,
    /// A declared opposite: pushed away with the strongest weight.
    Antonym,
    /// A sampled word: pushed away with the weakest weight.
    Noise,
}

/// One update between the target vector and the context vector at `context`.
#[derive(Clone, Copy, Debug, PartialEq, Eq, Structural)]
pub struct PairUpdate {
    pub context: usize,
    pub kind: PairKind,
}

/// What one training call does: the target's index and its pair updates, in order.
pub struct TrainPlan {
    pub target: usize,
    pub updates: Vec<PairUpdate>,
}

/// The common words, letter by letter.
pub open spec fn word_the() -> Seq<char> { seq!['T', 'H', 'E'] }
pub open spec fn word_and() -> Seq<char> { seq!['A', 'N', 'D'] }
pub open spec fn word_for() -> Seq<char> { seq!['F', 'O', 'R'] }
pub open spec fn word_that() -> Seq<char> { seq!['T', 'H', 'A', 'T'] }
pub open spec fn word_this() -> Seq<char> { seq!['T', 'H', 'I', 'S'] }
pub open spec fn word_with() -> Seq<char> { seq!['W', 'I', 'T', 'H'] }
pub open spec fn word_from() -> Seq<char> { seq!['F', 'R', 'O', 'M'] }
pub open spec fn word_was() -> Seq<char> { seq!['W', 'A', 'S'] }
pub open spec fn word_were() -> Seq<char> { seq!['W', 'E', 'R', 'E'] }

/// The common words whose training is damped.
pub open spec fn is_common(w: Seq<char>) -> bool {
    w == word_the() || w == word_and() || w == word_for() || w == word_that() || w == word_this()
        || w == word_with() || w == word_from() || w == word_was() || w == word_were()
}

/// A common word is skipped for four hash values in five.
pub open spec fn damped(w: Seq<char>) -> bool {
    is_common(w) && hash_of(w) % (SKIP_MODULUS as u64) < SKIP_BELOW
}

/// Whether two character slices are equal.
pub(crate) fn same_chars(cs: &[char], lit: &[char]) -> (r: bool)
    ensures
        r == (cs@ == lit@),
{
    if cs.len() != lit.len() {
        return false;
    }
    let mut i: usize = 0;
    while i < cs.len()
        invariant
            i <= cs@.len(),
            cs@.len() == lit@.len(),
            forall|k: int| 0 <= k < i ==> cs@[k] == lit@[k],
        decreases cs.len() - i,
    {
        if cs[i] != lit[i] {
            return false;
        }
        i = i + 1;
    }
    assert(cs@ =~= lit@);
    true
}

fn common_word(cs: &[char]) -> (r: bool)
    ensures
        r == is_common(cs@),
{
    let the = ['T', 'H', 'E'];
    let and = ['A', 'N', 'D'];
    let for_ = ['F', 'O', 'R'];
    let that = ['T', 'H', 'A', 'T'];
    let this = ['T', 'H', 'I', 'S'];
    let with = ['W', 'I', 'T', 'H'];
    let from = ['F', 'R', 'O', 'M'];
    let was = ['W', 'A', 'S'];
    let were = ['W', 'E', 'R', 'E'];
    assert(the@ =~= word_the());
    assert(and@ =~= word_and());
    assert(for_@ =~= word_for());
    assert(that@ =~= word_that());
    assert(this@ =~= word_this());
    assert(with@ =~= word_with());
    assert(from@ =~= word_from());
    assert(was@ =~= word_was());
    assert(were@ =~= word_were());
    same_chars(cs, &the) || same_chars(cs, &and) || same_chars(cs, &for_) || same_chars(cs, &that)
        || same_chars(cs, &this) || same_chars(cs, &with) || same_chars(cs, &from)
        || same_chars(cs, &was) || same_chars(cs, &were)
}

/// Whether training on the (upper-cased) word `w` is skipped this time: only
/// common words are, by a fixed draw on their hash.
pub fn should_skip(w: &str) -> (r: bool)
    ensures
        r == damped(w@),
{
    let cs = chars_of(w);
    common_word(cs.as_slice()) && hash_chars(cs.as_slice()) % SKIP_MODULUS < SKIP_BELOW
}

/// Registers the upper-cased `u` unless it is damped; yields the vocabulary
/// after it and the update it contributes, if any.
pub open spec fn context_step(ws: Seq<Seq<char>>, t: int, u: Seq<char>, kind: PairKind, damp: bool)
    -> (Seq<Seq<char>>, Option<PairUpdate>)
{
    if damp && damped(u) {
        (ws, None)
    } else {
        let ws2 = with_word(ws, u);
        let c = ws2.index_of(u);
        if c == t {
            (ws2, None)
        } else {
            (ws2, Some(PairUpdate { context: c as usize, kind }))
        }
    }
}

/// Walks the context words `cs` in order from vocabulary `ws`: each is
/// upper-cased, skipped if `damp` and it is damped, registered, and paired
/// with the target `t` unless it is the target.
pub open spec fn context_pass(ws: Seq<Seq<char>>, t: int, cs: Seq<Seq<char>>, kind: PairKind, damp: bool)
    -> (Seq<Seq<char>>, Seq<PairUpdate>)
    decreases cs.len(),
{
    if cs.len() == 0 {
        (ws, Seq::empty())
    } else {
        let (ws1, us1) = context_pass(ws, t, cs.drop_last(), kind, damp);
        let (ws2, u) = context_step(ws1, t, upper_of(cs.last()), kind, damp);
        match u {
            Some(p) => (ws2, us1.push(p)),
            None => (ws2, us1),
        }
    }
}

/// The index of the `i`-th noise sample for word `w` among `n` words.
pub open spec fn noise_index(w: Seq<char>, i: int, n: int) -> int {
    (indexed_hash_of(w, i as u64) % (n as u64)) as int
}

/// The first `k` noise samples for `w` among `n` words, without those that
/// fall on the target `t`.
pub open spec fn noise_pass(w: Seq<char>, t: int, n: int, k: int) -> Seq<PairUpdate>
    decreases k,
{
    if k <= 0 {
        Seq::empty()
    } else {
        let prev = noise_pass(w, t, n, k - 1);
        let r = noise_index(w, k - 1, n);
        if r == t {
            prev
        } else {
            prev.push(PairUpdate { context: r as usize, kind: PairKind::Noise })
        }
    }
}

/// What a training call on `word` with context words `pos`, opposites `neg`
/// and `k` noise samples does to vocabulary `ws`: `None` when the word is
/// damped, else the new vocabulary, the target index and the pair updates.
pub open spec fn train_outcome(
    ws: Seq<Seq<char>>,
    word: Seq<char>,
    pos: Seq<Seq<char>>,
    neg: Seq<Seq<char>>,
    k: int,
) -> Option<(Seq<Seq<char>>, int, Seq<PairUpdate>)> {
    let w = upper_of(word);
    if damped(w) {
        None
    } else {
        let ws0 = with_word(ws, w);
        let t = ws0.index_of(w);
        let (ws1, u1) = context_pass(ws0, t, pos, PairKind::Context, true);
        let (ws2, u2) = context_pass(ws1, t, neg, PairKind::Antonym, false);
        let u3 = if k > 0 && ws2.len() > MIN_VOCAB_FOR_NOISE {
            noise_pass(w, t, ws2.len() as int, k)
        } else {
            Seq::empty()
        };
        Some((ws2, t, u1 + u2 + u3))
    }
}

/// In a vocabulary without duplicates, the index `ensure` returns is the
/// position of the word.
proof fn lemma_index_is_position(v: &Vocabulary, r: int, w: Seq<char>)
    requires
        v.wf(),
        0 <= r < v@.len(),
        v@[r] == w,
    ensures
        v@.index_of(w) == r,
{
    v.lemma_distinct();
    assert(v@.contains(w));
}

fn run_context_pass(
    vocab: &mut Vocabulary,
    t: usize,
    cs: &[String],
    kind: PairKind,
    damp: bool,
    updates: &mut Vec<PairUpdate>,
)
    requires
        old(vocab).wf(),
        t < old(vocab)@.len(),
    ensures
        final(vocab).wf(),
        t < final(vocab)@.len(),
        final(vocab)@ == context_pass(old(vocab)@, t as int, views(cs@), kind, damp).0,
        final(updates)@ == old(updates)@ + context_pass(old(vocab)@, t as int, views(cs@), kind, damp).1,
{
    let ghost ws0 = vocab@;
    let ghost us0 = updates@;
    let mut i: usize = 0;
    while i < cs.len()
        invariant
            i <= cs@.len(),
            vocab.wf(),
            t < vocab@.len(),
            vocab@ == context_pass(ws0, t as int, views(cs@).take(i as int), kind, damp).0,
            updates@ == us0 + context_pass(ws0, t as int, views(cs@).take(i as int), kind, damp).1,
        decreases cs.len() - i,
    {
        let ghost pre = views(cs@).take(i as int);
        let ghost next = views(cs@).take(i as int + 1);
        assert(next.drop_last() =~= pre);
        assert(next.last() == cs@[i as int]@);
        let u = to_upper(cs[i].as_str());
        let skip = damp && should_skip(u.as_str());
        if !skip {
            let c = vocab.ensure(u.as_str());
            proof {
                lemma_index_is_position(vocab, c as int, u@);
            }
            if c != t {
                let ghost before = updates@;
                updates.push(PairUpdate { context: c, kind });
                assert(updates@ =~= before.push(PairUpdate { context: c, kind }));
            }
        }
        i = i + 1;
    }
    assert(views(cs@).take(cs@.len() as int) =~= views(cs@));
}

/// Appends the noise samples for the word with characters `wc` to `updates`.
fn run_noise_pass(wc: &[char], t: usize, n: usize, k: usize, updates: &mut Vec<PairUpdate>)
    requires
        n > 0,
    ensures
        final(updates)@ == old(updates)@ + noise_pass(wc@, t as int, n as int, k as int),
{
    let ghost us0 = updates@;
    let mut i: usize = 0;
    while i < k
        invariant
            i <= k,
            n > 0,
            updates@ == us0 + noise_pass(wc@, t as int, n as int, i as int),
        decreases k - i,
    {
        let r = (indexed_hash(wc, i as u64) % (n as u64)) as usize;
        assert(r as int == noise_index(wc@, i as int, n as int));
        if r != t {
            let ghost before = updates@;
            updates.push(PairUpdate { context: r, kind: PairKind::Noise });
            assert(updates@ =~= before.push(PairUpdate { context: r, kind: PairKind::Noise }));
        }
        i = i + 1;
    }
}

/// Plans one training call on `word` with context words `pos`, opposites
/// `neg` and `k` noise samples, registering every word it reaches.
///
/// All words are upper-cased. A damped word ends the call at once (`None`,
/// nothing registered). Otherwise the word is registered; then each context
/// word that is not damped, and each opposite, is registered and paired with
/// the target unless it is the target; then, when `k > 0` and more than ten
/// words are registered, `k` noise indices are drawn and each one that is not
/// the target is paired. Updates come in exactly that order.
pub fn plan_train_step(vocab: &mut Vocabulary, word: &str, pos: &[String], neg: &[String], k: usize)
    -> (r: Option<TrainPlan>)
    requires
        old(vocab).wf(),
    ensures
        final(vocab).wf(),
        match train_outcome(old(vocab)@, word@, views(pos@), views(neg@), k as int) {
            None => r is None && final(vocab)@ == old(vocab)@,
            Some((ws, t, us)) => r matches Some(p) && p.target == t && p.updates@ == us
                && final(vocab)@ == ws,
        },
{
    let w = to_upper(word);
    if should_skip(w.as_str()) {
        return None;
    }
    let t = vocab.ensure(w.as_str());
    proof {
        lemma_index_is_position(vocab, t as int, w@);
    }
    let mut updates: Vec<PairUpdate> = Vec::new();
    run_context_pass(vocab, t, pos, PairKind::Context, true, &mut updates);
    run_context_pass(vocab, t, neg, PairKind::Antonym, false, &mut updates);
    let n = vocab.len();
    if k > 0 && n > MIN_VOCAB_FOR_NOISE {
        let wc = chars_of(w.as_str());
        run_noise_pass(wc.as_slice(), t, n, k, &mut updates);
    }
    proof {
        let ws0 = with_word(old(vocab)@, w@);
        let ti = ws0.index_of(w@);
        let (ws1, u1) = context_pass(ws0, ti, views(pos@), PairKind::Context, true);
        let (ws2, u2) = context_pass(ws1, ti, views(neg@), PairKind::Antonym, false);
        assert(Seq::<PairUpdate>::empty() + u1 =~= u1);
        if !(k > 0 && n > MIN_VOCAB_FOR_NOISE) {
            assert(u1 + u2 + Seq::<PairUpdate>::empty() =~= u1 + u2);
        }
    }
    Some(TrainPlan { target: t, updates })
}

/// A training call with no context words, no opposites and no noise samples
/// only registers its word: it pairs nothing, and the vocabulary gains the
/// upper-cased word and nothing else. A damped word changes nothing at all.
pub proof fn lemma_registration_only(ws: Seq<Seq<char>>, word: Seq<char>)
    ensures
        train_outcome(ws, word, Seq::empty(), Seq::empty(), 0) == if damped(upper_of(word)) {
            None::<(Seq<Seq<char>>, int, Seq<PairUpdate>)>
        } else {
            let ws0 = with_word(ws, upper_of(word));
            Some((ws0, ws0.index_of(upper_of(word)), Seq::<PairUpdate>::empty()))
        },
{
    let w = upper_of(word);
    if !damped(w) {
        let ws0 = with_word(ws, w);
        let t = ws0.index_of(w);
        assert(context_pass(ws0, t, Seq::empty(), PairKind::Context, true) == (ws0, Seq::<PairUpdate>::empty()));
        assert(context_pass(ws0, t, Seq::empty(), PairKind::Antonym, false) == (ws0, Seq::<PairUpdate>::empty()));
        assert(Seq::<PairUpdate>::empty() + Seq::<PairUpdate>::empty() + Seq::<PairUpdate>::empty()
            =~= Seq::<PairUpdate>::empty());
    }
}

/// The characters hashed for a word's initial vector: the word itself, or
/// `ctx` followed by the word for its context vector.
pub open spec fn init_key(w: Seq<char>, is_context: bool) -> Seq<char> {
    if is_context {
        seq!['c', 't', 'x'] + w
    } else {
        w
    }
}

/// The `i`-th draw that seeds the initial vector of `w`, below 1000.
pub open spec fn init_draw(w: Seq<char>, is_context: bool, i: int) -> u64 {
    indexed_hash_of(init_key(w, is_context), i as u64) % INIT_DRAW_RANGE
}

/// The 128 draws that seed the initial target (or context) vector of `w`:
/// draw `i` is the hash of the key and `i`, modulo 1000. Equal words give
/// equal draws.
pub fn initial_draws(w: &str, is_context: bool) -> (r: Vec<u64>)
    ensures
        r@.len() == EMBEDDING_DIM,
        forall|i: int| 0 <= i < EMBEDDING_DIM ==> #[trigger] r@[i] == init_draw(w@, is_context, i),
{
    let wc = chars_of(w);
    let mut key: Vec<char> = Vec::new();
    if is_context {
        key.push('c');
        key.push('t');
        key.push('x');
    }
    let mut j: usize = 0;
    while j < wc.len()
        invariant
            j <= wc@.len(),
            key@ == init_key(wc@.take(j as int), is_context),
        decreases wc.len() - j,
    {
        key.push(wc[j]);
        assert(wc@.take(j as int + 1) =~= wc@.take(j as int).push(wc@[j as int]));
        assert(init_key(wc@.take(j as int + 1), is_context) =~= init_key(wc@.take(j as int), is_context).push(wc@[j as int]));
        j = j + 1;
    }
    assert(wc@.take(wc@.len() as int) =~= wc@);
    let mut out: Vec<u64> = Vec::new();
    let mut i: usize = 0;
    while i < EMBEDDING_DIM
        invariant
            i <= EMBEDDING_DIM,
            key@ == init_key(w@, is_context),
            out@.len() == i,
            forall|k: int| 0 <= k < i ==> #[trigger] out@[k] == init_draw(w@, is_context, k),
        decreases EMBEDDING_DIM - i,
    {
        out.push(indexed_hash(key.as_slice(), i as u64) % INIT_DRAW_RANGE);
        i = i + 1;
    }
    out
}

} // verus!
