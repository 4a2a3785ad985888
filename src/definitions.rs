//! Words that a dictionary definition contributes as context for its headword.

use vstd::prelude::*;
use crate::model::same_chars;
use crate::text::{chars_of, string_of, to_upper, upper_of, views};

verus! {

/// Whether `c` has the Unicode `Alphabetic` property.
pub uninterp spec fn alphabetic(c: char) -> bool;

/// Relies on `char::is_alphabetic`: whether the character has the Unicode
/// `Alphabetic` property, a function of the character alone.
#[verifier::external_body]
fn is_alphabetic(c: char) -> (r: bool)
    ensures
        r == alphabetic(c),
{
    c.is_alphabetic()
}

/// The Unicode `White_Space` characters.
pub open spec fn is_white_space(c: char) -> bool {
    let u = c as u32;
    (0x09 <= u && u <= 0x0d) || u == 0x20 || u == 0x85 || u == 0xa0 || u == 0x1680
        || (0x2000 <= u && u <= 0x200a) || u == 0x2028 || u == 0x2029 || u == 0x202f
        || u == 0x205f || u == 0x3000
}

fn white_space(c: char) -> (r: bool)
    ensures
        r == is_white_space(c),
{
    let u = c as u32;
    (0x09 <= u && u <= 0x0d) || u == 0x20 || u == 0x85 || u == 0xa0 || u == 0x1680
        || (0x2000 <= u && u <= 0x200a) || u == 0x2028 || u == 0x2029 || u == 0x202f
        || u == 0x205f || u == 0x3000
}

/// Adds the run `cur` to `ts` unless it is empty.
pub open spec fn flush_word(ts: Seq<Seq<char>>, cur: Seq<char>) -> Seq<Seq<char>> {
    if cur.len() > 0 {
        ts.push(cur)
    } else {
        ts
    }
}

/// Splitting state after reading `cs`: the words completed so far and the
/// current run of non-space characters.
pub open spec fn split_scan(cs: Seq<char>) -> (Seq<Seq<char>>, Seq<char>)
    decreases cs.len(),
{
    if cs.len() == 0 {
        (Seq::empty(), Seq::empty())
    } else {
        let (ts, cur) = split_scan(cs.drop_last());
        if is_white_space(cs.last()) {
            (flush_word(ts, cur), Seq::empty())
        } else {
            (ts, cur.push(cs.last()))
        }
    }
}

/// The maximal runs of non-white-space characters of `cs`, in order.
pub open spec fn split_words(cs: Seq<char>) -> Seq<Seq<char>> {
    flush_word(split_scan(cs).0, split_scan(cs).1)
}

/// `w` without its leading non-alphabetic characters.
pub open spec fn trim_front(w: Seq<char>) -> Seq<char>
    decreases w.len(),
{
    if w.len() == 0 || alphabetic(w[0]) {
        w
    } else {
        trim_front(w.drop_first())
    }
}

/// `w` without its trailing non-alphabetic characters.
pub open spec fn trim_back(w: Seq<char>) -> Seq<char>
    decreases w.len(),
{
    if w.len() == 0 || alphabetic(w.last()) {
        w
    } else {
        trim_back(w.drop_last())
    }
}

/// `w` without non-alphabetic characters at either end.
pub open spec fn trim_alpha(w: Seq<char>) -> Seq<char> {
    trim_back(trim_front(w))
}

/// Bytes in the UTF-8 encoding of `c`.
pub open spec fn utf8_width(c: char) -> int {
    let u = c as u32;
    if u < 0x80 { 1 } else if u < 0x800 { 2 } else if u < 0x10000 { 3 } else { 4 }
}

/// Bytes in the UTF-8 encoding of `cs`.
pub open spec fn utf8_len(cs: Seq<char>) -> int
    decreases cs.len(),
{
    if cs.len() == 0 {
        0
    } else {
        utf8_len(cs.drop_last()) + utf8_width(cs.last())
    }
}

/// Words too common to be useful context.
pub open spec fn stop_words() -> Seq<Seq<char>> {
    seq![
        seq!['T', 'H', 'E'],
        seq!['A', 'N', 'D'],
        seq!['F', 'O', 'R'],
        seq!['A', 'N', 'Y'],
        seq!['N', 'O', 'T'],
        seq!['B', 'U', 'T'],
        seq!['H', 'A', 'D'],
        seq!['W', 'A', 'S'],
        seq!['A', 'R', 'E'],
        seq!['W', 'I', 'T', 'H'],
        seq!['T', 'H', 'A', 'T'],
        seq!['T', 'H', 'I', 'S'],
        seq!['F', 'R', 'O', 'M'],
        seq!['T', 'H', 'E', 'I', 'R'],
        seq!['W', 'H', 'I', 'C', 'H'],
        seq!['A', 'L', 'S', 'O'],
        seq!['B', 'E', 'E', 'N'],
        seq!['H', 'A', 'V', 'E'],
        seq!['W', 'E', 'R', 'E'],
        seq!['T', 'H', 'E', 'Y'],
        seq!['Y', 'O', 'U'],
        seq!['Y', 'O', 'U', 'R'],
        seq!['T', 'H', 'E', 'M'],
        seq!['T', 'H', 'E', 'S', 'E'],
        seq!['T', 'H', 'O', 'S', 'E'],
        seq!['W', 'H', 'E', 'N'],
        seq!['W', 'H', 'E', 'R', 'E'],
        seq!['W', 'H', 'O'],
        seq!['H', 'O', 'W'],
        seq!['W', 'H', 'Y'],
        seq!['C', 'A', 'N'],
        seq!['W', 'I', 'L', 'L'],
        seq!['S', 'O', 'M', 'E'],
        seq!['M', 'O', 'R', 'E'],
        seq!['M', 'O', 'S', 'T'],
        seq!['O', 'T', 'H', 'E', 'R'],
        seq!['I', 'N', 'T', 'O'],
    ]
}

/// Whether the upper-cased word `u` taken from a definition of `head` is kept.
pub open spec fn keeps(head: Seq<char>, u: Seq<char>) -> bool {
    utf8_len(u) > 3 && !stop_words().contains(u) && u != upper_of(head)
}

/// The kept words of `parts`, trimmed and upper-cased, in order.
pub open spec fn kept_words(head: Seq<char>, parts: Seq<Seq<char>>) -> Seq<Seq<char>>
    decreases parts.len(),
{
    if parts.len() == 0 {
        Seq::empty()
    } else {
        let prev = kept_words(head, parts.drop_last());
        let u = upper_of(trim_alpha(parts.last()));
        if keeps(head, u) {
            prev.push(u)
        } else {
            prev
        }
    }
}

/// The context words that the definition `def` gives its headword `head`.
pub open spec fn definition_words_of(head: Seq<char>, def: Seq<char>) -> Seq<Seq<char>> {
    kept_words(head, split_words(def))
}

fn is_stop_word(cs: &[char]) -> (r: bool)
    ensures
        r == stop_words().contains(cs@),
{
    let r =
        same_chars(cs, &['T', 'H', 'E']) ||
        same_chars(cs, &['A', 'N', 'D']) ||
        same_chars(cs, &['F', 'O', 'R']) ||
        same_chars(cs, &['A', 'N', 'Y']) ||
        same_chars(cs, &['N', 'O', 'T']) ||
        same_chars(cs, &['B', 'U', 'T']) ||
        same_chars(cs, &['H', 'A', 'D']) ||
        same_chars(cs, &['W', 'A', 'S']) ||
        same_chars(cs, &['A', 'R', 'E']) ||
        same_chars(cs, &['W', 'I', 'T', 'H']) ||
        same_chars(cs, &['T', 'H', 'A', 'T']) ||
        same_chars(cs, &['T', 'H', 'I', 'S']) ||
        same_chars(cs, &['F', 'R', 'O', 'M']) ||
        same_chars(cs, &['T', 'H', 'E', 'I', 'R']) ||
        same_chars(cs, &['W', 'H', 'I', 'C', 'H']) ||
        same_chars(cs, &['A', 'L', 'S', 'O']) ||
        same_chars(cs, &['B', 'E', 'E', 'N']) ||
        same_chars(cs, &['H', 'A', 'V', 'E']) ||
        same_chars(cs, &['W', 'E', 'R', 'E']) ||
        same_chars(cs, &['T', 'H', 'E', 'Y']) ||
        same_chars(cs, &['Y', 'O', 'U']) ||
        same_chars(cs, &['Y', 'O', 'U', 'R']) ||
        same_chars(cs, &['T', 'H', 'E', 'M']) ||
        same_chars(cs, &['T', 'H', 'E', 'S', 'E']) ||
        same_chars(cs, &['T', 'H', 'O', 'S', 'E']) ||
        same_chars(cs, &['W', 'H', 'E', 'N']) ||
        same_chars(cs, &['W', 'H', 'E', 'R', 'E']) ||
        same_chars(cs, &['W', 'H', 'O']) ||
        same_chars(cs, &['H', 'O', 'W']) ||
        same_chars(cs, &['W', 'H', 'Y']) ||
        same_chars(cs, &['C', 'A', 'N']) ||
        same_chars(cs, &['W', 'I', 'L', 'L']) ||
        same_chars(cs, &['S', 'O', 'M', 'E']) ||
        same_chars(cs, &['M', 'O', 'R', 'E']) ||
        same_chars(cs, &['M', 'O', 'S', 'T']) ||
        same_chars(cs, &['O', 'T', 'H', 'E', 'R']) ||
        same_chars(cs, &['I', 'N', 'T', 'O']);
    r
}

fn utf8_length(cs: &[char]) -> (r: u128)
    ensures
        r == utf8_len(cs@),
{
    let mut n: u128 = 0;
    let mut i: usize = 0;
    while i < cs.len()
        invariant
            i <= cs@.len(),
            n == utf8_len(cs@.take(i as int)),
            n <= 4 * i,
        decreases cs.len() - i,
    {
        assert(cs@.take(i as int + 1).drop_last() =~= cs@.take(i as int));
        let u = cs[i] as u32;
        let w: u128 = if u < 0x80 { 1 } else if u < 0x800 { 2 } else if u < 0x10000 { 3 } else { 4 };
        n = n + w;
        i = i + 1;
    }
    assert(cs@.take(cs@.len() as int) =~= cs@);
    n
}

/// Whether one whitespace-separated part `run` of a definition of `head`
/// gives a context word, and which: the part trimmed of non-alphabetic
/// characters at both ends and upper-cased.
fn kept_word(head: &str, head_upper: &String, run: &[char]) -> (r: Option<String>)
    requires
        head_upper@ == upper_of(head@),
    ensures
        ({
            let u = upper_of(trim_alpha(run@));
            match r {
                Some(s) => keeps(head@, u) && s@ == u,
                None => !keeps(head@, u),
            }
        }),
{
    let n = run.len();
    let mut lo: usize = 0;
    assert(run@.subrange(0, n as int) =~= run@);
    while lo < n && !is_alphabetic(run[lo])
        invariant
            lo <= n == run@.len(),
            trim_front(run@) == trim_front(run@.subrange(lo as int, n as int)),
        decreases n - lo,
    {
        assert(run@.subrange(lo as int, n as int).drop_first() =~= run@.subrange(lo as int + 1, n as int));
        lo = lo + 1;
    }
    assert(trim_front(run@) == run@.subrange(lo as int, n as int));
    let mut hi: usize = n;
    while hi > lo && !is_alphabetic(run[hi - 1])
        invariant
            lo <= hi <= n == run@.len(),
            trim_alpha(run@) == trim_back(run@.subrange(lo as int, hi as int)),
        decreases hi - lo,
    {
        assert(run@.subrange(lo as int, hi as int).drop_last() =~= run@.subrange(lo as int, hi as int - 1));
        hi = hi - 1;
    }
    assert(trim_alpha(run@) == run@.subrange(lo as int, hi as int));
    let trimmed = string_of(&run[lo..hi]);
    let upper = to_upper(trimmed.as_str());
    let uc = chars_of(upper.as_str());
    if utf8_length(uc.as_slice()) > 3 && !is_stop_word(uc.as_slice()) && !(upper == *head_upper) {
        Some(upper)
    } else {
        None
    }
}

/// The context words that the definition `def` gives its headword `head`:
/// each whitespace-separated part, trimmed of non-alphabetic characters at
/// both ends and upper-cased, kept when it is longer than three bytes, is not
/// a stop word and is not the upper-cased headword; in order.
pub fn definition_words(head: &str, def: &str) -> (r: Vec<String>)
    ensures
        views(r@) == definition_words_of(head@, def@),
{
    let head_upper = to_upper(head);
    let cs = chars_of(def);
    let mut out: Vec<String> = Vec::new();
    let mut start: usize = 0;
    let mut i: usize = 0;
    while i < cs.len()
        invariant
            start <= i <= cs@.len(),
            cs@ == def@,
            head_upper@ == upper_of(head@),
            views(out@) == kept_words(head@, split_scan(cs@.take(i as int)).0),
            cs@.subrange(start as int, i as int) == split_scan(cs@.take(i as int)).1,
        decreases cs.len() - i,
    {
        let ghost prefix = cs@.take(i as int + 1);
        assert(prefix.drop_last() =~= cs@.take(i as int));
        assert(prefix.last() == cs@[i as int]);
        if white_space(cs[i]) {
            if start < i {
                let ghost parts = split_scan(cs@.take(i as int)).0;
                let ghost run = cs@.subrange(start as int, i as int);
                assert(flush_word(parts, run).drop_last() =~= parts);
                match kept_word(head, &head_upper, &cs.as_slice()[start..i]) {
                    Some(u) => {
                        let ghost before = out@;
                        out.push(u);
                        assert(views(out@) =~= views(before).push(u@));
                    },
                    None => {},
                }
            }
            start = i + 1;
            assert(cs@.subrange(start as int, i as int + 1) =~= Seq::<char>::empty());
        } else {
            assert(cs@.subrange(start as int, i as int + 1) =~= cs@.subrange(start as int, i as int).push(cs@[i as int]));
        }
        i = i + 1;
    }
    assert(cs@.take(cs@.len() as int) =~= cs@);
    if start < cs.len() {
        let ghost parts = split_scan(cs@).0;
        let ghost run = cs@.subrange(start as int, cs@.len() as int);
        assert(flush_word(parts, run).drop_last() =~= parts);
        match kept_word(head, &head_upper, &cs.as_slice()[start..cs.len()]) {
            Some(u) => {
                let ghost before = out@;
                out.push(u);
                assert(views(out@) =~= views(before).push(u@));
            },
            None => {},
        }
    }
    out
}

/// The context words of each definition in `defs`, one after the other.
pub open spec fn all_definition_words(head: Seq<char>, defs: Seq<Seq<char>>) -> Seq<Seq<char>>
    decreases defs.len(),
{
    if defs.len() == 0 {
        Seq::empty()
    } else {
        all_definition_words(head, defs.drop_last()) + definition_words_of(head, defs.last())
    }
}

/// The training entry of a dictionary word: the upper-cased word; as context
/// words, its synonyms followed by the context words of each definition in
/// turn; as opposites, its antonyms.
pub fn dictionary_entry(word: &str, synonyms: Vec<String>, antonyms: Vec<String>, definitions: &[String])
    -> (r: (String, Vec<String>, Vec<String>))
    ensures
        r.0@ == upper_of(word@),
        views(r.1@) == views(synonyms@) + all_definition_words(word@, views(definitions@)),
        views(r.2@) == views(antonyms@),
{
    let mut context = synonyms;
    let ghost syn = views(context@);
    let mut j: usize = 0;
    while j < definitions.len()
        invariant
            j <= definitions@.len(),
            views(context@) == syn + all_definition_words(word@, views(definitions@).take(j as int)),
        decreases definitions.len() - j,
    {
        let ghost next = views(definitions@).take(j as int + 1);
        assert(next.drop_last() =~= views(definitions@).take(j as int));
        assert(next.last() == definitions@[j as int]@);
        let mut words = definition_words(word, definitions[j].as_str());
        let ghost before = views(context@);
        let ghost added = views(words@);
        context.append(&mut words);
        assert(views(context@) =~= before + added);
        assert(syn + all_definition_words(word@, next) =~= before + added);
        j = j + 1;
    }
    assert(views(definitions@).take(definitions@.len() as int) =~= views(definitions@));
    (to_upper(word), context, antonyms)
}

} // verus!
