//! Turning article markup into training tokens, and context windows over them.

use vstd::prelude::*;

verus! {

/// Most tokens kept from one article.
pub const MAX_ARTICLE_TOKENS: usize = 2000;

/// Shortest token kept.
pub const MIN_TOKEN_LEN: usize = 3;

/// A template `{{...}}` holding no `}`.
pub const TEMPLATE_PATTERN: &'static str = r"\{\{[^}]+\}\}";

/// A link `[[target|shown]]` or `[[shown]]`; group 2 is the shown text.
pub const LINK_PATTERN: &'static str = r"\[\[([^|\]]+\|)?([^\]]+)\]\]";

/// Replacement that keeps a link's shown text.
pub const LINK_REPLACEMENT: &'static str = "$2";

/// What `str::to_uppercase` returns for a text.
pub uninterp spec fn upper_of(s: Seq<char>) -> Seq<char>;

/// Whether `pattern` compiles as a regular expression.
pub uninterp spec fn regex_compiles(pattern: Seq<char>) -> bool;

/// What compiling `pattern` as a regular expression and replacing every
/// match in `haystack` by `rep` returns.
pub uninterp spec fn regex_replaced(pattern: Seq<char>, haystack: Seq<char>, rep: Seq<char>) -> Seq<char>;

/// Relies on `str::to_uppercase`: the Unicode upper-case mapping of the text,
/// which depends on its characters alone.
#[verifier::external_body]
pub(crate) fn to_upper(s: &str) -> (r: String)
    ensures
        r@ == upper_of(s@),
{
    s.to_uppercase()
}

/// Relies on `str::chars`: the characters of the text, in order.
#[verifier::external_body]
pub(crate) fn chars_of(s: &str) -> (r: Vec<char>)
    ensures
        r@ == s@,
{
    s.chars().collect()
}

/// Relies on `String: FromIterator<&char>`: the string made of these characters.
#[verifier::external_body]
pub(crate) fn string_of(cs: &[char]) -> (r: String)
    ensures
        r@ == cs@,
{
    cs.iter().collect()
}

/// Relies on `regex::Regex::new` and `regex::Regex::replace_all`: compiles
/// `pattern` and replaces every non-overlapping match in `haystack`, leftmost
/// first, by `rep` (where `$n` stands for group `n`). `None` when the pattern
/// does not compile.
#[verifier::external_body]
fn regex_replace_all(pattern: &str, haystack: &str, rep: &str) -> (r: Option<String>)
    ensures
        r is Some <==> regex_compiles(pattern@),
        r matches Some(t) ==> t@ == regex_replaced(pattern@, haystack@, rep@),
{
    match regex::Regex::new(pattern) {
        Ok(re) => Some(re.replace_all(haystack, rep).into_owned()),
        Err(_) => None,
    }
}

/// A character that can be part of a token.
pub open spec fn is_token_char(c: char) -> bool {
    'A' <= c && c <= 'Z'
}

/// Adds the run `cur` to `ts` if it is long enough to be a token.
pub open spec fn flush(ts: Seq<Seq<char>>, cur: Seq<char>) -> Seq<Seq<char>> {
    if cur.len() >= MIN_TOKEN_LEN {
        ts.push(cur)
    } else {
        ts
    }
}

/// Scanning state after reading `cs`: the tokens completed so far and the
/// current run of token characters.
pub open spec fn scan(cs: Seq<char>) -> (Seq<Seq<char>>, Seq<char>)
    decreases cs.len(),
{
    if cs.len() == 0 {
        (Seq::empty(), Seq::empty())
    } else {
        let (ts, cur) = scan(cs.drop_last());
        if is_token_char(cs.last()) {
            (ts, cur.push(cs.last()))
        } else {
            (flush(ts, cur), Seq::empty())
        }
    }
}

/// Every maximal run of `A`..=`Z` in `cs` that is at least three long, in order.
pub open spec fn letter_runs(cs: Seq<char>) -> Seq<Seq<char>> {
    flush(scan(cs).0, scan(cs).1)
}

/// The tokens of an upper-cased text: its letter runs of length three or
/// more, at most the first 2000 of them.
pub open spec fn tokens_of(cs: Seq<char>) -> Seq<Seq<char>> {
    let runs = letter_runs(cs);
    if runs.len() > MAX_ARTICLE_TOKENS {
        runs.take(MAX_ARTICLE_TOKENS as int)
    } else {
        runs
    }
}

/// The character sequences of a list of strings.
pub open spec fn views(v: Seq<String>) -> Seq<Seq<char>> {
    v.map_values(|s: String| s@)
}

/// Splits an upper-cased text into tokens: characters other than `A`..=`Z`
/// separate tokens, runs shorter than three are dropped, and at most 2000
/// tokens are kept.
pub fn article_tokens(text: &str) -> (r: Vec<String>)
    ensures
        views(r@) == tokens_of(text@),
{
    let cs = chars_of(text);
    let mut out: Vec<String> = Vec::new();
    let mut cur: Vec<char> = Vec::new();
    let mut i: usize = 0;
    while i < cs.len()
        invariant
            i <= cs@.len(),
            cs@ == text@,
            views(out@) == scan(cs@.subrange(0, i as int)).0,
            cur@ == scan(cs@.subrange(0, i as int)).1,
        decreases cs.len() - i,
    {
        let ghost prefix = cs@.subrange(0, i as int + 1);
        assert(prefix.drop_last() =~= cs@.subrange(0, i as int));
        assert(prefix.last() == cs@[i as int]);
        let c = cs[i];
        if 'A' <= c && c <= 'Z' {
            cur.push(c);
        } else {
            if cur.len() >= MIN_TOKEN_LEN {
                let tok = string_of(cur.as_slice());
                let ghost before = out@;
                out.push(tok);
                assert(views(out@) =~= views(before).push(tok@));
            }
            cur = Vec::new();
        }
        i = i + 1;
    }
    assert(cs@.subrange(0, cs@.len() as int) =~= cs@);
    if cur.len() >= MIN_TOKEN_LEN {
        let tok = string_of(cur.as_slice());
        let ghost before = out@;
        out.push(tok);
        assert(views(out@) =~= views(before).push(tok@));
    }
    if out.len() > MAX_ARTICLE_TOKENS {
        let ghost before = out@;
        out.truncate(MAX_ARTICLE_TOKENS);
        assert(views(out@) =~= views(before).take(MAX_ARTICLE_TOKENS as int));
    }
    out
}

/// What the markup cleaner turns an article body into, before tokenizing:
/// templates removed, links replaced by their shown text, then upper-cased.
pub open spec fn cleaned_text(text: Seq<char>) -> Seq<char> {
    upper_of(
        regex_replaced(
            LINK_PATTERN@,
            regex_replaced(TEMPLATE_PATTERN@, text, ""@),
            LINK_REPLACEMENT@,
        ),
    )
}

/// Whether both markup patterns compile.
pub open spec fn markup_patterns_compile() -> bool {
    regex_compiles(TEMPLATE_PATTERN@) && regex_compiles(LINK_PATTERN@)
}

/// The tokens of an article body: templates removed, links replaced by their
/// shown text, upper-cased, then split as `article_tokens` does. `None` only
/// when a markup pattern fails to compile.
pub fn clean_article(text: &str) -> (r: Option<Vec<String>>)
    ensures
        r is Some <==> markup_patterns_compile(),
        r matches Some(ts) ==> views(ts@) == tokens_of(cleaned_text(text@)),
{
    let no_templates = regex_replace_all(TEMPLATE_PATTERN, text, "");
    let no_templates = match no_templates {
        Some(t) => t,
        None => return None,
    };
    let no_links = regex_replace_all(LINK_PATTERN, no_templates.as_str(), LINK_REPLACEMENT);
    let no_links = match no_links {
        Some(t) => t,
        None => return None,
    };
    let upper = to_upper(no_links.as_str());
    Some(article_tokens(upper.as_str()))
}

/// First position of the window of `radius` around `i`.
pub open spec fn window_start(i: int, radius: int) -> int {
    if i >= radius { i - radius } else { 0 }
}

/// One past the last position of the window of `radius` around `i` in `n` tokens.
pub open spec fn window_end(n: int, i: int, radius: int) -> int {
    if i + radius + 1 <= n { i + radius + 1 } else { n }
}

/// The tokens within `radius` positions of position `i`, in order, without
/// the token at `i` itself.
pub open spec fn window_of(ts: Seq<Seq<char>>, i: int, radius: int) -> Seq<Seq<char>> {
    ts.subrange(window_start(i, radius), i) + ts.subrange(i + 1, window_end(ts.len() as int, i, radius))
}

/// The context of the token at `i`: up to `radius` tokens on each side,
/// clipped at both ends of the list, in order.
pub fn context_window(tokens: &[String], i: usize, radius: usize) -> (r: Vec<String>)
    requires
        i < tokens@.len(),
    ensures
        views(r@) == window_of(views(tokens@), i as int, radius as int),
{
    let n = tokens.len();
    let start: usize = if i >= radius { i - radius } else { 0 };
    let end: usize = if radius < n - i { i + radius + 1 } else { n };
    let ghost all = views(tokens@);
    let mut out: Vec<String> = Vec::new();
    let mut j: usize = start;
    while j < end
        invariant
            start <= j <= end <= n,
            start <= i < n,
            n == tokens@.len(),
            all == views(tokens@),
            start == window_start(i as int, radius as int),
            end == window_end(n as int, i as int, radius as int),
            j <= i ==> views(out@) == all.subrange(start as int, j as int),
            j > i ==> views(out@) == all.subrange(start as int, i as int) + all.subrange(i + 1, j as int),
        decreases end - j,
    {
        if j != i {
            let ghost before = out@;
            out.push(tokens[j].clone());
            assert(views(out@) =~= views(before).push(all[j as int]));
            if j < i {
                assert(all.subrange(start as int, j + 1) =~= all.subrange(start as int, j as int).push(all[j as int]));
            } else {
                assert(all.subrange(i + 1, j + 1) =~= all.subrange(i + 1, j as int).push(all[j as int]));
                assert(all.subrange(start as int, i as int) + all.subrange(i + 1, j + 1)
                    =~= (all.subrange(start as int, i as int) + all.subrange(i + 1, j as int)).push(all[j as int]));
            }
        } else {
            assert(all.subrange(i + 1, i + 1) =~= Seq::<Seq<char>>::empty());
            assert(all.subrange(start as int, i as int) + all.subrange(i + 1, i + 1) =~= all.subrange(start as int, i as int));
        }
        j = j + 1;
    }
    out
}

/// Whether a page title names an article: it holds no namespace separator `:`.
pub open spec fn is_article_title(title: Seq<char>) -> bool {
    !title.contains(':')
}

/// Whether a page title names an article rather than a page of another
/// namespace, that is whether it holds no `:`.
pub fn article_title(title: &str) -> (r: bool)
    ensures
        r == is_article_title(title@),
{
    let cs = chars_of(title);
    let mut i: usize = 0;
    while i < cs.len()
        invariant
            i <= cs@.len(),
            cs@ == title@,
            forall|k: int| 0 <= k < i ==> cs@[k] != ':',
        decreases cs.len() - i,
    {
        if cs[i] == ':' {
            assert(title@[i as int] == ':');
            return false;
        }
        i = i + 1;
    }
    true
}

} // verus!
