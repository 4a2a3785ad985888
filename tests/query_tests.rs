use vecors::query::{analogy_candidates, find_word, known_words, similarity_candidates};
use vecors::vocab::Vocabulary;

fn vocab(ws: &[&str]) -> Vocabulary {
    let mut v = Vocabulary::new();
    for w in ws {
        v.ensure(w);
    }
    v
}

#[test]
fn similarity_never_offers_the_query_word() {
    let v = vocab(&["KING", "QUEEN", "MAN", "WOMAN"]);
    let (q, cs) = similarity_candidates(&v, "queen").unwrap();
    assert_eq!(q, 1);
    assert_eq!(cs, vec![0, 2, 3]);
}

#[test]
fn similarity_of_unknown_word_or_empty_vocabulary_is_none() {
    let v = vocab(&["KING"]);
    assert!(similarity_candidates(&v, "prince").is_none());
    assert!(similarity_candidates(&Vocabulary::new(), "king").is_none());
    let (q, cs) = similarity_candidates(&v, "king").unwrap();
    assert_eq!(q, 0);
    assert!(cs.is_empty());
}

#[test]
fn analogy_excludes_its_three_words() {
    let v = vocab(&["KING", "QUEEN", "MAN", "WOMAN", "CROWN"]);
    let (a, b, c, cs) = analogy_candidates(&v, "man", "king", "woman").unwrap();
    assert_eq!((a, b, c), (2, 0, 3));
    assert_eq!(cs, vec![1, 4]);
    assert!(analogy_candidates(&v, "man", "king", "girl").is_none());
}

#[test]
fn unknown_context_words_are_dropped() {
    let v = vocab(&["KING", "QUEEN"]);
    let words: Vec<String> = ["queen", "prince", "King"].iter().map(|w| w.to_string()).collect();
    assert_eq!(known_words(&v, &words), vec![(0, 1), (2, 0)]);
    assert_eq!(find_word(&v, "kInG"), Some(0));
    assert_eq!(find_word(&v, "PRINCE"), None);
}
