use vecors::definitions::{definition_words, dictionary_entry};

fn strings(ws: &[&str]) -> Vec<String> {
    ws.iter().map(|w| w.to_string()).collect()
}

#[test]
fn definition_words_are_trimmed_upper_cased_and_filtered() {
    let ws = definition_words("cat", "A small, domesticated feline; the cat's whiskers (CATS) with fur.");
    assert_eq!(ws, strings(&["SMALL", "DOMESTICATED", "FELINE", "CAT'S", "WHISKERS", "CATS"]));
}

#[test]
fn the_headword_itself_is_not_its_own_context() {
    assert!(definition_words("cats", "Cats are cats").is_empty());
}

#[test]
fn length_counts_bytes() {
    assert_eq!(definition_words("x", "été ete"), strings(&["ÉTÉ"]));
}

#[test]
fn unicode_spaces_separate_words() {
    assert_eq!(definition_words("x", "alpha\u{00A0}betas\u{3000}gamma"), strings(&["ALPHA", "BETAS", "GAMMA"]));
    assert!(definition_words("x", "").is_empty());
    assert!(definition_words("x", "  ... ,, ").is_empty());
}

#[test]
fn dictionary_entry_gathers_synonyms_then_definitions() {
    let (w, pos, neg) = dictionary_entry(
        "cat",
        strings(&["kitty"]),
        strings(&["dog"]),
        &strings(&["A feline", "pet animal"]),
    );
    assert_eq!(w, "CAT");
    assert_eq!(pos, strings(&["kitty", "FELINE", "ANIMAL"]));
    assert_eq!(neg, strings(&["dog"]));
}
