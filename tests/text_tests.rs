use vecors::text::{article_title, article_tokens, clean_article, context_window};

fn strings(ws: &[&str]) -> Vec<String> {
    ws.iter().map(|w| w.to_string()).collect()
}

#[test]
fn tokens_are_letter_runs_of_three_or_more() {
    let ts = article_tokens("HELLO, WORLD! AB XYZ\tQQ\nLONGER");
    assert_eq!(ts, strings(&["HELLO", "WORLD", "XYZ", "LONGER"]));
}

#[test]
fn tokens_of_empty_text_are_empty() {
    assert!(article_tokens("").is_empty());
    assert!(article_tokens("A B CD 12 ,,").is_empty());
}

#[test]
fn tokens_split_at_non_letters_and_lowercase() {
    assert_eq!(article_tokens("ABC1DEF"), strings(&["ABC", "DEF"]));
    assert_eq!(article_tokens("ABCdef"), strings(&["ABC"]));
    assert_eq!(article_tokens("ÉCOLE"), strings(&["COLE"]));
}

#[test]
fn tokens_are_capped_at_two_thousand() {
    let text = "WORD ".repeat(2500);
    let ts = article_tokens(&text);
    assert_eq!(ts.len(), 2000);
    assert!(ts.iter().all(|t| t == "WORD"));
}

#[test]
fn clean_article_strips_templates_and_keeps_link_text() {
    let ts = clean_article("The {{cite web|url=x}} [[Paris|city]] of [[light]] x").unwrap();
    assert_eq!(ts, strings(&["THE", "CITY", "LIGHT"]));
}

#[test]
fn clean_article_uppercases_beyond_ascii() {
    let ts = clean_article("straße and river").unwrap();
    assert_eq!(ts, strings(&["STRASSE", "AND", "RIVER"]));
}

#[test]
fn clean_article_of_markup_only_is_empty() {
    let ts = clean_article("{{infobox}} {{stub}}").unwrap();
    assert!(ts.is_empty());
}

#[test]
fn context_window_is_clipped_at_both_ends() {
    let ts = strings(&["A0", "A1", "A2", "A3", "A4", "A5"]);
    assert_eq!(context_window(&ts, 1, 2), strings(&["A0", "A2", "A3"]));
    assert_eq!(context_window(&ts, 5, 2), strings(&["A3", "A4"]));
    assert_eq!(context_window(&ts, 2, 1), strings(&["A1", "A3"]));
    assert_eq!(context_window(&ts, 0, 0), Vec::<String>::new());
    assert_eq!(context_window(&ts, 3, 100), strings(&["A0", "A1", "A2", "A4", "A5"]));
    assert_eq!(context_window(&ts, 3, usize::MAX), strings(&["A0", "A1", "A2", "A4", "A5"]));
}

#[test]
fn titles_with_a_namespace_are_not_articles() {
    assert!(article_title("Paris"));
    assert!(article_title(""));
    assert!(!article_title("Talk:Paris"));
    assert!(!article_title("Category:Cities"));
}
