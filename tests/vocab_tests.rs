use vecors::vocab::Vocabulary;

#[test]
fn indices_follow_first_seen_order() {
    let mut v = Vocabulary::new();
    assert_eq!(v.len(), 0);
    assert_eq!(v.ensure("KING"), 0);
    assert_eq!(v.ensure("QUEEN"), 1);
    assert_eq!(v.ensure("KING"), 0);
    assert_eq!(v.len(), 2);
    assert_eq!(v.lookup("QUEEN"), Some(1));
    assert_eq!(v.lookup("queen"), None);
    assert_eq!(v.word(1), "QUEEN");
}

#[test]
fn entries_round_trip() {
    let mut v = Vocabulary::new();
    for w in ["A", "B", "C", "D"] {
        v.ensure(w);
    }
    let es = v.entries();
    assert_eq!(es[2], ("C".to_string(), 2));
    let back = Vocabulary::from_entries(&es).unwrap();
    assert_eq!(back.len(), 4);
    for i in 0..4 {
        assert_eq!(back.word(i), v.word(i));
    }
}

#[test]
fn entries_in_any_order_are_accepted() {
    let es = vec![("B".to_string(), 1), ("C".to_string(), 2), ("A".to_string(), 0)];
    let v = Vocabulary::from_entries(&es).unwrap();
    assert_eq!(v.word(0), "A");
    assert_eq!(v.word(1), "B");
    assert_eq!(v.word(2), "C");
    assert_eq!(v.lookup("C"), Some(2));
}

#[test]
fn invalid_entries_are_rejected() {
    let out_of_range = vec![("A".to_string(), 0), ("B".to_string(), 2)];
    assert!(Vocabulary::from_entries(&out_of_range).is_none());
    let index_twice = vec![("A".to_string(), 0), ("B".to_string(), 0)];
    assert!(Vocabulary::from_entries(&index_twice).is_none());
    let word_twice = vec![("A".to_string(), 0), ("A".to_string(), 1)];
    assert!(Vocabulary::from_entries(&word_twice).is_none());
    assert_eq!(Vocabulary::from_entries(&Vec::new()).unwrap().len(), 0);
}
