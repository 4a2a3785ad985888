use vecors::hashing::{hash_chars, indexed_hash};
use vecors::math::SimpleRng;
use vecors::model::{initial_draws, plan_train_step, should_skip, PairKind, PairUpdate, EMBEDDING_DIM};
use vecors::vocab::Vocabulary;

fn strings(ws: &[&str]) -> Vec<String> {
    ws.iter().map(|w| w.to_string()).collect()
}

fn chars(s: &str) -> Vec<char> {
    s.chars().collect()
}

#[test]
fn hash_values_are_fixed() {
    assert_eq!(hash_chars(&chars("ABC")), 12130449381023310403);
    assert_eq!(hash_chars(&[]), 17058014651485797458);
    assert_ne!(indexed_hash(&chars("KING"), 0), indexed_hash(&chars("KING"), 1));
}

#[test]
fn only_common_words_are_damped() {
    for w in ["THE", "AND", "THIS", "WITH", "FROM", "WERE"] {
        assert!(should_skip(w), "{}", w);
    }
    for w in ["FOR", "THAT", "WAS", "KING", "THESE", "the", ""] {
        assert!(!should_skip(w), "{}", w);
    }
}

#[test]
fn initial_draws_are_deterministic() {
    let t = initial_draws("KING", false);
    let c = initial_draws("KING", true);
    assert_eq!(t.len(), EMBEDDING_DIM);
    assert_eq!(&t[..4], &[53, 251, 986, 789]);
    assert_eq!(&c[..4], &[858, 0, 703, 779]);
    assert_eq!(t, initial_draws("KING", false));
    assert!(t.iter().chain(c.iter()).all(|d| *d < 1000));
}

#[test]
fn registration_only_call_pairs_nothing() {
    let mut v = Vocabulary::new();
    v.ensure("QUEEN");
    let plan = plan_train_step(&mut v, "king", &[], &[], 0).unwrap();
    assert_eq!(plan.target, 1);
    assert!(plan.updates.is_empty());
    assert_eq!(v.len(), 2);
    assert_eq!(v.word(1), "KING");
}

#[test]
fn damped_word_registers_nothing() {
    let mut v = Vocabulary::new();
    assert!(plan_train_step(&mut v, "the", &strings(&["king"]), &[], 3).is_none());
    assert_eq!(v.len(), 0);
}

#[test]
fn contexts_and_opposites_are_paired_in_order() {
    let mut v = Vocabulary::new();
    let pos = strings(&["queen", "King", "the", "crown", "for"]);
    let neg = strings(&["peasant", "king"]);
    let plan = plan_train_step(&mut v, "king", &pos, &neg, 5).unwrap();
    assert_eq!(plan.target, 0);
    assert_eq!(
        plan.updates,
        vec![
            PairUpdate { context: 1, kind: PairKind::Context },
            PairUpdate { context: 2, kind: PairKind::Context },
            PairUpdate { context: 3, kind: PairKind::Context },
            PairUpdate { context: 4, kind: PairKind::Antonym },
        ]
    );
    assert_eq!(v.len(), 5);
    assert_eq!(v.word(3), "FOR");
    assert_eq!(v.lookup("THE"), None);
}

#[test]
fn noise_samples_need_more_than_ten_words() {
    let mut v = Vocabulary::new();
    v.ensure("KING");
    for w in ["B01", "B02", "B03", "B04", "B05", "B06", "B07", "B08", "B09", "B10", "B11"] {
        v.ensure(w);
    }
    assert_eq!(v.len(), 12);
    let plan = plan_train_step(&mut v, "king", &[], &[], 5).unwrap();
    assert_eq!(plan.target, 0);
    let noise: Vec<usize> = plan.updates.iter().map(|u| u.context).collect();
    assert_eq!(noise, vec![9, 11, 6, 5, 10]);
    assert!(plan.updates.iter().all(|u| u.kind == PairKind::Noise));

    let mut small = Vocabulary::new();
    for w in ["A01", "A02", "A03"] {
        small.ensure(w);
    }
    let plan = plan_train_step(&mut small, "a01", &[], &[], 5).unwrap();
    assert!(plan.updates.is_empty());
}

#[test]
fn generator_steps_are_fixed() {
    let mut rng = SimpleRng::new(0);
    assert_eq!(rng.seed, 0);
    assert_eq!(rng.next_draw(), 12345);
    assert_eq!(rng.seed, 12345);
    assert_eq!(rng.next_draw(), 711870);
    assert_eq!(rng.seed, 13622895711870);
}
