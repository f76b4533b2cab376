use better_im::embeddings::{embedding_features, feature_slot, fnv1a, tokenize, MockEmbedder};

#[test]
fn fnv1a_known_values() {
    assert_eq!(fnv1a(b""), 0xcbf2_9ce4_8422_2325);
    assert_eq!(fnv1a(b"a"), 0xaf63_dc4c_8601_ec8c);
    assert_eq!(fnv1a(b"foobar"), 0x8594_4171_f739_67e8);
}

#[test]
fn mock_embedder_dimension_is_at_least_one() {
    assert_eq!(MockEmbedder::new(0).dim(), 1);
    assert_eq!(MockEmbedder::new(64).dim(), 64);
    assert_eq!(MockEmbedder::new(64).model_tag(), "mock-v1/64");
    assert_eq!(MockEmbedder::new(384).model_tag(), "mock-v1/384");
}

#[test]
fn feature_slot_uses_bucket_and_top_bit() {
    assert_eq!(feature_slot(10, 4), (2, false));
    assert_eq!(feature_slot(0x8000_0000_0000_0003, 2), (1, true));
}

#[test]
fn tokens_are_lowercase_alphanumeric_runs() {
    assert_eq!(tokenize("Let's grab DINNER, tonight!"), vec!["let", "s", "grab", "dinner", "tonight"]);
    assert!(tokenize("  ,,, ").is_empty());
    assert_eq!(tokenize("Ünïcode 42x"), vec!["ünïcode", "42x"]);
}

#[test]
fn features_cover_words_and_trigrams() {
    let f = embedding_features("Dinner at", 64);
    // "dinner": the word plus its four 3-grams; "at": the word alone.
    assert_eq!(f.len(), 1 + 4 + 1);
    assert_eq!(f[0].weight, 2);
    assert!(f[1..5].iter().all(|x| x.weight == 1));
    assert_eq!(f[5].weight, 2);
    let h = fnv1a("dinner".as_bytes());
    assert_eq!(f[0].bucket as u64, h % 64);
    assert_eq!(f[0].positive, h >> 63 == 1);
    let g = fnv1a("inn".as_bytes());
    assert_eq!(f[2].bucket as u64, g % 64);
    assert!(embedding_features("", 8).is_empty());
    assert_eq!(MockEmbedder::default().dim(), 64);
}
