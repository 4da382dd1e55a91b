use murmur_plato_bridge::conflict_detector::{hash_tile, is_duplicate, is_novel, jaccard_similarity, Similarity};
use murmur_plato_bridge::{hash_thought, Strategy, Thought, Tile, TileResponse, Timestamp};
use sha2::Digest;

fn thought(content: &str, strategy: Strategy) -> Thought {
    Thought {
        content: content.to_string(),
        connections: vec![],
        questions: vec![],
        confidence: 800_000,
        strategy,
        timestamp: Timestamp { seconds: 0, nanos: 0 },
    }
}

fn stored(question: &str, answer: &str) -> TileResponse {
    TileResponse {
        question: question.to_string(),
        answer: answer.to_string(),
        domain: "fleet_math_insights".to_string(),
        hash: String::new(),
    }
}

#[test]
fn thought_hash_is_sha256_hex_of_content_then_strategy_name() {
    let t = thought("Test content", Strategy::Explore);
    let expected = hex::encode(sha2::Sha256::digest(b"Test contentexplore"));
    assert_eq!(hash_thought(&t), expected);
    let c = thought("Test content", Strategy::Connect);
    assert_eq!(hash_thought(&c), hex::encode(sha2::Sha256::digest(b"Test contentconnect")));
    assert_ne!(hash_thought(&t), hash_thought(&c));
    assert_eq!(murmur_plato_bridge::compute_thought_hash(&t), expected);
}

#[test]
fn tile_hash_is_sha256_hex_of_question_then_answer() {
    let tile = Tile {
        domain: "fleet_math_open".to_string(),
        question: "Q?".to_string(),
        answer: "A.".to_string(),
        tags: vec![],
    };
    assert_eq!(hash_tile(&tile), hex::encode(sha2::Sha256::digest(b"Q?A.")));
}

#[test]
fn duplicate_by_hash() {
    // A stored tile whose question and answer bytes equal the thought's
    // content and strategy name has the thought's hash.
    let t = thought("Groups act on sets", Strategy::Explore);
    let tiles = vec![stored("Groups act on ", "setsexplore")];
    assert!(is_duplicate(&t, &tiles, 1_000_000));
}

#[test]
fn duplicate_by_similarity() {
    let t = thought("tensor products are fundamental", Strategy::Explore);
    let tiles = vec![stored("unrelated words", "here"), stored("tensor products", "are fundamental")];
    assert!(is_duplicate(&t, &tiles, 850_000));
    assert!(!is_duplicate(&t, &tiles[1..], 1_000_000));
    assert!(!is_duplicate(&t, &tiles[..1], 850_000));
    assert!(!is_duplicate(&t, &[], 0));
}

#[test]
fn similarity_counts_distinct_words() {
    let s = jaccard_similarity("a b b c", "c d a a");
    assert_eq!(s, Similarity { shared: 2, total: 4 });
    assert_eq!(jaccard_similarity("", "  "), Similarity { shared: 0, total: 0 });
}

#[test]
fn similarity_threshold_is_exact() {
    let s = Similarity { shared: 17, total: 20 };
    assert!(s.exceeds_threshold(849_999));
    assert!(!s.exceeds_threshold(850_000));
    assert!(s.exceeds_threshold(-5));
    assert!(!Similarity { shared: 0, total: 3 }.exceeds_threshold(0));
    let empty = Similarity { shared: 0, total: 0 };
    assert!(empty.exceeds_threshold(999_999));
    assert!(!empty.exceeds_threshold(1_000_000));
}

#[test]
fn novelty_depends_on_content_and_strategy() {
    let a = thought("same words", Strategy::Explore);
    let b = thought("same words", Strategy::Question);
    assert!(is_novel(&a, &[b.clone()]));
    assert!(!is_novel(&a, &[b, a.clone()]));
    assert!(is_novel(&a, &[]));
}
