use murmur_plato_bridge::conflict_detector::{hash_thought, is_novel, jaccard_similarity, Similarity};
use murmur_plato_bridge::{Strategy, Thought, Timestamp};

fn now() -> Timestamp {
    let t = chrono::Utc::now();
    Timestamp { seconds: t.timestamp(), nanos: t.timestamp_subsec_nanos() }
}

fn ratio(s: Similarity) -> f64 {
    if s.total == 0 {
        1.0
    } else {
        s.shared as f64 / s.total as f64
    }
}

#[test]
fn test_jaccard_similarity() {
    let a = "tensor products provide universal construction";
    let b = "tensor products give universal property";
    let sim = ratio(jaccard_similarity(a, b));
    assert!(sim > 0.2, "Should have some overlap: {}", sim);
}

#[test]
fn test_jaccard_identical() {
    let a = "tensor products are fundamental";
    let b = "tensor products are fundamental";
    assert_eq!(ratio(jaccard_similarity(a, b)), 1.0);
}

#[test]
fn test_jaccard_different() {
    let a = "tensor products";
    let b = "category theory adjunctions";
    let sim = ratio(jaccard_similarity(a, b));
    assert!(sim < 0.3, "Should have little overlap");
}

#[test]
fn test_hash_thought() {
    let thought = Thought {
        content: "Test content".to_string(),
        connections: vec![],
        questions: vec![],
        confidence: 800_000,
        strategy: Strategy::Explore,
        timestamp: now(),
    };
    let hash1 = hash_thought(&thought);
    let hash2 = hash_thought(&thought);
    assert_eq!(hash1, hash2);
    assert_eq!(hash1.len(), 64);
}

#[test]
fn test_is_novel() {
    let t1 = Thought {
        content: "Original thought".to_string(),
        connections: vec![],
        questions: vec![],
        confidence: 800_000,
        strategy: Strategy::Explore,
        timestamp: now(),
    };
    let t2 = Thought {
        content: "New thought".to_string(),
        connections: vec![],
        questions: vec![],
        confidence: 900_000,
        strategy: Strategy::Explore,
        timestamp: now(),
    };
    assert!(is_novel(&t2, &[t1.clone()]));
    assert!(!is_novel(&t1, &[t1.clone()]));
}
