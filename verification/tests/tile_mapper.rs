use murmur_plato_bridge::tile_mapper::{detect_keyword_tags, parse_content, strategy_to_domain, thought_to_tile};
use murmur_plato_bridge::{Strategy, Thought, Timestamp};

fn now() -> Timestamp {
    let t = chrono::Utc::now();
    Timestamp { seconds: t.timestamp(), nanos: t.timestamp_subsec_nanos() }
}

#[test]
fn test_strategy_to_domain() {
    assert_eq!(strategy_to_domain(&Strategy::Explore), "fleet_math_insights");
    assert_eq!(strategy_to_domain(&Strategy::Contradict), "fleet_math_tensions");
    assert_eq!(strategy_to_domain(&Strategy::Synthesize), "fleet_math_synthesis");
    assert_eq!(strategy_to_domain(&Strategy::Question), "fleet_math_open");
    assert_eq!(strategy_to_domain(&Strategy::Connect), "fleet_math_bridges");
}

#[test]
fn test_parse_content_implies() {
    let (q, a) = parse_content("Tensor products implies a universal property for bilinear maps");
    assert!(q.contains("What does"));
    assert!(a.contains("a universal property"));
}

#[test]
fn test_parse_content_contradicts() {
    let (q, a) = parse_content("Classical set theory contradicts category theory in its treatment of infinite sets");
    assert!(q.contains("tension"));
    assert!(a.contains("contradicts"));
}

#[test]
fn test_parse_content_what_about() {
    let (q, a) = parse_content("What about the role of adjunctions in coherence theorems?");
    assert_eq!(q, "the role of adjunctions in coherence theorems");
    assert_eq!(a, "[open — investigation needed]");
}

#[test]
fn test_parse_content_default() {
    let (q, a) = parse_content("Tensor algebras and symmetric algebras are built from tensor products as foundational constructions.");
    assert_eq!(q, "What insight emerges from this thought?");
    assert!(a.contains("Tensor algebras"));
}

#[test]
fn test_detect_keyword_tags() {
    let tags = detect_keyword_tags("Tensor products and category theory provide universal constructions");
    assert!(tags.contains(&"tensor".to_string()));
    assert!(tags.contains(&"category-theory".to_string()));
    assert!(tags.contains(&"universal-property".to_string()));
}

#[test]
fn test_thought_to_tile() {
    let thought = Thought {
        content: "Tensor products implies a universal property for bilinear maps".to_string(),
        connections: vec!["theorem_universal".to_string()],
        questions: vec![],
        confidence: 900_000,
        strategy: Strategy::Explore,
        timestamp: now(),
    };
    let tile = thought_to_tile(&thought);
    assert_eq!(tile.domain, "fleet_math_insights");
    assert!(tile.tags.contains(&"exploration".to_string()));
    assert!(tile.tags.contains(&"murmur-bridge".to_string()));
}
