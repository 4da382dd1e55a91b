use murmur_plato_bridge::quality_gate::{is_substantive, passes_gate, quality_score};
use murmur_plato_bridge::{BridgeConfig, Strategy, Thought, Timestamp};

fn now() -> Timestamp {
    let t = chrono::Utc::now();
    Timestamp { seconds: t.timestamp(), nanos: t.timestamp_subsec_nanos() }
}

fn make_config() -> BridgeConfig {
    BridgeConfig {
        confidence_threshold: 700_000,
        min_content_len: 50,
        similarity_threshold: 850_000,
        ..Default::default()
    }
}

#[test]
fn quality_gate_test_passes_gate_high_confidence() {
    let config = make_config();
    let thought = Thought {
        content: "Tensor products provide a universal construction for bilinear maps across mathematical domains.".to_string(),
        connections: vec!["theorem_universal".to_string()],
        questions: vec![],
        confidence: 920_000,
        strategy: Strategy::Explore,
        timestamp: now(),
    };
    assert!(passes_gate(&thought, &config, &[]));
}

#[test]
fn quality_gate_test_fails_gate_low_confidence() {
    let config = make_config();
    let thought = Thought {
        content: "This is a test thought with sufficient length to pass the content gate.".to_string(),
        connections: vec![],
        questions: vec![],
        confidence: 300_000,
        strategy: Strategy::Explore,
        timestamp: now(),
    };
    assert!(!passes_gate(&thought, &config, &[]));
}

#[test]
fn quality_gate_test_fails_gate_short_content() {
    let config = make_config();
    let thought = Thought {
        content: "Too short".to_string(),
        connections: vec![],
        questions: vec![],
        confidence: 950_000,
        strategy: Strategy::Explore,
        timestamp: now(),
    };
    assert!(!passes_gate(&thought, &config, &[]));
}

#[test]
fn test_fails_gate_placeholder() {
    let config = make_config();
    let thought = Thought {
        content: "This is TODO and needs to be fixed".to_string(),
        connections: vec![],
        questions: vec![],
        confidence: 950_000,
        strategy: Strategy::Explore,
        timestamp: now(),
    };
    assert!(!passes_gate(&thought, &config, &[]));
}

#[test]
fn test_quality_score() {
    let config = make_config();
    let thought = Thought {
        content: "Tensor products provide a universal construction for bilinear maps across mathematical domains.".to_string(),
        connections: vec!["theorem_universal".to_string()],
        questions: vec!["What about coherence?".to_string()],
        confidence: 800_000,
        strategy: Strategy::Explore,
        timestamp: now(),
    };
    let score = quality_score(&thought, &config);
    assert!(score > 800_000);
    assert!(score <= 1_000_000);
}

#[test]
fn test_is_substantive() {
    assert!(is_substantive("This is a substantive thought about tensor products."));
    assert!(!is_substantive("TODO"));
    assert!(!is_substantive("Fixme"));
    assert!(!is_substantive("ab"));
}
