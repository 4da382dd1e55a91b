use murmur_plato_bridge::tile_mapper::{keyword_tags_of_lowered, normalize_lowered};
use murmur_plato_bridge::quality_gate::{filter_by_quality, is_substantive, passes_gate, quality_score};
use murmur_plato_bridge::tile_mapper::{detect_keyword_tags, strategy_to_tag, thought_to_tile, tile_to_thought};
use murmur_plato_bridge::{BridgeConfig, Strategy, Thought, TileResponse, Timestamp};
use murmur_plato_bridge::quality_gate::holds_placeholder_text;

fn thought(content: &str, confidence: i32, questions: usize, connections: usize) -> Thought {
    Thought {
        content: content.to_string(),
        connections: vec!["theorem_x".to_string(); connections],
        questions: vec!["Why?".to_string(); questions],
        confidence,
        strategy: Strategy::Synthesize,
        timestamp: Timestamp { seconds: 1, nanos: 2 },
    }
}

#[test]
fn default_config_values() {
    let c = BridgeConfig::default();
    assert_eq!(c.plato_url, "http://localhost:8847");
    assert_eq!(c.tensor_path, "tensor.json");
    assert_eq!(c.confidence_threshold, 700_000);
    assert_eq!(c.min_content_len, 50);
    assert_eq!(c.similarity_threshold, 850_000);
}

#[test]
fn quality_score_exact_values() {
    let config = BridgeConfig::default();
    assert_eq!(quality_score(&thought("abc def ghi", 500_000, 0, 0), &config), 522_000);
    assert_eq!(quality_score(&thought("abc def ghi", 500_000, 1, 0), &config), 622_000);
    assert_eq!(quality_score(&thought("abc def ghi", 500_000, 1, 1), &config), 722_000);
    let long = "x".repeat(600);
    assert_eq!(quality_score(&thought(&long, 300_000, 0, 0), &config), 500_000);
    assert_eq!(quality_score(&thought(&long, 900_000, 1, 1), &config), 1_000_000);
    assert_eq!(quality_score(&thought("", -200_000, 0, 0), &config), -200_000);
}

#[test]
fn gate_boundaries() {
    let config = BridgeConfig::default();
    let fifty = "one two three four five six seven eight nine ten x";
    assert_eq!(fifty.len(), 50);
    assert!(passes_gate(&thought(fifty, 700_000, 0, 0), &config, &[]));
    assert!(!passes_gate(&thought(fifty, 699_999, 0, 0), &config, &[]));
    assert!(!passes_gate(&thought(&fifty[1..], 700_000, 0, 0), &config, &[]));
    let two_words = format!("{} {}", "a".repeat(30), "b".repeat(30));
    assert!(!passes_gate(&thought(&two_words, 900_000, 0, 0), &config, &[]));
    let placeholder = "this long enough sentence is still not yet implemented at all here";
    assert!(!passes_gate(&thought(placeholder, 900_000, 0, 0), &config, &[]));
}

#[test]
fn substantive_placeholders_are_case_insensitive() {
    assert!(!is_substantive("a b XXX c"));
    assert!(!is_substantive("value is Undefined here"));
    assert!(!is_substantive("tbd for now ok"));
    assert!(is_substantive("three real words"));
    assert!(!is_substantive("two words"));
}

#[test]
fn filter_keeps_passing_thoughts_in_order() {
    let config = BridgeConfig::default();
    let good = "Tensor products provide a universal construction for bilinear maps across domains.";
    let thoughts = vec![
        thought(good, 900_000, 0, 0),
        thought(good, 100_000, 0, 0),
        thought("short", 900_000, 0, 0),
        thought(good, 800_000, 0, 0),
    ];
    let kept = filter_by_quality(&thoughts, &config, &[]);
    assert_eq!(kept.len(), 2);
    assert_eq!(kept[0].confidence, 900_000);
    assert_eq!(kept[1].confidence, 800_000);
}

#[test]
fn keyword_tags_in_table_order_and_case_insensitive() {
    let tags = detect_keyword_tags("TOPOLOGY meets Logic, Algebra and the Foundation of Bilinear forms");
    assert_eq!(tags, vec!["topology", "algebra", "logic", "foundations", "bilinear"]);
    assert!(detect_keyword_tags("nothing relevant").is_empty());
}

#[test]
fn tile_tags_exact() {
    let t = Thought {
        content: "Tensor products implies a universal property for bilinear maps".to_string(),
        connections: vec![],
        questions: vec![],
        confidence: 900_000,
        strategy: Strategy::Question,
        timestamp: Timestamp { seconds: 0, nanos: 0 },
    };
    let tile = thought_to_tile(&t);
    assert_eq!(tile.domain, "fleet_math_open");
    assert_eq!(tile.question, "What does Tensor products imply?");
    assert_eq!(tile.answer, "a universal property for bilinear maps");
    assert_eq!(tile.tags, vec!["open-question", "tensor", "universal-property", "bilinear", "murmur-bridge"]);
    assert_eq!(strategy_to_tag(&Strategy::Connect), "bridge");
    assert_eq!(Strategy::Synthesize.to_string(), "synthesize");
    assert_eq!(Strategy::Contradict.as_str(), "contradict");
}

#[test]
fn tile_becomes_thought() {
    let tile = TileResponse {
        question: "What is a functor?".to_string(),
        answer: "A map of categories".to_string(),
        domain: "fleet_math_insights".to_string(),
        hash: "h".to_string(),
    };
    let t = tile_to_thought(&tile, Strategy::Connect, Timestamp { seconds: 7, nanos: 9 });
    assert_eq!(t.content, "What is a functor? Answer: A map of categories");
    assert!(t.connections.is_empty());
    assert_eq!(t.questions, vec!["What is a functor?".to_string()]);
    assert_eq!(t.confidence, 500_000);
    assert_eq!(t.strategy, Strategy::Connect);
    assert_eq!(t.timestamp, Timestamp { seconds: 7, nanos: 9 });
}

#[test]
fn gate_rejects_duplicates_of_the_room() {
    let config = BridgeConfig::default();
    let content = "Tensor products provide a universal construction for bilinear maps across domains.";
    let t = thought(content, 900_000, 0, 0);
    let same = TileResponse {
        question: "Tensor products provide a universal".to_string(),
        answer: "construction for bilinear maps across domains.".to_string(),
        domain: "fleet_math_synthesis".to_string(),
        hash: String::new(),
    };
    let other = TileResponse {
        question: "What is a monad?".to_string(),
        answer: "A monoid in endofunctors.".to_string(),
        domain: "fleet_math_synthesis".to_string(),
        hash: String::new(),
    };
    assert!(passes_gate(&t, &config, &[other.clone()]));
    assert!(!passes_gate(&t, &config, &[other.clone(), same.clone()]));
    let thoughts = vec![t.clone()];
    let kept = filter_by_quality(&thoughts, &config, &[same]);
    assert!(kept.is_empty());
}

#[test]
fn placeholder_check_on_lowered_text() {
    assert!(holds_placeholder_text("this is not yet implemented"));
    assert!(holds_placeholder_text("fixme later"));
    assert!(!holds_placeholder_text("TODO"));
    assert!(!holds_placeholder_text("a finished thought"));
}

#[test]
fn keyword_and_tag_logic_on_lowered_text() {
    assert_eq!(keyword_tags_of_lowered("universal bilinear tensor"), vec!["tensor", "universal-property", "bilinear"]);
    assert!(keyword_tags_of_lowered("TENSOR").is_empty());
    assert_eq!(normalize_lowered("  open \t question  "), "open-question");
    assert_eq!(normalize_lowered("one"), "one");
    assert_eq!(normalize_lowered(""), "");
}
