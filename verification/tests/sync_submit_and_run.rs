use murmur_plato_bridge::bidir_sync::{BidirSync, SyncResult};
use murmur_plato_bridge::bridge::{plan_thought, record_outcome, Outcome, RunTally, ThoughtStep};
use murmur_plato_bridge::plato_writer::{check_room_status, check_submit_response, room_url, rooms_url, submit_url, tiles_since, PlatoError};
use murmur_plato_bridge::tensor_parser::{connections_graph, new_thought_indices, synthetic_tensor};
use murmur_plato_bridge::{hash_thought, BridgeConfig, BridgeState, Strategy, SubmitResponse, Thought, TileResponse, Timestamp};

fn thought(content: &str, confidence: i32, connections: Vec<&str>) -> Thought {
    Thought {
        content: content.to_string(),
        connections: connections.into_iter().map(|c| c.to_string()).collect(),
        questions: vec![],
        confidence,
        strategy: Strategy::Explore,
        timestamp: Timestamp { seconds: 0, nanos: 0 },
    }
}

fn response(status: &str) -> SubmitResponse {
    SubmitResponse {
        status: status.to_string(),
        reason: "too similar".to_string(),
        room: "fleet_math_open".to_string(),
        gate: "novelty".to_string(),
        tile_hash: None,
        room_tile_count: Some(3),
        provenance: None,
        trace_id: None,
    }
}

#[test]
fn endpoint_addresses() {
    assert_eq!(submit_url("http://localhost:8847"), "http://localhost:8847/submit");
    assert_eq!(room_url("http://h:1", "fleet_math_open"), "http://h:1/room/fleet_math_open");
    assert_eq!(rooms_url("http://h:1"), "http://h:1/");
}

#[test]
fn submit_answers() {
    match check_submit_response(response("rejected")) {
        Err(PlatoError::Rejected { reason, gate }) => {
            assert_eq!(reason, "too similar");
            assert_eq!(gate, "novelty");
        }
        _ => panic!("a rejected tile is an error"),
    }
    match check_submit_response(response("accepted")) {
        Ok(r) => assert_eq!(r.room_tile_count, Some(3)),
        Err(_) => panic!("an accepted tile is no error"),
    }
}

#[test]
fn room_status() {
    match check_room_status(404, "fleet_math_none") {
        Err(PlatoError::RoomNotFound(room)) => assert_eq!(room, "fleet_math_none"),
        _ => panic!("404 is a missing room"),
    }
    assert!(check_room_status(200, "fleet_math_open").is_ok());
    assert!(check_room_status(500, "fleet_math_open").is_ok());
    let tiles = vec![TileResponse { question: "q".into(), answer: "a".into(), domain: "d".into(), hash: "h".into() }];
    assert_eq!(tiles_since(tiles, 0).len(), 1);
}

#[test]
fn sync_turns_room_tiles_into_thoughts() {
    let sync = BidirSync::new(&BridgeConfig::default());
    let tiles = vec![
        TileResponse { question: "Q1".into(), answer: "A1".into(), domain: "fleet_math_tensions".into(), hash: "h1".into() },
        TileResponse { question: "Q2".into(), answer: "A2".into(), domain: "elsewhere".into(), hash: "h2".into() },
    ];
    let mut thoughts = Vec::new();
    sync.collect_room_tiles(&tiles, &mut thoughts, Timestamp { seconds: 11, nanos: 0 });
    let result = SyncResult::from_thoughts(thoughts);
    assert_eq!(result.tiles_synced, 2);
    assert_eq!(result.thoughts_added[0].content, "[from PLATO: fleet_math_tensions] Q1 -> A1");
    assert_eq!(result.thoughts_added[0].strategy, Strategy::Contradict);
    assert_eq!(result.thoughts_added[1].strategy, Strategy::Explore);
    assert_eq!(result.thoughts_added[1].confidence, 500_000);
    assert_eq!(result.thoughts_added[1].questions, vec!["Q2".to_string()]);
    assert_eq!(result.thoughts_added[1].timestamp, Timestamp { seconds: 11, nanos: 0 });
    assert!(sync.is_recent_tile(&tiles[0]));
    assert_eq!(sync.domain_to_strategy("unknown"), Some(Strategy::Explore));
    assert_eq!(sync.settings().plato_url, "http://localhost:8847");
}

#[test]
fn recording_a_submission() {
    let sync = BidirSync::new(&BridgeConfig::default());
    let mut state = BridgeState::default();
    assert!(state.last_sync.is_none());
    sync.record_submission(&mut state, "abc".to_string(), Timestamp { seconds: 3, nanos: 4 });
    assert_eq!(state.submitted_hashes, vec!["abc".to_string()]);
    assert_eq!(state.last_sync, Some(Timestamp { seconds: 3, nanos: 4 }));
}

#[test]
fn connection_ids_are_prefixed() {
    let thoughts = vec![
        thought("a", 0, vec!["cantor", "theorem_yoneda", "thought_2"]),
        thought("b", 0, vec![]),
    ];
    let graph = connections_graph(&thoughts);
    assert_eq!(graph.len(), 1);
    assert_eq!(graph[&0], vec!["theorem_cantor".to_string(), "theorem_yoneda".to_string(), "thought_2".to_string()]);
}

#[test]
fn run_plans_and_counts() {
    let config = BridgeConfig::default();
    let good = thought("Tensor products provide a universal construction for bilinear maps across domains.", 900_000, vec![]);
    let weak = thought("Tensor products provide a universal construction for bilinear maps across all domains.", 100_000, vec![]);
    let mut state = BridgeState::default();
    let mut tally = RunTally::new();
    let h = hash_thought(&good);
    match plan_thought(&state, &good, &h, &config, &[]) {
        ThoughtStep::Submit(tile) => assert_eq!(tile.domain, "fleet_math_insights"),
        _ => panic!("a good new thought is submitted"),
    }
    assert!(matches!(plan_thought(&state, &weak, &hash_thought(&weak), &config, &[]), ThoughtStep::Filtered));
    let echo = vec![TileResponse {
        question: "Tensor products provide a universal construction".into(),
        answer: "for bilinear maps across domains.".into(),
        domain: "fleet_math_insights".into(),
        hash: "h".into(),
    }];
    assert!(matches!(plan_thought(&state, &good, &h, &config, &echo), ThoughtStep::Filtered));
    assert!(tally.has_room());
    record_outcome(&mut tally, &mut state, h.clone(), Outcome::Accepted, Timestamp { seconds: 8, nanos: 0 });
    assert_eq!(state.last_sync, Some(Timestamp { seconds: 8, nanos: 0 }));
    assert_eq!(state.submitted_hashes, vec![h.clone()]);
    assert!(matches!(plan_thought(&state, &good, &h, &config, &[]), ThoughtStep::AlreadySubmitted));
    record_outcome(&mut tally, &mut state, h.clone(), Outcome::Skipped, Timestamp { seconds: 9, nanos: 0 });
    record_outcome(&mut tally, &mut state, h.clone(), Outcome::SubmitFailed, Timestamp { seconds: 9, nanos: 0 });
    record_outcome(&mut tally, &mut state, h, Outcome::Filtered, Timestamp { seconds: 9, nanos: 0 });
    assert_eq!(state.last_sync, Some(Timestamp { seconds: 8, nanos: 0 }));
    assert_eq!((tally.submitted, tally.skipped, tally.quality_filtered), (1, 1, 2));
    assert_eq!(state.submitted_hashes.len(), 1);
    let all = vec![good.clone(), weak.clone()];
    assert_eq!(new_thought_indices(&all, &state.submitted_hashes), vec![1]);
    let full = RunTally { submitted: usize::MAX - 2, skipped: 1, quality_filtered: 1 };
    assert!(!full.has_room());
}

#[test]
fn synthetic_tensor_thoughts() {
    let now = Timestamp { seconds: 42, nanos: 1 };
    let thoughts = synthetic_tensor(now);
    assert_eq!(thoughts.len(), 3);
    assert!(thoughts.iter().all(|t| t.timestamp == now));
    assert_eq!(thoughts[0].strategy, Strategy::Explore);
    assert_eq!(thoughts[0].confidence, 920_000);
    assert_eq!(thoughts[0].connections, vec!["theorem_universal_property".to_string()]);
    assert!(thoughts[0].questions.is_empty());
    assert_eq!(thoughts[1].strategy, Strategy::Contradict);
    assert_eq!(thoughts[1].confidence, 780_000);
    assert_eq!(thoughts[1].connections.len(), 2);
    assert_eq!(thoughts[1].questions, vec!["How do we reconcile these foundational frameworks?".to_string()]);
    assert_eq!(thoughts[2].strategy, Strategy::Question);
    assert_eq!(thoughts[2].confidence, 850_000);
    assert!(thoughts[2].content.starts_with("What if adjunction and coherence"));
}
