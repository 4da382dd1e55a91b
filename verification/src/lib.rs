//! A bridge between the thoughts of a knowledge tensor and the tiles of PLATO
//! fleet rooms: thoughts are gated by quality, mapped to tiles (domain, a
//! question and an answer, tags), checked for duplicates, and PLATO tiles
//! are turned back into thoughts.
//!
//! Confidences and thresholds are fixed-point numbers in millionths
//! (`CONFIDENCE_SCALE` stands for a confidence of one).
pub mod text;
pub mod grammar;
pub mod digest;
pub mod tile_mapper;
pub mod quality_gate;
pub mod conflict_detector;
pub mod tensor_parser;
pub mod bidir_sync;
pub mod plato_writer;
pub mod bridge;

pub use conflict_detector::hash_thought as compute_thought_hash;
pub use tensor_parser::new_thought_indices;

use vstd::prelude::*;

verus! {

/// A point in time in UTC: whole seconds since the Unix epoch and the
/// nanoseconds within that second.
#[derive(Debug, Clone, Copy, PartialEq, Eq, Structural)]
pub struct Timestamp {
    pub seconds: i64,
    pub nanos: u32,
}

/// The fixed-point value of a confidence of one.
pub const CONFIDENCE_SCALE: i32 = 1_000_000;

/// How a thought was produced.
#[derive(Debug, Clone, Copy, PartialEq, Eq, Structural)]
pub enum Strategy {
    Explore,
    Contradict,
    Synthesize,
    Question,
    Connect,
}

/// The lowercase name of a strategy.
pub open spec fn strategy_name(s: Strategy) -> Seq<char> {
    match s {
        Strategy::Explore => "explore"@,
        Strategy::Contradict => "contradict"@,
        Strategy::Synthesize => "synthesize"@,
        Strategy::Question => "question"@,
        Strategy::Connect => "connect"@,
    }
}

impl Strategy {
    /// The lowercase name of the strategy.
    pub fn as_str(&self) -> (r: &'static str)
        ensures
            r@ == strategy_name(*self),
    {
        match self {
            Strategy::Explore => "explore",
            Strategy::Contradict => "contradict",
            Strategy::Synthesize => "synthesize",
            Strategy::Question => "question",
            Strategy::Connect => "connect",
        }
    }

    /// The lowercase name of the strategy, as a `String`.
    pub fn to_string(&self) -> (r: String)
        ensures
            r@ == strategy_name(*self),
    {
        String::from_str(self.as_str())
    }
}

/// One thought of the tensor. `confidence` is in millionths.
#[derive(Debug)]
pub struct Thought {
    pub content: String,
    pub connections: Vec<String>,
    pub questions: Vec<String>,
    pub confidence: i32,
    pub strategy: Strategy,
    pub timestamp: Timestamp,
}

impl Clone for Thought {
    fn clone(&self) -> (r: Self)
        ensures
            r.content == self.content,
            r.connections@ == self.connections@,
            r.questions@ == self.questions@,
            r.confidence == self.confidence,
            r.strategy == self.strategy,
            r.timestamp == self.timestamp,
    {
        Thought {
            content: self.content.clone(),
            connections: self.connections.clone(),
            questions: self.questions.clone(),
            confidence: self.confidence,
            strategy: self.strategy,
            timestamp: self.timestamp,
        }
    }
}

/// A PLATO tile.
#[derive(Debug)]
pub struct Tile {
    pub domain: String,
    pub question: String,
    pub answer: String,
    pub tags: Vec<String>,
}

impl Clone for Tile {
    fn clone(&self) -> (r: Self)
        ensures
            r.domain == self.domain,
            r.question == self.question,
            r.answer == self.answer,
            r.tags@ == self.tags@,
    {
        Tile {
            domain: self.domain.clone(),
            question: self.question.clone(),
            answer: self.answer.clone(),
            tags: self.tags.clone(),
        }
    }
}

/// A PLATO room and the tiles it holds.
#[derive(Debug)]
pub struct RoomInfo {
    pub room: String,
    pub tile_count: usize,
    pub tiles: Vec<TileResponse>,
}

/// A tile as PLATO returns it.
#[derive(Debug)]
pub struct TileResponse {
    pub question: String,
    pub answer: String,
    pub domain: String,
    pub hash: String,
}

impl Clone for TileResponse {
    fn clone(&self) -> (r: Self)
        ensures
            r == *self,
    {
        TileResponse {
            question: self.question.clone(),
            answer: self.answer.clone(),
            domain: self.domain.clone(),
            hash: self.hash.clone(),
        }
    }
}

/// PLATO's answer to a submitted tile.
#[derive(Debug)]
pub struct SubmitResponse {
    pub status: String,
    pub reason: String,
    pub room: String,
    pub gate: String,
    pub tile_hash: Option<String>,
    pub room_tile_count: Option<u64>,
    pub provenance: Option<Provenance>,
    pub trace_id: Option<String>,
}

/// Where a stored tile came from.
#[derive(Debug)]
pub struct Provenance {
    pub signed: Option<bool>,
    pub chain_size: Option<u64>,
    pub tile_id: Option<String>,
}

/// The contents of a tensor file.
#[derive(Debug)]
pub struct TensorManifest {
    pub thoughts: Vec<Thought>,
    pub hashes: Vec<String>,
}

/// The bridge's settings. Both thresholds are in millionths.
#[derive(Debug)]
pub struct BridgeConfig {
    pub plato_url: String,
    pub tensor_path: String,
    pub confidence_threshold: i32,
    pub min_content_len: usize,
    pub similarity_threshold: i32,
}

impl Clone for BridgeConfig {
    fn clone(&self) -> (r: Self)
        ensures
            r == *self,
    {
        BridgeConfig {
            plato_url: self.plato_url.clone(),
            tensor_path: self.tensor_path.clone(),
            confidence_threshold: self.confidence_threshold,
            min_content_len: self.min_content_len,
            similarity_threshold: self.similarity_threshold,
        }
    }
}

impl Default for BridgeConfig {
    /// PLATO on the local port 8847, `tensor.json`, a confidence threshold
    /// of 0.7, content of at least 50 bytes and a similarity threshold of 0.85.
    fn default() -> (r: Self)
        ensures
            r.plato_url@ == "http://localhost:8847"@,
            r.tensor_path@ == "tensor.json"@,
            r.confidence_threshold == 700_000,
            r.min_content_len == 50,
            r.similarity_threshold == 850_000,
    {
        BridgeConfig {
            plato_url: String::from_str("http://localhost:8847"),
            tensor_path: String::from_str("tensor.json"),
            confidence_threshold: 700_000,
            min_content_len: 50,
            similarity_threshold: 850_000,
        }
    }
}

/// What the bridge remembers between runs: the hashes of the thoughts it
/// submitted and when it last submitted one.
#[derive(Debug)]
pub struct BridgeState {
    pub submitted_hashes: Vec<String>,
    pub last_sync: Option<Timestamp>,
}

impl Clone for BridgeState {
    fn clone(&self) -> (r: Self)
        ensures
            r.submitted_hashes@ == self.submitted_hashes@,
            r.last_sync == self.last_sync,
    {
        BridgeState { submitted_hashes: self.submitted_hashes.clone(), last_sync: self.last_sync }
    }
}

impl Default for BridgeState {
    /// No hashes and no time of the last submission.
    fn default() -> (r: Self)
        ensures
            r.submitted_hashes@.len() == 0,
            r.last_sync is None,
    {
        BridgeState { submitted_hashes: Vec::new(), last_sync: None }
    }
}

/// The views of a sequence of strings.
pub open spec fn string_views(v: Seq<String>) -> Seq<Seq<char>> {
    v.map_values(|s: String| s@)
}

/// The hash of a thought: the lowercase hexadecimal SHA-256 digest of the
/// UTF-8 bytes of its content followed by those of its strategy's name.
pub open spec fn thought_hash(content: Seq<char>, strategy: Strategy) -> Seq<char> {
    crate::digest::text_pair_hash(content, strategy_name(strategy))
}

/// The hash of a thought, 64 hexadecimal digits.
pub fn hash_thought(thought: &Thought) -> (r: String)
    ensures
        r@ == thought_hash(thought.content@, thought.strategy),
        r@.len() == 64,
{
    crate::digest::hash_text_pair(thought.content.as_str(), thought.strategy.as_str())
}

} // verus!
