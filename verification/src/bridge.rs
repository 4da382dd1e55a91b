//! One run of the bridge, thought by thought: what to do with each thought
//! of the tensor and how the outcome is counted and remembered. The
//! application performs the submissions.
use vstd::prelude::*;
use crate::{string_views, thought_hash, BridgeConfig, BridgeState, Thought, Tile, TileResponse, Timestamp};
use crate::quality_gate::{admitted, passes_gate};
use crate::tensor_parser::is_new;
use crate::tile_mapper::{is_tile_of, thought_to_tile};

verus! {

/// What to do with one thought.
pub enum ThoughtStep {
    /// Its hash is among the submitted hashes: skip it.
    AlreadySubmitted,
    /// It falls short of the quality checks or duplicates a tile of its room.
    Filtered,
    /// Submit this tile, made from it.
    Submit(Tile),
}

/// How one thought ended.
#[derive(Debug, Clone, Copy, PartialEq, Eq, Structural)]
pub enum Outcome {
    /// It had been submitted before.
    Skipped,
    /// It fell short of the quality checks or duplicated a tile of its room.
    Filtered,
    /// PLATO did not accept its tile.
    SubmitFailed,
    /// PLATO accepted its tile.
    Accepted,
}

/// The counts of a run. A submission that fails is counted with the
/// thoughts filtered for quality.
#[derive(Debug, Clone, Copy, PartialEq, Eq, Structural)]
pub struct RunTally {
    pub submitted: usize,
    pub skipped: usize,
    pub quality_filtered: usize,
}

impl RunTally {
    /// No thought counted yet.
    pub fn new() -> (r: RunTally)
        ensures
            r.submitted == 0 && r.skipped == 0 && r.quality_filtered == 0,
    {
        RunTally { submitted: 0, skipped: 0, quality_filtered: 0 }
    }

    /// The number of thoughts counted.
    pub open spec fn total(self) -> int {
        self.submitted + self.skipped + self.quality_filtered
    }

    /// Whether one more thought can be counted.
    pub fn has_room(&self) -> (r: bool)
        ensures
            r == (self.total() < usize::MAX),
    {
        self.submitted < usize::MAX - self.skipped && self.submitted + self.skipped < usize::MAX
            - self.quality_filtered
    }
}

/// Decides what to do with a thought whose hash is `hash`, given the tiles
/// of its target room: skip it when the hash was submitted before, filter it
/// when it falls short of the quality checks or duplicates one of those
/// tiles, otherwise submit the tile made from it.
pub fn plan_thought(
    state: &BridgeState,
    thought: &Thought,
    hash: &String,
    config: &BridgeConfig,
    room_tiles: &[TileResponse],
) -> (r: ThoughtStep)
    ensures
        string_views(state.submitted_hashes@).contains(hash@) ==> r is AlreadySubmitted,
        !string_views(state.submitted_hashes@).contains(hash@) && !admitted(*thought, *config, room_tiles@) ==> r is Filtered,
        !string_views(state.submitted_hashes@).contains(hash@) && admitted(*thought, *config, room_tiles@) ==> (r matches ThoughtStep::Submit(tile) && is_tile_of(tile, *thought)),
{
    let mut i: usize = 0;
    while i < state.submitted_hashes.len()
        invariant
            i <= state.submitted_hashes.len(),
            forall|k: int| 0 <= k < i ==> state.submitted_hashes@[k]@ != hash@,
        decreases state.submitted_hashes.len() - i,
    {
        if state.submitted_hashes[i] == *hash {
            assert(string_views(state.submitted_hashes@)[i as int] == hash@);
            return ThoughtStep::AlreadySubmitted;
        }
        i = i + 1;
    }
    assert(!string_views(state.submitted_hashes@).contains(hash@)) by {
        if string_views(state.submitted_hashes@).contains(hash@) {
            let k = choose|k: int| 0 <= k < state.submitted_hashes@.len() && string_views(state.submitted_hashes@)[k] == hash@;
            assert(state.submitted_hashes@[k]@ == hash@);
        }
    }
    if !passes_gate(thought, config, room_tiles) {
        return ThoughtStep::Filtered;
    }
    ThoughtStep::Submit(thought_to_tile(thought))
}

/// Counts the outcome of one thought; a tile PLATO accepted has its
/// thought's hash recorded in the state with the time of the submission, `now`.
pub fn record_outcome(tally: &mut RunTally, state: &mut BridgeState, hash: String, outcome: Outcome, now: Timestamp)
    requires
        old(tally).total() < usize::MAX,
    ensures
        outcome == Outcome::Accepted ==> final(tally).submitted == old(tally).submitted + 1
            && final(tally).skipped == old(tally).skipped && final(tally).quality_filtered == old(tally).quality_filtered
            && final(state).submitted_hashes@ == old(state).submitted_hashes@.push(hash)
            && final(state).last_sync == Some(now),
        outcome == Outcome::Skipped ==> final(tally).skipped == old(tally).skipped + 1
            && final(tally).submitted == old(tally).submitted && final(tally).quality_filtered == old(tally).quality_filtered
            && *final(state) == *old(state),
        (outcome == Outcome::Filtered || outcome == Outcome::SubmitFailed) ==> final(tally).quality_filtered
            == old(tally).quality_filtered + 1 && final(tally).submitted == old(tally).submitted
            && final(tally).skipped == old(tally).skipped && *final(state) == *old(state),
        final(tally).total() == old(tally).total() + 1,
{
    match outcome {
        Outcome::Accepted => {
            tally.submitted = tally.submitted + 1;
            state.submitted_hashes.push(hash);
            state.last_sync = Some(now);
        },
        Outcome::Skipped => {
            tally.skipped = tally.skipped + 1;
        },
        Outcome::Filtered | Outcome::SubmitFailed => {
            tally.quality_filtered = tally.quality_filtered + 1;
        },
    }
}

/// A thought whose hash has been recorded is not submitted again: it is no
/// longer new, and the next plan for it is to skip it.
pub proof fn law_recorded_hash_is_skipped(before: Seq<String>, after: Seq<String>, hash: String, thought: Thought)
    requires
        after == before.push(hash),
        hash@ == thought_hash(thought.content@, thought.strategy),
    ensures
        string_views(after).contains(hash@),
        !is_new(thought, after),
{
    assert(string_views(after)[before.len() as int] == hash@);
}

} // verus!
