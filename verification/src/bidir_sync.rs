//! The decisions of the PLATO → tensor direction: which rooms are read,
//! which tiles are taken, how a tile becomes a thought, and how a submission
//! is recorded in the bridge's state.
use vstd::prelude::*;
use crate::{string_views, BridgeConfig, BridgeState, Strategy, Thought, TileResponse, Timestamp};
use crate::text::str_eq;
use crate::tile_mapper::domain_of;

verus! {

/// The sync side of the bridge, with its settings.
pub struct BidirSync {
    config: BridgeConfig,
}

/// The thoughts made from the tiles read in one sync.
pub struct SyncResult {
    pub tiles_synced: usize,
    pub thoughts_added: Vec<Thought>,
}

impl SyncResult {
    /// The result of a sync that produced `thoughts`.
    pub fn from_thoughts(thoughts: Vec<Thought>) -> (r: SyncResult)
        ensures
            r.thoughts_added == thoughts,
            r.tiles_synced == thoughts@.len(),
    {
        SyncResult { tiles_synced: thoughts.len(), thoughts_added: thoughts }
    }
}

/// The fleet rooms a sync reads, in order.
pub open spec fn fleet_rooms() -> Seq<Seq<char>> {
    seq![
        "fleet_math_insights"@,
        "fleet_math_tensions"@,
        "fleet_math_synthesis"@,
        "fleet_math_open"@,
        "fleet_math_bridges"@,
    ]
}

/// The strategy inferred from a domain; an unknown domain counts as exploration.
pub open spec fn strategy_for_domain(domain: Seq<char>) -> Strategy {
    if domain == "fleet_math_insights"@ {
        Strategy::Explore
    } else if domain == "fleet_math_tensions"@ {
        Strategy::Contradict
    } else if domain == "fleet_math_synthesis"@ {
        Strategy::Synthesize
    } else if domain == "fleet_math_open"@ {
        Strategy::Question
    } else if domain == "fleet_math_bridges"@ {
        Strategy::Connect
    } else {
        Strategy::Explore
    }
}

/// The content of the thought made from a PLATO tile during a sync.
pub open spec fn synced_content(domain: Seq<char>, question: Seq<char>, answer: Seq<char>) -> Seq<char> {
    "[from PLATO: "@ + domain + "] "@ + question + " -> "@ + answer
}

/// The thought made from a tile during a sync, up to its time stamp: the
/// strategy of its domain, a neutral confidence of one half, the tile's
/// question as its only question, no connections.
pub open spec fn synced_thought(tile: TileResponse, t: Thought) -> bool {
    &&& t.content@ == synced_content(tile.domain@, tile.question@, tile.answer@)
    &&& t.connections@.len() == 0
    &&& string_views(t.questions@) == seq![tile.question@]
    &&& t.confidence == 500_000
    &&& t.strategy == strategy_for_domain(tile.domain@)
}

impl BidirSync {
    /// A sync side with a copy of the settings.
    pub fn new(config: &BridgeConfig) -> (r: Self)
        ensures
            r.config() == *config,
    {
        BidirSync { config: config.clone() }
    }

    /// The settings.
    pub closed spec fn config(&self) -> BridgeConfig {
        self.config
    }

    /// The settings.
    pub fn settings(&self) -> (r: &BridgeConfig)
        ensures
            *r == self.config(),
    {
        &self.config
    }

    /// The fleet rooms to sync from.
    pub fn get_fleet_math_rooms(&self) -> (r: Vec<String>)
        ensures
            string_views(r@) == fleet_rooms(),
    {
        let mut rooms: Vec<String> = Vec::new();
        rooms.push(String::from_str("fleet_math_insights"));
        rooms.push(String::from_str("fleet_math_tensions"));
        rooms.push(String::from_str("fleet_math_synthesis"));
        rooms.push(String::from_str("fleet_math_open"));
        rooms.push(String::from_str("fleet_math_bridges"));
        assert(string_views(rooms@) =~= fleet_rooms());
        rooms
    }

    /// Whether a tile is recent enough to sync; every tile of a fleet room is
    /// taken.
    pub fn is_recent_tile(&self, tile: &TileResponse) -> (r: bool)
        ensures
            r,
    {
        true
    }

    /// The strategy a domain suggests.
    pub fn domain_to_strategy(&self, domain: &str) -> (r: Option<Strategy>)
        ensures
            r == Some(strategy_for_domain(domain@)),
    {
        if str_eq(domain, "fleet_math_insights") {
            Some(Strategy::Explore)
        } else if str_eq(domain, "fleet_math_tensions") {
            Some(Strategy::Contradict)
        } else if str_eq(domain, "fleet_math_synthesis") {
            Some(Strategy::Synthesize)
        } else if str_eq(domain, "fleet_math_open") {
            Some(Strategy::Question)
        } else if str_eq(domain, "fleet_math_bridges") {
            Some(Strategy::Connect)
        } else {
            Some(Strategy::Explore)
        }
    }

    /// Converts a PLATO tile to a synthetic thought stamped `now`.
    pub fn tile_to_thought(&self, tile: &TileResponse, now: Timestamp) -> (r: Option<Thought>)
        ensures
            r matches Some(t) && synced_thought(*tile, t) && t.timestamp == now,
    {
        let strategy = match self.domain_to_strategy(tile.domain.as_str()) {
            Some(s) => s,
            None => {
                return None;
            },
        };
        let mut content = String::from_str("[from PLATO: ");
        content.append(tile.domain.as_str());
        content.append("] ");
        content.append(tile.question.as_str());
        content.append(" -> ");
        content.append(tile.answer.as_str());
        let mut questions: Vec<String> = Vec::new();
        questions.push(tile.question.clone());
        assert(string_views(questions@) =~= seq![tile.question@]);
        Some(
            Thought {
                content,
                connections: Vec::new(),
                questions,
                confidence: 500_000,
                strategy,
                timestamp: now,
            },
        )
    }

    /// Appends to `thoughts` the thought made from each recent tile of a room,
    /// in the order of the tiles, each stamped `now`.
    pub fn collect_room_tiles(&self, tiles: &Vec<TileResponse>, thoughts: &mut Vec<Thought>, now: Timestamp)
        ensures
            final(thoughts)@.len() == old(thoughts)@.len() + tiles@.len(),
            forall|i: int| 0 <= i < old(thoughts)@.len() ==> final(thoughts)@[i] == old(thoughts)@[i],
            forall|j: int| 0 <= j < tiles@.len() ==> synced_thought(tiles@[j], #[trigger] final(thoughts)@[old(thoughts)@.len() + j])
                && final(thoughts)@[old(thoughts)@.len() + j].timestamp == now,
    {
        let ghost start = thoughts@;
        for j in 0..tiles.len()
            invariant
                thoughts@.len() == start.len() + j,
                forall|i: int| 0 <= i < start.len() ==> thoughts@[i] == start[i],
                forall|k: int| 0 <= k < j ==> synced_thought(tiles@[k], #[trigger] thoughts@[start.len() + k])
                    && thoughts@[start.len() + k].timestamp == now,
        {
            let tile = &tiles[j];
            if self.is_recent_tile(tile) {
                match self.tile_to_thought(tile, now) {
                    Some(t) => {
                        thoughts.push(t);
                    },
                    None => {},
                }
            }
        }
    }

    /// Records a submitted thought's hash and the time of the submission, `now`.
    pub fn record_submission(&self, state: &mut BridgeState, hash: String, now: Timestamp)
        ensures
            final(state).submitted_hashes@ == old(state).submitted_hashes@.push(hash),
            final(state).last_sync == Some(now),
    {
        state.submitted_hashes.push(hash);
        state.last_sync = Some(now);
    }
}

/// A fleet room maps back to the strategy that routes to it: inferring a
/// strategy from the domain of a strategy gives that strategy back.
pub proof fn law_domain_strategy_roundtrip(s: Strategy)
    ensures
        strategy_for_domain(domain_of(s)) == s,
{
    reveal_strlit("fleet_math_insights");
    reveal_strlit("fleet_math_tensions");
    reveal_strlit("fleet_math_synthesis");
    reveal_strlit("fleet_math_open");
    reveal_strlit("fleet_math_bridges");
    assert("fleet_math_tensions"@[11] != "fleet_math_insights"@[11]);
    assert("fleet_math_synthesis"@[11] != "fleet_math_insights"@[11]);
    assert("fleet_math_synthesis"@[11] != "fleet_math_tensions"@[11]);
    assert("fleet_math_open"@.len() != "fleet_math_insights"@.len());
    assert("fleet_math_open"@.len() != "fleet_math_tensions"@.len());
    assert("fleet_math_open"@.len() != "fleet_math_synthesis"@.len());
    assert("fleet_math_bridges"@[11] != "fleet_math_insights"@[11]);
    assert("fleet_math_bridges"@[11] != "fleet_math_tensions"@[11]);
    assert("fleet_math_bridges"@[11] != "fleet_math_synthesis"@[11]);
    assert("fleet_math_bridges"@.len() != "fleet_math_open"@.len());
}

/// The rooms a sync reads are exactly the domains the five strategies route
/// to, one per strategy, in the order of the strategies.
pub proof fn law_fleet_rooms_are_strategy_domains()
    ensures
        fleet_rooms() == seq![
            domain_of(Strategy::Explore),
            domain_of(Strategy::Contradict),
            domain_of(Strategy::Synthesize),
            domain_of(Strategy::Question),
            domain_of(Strategy::Connect),
        ],
        forall|i: int| 0 <= i < fleet_rooms().len() ==> domain_of(strategy_for_domain(#[trigger] fleet_rooms()[i])) == fleet_rooms()[i],
{
    law_domain_strategy_roundtrip(Strategy::Explore);
    law_domain_strategy_roundtrip(Strategy::Contradict);
    law_domain_strategy_roundtrip(Strategy::Synthesize);
    law_domain_strategy_roundtrip(Strategy::Question);
    law_domain_strategy_roundtrip(Strategy::Connect);
    assert(fleet_rooms() =~= seq![
        domain_of(Strategy::Explore),
        domain_of(Strategy::Contradict),
        domain_of(Strategy::Synthesize),
        domain_of(Strategy::Question),
        domain_of(Strategy::Connect),
    ]);
}

/// A tile read from a fleet room becomes a thought that the mapper routes
/// back to the same room.
pub proof fn law_synced_thought_returns_to_its_room(tile: TileResponse, t: Thought)
    requires
        synced_thought(tile, t),
        fleet_rooms().contains(tile.domain@),
    ensures
        domain_of(t.strategy) == tile.domain@,
{
    law_fleet_rooms_are_strategy_domains();
    let i = choose|i: int| 0 <= i < fleet_rooms().len() && fleet_rooms()[i] == tile.domain@;
    assert(domain_of(strategy_for_domain(fleet_rooms()[i])) == fleet_rooms()[i]);
}

} // verus!
