//! The quality gate: which thoughts are worth bridging to PLATO, and a
//! quality score for ranking them.
use vstd::prelude::*;
use crate::{BridgeConfig, Thought, TileResponse, CONFIDENCE_SCALE};
use crate::conflict_detector::{duplicate_of, is_duplicate};
use crate::text::{chars_of, contains, contains_exec, lowercase, split_whitespace, split_ws, to_lowercase, views};

verus! {

/// The length in bytes of the UTF-8 encoding of `s` (`str::len`).
pub open spec fn byte_len(s: Seq<char>) -> nat {
    vstd::utf8::encode_utf8(s).len()
}

/// Lowercased content that holds placeholder or to-do text.
pub open spec fn holds_placeholder(lower: Seq<char>) -> bool {
    ||| contains(lower, "todo"@)
    ||| contains(lower, "tbd"@)
    ||| contains(lower, "placeholder"@)
    ||| contains(lower, "fixme"@)
    ||| contains(lower, "xxx"@)
    ||| contains(lower, "undefined"@)
    ||| contains(lower, "not yet implemented"@)
}

/// Content is substantive when its lowercase form holds no placeholder text
/// and it has at least three words.
pub open spec fn substantive(content: Seq<char>) -> bool {
    !holds_placeholder(lowercase(content)) && split_ws(content).len() >= 3
}

/// A thought is of bridging quality when its confidence reaches the threshold, its
/// content is at least the minimum length in bytes, and it is substantive.
pub open spec fn passes(thought: Thought, config: BridgeConfig) -> bool {
    &&& thought.confidence >= config.confidence_threshold
    &&& byte_len(thought.content@) >= config.min_content_len
    &&& substantive(thought.content@)
}

/// A thought is admitted to PLATO when it is of bridging quality and novel:
/// it does not duplicate the tiles of its target room (by hash, or by a
/// word similarity above the configured threshold).
pub open spec fn admitted(thought: Thought, config: BridgeConfig, room_tiles: Seq<TileResponse>) -> bool {
    passes(thought, config) && !duplicate_of(thought, room_tiles, config.similarity_threshold as int)
}

/// Whether a thought should be bridged to PLATO, given the tiles already in
/// its target room.
pub fn passes_gate(thought: &Thought, config: &BridgeConfig, room_tiles: &[TileResponse]) -> (r: bool)
    ensures
        r == admitted(*thought, *config, room_tiles@),
{
    if thought.confidence < config.confidence_threshold {
        return false;
    }
    if thought.content.as_str().as_bytes().len() < config.min_content_len {
        return false;
    }
    if !is_substantive(thought.content.as_str()) {
        return false;
    }
    if is_duplicate(thought, room_tiles, config.similarity_threshold) {
        return false;
    }
    true
}

/// Whether the lowercased text holds `pattern`.
fn holds(lower: &Vec<char>, pattern: &str) -> (r: bool)
    ensures
        r == contains(lower@, pattern@),
{
    let p = chars_of(pattern);
    contains_exec(lower, &p)
}

/// Whether already lowercased text holds placeholder or to-do text.
pub fn holds_placeholder_text(lower: &str) -> (r: bool)
    ensures
        r == holds_placeholder(lower@),
{
    let l = chars_of(lower);
    holds(&l, "todo") || holds(&l, "tbd") || holds(&l, "placeholder") || holds(&l, "fixme") || holds(
        &l,
        "xxx",
    ) || holds(&l, "undefined") || holds(&l, "not yet implemented")
}

/// Whether content is substantive, not placeholder or to-do text.
pub fn is_substantive(content: &str) -> (r: bool)
    ensures
        r == substantive(content@),
{
    let lowered = to_lowercase(content);
    if holds_placeholder_text(lowered.as_str()) {
        return false;
    }
    let chars = chars_of(content);
    let words = split_whitespace(&chars);
    assert(views(words@).len() == words@.len());
    if words.len() < 3 {
        return false;
    }
    true
}

/// The boost for long content, in millionths: the length in bytes over 500,
/// at most 0.2.
pub open spec fn length_boost(len: nat) -> int {
    if len >= 100 {
        200_000
    } else {
        (len * 2000) as int
    }
}

/// The quality score of a thought, in millionths: its confidence, plus the
/// length boost, plus 0.1 when it has questions, plus 0.1 when it has
/// connections, at most one.
pub open spec fn score(thought: Thought) -> int {
    let raw = thought.confidence + length_boost(byte_len(thought.content@)) + (if thought.questions@.len()
        > 0 {
        100_000int
    } else {
        0int
    }) + (if thought.connections@.len() > 0 {
        100_000int
    } else {
        0int
    });
    if raw < CONFIDENCE_SCALE {
        raw
    } else {
        CONFIDENCE_SCALE as int
    }
}

/// The quality score of a thought (for ranking and filtering).
pub fn quality_score(thought: &Thought, config: &BridgeConfig) -> (r: i64)
    ensures
        r == score(*thought),
        r <= CONFIDENCE_SCALE,
{
    let len = thought.content.as_str().as_bytes().len();
    let mut score: i64 = thought.confidence as i64;
    if len >= 100 {
        score = score + 200_000;
    } else {
        score = score + (len as i64) * 2000;
    }
    if thought.questions.len() > 0 {
        score = score + 100_000;
    }
    if thought.connections.len() > 0 {
        score = score + 100_000;
    }
    if score < CONFIDENCE_SCALE as i64 {
        score
    } else {
        CONFIDENCE_SCALE as i64
    }
}

/// A quality score never exceeds one, and never falls below the thought's
/// confidence (capped at one): the boosts only add.
pub proof fn law_score_bounds(thought: Thought)
    ensures
        score(thought) <= CONFIDENCE_SCALE,
        score(thought) >= (if thought.confidence < CONFIDENCE_SCALE {
            thought.confidence as int
        } else {
            CONFIDENCE_SCALE as int
        }),
{
}

/// Placeholder or to-do text keeps a thought out: content whose lowercase
/// form holds "todo", "tbd", "placeholder", "fixme", "xxx", "undefined" or
/// "not yet implemented" is not substantive, is not of bridging quality and
/// is never admitted, whatever its confidence, length and room.
pub proof fn law_placeholders_are_rejected(thought: Thought, config: BridgeConfig, room_tiles: Seq<TileResponse>)
    ensures
        ({
            let lower = lowercase(thought.content@);
            (contains(lower, "todo"@) || contains(lower, "tbd"@) || contains(lower, "placeholder"@)
                || contains(lower, "fixme"@) || contains(lower, "xxx"@) || contains(lower, "undefined"@)
                || contains(lower, "not yet implemented"@)) ==> {
                &&& holds_placeholder(lower)
                &&& !substantive(thought.content@)
                &&& !passes(thought, config)
                &&& !admitted(thought, config, room_tiles)
            }
        }),
{
}

/// Having connections adds 0.1 to the score, up to the cap of one, whether or
/// not the thought has questions: two thoughts that differ only in that one
/// has connections and the other has none score 0.1 apart below the cap.
pub proof fn law_connections_add_a_tenth(boosted: Thought, plain: Thought)
    requires
        boosted.confidence == plain.confidence,
        boosted.content@ == plain.content@,
        boosted.questions@.len() == plain.questions@.len(),
        boosted.connections@.len() > 0,
        plain.connections@.len() == 0,
    ensures
        score(boosted) == (if score(plain) + 100_000 < 1_000_000 {
            score(plain) + 100_000
        } else {
            1_000_000
        }),
{
}

/// Having questions adds 0.1 to the score, up to the cap of one, whether or
/// not the thought has connections.
pub proof fn law_questions_add_a_tenth(boosted: Thought, plain: Thought)
    requires
        boosted.confidence == plain.confidence,
        boosted.content@ == plain.content@,
        boosted.connections@.len() == plain.connections@.len(),
        boosted.questions@.len() > 0,
        plain.questions@.len() == 0,
    ensures
        score(boosted) == (if score(plain) + 100_000 < 1_000_000 {
            score(plain) + 100_000
        } else {
            1_000_000
        }),
{
}

/// A thought without questions or connections scores its confidence plus
/// its length in bytes over 500 (at most 0.2), capped at one; in millionths,
/// 2000 per byte up to 100 bytes.
pub proof fn law_bare_thought_score(thought: Thought)
    requires
        thought.questions@.len() == 0,
        thought.connections@.len() == 0,
    ensures
        ({
            let n = byte_len(thought.content@) as int;
            let boost = if n < 100 { 2000 * n } else { 200_000 };
            score(thought) == (if thought.confidence + boost < 1_000_000 {
                thought.confidence + boost
            } else {
                1_000_000
            })
        }),
{
}

/// The thoughts admitted against the tiles of the target room, in order.
pub fn filter_by_quality<'a>(thoughts: &'a [Thought], config: &BridgeConfig, room_tiles: &[TileResponse]) -> (r: Vec<&'a Thought>)
    ensures
        r@.map_values(|t: &Thought| *t) == thoughts@.filter(|t: Thought| admitted(t, *config, room_tiles@)),
{
    let mut out: Vec<&'a Thought> = Vec::new();
    for i in 0..thoughts.len()
        invariant
            out@.map_values(|t: &Thought| *t) == thoughts@.take(i as int).filter(|t: Thought| admitted(t, *config, room_tiles@)),
    {
        reveal_with_fuel(Seq::filter, 1);
        assert(thoughts@.take(i + 1).drop_last() =~= thoughts@.take(i as int));
        let t = &thoughts[i];
        if passes_gate(t, config, room_tiles) {
            out.push(t);
        }
        assert(out@.map_values(|t: &Thought| *t) =~= thoughts@.take(i + 1).filter(|t: Thought| admitted(t, *config, room_tiles@)));
    }
    assert(thoughts@.take(thoughts.len() as int) =~= thoughts@);
    out
}

} // verus!
