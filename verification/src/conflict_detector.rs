//! Duplicate detection: hashes of thoughts and tiles, and the Jaccard
//! similarity of the word sets of two texts.
use vstd::prelude::*;
use crate::{thought_hash, Thought, Tile, TileResponse, CONFIDENCE_SCALE};
use crate::digest::{hash_text_pair, text_pair_hash};
use crate::text::{chars_eq, chars_of, split_whitespace, split_ws, sub_vec, views};

verus! {

broadcast use vstd::seq_lib::lemma_seq_contains_after_push;

/// The hash of a thought (for deduplication), 64 hexadecimal digits.
pub fn hash_thought(thought: &Thought) -> (r: String)
    ensures
        r@ == thought_hash(thought.content@, thought.strategy),
        r@.len() == 64,
{
    hash_text_pair(thought.content.as_str(), thought.strategy.as_str())
}

/// The hash of a tile's question followed by its answer.
pub open spec fn tile_hash(question: Seq<char>, answer: Seq<char>) -> Seq<char> {
    text_pair_hash(question, answer)
}

/// The hash of a tile's content (for deduplication), 64 hexadecimal digits.
pub fn hash_tile(tile: &Tile) -> (r: String)
    ensures
        r@ == tile_hash(tile.question@, tile.answer@),
        r@.len() == 64,
{
    hash_text_pair(tile.question.as_str(), tile.answer.as_str())
}

/// The hash of a stored tile's content, as for a tile.
fn compute_tile_response_hash(tile: &TileResponse) -> (r: String)
    ensures
        r@ == tile_hash(tile.question@, tile.answer@),
{
    hash_text_pair(tile.question.as_str(), tile.answer.as_str())
}

/// The set of words of a text.
pub open spec fn word_set(s: Seq<char>) -> Set<Seq<char>> {
    split_ws(s).to_set()
}

/// The Jaccard similarity of the word sets of two texts, as a fraction:
/// `shared` words over `total` distinct words. Two texts without words are
/// fully similar.
#[derive(Debug, Clone, Copy, PartialEq, Eq, Structural)]
pub struct Similarity {
    pub shared: usize,
    pub total: usize,
}

/// The number of words two texts share and the number of distinct words of both.
pub open spec fn jaccard(a: Seq<char>, b: Seq<char>) -> (nat, nat) {
    (word_set(a).intersect(word_set(b)).len(), word_set(a).union(word_set(b)).len())
}

/// `shared / total` (one when `total` is zero) is above a threshold given in
/// millionths.
pub open spec fn exceeds(shared: int, total: int, threshold: int) -> bool {
    if total == 0 {
        CONFIDENCE_SCALE > threshold
    } else {
        shared * CONFIDENCE_SCALE > threshold * total
    }
}

impl Similarity {
    /// Whether the similarity is above a threshold given in millionths.
    pub fn exceeds_threshold(&self, threshold: i32) -> (r: bool)
        ensures
            r == exceeds(self.shared as int, self.total as int, threshold as int),
    {
        if self.total == 0 {
            return CONFIDENCE_SCALE > threshold;
        }
        if threshold < 0 {
            assert(self.shared * CONFIDENCE_SCALE >= 0) by (nonlinear_arith)
                requires
                    self.shared >= 0,
            ;
            assert(threshold * self.total < 0) by (nonlinear_arith)
                requires
                    threshold < 0,
                    self.total > 0,
            ;
            return true;
        }
        assert((threshold as u128) * (self.total as u128) <= 0x7fff_ffffu128 * 0xffff_ffff_ffff_ffffu128)
            by (nonlinear_arith)
            requires
                0 <= threshold <= 0x7fff_ffff,
                self.total <= 0xffff_ffff_ffff_ffffu128,
        ;
        let lhs: u128 = (self.shared as u128) * 1_000_000u128;
        let rhs: u128 = (threshold as u128) * (self.total as u128);
        lhs > rhs
    }
}

proof fn lemma_push_to_set(s: Seq<Seq<char>>, x: Seq<char>)
    ensures
        s.push(x).to_set() == s.to_set().insert(x),
{
    assert(s.push(x).to_set() =~= s.to_set().insert(x));
}

/// Whether `w` is one of the words in `list`.
fn has_word(list: &Vec<Vec<char>>, w: &Vec<char>) -> (r: bool)
    ensures
        r == views(list@).contains(w@),
{
    let mut i: usize = 0;
    while i < list.len()
        invariant
            i <= list.len(),
            forall|k: int| 0 <= k < i ==> views(list@)[k] != w@,
        decreases list.len() - i,
    {
        if chars_eq(&list[i], w) {
            assert(views(list@)[i as int] == w@);
            return true;
        }
        i = i + 1;
    }
    false
}

/// The distinct words of `words`, each once, in order of first appearance.
/// The word sets are kept as such lists: vstd's hash-set model covers keys
/// with a proven hashing model (integers and the like), which text lacks.
fn distinct_words(words: &Vec<Vec<char>>) -> (r: Vec<Vec<char>>)
    ensures
        views(r@).no_duplicates(),
        views(r@).to_set() == views(words@).to_set(),
{
    let ghost ws = views(words@);
    let mut out: Vec<Vec<char>> = Vec::new();
    for i in 0..words.len()
        invariant
            ws == views(words@),
            views(out@).no_duplicates(),
            views(out@).to_set() == ws.take(i as int).to_set(),
    {
        let w = &words[i];
        assert(ws.take(i + 1) =~= ws.take(i as int).push(w@));
        if !has_word(&out, w) {
            let copy = sub_vec(w, 0, w.len());
            assert(copy@ =~= w@);
            let ghost before = views(out@);
            out.push(copy);
            assert(views(out@) =~= before.push(w@));
            proof {
                lemma_push_to_set(before, w@);
                lemma_push_to_set(ws.take(i as int), w@);
            }
        } else {
            proof {
                lemma_push_to_set(ws.take(i as int), w@);
                assert(views(out@).to_set().contains(w@));
                assert(views(out@).to_set().insert(w@) =~= views(out@).to_set());
            }
        }
    }
    assert(ws.take(words.len() as int) =~= ws);
    out
}

/// The Jaccard similarity of the word sets of two texts.
pub fn jaccard_similarity(a: &str, b: &str) -> (r: Similarity)
    ensures
        r.shared == jaccard(a@, b@).0,
        r.total == jaccard(a@, b@).1,
        r.shared <= r.total,
{
    let ca = chars_of(a);
    let cb = chars_of(b);
    let wa = split_whitespace(&ca);
    let wb = split_whitespace(&cb);
    let ua = distinct_words(&wa);
    let ub = distinct_words(&wb);
    let mut all = distinct_words(&wa);
    let ghost sa = word_set(a@);
    let ghost sb = word_set(b@);
    let ghost vb = views(ub@);
    let ghost mut common: Seq<Seq<char>> = seq![];
    let mut shared: usize = 0;
    for i in 0..ub.len()
        invariant
            vb == views(ub@),
            vb.no_duplicates(),
            vb.to_set() == sb,
            views(ua@).to_set() == sa,
            views(all@).no_duplicates(),
            views(all@).to_set() == sa.union(vb.take(i as int).to_set()),
            common.no_duplicates(),
            common.to_set() == sa.intersect(vb.take(i as int).to_set()),
            shared == common.len(),
            shared <= i,
    {
        let w = &ub[i];
        assert(vb.take(i + 1) =~= vb.take(i as int).push(w@));
        assert(!vb.take(i as int).contains(w@)) by {
            if vb.take(i as int).contains(w@) {
                let k = choose|k: int| 0 <= k < i && vb.take(i as int)[k] == w@;
                assert(vb[k] == vb[i as int]);
            }
        }
        assert(!vb.take(i as int).to_set().contains(w@));
        if has_word(&ua, w) {
            proof {
                assert(!common.to_set().contains(w@));
                assert(!common.contains(w@));
                lemma_push_to_set(common, w@);
                lemma_push_to_set(vb.take(i as int), w@);
                assert(views(ua@).to_set().contains(w@));
                common = common.push(w@);
                assert(common.to_set() =~= sa.intersect(vb.take(i + 1).to_set()));
            }
            shared = shared + 1;
            assert(views(all@).to_set() =~= sa.union(vb.take(i + 1).to_set()));
        } else {
            let copy = sub_vec(w, 0, w.len());
            assert(copy@ =~= w@);
            let ghost before = views(all@);
            assert(!views(ua@).to_set().contains(w@));
            assert(!before.to_set().contains(w@));
            assert(!before.contains(w@));
            all.push(copy);
            assert(views(all@) =~= before.push(w@));
            proof {
                lemma_push_to_set(before, w@);
                lemma_push_to_set(vb.take(i as int), w@);
            }
            assert(views(all@).to_set() =~= sa.union(vb.take(i + 1).to_set()));
            assert(common.to_set() =~= sa.intersect(vb.take(i + 1).to_set()));
        }
    }
    assert(vb.take(ub.len() as int) =~= vb);
    proof {
        common.unique_seq_to_set();
        views(all@).unique_seq_to_set();
    }
    proof {
        vstd::seq_lib::seq_to_set_is_finite(views(all@));
        assert(sa.intersect(sb).subset_of(sa.union(sb)));
        vstd::set_lib::lemma_len_subset(sa.intersect(sb), sa.union(sb));
    }
    Similarity { shared, total: all.len() }
}

/// The text a stored tile's words are taken from: its question, a space,
/// then its answer.
pub open spec fn tile_text(question: Seq<char>, answer: Seq<char>) -> Seq<char> {
    question + seq![' '] + answer
}

/// A stored tile has the thought's hash.
pub open spec fn hash_matches(thought: Thought, tile: TileResponse) -> bool {
    thought_hash(thought.content@, thought.strategy) == tile_hash(tile.question@, tile.answer@)
}

/// A stored tile's words are similar enough to the thought's content.
pub open spec fn similar_enough(thought: Thought, tile: TileResponse, threshold: int) -> bool {
    let j = jaccard(thought.content@, tile_text(tile.question@, tile.answer@));
    exceeds(j.0 as int, j.1 as int, threshold)
}

/// A thought duplicates stored tiles when one of them has its hash, or when
/// the word similarity of its content with one of them is above the threshold.
pub open spec fn duplicate_of(thought: Thought, tiles: Seq<TileResponse>, threshold: int) -> bool {
    ||| exists|i: int| 0 <= i < tiles.len() && hash_matches(thought, #[trigger] tiles[i])
    ||| exists|i: int| 0 <= i < tiles.len() && similar_enough(thought, #[trigger] tiles[i], threshold)
}

/// Whether a thought is likely a duplicate of stored tiles; `threshold` is
/// in millionths.
pub fn is_duplicate(thought: &Thought, existing_tiles: &[TileResponse], threshold: i32) -> (r: bool)
    ensures
        r == duplicate_of(*thought, existing_tiles@, threshold as int),
{
    let thought_hash = hash_thought(thought);
    for i in 0..existing_tiles.len()
        invariant
            thought_hash@ == crate::thought_hash(thought.content@, thought.strategy),
            forall|k: int| 0 <= k < i ==> !hash_matches(*thought, #[trigger] existing_tiles@[k]),
    {
        let tile_hash = compute_tile_response_hash(&existing_tiles[i]);
        if thought_hash == tile_hash {
            assert(hash_matches(*thought, existing_tiles@[i as int]));
            return true;
        }
    }
    for i in 0..existing_tiles.len()
        invariant
            forall|k: int| 0 <= k < existing_tiles@.len() ==> !hash_matches(*thought, #[trigger] existing_tiles@[k]),
            forall|k: int| 0 <= k < i ==> !similar_enough(*thought, #[trigger] existing_tiles@[k], threshold as int),
    {
        let tile = &existing_tiles[i];
        let mut combined = tile.question.clone();
        combined.push(' ');
        combined.append(tile.answer.as_str());
        assert(combined@ =~= tile_text(tile.question@, tile.answer@));
        let similarity = jaccard_similarity(thought.content.as_str(), combined.as_str());
        if similarity.exceeds_threshold(threshold) {
            assert(similar_enough(*thought, existing_tiles@[i as int], threshold as int));
            return true;
        }
    }
    false
}

/// Any one stored tile decides: a thought is a duplicate of the tiles as soon
/// as one of them, wherever it stands, has its hash or has words similar
/// enough to its content (question, a space, then answer), and it is a
/// duplicate only then.
pub proof fn law_any_tile_makes_a_duplicate(thought: Thought, tiles: Seq<TileResponse>, threshold: int)
    ensures
        forall|i: int|
            0 <= i < tiles.len() && thought_hash(thought.content@, thought.strategy) == text_pair_hash(
                #[trigger] tiles[i].question@,
                tiles[i].answer@,
            ) ==> duplicate_of(thought, tiles, threshold),
        forall|i: int|
            0 <= i < tiles.len() && ({
                let j = jaccard(thought.content@, (#[trigger] tiles[i]).question@ + seq![' '] + tiles[i].answer@);
                exceeds(j.0 as int, j.1 as int, threshold)
            }) ==> duplicate_of(thought, tiles, threshold),
        duplicate_of(thought, tiles, threshold) ==> exists|i: int|
            0 <= i < tiles.len() && ({
                ||| thought_hash(thought.content@, thought.strategy) == text_pair_hash(
                    (#[trigger] tiles[i]).question@,
                    tiles[i].answer@,
                )
                ||| exceeds(
                    jaccard(thought.content@, tiles[i].question@ + seq![' '] + tiles[i].answer@).0 as int,
                    jaccard(thought.content@, tiles[i].question@ + seq![' '] + tiles[i].answer@).1 as int,
                    threshold,
                )
            }),
{
    assert forall|i: int|
        0 <= i < tiles.len() && thought_hash(thought.content@, thought.strategy) == text_pair_hash(
            #[trigger] tiles[i].question@,
            tiles[i].answer@,
        ) implies duplicate_of(thought, tiles, threshold) by {
        assert(hash_matches(thought, tiles[i]));
    }
    assert forall|i: int|
        0 <= i < tiles.len() && ({
            let j = jaccard(thought.content@, (#[trigger] tiles[i]).question@ + seq![' '] + tiles[i].answer@);
            exceeds(j.0 as int, j.1 as int, threshold)
        }) implies duplicate_of(thought, tiles, threshold) by {
        assert(similar_enough(thought, tiles[i], threshold));
    }
}

/// More stored tiles never turn a duplicate into a novel thought: a duplicate
/// of `tiles` stays one when other tiles come before or after them.
pub proof fn law_duplicates_survive_more_tiles(
    thought: Thought,
    tiles: Seq<TileResponse>,
    more: Seq<TileResponse>,
    threshold: int,
)
    requires
        duplicate_of(thought, tiles, threshold),
    ensures
        duplicate_of(thought, tiles + more, threshold),
        duplicate_of(thought, more + tiles, threshold),
{
    if exists|i: int| 0 <= i < tiles.len() && hash_matches(thought, #[trigger] tiles[i]) {
        let i = choose|i: int| 0 <= i < tiles.len() && hash_matches(thought, #[trigger] tiles[i]);
        assert((tiles + more)[i] == tiles[i]);
        assert((more + tiles)[more.len() + i] == tiles[i]);
    } else {
        let i = choose|i: int| 0 <= i < tiles.len() && similar_enough(thought, #[trigger] tiles[i], threshold);
        assert((tiles + more)[i] == tiles[i]);
        assert((more + tiles)[more.len() + i] == tiles[i]);
    }
}

/// A stored tile whose words are exactly the words of the thought's content
/// makes the thought a duplicate for every threshold below one, wherever the
/// tile stands among the others.
pub proof fn law_same_words_make_a_duplicate(thought: Thought, tiles: Seq<TileResponse>, i: int, threshold: int)
    requires
        0 <= i < tiles.len(),
        split_ws(thought.content@).to_set() == split_ws(tiles[i].question@ + seq![' '] + tiles[i].answer@).to_set(),
        threshold < 1_000_000,
    ensures
        duplicate_of(thought, tiles, threshold),
{
    let text = tile_text(tiles[i].question@, tiles[i].answer@);
    assert(jaccard(thought.content@, text) == jaccard(text, text));
    law_jaccard_reflexive(text, threshold);
    assert(similar_enough(thought, tiles[i], threshold));
}

/// No thought among `all` has the thought's hash.
pub open spec fn novel(thought: Thought, all: Seq<Thought>) -> bool {
    forall|i: int| 0 <= i < all.len() ==> thought_hash((#[trigger] all[i]).content@, all[i].strategy)
        != thought_hash(thought.content@, thought.strategy)
}

/// Whether a thought is new compared with `all_thoughts`.
pub fn is_novel(thought: &Thought, all_thoughts: &[Thought]) -> (r: bool)
    ensures
        r == novel(*thought, all_thoughts@),
{
    let thought_hash = hash_thought(thought);
    for i in 0..all_thoughts.len()
        invariant
            thought_hash@ == crate::thought_hash(thought.content@, thought.strategy),
            forall|k: int| 0 <= k < i ==> crate::thought_hash((#[trigger] all_thoughts@[k]).content@, all_thoughts@[k].strategy)
                != thought_hash@,
    {
        if hash_thought(&all_thoughts[i]) == thought_hash {
            return false;
        }
    }
    true
}

/// Jaccard similarity does not depend on the order of the two texts.
pub proof fn law_jaccard_symmetric(a: Seq<char>, b: Seq<char>)
    ensures
        jaccard(a, b) == jaccard(b, a),
{
    assert(word_set(a).intersect(word_set(b)) =~= word_set(b).intersect(word_set(a)));
    assert(word_set(a).union(word_set(b)) =~= word_set(b).union(word_set(a)));
}

/// A text is fully similar to itself: it shares all of its words, so it is
/// above every threshold below one.
pub proof fn law_jaccard_reflexive(a: Seq<char>, threshold: int)
    requires
        threshold < CONFIDENCE_SCALE,
    ensures
        jaccard(a, a).0 == jaccard(a, a).1,
        exceeds(jaccard(a, a).0 as int, jaccard(a, a).1 as int, threshold),
{
    assert(word_set(a).intersect(word_set(a)) =~= word_set(a).union(word_set(a)));
    let n = jaccard(a, a).1 as int;
    if n != 0 {
        assert(n * CONFIDENCE_SCALE > threshold * n) by (nonlinear_arith)
            requires
                n > 0,
                threshold < CONFIDENCE_SCALE,
        ;
    }
}

/// A thought is not novel among thoughts that hold one with its content and
/// strategy.
pub proof fn law_known_thought_is_not_novel(thought: Thought, all: Seq<Thought>, i: int)
    requires
        0 <= i < all.len(),
        all[i].content@ == thought.content@,
        all[i].strategy == thought.strategy,
    ensures
        !novel(thought, all),
{
    assert(thought_hash(all[i].content@, all[i].strategy) == thought_hash(thought.content@, thought.strategy));
}

} // verus!
