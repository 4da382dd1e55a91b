//! Reading the thoughts of a tensor: the graph of their connections and which
//! of them have not been submitted yet.
use std::collections::HashMap;
use vstd::prelude::*;
use crate::{hash_thought, string_views, thought_hash, Strategy, Thought, Timestamp};
use crate::text::{chars_of, occurs_at_exec, starts_with};

verus! {

broadcast use vstd::std_specs::hash::group_hash_axioms;

/// The id a connection is recorded under: as it is when it already names a
/// theorem or a thought, otherwise prefixed with `theorem_`.
pub open spec fn connection_id(conn: Seq<char>) -> Seq<char> {
    if !starts_with(conn, "theorem_"@) && !starts_with(conn, "thought_"@) {
        "theorem_"@ + conn
    } else {
        conn
    }
}

/// The ids of a thought's connections.
pub open spec fn connection_ids(t: Thought) -> Seq<Seq<char>> {
    string_views(t.connections@).map_values(|c: Seq<char>| connection_id(c))
}

/// The id of one connection.
fn connection_id_exec(conn: &String, theorem: &Vec<char>, thought: &Vec<char>) -> (r: String)
    requires
        theorem@ == "theorem_"@,
        thought@ == "thought_"@,
    ensures
        r@ == connection_id(conn@),
{
    let c = chars_of(conn.as_str());
    if !occurs_at_exec(&c, theorem, 0) && !occurs_at_exec(&c, thought, 0) {
        let mut r = String::from_str("theorem_");
        r.append(conn.as_str());
        r
    } else {
        conn.clone()
    }
}

/// The connections graph: for each thought that has connections, keyed by
/// its index `i` (the thought `thought_i`), the ids of its connections.
pub fn connections_graph(thoughts: &[Thought]) -> (r: HashMap<usize, Vec<String>>)
    ensures
        forall|i: usize| #[trigger] r@.contains_key(i) <==> (i < thoughts@.len() && thoughts@[i as int].connections@.len() > 0),
        forall|i: usize| #[trigger] r@.contains_key(i) ==> string_views(r@[i]@) == connection_ids(thoughts@[i as int]),
{
    let theorem = chars_of("theorem_");
    let thought = chars_of("thought_");
    let mut graph: HashMap<usize, Vec<String>> = HashMap::new();
    for i in 0..thoughts.len()
        invariant
            theorem@ == "theorem_"@,
            thought@ == "thought_"@,
            forall|j: usize| #[trigger] graph@.contains_key(j) <==> (j < i && thoughts@[j as int].connections@.len() > 0),
            forall|j: usize| #[trigger] graph@.contains_key(j) ==> string_views(graph@[j]@) == connection_ids(thoughts@[j as int]),
    {
        let t = &thoughts[i];
        let mut ids: Vec<String> = Vec::new();
        for c in 0..t.connections.len()
            invariant
                theorem@ == "theorem_"@,
                thought@ == "thought_"@,
                string_views(ids@) == string_views(t.connections@).take(c as int).map_values(|x: Seq<char>| connection_id(x)),
        {
            let id = connection_id_exec(&t.connections[c], &theorem, &thought);
            let ghost before = ids@;
            ids.push(id);
            assert(string_views(ids@) =~= string_views(before).push(connection_id(t.connections@[c as int]@)));
            assert(string_views(t.connections@).take(c + 1).map_values(|x: Seq<char>| connection_id(x)) =~= string_views(t.connections@).take(c as int).map_values(|x: Seq<char>| connection_id(x)).push(connection_id(t.connections@[c as int]@)));
        }
        assert(string_views(t.connections@).take(t.connections.len() as int) =~= string_views(t.connections@));
        if ids.len() > 0 {
            graph.insert(i, ids);
        }
    }
    graph
}

/// A thought is new when its hash is not among the known hashes.
pub open spec fn is_new(t: Thought, hashes: Seq<String>) -> bool {
    !string_views(hashes).contains(thought_hash(t.content@, t.strategy))
}

/// Whether `h` is one of `hashes`.
fn contains_hash(hashes: &[String], h: &String) -> (r: bool)
    ensures
        r == string_views(hashes@).contains(h@),
{
    for i in 0..hashes.len()
        invariant
            forall|k: int| 0 <= k < i ==> hashes@[k]@ != h@,
    {
        if hashes[i] == *h {
            assert(string_views(hashes@)[i as int] == h@);
            return true;
        }
    }
    assert forall|k: int| 0 <= k < string_views(hashes@).len() implies string_views(hashes@)[k] != h@ by {
        assert(hashes@[k]@ != h@);
    }
    false
}

/// The indices, in increasing order, of the thoughts whose hashes are not
/// among `existing_hashes`.
pub fn new_thought_indices(thoughts: &[Thought], existing_hashes: &[String]) -> (r: Vec<usize>)
    ensures
        forall|j: int| 0 <= j < r@.len() ==> r@[j] < thoughts@.len() && is_new(thoughts@[r@[j] as int], existing_hashes@),
        forall|j: int, k: int| 0 <= j < k < r@.len() ==> r@[j] < r@[k],
        forall|i: int| 0 <= i < thoughts@.len() && is_new(#[trigger] thoughts@[i], existing_hashes@) ==> r@.contains(i as usize),
{
    let mut out: Vec<usize> = Vec::new();
    for i in 0..thoughts.len()
        invariant
            forall|j: int| 0 <= j < out@.len() ==> out@[j] < i && is_new(thoughts@[out@[j] as int], existing_hashes@),
            forall|j: int, k: int| 0 <= j < k < out@.len() ==> out@[j] < out@[k],
            forall|m: int| 0 <= m < i && is_new(#[trigger] thoughts@[m], existing_hashes@) ==> out@.contains(m as usize),
    {
        let h = hash_thought(&thoughts[i]);
        if !contains_hash(existing_hashes, &h) {
            let ghost before = out@;
            out.push(i);
            assert forall|m: int| 0 <= m < i + 1 && is_new(#[trigger] thoughts@[m], existing_hashes@) implies out@.contains(m as usize) by {
                if m < i {
                    let j = choose|j: int| 0 <= j < before.len() && before[j] == m as usize;
                    assert(out@[j] == m as usize);
                } else {
                    assert(out@[before.len() as int] == i);
                }
            }
        }
    }
    out
}

/// A vector of strings made from string slices.
fn strings(a: &str, b: &str, n: usize) -> (r: Vec<String>)
    requires
        n <= 2,
    ensures
        n == 0 ==> r@.len() == 0,
        n == 1 ==> string_views(r@) == seq![a@],
        n == 2 ==> string_views(r@) == seq![a@, b@],
{
    let mut r: Vec<String> = Vec::new();
    if n >= 1 {
        r.push(String::from_str(a));
    }
    if n >= 2 {
        r.push(String::from_str(b));
    }
    assert(n == 1 ==> string_views(r@) =~= seq![a@]);
    assert(n == 2 ==> string_views(r@) =~= seq![a@, b@]);
    r
}

/// The three thoughts used when no tensor file can be read, all stamped `now`:
/// an exploration, a contradiction and a question.
pub fn synthetic_tensor(now: Timestamp) -> (r: Vec<Thought>)
    ensures
        r@.len() == 3,
        forall|i: int| 0 <= i < 3 ==> (#[trigger] r@[i]).timestamp == now,
        r@[0].content@ == "Tensor products provide a universal construction for bilinear maps across mathematical domains, enabling composition of morphisms in monoidal categories."@,
        string_views(r@[0].connections@) == seq!["theorem_universal_property"@],
        r@[0].questions@.len() == 0,
        r@[0].confidence == 920_000,
        r@[0].strategy == Strategy::Explore,
        r@[1].content@ == "The tension between classical set-theoretic foundations and category-theoretic abstraction reveals deep epistemological differences in mathematical practice, particularly in how infinity is handled."@,
        string_views(r@[1].connections@) == seq!["theorem_cantor"@, "theorem_klein_erlangen"@],
        string_views(r@[1].questions@) == seq!["How do we reconcile these foundational frameworks?"@],
        r@[1].confidence == 780_000,
        r@[1].strategy == Strategy::Contradict,
        r@[2].content@ == "What if adjunction and coherence conditions are two perspectives on the same underlying mathematical reality, linked by the density of representable functors?"@,
        string_views(r@[2].connections@) == seq!["theorem_yoneda"@],
        string_views(r@[2].questions@) == seq!["What deeper structure connects these concepts?"@],
        r@[2].confidence == 850_000,
        r@[2].strategy == Strategy::Question,
{
    let mut r: Vec<Thought> = Vec::new();
    r.push(
        Thought {
            content: String::from_str("Tensor products provide a universal construction for bilinear maps across mathematical domains, enabling composition of morphisms in monoidal categories."),
            connections: strings("theorem_universal_property", "", 1),
            questions: strings("", "", 0),
            confidence: 920_000,
            strategy: Strategy::Explore,
            timestamp: now,
        },
    );
    r.push(
        Thought {
            content: String::from_str("The tension between classical set-theoretic foundations and category-theoretic abstraction reveals deep epistemological differences in mathematical practice, particularly in how infinity is handled."),
            connections: strings("theorem_cantor", "theorem_klein_erlangen", 2),
            questions: strings("How do we reconcile these foundational frameworks?", "", 1),
            confidence: 780_000,
            strategy: Strategy::Contradict,
            timestamp: now,
        },
    );
    r.push(
        Thought {
            content: String::from_str("What if adjunction and coherence conditions are two perspectives on the same underlying mathematical reality, linked by the density of representable functors?"),
            connections: strings("theorem_yoneda", "", 1),
            questions: strings("What deeper structure connects these concepts?", "", 1),
            confidence: 850_000,
            strategy: Strategy::Question,
            timestamp: now,
        },
    );
    r
}

} // verus!
