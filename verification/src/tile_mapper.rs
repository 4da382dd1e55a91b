//! Thought → tile: the domain and tag a strategy routes to, the question and
//! answer read from a thought's content, the tags found in it; and PLATO tile
//! → thought.
use vstd::prelude::*;
use crate::{string_views, Strategy, Timestamp, Thought, Tile, TileResponse};
use crate::grammar::{connective_search_exec, connective_split, line_end_exec, open_question, open_question_exec};
use crate::text::{
    occurs_at, is_ws, lemma_split_ws_words, chars_of, contains, contains_exec, lowercase, push_range, split_whitespace, split_ws, string_of,
    sub_vec, to_lowercase, trim, trim_bounds, views,
};

verus! {

/// The PLATO domain (room) that a strategy routes to.
pub open spec fn domain_of(s: Strategy) -> Seq<char> {
    match s {
        Strategy::Explore => "fleet_math_insights"@,
        Strategy::Contradict => "fleet_math_tensions"@,
        Strategy::Synthesize => "fleet_math_synthesis"@,
        Strategy::Question => "fleet_math_open"@,
        Strategy::Connect => "fleet_math_bridges"@,
    }
}

/// The primary tag of a strategy.
pub open spec fn tag_of(s: Strategy) -> Seq<char> {
    match s {
        Strategy::Explore => "exploration"@,
        Strategy::Contradict => "contradiction"@,
        Strategy::Synthesize => "synthesis"@,
        Strategy::Question => "open-question"@,
        Strategy::Connect => "bridge"@,
    }
}

/// Strategy → domain.
pub fn strategy_to_domain(strategy: &Strategy) -> (r: &'static str)
    ensures
        r@ == domain_of(*strategy),
{
    match strategy {
        Strategy::Explore => "fleet_math_insights",
        Strategy::Contradict => "fleet_math_tensions",
        Strategy::Synthesize => "fleet_math_synthesis",
        Strategy::Question => "fleet_math_open",
        Strategy::Connect => "fleet_math_bridges",
    }
}

/// Strategy → primary tag.
pub fn strategy_to_tag(strategy: &Strategy) -> (r: &'static str)
    ensures
        r@ == tag_of(*strategy),
{
    match strategy {
        Strategy::Explore => "exploration",
        Strategy::Contradict => "contradiction",
        Strategy::Synthesize => "synthesis",
        Strategy::Question => "open-question",
        Strategy::Connect => "bridge",
    }
}

/// The connective of "X implies Y".
pub open spec fn implies_words() -> Seq<Seq<char>> {
    seq!["implies"@]
}

/// The connective of "X contradicts Y" (its final `s` is optional).
pub open spec fn contradicts_words() -> Seq<Seq<char>> {
    seq!["contradict"@]
}

/// The connective of "X depends on Y".
pub open spec fn depends_words() -> Seq<Seq<char>> {
    seq!["depends"@, "on"@]
}

/// The connective of "X is analogous to Y".
pub open spec fn analogous_words() -> Seq<Seq<char>> {
    seq!["is"@, "analogous"@, "to"@]
}

/// The question and the answer read from a thought's content. The content is
/// trimmed, then the first of these patterns that matches decides:
/// "X implies Y", "X contradicts Y", "X depends on Y", "X is analogous to Y",
/// "What about X?" / "What if X?"; otherwise the trimmed content is the answer
/// to a fixed question.
pub open spec fn content_split(content: Seq<char>) -> (Seq<char>, Seq<char>) {
    let t = trim(content);
    match connective_split(t, implies_words(), false) {
        Some((x, y)) => ("What does "@ + x + " imply?"@, y),
        None => match connective_split(t, contradicts_words(), true) {
            Some((x, y)) => (
                "What tension exists between "@ + x + " and "@ + y + "?"@,
                "The tension is that "@ + x + " contradicts "@ + y + "."@,
            ),
            None => match connective_split(t, depends_words(), false) {
                Some((x, y)) => ("What does "@ + x + " depend on?"@, y),
                None => match connective_split(t, analogous_words(), false) {
                    Some((x, y)) => ("What is "@ + x + " analogous to?"@, y),
                    None => match open_question(t) {
                        Some(x) => (x, "[open — investigation needed]"@),
                        None => ("What insight emerges from this thought?"@, t),
                    },
                },
            },
        },
    }
}

/// The words of a connective, as character vectors.
fn word_list(a: &str, b: &str, c: &str, n: usize) -> (r: Vec<Vec<char>>)
    requires
        1 <= n <= 3,
    ensures
        n == 1 ==> views(r@) == seq![a@],
        n == 2 ==> views(r@) == seq![a@, b@],
        n == 3 ==> views(r@) == seq![a@, b@, c@],
{
    let mut r: Vec<Vec<char>> = Vec::new();
    r.push(chars_of(a));
    if n >= 2 {
        r.push(chars_of(b));
    }
    if n >= 3 {
        r.push(chars_of(c));
    }
    assert(n == 1 ==> views(r@) =~= seq![a@]);
    assert(n == 2 ==> views(r@) =~= seq![a@, b@]);
    assert(n == 3 ==> views(r@) =~= seq![a@, b@, c@]);
    r
}

/// Splits thought content into a question and an answer.
pub fn parse_content(content: &str) -> (r: (String, String))
    ensures
        (r.0@, r.1@) == content_split(content@),
{
    let v = chars_of(content);
    let (a, b) = trim_bounds(&v);
    let t = sub_vec(&v, a, b);
    assert(t@ == trim(content@));

    let implies = word_list("implies", "", "", 1);
    match connective_search_exec(&t, &implies, false) {
        Some((p, k, q)) => {
            let e = line_end_exec(&t, q);
            let mut question = String::from_str("What does ");
            push_range(&mut question, &t, p, k);
            question.append(" imply?");
            let answer = string_of(&t, q, e);
            return (question, answer);
        },
        None => {},
    }
    assert(connective_split(t@, implies_words(), false) is None);

    let contradicts = word_list("contradict", "", "", 1);
    match connective_search_exec(&t, &contradicts, true) {
        Some((p, k, q)) => {
            let e = line_end_exec(&t, q);
            let mut question = String::from_str("What tension exists between ");
            push_range(&mut question, &t, p, k);
            question.append(" and ");
            push_range(&mut question, &t, q, e);
            question.append("?");
            let mut answer = String::from_str("The tension is that ");
            push_range(&mut answer, &t, p, k);
            answer.append(" contradicts ");
            push_range(&mut answer, &t, q, e);
            answer.append(".");
            return (question, answer);
        },
        None => {},
    }
    assert(connective_split(t@, contradicts_words(), true) is None);

    let depends = word_list("depends", "on", "", 2);
    match connective_search_exec(&t, &depends, false) {
        Some((p, k, q)) => {
            let e = line_end_exec(&t, q);
            let mut question = String::from_str("What does ");
            push_range(&mut question, &t, p, k);
            question.append(" depend on?");
            let answer = string_of(&t, q, e);
            return (question, answer);
        },
        None => {},
    }
    assert(connective_split(t@, depends_words(), false) is None);

    let analogous = word_list("is", "analogous", "to", 3);
    match connective_search_exec(&t, &analogous, false) {
        Some((p, k, q)) => {
            let e = line_end_exec(&t, q);
            let mut question = String::from_str("What is ");
            push_range(&mut question, &t, p, k);
            question.append(" analogous to?");
            let answer = string_of(&t, q, e);
            return (question, answer);
        },
        None => {},
    }
    assert(connective_split(t@, analogous_words(), false) is None);

    match open_question_exec(&t) {
        Some((q, j)) => {
            let question = string_of(&t, q, j);
            let answer = String::from_str("[open — investigation needed]");
            return (question, answer);
        },
        None => {},
    }
    let question = String::from_str("What insight emerges from this thought?");
    let answer = string_of(&t, 0, t.len());
    assert(t@.subrange(0, t@.len() as int) =~= t@);
    (question, answer)
}

/// `seq![tag]` when the lowercased content holds `keyword`, else nothing.
pub open spec fn tag_if(lower: Seq<char>, keyword: Seq<char>, tag: Seq<char>) -> Seq<Seq<char>> {
    if contains(lower, keyword) {
        seq![tag]
    } else {
        seq![]
    }
}

/// The keyword table: each keyword and the tag it calls for, in order.
pub open spec fn keyword_table() -> Seq<(Seq<char>, Seq<char>)> {
    seq![
        ("tensor"@, "tensor"@),
        ("category"@, "category-theory"@),
        ("adjunction"@, "adjunction"@),
        ("coherence"@, "coherence"@),
        ("topology"@, "topology"@),
        ("algebra"@, "algebra"@),
        ("geometry"@, "geometry"@),
        ("logic"@, "logic"@),
        ("foundation"@, "foundations"@),
        ("abstraction"@, "abstraction"@),
        ("universal"@, "universal-property"@),
        ("bilinear"@, "bilinear"@),
    ]
}

/// The tags the entries of `table` call for in lowercased text, in table order.
pub open spec fn table_tags(lower: Seq<char>, table: Seq<(Seq<char>, Seq<char>)>) -> Seq<Seq<char>>
    decreases table.len(),
{
    if table.len() == 0 {
        seq![]
    } else {
        table_tags(lower, table.drop_last()) + tag_if(lower, table.last().0, table.last().1)
    }
}

/// The tags found in lowercased content, in the order of the keyword table.
pub open spec fn keyword_tags(lower: Seq<char>) -> Seq<Seq<char>> {
    table_tags(lower, keyword_table())
}

/// The views of a table of string slices.
pub open spec fn table_views(t: Seq<(&str, &str)>) -> Seq<(Seq<char>, Seq<char>)> {
    t.map_values(|e: (&str, &str)| (e.0@, e.1@))
}

/// The keyword table.
fn keyword_table_exec() -> (r: Vec<(&'static str, &'static str)>)
    ensures
        table_views(r@) == keyword_table(),
{
    let mut r: Vec<(&'static str, &'static str)> = Vec::new();
    r.push(("tensor", "tensor"));
    r.push(("category", "category-theory"));
    r.push(("adjunction", "adjunction"));
    r.push(("coherence", "coherence"));
    r.push(("topology", "topology"));
    r.push(("algebra", "algebra"));
    r.push(("geometry", "geometry"));
    r.push(("logic", "logic"));
    r.push(("foundation", "foundations"));
    r.push(("abstraction", "abstraction"));
    r.push(("universal", "universal-property"));
    r.push(("bilinear", "bilinear"));
    assert(table_views(r@) =~= keyword_table());
    r
}

/// Pushes `tag` when `lower` holds `keyword`.
fn push_tag_if(tags: &mut Vec<String>, lower: &Vec<char>, keyword: &str, tag: &str)
    ensures
        string_views(final(tags)@) == string_views(old(tags)@) + tag_if(lower@, keyword@, tag@),
{
    let kw = chars_of(keyword);
    if contains_exec(lower, &kw) {
        tags.push(String::from_str(tag));
        assert(string_views(tags@) =~= string_views(old(tags)@) + seq![tag@]);
    } else {
        assert(string_views(tags@) =~= string_views(old(tags)@) + Seq::<Seq<char>>::empty());
    }
}

/// The tags that keywords call for in already lowercased text.
pub fn keyword_tags_of_lowered(lower: &str) -> (r: Vec<String>)
    ensures
        string_views(r@) == keyword_tags(lower@),
{
    let l = chars_of(lower);
    let table = keyword_table_exec();
    let ghost kt = keyword_table();
    let mut tags: Vec<String> = Vec::new();
    assert(kt.take(0) =~= Seq::<(Seq<char>, Seq<char>)>::empty());
    assert(string_views(tags@) =~= table_tags(lower@, kt.take(0)));
    for i in 0..table.len()
        invariant
            l@ == lower@,
            kt == keyword_table(),
            table_views(table@) == kt,
            string_views(tags@) == table_tags(lower@, kt.take(i as int)),
    {
        let entry = table[i];
        assert(kt[i as int] == (entry.0@, entry.1@));
        push_tag_if(&mut tags, &l, entry.0, entry.1);
        assert(kt.take(i + 1).drop_last() =~= kt.take(i as int));
        assert(kt.take(i + 1).last() == kt[i as int]);
    }
    assert(kt.take(table.len() as int) =~= kt);
    tags
}

/// The tags that keywords of the content call for.
pub fn detect_keyword_tags(content: &str) -> (r: Vec<String>)
    ensures
        string_views(r@) == keyword_tags(lowercase(content@)),
{
    let lowered = to_lowercase(content);
    keyword_tags_of_lowered(lowered.as_str())
}

/// The words joined by `-`.
pub open spec fn join_dash(words: Seq<Seq<char>>) -> Seq<char>
    decreases words.len(),
{
    if words.len() == 0 {
        seq![]
    } else if words.len() == 1 {
        words[0]
    } else {
        join_dash(words.drop_last()) + seq!['-'] + words.last()
    }
}

/// A tag in lowercase kebab case: lowercased, its words joined by `-`.
pub open spec fn normalize_tag(t: Seq<char>) -> Seq<char> {
    join_dash(split_ws(lowercase(t)))
}

/// The tags of a thought before normalisation: the strategy's tag, the
/// keyword tags of the content, then `murmur-bridge`.
pub open spec fn raw_tags(strategy: Strategy, content: Seq<char>) -> Seq<Seq<char>> {
    seq![tag_of(strategy)] + keyword_tags(lowercase(content)) + seq!["murmur-bridge"@]
}

/// The tags of the tile made from a thought.
pub open spec fn tile_tags(strategy: Strategy, content: Seq<char>) -> Seq<Seq<char>> {
    raw_tags(strategy, content).map_values(|t: Seq<char>| normalize_tag(t))
}

/// Already lowercased text in kebab case: its words joined by `-`.
pub fn normalize_lowered(lower: &str) -> (r: String)
    ensures
        r@ == join_dash(split_ws(lower@)),
{
    let chars = chars_of(lower);
    let words = split_whitespace(&chars);
    let ghost ws = views(words@);
    let mut out = String::new();
    for i in 0..words.len()
        invariant
            ws == views(words@),
            ws == split_ws(lower@),
            out@ == join_dash(ws.take(i as int)),
    {
        assert(ws.take(i + 1).drop_last() =~= ws.take(i as int));
        assert(ws.take(i + 1).last() == words@[i as int]@);
        if i > 0 {
            out.push('-');
        }
        push_range(&mut out, &words[i], 0, words[i].len());
        assert(words[i as int]@.subrange(0, words[i as int]@.len() as int) =~= words[i as int]@);
        if i == 0 {
            assert(out@ =~= join_dash(ws.take(1)));
        }
    }
    assert(ws.take(words.len() as int) =~= ws);
    out
}

/// A tag normalised to lowercase kebab case.
fn normalize_tag_exec(t: &String) -> (r: String)
    ensures
        r@ == normalize_tag(t@),
{
    let lowered = to_lowercase(t.as_str());
    normalize_lowered(lowered.as_str())
}

/// `tile` is the tile made from `thought`: the domain its strategy routes
/// to, the question and answer read from its content, and its tags.
pub open spec fn is_tile_of(tile: Tile, thought: Thought) -> bool {
    &&& tile.domain@ == domain_of(thought.strategy)
    &&& (tile.question@, tile.answer@) == content_split(thought.content@)
    &&& string_views(tile.tags@) == tile_tags(thought.strategy, thought.content@)
}

/// Converts a thought to a tile.
pub fn thought_to_tile(thought: &Thought) -> (r: Tile)
    ensures
        is_tile_of(r, *thought),
{
    let domain = String::from_str(strategy_to_domain(&thought.strategy));
    let (question, answer) = parse_content(thought.content.as_str());
    let strategy_tag = String::from_str(strategy_to_tag(&thought.strategy));
    let keyword_tags = detect_keyword_tags(thought.content.as_str());

    let mut tags: Vec<String> = Vec::new();
    tags.push(strategy_tag);
    for i in 0..keyword_tags.len()
        invariant
            string_views(tags@) == seq![tag_of(thought.strategy)] + string_views(keyword_tags@).take(i as int),
    {
        let tag = keyword_tags[i].clone();
        let ghost before = tags@;
        tags.push(tag);
        assert(tag@ == string_views(keyword_tags@)[i as int]);
        assert(string_views(tags@) =~= string_views(before).push(tag@));
        assert(string_views(keyword_tags@).take(i + 1) =~= string_views(keyword_tags@).take(i as int).push(tag@));
        assert(string_views(tags@) =~= seq![tag_of(thought.strategy)] + string_views(keyword_tags@).take(i + 1));
    }
    assert(string_views(keyword_tags@).take(keyword_tags.len() as int) =~= string_views(keyword_tags@));
    tags.push(String::from_str("murmur-bridge"));
    let ghost raw = string_views(tags@);
    assert(raw =~= raw_tags(thought.strategy, thought.content@));

    let mut normalized: Vec<String> = Vec::new();
    for i in 0..tags.len()
        invariant
            raw == string_views(tags@),
            string_views(normalized@) == raw.take(i as int).map_values(|t: Seq<char>| normalize_tag(t)),
    {
        let n = normalize_tag_exec(&tags[i]);
        let ghost before = normalized@;
        normalized.push(n);
        assert(raw[i as int] == tags@[i as int]@);
        assert(string_views(normalized@) =~= string_views(before).push(normalize_tag(raw[i as int])));
        assert(raw.take(i + 1).map_values(|t: Seq<char>| normalize_tag(t)) =~= raw.take(i as int).map_values(|t: Seq<char>| normalize_tag(t)).push(normalize_tag(raw[i as int])));
        assert(string_views(normalized@) =~= raw.take(i + 1).map_values(|t: Seq<char>| normalize_tag(t)));
    }
    assert(raw.take(tags.len() as int) =~= raw);
    Tile { domain, question, answer, tags: normalized }
}

/// The content of the thought made from a PLATO tile.
pub open spec fn tile_thought_content(question: Seq<char>, answer: Seq<char>) -> Seq<char> {
    question + " Answer: "@ + answer
}

/// Converts a PLATO tile back to a thought with a neutral confidence of
/// one half, the tile's question as its only question, stamped `now`.
pub fn tile_to_thought(tile: &TileResponse, strategy_hint: Strategy, now: Timestamp) -> (r: Thought)
    ensures
        r.timestamp == now,
        r.content@ == tile_thought_content(tile.question@, tile.answer@),
        r.connections@.len() == 0,
        string_views(r.questions@) == seq![tile.question@],
        r.confidence == 500_000,
        r.strategy == strategy_hint,
{
    let mut content = tile.question.clone();
    content.append(" Answer: ");
    content.append(tile.answer.as_str());
    let mut questions: Vec<String> = Vec::new();
    questions.push(tile.question.clone());
    assert(string_views(questions@) =~= seq![tile.question@]);
    Thought {
        content,
        connections: Vec::new(),
        questions,
        confidence: 500_000,
        strategy: strategy_hint,
        timestamp: now,
    }
}

proof fn lemma_join_dash_no_ws(words: Seq<Seq<char>>)
    requires
        forall|i: int| 0 <= i < words.len() ==> forall|j: int| 0 <= j < (#[trigger] words[i]).len() ==> !is_ws(words[i][j]),
    ensures
        forall|j: int| 0 <= j < join_dash(words).len() ==> !is_ws(#[trigger] join_dash(words)[j]),
    decreases words.len(),
{
    if words.len() >= 2 {
        let front = words.drop_last();
        assert forall|i: int| 0 <= i < front.len() implies forall|j: int| 0 <= j < (#[trigger] front[i]).len() ==> !is_ws(front[i][j]) by {
            assert(front[i] == words[i]);
        }
        lemma_join_dash_no_ws(front);
        let joined = join_dash(words);
        let a = join_dash(front);
        let last = words[words.len() - 1];
        assert(joined == a + seq!['-'] + last);
        assert forall|j: int| 0 <= j < joined.len() implies !is_ws(#[trigger] joined[j]) by {
            if j < a.len() {
                assert(joined[j] == a[j]);
            } else if j == a.len() {
                assert(joined[j] == '-');
            } else {
                assert(joined[j] == last[j - a.len() - 1]);
            }
        }
    } else if words.len() == 1 {
        assert(join_dash(words) == words[0]);
    }
}

/// Tags are normalised to kebab case: a normalised tag holds no white space.
pub proof fn law_normalized_tag_has_no_white_space(t: Seq<char>)
    ensures
        forall|j: int| 0 <= j < normalize_tag(t).len() ==> !is_ws(#[trigger] normalize_tag(t)[j]),
{
    let words = split_ws(lowercase(t));
    lemma_split_ws_words(lowercase(t));
    assert forall|i: int| 0 <= i < words.len() implies forall|j: int| 0 <= j < (#[trigger] words[i]).len() ==> !is_ws(words[i][j]) by {
        assert(words[i].len() > 0);
    }
    lemma_join_dash_no_ws(words);
}

/// A tile's tags start with its strategy's tag and end with `murmur-bridge`
/// (both normalised), with the keyword tags of its content between them.
pub proof fn law_tile_tags_frame(strategy: Strategy, content: Seq<char>)
    ensures
        tile_tags(strategy, content).len() == keyword_tags(lowercase(content)).len() + 2,
        tile_tags(strategy, content)[0] == normalize_tag(tag_of(strategy)),
        tile_tags(strategy, content).last() == normalize_tag("murmur-bridge"@),
        forall|i: int| 0 <= i < keyword_tags(lowercase(content)).len() ==> tile_tags(strategy, content)[i + 1]
            == normalize_tag(#[trigger] keyword_tags(lowercase(content))[i]),
{
    let raw = raw_tags(strategy, content);
    let k = keyword_tags(lowercase(content));
    assert(raw[0] == tag_of(strategy));
    assert(raw[raw.len() - 1] == "murmur-bridge"@);
    assert forall|i: int| 0 <= i < k.len() implies raw[i + 1] == #[trigger] k[i] by {}
}

/// Text found in `a` or in `b` is found in `a + b`.
proof fn lemma_contains_concat(a: Seq<char>, b: Seq<char>, n: Seq<char>)
    ensures
        contains(a, n) ==> contains(a + b, n),
        contains(b, n) ==> contains(a + b, n),
{
    if contains(a, n) {
        let i = choose|i: int| occurs_at(a, n, i);
        assert((a + b).subrange(i, i + n.len()) =~= a.subrange(i, i + n.len()));
        assert(occurs_at(a + b, n, i));
    }
    if contains(b, n) {
        let i = choose|i: int| occurs_at(b, n, i);
        assert((a + b).subrange(a.len() + i, a.len() + i + n.len()) =~= b.subrange(i, i + n.len()));
        assert(occurs_at(a + b, n, a.len() + i));
    }
}

/// Every element of `x` is an element of `y`.
#[verifier::opaque]
pub open spec fn covered(x: Seq<Seq<char>>, y: Seq<Seq<char>>) -> bool {
    forall|t: Seq<char>| x.contains(t) ==> #[trigger] y.contains(t)
}

proof fn lemma_covered_concat(x1: Seq<Seq<char>>, y1: Seq<Seq<char>>, x2: Seq<Seq<char>>, y2: Seq<Seq<char>>)
    requires
        covered(x1, x2),
        covered(y1, y2),
    ensures
        covered(x1 + y1, x2 + y2),
{
    reveal(covered);
    broadcast use vstd::seq_lib::lemma_seq_concat_contains_all_elements;
    assert forall|t: Seq<char>| (x1 + y1).contains(t) implies #[trigger] (x2 + y2).contains(t) by {
        if x1.contains(t) {
            assert(x2.contains(t));
        } else {
            assert(y1.contains(t));
            assert(y2.contains(t));
        }
    }
}

/// The tags a table calls for in `l1` are among those it calls for in `l2`
/// when all text found in `l1` is found in `l2`.
proof fn lemma_table_tags_covered(l1: Seq<char>, l2: Seq<char>, table: Seq<(Seq<char>, Seq<char>)>)
    requires
        forall|n: Seq<char>| contains(l1, n) ==> #[trigger] contains(l2, n),
    ensures
        covered(table_tags(l1, table), table_tags(l2, table)),
    decreases table.len(),
{
    if table.len() == 0 {
        reveal(covered);
    } else {
        lemma_table_tags_covered(l1, l2, table.drop_last());
        let (keyword, tag) = table.last();
        assert(covered(tag_if(l1, keyword, tag), tag_if(l2, keyword, tag))) by {
            reveal(covered);
            if contains(l1, keyword) {
                assert(contains(l2, keyword));
                assert(tag_if(l2, keyword, tag)[0] == tag);
            }
        }
        lemma_covered_concat(
            table_tags(l1, table.drop_last()),
            tag_if(l1, keyword, tag),
            table_tags(l2, table.drop_last()),
            tag_if(l2, keyword, tag),
        );
    }
}

/// Keyword detection is monotone: adding text never removes a tag. A tag
/// found in `a` or in `b` is found in `a` followed by `b`, where the
/// lowercase form of the whole is the lowercase forms of the parts put
/// together.
pub proof fn law_keyword_tags_grow(a: Seq<char>, b: Seq<char>)
    requires
        lowercase(a + b) == lowercase(a) + lowercase(b),
    ensures
        forall|t: Seq<char>|
            keyword_tags(lowercase(a)).contains(t) || keyword_tags(lowercase(b)).contains(t)
                ==> #[trigger] keyword_tags(lowercase(a + b)).contains(t),
{
    let la = lowercase(a);
    let lb = lowercase(b);
    assert forall|n: Seq<char>| contains(la, n) implies #[trigger] contains(la + lb, n) by {
        lemma_contains_concat(la, lb, n);
    }
    assert forall|n: Seq<char>| contains(lb, n) implies #[trigger] contains(la + lb, n) by {
        lemma_contains_concat(la, lb, n);
    }
    lemma_table_tags_covered(la, la + lb, keyword_table());
    lemma_table_tags_covered(lb, la + lb, keyword_table());
    reveal(covered);
}

/// Where each tag of a table comes from: an entry whose keyword the text
/// holds puts its tag among the table's tags, and every tag among them is
/// that of an entry whose keyword the text holds.
proof fn lemma_table_tags_entries(lower: Seq<char>, table: Seq<(Seq<char>, Seq<char>)>)
    ensures
        forall|i: int|
            0 <= i < table.len() && contains(lower, (#[trigger] table[i]).0) ==> table_tags(lower, table).contains(
                table[i].1,
            ),
        forall|t: Seq<char>|
            #[trigger] table_tags(lower, table).contains(t) ==> exists|i: int|
                0 <= i < table.len() && (#[trigger] table[i]).1 == t && contains(lower, table[i].0),
    decreases table.len(),
{
    if table.len() > 0 {
        let init = table.drop_last();
        lemma_table_tags_entries(lower, init);
        let (keyword, tag) = table.last();
        let before = table_tags(lower, init);
        let here = tag_if(lower, keyword, tag);
        assert(table_tags(lower, table) == before + here);
        assert forall|i: int|
            0 <= i < table.len() && contains(lower, (#[trigger] table[i]).0) implies table_tags(
            lower,
            table,
        ).contains(table[i].1) by {
            if i < table.len() - 1 {
                assert(init[i] == table[i]);
                let k = choose|k: int| 0 <= k < before.len() && before[k] == table[i].1;
                assert((before + here)[k] == table[i].1);
            } else {
                assert(here[0] == tag);
                assert((before + here)[before.len() as int] == tag);
            }
        }
        assert forall|t: Seq<char>| #[trigger] table_tags(lower, table).contains(t) implies exists|i: int|
            0 <= i < table.len() && (#[trigger] table[i]).1 == t && contains(lower, table[i].0) by {
            let k = choose|k: int| 0 <= k < (before + here).len() && (before + here)[k] == t;
            if k < before.len() {
                assert(before[k] == t);
                assert(before.contains(t));
                let i = choose|i: int| 0 <= i < init.len() && (#[trigger] init[i]).1 == t && contains(lower, init[i].0);
                assert(table[i] == init[i]);
            } else {
                assert(here.len() > 0);
                assert(table[table.len() - 1] == table.last());
            }
        }
    }
}

/// The keyword table at work: lowercased text holding "tensor", "category",
/// "adjunction", "coherence", "topology", "algebra", "geometry", "logic",
/// "foundation", "abstraction", "universal" or "bilinear" gets the tag
/// "tensor", "category-theory", "adjunction", "coherence", "topology",
/// "algebra", "geometry", "logic", "foundations", "abstraction",
/// "universal-property" or "bilinear" respectively, and gets no other tag.
pub proof fn law_keywords_give_their_tags(lower: Seq<char>)
    ensures
        contains(lower, "tensor"@) ==> keyword_tags(lower).contains("tensor"@),
        contains(lower, "category"@) ==> keyword_tags(lower).contains("category-theory"@),
        contains(lower, "adjunction"@) ==> keyword_tags(lower).contains("adjunction"@),
        contains(lower, "coherence"@) ==> keyword_tags(lower).contains("coherence"@),
        contains(lower, "topology"@) ==> keyword_tags(lower).contains("topology"@),
        contains(lower, "algebra"@) ==> keyword_tags(lower).contains("algebra"@),
        contains(lower, "geometry"@) ==> keyword_tags(lower).contains("geometry"@),
        contains(lower, "logic"@) ==> keyword_tags(lower).contains("logic"@),
        contains(lower, "foundation"@) ==> keyword_tags(lower).contains("foundations"@),
        contains(lower, "abstraction"@) ==> keyword_tags(lower).contains("abstraction"@),
        contains(lower, "universal"@) ==> keyword_tags(lower).contains("universal-property"@),
        contains(lower, "bilinear"@) ==> keyword_tags(lower).contains("bilinear"@),
        forall|t: Seq<char>|
            #[trigger] keyword_tags(lower).contains(t) ==> {
                ||| t == "tensor"@ && contains(lower, "tensor"@)
                ||| t == "category-theory"@ && contains(lower, "category"@)
                ||| t == "adjunction"@ && contains(lower, "adjunction"@)
                ||| t == "coherence"@ && contains(lower, "coherence"@)
                ||| t == "topology"@ && contains(lower, "topology"@)
                ||| t == "algebra"@ && contains(lower, "algebra"@)
                ||| t == "geometry"@ && contains(lower, "geometry"@)
                ||| t == "logic"@ && contains(lower, "logic"@)
                ||| t == "foundations"@ && contains(lower, "foundation"@)
                ||| t == "abstraction"@ && contains(lower, "abstraction"@)
                ||| t == "universal-property"@ && contains(lower, "universal"@)
                ||| t == "bilinear"@ && contains(lower, "bilinear"@)
            },
{
    let table = keyword_table();
    lemma_table_tags_entries(lower, table);
    assert(table[0] == ("tensor"@, "tensor"@));
    assert(table[1] == ("category"@, "category-theory"@));
    assert(table[2] == ("adjunction"@, "adjunction"@));
    assert(table[3] == ("coherence"@, "coherence"@));
    assert(table[4] == ("topology"@, "topology"@));
    assert(table[5] == ("algebra"@, "algebra"@));
    assert(table[6] == ("geometry"@, "geometry"@));
    assert(table[7] == ("logic"@, "logic"@));
    assert(table[8] == ("foundation"@, "foundations"@));
    assert(table[9] == ("abstraction"@, "abstraction"@));
    assert(table[10] == ("universal"@, "universal-property"@));
    assert(table[11] == ("bilinear"@, "bilinear"@));
    assert forall|t: Seq<char>| #[trigger] keyword_tags(lower).contains(t) implies {
        ||| t == "tensor"@ && contains(lower, "tensor"@)
        ||| t == "category-theory"@ && contains(lower, "category"@)
        ||| t == "adjunction"@ && contains(lower, "adjunction"@)
        ||| t == "coherence"@ && contains(lower, "coherence"@)
        ||| t == "topology"@ && contains(lower, "topology"@)
        ||| t == "algebra"@ && contains(lower, "algebra"@)
        ||| t == "geometry"@ && contains(lower, "geometry"@)
        ||| t == "logic"@ && contains(lower, "logic"@)
        ||| t == "foundations"@ && contains(lower, "foundation"@)
        ||| t == "abstraction"@ && contains(lower, "abstraction"@)
        ||| t == "universal-property"@ && contains(lower, "universal"@)
        ||| t == "bilinear"@ && contains(lower, "bilinear"@)
    } by {
        let i = choose|i: int| 0 <= i < table.len() && (#[trigger] table[i]).1 == t && contains(lower, table[i].0);
        assert(0 <= i < 12);
    }
}

/// The tags of a table are those of its entries whose keyword the text
/// holds, in table order.
proof fn lemma_table_tags_filter(lower: Seq<char>, table: Seq<(Seq<char>, Seq<char>)>)
    ensures
        table_tags(lower, table) == table.filter_map(
            |e: (Seq<char>, Seq<char>)|
                if contains(lower, e.0) {
                    Some(e.1)
                } else {
                    None
                },
        ),
    decreases table.len(),
{
    if table.len() > 0 {
        lemma_table_tags_filter(lower, table.drop_last());
    }
}

/// The keyword tags of lowercased text, exactly: going down the table
/// tensor, category, adjunction, coherence, topology, algebra, geometry,
/// logic, foundation, abstraction, universal, bilinear, the tag of each
/// keyword the text holds, once and in that order.
pub proof fn law_keyword_tags_in_table_order(lower: Seq<char>)
    ensures
        keyword_tags(lower) == seq![
            ("tensor"@, "tensor"@),
            ("category"@, "category-theory"@),
            ("adjunction"@, "adjunction"@),
            ("coherence"@, "coherence"@),
            ("topology"@, "topology"@),
            ("algebra"@, "algebra"@),
            ("geometry"@, "geometry"@),
            ("logic"@, "logic"@),
            ("foundation"@, "foundations"@),
            ("abstraction"@, "abstraction"@),
            ("universal"@, "universal-property"@),
            ("bilinear"@, "bilinear"@),
        ].filter_map(
            |e: (Seq<char>, Seq<char>)|
                if contains(lower, e.0) {
                    Some(e.1)
                } else {
                    None
                },
        ),
{
    lemma_table_tags_filter(lower, keyword_table());
}

/// Pattern precedence on the trimmed content `t`: "X implies Y" is tried
/// first, then "X contradicts Y", then "X depends on Y", then
/// "X is analogous to Y", then an open question, and the first that matches
/// decides the question and the answer, whatever the later patterns would
/// give; with none matching, the trimmed content answers the fixed question.
pub proof fn law_pattern_precedence(content: Seq<char>)
    ensures
        ({
            let t = trim(content);
            let implies = connective_split(t, seq!["implies"@], false);
            let contradicts = connective_split(t, seq!["contradict"@], true);
            let depends = connective_split(t, seq!["depends"@, "on"@], false);
            let analogous = connective_split(t, seq!["is"@, "analogous"@, "to"@], false);
            let question = open_question(t);
            &&& implies matches Some((x, y)) ==> content_split(content) == ("What does "@ + x + " imply?"@, y)
            &&& implies is None ==> (contradicts matches Some((x, y)) ==> content_split(content) == (
                "What tension exists between "@ + x + " and "@ + y + "?"@,
                "The tension is that "@ + x + " contradicts "@ + y + "."@,
            ))
            &&& (implies is None && contradicts is None) ==> (depends matches Some((x, y)) ==> content_split(content)
                == ("What does "@ + x + " depend on?"@, y))
            &&& (implies is None && contradicts is None && depends is None) ==> (analogous matches Some((x, y))
                ==> content_split(content) == ("What is "@ + x + " analogous to?"@, y))
            &&& (implies is None && contradicts is None && depends is None && analogous is None) ==> (
            question matches Some(x) ==> content_split(content) == (x, "[open — investigation needed]"@))
            &&& implies is None && contradicts is None && depends is None && analogous is None && question is None
                ==> content_split(content) == ("What insight emerges from this thought?"@, t)
        }),
{
}

} // verus!
