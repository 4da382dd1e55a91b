//! The sentence patterns that split a thought into a question and an answer.
//!
//! Two shapes of pattern are recognised, with the leftmost-first meaning of a
//! regular-expression search (leftmost start, lazy and greedy repetition
//! tried in priority order, `.` matching anything but a line feed and `\s`
//! matching Unicode white space):
//!
//! * a connective `(.+?)\s+w1\s+w2 ... \s+wn\s+(.+)`, where the last word may
//!   take an optional trailing `s` (`contradicts?`);
//! * an open question `What\s+(?:about|if)\s+(.+?)\??$`.
use vstd::prelude::*;
use crate::text::{chars_of, is_white_space, is_ws, occurs_at, occurs_at_exec, views};

verus! {

/// The first index at or after `i` that holds no white space (or the length).
pub open spec fn ws_end(t: Seq<char>, i: int) -> int
    decreases t.len() - i,
{
    if 0 <= i < t.len() && is_ws(t[i]) {
        ws_end(t, i + 1)
    } else {
        i
    }
}

/// The first index at or after `i` that holds a line feed (or the length).
pub open spec fn line_end(t: Seq<char>, i: int) -> int
    decreases t.len() - i,
{
    if 0 <= i < t.len() && t[i] != '\n' {
        line_end(t, i + 1)
    } else {
        i
    }
}

/// Where `\s+w1\s+w2 ... \s+wn` ends when matched at `i`, if it matches there.
pub open spec fn words_end(t: Seq<char>, i: int, words: Seq<Seq<char>>) -> Option<int>
    decreases words.len(),
{
    if words.len() == 0 {
        Some(i)
    } else {
        let m = ws_end(t, i);
        if m > i && occurs_at(t, words[0], m) {
            words_end(t, m + words[0].len(), words.drop_first())
        } else {
            None
        }
    }
}

/// The largest index in `(lo, q]` that lies in `t` and holds no line feed:
/// where a greedy `\s+` followed by `.+` gives way to `.+`.
pub open spec fn last_line_char(t: Seq<char>, lo: int, q: int) -> Option<int>
    decreases q - lo,
{
    if q <= lo {
        None
    } else if q < t.len() && t[q] != '\n' {
        Some(q)
    } else {
        last_line_char(t, lo, q - 1)
    }
}

/// Where the right-hand capture starts when the connective is matched at `k`:
/// `\s+w1 ... \s+wn` (with the optional `s`), then `\s+`, then `(.+)`.
pub open spec fn connective_tail(t: Seq<char>, k: int, words: Seq<Seq<char>>, optional_s: bool) -> Option<int> {
    match words_end(t, k, words) {
        Some(e0) => {
            let e = if optional_s && 0 <= e0 < t.len() && t[e0] == 's' {
                e0 + 1
            } else {
                e0
            };
            let e2 = ws_end(t, e);
            if e2 > e {
                last_line_char(t, e, e2)
            } else {
                None
            }
        },
        None => None,
    }
}

/// The shortest left-hand capture `t[p..k]`, tried for `k` from `k` on: the
/// end `k` and the start of the right-hand capture.
pub open spec fn first_split(t: Seq<char>, p: int, k: int, words: Seq<Seq<char>>, optional_s: bool) -> Option<(int, int)>
    decreases t.len() + 1 - k,
{
    if k > line_end(t, p) || k > t.len() {
        None
    } else {
        match connective_tail(t, k, words, optional_s) {
            Some(q) => Some((k, q)),
            None => first_split(t, p, k + 1, words, optional_s),
        }
    }
}

/// The leftmost match of the connective at or after `p`: its start, the end
/// of the left-hand capture and the start of the right-hand capture.
pub open spec fn connective_search(t: Seq<char>, p: int, words: Seq<Seq<char>>, optional_s: bool) -> Option<(int, int, int)>
    decreases t.len() - p,
{
    if p < 0 || p >= t.len() {
        None
    } else {
        match first_split(t, p, p + 1, words, optional_s) {
            Some((k, q)) => Some((p, k, q)),
            None => connective_search(t, p + 1, words, optional_s),
        }
    }
}

/// The two captures of the connective pattern in `t`, if it matches:
/// the left-hand side and the rest of the line after the connective.
pub open spec fn connective_split(t: Seq<char>, words: Seq<Seq<char>>, optional_s: bool) -> Option<(Seq<char>, Seq<char>)> {
    match connective_search(t, 0, words, optional_s) {
        Some((p, k, q)) => Some((t.subrange(p, k), t.subrange(q, line_end(t, q)))),
        None => None,
    }
}

/// The largest index in `(lo, q]` from which the rest of `t` is one
/// non-empty line.
pub open spec fn last_clean_start(t: Seq<char>, lo: int, q: int) -> Option<int>
    decreases q - lo,
{
    if q <= lo {
        None
    } else if q < t.len() && line_end(t, q) == t.len() {
        Some(q)
    } else {
        last_clean_start(t, lo, q - 1)
    }
}

/// The capture of `What\s+(?:about|if)\s+(.+?)\??$` when matched at `p`, as
/// its bounds.
pub open spec fn open_question_at(t: Seq<char>, p: int) -> Option<(int, int)> {
    let what = "What"@;
    if !occurs_at(t, what, p) {
        None
    } else {
        let m = ws_end(t, p + what.len());
        let e = if occurs_at(t, "about"@, m) {
            m + "about"@.len()
        } else if occurs_at(t, "if"@, m) {
            m + "if"@.len()
        } else {
            -1
        };
        if m <= p + what.len() || e < 0 {
            None
        } else {
            let e2 = ws_end(t, e);
            if e2 <= e {
                None
            } else {
                match last_clean_start(t, e, e2) {
                    Some(q) => Some(
                        (q, if t.len() - q >= 2 && t[t.len() - 1] == '?' {
                            t.len() - 1
                        } else {
                            t.len() as int
                        }),
                    ),
                    None => None,
                }
            }
        }
    }
}

/// The leftmost match of the open-question pattern at or after `p`.
pub open spec fn open_question_search(t: Seq<char>, p: int) -> Option<(int, int)>
    decreases t.len() - p,
{
    if p < 0 || p >= t.len() {
        None
    } else {
        match open_question_at(t, p) {
            Some(r) => Some(r),
            None => open_question_search(t, p + 1),
        }
    }
}

/// The capture of the open-question pattern in `t`, if it matches.
pub open spec fn open_question(t: Seq<char>) -> Option<Seq<char>> {
    match open_question_search(t, 0) {
        Some((q, j)) => Some(t.subrange(q, j)),
        None => None,
    }
}

/// Facts about `ws_end`: it is the end of the run of white space from `i`.
pub proof fn lemma_ws_end(t: Seq<char>, i: int)
    requires
        0 <= i <= t.len(),
    ensures
        i <= ws_end(t, i) <= t.len(),
        forall|j: int| i <= j < ws_end(t, i) ==> is_ws(t[j]),
        ws_end(t, i) < t.len() ==> !is_ws(t[ws_end(t, i)]),
    decreases t.len() - i,
{
    if i < t.len() && is_ws(t[i]) {
        lemma_ws_end(t, i + 1);
    }
}

/// Facts about `line_end`: it is the end of the line that holds `i`.
pub proof fn lemma_line_end(t: Seq<char>, i: int)
    requires
        0 <= i <= t.len(),
    ensures
        i <= line_end(t, i) <= t.len(),
        forall|j: int| i <= j < line_end(t, i) ==> t[j] != '\n',
        line_end(t, i) < t.len() ==> t[line_end(t, i)] == '\n',
    decreases t.len() - i,
{
    if i < t.len() && t[i] != '\n' {
        lemma_line_end(t, i + 1);
    }
}

proof fn lemma_words_end(t: Seq<char>, i: int, words: Seq<Seq<char>>)
    requires
        0 <= i <= t.len(),
    ensures
        words_end(t, i, words) matches Some(e) ==> i <= e <= t.len(),
    decreases words.len(),
{
    if words.len() > 0 {
        lemma_ws_end(t, i);
        let m = ws_end(t, i);
        if m > i && occurs_at(t, words[0], m) {
            lemma_words_end(t, m + words[0].len(), words.drop_first());
        }
    }
}

proof fn lemma_last_line_char(t: Seq<char>, lo: int, q: int)
    ensures
        last_line_char(t, lo, q) matches Some(r) ==> lo < r <= q && r < t.len() && t[r] != '\n',
    decreases q - lo,
{
    if q > lo && !(q < t.len() && t[q] != '\n') {
        lemma_last_line_char(t, lo, q - 1);
    }
}

/// Where a connective matched at `k` leaves its right-hand capture: after `k`,
/// inside `t`, on a character that is not a line feed.
pub proof fn lemma_connective_tail(t: Seq<char>, k: int, words: Seq<Seq<char>>, optional_s: bool)
    requires
        0 <= k <= t.len(),
    ensures
        connective_tail(t, k, words, optional_s) matches Some(q) ==> k < q < t.len() && t[q] != '\n',
{
    lemma_words_end(t, k, words);
    match words_end(t, k, words) {
        Some(e0) => {
            let e = if optional_s && 0 <= e0 < t.len() && t[e0] == 's' {
                e0 + 1
            } else {
                e0
            };
            lemma_last_line_char(t, e, ws_end(t, e));
        },
        None => {},
    }
}

/// The connective matches at `k` after a left-hand capture `t[p..k]`: a
/// non-empty piece of one line.
pub open spec fn valid_split(t: Seq<char>, words: Seq<Seq<char>>, optional_s: bool, p: int, k: int) -> bool {
    &&& 0 <= p < k <= t.len()
    &&& forall|j: int| p <= j < k ==> t[j] != '\n'
    &&& connective_tail(t, k, words, optional_s) is Some
}

proof fn lemma_valid_split_line(t: Seq<char>, words: Seq<Seq<char>>, optional_s: bool, p: int, k: int)
    requires
        0 <= p < k <= t.len(),
    ensures
        valid_split(t, words, optional_s, p, k) <==> k <= line_end(t, p) && connective_tail(t, k, words, optional_s) is Some,
{
    lemma_line_end(t, p);
    if k > line_end(t, p) {
        assert(t[line_end(t, p)] == '\n');
    }
}

proof fn lemma_first_split(t: Seq<char>, p: int, k0: int, words: Seq<Seq<char>>, optional_s: bool)
    requires
        0 <= p < k0,
        p < t.len(),
    ensures
        first_split(t, p, k0, words, optional_s) matches Some((k, q)) ==> k0 <= k && valid_split(t, words, optional_s, p, k)
            && connective_tail(t, k, words, optional_s) == Some(q)
            && forall|k2: int| k0 <= k2 < k ==> !valid_split(t, words, optional_s, p, k2),
        first_split(t, p, k0, words, optional_s) is None ==> forall|k2: int| k0 <= k2 ==> !valid_split(t, words, optional_s, p, k2),
    decreases t.len() + 1 - k0,
{
    lemma_line_end(t, p);
    if k0 > line_end(t, p) || k0 > t.len() {
        assert forall|k2: int| k0 <= k2 implies !valid_split(t, words, optional_s, p, k2) by {
            if k2 <= t.len() {
                lemma_valid_split_line(t, words, optional_s, p, k2);
            }
        }
    } else {
        lemma_valid_split_line(t, words, optional_s, p, k0);
        if connective_tail(t, k0, words, optional_s) is None {
            lemma_first_split(t, p, k0 + 1, words, optional_s);
        }
    }
}

proof fn lemma_connective_search(t: Seq<char>, p0: int, words: Seq<Seq<char>>, optional_s: bool)
    requires
        0 <= p0,
    ensures
        connective_search(t, p0, words, optional_s) matches Some((p, k, q)) ==> p0 <= p && valid_split(t, words, optional_s, p, k)
            && connective_tail(t, k, words, optional_s) == Some(q)
            && (forall|k2: int| p < k2 < k ==> !valid_split(t, words, optional_s, p, k2))
            && (forall|p2: int, k2: int| p0 <= p2 < p ==> !valid_split(t, words, optional_s, p2, k2)),
        connective_search(t, p0, words, optional_s) is None ==> forall|p2: int, k2: int| p0 <= p2 ==> !valid_split(t, words, optional_s, p2, k2),
    decreases t.len() - p0,
{
    if p0 < t.len() {
        lemma_first_split(t, p0, p0 + 1, words, optional_s);
        if first_split(t, p0, p0 + 1, words, optional_s) is None {
            lemma_connective_search(t, p0 + 1, words, optional_s);
        }
    }
}

/// What a connective split means. When the pattern matches, its captures are
/// `t[p..k]`, a non-empty piece of one line, and the rest of the line from
/// `q`, non-empty, where the connective matches at `k` and its right-hand
/// side starts at `q`; the match starts as early as any match can (leftmost)
/// and its left-hand capture is the shortest from that start. When the
/// pattern does not match, the connective follows no non-empty piece of a line.
pub proof fn lemma_connective_split_meaning(t: Seq<char>, words: Seq<Seq<char>>, optional_s: bool)
    ensures
        connective_search(t, 0, words, optional_s) matches Some((p, k, q)) ==> {
            &&& valid_split(t, words, optional_s, p, k)
            &&& connective_tail(t, k, words, optional_s) == Some(q)
            &&& k < q < line_end(t, q) <= t.len()
            &&& forall|j: int| q <= j < line_end(t, q) ==> t[j] != '\n'
            &&& connective_split(t, words, optional_s) == Some((t.subrange(p, k), t.subrange(q, line_end(t, q))))
            &&& forall|p2: int, k2: int| 0 <= p2 < p ==> !valid_split(t, words, optional_s, p2, k2)
            &&& forall|k2: int| p < k2 < k ==> !valid_split(t, words, optional_s, p, k2)
        },
        connective_search(t, 0, words, optional_s) is None ==> {
            &&& connective_split(t, words, optional_s) is None
            &&& forall|p2: int, k2: int| 0 <= p2 ==> !valid_split(t, words, optional_s, p2, k2)
        },
{
    lemma_connective_search(t, 0, words, optional_s);
    if let Some((p, k, q)) = connective_search(t, 0, words, optional_s) {
        lemma_connective_tail(t, k, words, optional_s);
        lemma_line_end(t, q);
    }
}

proof fn lemma_last_clean_start(t: Seq<char>, lo: int, q: int)
    requires
        0 <= lo,
    ensures
        last_clean_start(t, lo, q) matches Some(r) ==> lo < r <= q && r < t.len() && line_end(t, r) == t.len(),
    decreases q - lo,
{
    if q > lo && !(q < t.len() && line_end(t, q) == t.len()) {
        lemma_last_clean_start(t, lo, q - 1);
    }
}

proof fn lemma_open_question_search(t: Seq<char>, p0: int)
    requires
        0 <= p0,
    ensures
        open_question_search(t, p0) matches Some((q, j)) ==> exists|p: int| p0 <= p && open_question_at(t, p) == Some((q, j))
            && forall|p2: int| p0 <= p2 < p ==> open_question_at(t, p2) is None,
        open_question_search(t, p0) is None ==> forall|p2: int| p0 <= p2 < t.len() ==> open_question_at(t, p2) is None,
    decreases t.len() - p0,
{
    if p0 < t.len() {
        if open_question_at(t, p0) is None {
            lemma_open_question_search(t, p0 + 1);
            if let Some((q, j)) = open_question_search(t, p0) {
                let p = choose|p: int| p0 + 1 <= p && open_question_at(t, p) == Some((q, j))
                    && forall|p2: int| p0 + 1 <= p2 < p ==> open_question_at(t, p2) is None;
                assert(p0 <= p && open_question_at(t, p) == Some((q, j)) && forall|p2: int| p0 <= p2 < p ==> open_question_at(t, p2) is None);
            }
        } else {
            assert(open_question_at(t, p0) == open_question_search(t, p0));
        }
    }
}

/// What an open question means. When the pattern matches, it matches first
/// at some start `p` (no earlier start matches), and its capture `t[q..j]`
/// lies after `What`, is non-empty, holds no line feed, and runs to the end
/// of the text, less one trailing `?`. When it does not match, no start does.
pub proof fn lemma_open_question_meaning(t: Seq<char>)
    ensures
        open_question_search(t, 0) matches Some((q, j)) ==> {
            &&& exists|p: int| 0 <= p && p + "What"@.len() < q && open_question_at(t, p) == Some((q, j))
                && forall|p2: int| 0 <= p2 < p ==> open_question_at(t, p2) is None
            &&& q < j <= t.len()
            &&& forall|i: int| q <= i < t.len() ==> t[i] != '\n'
            &&& (j == t.len() || (j == t.len() - 1 && t[j] == '?'))
            &&& open_question(t) == Some(t.subrange(q, j))
        },
        open_question_search(t, 0) is None ==> open_question(t) is None && forall|p2: int| 0 <= p2 < t.len() ==> open_question_at(t, p2) is None,
{
    lemma_open_question_search(t, 0);
    if let Some((q, j)) = open_question_search(t, 0) {
        let p = choose|p: int| 0 <= p && open_question_at(t, p) == Some((q, j))
            && forall|p2: int| 0 <= p2 < p ==> open_question_at(t, p2) is None;
        reveal_strlit("about");
        reveal_strlit("if");
        let w = "What"@.len();
        let m = ws_end(t, p + w);
        let e = if occurs_at(t, "about"@, m) {
            m + "about"@.len()
        } else {
            m + "if"@.len()
        };
        lemma_last_clean_start(t, e, ws_end(t, e));
        lemma_line_end(t, q);
        assert(p + w < m < e);
        assert(p + w < q);
    }
}

/// `ws_end` computed.
pub fn ws_end_exec(t: &Vec<char>, i: usize) -> (r: usize)
    requires
        i <= t.len(),
    ensures
        r as int == ws_end(t@, i as int),
        i <= r <= t.len(),
{
    let mut j = i;
    while j < t.len() && is_white_space(t[j])
        invariant
            i <= j <= t.len(),
            ws_end(t@, i as int) == ws_end(t@, j as int),
        decreases t.len() - j,
    {
        j = j + 1;
    }
    j
}

/// `line_end` computed.
pub fn line_end_exec(t: &Vec<char>, i: usize) -> (r: usize)
    requires
        i <= t.len(),
    ensures
        r as int == line_end(t@, i as int),
        i <= r <= t.len(),
{
    let mut j = i;
    while j < t.len() && t[j] != '\n'
        invariant
            i <= j <= t.len(),
            line_end(t@, i as int) == line_end(t@, j as int),
        decreases t.len() - j,
    {
        j = j + 1;
    }
    j
}

/// `words_end` computed.
pub fn words_end_exec(t: &Vec<char>, i: usize, words: &Vec<Vec<char>>) -> (r: Option<usize>)
    requires
        i <= t.len(),
    ensures
        match r {
            Some(e) => words_end(t@, i as int, views(words@)) == Some(e as int) && e <= t.len(),
            None => words_end(t@, i as int, views(words@)) is None,
        },
{
    let ghost ws = views(words@);
    let mut pos = i;
    let mut w: usize = 0;
    assert(ws.skip(0) =~= ws);
    while w < words.len()
        invariant
            pos <= t.len(),
            w <= words.len(),
            ws == views(words@),
            words_end(t@, i as int, ws) == words_end(t@, pos as int, ws.skip(w as int)),
        decreases words.len() - w,
    {
        let m = ws_end_exec(t, pos);
        assert(ws.skip(w as int)[0] == words@[w as int]@);
        assert(ws.skip(w as int).drop_first() =~= ws.skip(w + 1));
        if m > pos && occurs_at_exec(t, &words[w], m) {
            pos = m + words[w].len();
        } else {
            return None;
        }
        w = w + 1;
    }
    assert(ws.skip(w as int).len() == 0);
    Some(pos)
}

/// `last_line_char` computed.
pub fn last_line_char_exec(t: &Vec<char>, lo: usize, q: usize) -> (r: Option<usize>)
    requires
        lo <= q <= t.len(),
    ensures
        match r {
            Some(x) => last_line_char(t@, lo as int, q as int) == Some(x as int) && x < t.len(),
            None => last_line_char(t@, lo as int, q as int) is None,
        },
{
    let mut j = q;
    while j > lo
        invariant
            lo <= j <= q <= t.len(),
            last_line_char(t@, lo as int, q as int) == last_line_char(t@, lo as int, j as int),
        decreases j - lo,
    {
        if j < t.len() && t[j] != '\n' {
            return Some(j);
        }
        j = j - 1;
    }
    None
}

/// `connective_tail` computed.
pub fn connective_tail_exec(t: &Vec<char>, k: usize, words: &Vec<Vec<char>>, optional_s: bool) -> (r: Option<usize>)
    requires
        k <= t.len(),
    ensures
        match r {
            Some(x) => connective_tail(t@, k as int, views(words@), optional_s) == Some(x as int) && x < t.len(),
            None => connective_tail(t@, k as int, views(words@), optional_s) is None,
        },
{
    match words_end_exec(t, k, words) {
        Some(e0) => {
            let e = if optional_s && e0 < t.len() && t[e0] == 's' {
                e0 + 1
            } else {
                e0
            };
            let e2 = ws_end_exec(t, e);
            if e2 > e {
                last_line_char_exec(t, e, e2)
            } else {
                None
            }
        },
        None => None,
    }
}

/// The leftmost match of a connective pattern: its start, the end of the
/// left-hand capture and the start of the right-hand capture.
pub fn connective_search_exec(t: &Vec<char>, words: &Vec<Vec<char>>, optional_s: bool) -> (r: Option<(usize, usize, usize)>)
    ensures
        match r {
            Some((p, k, q)) => connective_search(t@, 0, views(words@), optional_s) == Some((p as int, k as int, q as int))
                && p < k <= t.len() && q < t.len(),
            None => connective_search(t@, 0, views(words@), optional_s) is None,
        },
{
    let ghost ws = views(words@);
    let mut p: usize = 0;
    while p < t.len()
        invariant
            p <= t.len(),
            ws == views(words@),
            connective_search(t@, 0, ws, optional_s) == connective_search(t@, p as int, ws, optional_s),
        decreases t.len() - p,
    {
        let le = line_end_exec(t, p);
        let mut k = p + 1;
        loop
            invariant
                p < t.len(),
                le as int == line_end(t@, p as int),
                p < k <= le + 1,
                le <= t.len(),
                ws == views(words@),
                connective_search(t@, 0, ws, optional_s) == connective_search(t@, p as int, ws, optional_s),
                first_split(t@, p as int, p + 1, ws, optional_s) == first_split(t@, p as int, k as int, ws, optional_s),
            ensures
                first_split(t@, p as int, p + 1, ws, optional_s) is None,
            decreases le + 1 - k,
        {
            if k > le {
                break;
            }
            match connective_tail_exec(t, k, words, optional_s) {
                Some(q) => {
                    return Some((p, k, q));
                },
                None => {},
            }
            if k == le {
                assert(first_split(t@, p as int, k + 1, ws, optional_s) is None);
                break;
            }
            k = k + 1;
        }
        p = p + 1;
    }
    None
}

/// `last_clean_start` computed.
pub fn last_clean_start_exec(t: &Vec<char>, lo: usize, q: usize) -> (r: Option<usize>)
    requires
        lo <= q <= t.len(),
    ensures
        match r {
            Some(x) => last_clean_start(t@, lo as int, q as int) == Some(x as int) && lo < x < t.len(),
            None => last_clean_start(t@, lo as int, q as int) is None,
        },
{
    let mut j = q;
    while j > lo
        invariant
            lo <= j <= q <= t.len(),
            last_clean_start(t@, lo as int, q as int) == last_clean_start(t@, lo as int, j as int),
        decreases j - lo,
    {
        if j < t.len() && line_end_exec(t, j) == t.len() {
            return Some(j);
        }
        j = j - 1;
    }
    None
}

/// `open_question_at` computed.
fn open_question_at_exec(t: &Vec<char>, p: usize, what: &Vec<char>, about: &Vec<char>, if_word: &Vec<char>) -> (r: Option<(usize, usize)>)
    requires
        p < t.len(),
        what@ == "What"@,
        about@ == "about"@,
        if_word@ == "if"@,
    ensures
        match r {
            Some((q, j)) => open_question_at(t@, p as int) == Some((q as int, j as int)) && q <= j <= t.len(),
            None => open_question_at(t@, p as int) is None,
        },
{
    if !occurs_at_exec(t, what, p) {
        return None;
    }
    let m = ws_end_exec(t, p + what.len());
    let e: usize;
    if occurs_at_exec(t, about, m) {
        e = m + about.len();
    } else if occurs_at_exec(t, if_word, m) {
        e = m + if_word.len();
    } else {
        return None;
    }
    if m <= p + what.len() {
        return None;
    }
    let e2 = ws_end_exec(t, e);
    if e2 <= e {
        return None;
    }
    match last_clean_start_exec(t, e, e2) {
        Some(q) => {
            let n = t.len();
            let j = if n - q >= 2 && t[n - 1] == '?' {
                n - 1
            } else {
                n
            };
            Some((q, j))
        },
        None => None,
    }
}

/// The bounds of the capture of the leftmost open-question match.
pub fn open_question_exec(t: &Vec<char>) -> (r: Option<(usize, usize)>)
    ensures
        match r {
            Some((q, j)) => open_question_search(t@, 0) == Some((q as int, j as int)) && q <= j <= t.len(),
            None => open_question_search(t@, 0) is None,
        },
{
    let what = chars_of("What");
    let about = chars_of("about");
    let if_word = chars_of("if");
    let mut p: usize = 0;
    while p < t.len()
        invariant
            p <= t.len(),
            what@ == "What"@,
            about@ == "about"@,
            if_word@ == "if"@,
            open_question_search(t@, 0) == open_question_search(t@, p as int),
        decreases t.len() - p,
    {
        match open_question_at_exec(t, p, &what, &about, &if_word) {
            Some(r) => {
                return Some(r);
            },
            None => {},
        }
        p = p + 1;
    }
    None
}

} // verus!
