//! `parse_content` against the regular expressions that define its patterns,
//! evaluated by the `regex` crate.
use murmur_plato_bridge::tile_mapper::parse_content;
use regex::Regex;

struct Patterns {
    implies: Regex,
    contradicts: Regex,
    depends: Regex,
    analogous: Regex,
    what_if: Regex,
}

fn patterns() -> Patterns {
    Patterns {
        implies: Regex::new(r"(.+?)\s+implies\s+(.+)").unwrap(),
        contradicts: Regex::new(r"(.+?)\s+contradicts?\s+(.+)").unwrap(),
        depends: Regex::new(r"(.+?)\s+depends\s+on\s+(.+)").unwrap(),
        analogous: Regex::new(r"(.+?)\s+is\s+analogous\s+to\s+(.+)").unwrap(),
        what_if: Regex::new(r"What\s+(?:about|if)\s+(.+?)\??$").unwrap(),
    }
}

fn by_regex(p: &Patterns, content: &str) -> (String, String) {
    let (implies, contradicts, depends, analogous, what_if) = (&p.implies, &p.contradicts, &p.depends, &p.analogous, &p.what_if);
    let trimmed = content.trim();
    if let Some(caps) = implies.captures(trimmed) {
        return (format!("What does {} imply?", &caps[1]), caps[2].to_string());
    }
    if let Some(caps) = contradicts.captures(trimmed) {
        return (
            format!("What tension exists between {} and {}?", &caps[1], &caps[2]),
            format!("The tension is that {} contradicts {}.", &caps[1], &caps[2]),
        );
    }
    if let Some(caps) = depends.captures(trimmed) {
        return (format!("What does {} depend on?", &caps[1]), caps[2].to_string());
    }
    if let Some(caps) = analogous.captures(trimmed) {
        return (format!("What is {} analogous to?", &caps[1]), caps[2].to_string());
    }
    if let Some(caps) = what_if.captures(trimmed) {
        return (caps[1].to_string(), "[open — investigation needed]".to_string());
    }
    ("What insight emerges from this thought?".to_string(), trimmed.to_string())
}

#[test]
fn content_patterns_match_regex_on_chosen_inputs() {
    let inputs = [
        "a implies b",
        "a  implies   b",
        "a implies",
        "implies b",
        "x implies y implies z",
        "a\timplies\tb",
        "a\nimplies b",
        "a implies\nb",
        "a implies \n b",
        "a implies  \n",
        "a implies  ",
        "foo\nbar implies baz",
        "a\u{2003}implies\u{a0}b",
        "line one\nX contradicts Y\nmore",
        "A contradict B",
        "A contradictsB",
        "A contradicts",
        "A contradictss B",
        "X depends on Y",
        "X depends  on\tY",
        "X depends onY",
        "X is analogous to Y",
        "X is  analogous to Y and Z",
        "What about X?",
        "What if X",
        "What about ?",
        "What about x??",
        "Ask: What about it?",
        "What about\nmultiple lines?",
        "What aboutX?",
        "  What if   spaces   ?  ",
        "What about a?\nWhat if b?",
        "",
        "   ",
        "plain text",
        "What about it implies trouble?",
        "x\nWhat about y?",
        "What  if\n y?",
        "What about y\n?",
        "What if  \u{2028}z",
        "Über implies ß",
        "é contradicts ü.",
        "What if",
        "What about  ",
        "\n\nimplies\n\n",
        "a\n\nimplies b",
        "s implies\u{85}t",
    ];
    let p = patterns();
    for input in inputs {
        assert_eq!(parse_content(input), by_regex(&p, input), "input {:?}", input);
    }
}

#[test]
fn content_patterns_match_regex_on_generated_inputs() {
    let tokens = [
        "implies", "contradicts", "contradict", "depends", "on", "is", "analogous", "to", "What",
        "about", "if", "?", " ", " ", "  ", "\n", "\t", "x", "y", "s", "\u{a0}", ".",
    ];
    let p = patterns();
    let mut state: u64 = 0x2545_f491_4f6c_dd1d;
    for _ in 0..1500 {
        state = state.wrapping_mul(6364136223846793005).wrapping_add(1442695040888963407);
        let n = (state >> 33) % 12;
        let mut s = String::new();
        for _ in 0..n {
            state = state.wrapping_mul(6364136223846793005).wrapping_add(1442695040888963407);
            let k = ((state >> 33) % tokens.len() as u64) as usize;
            s.push_str(tokens[k]);
        }
        assert_eq!(parse_content(&s), by_regex(&p, &s), "input {:?}", s);
    }
}

#[test]
fn depends_and_analogous_patterns() {
    let (q, a) = parse_content("Coherence depends on the pentagon axiom");
    assert_eq!(q, "What does Coherence depend on?");
    assert_eq!(a, "the pentagon axiom");
    let (q, a) = parse_content("A monad is analogous to a monoid");
    assert_eq!(q, "What is A monad analogous to?");
    assert_eq!(a, "a monoid");
}

#[test]
fn contradicts_pattern_exact_text() {
    let (q, a) = parse_content("  Set theory contradicts category theory  ");
    assert_eq!(q, "What tension exists between Set theory and category theory?");
    assert_eq!(a, "The tension is that Set theory contradicts category theory.");
}

#[test]
fn default_answer_is_trimmed_content() {
    let (q, a) = parse_content("\t Plain observation about groups. \n");
    assert_eq!(q, "What insight emerges from this thought?");
    assert_eq!(a, "Plain observation about groups.");
}
