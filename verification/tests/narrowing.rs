use zk_regex::narrowing::{get_substr, ChainFault};
use zk_regex::regex_circuit::{ADDRESS, BRACKETED_ADDRESS, SENDER_FIELD};

const MAIL: &str = "email  from: vital vitalik@gmail to: some some@outlook.com   etc.";

fn chain(patterns: &[&str]) -> Vec<String> {
    patterns.iter().map(|p| p.to_string()).collect()
}

#[test]
fn sender_field_is_the_first_narrowing() {
    let found = get_substr(MAIL, &chain(&[SENDER_FIELD]));
    assert_eq!(found, Ok(Some((12, " vital vitalik@gmail ".to_string()))));
}

#[test]
fn sender_address_is_the_final_narrowing() {
    let found = get_substr(MAIL, &chain(&[SENDER_FIELD, BRACKETED_ADDRESS, ADDRESS]));
    assert_eq!(found, Ok(Some((19, "vitalik@gmail".to_string()))));
    assert_eq!(&MAIL[19..32], "vitalik@gmail");
}

#[test]
fn lookaround_trims_without_entering_the_text() {
    let found = get_substr(MAIL, &chain(&["(?<=from:).*(?=to)"]));
    assert_eq!(found, Ok(Some((12, " vital vitalik@gmail ".to_string()))));
    let found = get_substr(MAIL, &chain(&["(?<=from:).*(?=to)", ADDRESS]));
    assert_eq!(found, Ok(Some((19, "vitalik@gmail".to_string()))));
}

#[test]
fn empty_chain_yields_the_whole_input() {
    assert_eq!(get_substr("abc", &[]), Ok(Some((0, "abc".to_string()))));
    assert_eq!(get_substr("", &[]), Ok(Some((0, String::new()))));
}

#[test]
fn offsets_add_up_along_the_chain() {
    let found = get_substr("xx abc yy", &chain(&["abc yy", "c y", "y"]));
    assert_eq!(found, Ok(Some((7, "y".to_string()))));
}

#[test]
fn later_pattern_sees_only_the_earlier_match() {
    // "b" occurs in the input, but not inside what the first pattern matched.
    assert_eq!(get_substr("aaa b", &chain(&["a+", "b"])), Ok(None));
    // The first "c" of the input lies before the match of the first pattern.
    assert_eq!(get_substr("c ab c", &chain(&["ab c", "c"])), Ok(Some((5, "c".to_string()))));
}

#[test]
fn first_link_without_match_yields_none() {
    assert_eq!(get_substr("hello", &chain(&["xyz", "l"])), Ok(None));
    assert_eq!(get_substr("", &chain(&["a"])), Ok(None));
}

#[test]
fn leftmost_match_is_taken() {
    assert_eq!(get_substr("ab ab ab", &chain(&["ab"])), Ok(Some((0, "ab".to_string()))));
    assert_eq!(get_substr("xab ab", &chain(&["ab"])), Ok(Some((1, "ab".to_string()))));
}

#[test]
fn empty_match_is_a_match() {
    assert_eq!(get_substr("abc", &chain(&["x*"])), Ok(Some((0, String::new()))));
    assert_eq!(get_substr("abc", &chain(&["(?<=b)"])), Ok(Some((2, String::new()))));
}

#[test]
fn offsets_count_bytes() {
    // "é" takes two bytes and "ñ" takes two bytes.
    let found = get_substr("é from:añ@b to", &chain(&["(?<=from:).*(?= to)", "ñ@b"]));
    assert_eq!(found, Ok(Some((9, "ñ@b".to_string()))));
    assert_eq!(&"é from:añ@b to"[9..13], "ñ@b");
}

#[test]
fn pattern_that_does_not_compile_is_a_fault() {
    assert_eq!(
        get_substr("abc", &chain(&["(a"])),
        Err(ChainFault::PatternRejected { link: 0 })
    );
    assert_eq!(
        get_substr("abc", &chain(&["a", "b)"])),
        Err(ChainFault::PatternRejected { link: 1 })
    );
}

#[test]
fn patterns_are_compiled_before_any_search() {
    // The first link finds nothing, and the broken second link is reported all the same.
    assert_eq!(
        get_substr("abc", &chain(&["x", "(b"])),
        Err(ChainFault::PatternRejected { link: 1 })
    );
}

#[test]
fn first_broken_pattern_is_named() {
    assert_eq!(
        get_substr("abc", &chain(&["a", "(b", "c", "(d"])),
        Err(ChainFault::PatternRejected { link: 1 })
    );
}

#[test]
fn search_that_the_engine_gives_up_is_a_fault() {
    // Every way of splitting the run of "x" has to be tried before the
    // look-behind can be known to fail; the engine stops counting long before.
    let text = format!("{}y", "x".repeat(60));
    let hard = "(x+x+)+(?=y)(?<=q)";
    assert_eq!(get_substr(&text, &chain(&[hard])), Err(ChainFault::SearchAborted { link: 0 }));
    assert_eq!(
        get_substr(&text, &chain(&["x+y", hard, "x"])),
        Err(ChainFault::SearchAborted { link: 1 })
    );
    // The same pattern on a short text is searched to the end.
    assert_eq!(get_substr("xxxy", &chain(&[hard])), Ok(None));
}

#[test]
fn fault_is_not_reached_behind_a_link_without_match() {
    let text = format!("{}y", "x".repeat(60));
    assert_eq!(get_substr(&text, &chain(&["q", "(x+x+)+(?=y)(?<=q)"])), Ok(None));
}

#[test]
fn same_call_same_answer() {
    let patterns = chain(&[SENDER_FIELD, BRACKETED_ADDRESS, ADDRESS]);
    assert_eq!(get_substr(MAIL, &patterns), get_substr(MAIL, &patterns));
}
