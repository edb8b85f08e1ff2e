use meetily_core::chunker::chunk_text;
use meetily_core::estimator::rough_token_count;

#[test]
fn token_count_rounds_up() {
    assert_eq!(rough_token_count(""), 0);
    assert_eq!(rough_token_count("a"), 1);
    assert_eq!(rough_token_count("abcd"), 1);
    assert_eq!(rough_token_count("abcde"), 2);
    assert_eq!(rough_token_count("abcdefgh"), 2);
    assert_eq!(rough_token_count("abcdefghi"), 3);
}

#[test]
fn token_count_uses_characters_not_bytes() {
    // four two-byte characters are still four characters, one token
    assert_eq!(rough_token_count("àéíó"), 1);
}

#[test]
fn short_text_is_one_chunk() {
    // length 11 <= 3 tokens * 4 chars
    let chunks = chunk_text("hello world", 3, 0);
    assert_eq!(chunks, vec!["hello world".to_string()]);
}

#[test]
fn empty_text_gives_no_chunks() {
    let chunks = chunk_text("", 5, 2);
    assert!(chunks.is_empty());
}

#[test]
fn zero_chunk_size_gives_no_chunks() {
    let chunks = chunk_text("some text", 0, 3);
    assert!(chunks.is_empty());
}

#[test]
fn windows_overlap_by_exactly_the_overlap_budget() {
    // 16 characters, 8-char windows, 4-char overlap, step 4
    let text = "abcdefghijklmnop";
    let chunks = chunk_text(text, 2, 1);
    assert_eq!(chunks, vec!["abcdefgh", "efghijkl", "ijklmnop"]);
    // no whitespace fallback: deduplicating the 4-char overlaps
    // reconstructs the text exactly
    let mut rebuilt = chunks[0].clone();
    rebuilt.push_str(&chunks[1][4..]);
    rebuilt.push_str(&chunks[2][4..]);
    assert_eq!(rebuilt, text);
}

#[test]
fn cuts_snap_back_to_word_boundaries() {
    // 8-char windows, no overlap; the first cut would split "ghij",
    // so it snaps back to the space at index 7
    let text = "abc def ghij klmno";
    let chunks = chunk_text(text, 2, 0);
    assert_eq!(chunks, vec!["abc def", "ghij", "no"]);
}

#[test]
fn tokenfree_run_falls_back_to_raw_cuts() {
    // no whitespace anywhere: the backward scan finds no boundary and
    // the raw window end stands
    let text = "aaaaaaaaaaaaaaaa";
    let chunks = chunk_text(text, 2, 0);
    assert_eq!(chunks, vec!["aaaaaaaa", "aaaaaaaa"]);
}

#[test]
fn last_chunk_always_reaches_the_end() {
    let text = "word ".repeat(100);
    let chunks = chunk_text(&text, 10, 2);
    assert!(!chunks.is_empty());
    let last = chunks.last().unwrap();
    assert!(text.ends_with(last.as_str()));
}
