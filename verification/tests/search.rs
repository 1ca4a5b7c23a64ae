use oben_gateway::search::extract_snippet;

#[test]
fn snippet_around_a_match() {
    assert_eq!(
        extract_snippet("Hello World foo bar", "world", 4),
        Some("...o World f...".to_string())
    );
}

#[test]
fn snippet_reaching_both_ends() {
    assert_eq!(extract_snippet("abc", "B", 100), Some("abc".to_string()));
}

#[test]
fn snippet_without_match_takes_first_chars() {
    assert_eq!(extract_snippet("abcdef", "zz", 3), Some("abc".to_string()));
    assert_eq!(extract_snippet("こんにちは", "zz", 2), Some("こん".to_string()));
}

#[test]
fn snippet_offsets_are_bytes() {
    // "é" takes two bytes: the cut starts two bytes before "x".
    assert_eq!(extract_snippet("aéx", "x", 4), Some("...éx".to_string()));
}

#[test]
fn snippet_cut_inside_a_character_is_refused() {
    // One byte before "x" falls inside "é".
    assert_eq!(extract_snippet("éx", "x", 2), None);
}

#[test]
fn snippet_where_lower_case_grows_the_text() {
    // "İ" lowers to two characters, so the match offset passes the text's end.
    assert_eq!(extract_snippet("İİa", "a", 0), None);
    assert_eq!(extract_snippet("İa", "a", 0), Some("...".to_string()));
}
