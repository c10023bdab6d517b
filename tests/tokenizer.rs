use smorth::tokenizer::tokenize;

fn strings(v: &[&str]) -> Vec<String> {
    v.iter().map(|s| s.to_string()).collect()
}

#[test]
fn quoted_segment_is_one_token() {
    assert_eq!(tokenize("\"a b\" c"), strings(&["STR:a b", "c"]));
}

#[test]
fn empty_text_has_no_tokens() {
    assert_eq!(tokenize(""), Vec::<String>::new());
}

#[test]
fn whitespace_separates_plain_tokens() {
    assert_eq!(tokenize("  1  2\t+\n dup "), strings(&["1", "2", "+", "dup"]));
}

#[test]
fn unterminated_quote_is_dropped() {
    assert_eq!(tokenize("a \"bc d"), strings(&["a"]));
}

#[test]
fn adjacent_quoted_segments_stay_apart() {
    assert_eq!(tokenize("\"a\"\"b\""), strings(&["STR:a", "STR:b"]));
}

#[test]
fn opening_quote_does_not_flush() {
    assert_eq!(tokenize("ab\"cd\" e"), strings(&["STR:abcd", "e"]));
}

#[test]
fn quotes_keep_inner_whitespace() {
    assert_eq!(tokenize("\"  x  \""), strings(&["STR:  x  "]));
}

#[test]
fn tokenize_is_idempotent_on_joined_tokens() {
    let first = tokenize(" : sq\tdup *  ;\n\n5 sq  ");
    let again = tokenize(&first.join(" "));
    assert_eq!(first, again);
    assert_eq!(first, strings(&[":", "sq", "dup", "*", ";", "5", "sq"]));
}

#[test]
fn unicode_whitespace_separates() {
    assert_eq!(tokenize("a\u{3000}b\u{a0}c"), strings(&["a", "b", "c"]));
}
