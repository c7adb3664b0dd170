use postero::textmeta::{text_no_meta, text_to_metadata};

fn values_of<'a>(meta: &'a [(String, Vec<String>)], key: &str) -> Option<&'a Vec<String>> {
    meta.iter().find(|(k, _)| k == key).map(|(_, v)| v)
}

#[test]
fn extracts_keys_and_values() {
    let meta = text_to_metadata("author:Smith year:2021 note");
    assert_eq!(values_of(&meta, "author").unwrap(), &vec!["Smith".to_string()]);
    assert_eq!(values_of(&meta, "year").unwrap(), &vec!["2021".to_string()]);
    assert!(values_of(&meta, "note").is_none());
}

#[test]
fn repeated_keys_collect_all_values_in_order() {
    let meta = text_to_metadata("tag:alpha tag:beta tag:gamma");
    assert_eq!(
        values_of(&meta, "tag").unwrap(),
        &vec!["alpha".to_string(), "beta".to_string(), "gamma".to_string()]
    );
    assert_eq!(meta.len(), 1);
}

#[test]
fn quoted_values_keep_their_spaces() {
    let meta = text_to_metadata("author:\"Jane Doe\" city:Berlin");
    assert_eq!(values_of(&meta, "author").unwrap(), &vec!["Jane Doe".to_string()]);
    assert_eq!(values_of(&meta, "city").unwrap(), &vec!["Berlin".to_string()]);
}

#[test]
fn keys_need_a_value() {
    assert!(text_to_metadata("dangling:").is_empty());
    assert!(text_to_metadata("empty:\"\" fine").is_empty());
    assert!(text_to_metadata("plain text without tokens").is_empty());
    assert!(text_to_metadata("").is_empty());
}

#[test]
fn a_key_run_is_maximal() {
    // `xabc` is one word; the token's key is the whole run.
    let meta = text_to_metadata("xabc:1");
    assert_eq!(values_of(&meta, "xabc").unwrap(), &vec!["1".to_string()]);
    assert!(values_of(&meta, "abc").is_none());
}

#[test]
fn bare_values_run_to_a_delimiter() {
    let meta = text_to_metadata("url:a:b/c<d");
    assert_eq!(values_of(&meta, "url").unwrap(), &vec!["a:b/c".to_string()]);
}

#[test]
fn stripping_blanks_tokens_to_one_space() {
    assert_eq!(text_no_meta("see author:Smith here"), "see   here");
    assert_eq!(text_no_meta("author:\"Jane Doe\" rest"), "  rest");
    assert_eq!(text_no_meta("no tokens at all"), "no tokens at all");
    assert_eq!(text_no_meta(""), "");
    assert_eq!(text_no_meta("dangling:"), "dangling:");
}

#[test]
fn stripping_removes_lines_left_blank() {
    // A line that held only a token collapses to whitespace and is
    // dropped with its newline; so are trailing blank runs.
    assert_eq!(text_no_meta("k:v\n\n"), "");
    assert_eq!(text_no_meta("note a:1\n\t\nmore"), "note  \nmore");
    assert_eq!(text_no_meta("a\nb:2 \n  "), "a\n");
    assert_eq!(text_no_meta("first\n \nsecond"), "first\nsecond");
}

#[test]
fn extraction_after_scrubbing_yields_nothing() {
    for text in [
        "x:1 y:2",
        "author:\"Jane Doe\" tag:alpha tag:beta",
        "line k:v\nother m:\"q q\"\n",
        "plain text",
    ] {
        let scrubbed = text_no_meta(text);
        assert!(text_to_metadata(&scrubbed).is_empty(), "left tokens in {:?}", scrubbed);
    }
}

#[test]
fn bare_values_shed_fringe_whitespace() {
    // A bare value may hold tabs and carriage returns; its fringes are
    // shed, its middle kept. A quoted value is bounded by its quotes, so
    // whitespace inside them stays.
    let meta = text_to_metadata("k:\tv");
    assert_eq!(values_of(&meta, "k").unwrap(), &vec!["v".to_string()]);
    let meta = text_to_metadata("k:a\tb\r");
    assert_eq!(values_of(&meta, "k").unwrap(), &vec!["a\tb".to_string()]);
    let meta = text_to_metadata("k:\t\t");
    assert_eq!(values_of(&meta, "k").unwrap(), &vec!["".to_string()]);
    let meta = text_to_metadata("q:\"\tx \"");
    assert_eq!(values_of(&meta, "q").unwrap(), &vec!["\tx ".to_string()]);
}
