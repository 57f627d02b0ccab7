use rag_pipeline::text::{chars_of, fill_template, replace_all_str};

#[test]
fn template_example() {
    let r = fill_template("A _RETRIEVED_ B _QUERY_ C", "X", "Y");
    assert_eq!(r, "A X B Y C");
}

#[test]
fn template_repeated_placeholders() {
    let r = fill_template("_QUERY_ then _RETRIEVED_, again _QUERY_ and _RETRIEVED_", "doc", "q");
    assert_eq!(r, "q then doc, again q and doc");
}

#[test]
fn template_without_placeholders_is_kept() {
    let r = fill_template("plain text", "X", "Y");
    assert_eq!(r, "plain text");
}

#[test]
fn template_retrieved_text_is_filled_before_query() {
    let r = fill_template("[_RETRIEVED_]", "has _QUERY_ inside", "Q");
    assert_eq!(r, "[has Q inside]");
}

#[test]
fn replace_scans_left_without_overlap() {
    assert_eq!(replace_all_str("aaa", "aa", "b"), "ba");
    assert_eq!(replace_all_str("abab", "ab", ""), "");
    assert_eq!(replace_all_str("xyz", "", "-"), "xyz");
    assert_eq!(replace_all_str("héllo wörld", "ö", "o"), "héllo world");
    assert_eq!(replace_all_str("", "a", "b"), "");
}

#[test]
fn chars_keep_order() {
    assert_eq!(chars_of("añb"), vec!['a', 'ñ', 'b']);
}
