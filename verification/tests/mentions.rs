use quick_capture::mentions::extract_mentions;


#[test]
fn empty_text_yields_no_mentions() {
    assert!(extract_mentions("").is_empty());
}

#[test]
fn plain_text_with_no_brackets_yields_no_mentions() {
    assert!(extract_mentions("hello world").is_empty());
}

#[test]
fn single_mention() {
    assert_eq!(extract_mentions("see [[Diego]]"), vec!["Diego"]);
}

#[test]
fn multiple_mentions_in_order() {
    assert_eq!(
        extract_mentions("[[Ana]] then [[Diego]]"),
        vec!["Ana", "Diego"]
    );
}

#[test]
fn dedupes_case_insensitively_keeping_first_form() {
    assert_eq!(
        extract_mentions("[[Diego]] and [[diego]] again"),
        vec!["Diego"]
    );
}

#[test]
fn strips_alias_segment() {
    assert_eq!(extract_mentions("[[Diego|d]]"), vec!["Diego"]);
}

#[test]
fn strips_heading_anchor() {
    assert_eq!(extract_mentions("[[Diego#notes]]"), vec!["Diego"]);
}

#[test]
fn trims_surrounding_whitespace() {
    assert_eq!(extract_mentions("[[  Diego  ]]"), vec!["Diego"]);
}

#[test]
fn ignores_unclosed_brackets() {
    assert!(extract_mentions("[[orphan").is_empty());
}

#[test]
fn ignores_empty_brackets() {
    assert!(extract_mentions("hello [[]] world").is_empty());
}

#[test]
fn names_with_spaces_preserved() {
    assert_eq!(extract_mentions("[[Ana Beatriz]]"), vec!["Ana Beatriz"]);
}

#[test]
fn surrounding_text_does_not_leak_into_name() {
    assert_eq!(
        extract_mentions("prefix [[Diego]] suffix"),
        vec!["Diego"]
    );
}
