use worldgen::text::{concat_strings, push_decimal, remove_pattern, split_text, text_eq};

fn strings(v: &[&str]) -> Vec<String> {
    v.iter().map(|s| s.to_string()).collect()
}

#[test]
fn split_keeps_empty_pieces() {
    assert_eq!(split_text("a#b##c", '#'), strings(&["a", "b", "", "c"]));
    assert_eq!(split_text("", '#'), strings(&[""]));
    assert_eq!(split_text("#", '#'), strings(&["", ""]));
    assert_eq!(split_text("ab\n", '\n'), strings(&["ab", ""]));
}

#[test]
fn split_then_join_gives_the_text_back() {
    let text = "#Start#\n#Quit#";
    let pieces = split_text(text, '#');
    assert_eq!(pieces.join("#"), text);
}

#[test]
fn remove_pattern_scans_from_the_left() {
    assert_eq!(remove_pattern("aXYbXYc", "XY"), "abc");
    assert_eq!(remove_pattern("XXY", "XY"), "X");
    assert_eq!(remove_pattern("abc", ""), "abc");
    assert_eq!(remove_pattern("ab", "abc"), "ab");
    assert_eq!(remove_pattern("\x1B[47;30mStart\x1B[0m", "\x1B[47;30m"), "Start\x1B[0m");
}

#[test]
fn concat_writes_pieces_back_to_back() {
    assert_eq!(concat_strings(&strings(&["a", "", "bc"])), "abc");
    assert_eq!(concat_strings(&Vec::new()), "");
}

#[test]
fn decimal_rendering() {
    let mut s = String::from("n=");
    push_decimal(&mut s, 0);
    assert_eq!(s, "n=0");
    let mut s = String::new();
    push_decimal(&mut s, 4294967295);
    assert_eq!(s, "4294967295");
    let mut s = String::new();
    push_decimal(&mut s, 255);
    assert_eq!(s, "255");
}

#[test]
fn text_equality() {
    assert!(text_eq("random", "random"));
    assert!(!text_eq("random", "randon"));
    assert!(!text_eq("wfc", "wfcc"));
    assert!(text_eq("", ""));
}

#[test]
fn pieces_back_to_back_drop_the_separators() {
    let pieces = split_text("#Start#\n#Quit#", '#');
    assert_eq!(concat_strings(&pieces), "Start\nQuit");
}
