use printscp::args::{find_path_argument, parse_flags, starts_with_dash};
use printscp::path::{join_path, normalize_separators, quote_if_spaced, resolve};
use printscp::text::{is_space, trim};

fn toks(v: &[&str]) -> Vec<String> {
    v.iter().map(|s| s.to_string()).collect()
}

#[test]
fn path_argument_is_last_plain_token() {
    let args = toks(&["prog", "-x", "file.txt", "-4", "--verbose"]);
    assert_eq!(find_path_argument(&args), Some("file.txt".to_string()));
}

#[test]
fn path_argument_prefers_later_tokens() {
    let args = toks(&["prog", "a.txt", "b.txt"]);
    assert_eq!(find_path_argument(&args), Some("b.txt".to_string()));
}

#[test]
fn no_path_argument_when_all_tokens_dashed() {
    let args = toks(&["-x", "-4", "--help"]);
    assert_eq!(find_path_argument(&args), None);
}

#[test]
fn no_path_argument_on_empty_input() {
    let args: Vec<String> = Vec::new();
    assert_eq!(find_path_argument(&args), None);
}

#[test]
fn resolve_concatenates_absolute_argument_directly() {
    let args = toks(&["/tmp/f.txt"]);
    let dir = "/home/u".to_string();
    assert_eq!(resolve(&args, &dir, false), Some("/home/u/tmp/f.txt".to_string()));
}

#[test]
fn resolve_inserts_separator_for_relative_argument() {
    let args = toks(&["notes.txt"]);
    let dir = "/home/u".to_string();
    assert_eq!(resolve(&args, &dir, false), Some("/home/u/notes.txt".to_string()));
}

#[test]
fn resolve_quotes_path_with_space() {
    let args = toks(&["my notes.txt"]);
    let dir = "/home/u".to_string();
    assert_eq!(resolve(&args, &dir, false), Some("\"/home/u/my notes.txt\"".to_string()));
}

#[test]
fn resolve_leaves_path_without_whitespace_unquoted() {
    let args = toks(&["-x", "notes.txt", "-4"]);
    let dir = "/home/u".to_string();
    assert_eq!(resolve(&args, &dir, false), Some("/home/u/notes.txt".to_string()));
}

#[test]
fn resolve_returns_none_without_plain_token() {
    let args = toks(&["-x", "-6"]);
    let dir = "/home/u".to_string();
    assert_eq!(resolve(&args, &dir, false), None);
}

#[test]
fn backslashes_become_forward_slashes_off_windows() {
    let p = "dir\\sub\\f.txt".to_string();
    assert_eq!(normalize_separators(&p, false), "dir/sub/f.txt");
}

#[test]
fn forward_slashes_become_backslashes_on_windows() {
    let p = "docs/f.txt".to_string();
    assert_eq!(normalize_separators(&p, true), "docs\\f.txt");
}

#[test]
fn resolve_on_windows_uses_backslash_separator() {
    let args = toks(&["docs/f.txt"]);
    let dir = "C:\\Users\\u".to_string();
    assert_eq!(resolve(&args, &dir, true), Some("C:\\Users\\u\\docs\\f.txt".to_string()));
}

#[test]
fn join_path_handles_both_shapes() {
    let dir = "/home/u".to_string();
    assert_eq!(join_path(&dir, &"/abs".to_string(), false), "/home/u/abs");
    assert_eq!(join_path(&dir, &"rel".to_string(), false), "/home/u/rel");
}

#[test]
fn quoting_wraps_only_spaced_strings() {
    assert_eq!(quote_if_spaced("a b".to_string()), "\"a b\"");
    assert_eq!(quote_if_spaced("a\tb".to_string()), "\"a\tb\"");
    assert_eq!(quote_if_spaced("ab".to_string()), "ab");
}

#[test]
fn whitespace_classification_matches_std() {
    for c in [' ', '\t', '\n', '\r', '\u{a0}', '\u{2003}', '\u{3000}', 'a', '-', '"', '\u{200b}'] {
        assert_eq!(is_space(c), c.is_whitespace());
    }
}

#[test]
fn trim_strips_surrounding_whitespace() {
    assert_eq!(trim(&"  myhost\n".to_string()), "myhost");
    assert_eq!(trim(&"\t a b \r\n".to_string()), "a b");
    assert_eq!(trim(&"   ".to_string()), "");
    assert_eq!(trim(&"host".to_string()), "host");
}

#[test]
fn dash_detection_looks_at_first_character() {
    assert!(starts_with_dash(&"-x".to_string()));
    assert!(starts_with_dash(&"--help".to_string()));
    assert!(!starts_with_dash(&"a-b".to_string()));
    assert!(!starts_with_dash(&"".to_string()));
}

#[test]
fn flags_are_scanned_anywhere_and_idempotent() {
    let f = parse_flags(&toks(&["prog", "-x", "file", "-6", "-x"]));
    assert!(f.filter_loopback);
    assert!(!f.show_ipv4);
    assert!(f.show_ipv6);
    assert!(!f.help);

    let f = parse_flags(&toks(&["prog", "--help"]));
    assert!(f.help);
    let f = parse_flags(&toks(&["-h"]));
    assert!(f.help);

    let f = parse_flags(&toks(&["prog", "-4"]));
    assert!(f.show_ipv4);
    assert!(!f.filter_loopback && !f.show_ipv6 && !f.help);
}
