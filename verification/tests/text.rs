use capsulator::text::{
    chars_of, is_connected_output, is_connected_text, is_whitespace_char, ssids_from_output,
    ssids_from_text, trim,
};

fn reference_ssids(bytes: &[u8]) -> Vec<String> {
    let stdout = String::from_utf8_lossy(bytes);
    stdout
        .lines()
        .filter_map(|line| line.split_whitespace().next())
        .map(|ssid| ssid.to_string())
        .collect()
}

#[test]
fn whitespace_matches_std_for_every_char() {
    for n in 0u32..=0x10FFFF {
        if let Some(c) = char::from_u32(n) {
            assert_eq!(is_whitespace_char(c), c.is_whitespace(), "code point {:#x}", n);
        }
    }
}

#[test]
fn chars_of_keeps_order() {
    assert_eq!(chars_of("aé b"), vec!['a', 'é', ' ', 'b']);
    assert_eq!(chars_of(""), Vec::<char>::new());
}

#[test]
fn ssids_first_word_of_each_line() {
    let text = "HomeNet\nCafe Free WiFi\n\n   spaced\r\nlast";
    assert_eq!(ssids_from_text(text), vec!["HomeNet", "Cafe", "spaced", "last"]);
}

#[test]
fn ssids_of_empty_and_blank_text() {
    assert_eq!(ssids_from_text(""), Vec::<String>::new());
    assert_eq!(ssids_from_text("\n\n \t \n"), Vec::<String>::new());
}

#[test]
fn ssids_trailing_newline_adds_nothing() {
    assert_eq!(ssids_from_text("a\nb\n"), vec!["a", "b"]);
}

#[test]
fn ssids_unicode_whitespace_splits_words() {
    let text = "\u{3000}caf\u{e9}\u{a0}x\nnet\u{2003}two";
    assert_eq!(ssids_from_text(text), vec!["caf\u{e9}", "net"]);
}

#[test]
fn ssids_match_lines_and_split_whitespace() {
    let samples: Vec<&[u8]> = vec![
        b"one\ntwo three\n\n  four\r\n",
        b"\xff\xfebad bytes\nok",
        b"x\r\n\r\ny z",
        "\u{2028}line\u{2029}sep\n".as_bytes(),
        b"",
    ];
    for s in samples {
        assert_eq!(ssids_from_output(s), reference_ssids(s));
    }
}

#[test]
fn ssids_from_invalid_utf8_keep_replacement_char() {
    // The decoder is lossy: the invalid byte becomes U+FFFD inside the word.
    assert_eq!(ssids_from_output(b"ab\xffcd ef\n"), vec!["ab\u{fffd}cd"]);
}

#[test]
fn trim_matches_str_trim() {
    for s in ["  connected \n", "\t\r\n", "", "a", " a b ", "\u{3000}x\u{85}"] {
        assert_eq!(trim(s), s.trim());
    }
}

#[test]
fn connected_state_is_recognised() {
    assert!(is_connected_text("connected\n"));
    assert!(is_connected_text("  connected"));
    assert!(!is_connected_text("disconnected\n"));
    assert!(!is_connected_text("connecting"));
    assert!(!is_connected_text("connected (site only)"));
    assert!(!is_connected_text(""));
}

#[test]
fn connected_state_from_bytes() {
    assert!(is_connected_output(b"connected\n"));
    assert!(!is_connected_output(b"connected\xff\n"));
    assert!(!is_connected_output(b"asleep\n"));
}

#[test]
fn padding_does_not_change_connection_answer() {
    assert_eq!(is_connected_text("\n\t connected \r\n"), is_connected_text("connected"));
}

#[test]
fn joined_listings_give_joined_names() {
    let first = "one two\n\n three\n";
    let second = "four\r\nfive six";
    let mut joined = ssids_from_text(first);
    joined.extend(ssids_from_text(second));
    assert_eq!(ssids_from_text(&format!("{}{}", first, second)), joined);
}

#[test]
fn joined_outputs_give_joined_names() {
    let first: &[u8] = "caf\u{e9}\n".as_bytes();
    let second: &[u8] = b"net a\nother";
    let mut both = first.to_vec();
    both.extend_from_slice(second);
    let mut joined = ssids_from_output(first);
    joined.extend(ssids_from_output(second));
    assert_eq!(ssids_from_output(&both), joined);
}
