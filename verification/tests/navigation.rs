use netra::browser::navigation_controller::{normalize_input, NavigationController};
use netra::text::{chars_of, white_space};

#[test]
fn navigate_normalizes_search_queries() {
    let controller = NavigationController::new();
    let normalized = controller.navigate("open ai gpt".to_string());
    assert_eq!(normalized, "https://www.google.com/search?q=open+ai+gpt");
}

fn norm(s: &str) -> String {
    normalize_input(s.to_string())
}

#[test]
fn direct_addresses_get_https_prefix() {
    assert_eq!(norm("example.com"), "https://example.com");
    assert_eq!(norm("  example.com/path?q=1  "), "https://example.com/path?q=1");
    assert_eq!(norm("localhost:8080"), "https://localhost:8080");
    assert_eq!(norm("192.168.0.1:3000/x"), "https://192.168.0.1:3000/x");
}

#[test]
fn input_with_scheme_is_kept() {
    assert_eq!(norm("http://example.com"), "http://example.com");
    assert_eq!(norm("\tftp://host/file\n"), "ftp://host/file");
}

#[test]
fn free_form_input_becomes_search() {
    assert_eq!(norm("rust"), "https://www.google.com/search?q=rust");
    assert_eq!(norm("  many   spaced\twords  "), "https://www.google.com/search?q=many+spaced+words");
    assert_eq!(norm("what is http://x"), "https://www.google.com/search?q=what+is+http://x");
}

#[test]
fn blank_input_stays_empty() {
    assert_eq!(norm(""), "");
    assert_eq!(norm(" \n\t "), "");
    assert_eq!(norm("\u{3000}"), "");
}

#[test]
fn normalization_is_idempotent_on_examples() {
    for input in ["open ai gpt", "example.com", "http://a.b", "", "rust", " 10.0.0.1 ", "a\u{a0}b"] {
        let once = norm(input);
        assert_eq!(norm(&once), once);
    }
}

#[test]
fn white_space_matches_std() {
    for code in 0u32..0x11_0000 {
        if let Some(c) = char::from_u32(code) {
            assert_eq!(white_space(c), c.is_whitespace(), "code point {code:#x}");
        }
    }
}

#[test]
fn chars_round_trip() {
    let text = "héllo wörld ✓";
    assert_eq!(chars_of(text), text.chars().collect::<Vec<char>>());
}
