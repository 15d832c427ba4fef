use url_shortener::validate::{is_valid_url, ParsedUrl};

#[test]
fn accepts_absolute_urls() {
    assert!(is_valid_url("https://example.com/page"));
    assert!(is_valid_url("http://example.com"));
    assert!(is_valid_url("https://example.com:8443/a/b?c=d#e"));
    assert!(is_valid_url("ftp://rms@example.com"));
    assert!(is_valid_url("http://127.0.0.1:3000/x"));
    assert!(is_valid_url("HTTPS://EXAMPLE.COM/"));
}

#[test]
fn accepts_surrounding_spaces_and_inner_tabs() {
    assert!(is_valid_url("  https://example.com/page  "));
    assert!(is_valid_url("ht\ttps://example.com/"));
}

#[test]
fn rejects_text_without_a_scheme() {
    assert!(!is_valid_url("not-a-url"));
    assert!(!is_valid_url("example.com/page"));
    assert!(!is_valid_url("//example.com/page"));
    assert!(!is_valid_url("/just/a/path"));
    assert!(!is_valid_url("://example.com"));
    assert!(!is_valid_url("1http://example.com"));
}

#[test]
fn rejects_empty_text() {
    assert!(!is_valid_url(""));
}

#[test]
fn rejects_whitespace_only_text() {
    assert!(!is_valid_url(" "));
    assert!(!is_valid_url("   "));
    assert!(!is_valid_url("\t\n"));
}

#[test]
fn rejects_urls_without_a_host() {
    assert!(!is_valid_url("mailto:someone@example.com"));
    assert!(!is_valid_url("data:text/plain,Stuff"));
    assert!(!is_valid_url("unix:/run/foo.socket"));
    assert!(!is_valid_url("http://"));
}

#[test]
fn parsed_url_is_absolute_with_scheme_and_host() {
    let with_host = ParsedUrl { scheme: "https".to_string(), host: Some("example.com".to_string()) };
    assert!(with_host.is_absolute());
    let without_host = ParsedUrl { scheme: "mailto".to_string(), host: None };
    assert!(!without_host.is_absolute());
    let without_scheme = ParsedUrl { scheme: String::new(), host: Some("example.com".to_string()) };
    assert!(!without_scheme.is_absolute());
}

/// The texts of up to `max_len` characters over `alphabet`.
fn texts_over(alphabet: &[char], max_len: usize) -> Vec<String> {
    let mut all = vec![String::new()];
    let mut last = vec![String::new()];
    for _ in 0..max_len {
        let mut next = Vec::new();
        for text in &last {
            for c in alphabet {
                let mut longer = text.clone();
                longer.push(*c);
                next.push(longer);
            }
        }
        all.extend(next.iter().cloned());
        last = next;
    }
    all
}

/// Leading controls and spaces, a letter, scheme characters with tabs and
/// newlines among them, a colon.
fn opens_with_scheme(text: &str) -> bool {
    let chars: Vec<char> = text.chars().collect();
    let mut start = 0;
    while start < chars.len() && chars[start] <= ' ' {
        start += 1;
    }
    if start >= chars.len() || !chars[start].is_ascii_alphabetic() {
        return false;
    }
    for c in &chars[start + 1..] {
        match *c {
            ':' => return true,
            '\t' | '\n' | '\r' => {}
            c if c.is_ascii_alphanumeric() || c == '+' || c == '-' || c == '.' => {}
            _ => return false,
        }
    }
    false
}

#[test]
fn parser_accepts_only_text_that_opens_with_a_scheme() {
    let alphabet = ['a', 'Z', '1', ':', '/', ' ', '\t', '+', '.', 'é', '\u{1}', '#'];
    let mut accepted = 0;
    for text in texts_over(&alphabet, 4) {
        if url::Url::parse(&text).is_ok() {
            accepted += 1;
            assert!(opens_with_scheme(&text), "parsed without a scheme: {:?}", text);
        }
        if !opens_with_scheme(&text) {
            assert!(!is_valid_url(&text), "valid without a scheme: {:?}", text);
        }
    }
    assert!(accepted > 0);
}

#[test]
fn validity_is_a_parse_with_scheme_and_host() {
    let alphabet = ['a', 'b', ':', '/', '.', ' ', '@', '1'];
    let mut valid = 0;
    for text in texts_over(&alphabet, 5) {
        let expected = match url::Url::parse(&text) {
            Ok(u) => !u.scheme().is_empty() && u.host_str().is_some(),
            Err(_) => false,
        };
        assert_eq!(is_valid_url(&text), expected, "on {:?}", text);
        if expected {
            valid += 1;
        }
    }
    assert!(valid > 0);
}

#[test]
fn validity_does_not_change_between_calls() {
    for text in ["https://example.com/page", "not-a-url", "mailto:a@b.c", " http://a/ "] {
        let first = is_valid_url(text);
        for _ in 0..10 {
            assert_eq!(is_valid_url(text), first);
        }
    }
}
