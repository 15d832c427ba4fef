use url_shortener::service::{
    conclude_resolve, conclude_shorten, draft_mapping, short_link, Error, Mapping, Shortener,
};
use url_shortener::store::{Lookup, PutOutcome};

fn mapping(short_code: &str, original_url: &str) -> Mapping {
    Mapping { short_code: short_code.to_string(), original_url: original_url.to_string() }
}

fn is_alias(text: &str) -> bool {
    text.chars().count() == 6 && text.chars().all(|c| c.is_ascii_alphanumeric())
}

#[test]
fn short_link_is_base_slash_alias() {
    assert_eq!(short_link("http://127.0.0.1:3000", "abc123"), "http://127.0.0.1:3000/abc123");
    assert_eq!(short_link("https://sho.rt", "Zz09aA"), "https://sho.rt/Zz09aA");
    assert_eq!(short_link("", ""), "/");
}

#[test]
fn shorten_then_resolve_round_trips() {
    let mut service = Shortener::new("http://127.0.0.1:3000".to_string());
    let urls = [
        "https://example.com/page",
        "http://example.com",
        "https://example.com/a?b=c#d",
        "  https://example.com/with-spaces  ",
        "ftp://files.example.org/pub",
    ];
    for url in urls {
        let link = service.shorten(url).expect("a fresh alias in a nearly empty store");
        assert_eq!(service.resolve(&link.alias), Ok(url.to_string()));
    }
    assert_eq!(service.len(), urls.len());
}

#[test]
fn shorten_returns_a_six_character_alias_and_its_link() {
    let mut service = Shortener::new("https://sho.rt".to_string());
    let link = service.shorten("https://example.com/page").unwrap();
    assert!(is_alias(&link.alias));
    assert_eq!(link.short_url, format!("https://sho.rt/{}", link.alias));
}

#[test]
fn shorten_rejects_malformed_text_and_creates_nothing() {
    let mut service = Shortener::new("http://127.0.0.1:3000".to_string());
    for text in ["not-a-url", "", "   ", "example.com/page", "\t\n", "mailto:someone@example.com"] {
        match service.shorten(text) {
            Err(e) => assert_eq!(e, Error::InvalidInput),
            Ok(_) => panic!("accepted {:?}", text),
        }
        assert_eq!(service.len(), 0);
    }
}

#[test]
fn resolving_an_alias_never_issued_is_not_found() {
    let mut service = Shortener::new("http://127.0.0.1:3000".to_string());
    assert_eq!(service.resolve("abc123"), Err(Error::NotFound));
    let link = service.shorten("https://example.com/page").unwrap();
    let other = if link.alias == "abc123" { "abc124" } else { "abc123" };
    assert_eq!(service.resolve(other), Err(Error::NotFound));
    assert_eq!(service.resolve(""), Err(Error::NotFound));
    assert_eq!(service.resolve("doesnotexist"), Err(Error::NotFound));
}

#[test]
fn claim_files_a_mapping_under_its_short_code() {
    let mut service = Shortener::new("http://127.0.0.1:3000".to_string());
    let link = service.claim(mapping("abc123", "https://example.com/page")).unwrap();
    assert_eq!(link.alias, "abc123");
    assert_eq!(link.short_url, "http://127.0.0.1:3000/abc123");
    assert_eq!(service.resolve("abc123"), Ok("https://example.com/page".to_string()));
    assert_eq!(service.len(), 1);
}

#[test]
fn claim_on_a_taken_alias_is_a_collision() {
    let mut service = Shortener::new("http://127.0.0.1:3000".to_string());
    service.claim(mapping("abc123", "https://example.com/first")).unwrap();
    match service.claim(mapping("abc123", "https://example.com/second")) {
        Err(e) => assert_eq!(e, Error::AliasCollision),
        Ok(_) => panic!("a taken alias was handed out again"),
    }
    assert_eq!(service.resolve("abc123"), Ok("https://example.com/first".to_string()));
    assert_eq!(service.len(), 1);
}

#[test]
fn scarce_aliases_give_one_success_each() {
    // Three aliases are free; seven calls draw from them.
    let pool = ["aaaaaa", "aaaaab", "aaaaac"];
    let draws = [0usize, 1, 0, 2, 1, 2, 0];
    let mut service = Shortener::new("http://127.0.0.1:3000".to_string());
    let mut issued: Vec<String> = Vec::new();
    let mut collisions = 0;
    for (n, d) in draws.iter().enumerate() {
        let url = format!("https://example.com/{}", n);
        match service.claim(mapping(pool[*d], &url)) {
            Ok(link) => issued.push(link.alias),
            Err(e) => {
                assert_eq!(e, Error::AliasCollision);
                collisions += 1;
            }
        }
    }
    assert_eq!(issued.len(), 3);
    assert_eq!(collisions, 4);
    issued.sort();
    issued.dedup();
    assert_eq!(issued.len(), 3);
    assert_eq!(service.len(), 3);
    assert_eq!(service.resolve("aaaaaa"), Ok("https://example.com/0".to_string()));
    assert_eq!(service.resolve("aaaaab"), Ok("https://example.com/1".to_string()));
    assert_eq!(service.resolve("aaaaac"), Ok("https://example.com/3".to_string()));
}

#[test]
fn drawing_one_free_alias_over_and_over_gives_one_success() {
    let mut service = Shortener::new("http://127.0.0.1:3000".to_string());
    let mut successes = 0;
    let mut collisions = 0;
    for n in 0..3 {
        match service.claim(mapping("aaaaaa", &format!("https://example.com/{}", n))) {
            Ok(_) => successes += 1,
            Err(e) => {
                assert_eq!(e, Error::AliasCollision);
                collisions += 1;
            }
        }
    }
    assert_eq!(successes, 1);
    assert_eq!(collisions, 2);
}

#[test]
fn draft_mapping_pairs_a_valid_url_with_a_fresh_alias() {
    let m = draft_mapping("https://example.com/page").unwrap();
    assert_eq!(m.original_url, "https://example.com/page");
    assert!(is_alias(&m.short_code));
}

#[test]
fn draft_mapping_keeps_the_url_verbatim() {
    let m = draft_mapping("  HTTPS://Example.COM/Page  ").unwrap();
    assert_eq!(m.original_url, "  HTTPS://Example.COM/Page  ");
}

#[test]
fn draft_mapping_rejects_malformed_text() {
    for text in ["not-a-url", "", " ", "data:text/plain,Stuff"] {
        match draft_mapping(text) {
            Err(e) => assert_eq!(e, Error::InvalidInput),
            Ok(_) => panic!("accepted {:?}", text),
        }
    }
}

#[test]
fn conclude_shorten_follows_the_store() {
    let link = conclude_shorten("https://sho.rt", "abc123".to_string(), PutOutcome::Inserted).unwrap();
    assert_eq!(link.alias, "abc123");
    assert_eq!(link.short_url, "https://sho.rt/abc123");
    match conclude_shorten("https://sho.rt", "abc123".to_string(), PutOutcome::AlreadyExists) {
        Err(e) => assert_eq!(e, Error::AliasCollision),
        Ok(_) => panic!("a collision went through"),
    }
    match conclude_shorten("https://sho.rt", "abc123".to_string(), PutOutcome::StorageError) {
        Err(e) => assert_eq!(e, Error::StorageError),
        Ok(_) => panic!("a storage fault went through"),
    }
}

#[test]
fn conclude_resolve_follows_the_store() {
    assert_eq!(
        conclude_resolve(Lookup::Found("https://example.com/page".to_string())),
        Ok("https://example.com/page".to_string())
    );
    assert_eq!(conclude_resolve(Lookup::Missing), Err(Error::NotFound));
    assert_eq!(conclude_resolve(Lookup::StorageError), Err(Error::StorageError));
}

#[test]
fn base_url_is_kept() {
    let mut service = Shortener::new("https://sho.rt".to_string());
    assert_eq!(service.base_url(), "https://sho.rt");
    service.shorten("https://example.com/page").unwrap();
    assert_eq!(service.base_url(), "https://sho.rt");
}
