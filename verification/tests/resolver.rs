use loopback_gateway::resolver::{get_url, ProxyError};

#[test]
fn resolves_host_and_path_as_written() {
    let target = get_url("api.example.com/v1/status").unwrap();
    assert_eq!(target.as_str(), "https://api.example.com/v1/status");
    assert_eq!(target.path(), "api.example.com/v1/status");
}

#[test]
fn resolution_changes_nothing_in_the_path() {
    // The parser would write this URL otherwise (lower-case host, a final
    // slash, an escaped space); the target keeps the text as it came.
    for path in ["API.Example.com", "example.com/a b", "example.com/%7Euser?q=1#top", "例え.jp/パス"] {
        let target = get_url(path).unwrap();
        assert_eq!(target.as_str(), format!("https://{}", path));
        assert_eq!(target.path(), path);
    }
}

#[test]
fn resolution_is_injective_on_examples() {
    let a = get_url("example.com/a").unwrap();
    let b = get_url("example.com/b").unwrap();
    let a_again = get_url("example.com/a").unwrap();
    assert_ne!(a, b);
    assert_eq!(a, a_again);
    assert_eq!(a.clone(), a);
}

#[test]
fn rejects_a_path_without_a_host() {
    assert_eq!(get_url(""), Err(ProxyError::InvalidUrl));
    assert_eq!(get_url(":443/v1/status"), Err(ProxyError::InvalidUrl));
}

#[test]
fn rejects_what_the_parser_rejects() {
    for path in ["exa mple.com/x", "example.com:port/x", "[::1/x", "a<b.com"] {
        assert!(url::Url::parse(&format!("https://{}", path)).is_err());
        assert_eq!(get_url(path), Err(ProxyError::InvalidUrl));
    }
}

#[test]
fn accepts_what_the_parser_accepts() {
    for path in ["localhost:8080/x", "127.0.0.1/", "[::1]:443/a", "user:pw@example.com/"] {
        assert!(url::Url::parse(&format!("https://{}", path)).is_ok());
        assert!(get_url(path).is_ok());
    }
}
