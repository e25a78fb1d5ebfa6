use arch_llm::utils::{normalize_url, resolve_endpoint};

#[test]
fn bare_hosts_get_an_http_scheme() {
    assert_eq!(normalize_url("example.com"), "http://example.com");
    assert_eq!(normalize_url("localhost:11434"), "http://localhost:11434");
}

#[test]
fn existing_schemes_are_kept() {
    assert_eq!(normalize_url("http://example.com"), "http://example.com");
    assert_eq!(normalize_url("https://example.com"), "https://example.com");
}

#[test]
fn surrounding_blanks_are_trimmed() {
    assert_eq!(normalize_url("  example.com \n"), "http://example.com");
    assert_eq!(normalize_url(" https://x "), "https://x");
}

#[test]
fn typed_endpoints_resolve_to_a_parsed_url() {
    let url = resolve_endpoint("localhost:11434").expect("a well-formed endpoint parses");
    assert_eq!(url.as_str(), "http://localhost:11434/");
}

#[test]
fn unparseable_endpoints_fall_back_to_the_default() {
    let url = resolve_endpoint("").expect("the default endpoint parses");
    assert_eq!(url.as_str(), "http://localhost:11434/");
}
