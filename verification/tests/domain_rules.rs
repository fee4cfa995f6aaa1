use prodblock::domain::{domain_allowed, entry_covers};

fn list(entries: &[&str]) -> Vec<String> {
    entries.iter().map(|e| e.to_string()).collect()
}

fn chars(s: &str) -> Vec<char> {
    s.chars().collect()
}

#[test]
fn a_subdomain_of_an_entry_is_allowed() {
    assert!(domain_allowed("mail.google.com", &list(&["google.com"])));
}

#[test]
fn a_host_that_only_ends_like_an_entry_is_refused() {
    assert!(!domain_allowed("evilgoogle.com", &list(&["google.com"])));
}

#[test]
fn the_comparison_ignores_case() {
    assert!(domain_allowed("GOOGLE.com", &list(&["google.com"])));
    assert!(domain_allowed("google.com", &list(&["GOOGLE.COM"])));
    assert!(domain_allowed("Mail.Google.Com", &list(&["gOOgle.com"])));
}

#[test]
fn the_empty_host_is_refused() {
    assert!(!domain_allowed("", &list(&["google.com"])));
    assert!(!domain_allowed("", &list(&[])));
    assert!(!domain_allowed("", &list(&[""])));
    assert!(!domain_allowed("   ", &list(&["google.com"])));
    assert!(!domain_allowed(":443", &list(&["google.com"])));
}

#[test]
fn the_empty_list_refuses_every_host() {
    assert!(!domain_allowed("google.com", &list(&[])));
}

#[test]
fn an_empty_entry_allows_nothing() {
    assert!(!domain_allowed("google.com", &list(&["", "  "])));
    assert!(domain_allowed("google.com", &list(&["", "google.com"])));
}

#[test]
fn a_port_suffix_and_white_space_are_ignored() {
    assert!(domain_allowed("google.com:443", &list(&["google.com"])));
    assert!(domain_allowed(" google.com ", &list(&["google.com"])));
    assert!(domain_allowed("google.com", &list(&["  google.com\t"])));
    assert!(domain_allowed("a.b.example.org:8080", &list(&["other.net", "example.org"])));
}

#[test]
fn an_entry_does_not_allow_its_parent() {
    assert!(!domain_allowed("google.com", &list(&["mail.google.com"])));
    assert!(!domain_allowed("com", &list(&["google.com"])));
    assert!(!domain_allowed(".google.com.evil", &list(&["google.com"])));
}

#[test]
fn entry_covers_is_exact_on_keys() {
    assert!(entry_covers(&chars("google.com"), &chars("google.com")));
    assert!(entry_covers(&chars("google.com"), &chars("mail.google.com")));
    assert!(entry_covers(&chars("google.com"), &chars(".google.com")));
    assert!(!entry_covers(&chars("google.com"), &chars("evilgoogle.com")));
    assert!(!entry_covers(&chars("google.com"), &chars("GOOGLE.com")));
    assert!(!entry_covers(&chars(""), &chars("google.com")));
    assert!(!entry_covers(&chars(""), &chars("")));
    assert!(!entry_covers(&chars("google.com"), &chars("")));
}
