use prodblock::proxy::{
    bad_gateway_response, bad_request_response, established_response, follow_up,
    forbidden_response, host_field_of, plan_connection, plan_request, read_target,
    second_piece_of, strip_prefix, tunnel_word_of, ProxyPlan, Target, BLOCK_PAGE, FRAME_LIMIT,
    PLAIN_PORT, PROXY_PORT, TUNNEL_PORT,
};

fn list(entries: &[&str]) -> Vec<String> {
    entries.iter().map(|e| e.to_string()).collect()
}

fn chars(s: &str) -> Vec<char> {
    s.chars().collect()
}

fn text(s: &[char]) -> String {
    s.iter().collect()
}

/// The plan in a form that can be compared: a tag, the host and the port.
fn shape(plan: &ProxyPlan) -> (&'static str, String, u16) {
    match plan {
        ProxyPlan::Close => ("close", String::new(), 0),
        ProxyPlan::BadRequest => ("bad request", String::new(), 0),
        ProxyPlan::Forbidden => ("forbidden", String::new(), 0),
        ProxyPlan::Tunnel(t) => ("tunnel", t.host.clone(), t.port),
        ProxyPlan::Forward(t) => ("forward", t.host.clone(), t.port),
    }
}

/// The same decision, written with the string functions of std.
fn plan_by_std(head: &str, allowed: &[String]) -> (&'static str, String, u16) {
    let first_line: &str = head.lines().next().unwrap_or("");
    let host: &str = if first_line.starts_with("CONNECT ") {
        first_line
            .strip_prefix("CONNECT ")
            .and_then(|s| s.split_whitespace().next())
            .unwrap_or("")
    } else {
        head.lines()
            .find(|l| l.to_lowercase().starts_with("host:"))
            .and_then(|l| l.split(':').nth(1))
            .map(str::trim)
            .unwrap_or("")
    };
    let host: &str = host.split(':').next().unwrap_or(host).trim();
    if host.is_empty() {
        return ("bad request", String::new(), 0);
    }
    if !prodblock::domain::domain_allowed(host, allowed) {
        return ("forbidden", String::new(), 0);
    }
    if first_line.starts_with("CONNECT ") {
        let host_port: &str = first_line
            .strip_prefix("CONNECT ")
            .and_then(|s| s.split_whitespace().next())
            .unwrap_or("");
        let mut parts = host_port.split(':');
        let host: &str = parts.next().unwrap_or("").trim();
        let port: u16 = parts.next().and_then(|p| p.parse().ok()).unwrap_or(443);
        ("tunnel", host.to_string(), port)
    } else {
        let host_header: &str = head
            .lines()
            .find(|l| l.to_lowercase().starts_with("host:"))
            .and_then(|l| l.split_once(':'))
            .map(|(_, v)| v.trim())
            .unwrap_or("");
        let port: u16 = host_header.split(':').nth(1).and_then(|p| p.parse().ok()).unwrap_or(80);
        let host: &str = host_header.split(':').next().unwrap_or(host_header).trim();
        ("forward", host.to_string(), port)
    }
}

const HEADS: [&str; 30] = [
    "CONNECT example.com:443 HTTP/1.1\r\nHost: example.com:443\r\n\r\n",
    "CONNECT example.com HTTP/1.1\r\n\r\n",
    "CONNECT example.com:8443 HTTP/1.1\r\n\r\n",
    "CONNECT example.com:notaport HTTP/1.1\r\n\r\n",
    "CONNECT example.com:70000 HTTP/1.1\r\n\r\n",
    "CONNECT example.com:+81 HTTP/1.1\r\n\r\n",
    "CONNECT example.com:81:82 HTTP/1.1\r\n\r\n",
    "CONNECT   mail.example.com:993   HTTP/1.1\r\n",
    "CONNECT \r\n",
    "CONNECT",
    "CONNECT :443 HTTP/1.1\r\n",
    "CONNECT blocked.org:443 HTTP/1.1\r\n",
    "connect example.com:443 HTTP/1.1\r\nHost: example.com\r\n\r\n",
    "GET / HTTP/1.1\r\nHost: example.com\r\n\r\n",
    "GET / HTTP/1.1\r\nhost: EXAMPLE.com\r\n\r\n",
    "GET / HTTP/1.1\r\nHOST:example.com:8080\r\n\r\n",
    "GET / HTTP/1.1\r\nAccept: */*\r\nHost:   www.example.com:8080  \r\nX: y\r\n\r\n",
    "GET / HTTP/1.1\nHost: example.com\n\n",
    "GET / HTTP/1.1\r\nHost: example.com:80:90\r\n\r\n",
    "GET / HTTP/1.1\r\nHost: example.com:\r\n\r\n",
    "GET / HTTP/1.1\r\nHost: example.com:x\r\n\r\n",
    "GET / HTTP/1.1\r\nHost: blocked.org\r\n\r\n",
    "GET / HTTP/1.1\r\nHost:\r\n\r\n",
    "GET / HTTP/1.1\r\nHost: :80\r\n\r\n",
    "GET / HTTP/1.1\r\nHost :example.com\r\n\r\n",
    "GET / HTTP/1.1\r\n Host: example.com\r\n\r\n",
    "GET / HTTP/1.1\r\nX-Host: blocked.org\r\nHost: example.com\r\nHost: blocked.org\r\n\r\n",
    "GET / HTTP/1.1\r\n\r\n",
    "Host: example.com",
    "\r\n",
];

#[test]
fn plan_request_agrees_with_the_string_functions_of_std() {
    let allowed: Vec<String> = list(&["example.com"]);
    for head in HEADS {
        assert_eq!(shape(&plan_request(head, &allowed)), plan_by_std(head, &allowed), "{:?}", head);
    }
}

#[test]
fn a_tunnel_request_for_an_allowed_host_is_tunnelled() {
    let plan: ProxyPlan = plan_request(
        "CONNECT mail.example.com:443 HTTP/1.1\r\nHost: mail.example.com:443\r\n\r\n",
        &list(&["example.com"]),
    );
    assert_eq!(shape(&plan), ("tunnel", "mail.example.com".to_string(), 443));
}

#[test]
fn a_tunnel_request_without_a_port_goes_to_the_default_port() {
    let plan: ProxyPlan = plan_request("CONNECT example.com HTTP/1.1\r\n\r\n", &list(&["example.com"]));
    assert_eq!(shape(&plan), ("tunnel", "example.com".to_string(), TUNNEL_PORT));
    assert_eq!(TUNNEL_PORT, 443);
}

#[test]
fn a_plain_request_for_an_allowed_host_is_forwarded() {
    let allowed: Vec<String> = list(&["example.com"]);
    let plan: ProxyPlan = plan_request("GET / HTTP/1.1\r\nHost: example.com\r\n\r\n", &allowed);
    assert_eq!(shape(&plan), ("forward", "example.com".to_string(), PLAIN_PORT));
    assert_eq!(PLAIN_PORT, 80);
    let plan: ProxyPlan = plan_request("GET / HTTP/1.1\r\nHost: www.example.com:8080\r\n\r\n", &allowed);
    assert_eq!(shape(&plan), ("forward", "www.example.com".to_string(), 8080));
}

#[test]
fn a_request_for_a_host_that_is_not_allowed_is_forbidden() {
    let allowed: Vec<String> = list(&["example.com"]);
    let plain: ProxyPlan = plan_request("GET / HTTP/1.1\r\nHost: blocked.org\r\n\r\n", &allowed);
    assert!(matches!(plain, ProxyPlan::Forbidden));
    let tunnel: ProxyPlan = plan_request("CONNECT blocked.org:443 HTTP/1.1\r\n\r\n", &allowed);
    assert!(matches!(tunnel, ProxyPlan::Forbidden));
    let near: ProxyPlan = plan_request("CONNECT evilexample.com:443 HTTP/1.1\r\n\r\n", &allowed);
    assert!(matches!(near, ProxyPlan::Forbidden));
}

#[test]
fn a_request_that_names_no_host_is_a_bad_request() {
    let allowed: Vec<String> = list(&["example.com"]);
    assert!(matches!(plan_request("GET / HTTP/1.1\r\n\r\n", &allowed), ProxyPlan::BadRequest));
    assert!(matches!(plan_request("CONNECT \r\n\r\n", &allowed), ProxyPlan::BadRequest));
    assert!(matches!(plan_request("GET / HTTP/1.1\r\nHost:\r\n\r\n", &allowed), ProxyPlan::BadRequest));
    assert!(matches!(plan_request("", &allowed), ProxyPlan::BadRequest));
}

#[test]
fn a_connection_without_a_frame_is_closed() {
    let allowed: Vec<String> = list(&["example.com"]);
    assert!(matches!(plan_connection(b"", &allowed), ProxyPlan::Close));
    assert!(matches!(plan_connection(b"", &list(&[])), ProxyPlan::Close));
}

#[test]
fn a_frame_that_is_no_text_is_a_bad_request() {
    let allowed: Vec<String> = list(&["example.com"]);
    assert!(matches!(plan_connection(&[0xff, 0xfe, 0x41], &allowed), ProxyPlan::BadRequest));
    assert!(matches!(plan_connection(&[0xc3], &allowed), ProxyPlan::BadRequest));
    let mut cut: Vec<u8> = b"GET / HTTP/1.1\r\nHost: example.com\r\n\r\n".to_vec();
    cut.push(0xe2);
    assert!(matches!(plan_connection(&cut, &allowed), ProxyPlan::BadRequest));
}

#[test]
fn a_connection_with_a_frame_is_planned_by_its_text() {
    let allowed: Vec<String> = list(&["example.com"]);
    let plan: ProxyPlan = plan_connection(b"CONNECT example.com:443 HTTP/1.1\r\n\r\n", &allowed);
    assert_eq!(shape(&plan), ("tunnel", "example.com".to_string(), 443));
    let plan: ProxyPlan = plan_connection(b"GET / HTTP/1.1\r\nHost: blocked.org\r\n\r\n", &allowed);
    assert!(matches!(plan, ProxyPlan::Forbidden));
    let plan: ProxyPlan = plan_connection("GET / HTTP/1.1\r\nHost: é.example.com\r\n\r\n".as_bytes(), &allowed);
    assert_eq!(shape(&plan), ("forward", "é.example.com".to_string(), 80));
}

#[test]
fn the_block_answer_states_the_length_of_its_page() {
    let response: String = forbidden_response();
    let (header, body) = response.split_once("\r\n\r\n").unwrap();
    assert!(header.starts_with("HTTP/1.1 403 Forbidden\r\n"));
    assert_eq!(body, BLOCK_PAGE);
    assert!(!body.is_empty());
    assert!(body.starts_with("<html>"));
    let stated: usize = header
        .lines()
        .find_map(|l| l.strip_prefix("Content-Length: "))
        .unwrap()
        .parse()
        .unwrap();
    assert_eq!(stated, body.len());
    assert_eq!(
        response,
        format!(
            "HTTP/1.1 403 Forbidden\r\nConnection: close\r\nContent-Length: {}\r\nContent-Type: text/html\r\n\r\n{}",
            BLOCK_PAGE.len(),
            BLOCK_PAGE
        )
    );
}

#[test]
fn the_other_answers_are_fixed() {
    assert_eq!(bad_request_response(), "HTTP/1.1 400 Bad Request\r\nConnection: close\r\n\r\n");
    assert_eq!(bad_gateway_response(), "HTTP/1.1 502 Bad Gateway\r\nConnection: close\r\n\r\n");
    assert_eq!(established_response(), "HTTP/1.1 200 Connection Established\r\n\r\n");
}

#[test]
fn a_reached_tunnel_is_confirmed_and_relayed_both_ways() {
    let plan: ProxyPlan = ProxyPlan::Tunnel(Target { host: "example.com".to_string(), port: 443 });
    let next = follow_up(&plan, true);
    assert_eq!(next.reply, Some("HTTP/1.1 200 Connection Established\r\n\r\n".to_string()));
    assert!(next.relay_up && next.relay_down && !next.forward_frame);
}

#[test]
fn an_unreachable_server_is_answered_with_a_bad_gateway() {
    let tunnel: ProxyPlan = ProxyPlan::Tunnel(Target { host: "example.com".to_string(), port: 443 });
    let next = follow_up(&tunnel, false);
    assert_eq!(next.reply, Some("HTTP/1.1 502 Bad Gateway\r\nConnection: close\r\n\r\n".to_string()));
    assert!(!next.relay_up && !next.relay_down && !next.forward_frame);
    let forward: ProxyPlan = ProxyPlan::Forward(Target { host: "example.com".to_string(), port: 80 });
    let next = follow_up(&forward, false);
    assert_eq!(next.reply, Some("HTTP/1.1 502 Bad Gateway\r\nConnection: close\r\n\r\n".to_string()));
    assert!(!next.relay_up && !next.relay_down && !next.forward_frame);
}

#[test]
fn a_reached_plain_server_gets_the_frame_and_its_answer_is_relayed() {
    let plan: ProxyPlan = ProxyPlan::Forward(Target { host: "example.com".to_string(), port: 80 });
    let next = follow_up(&plan, true);
    assert_eq!(next.reply, None);
    assert!(next.forward_frame && next.relay_down && !next.relay_up);
}

#[test]
fn a_refused_request_is_answered_and_nothing_else() {
    for connected in [false, true] {
        let next = follow_up(&ProxyPlan::Forbidden, connected);
        assert_eq!(next.reply, Some(forbidden_response()));
        assert!(!next.relay_up && !next.relay_down && !next.forward_frame);
        let next = follow_up(&ProxyPlan::BadRequest, connected);
        assert_eq!(next.reply, Some(bad_request_response()));
        assert!(!next.relay_up && !next.relay_down && !next.forward_frame);
        let next = follow_up(&ProxyPlan::Close, connected);
        assert_eq!(next.reply, None);
        assert!(!next.relay_up && !next.relay_down && !next.forward_frame);
    }
}

#[test]
fn read_target_splits_host_and_port() {
    let t: Target = read_target(&chars("example.com:8080"), 443);
    assert_eq!((t.host.as_str(), t.port), ("example.com", 8080));
    let t: Target = read_target(&chars("example.com"), 443);
    assert_eq!((t.host.as_str(), t.port), ("example.com", 443));
    let t: Target = read_target(&chars(" example.com :80"), 443);
    assert_eq!((t.host.as_str(), t.port), ("example.com", 80));
    let t: Target = read_target(&chars("example.com: 80"), 443);
    assert_eq!((t.host.as_str(), t.port), ("example.com", 443));
    let t: Target = read_target(&chars("example.com:65536"), 80);
    assert_eq!((t.host.as_str(), t.port), ("example.com", 80));
    let t: Target = read_target(&chars("example.com:0"), 80);
    assert_eq!((t.host.as_str(), t.port), ("example.com", 0));
}

#[test]
fn the_parts_of_a_request_are_found() {
    let head: Vec<char> = chars("CONNECT  a.example.com:443  HTTP/1.1\r\nHost: b.example.com\r\n");
    assert_eq!(tunnel_word_of(&head).map(text), Some("a.example.com:443".to_string()));
    assert_eq!(host_field_of(&head).map(text), Some("Host: b.example.com".to_string()));
    let head: Vec<char> = chars("GET / HTTP/1.1\r\nhOsT: b.example.com:81\r\n");
    assert_eq!(tunnel_word_of(&head).map(text), None);
    assert_eq!(host_field_of(&head).map(text), Some("hOsT: b.example.com:81".to_string()));
    assert_eq!(second_piece_of(&chars("hOsT: b.example.com:81")).map(text), Some(" b.example.com".to_string()));
    assert_eq!(second_piece_of(&chars("none")).map(text), None);
    assert_eq!(strip_prefix(&chars("CONNECT x"), &chars("CONNECT ")).map(text), Some("x".to_string()));
    assert_eq!(strip_prefix(&chars("CONNEC"), &chars("CONNECT ")).map(text), None);
    assert_eq!(host_field_of(&chars("GET / HTTP/1.1\r\n\r\n")).map(text), None);
}

#[test]
fn the_ports_and_the_frame_limit_are_fixed() {
    assert_eq!(PROXY_PORT, 31415);
    assert_eq!(FRAME_LIMIT, 4096);
}
