//! The filtering proxy's rules: what a client's first frame asks for, whether
//! the domain filter lets it through, and what the proxy answers.

use crate::domain::{domain_allowed, domain_permitted};
use crate::number::{decimal, lemma_parse_decimal, parse_number, parse_unsigned, write_number};
use crate::text::{
    after, before, chars_of, find_from, first_line, first_word, has_prefix, is_space,
    lemma_find_from, lemma_find_is, lemma_trimmed_bounds, lemma_trimmed_is, lemma_trimmed_twice,
    line_at, lowercase_chars, lowercased, next_line, range_of, string_of, take_after, take_before,
    take_first_word, take_line, trim, trimmed,
};
use vstd::prelude::*;
use vstd::string::{StringExecFns, StringSliceAdditionalSpecFns};
use vstd::utf8::{decode_utf8, encode_utf8, encode_utf8_decode_utf8, valid_utf8};

verus! {

/// The local port on which the proxy listens.
pub const PROXY_PORT: u16 = 31415;

/// How many bytes of a client's first frame are read.
pub const FRAME_LIMIT: usize = 4096;

/// The port of a tunnel request that names none.
pub const TUNNEL_PORT: u16 = 443;

/// The port of a plain request whose host field names none.
pub const PLAIN_PORT: u16 = 80;

/// The page that a client is shown in place of a blocked site.
pub const BLOCK_PAGE: &'static str =
    "<html><body style='background:#0d0d0d;color:#fff;font-family:system-ui;display:flex;align-items:center;justify-content:center;height:100vh;margin:0'><div style='text-align:center'><h1>Blocked by Prodblock</h1><p>This site is not in your activity's allowed list.</p></div></body></html>";

/// An upstream server to connect to.
pub struct Target {
    pub host: String,
    pub port: u16,
}

/// What the proxy does with a connection once it has read the first frame.
pub enum ProxyPlan {
    /// Close without an answer.
    Close,
    /// Answer that the request cannot be read or names no host, and close.
    BadRequest,
    /// Answer with the block page, and close.
    Forbidden,
    /// Connect to the target and relay bytes both ways.
    Tunnel(Target),
    /// Connect to the target, hand it the frame as read and relay its answer.
    Forward(Target),
}

/// An upstream server, with its host as characters.
pub struct TargetView {
    pub host: Seq<char>,
    pub port: u16,
}

/// A plan, with its hosts as characters.
pub enum PlanView {
    Close,
    BadRequest,
    Forbidden,
    Tunnel(TargetView),
    Forward(TargetView),
}

impl View for Target {
    type V = TargetView;

    open spec fn view(&self) -> TargetView {
        TargetView { host: self.host@, port: self.port }
    }
}

impl View for ProxyPlan {
    type V = PlanView;

    open spec fn view(&self) -> PlanView {
        match self {
            ProxyPlan::Close => PlanView::Close,
            ProxyPlan::BadRequest => PlanView::BadRequest,
            ProxyPlan::Forbidden => PlanView::Forbidden,
            ProxyPlan::Tunnel(t) => PlanView::Tunnel(t@),
            ProxyPlan::Forward(t) => PlanView::Forward(t@),
        }
    }
}

/// What follows the prefix `p` in `s`, where `s` starts with it.
pub open spec fn without_prefix(s: Seq<char>, p: Seq<char>) -> Option<Seq<char>> {
    if p.is_prefix_of(s) {
        Some(s.skip(p.len() as int))
    } else {
        None
    }
}

/// The `host:port` of a tunnel request: the first word after `CONNECT ` on
/// the first line. `None` where the first line does not start so.
pub open spec fn tunnel_word(head: Seq<char>) -> Option<Seq<char>> {
    match without_prefix(first_line(head), "CONNECT "@) {
        Some(rest) => Some(first_word(rest)),
        None => None,
    }
}

/// Whether a line, given in lower case, is a host field.
pub open spec fn is_host_field(lower: Seq<char>) -> bool {
    "host:"@.is_prefix_of(lower)
}

/// The first line at or after index `from` that is a host field.
pub open spec fn host_field(head: Seq<char>, from: int) -> Option<Seq<char>>
    decreases head.len() + 1 - from,
    when 0 <= from
    via host_field_ends
{
    if from >= head.len() {
        None
    } else if is_host_field(lowercased(line_at(head, from))) {
        Some(line_at(head, from))
    } else {
        host_field(head, next_line(head, from))
    }
}

#[via_fn]
proof fn host_field_ends(head: Seq<char>, from: int) {
    if from < head.len() {
        lemma_find_from(head, '\n', from);
    }
}

/// What stands between the first and the second colon of `s`.
pub open spec fn second_piece(s: Seq<char>) -> Option<Seq<char>> {
    match after(s, ':') {
        Some(t) => Some(before(t, ':')),
        None => None,
    }
}

/// The host that the request names, as the domain filter is asked about it;
/// empty where the request names none.
pub open spec fn named_host(head: Seq<char>) -> Seq<char> {
    let raw = match tunnel_word(head) {
        Some(word) => word,
        None => match host_field(head, 0) {
            Some(line) => match second_piece(line) {
                Some(piece) => trimmed(piece),
                None => Seq::<char>::empty(),
            },
            None => Seq::<char>::empty(),
        },
    };
    trimmed(before(raw, ':'))
}

/// The value of the request's host field, without the white space around
/// it; empty where the request has none.
pub open spec fn host_value(head: Seq<char>) -> Seq<char> {
    match host_field(head, 0) {
        Some(line) => match after(line, ':') {
            Some(value) => trimmed(value),
            None => Seq::<char>::empty(),
        },
        None => Seq::<char>::empty(),
    }
}

/// The port that `host:port` names, or `fallback` where it names none that
/// is a number of 16 bits.
pub open spec fn port_of(s: Seq<char>, fallback: u16) -> u16 {
    match second_piece(s) {
        Some(p) => match parse_unsigned(p, u16::MAX as nat) {
            Some(n) => n as u16,
            None => fallback,
        },
        None => fallback,
    }
}

/// The server that `host:port` names.
pub open spec fn target_of(s: Seq<char>, fallback: u16) -> TargetView {
    TargetView { host: trimmed(before(s, ':')), port: port_of(s, fallback) }
}

/// What the proxy does with a request whose first frame is the text `head`,
/// under the allow-list `allowed`.
pub open spec fn request_plan(head: Seq<char>, allowed: Seq<Seq<char>>) -> PlanView {
    if named_host(head).len() == 0 {
        PlanView::BadRequest
    } else if !domain_permitted(named_host(head), allowed) {
        PlanView::Forbidden
    } else {
        match tunnel_word(head) {
            Some(word) => PlanView::Tunnel(target_of(word, TUNNEL_PORT)),
            None => PlanView::Forward(target_of(host_value(head), PLAIN_PORT)),
        }
    }
}

/// What the proxy does with a connection whose first frame is `frame`:
/// nothing where no byte came; where the bytes are no text, they are a
/// request that cannot be read.
pub open spec fn connection_plan(frame: Seq<u8>, allowed: Seq<Seq<char>>) -> PlanView {
    if frame.len() == 0 {
        PlanView::Close
    } else if !valid_utf8(frame) {
        PlanView::BadRequest
    } else {
        request_plan(decode_utf8(frame), allowed)
    }
}

/// The host of a host field's value is the same whether the value is trimmed
/// before its port is cut off or after.
pub proof fn lemma_host_of_value(v: Seq<char>)
    ensures
        trimmed(before(trimmed(v), ':')) == trimmed(before(trimmed(before(v, ':')), ':')),
{
    let colon = find_from(v, ':', 0);
    lemma_find_from(v, ':', 0);
    let x = before(v, ':');
    let (lo, hi) = lemma_trimmed_bounds(v);
    let (lx, hx) = lemma_trimmed_bounds(x);
    let tv = trimmed(v);
    let tx = trimmed(x);
    // Nothing of `x` is a colon, so nothing is cut off its trimmed form.
    assert(before(tx, ':') == tx) by {
        lemma_find_is(tx, ':', 0, tx.len() as int);
        assert(tx.take(tx.len() as int) =~= tx);
    }
    lemma_trimmed_twice(x);
    if colon == v.len() {
        assert(x =~= v);
    } else if lo == colon {
        assert(lx == x.len()) by {
            if lx < hx {
                assert(is_space(v[lx]));
            }
        }
        assert(tx =~= Seq::<char>::empty());
        assert(tv[0] == ':');
        assert(before(tv, ':') =~= Seq::<char>::empty());
        let e = Seq::<char>::empty();
        lemma_trimmed_is(e, 0, 0);
        assert(e.subrange(0, 0) =~= e);
    } else {
        assert(lo < colon) by {
            if lo > colon {
                assert(is_space(v[colon]));
            }
        }
        assert(hi > colon) by {
            if hi <= colon {
                assert(is_space(v[colon]));
            }
        }
        assert(lx == lo && lo < hx) by {
            if lx < lo {
                assert(is_space(v[lx]));
                assert(x[lx] == v[lx]);
            } else if lx > lo {
                assert(is_space(x[lo]));
            }
        }
        lemma_find_is(tv, ':', 0, colon - lo);
        let y = before(tv, ':');
        assert(y =~= v.subrange(lo, colon));
        assert forall|j: int| hx - lo <= j < y.len() implies is_space(y[j]) by {
            assert(y[j] == x[lo + j]);
        }
        assert(y[hx - lo - 1] == x[hx - 1]);
        lemma_trimmed_is(y, 0, hx - lo);
        assert(y.subrange(0, hx - lo) =~= x.subrange(lx, hx));
    }
}

/// Whatever server a plan names, it is the host that the request names, and
/// the domain filter lets that host through: the proxy reaches for no host
/// that the allow-list refuses.
pub proof fn lemma_reaches_only_what_is_permitted(head: Seq<char>, allowed: Seq<Seq<char>>)
    ensures
        match request_plan(head, allowed) {
            PlanView::Tunnel(t) => t.host == named_host(head) && domain_permitted(t.host, allowed),
            PlanView::Forward(t) => t.host == named_host(head) && domain_permitted(t.host, allowed),
            _ => true,
        },
{
    if tunnel_word(head) is None {
        match host_field(head, 0) {
            Some(line) => match after(line, ':') {
                Some(v) => {
                    lemma_host_of_value(v);
                },
                None => {
                    lemma_no_host(head);
                },
            },
            None => {
                lemma_no_host(head);
            },
        }
    }
}

/// A plain request without a host field, or with one that has no value,
/// names no host.
proof fn lemma_no_host(head: Seq<char>)
    requires
        tunnel_word(head) is None,
        host_field(head, 0) matches Some(line) ==> after(line, ':') is None,
    ensures
        named_host(head).len() == 0,
{
    let e = Seq::<char>::empty();
    assert(before(e, ':') =~= e);
    lemma_trimmed_is(e, 0, 0);
    assert(e.subrange(0, 0) =~= e);
}

/// Calls `std::str::from_utf8`: where the bytes are well-formed UTF-8, the
/// text whose encoding they are, and no text otherwise.
#[verifier::external_body]
pub(crate) fn text_of(bytes: &[u8]) -> (r: Option<&str>)
    ensures
        r is Some <==> valid_utf8(bytes@),
        r matches Some(s) ==> s.spec_bytes() == bytes@,
{
    match std::str::from_utf8(bytes) {
        Ok(s) => Some(s),
        Err(_) => None,
    }
}

/// What follows the prefix `p` in `s`, where `s` starts with it.
pub fn strip_prefix<'a>(s: &'a [char], p: &[char]) -> (r: Option<&'a [char]>)
    ensures
        match r {
            Some(t) => without_prefix(s@, p@) == Some(t@),
            None => without_prefix(s@, p@) is None,
        },
{
    if has_prefix(s, p) {
        Some(range_of(s, p.len(), s.len()))
    } else {
        None
    }
}

/// The `host:port` word of a tunnel request.
pub fn tunnel_word_of(head: &[char]) -> (r: Option<&[char]>)
    ensures
        match r {
            Some(w) => tunnel_word(head@) == Some(w@),
            None => tunnel_word(head@) is None,
        },
{
    let line: &[char] = take_line(head, 0).0;
    let word: Vec<char> = chars_of("CONNECT ");
    match strip_prefix(line, word.as_slice()) {
        Some(rest) => Some(take_first_word(rest)),
        None => None,
    }
}

/// The first line of `head` that is a host field.
pub fn host_field_of(head: &[char]) -> (r: Option<&[char]>)
    ensures
        match r {
            Some(l) => host_field(head@, 0) == Some(l@),
            None => host_field(head@, 0) is None,
        },
{
    let name: Vec<char> = chars_of("host:");
    let mut from: usize = 0;
    while from < head.len()
        invariant
            from <= head.len(),
            name@ == "host:"@,
            host_field(head@, 0) == host_field(head@, from as int),
        decreases head.len() - from,
    {
        let (line, end) = take_line(head, from);
        let lower: Vec<char> = lowercase_chars(line);
        if has_prefix(lower.as_slice(), name.as_slice()) {
            return Some(line);
        }
        if end >= head.len() {
            assert(host_field(head@, next_line(head@, from as int)) is None);
            return None;
        }
        from = end + 1;
    }
    None
}

/// What stands between the first and the second colon of `s`.
pub fn second_piece_of(s: &[char]) -> (r: Option<&[char]>)
    ensures
        match r {
            Some(p) => second_piece(s@) == Some(p@),
            None => second_piece(s@) is None,
        },
{
    match take_after(s, ':') {
        Some(t) => Some(take_before(t, ':')),
        None => None,
    }
}

/// The server that `host:port` names, with `fallback` for its port where it
/// names none.
pub fn read_target(s: &[char], fallback: u16) -> (r: Target)
    ensures
        r@ == target_of(s@, fallback),
{
    let port: u16 = match second_piece_of(s) {
        Some(p) => match parse_number(p, 65535) {
            Some(n) => n as u16,
            None => fallback,
        },
        None => fallback,
    };
    Target { host: string_of(trim(take_before(s, ':'))), port }
}

/// Decides what to do with a request whose first frame is the text `head`.
pub fn plan_request(head: &str, allowed: &[String]) -> (plan: ProxyPlan)
    ensures
        plan@ == request_plan(head@, allowed.deep_view()),
{
    let chars: Vec<char> = chars_of(head);
    let tunnel: Option<&[char]> = tunnel_word_of(chars.as_slice());
    let field: Option<&[char]> = match tunnel {
        Some(_) => None,
        None => host_field_of(chars.as_slice()),
    };
    let empty: Vec<char> = Vec::new();
    let raw: &[char] = match tunnel {
        Some(word) => word,
        None => match field {
            Some(line) => match second_piece_of(line) {
                Some(piece) => trim(piece),
                None => empty.as_slice(),
            },
            None => empty.as_slice(),
        },
    };
    let host: &[char] = trim(take_before(raw, ':'));
    assert(host@ == named_host(head@));
    if host.len() == 0 {
        return ProxyPlan::BadRequest;
    }
    let name: String = string_of(host);
    if !domain_allowed(name.as_str(), allowed) {
        return ProxyPlan::Forbidden;
    }
    match tunnel {
        Some(word) => ProxyPlan::Tunnel(read_target(word, TUNNEL_PORT)),
        None => {
            let value: &[char] = match field {
                Some(line) => match take_after(line, ':') {
                    Some(v) => trim(v),
                    None => empty.as_slice(),
                },
                None => empty.as_slice(),
            };
            assert(value@ == host_value(head@));
            ProxyPlan::Forward(read_target(value, PLAIN_PORT))
        },
    }
}

/// Decides what to do with a connection whose first frame is `frame`.
pub fn plan_connection(frame: &[u8], allowed: &[String]) -> (plan: ProxyPlan)
    ensures
        plan@ == connection_plan(frame@, allowed.deep_view()),
{
    if frame.len() == 0 {
        return ProxyPlan::Close;
    }
    match text_of(frame) {
        Some(head) => {
            proof {
                encode_utf8_decode_utf8(head@);
            }
            plan_request(head, allowed)
        },
        None => ProxyPlan::BadRequest,
    }
}

/// The answer to a request that cannot be read or names no host.
pub open spec fn bad_request_text() -> Seq<char> {
    "HTTP/1.1 400 Bad Request\r\nConnection: close\r\n\r\n"@
}

/// The answer to a request that no upstream server could be reached for.
pub open spec fn bad_gateway_text() -> Seq<char> {
    "HTTP/1.1 502 Bad Gateway\r\nConnection: close\r\n\r\n"@
}

/// The answer to a tunnel request once the upstream server is reached.
pub open spec fn established_text() -> Seq<char> {
    "HTTP/1.1 200 Connection Established\r\n\r\n"@
}

/// The header of an answer that carries the block page, for a page of
/// `length` bytes.
pub open spec fn forbidden_header(length: nat) -> Seq<char> {
    "HTTP/1.1 403 Forbidden\r\nConnection: close\r\nContent-Length: "@ + decimal(length)
        + "\r\nContent-Type: text/html\r\n\r\n"@
}

/// The answer to a request for a host that the filter refuses: the header,
/// which states the page's length in bytes, then the page.
pub open spec fn forbidden_text() -> Seq<char> {
    forbidden_header(encode_utf8(BLOCK_PAGE@).len()) + BLOCK_PAGE@
}

/// The block answer carries a page that is not empty, and the digits in its
/// header read back as the number of bytes of that page.
pub proof fn lemma_block_answer_states_length()
    ensures
        BLOCK_PAGE@.len() > 0,
        parse_unsigned(
            decimal(encode_utf8(BLOCK_PAGE@).len()),
            encode_utf8(BLOCK_PAGE@).len(),
        ) == Some(encode_utf8(BLOCK_PAGE@).len()),
{
    reveal_strlit(
        "<html><body style='background:#0d0d0d;color:#fff;font-family:system-ui;display:flex;align-items:center;justify-content:center;height:100vh;margin:0'><div style='text-align:center'><h1>Blocked by Prodblock</h1><p>This site is not in your activity's allowed list.</p></div></body></html>",
    );
    lemma_parse_decimal(encode_utf8(BLOCK_PAGE@).len(), encode_utf8(BLOCK_PAGE@).len());
}

/// The answer to a request that cannot be read or names no host.
pub fn bad_request_response() -> (r: String)
    ensures
        r@ == bad_request_text(),
{
    String::from_str("HTTP/1.1 400 Bad Request\r\nConnection: close\r\n\r\n")
}

/// The answer to a request whose upstream server could not be reached.
pub fn bad_gateway_response() -> (r: String)
    ensures
        r@ == bad_gateway_text(),
{
    String::from_str("HTTP/1.1 502 Bad Gateway\r\nConnection: close\r\n\r\n")
}

/// The answer to a tunnel request whose upstream server is reached.
pub fn established_response() -> (r: String)
    ensures
        r@ == established_text(),
{
    String::from_str("HTTP/1.1 200 Connection Established\r\n\r\n")
}

/// The answer to a request for a host that the filter refuses.
pub fn forbidden_response() -> (r: String)
    ensures
        r@ == forbidden_text(),
{
    let mut r: String = String::from_str(
        "HTTP/1.1 403 Forbidden\r\nConnection: close\r\nContent-Length: ",
    );
    let digits: Vec<char> = write_number(BLOCK_PAGE.as_bytes().len() as u64);
    let length: String = string_of(digits.as_slice());
    r.append(length.as_str());
    r.append("\r\nContent-Type: text/html\r\n\r\n");
    r.append(BLOCK_PAGE);
    r
}

/// What the proxy does once it has tried to reach the upstream server.
pub struct FollowUp {
    /// What is written to the client first.
    pub reply: Option<String>,
    /// Whether the frame that was read is handed to the upstream server.
    pub forward_frame: bool,
    /// Whether bytes are relayed from the client to the upstream server.
    pub relay_up: bool,
    /// Whether bytes are relayed from the upstream server to the client.
    pub relay_down: bool,
}

/// What follows a plan, with the reply as characters.
pub struct FollowUpView {
    pub reply: Option<Seq<char>>,
    pub forward_frame: bool,
    pub relay_up: bool,
    pub relay_down: bool,
}

impl View for FollowUp {
    type V = FollowUpView;

    open spec fn view(&self) -> FollowUpView {
        FollowUpView {
            reply: match self.reply {
                Some(text) => Some(text@),
                None => None,
            },
            forward_frame: self.forward_frame,
            relay_up: self.relay_up,
            relay_down: self.relay_down,
        }
    }
}

/// What follows the plan `plan`, where `connected` says whether the upstream
/// server, if the plan names one, could be reached. A request that is
/// refused is answered and nothing else; a server that cannot be reached is
/// answered for with a bad gateway; a tunnel is confirmed and relayed both
/// ways; a plain request is handed on as read and its answer relayed back.
pub open spec fn follow_up_of(plan: PlanView, connected: bool) -> FollowUpView {
    match plan {
        PlanView::Close => FollowUpView {
            reply: None,
            forward_frame: false,
            relay_up: false,
            relay_down: false,
        },
        PlanView::BadRequest => FollowUpView {
            reply: Some(bad_request_text()),
            forward_frame: false,
            relay_up: false,
            relay_down: false,
        },
        PlanView::Forbidden => FollowUpView {
            reply: Some(forbidden_text()),
            forward_frame: false,
            relay_up: false,
            relay_down: false,
        },
        PlanView::Tunnel(_) => if connected {
            FollowUpView {
                reply: Some(established_text()),
                forward_frame: false,
                relay_up: true,
                relay_down: true,
            }
        } else {
            FollowUpView {
                reply: Some(bad_gateway_text()),
                forward_frame: false,
                relay_up: false,
                relay_down: false,
            }
        },
        PlanView::Forward(_) => if connected {
            FollowUpView { reply: None, forward_frame: true, relay_up: false, relay_down: true }
        } else {
            FollowUpView {
                reply: Some(bad_gateway_text()),
                forward_frame: false,
                relay_up: false,
                relay_down: false,
            }
        },
    }
}

/// A request for a host that the domain filter refuses is answered with the
/// block page and nothing is relayed, whether it asks for a tunnel or not.
pub proof fn lemma_refused_host_gets_block_page(
    head: Seq<char>,
    allowed: Seq<Seq<char>>,
    connected: bool,
)
    requires
        named_host(head).len() > 0,
        !domain_permitted(named_host(head), allowed),
    ensures
        follow_up_of(request_plan(head, allowed), connected) == (FollowUpView {
            reply: Some(forbidden_text()),
            forward_frame: false,
            relay_up: false,
            relay_down: false,
        }),
{
}

/// A tunnel to a server that is reached is confirmed and relayed both ways;
/// a server that is not reached is answered for with a bad gateway and
/// nothing is relayed.
pub proof fn lemma_tunnel_follows_the_connection(target: TargetView, connected: bool)
    ensures
        follow_up_of(PlanView::Tunnel(target), connected) == if connected {
            FollowUpView {
                reply: Some(established_text()),
                forward_frame: false,
                relay_up: true,
                relay_down: true,
            }
        } else {
            FollowUpView {
                reply: Some(bad_gateway_text()),
                forward_frame: false,
                relay_up: false,
                relay_down: false,
            }
        },
        !connected ==> follow_up_of(PlanView::Forward(target), connected) == follow_up_of(
            PlanView::Tunnel(target),
            connected,
        ),
{
}

fn answer_only(reply: Option<String>) -> (f: FollowUp)
    ensures
        f.reply == reply,
        !f.forward_frame,
        !f.relay_up,
        !f.relay_down,
{
    FollowUp { reply, forward_frame: false, relay_up: false, relay_down: false }
}

/// What the proxy does once it has tried to reach the server that the plan
/// names; `connected` says whether it was reached.
pub fn follow_up(plan: &ProxyPlan, connected: bool) -> (r: FollowUp)
    ensures
        r@ == follow_up_of(plan@, connected),
{
    match plan {
        ProxyPlan::Close => answer_only(None),
        ProxyPlan::BadRequest => answer_only(Some(bad_request_response())),
        ProxyPlan::Forbidden => answer_only(Some(forbidden_response())),
        ProxyPlan::Tunnel(_) => if connected {
            FollowUp {
                reply: Some(established_response()),
                forward_frame: false,
                relay_up: true,
                relay_down: true,
            }
        } else {
            answer_only(Some(bad_gateway_response()))
        },
        ProxyPlan::Forward(_) => if connected {
            FollowUp { reply: None, forward_frame: true, relay_up: false, relay_down: true }
        } else {
            answer_only(Some(bad_gateway_response()))
        },
    }
}

} // verus!
