//! How the recognition connection goes through a proxy: which kind of proxy
//! the settings name, the HTTP `CONNECT` request with its credentials, and
//! when the proxy's answer is complete and accepted.

use vstd::prelude::*;
use base64::Engine;
use crate::browser::{parse_url, url_parse, UrlModel, UrlParts};
use crate::storage::ProxyConfig;
use crate::text::{chars_of, concat2, push_decimal, str_equal, string_of, trim_class, CharClass};

verus! {

/// The streaming recognition endpoint.
pub const ASR_URL: &'static str = "wss://openspeech.bytedance.com/api/v3/sauc/bigmodel_async";

/// The kinds of proxy the recognition connection can go through.
#[derive(Debug, Clone, Copy, PartialEq, Eq)]
pub enum ProxyKind {
    Http,
    Socks5,
    Socks4,
}

/// A proxy to connect through: its kind, address and credentials (for
/// SOCKS4, the user id alone).
#[derive(Debug, PartialEq, Eq)]
pub struct ProxyPlan {
    pub kind: ProxyKind,
    pub host: String,
    pub port: u16,
    pub credentials: Option<(String, String)>,
}

/// Mathematical model of a [`ProxyPlan`].
pub struct ProxyPlanModel {
    pub kind: ProxyKind,
    pub host: Seq<char>,
    pub port: u16,
    pub credentials: Option<(Seq<char>, Seq<char>)>,
}

impl View for ProxyPlan {
    type V = ProxyPlanModel;

    open spec fn view(&self) -> ProxyPlanModel {
        ProxyPlanModel {
            kind: self.kind,
            host: self.host@,
            port: self.port,
            credentials: match self.credentials {
                Some((u, p)) => Some((u@, p@)),
                None => None,
            },
        }
    }
}

/// The kind of proxy a URL scheme names.
pub open spec fn proxy_kind_of(scheme: Seq<char>) -> Option<ProxyKind> {
    if scheme == "http"@ {
        Some(ProxyKind::Http)
    } else if scheme == "socks5"@ || scheme == "socks5h"@ {
        Some(ProxyKind::Socks5)
    } else if scheme == "socks4"@ || scheme == "socks4a"@ {
        Some(ProxyKind::Socks4)
    } else {
        None
    }
}

/// The credentials sent to a proxy: a user name or password in its URL
/// (the password empty when absent); for SOCKS4, a user name alone.
pub open spec fn proxy_credentials(kind: ProxyKind, url: UrlModel) -> Option<(Seq<char>, Seq<char>)> {
    match kind {
        ProxyKind::Socks4 => if url.username.len() > 0 {
            Some((url.username, Seq::empty()))
        } else {
            None
        },
        _ => if url.username.len() > 0 || url.password is Some {
            Some(
                (
                    url.username,
                    match url.password {
                        Some(p) => p,
                        None => Seq::empty(),
                    },
                ),
            )
        } else {
            None
        },
    }
}

/// What a parsed proxy URL comes to: its kind, host and port, or which of
/// them is missing.
pub open spec fn plan_from_url(url: UrlModel) -> Result<ProxyPlanModel, Seq<char>> {
    match proxy_kind_of(url.scheme) {
        None => Err("Unsupported proxy scheme for ASR websocket: "@ + url.scheme),
        Some(kind) => match url.host {
            None => Err("Proxy URL missing host"@),
            Some(host) => match url.port {
                None => Err("Proxy URL missing port"@),
                Some(port) => Ok(
                    ProxyPlanModel { kind, host, port, credentials: proxy_credentials(kind, url) },
                ),
            },
        },
    }
}

/// The proxy the settings name: none when the proxy is off or its URL
/// blank; else what the trimmed URL parses to, or the parser's error.
pub open spec fn proxy_plan_spec(enabled: bool, url: Seq<char>) -> Result<Option<ProxyPlanModel>, Seq<char>> {
    let u = crate::text::trim(url, CharClass::WhiteSpace);
    if !enabled || u.len() == 0 {
        Ok(None)
    } else {
        match url_parse(u) {
            Err(e) => Err(e),
            Ok(parsed) => match plan_from_url(parsed) {
                Ok(p) => Ok(Some(p)),
                Err(e) => Err(e),
            },
        }
    }
}

fn clone_opt(o: &Option<String>) -> (r: Option<String>)
    ensures
        match r {
            Some(s) => o.is_some() && s@ == o->0@,
            None => o.is_none(),
        },
{
    match o {
        Some(s) => Some(s.clone()),
        None => None,
    }
}

/// What a parsed proxy URL comes to: its kind, host, port and credentials,
/// or which of them is missing.
pub fn plan_from_parsed(parsed: &UrlParts) -> (r: Result<ProxyPlan, String>)
    ensures
        match r {
            Ok(p) => plan_from_url(parsed@) == Ok::<ProxyPlanModel, Seq<char>>(p@),
            Err(e) => plan_from_url(parsed@) == Err::<ProxyPlanModel, Seq<char>>(e@),
        },
{
    let scheme = parsed.scheme.as_str();
    let kind = if str_equal(scheme, "http") {
        ProxyKind::Http
    } else if str_equal(scheme, "socks5") || str_equal(scheme, "socks5h") {
        ProxyKind::Socks5
    } else if str_equal(scheme, "socks4") || str_equal(scheme, "socks4a") {
        ProxyKind::Socks4
    } else {
        return Err(concat2("Unsupported proxy scheme for ASR websocket: ", scheme));
    };
    let host = match &parsed.host {
        Some(h) => h.clone(),
        None => return Err(String::from_str("Proxy URL missing host")),
    };
    let port = match parsed.port {
        Some(p) => p,
        None => return Err(String::from_str("Proxy URL missing port")),
    };
    let credentials = match kind {
        ProxyKind::Socks4 => if !parsed.username.as_str().is_empty() {
            Some((parsed.username.clone(), String::new()))
        } else {
            None
        },
        _ => if !parsed.username.as_str().is_empty() || parsed.password.is_some() {
            let password = match clone_opt(&parsed.password) {
                Some(p) => p,
                None => String::new(),
            };
            Some((parsed.username.clone(), password))
        } else {
            None
        },
    };
    Ok(ProxyPlan { kind, host, port, credentials })
}

/// The proxy to connect the recognition stream through, if any.
pub fn plan_proxy(proxy: &ProxyConfig) -> (r: Result<Option<ProxyPlan>, String>)
    ensures
        match r {
            Ok(Some(p)) => proxy_plan_spec(proxy.enabled, proxy.url@) == Ok::<
                Option<ProxyPlanModel>,
                Seq<char>,
            >(Some(p@)),
            Ok(None) => proxy_plan_spec(proxy.enabled, proxy.url@) == Ok::<
                Option<ProxyPlanModel>,
                Seq<char>,
            >(None),
            Err(e) => proxy_plan_spec(proxy.enabled, proxy.url@) == Err::<
                Option<ProxyPlanModel>,
                Seq<char>,
            >(e@),
        },
{
    let u = string_of(&trim_class(&chars_of(proxy.url.as_str()), CharClass::WhiteSpace));
    if !proxy.enabled || u.as_str().is_empty() {
        return Ok(None);
    }
    match parse_url(u.as_str()) {
        Ok(parsed) => match plan_from_parsed(&parsed) {
            Ok(plan) => Ok(Some(plan)),
            Err(e) => Err(e),
        },
        Err(e) => Err(e),
    }
}

/// The host and port of a parsed URL, or which is missing.
pub open spec fn target_from_url(u: UrlModel) -> Result<(Seq<char>, u16), Seq<char>> {
    match u.host {
        None => Err("ASR URL missing host"@),
        Some(h) => match u.port {
            None => Err("ASR URL missing port"@),
            Some(p) => Ok((h, p)),
        },
    }
}

/// The host and port of the recognition endpoint, or which is missing.
pub open spec fn asr_target_spec() -> Result<(Seq<char>, u16), Seq<char>> {
    match url_parse(ASR_URL@) {
        Err(e) => Err(e),
        Ok(u) => target_from_url(u),
    }
}

/// The host and port of a parsed URL of the recognition endpoint, or which
/// is missing.
pub fn target_from_parsed(parsed: &UrlParts) -> (r: Result<(String, u16), String>)
    ensures
        match r {
            Ok((h, p)) => target_from_url(parsed@) == Ok::<(Seq<char>, u16), Seq<char>>((h@, p)),
            Err(e) => target_from_url(parsed@) == Err::<(Seq<char>, u16), Seq<char>>(e@),
        },
{
    let host = match &parsed.host {
        Some(h) => h.clone(),
        None => return Err(String::from_str("ASR URL missing host")),
    };
    match parsed.port {
        Some(p) => Ok((host, p)),
        None => Err(String::from_str("ASR URL missing port")),
    }
}

/// The host and port of the recognition endpoint.
pub fn asr_target() -> (r: Result<(String, u16), String>)
    ensures
        match r {
            Ok((h, p)) => asr_target_spec() == Ok::<(Seq<char>, u16), Seq<char>>((h@, p)),
            Err(e) => asr_target_spec() == Err::<(Seq<char>, u16), Seq<char>>(e@),
        },
{
    match parse_url(ASR_URL) {
        Ok(parsed) => target_from_parsed(&parsed),
        Err(e) => Err(e),
    }
}

/// `host:port`.
pub open spec fn address_spec(host: Seq<char>, port: u16) -> Seq<char> {
    host + ":"@ + crate::text::decimal(port as nat)
}

/// The address `host:port`.
pub fn socket_address(host: &str, port: u16) -> (r: String)
    ensures
        r@ == address_spec(host@, port),
{
    let mut out = chars_of(host);
    crate::text::append_chars(&mut out, &chars_of(":"));
    push_decimal(&mut out, port as u128);
    string_of(&out)
}

/// The base64 digit for a value below 64 (standard alphabet).
pub open spec fn b64_digit(v: int) -> char {
    if v < 26 {
        ((65 + v) as u32) as char
    } else if v < 52 {
        ((97 + v - 26) as u32) as char
    } else if v < 62 {
        ((48 + v - 52) as u32) as char
    } else if v == 62 {
        '+'
    } else {
        '/'
    }
}

/// Standard base64 with padding: each group of three bytes as four digits,
/// a final group of one or two bytes padded with `=`.
pub open spec fn base64_spec(b: Seq<u8>) -> Seq<char>
    decreases b.len(),
{
    if b.len() == 0 {
        Seq::empty()
    } else if b.len() == 1 {
        seq![b64_digit((b[0] / 4) as int), b64_digit((b[0] % 4) * 16), '=', '=']
    } else if b.len() == 2 {
        seq![b64_digit((b[0] / 4) as int), b64_digit((b[0] % 4) * 16 + b[1] / 16), b64_digit((b[1] % 16) * 4), '=']
    } else {
        seq![
            b64_digit((b[0] / 4) as int),
            b64_digit((b[0] % 4) * 16 + b[1] / 16),
            b64_digit((b[1] % 16) * 4 + b[2] / 64),
            b64_digit((b[2] % 64) as int),
        ] + base64_spec(b.skip(3))
    }
}

/// Encodes bytes with `base64`'s standard engine (padded), as RFC 4648 and
/// the crate's documentation describe ([`base64_spec`]).
#[verifier::external_body]
fn base64_encode(data: &[u8]) -> (r: String)
    ensures
        r@ == base64_spec(data@),
{
    base64::engine::general_purpose::STANDARD.encode(data)
}

/// The HTTP request that asks a proxy for a tunnel to `host:port`, with a
/// basic authorization header when there are credentials.
pub open spec fn connect_request_spec(host: Seq<char>, port: u16, credentials: Option<(Seq<char>, Seq<char>)>) -> Seq<char> {
    let hp = address_spec(host, port);
    let head = "CONNECT "@ + hp + " HTTP/1.1\r\nHost: "@ + hp + "\r\nProxy-Connection: Keep-Alive\r\n"@;
    let auth = match credentials {
        Some((user, password)) => "Proxy-Authorization: Basic "@ + base64_spec(
            vstd::utf8::encode_utf8(user + ":"@ + password),
        ) + "\r\n"@,
        None => Seq::empty(),
    };
    head + auth + "\r\n"@
}

/// The `CONNECT` request for a tunnel to `host:port`.
pub fn http_connect_request(host: &str, port: u16, credentials: &Option<(String, String)>) -> (r: String)
    ensures
        r@ == connect_request_spec(
            host@,
            port,
            match credentials {
                Some((u, p)) => Some((u@, p@)),
                None => None,
            },
        ),
{
    let hp = socket_address(host, port);
    let mut out = chars_of("CONNECT ");
    crate::text::append_chars(&mut out, &chars_of(hp.as_str()));
    crate::text::append_chars(&mut out, &chars_of(" HTTP/1.1\r\nHost: "));
    crate::text::append_chars(&mut out, &chars_of(hp.as_str()));
    crate::text::append_chars(&mut out, &chars_of("\r\nProxy-Connection: Keep-Alive\r\n"));
    let ghost head = out@;
    match credentials {
        Some((user, password)) => {
            let pair = crate::text::concat3(user.as_str(), ":", password.as_str());
            let encoded = base64_encode(pair.as_str().as_bytes());
            crate::text::append_chars(&mut out, &chars_of("Proxy-Authorization: Basic "));
            crate::text::append_chars(&mut out, &chars_of(encoded.as_str()));
            crate::text::append_chars(&mut out, &chars_of("\r\n"));
        },
        None => {
            proof {
                assert(out@ =~= head + Seq::<char>::empty());
            }
        },
    }
    crate::text::append_chars(&mut out, &chars_of("\r\n"));
    string_of(&out)
}

/// At most this many bytes of a proxy's answer are read.
pub const CONNECT_RESPONSE_LIMIT: usize = 16384;

/// How reading a proxy's answer stands.
#[derive(Debug, Clone, Copy, PartialEq, Eq)]
pub enum ConnectProgress {
    /// The header is complete.
    Complete,
    /// More is to be read.
    NeedMore,
    /// The answer grew past the limit without ending its header.
    TooLarge,
}

/// `\r\n\r\n` occurs at index `i`.
pub open spec fn blank_line_at(buf: Seq<u8>, i: int) -> bool {
    0 <= i && i + 4 <= buf.len() && buf[i] == 13 && buf[i + 1] == 10 && buf[i + 2] == 13 && buf[i + 3]
        == 10
}

/// The answer's header ends (`\r\n\r\n` occurs).
pub open spec fn header_ended(buf: Seq<u8>) -> bool {
    exists|i: int| #[trigger] blank_line_at(buf, i)
}

/// How reading stands once `buf` has been read.
pub fn connect_progress(buf: &[u8]) -> (r: ConnectProgress)
    ensures
        r == if header_ended(buf@) {
            ConnectProgress::Complete
        } else if buf@.len() > CONNECT_RESPONSE_LIMIT {
            ConnectProgress::TooLarge
        } else {
            ConnectProgress::NeedMore
        },
{
    let n = buf.len();
    let mut i: usize = 0;
    while n >= 4 && i <= n - 4
        invariant
            n == buf@.len(),
            i <= n,
            forall|j: int| 0 <= j < i ==> !#[trigger] blank_line_at(buf@, j),
        decreases buf@.len() - i,
    {
        if buf[i] == 13 && buf[i + 1] == 10 && buf[i + 2] == 13 && buf[i + 3] == 10 {
            proof {
                assert(blank_line_at(buf@, i as int));
            }
            return ConnectProgress::Complete;
        }
        i = i + 1;
    }
    proof {
        assert forall|j: int| !#[trigger] blank_line_at(buf@, j) by {
            if j >= i {
                assert(!(j + 4 <= buf@.len()));
            }
        }
    }
    if buf.len() > CONNECT_RESPONSE_LIMIT {
        ConnectProgress::TooLarge
    } else {
        ConnectProgress::NeedMore
    }
}

/// The bytes of the first line of an answer (up to the first line feed).
pub open spec fn first_line(buf: Seq<u8>) -> Seq<u8>
    decreases buf.len(),
{
    if buf.len() == 0 || buf[0] == 10 {
        Seq::empty()
    } else {
        seq![buf[0]] + first_line(buf.skip(1))
    }
}

/// ` 200 ` occurs in `line` at index `i`.
pub open spec fn status_200_at(line: Seq<u8>, i: int) -> bool {
    0 <= i && i + 5 <= line.len() && line[i] == 32 && line[i + 1] == 50 && line[i + 2] == 48 && line[i
        + 3] == 48 && line[i + 4] == 32
}

/// The proxy accepted: its status line holds ` 200 `.
pub open spec fn connect_accepted_spec(buf: Seq<u8>) -> bool {
    exists|i: int| #[trigger] status_200_at(first_line(buf), i)
}

/// The first line of an answer.
pub fn first_line_of(buf: &[u8]) -> (r: Vec<u8>)
    ensures
        r@ == first_line(buf@),
{
    let mut r: Vec<u8> = Vec::new();
    let mut i: usize = 0;
    proof {
        assert(buf@.skip(0) =~= buf@);
    }
    while i < buf.len() && buf[i] != 10
        invariant
            i <= buf@.len(),
            r@ + first_line(buf@.skip(i as int)) == first_line(buf@),
        decreases buf@.len() - i,
    {
        let ghost rest = buf@.skip(i as int);
        proof {
            assert(rest.skip(1) =~= buf@.skip(i + 1));
            assert(rest[0] == buf@[i as int]);
        }
        r.push(buf[i]);
        i = i + 1;
        proof {
            assert(r@ + first_line(buf@.skip(i as int)) =~= first_line(buf@));
        }
    }
    proof {
        let rest = buf@.skip(i as int);
        assert(first_line(rest) =~= Seq::<u8>::empty());
        assert(r@ + Seq::<u8>::empty() =~= r@);
    }
    r
}

/// Whether the proxy accepted the tunnel (its status line holds ` 200 `).
pub fn connect_accepted(buf: &[u8]) -> (b: bool)
    ensures
        b == connect_accepted_spec(buf@),
{
    let line = first_line_of(buf);
    let n = line.len();
    let mut i: usize = 0;
    while n >= 5 && i <= n - 5
        invariant
            n == line@.len(),
            i <= n,
            line@ == first_line(buf@),
            forall|j: int| 0 <= j < i ==> !#[trigger] status_200_at(line@, j),
        decreases n - i,
    {
        if line[i] == 32 && line[i + 1] == 50 && line[i + 2] == 48 && line[i + 3] == 48 && line[i + 4]
            == 32 {
            proof {
                assert(status_200_at(line@, i as int));
            }
            return true;
        }
        i = i + 1;
    }
    proof {
        assert forall|j: int| !#[trigger] status_200_at(line@, j) by {
            if j >= i {
                assert(!(j + 5 <= line@.len()));
            }
        }
    }
    false
}


/// Whether requests to the correction service go through the proxy: when it
/// is on and its URL is not empty.
pub fn uses_llm_proxy(proxy: &ProxyConfig) -> (b: bool)
    ensures
        b == (proxy.enabled && proxy.url@.len() > 0),
{
    proxy.enabled && !proxy.url.as_str().is_empty()
}

} // verus!
