//! Who may call the batch routes of the local API.
//!
//! A request is identified by the headers a browser or a tool sends
//! (`Origin`, `X-Client-Origin`, `Host`, `Referer`) and by the authority of
//! its URI (HTTP/2 `:authority`). The rules: a client origin, when there is
//! one, must be in the allowed list; without one, only requests that clearly
//! address this listener on loopback pass.

use vstd::prelude::*;
use crate::allowed_origins::AllowedOrigins;
use crate::origin_policy;
use crate::text;

verus! {

/// The request facts the origin check reads, as the HTTP layer gives them
/// (a header that is absent or not visible ASCII is `None`).
#[derive(Debug)]
pub struct RequestOriginHeaders {
    pub origin: Option<String>,
    pub x_client_origin: Option<String>,
    pub host: Option<String>,
    pub referer: Option<String>,
    /// Host part of the request URI's authority, if it has one.
    pub authority_host: Option<String>,
    /// Port of the request URI's authority, if it names one.
    pub authority_port: Option<u16>,
}

/// The verdict on a batch request.
pub enum OriginGate {
    /// The request may proceed.
    Allowed,
    /// A client origin was given and it is not in the allowed list (403 `origin_not_trusted`).
    NotTrusted(String),
    /// No client origin and nothing shows a loopback call to this listener (403 `missing_origin`).
    MissingOrigin,
}

pub open spec fn opt_view(o: Option<String>) -> Option<Seq<char>> {
    match o {
        Some(s) => Some(s@),
        None => None,
    }
}

/// `"{name}{port}{tail}"`.
pub open spec fn with_port(name: Seq<char>, port: u16, tail: Seq<char>) -> Seq<char> {
    name + text::decimal(port as nat) + tail
}

/// The `Host` header names this listener on loopback (trimmed, ASCII case ignored).
pub open spec fn host_is_loopback(host: Seq<char>, port: u16) -> bool {
    let h = text::lower(text::trim(host));
    h == with_port("127.0.0.1:"@, port, ""@) || h == with_port("localhost:"@, port, ""@)
}

/// The `Referer` is a page served by this listener on loopback (e.g. the API docs).
pub open spec fn referer_is_loopback(referer: Seq<char>, port: u16) -> bool {
    let r = text::lower(text::trim(referer));
    text::starts_with(r, with_port("http://127.0.0.1:"@, port, "/"@)) || text::starts_with(
        r,
        with_port("http://localhost:"@, port, "/"@),
    )
}

/// The client origin is exactly this listener's own address,
/// `http://127.0.0.1:{port}`: the API's own docs page, or a tool told to send
/// the origin that the `missing_origin` hint names.
pub open spec fn is_own_origin(origin: Seq<char>, port: u16) -> bool {
    origin == with_port("http://127.0.0.1:"@, port, ""@)
}

/// The URI authority is `127.0.0.1` or `localhost` (ASCII case ignored) with this port.
pub open spec fn authority_is_loopback(host: Option<Seq<char>>, auth_port: Option<u16>, port: u16) -> bool {
    match host {
        None => false,
        Some(h) => (text::lower(h) == "127.0.0.1"@ || text::lower(h) == "localhost"@) && auth_port
            == Some(port),
    }
}

pub open spec fn opt_host_is_loopback(host: Option<Seq<char>>, port: u16) -> bool {
    match host {
        Some(h) => host_is_loopback(h, port),
        None => false,
    }
}

pub open spec fn opt_referer_is_loopback(referer: Option<Seq<char>>, port: u16) -> bool {
    match referer {
        Some(r) => referer_is_loopback(r, port),
        None => false,
    }
}

/// The client's origin: `Origin`; else `X-Client-Origin` when `Host` is this
/// listener on loopback; else the origin of `Referer`, unless the referer is a
/// page of this listener.
pub open spec fn client_origin(
    origin: Option<Seq<char>>,
    x_client: Option<Seq<char>>,
    host: Option<Seq<char>>,
    referer: Option<Seq<char>>,
    port: u16,
) -> Option<Seq<char>> {
    if origin_policy::origin_of_header(origin) is Some {
        origin_policy::origin_of_header(origin)
    } else if opt_host_is_loopback(host, port) && origin_policy::origin_of_header(x_client) is Some {
        origin_policy::origin_of_header(x_client)
    } else {
        match referer {
            None => None,
            Some(r) => if referer_is_loopback(r, port) {
                None
            } else {
                origin_policy::origin_of_referer(r)
            },
        }
    }
}

pub open spec fn client_origin_of(h: RequestOriginHeaders, port: u16) -> Option<Seq<char>> {
    client_origin(opt_view(h.origin), opt_view(h.x_client_origin), opt_view(h.host), opt_view(h.referer), port)
}

/// Without a client origin, the request addresses this listener on loopback.
pub open spec fn addresses_loopback(h: RequestOriginHeaders, port: u16) -> bool {
    ||| opt_host_is_loopback(opt_view(h.host), port)
    ||| opt_referer_is_loopback(opt_view(h.referer), port)
    ||| authority_is_loopback(opt_view(h.authority_host), h.authority_port, port)
}

/// The chars of `"{name}{port}{tail}"`.
fn with_port_chars(name: &str, port: u16, tail: &str) -> (r: Vec<char>)
    ensures
        r@ == with_port(name@, port, tail@),
{
    let mut v = text::chars_of(name);
    text::append_chars(&mut v, &text::decimal_chars(port as u64));
    text::append_chars(&mut v, &text::chars_of(tail));
    v
}

/// `Host` names this API's listener on loopback (`127.0.0.1:{port}` or `localhost:{port}`).
pub fn host_is_loopback_local_api(host: &str, port: u16) -> (r: bool)
    ensures
        r == host_is_loopback(host@, port),
{
    let h = text::lower_chars(&text::trim_chars(&text::chars_of(host)));
    let a = with_port_chars("127.0.0.1:", port, "");
    let b = with_port_chars("localhost:", port, "");
    text::eq_chars(&h, &a) || text::eq_chars(&h, &b)
}

/// `Referer` is a page of this API on loopback (a GET from the docs page may carry no `Origin`).
pub fn referer_is_loopback_local_api(referer: &str, port: u16) -> (r: bool)
    ensures
        r == referer_is_loopback(referer@, port),
{
    let h = text::lower_chars(&text::trim_chars(&text::chars_of(referer)));
    let a = with_port_chars("http://127.0.0.1:", port, "/");
    let b = with_port_chars("http://localhost:", port, "/");
    text::occurs_at_exec(&h, &a, 0) || text::occurs_at_exec(&h, &b, 0)
}

/// The client origin is this API's own listener on loopback.
pub fn origin_is_own_listener(origin: &str, port: u16) -> (r: bool)
    ensures
        r == is_own_origin(origin@, port),
{
    let a = with_port_chars("http://127.0.0.1:", port, "");
    text::eq_chars(&text::chars_of(origin), &a)
}

/// HTTP/2 `:authority`: host `127.0.0.1` or `localhost` and this port.
pub fn uri_authority_is_loopback_local_api(
    authority_host: Option<&str>,
    authority_port: Option<u16>,
    port: u16,
) -> (r: bool)
    ensures
        r == authority_is_loopback(
            match authority_host {
                Some(s) => Some(s@),
                None => None,
            },
            authority_port,
            port,
        ),
{
    match authority_host {
        None => false,
        Some(h) => {
            let l = text::lower_chars(&text::chars_of(h));
            let ok_host = text::eq_chars(&l, &text::chars_of("127.0.0.1")) || text::eq_chars(
                &l,
                &text::chars_of("localhost"),
            );
            if !ok_host {
                return false;
            }
            match authority_port {
                Some(p) => p == port,
                None => false,
            }
        },
    }
}

fn opt_str(o: &Option<String>) -> (r: Option<&str>)
    ensures
        match r {
            Some(s) => opt_view(*o) == Some(s@),
            None => o is None,
        },
{
    match o {
        Some(s) => Some(s.as_str()),
        None => None,
    }
}

/// The client origin of a request: `Origin`, then `X-Client-Origin` (only
/// when `Host` is this listener on loopback), then `Referer` (unless it is a
/// page of this listener).
pub fn client_origin_from_headers(headers: &RequestOriginHeaders, listen_port: u16) -> (r: Option<
    String,
>)
    ensures
        opt_view(r) == client_origin_of(*headers, listen_port),
{
    if let Some(o) = origin_policy::origin_from_header(opt_str(&headers.origin)) {
        return Some(o);
    }
    let host_loopback = match &headers.host {
        Some(h) => host_is_loopback_local_api(h.as_str(), listen_port),
        None => false,
    };
    if host_loopback {
        if let Some(o) = origin_policy::origin_from_header(opt_str(&headers.x_client_origin)) {
            return Some(o);
        }
    }
    match &headers.referer {
        None => None,
        Some(referer) => {
            if referer_is_loopback_local_api(referer.as_str(), listen_port) {
                None
            } else {
                origin_policy::origin_from_referer(referer.as_str())
            }
        },
    }
}

/// Decides a batch route: a client origin must be allowed or be this
/// listener's own origin; without one the request must address this listener
/// on loopback (`Host`, `Referer` or URI authority).
pub fn gate_batch_origin(origins: &AllowedOrigins, headers: &RequestOriginHeaders, listen_port: u16) -> (r:
    OriginGate)
    ensures
        match r {
            OriginGate::Allowed => match client_origin_of(*headers, listen_port) {
                Some(o) => origin_policy::allowed_in(o, origins@) || is_own_origin(o, listen_port),
                None => addresses_loopback(*headers, listen_port),
            },
            OriginGate::NotTrusted(o) => client_origin_of(*headers, listen_port) == Some(o@)
                && !origin_policy::allowed_in(o@, origins@) && !is_own_origin(o@, listen_port),
            OriginGate::MissingOrigin => client_origin_of(*headers, listen_port) is None
                && !addresses_loopback(*headers, listen_port),
        },
{
    if let Some(origin) = client_origin_from_headers(headers, listen_port) {
        if origins.is_allowed_origin(origin.as_str()) || origin_is_own_listener(origin.as_str(), listen_port) {
            return OriginGate::Allowed;
        }
        return OriginGate::NotTrusted(origin);
    }
    let host_ok = match &headers.host {
        Some(h) => host_is_loopback_local_api(h.as_str(), listen_port),
        None => false,
    };
    if host_ok {
        return OriginGate::Allowed;
    }
    let referer_ok = match &headers.referer {
        Some(r) => referer_is_loopback_local_api(r.as_str(), listen_port),
        None => false,
    };
    if referer_ok {
        return OriginGate::Allowed;
    }
    if uri_authority_is_loopback_local_api(opt_str(&headers.authority_host), headers.authority_port, listen_port) {
        return OriginGate::Allowed;
    }
    OriginGate::MissingOrigin
}

/// The hint sent with a `missing_origin` refusal.
pub open spec fn missing_origin_hint_text(port: u16) -> Seq<char> {
    "Los GET desde Swagger a menudo no envían Origin; la API acepta llamadas al puerto local sin Origin si Host/Referer/URI indican 127.0.0.1:"@
        + text::decimal(port as nat) + ". Desde curl: -H \"Origin: http://127.0.0.1:"@ + text::decimal(
        port as nat,
    ) + "\""@
}

pub fn missing_origin_hint(port: u16) -> (r: String)
    ensures
        r@ == missing_origin_hint_text(port),
{
    let mut v = with_port_chars(
        "Los GET desde Swagger a menudo no envían Origin; la API acepta llamadas al puerto local sin Origin si Host/Referer/URI indican 127.0.0.1:",
        port,
        ". Desde curl: -H \"Origin: http://127.0.0.1:",
    );
    text::append_chars(&mut v, &text::decimal_chars(port as u64));
    text::append_chars(&mut v, &text::chars_of("\""));
    text::string_of(&v)
}

/// Answer of `GET /origin/check`: the client origin, and whether it is allowed.
#[derive(Debug)]
pub struct OriginCheckResponse {
    pub origin: Option<String>,
    pub trusted: bool,
}

pub fn origin_check(origins: &AllowedOrigins, headers: &RequestOriginHeaders, listen_port: u16) -> (r:
    OriginCheckResponse)
    ensures
        opt_view(r.origin) == client_origin_of(*headers, listen_port),
        r.trusted == match client_origin_of(*headers, listen_port) {
            Some(o) => origin_policy::allowed_in(o, origins@),
            None => false,
        },
{
    match client_origin_from_headers(headers, listen_port) {
        None => OriginCheckResponse { origin: None, trusted: false },
        Some(o) => {
            let trusted = origins.is_allowed_origin(o.as_str());
            OriginCheckResponse { origin: Some(o), trusted }
        },
    }
}

/// What `POST /origin/prompt` does for a request.
#[derive(Debug)]
pub enum OriginPromptStep {
    /// No client origin (400 `missing_origin`).
    MissingOrigin,
    /// Already allowed: trusted, no dialog.
    AlreadyTrusted,
    /// Ask the user about this origin.
    Ask(String),
}

pub fn origin_prompt_step(origins: &AllowedOrigins, headers: &RequestOriginHeaders, listen_port: u16) -> (r:
    OriginPromptStep)
    ensures
        match r {
            OriginPromptStep::MissingOrigin => client_origin_of(*headers, listen_port) is None,
            OriginPromptStep::AlreadyTrusted => client_origin_of(*headers, listen_port) matches Some(o)
                && origin_policy::allowed_in(o, origins@),
            OriginPromptStep::Ask(o) => client_origin_of(*headers, listen_port) == Some(o@)
                && !origin_policy::allowed_in(o@, origins@),
        },
{
    match client_origin_from_headers(headers, listen_port) {
        None => OriginPromptStep::MissingOrigin,
        Some(o) => if origins.is_allowed_origin(o.as_str()) {
            OriginPromptStep::AlreadyTrusted
        } else {
            OriginPromptStep::Ask(o)
        },
    }
}

/// The intent to open when the app is brought to the front: the given id unless blank.
pub fn focus_intent(intent: Option<String>) -> (r: Option<String>)
    ensures
        match intent {
            Some(i) => if text::trim(i@).len() > 0 {
                r == Some(i)
            } else {
                r is None
            },
            None => r is None,
        },
{
    match intent {
        Some(i) => {
            let t = text::trim_chars(&text::chars_of(i.as_str()));
            if t.len() > 0 {
                Some(i)
            } else {
                None
            }
        },
        None => None,
    }
}

} // verus!
