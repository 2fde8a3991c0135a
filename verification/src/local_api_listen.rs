//! Port and state of the loopback HTTP listener (fail fast, no fallback range).

use vstd::prelude::*;
use crate::allowed_origins::{self, AllowedOrigins};
use crate::text;

verus! {

pub const LOCAL_API_DEFAULT_PORT: u16 = 14500;

/// Environment variable that overrides the listen port.
pub const ENV_LOCAL_API_PORT: &'static str = "NEXOSIGN_LOCAL_API_PORT";

/// Observable state of the local API (for the UI and integrators).
#[derive(Clone, Debug)]
pub struct LocalApiListenSnapshot {
    pub listening: bool,
    pub port: u16,
    pub base_url: String,
    pub error: Option<String>,
    pub locked_by_env: bool,
}

/// Where the listener stands.
#[derive(Clone, Debug)]
pub enum RuntimeState {
    Pending { port: u16 },
    Listening { port: u16 },
    Failed { port: u16, error: String },
}

/// The runtime's record of the listener: what it binds and what it reports.
#[derive(Clone, Debug)]
pub struct LocalApiRuntime {
    state: RuntimeState,
    locked_by_env: bool,
}

pub open spec fn state_port(s: RuntimeState) -> u16 {
    match s {
        RuntimeState::Pending { port } => port,
        RuntimeState::Listening { port } => port,
        RuntimeState::Failed { port, .. } => port,
    }
}

/// The port the environment asks for: the trimmed value parsed as a
/// `u16` greater than zero; anything else gives the default.
pub open spec fn effective_port(raw: Option<Seq<char>>) -> u16 {
    match raw {
        None => LOCAL_API_DEFAULT_PORT,
        Some(s) => match text::parsed_unsigned(text::trim(s), u16::MAX as nat) {
            Some(n) => if n > 0 {
                n as u16
            } else {
                LOCAL_API_DEFAULT_PORT
            },
            None => LOCAL_API_DEFAULT_PORT,
        },
    }
}

pub open spec fn base_url(port: u16) -> Seq<char> {
    "http://127.0.0.1:"@ + text::decimal(port as nat)
}

/// What a snapshot of `state` shows.
pub open spec fn snapshot_matches(r: LocalApiListenSnapshot, state: RuntimeState, locked: bool) -> bool {
    &&& r.port == state_port(state)
    &&& r.base_url@ == base_url(state_port(state))
    &&& r.locked_by_env == locked
    &&& r.listening == state is Listening
    &&& match state {
        RuntimeState::Failed { error, .. } => r.error matches Some(e) && e@ == error@,
        _ => r.error is None,
    }
}

/// The listen port from the value of `NEXOSIGN_LOCAL_API_PORT` (`None` when unset):
/// a valid port greater than zero, else `14500`.
pub fn effective_listen_port(raw: Option<&str>) -> (r: u16)
    ensures
        r == effective_port(
            match raw {
                Some(s) => Some(s@),
                None => None,
            },
        ),
{
    match raw {
        None => LOCAL_API_DEFAULT_PORT,
        Some(s) => {
            let t = text::trim_chars(&text::chars_of(s));
            match text::parse_unsigned(&t, 65535) {
                Some(n) => if n > 0 {
                    n as u16
                } else {
                    LOCAL_API_DEFAULT_PORT
                },
                None => LOCAL_API_DEFAULT_PORT,
            }
        },
    }
}

/// `http://127.0.0.1:{port}`.
pub fn base_url_for_port(port: u16) -> (r: String)
    ensures
        r@ == base_url(port),
{
    let mut v = text::chars_of("http://127.0.0.1:");
    text::append_chars(&mut v, &text::decimal_chars(port as u64));
    text::string_of(&v)
}

/// The OpenAPI document for the listener at `base_url`: the template with
/// every occurrence of the default base URL replaced by `served_base`.
pub fn openapi_json_for_base_url(template: &str, served_base: &str) -> (r: String)
    ensures
        r@ == text::replace_all(template@, base_url(LOCAL_API_DEFAULT_PORT), served_base@),
{
    let default_base = base_url_for_port(LOCAL_API_DEFAULT_PORT);
    let from = text::chars_of(default_base.as_str());
    proof {
        assert(from@.len() > 0) by {
            reveal_strlit("http://127.0.0.1:");
            assert(from@[0] == 'h');
        }
    }
    let out = text::replace_all_chars(&text::chars_of(template), &from, &text::chars_of(served_base));
    text::string_of(&out)
}

pub open spec fn localhost_url(port: u16) -> Seq<char> {
    "http://localhost:"@ + text::decimal(port as nat)
}

/// The allowed origins after registering a custom port.
pub open spec fn with_port_origins(list: Seq<Seq<char>>, port: u16) -> Seq<Seq<char>> {
    if port == LOCAL_API_DEFAULT_PORT {
        list
    } else {
        allowed_origins::with_added(allowed_origins::with_added(list, base_url(port)), localhost_url(port))
    }
}

/// When the listen port differs from the default, the matching loopback
/// origins (`127.0.0.1` and `localhost`) are added to the CORS list.
pub fn merge_custom_port_origins(origins: &mut AllowedOrigins, port: u16)
    ensures
        final(origins)@ == with_port_origins(old(origins)@, port),
{
    if port == LOCAL_API_DEFAULT_PORT {
        return;
    }
    let a = base_url_for_port(port);
    origins.add_if_absent(a.as_str());
    let mut v = text::chars_of("http://localhost:");
    text::append_chars(&mut v, &text::decimal_chars(port as u64));
    let b = text::string_of(&v);
    origins.add_if_absent(b.as_str());
}

impl LocalApiRuntime {
    pub closed spec fn state(&self) -> RuntimeState {
        self.state
    }

    pub closed spec fn locked(&self) -> bool {
        self.locked_by_env
    }

    /// A runtime before binding, from the value of `NEXOSIGN_LOCAL_API_PORT`:
    /// pending on the effective port, locked when the variable is set.
    pub fn new(env_port_raw: Option<&str>) -> (r: Self)
        ensures
            r.state() == (RuntimeState::Pending {
                port: effective_port(
                    match env_port_raw {
                        Some(s) => Some(s@),
                        None => None,
                    },
                ),
            }),
            r.locked() == env_port_raw is Some,
    {
        let port = effective_listen_port(env_port_raw);
        LocalApiRuntime { state: RuntimeState::Pending { port }, locked_by_env: env_port_raw.is_some() }
    }

    pub fn configured_port(&self) -> (r: u16)
        ensures
            r == state_port(self.state()),
    {
        match &self.state {
            RuntimeState::Pending { port } => *port,
            RuntimeState::Listening { port } => *port,
            RuntimeState::Failed { port, .. } => *port,
        }
    }

    /// The port the origin checks of the batch routes compare `Host`, `Referer` and the URI with.
    pub fn gate_listen_port(&self) -> (r: u16)
        ensures
            r == state_port(self.state()),
    {
        self.configured_port()
    }

    pub fn is_locked_by_env(&self) -> (r: bool)
        ensures
            r == self.locked(),
    {
        self.locked_by_env
    }

    pub fn set_listening(&mut self, port: u16)
        ensures
            final(self).state() == (RuntimeState::Listening { port }),
            final(self).locked() == old(self).locked(),
    {
        self.state = RuntimeState::Listening { port };
    }

    pub fn set_failed(&mut self, port: u16, error: String)
        ensures
            final(self).state() == (RuntimeState::Failed { port, error }),
            final(self).locked() == old(self).locked(),
    {
        self.state = RuntimeState::Failed { port, error };
    }

    pub fn snapshot(&self) -> (r: LocalApiListenSnapshot)
        ensures
            snapshot_matches(r, self.state(), self.locked()),
    {
        let locked_by_env = self.locked_by_env;
        match &self.state {
            RuntimeState::Pending { port } => LocalApiListenSnapshot {
                listening: false,
                port: *port,
                base_url: base_url_for_port(*port),
                error: None,
                locked_by_env,
            },
            RuntimeState::Listening { port } => LocalApiListenSnapshot {
                listening: true,
                port: *port,
                base_url: base_url_for_port(*port),
                error: None,
                locked_by_env,
            },
            RuntimeState::Failed { port, error } => LocalApiListenSnapshot {
                listening: false,
                port: *port,
                base_url: base_url_for_port(*port),
                error: Some(error.clone()),
                locked_by_env,
            },
        }
    }
}

/// After the listener is marked as listening (or failed) on a port, the
/// snapshot reports that port, its base URL and the state, and the origin checks use
/// that port.
pub proof fn law_snapshot_reports_last_state(r: LocalApiListenSnapshot, port: u16, locked: bool)
    requires
        snapshot_matches(r, RuntimeState::Listening { port }, locked),
    ensures
        r.listening,
        r.port == port,
        r.base_url@ == base_url(port),
        r.error is None,
        state_port(RuntimeState::Listening { port }) == port,
{
}

/// A failed bind is reported with its error and without `listening`.
pub proof fn law_failed_snapshot(r: LocalApiListenSnapshot, port: u16, error: String, locked: bool)
    requires
        snapshot_matches(r, RuntimeState::Failed { port, error }, locked),
    ensures
        !r.listening,
        r.port == port,
        r.error matches Some(e) && e@ == error@,
{
}

} // verus!
