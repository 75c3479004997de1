//! How the PC client is configured, and which configurations it accepts.

use crate::text;
use crate::text::{
    chars_of, contains_char, contains_lit, string_of, strip_prefix, to_vec, trim, trim_end_char,
};
use vstd::prelude::*;
use vstd::std_specs::convert::FromSpecImpl;

verus! {

/// The port of a server in clear text.
pub const DEFAULT_GRPC_PORT: u16 = 50051;

/// The port of a server with TLS.
pub const DEFAULT_HTTPS_GRPC_PORT: u16 = 443;

/// How the PC client is configured.
#[derive(Debug)]
pub struct ClientConfig {
    /// The server: a host, or an `http://` or `https://` address without a path.
    pub server_host: String,
    /// The secret that it subscribes with.
    pub grpc_auth_token: String,
    /// The server's port, where the address names none.
    pub grpc_port: u16,
    /// Is text that arrives pasted?
    pub auto_paste: bool,
    /// Is return pressed after pasting?
    pub enter_after_paste: bool,
    /// Milliseconds between writing the clipboard and pasting.
    pub paste_delay_ms: u64,
    /// Accepted, but without effect: the waits between attempts to connect begin with one second and
    /// double.
    pub reconnect_interval_secs: u64,
    /// How often to try; zero for ever.
    pub max_reconnect_attempts: u32,
    /// Does it start without a window?
    pub start_minimized: bool,
    /// Does closing the window only hide it?
    pub minimize_on_close: bool,
    /// Seconds that a notice is shown for.
    pub notification_duration_secs: u64,
}

/// The configuration as it is written down: without the port, where none is given.
#[derive(Debug)]
pub struct RawClientConfig {
    pub server_host: String,
    pub grpc_auth_token: String,
    pub grpc_port: Option<u16>,
    pub auto_paste: bool,
    pub enter_after_paste: bool,
    pub paste_delay_ms: u64,
    pub reconnect_interval_secs: u64,
    pub max_reconnect_attempts: u32,
    pub start_minimized: bool,
    pub minimize_on_close: bool,
    pub notification_duration_secs: u64,
}

impl RawClientConfig {
    /// The configuration that names only what has no default.
    pub fn with_defaults(server_host: String, grpc_auth_token: String) -> (r: Self)
        ensures
            r == (RawClientConfig {
                server_host,
                grpc_auth_token,
                grpc_port: None,
                auto_paste: false,
                enter_after_paste: false,
                paste_delay_ms: 150,
                reconnect_interval_secs: 5,
                max_reconnect_attempts: 0,
                start_minimized: false,
                minimize_on_close: false,
                notification_duration_secs: 3,
            }),
    {
        RawClientConfig {
            server_host,
            grpc_auth_token,
            grpc_port: None,
            auto_paste: false,
            enter_after_paste: false,
            paste_delay_ms: 150,
            reconnect_interval_secs: 5,
            max_reconnect_attempts: 0,
            start_minimized: false,
            minimize_on_close: false,
            notification_duration_secs: 3,
        }
    }
}

/// The port of a server whose address names none.
pub open spec fn default_port(server_host: Seq<char>) -> u16 {
    if "https://"@.is_prefix_of(text::trimmed(server_host)) {
        DEFAULT_HTTPS_GRPC_PORT
    } else {
        DEFAULT_GRPC_PORT
    }
}

/// The port of a server whose address names none.
pub fn default_grpc_port_for_server_host(server_host: &str) -> (r: u16)
    ensures
        r == default_port(server_host@),
{
    if strip_prefix(trim(&chars_of(server_host)), "https://").is_some() {
        DEFAULT_HTTPS_GRPC_PORT
    } else {
        DEFAULT_GRPC_PORT
    }
}

impl From<RawClientConfig> for ClientConfig {
    fn from(raw: RawClientConfig) -> (r: Self) {
        let grpc_port: u16 = match raw.grpc_port {
            Some(port) => port,
            None => default_grpc_port_for_server_host(&raw.server_host),
        };
        ClientConfig {
            server_host: raw.server_host,
            grpc_auth_token: raw.grpc_auth_token,
            grpc_port,
            auto_paste: raw.auto_paste,
            enter_after_paste: raw.enter_after_paste,
            paste_delay_ms: raw.paste_delay_ms,
            reconnect_interval_secs: raw.reconnect_interval_secs,
            max_reconnect_attempts: raw.max_reconnect_attempts,
            start_minimized: raw.start_minimized,
            minimize_on_close: raw.minimize_on_close,
            notification_duration_secs: raw.notification_duration_secs,
        }
    }
}

impl FromSpecImpl<RawClientConfig> for ClientConfig {
    open spec fn obeys_from_spec() -> bool {
        true
    }

    open spec fn from_spec(raw: RawClientConfig) -> ClientConfig {
        ClientConfig {
            server_host: raw.server_host,
            grpc_auth_token: raw.grpc_auth_token,
            grpc_port: match raw.grpc_port {
                Some(port) => port,
                None => default_port(raw.server_host@),
            },
            auto_paste: raw.auto_paste,
            enter_after_paste: raw.enter_after_paste,
            paste_delay_ms: raw.paste_delay_ms,
            reconnect_interval_secs: raw.reconnect_interval_secs,
            max_reconnect_attempts: raw.max_reconnect_attempts,
            start_minimized: raw.start_minimized,
            minimize_on_close: raw.minimize_on_close,
            notification_duration_secs: raw.notification_duration_secs,
        }
    }
}

/// A server's address taken apart: whether it is with TLS, and its host with its port if it names
/// one. An address has no other scheme than `http` and `https`, and nothing behind the host.
pub open spec fn host_parts(server_host: Seq<char>) -> Result<(bool, Seq<char>), Seq<char>> {
    let host = text::trimmed(server_host);
    let https = "https://"@.is_prefix_of(host);
    let http = "http://"@.is_prefix_of(host);
    let rest = if https {
        host.skip("https://"@.len() as int)
    } else if http {
        host.skip("http://"@.len() as int)
    } else {
        host
    };
    let authority = text::trim_end_of(rest, '/');
    if !https && !http && text::has_part(host, "://"@) {
        Err("client.toml 中的 server_host 仅支持 http:// 或 https:// 协议。"@)
    } else if authority.len() == 0 {
        Err("client.toml 中的 server_host 缺少主机名。"@)
    } else if authority.contains('/') || authority.contains('?') || authority.contains('#') {
        Err("client.toml 中的 server_host 只能填写主机名、IP，或不带路径的 http(s):// 地址。"@)
    } else {
        Ok((https, authority))
    }
}

/// A server's address taken apart.
pub fn split_server_host(server_host: &str) -> (r: Result<(bool, Vec<char>), String>)
    ensures
        match r {
            Ok((https, authority)) => host_parts(server_host@) == Ok::<
                (bool, Seq<char>),
                Seq<char>,
            >((https, authority@)),
            Err(e) => host_parts(server_host@) == Err::<(bool, Seq<char>), Seq<char>>(e@),
        },
{
    let all = chars_of(server_host);
    let host = trim(&all);
    let (https, rest): (bool, &[char]) = match strip_prefix(host, "https://") {
        Some(rest) => (true, rest),
        None => match strip_prefix(host, "http://") {
            Some(rest) => (false, rest),
            None => {
                if contains_lit(host, "://") {
                    return Err(
                        string_of(
                            &chars_of(
                                "client.toml 中的 server_host 仅支持 http:// 或 https:// 协议。",
                            ),
                        ),
                    );
                }
                (false, host)
            },
        },
    };
    let authority = trim_end_char(rest, '/');
    if authority.len() == 0 {
        return Err(string_of(&chars_of("client.toml 中的 server_host 缺少主机名。")));
    }
    if contains_char(authority, '/') || contains_char(authority, '?') || contains_char(
        authority,
        '#',
    ) {
        return Err(
            string_of(
                &chars_of(
                    "client.toml 中的 server_host 只能填写主机名、IP，或不带路径的 http(s):// 地址。",
                ),
            ),
        );
    }
    Ok((https, to_vec(authority)))
}

/// Checks a server's address.
pub fn validate_server_host(server_host: &str) -> (r: Result<(), String>)
    ensures
        match r {
            Ok(()) => host_parts(server_host@) is Ok,
            Err(e) => host_parts(server_host@) == Err::<(bool, Seq<char>), Seq<char>>(e@),
        },
{
    match split_server_host(server_host) {
        Ok(_) => Ok(()),
        Err(e) => Err(e),
    }
}

impl ClientConfig {
    /// What stands against the configuration: the first of these that applies.
    pub open spec fn error(self) -> Option<Seq<char>> {
        if text::trimmed(self.server_host@).len() == 0 {
            Some("client.toml 中必须填写 server_host。"@)
        } else {
            match host_parts(self.server_host@) {
                Err(e) => Some(e),
                Ok(_) => if text::trimmed(self.grpc_auth_token@).len() == 0 {
                    Some("client.toml 中必须填写 grpc_auth_token。"@)
                } else {
                    None
                },
            }
        }
    }

    /// Checks the configuration.
    pub fn validate(&self) -> (r: Result<(), String>)
        ensures
            match r {
                Ok(()) => self.error() is None,
                Err(e) => self.error() == Some(e@),
            },
    {
        if trim(&chars_of(&self.server_host)).len() == 0 {
            return Err(string_of(&chars_of("client.toml 中必须填写 server_host。")));
        }
        if let Err(e) = validate_server_host(&self.server_host) {
            return Err(e);
        }
        if trim(&chars_of(&self.grpc_auth_token)).len() == 0 {
            return Err(string_of(&chars_of("client.toml 中必须填写 grpc_auth_token。")));
        }
        Ok(())
    }
}

} // verus!
