//! The client configuration held in memory and its export form, the shape
//! that is rendered into the client's configuration file.
use crate::proxy::{
    export_matches, spec_common, to_proxy_export, Proxy, ProxyExport,
};
use crate::types::AuthType;
use vstd::prelude::*;

verus! {

/// Authentication settings.
pub struct Auth {
    pub method: AuthType,
    pub token: String,
}

/// The client's admin web server settings.
pub struct WebServer {
    pub addr: String,
    pub port: u16,
    pub user: String,
    pub password: String,
}

/// The export form of the web server block: credentials only when present.
pub struct WebServerExport {
    pub addr: String,
    pub port: u16,
    pub user: Option<String>,
    pub password: Option<String>,
}

/// Which optional blocks are switched on.
pub struct Switches {
    pub auth: bool,
    pub web_server: bool,
}

/// The full in-memory configuration.
pub struct FrpcConfig {
    pub server_addr: String,
    pub server_port: u16,
    pub auth: Auth,
    pub web_server: WebServer,
    pub proxies: Vec<Proxy>,
    pub switch: Switches,
}

/// The export form of the configuration.
pub struct FrpcConfigExport {
    pub server_addr: String,
    pub server_port: u16,
    pub auth: Option<Auth>,
    pub web_server: WebServerExport,
    pub proxies: Vec<ProxyExport>,
}

fn clone_string(s: &String) -> (r: String)
    ensures
        r == *s,
{
    s.clone()
}

/// The proxies an export carries: the enabled ones, in order.
pub open spec fn spec_enabled(proxies: Seq<Proxy>) -> Seq<Proxy> {
    proxies.filter(|p: Proxy| spec_common(p).enable)
}

/// The export is faithful to the configuration: server fields copied, the
/// auth block present exactly when its switch is on, web credentials
/// present exactly when the web switch is on and they are non-empty, and
/// one export row per enabled proxy, in order.
pub open spec fn export_ok(out: FrpcConfigExport, cfg: FrpcConfig) -> bool {
    &&& out.server_addr == cfg.server_addr
    &&& out.server_port == cfg.server_port
    &&& if cfg.switch.auth {
        out.auth == Option::Some(cfg.auth)
    } else {
        out.auth is None
    }
    &&& out.web_server.addr == cfg.web_server.addr
    &&& out.web_server.port == cfg.web_server.port
    &&& if cfg.switch.web_server && cfg.web_server.user@.len() > 0 {
        out.web_server.user == Option::Some(cfg.web_server.user)
    } else {
        out.web_server.user is None
    }
    &&& if cfg.switch.web_server && cfg.web_server.password@.len() > 0 {
        out.web_server.password == Option::Some(cfg.web_server.password)
    } else {
        out.web_server.password is None
    }
    &&& out.proxies@.len() == spec_enabled(cfg.proxies@).len()
    &&& forall|i: int|
        0 <= i < out.proxies@.len() ==> export_matches(
            #[trigger] out.proxies@[i],
            spec_enabled(cfg.proxies@)[i],
        )
}

impl FrpcConfig {
    /// Builds the export: disabled proxies are left out, the auth block is
    /// attached only when switched on, and web credentials only when
    /// switched on and non-empty.
    pub fn to_export(&self) -> (out: FrpcConfigExport)
        ensures
            export_ok(out, *self),
    {
        let ghost pred = |p: Proxy| spec_common(p).enable;
        let n = self.proxies.len();
        let mut rows: Vec<ProxyExport> = Vec::new();
        let mut i: usize = 0;
        while i < n
            invariant
                0 <= i <= n,
                n == self.proxies@.len(),
                pred == (|p: Proxy| spec_common(p).enable),
                rows@.len() == self.proxies@.take(i as int).filter(pred).len(),
                forall|k: int|
                    0 <= k < rows@.len() ==> export_matches(
                        #[trigger] rows@[k],
                        self.proxies@.take(i as int).filter(pred)[k],
                    ),
            decreases n - i,
        {
            proof {
                reveal_with_fuel(Seq::filter, 2);
                assert(self.proxies@.take(i + 1).drop_last() =~= self.proxies@.take(i as int));
                assert(self.proxies@.take(i + 1).last() == self.proxies@[i as int]);
            }
            let enabled = self.proxies[i].common().enable;
            if enabled {
                proof {
                    assert(self.proxies@.take(i + 1).filter(pred) == self.proxies@.take(
                        i as int,
                    ).filter(pred).push(self.proxies@[i as int]));
                }
                match to_proxy_export(&self.proxies[i]) {
                    Option::Some(row) => rows.push(row),
                    Option::None => (),
                }
            } else {
                proof {
                    assert(self.proxies@.take(i + 1).filter(pred) == self.proxies@.take(
                        i as int,
                    ).filter(pred));
                }
            }
            i += 1;
        }
        proof {
            assert(self.proxies@.take(n as int) =~= self.proxies@);
        }

        let user = if self.switch.web_server && self.web_server.user.as_str().unicode_len() > 0 {
            Option::Some(clone_string(&self.web_server.user))
        } else {
            Option::None
        };
        let password = if self.switch.web_server && self.web_server.password.as_str().unicode_len()
            > 0 {
            Option::Some(clone_string(&self.web_server.password))
        } else {
            Option::None
        };
        let auth = if self.switch.auth {
            Option::Some(Auth { method: self.auth.method, token: clone_string(&self.auth.token) })
        } else {
            Option::None
        };
        FrpcConfigExport {
            server_addr: clone_string(&self.server_addr),
            server_port: self.server_port,
            auth,
            web_server: WebServerExport {
                addr: clone_string(&self.web_server.addr),
                port: self.web_server.port,
                user,
                password,
            },
            proxies: rows,
        }
    }
}

/// Replaces everything but the proxy list, as saving the server form does:
/// the proxies are managed by their own calls and survive the save.
pub fn save_server_config(config: &mut FrpcConfig, incoming: FrpcConfig) -> (r: ())
    ensures
        final(config).server_addr == incoming.server_addr,
        final(config).server_port == incoming.server_port,
        final(config).auth == incoming.auth,
        final(config).web_server == incoming.web_server,
        final(config).switch == incoming.switch,
        final(config).proxies == old(config).proxies,
{
    let FrpcConfig { server_addr, server_port, auth, web_server, proxies: _, switch } = incoming;
    config.server_addr = server_addr;
    config.server_port = server_port;
    config.auth = auth;
    config.web_server = web_server;
    config.switch = switch;
}

} // verus!
