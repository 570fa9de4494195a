//! Configuration: the defaults, and how the settings of the environment
//! (`BLENNY_*` variables) and of the JSON file layer over them. The
//! environment wins over the file, and the file over the defaults.

use vstd::prelude::*;
use crate::text::{trim, trim_spec};
use crate::transport::message::opt_view;

verus! {

/// The server's configuration.
#[derive(Debug, Clone)]
pub struct BlennyConfig {
    /// Server port (default 8081).
    pub port: u16,
    /// Directory for hot-reloading templates; `None` means embedded ones.
    pub template_dir: Option<String>,
    /// Secret key for signing and verifying session tokens.
    pub jwt_secret: String,
    /// Path of a file that holds the secret; when given, its contents
    /// replace `jwt_secret`.
    pub jwt_secret_file: Option<String>,
    /// SSE encoder: `standard` or `datastar`.
    pub encoder: String,
    /// Whether the WebSocket endpoint `/ws` is mounted beside SSE.
    pub websocket: bool,
    /// Whether the SSE and WebSocket transports require a user.
    pub transport_auth_required: bool,
    /// URL of a SurrealDB instance, if one is used.
    pub database_url: Option<String>,
}

/// The port the server listens on when nothing else is configured.
pub fn default_port() -> (r: u16)
    ensures
        r == 8081,
{
    8081
}

/// The session-token secret when nothing else is configured.
pub fn default_jwt_secret() -> (r: String)
    ensures
        r@ == "dev-secret"@,
{
    "dev-secret".to_string()
}

/// The encoder when nothing else is configured.
pub fn default_encoder() -> (r: String)
    ensures
        r@ == "standard"@,
{
    "standard".to_string()
}

/// Whether WebSocket is on when nothing else is configured: it is off.
pub fn default_websocket() -> (r: bool)
    ensures
        !r,
{
    false
}

/// Whether transports require a user when nothing else is configured: they
/// do.
pub fn default_transport_auth_required() -> (r: bool)
    ensures
        r,
{
    true
}

impl Default for BlennyConfig {
    fn default() -> (c: Self)
        ensures
            c.port == 8081,
            c.template_dir is None,
            c.jwt_secret@ == "dev-secret"@,
            c.jwt_secret_file is None,
            c.encoder@ == "standard"@,
            !c.websocket,
            c.transport_auth_required,
            c.database_url is None,
    {
        BlennyConfig {
            port: default_port(),
            template_dir: None,
            jwt_secret: default_jwt_secret(),
            jwt_secret_file: None,
            encoder: default_encoder(),
            websocket: default_websocket(),
            transport_auth_required: default_transport_auth_required(),
            database_url: None,
        }
    }
}

/// The settings one configuration source gives; a field is `None` where
/// the source says nothing of it.
#[derive(Debug, Clone)]
pub struct ConfigLayer {
    pub port: Option<u16>,
    pub template_dir: Option<String>,
    pub jwt_secret: Option<String>,
    pub jwt_secret_file: Option<String>,
    pub encoder: Option<String>,
    pub websocket: Option<bool>,
    pub transport_auth_required: Option<bool>,
    pub database_url: Option<String>,
}

impl ConfigLayer {
    /// A source that sets nothing.
    pub fn empty() -> (l: Self)
        ensures
            l.port is None,
            l.template_dir is None,
            l.jwt_secret is None,
            l.jwt_secret_file is None,
            l.encoder is None,
            l.websocket is None,
            l.transport_auth_required is None,
            l.database_url is None,
    {
        ConfigLayer {
            port: None,
            template_dir: None,
            jwt_secret: None,
            jwt_secret_file: None,
            encoder: None,
            websocket: None,
            transport_auth_required: None,
            database_url: None,
        }
    }
}

/// The setting of the first layer that gives one, else `default`.
pub open spec fn layered<T>(env: Option<T>, file: Option<T>, default: T) -> T {
    match env {
        Some(v) => v,
        None => match file {
            Some(v) => v,
            None => default,
        },
    }
}

/// The optional setting of the first layer that gives one.
pub open spec fn layered_opt<T>(env: Option<T>, file: Option<T>) -> Option<T> {
    match env {
        Some(v) => Some(v),
        None => file,
    }
}

fn first_string(env: Option<String>, file: Option<String>) -> (r: Option<String>)
    ensures
        opt_view(r) == layered_opt(opt_view(env), opt_view(file)),
{
    match env {
        Some(v) => Some(v),
        None => file,
    }
}

impl BlennyConfig {
    /// The configuration that the environment layer and the file layer
    /// give: each setting comes from the environment, else from the file,
    /// else from the defaults.
    pub fn from_layers(env: ConfigLayer, file: ConfigLayer) -> (c: Self)
        ensures
            c.port == layered(env.port, file.port, 8081u16),
            opt_view(c.template_dir) == layered_opt(opt_view(env.template_dir), opt_view(file.template_dir)),
            c.jwt_secret@ == layered(opt_view(env.jwt_secret), opt_view(file.jwt_secret), "dev-secret"@),
            opt_view(c.jwt_secret_file) == layered_opt(
                opt_view(env.jwt_secret_file),
                opt_view(file.jwt_secret_file),
            ),
            c.encoder@ == layered(opt_view(env.encoder), opt_view(file.encoder), "standard"@),
            c.websocket == layered(env.websocket, file.websocket, false),
            c.transport_auth_required == layered(
                env.transport_auth_required,
                file.transport_auth_required,
                true,
            ),
            opt_view(c.database_url) == layered_opt(opt_view(env.database_url), opt_view(file.database_url)),
    {
        let port = match env.port {
            Some(p) => p,
            None => match file.port {
                Some(p) => p,
                None => default_port(),
            },
        };
        let jwt_secret = match first_string(env.jwt_secret, file.jwt_secret) {
            Some(s) => s,
            None => default_jwt_secret(),
        };
        let encoder = match first_string(env.encoder, file.encoder) {
            Some(s) => s,
            None => default_encoder(),
        };
        let websocket = match env.websocket {
            Some(b) => b,
            None => match file.websocket {
                Some(b) => b,
                None => default_websocket(),
            },
        };
        let transport_auth_required = match env.transport_auth_required {
            Some(b) => b,
            None => match file.transport_auth_required {
                Some(b) => b,
                None => default_transport_auth_required(),
            },
        };
        BlennyConfig {
            port,
            template_dir: first_string(env.template_dir, file.template_dir),
            jwt_secret,
            jwt_secret_file: first_string(env.jwt_secret_file, file.jwt_secret_file),
            encoder,
            websocket,
            transport_auth_required,
            database_url: first_string(env.database_url, file.database_url),
        }
    }

    /// The file to read the session-token secret from: the configured one,
    /// else the one the `BLENNY_JWT_SECRET_FILE` variable names.
    pub fn secret_file_path(&self, env_secret_file: Option<String>) -> (r: Option<String>)
        ensures
            opt_view(r) == layered_opt(opt_view(self.jwt_secret_file), opt_view(env_secret_file)),
    {
        match &self.jwt_secret_file {
            Some(p) => Some(p.clone()),
            None => env_secret_file,
        }
    }

    /// The configuration after reading the secret file: when it could be
    /// read, its contents without surrounding whitespace become the secret;
    /// otherwise the configuration stays as it is.
    pub fn with_secret_file_contents(self, contents: Option<&str>) -> (c: Self)
        ensures
            contents is None ==> c == self,
            contents matches Some(t) ==> c == (BlennyConfig { jwt_secret: c.jwt_secret, ..self })
                && c.jwt_secret@ == trim_spec(t@),
    {
        match contents {
            None => self,
            Some(t) => BlennyConfig { jwt_secret: trim(t), ..self },
        }
    }
}

} // verus!
