//! The builder's decisions: which modules and which auth provider take
//! part, which encoder and template source serve, the address of the
//! database, and the infrastructure routes.

use vstd::prelude::*;
use crate::text::{starts_with, str_eq};
use crate::transport::message::opt_view;

verus! {

/// The indices of the entries of `enabled` that are set, in order.
pub open spec fn enabled_indices(enabled: Seq<bool>) -> Seq<usize>
    decreases enabled.len(),
{
    if enabled.len() == 0 {
        Seq::empty()
    } else {
        let init = enabled_indices(enabled.drop_last());
        if enabled.last() {
            init.push((enabled.len() - 1) as usize)
        } else {
            init
        }
    }
}

/// The discovered modules that take part: those that are enabled, in
/// discovery order (as indices into the discovered ones).
pub fn enabled_modules(enabled: &Vec<bool>) -> (r: Vec<usize>)
    ensures
        r@ == enabled_indices(enabled@),
{
    let mut r: Vec<usize> = Vec::new();
    let mut i: usize = 0;
    while i < enabled.len()
        invariant
            i <= enabled@.len(),
            r@ == enabled_indices(enabled@.take(i as int)),
        decreases enabled@.len() - i,
    {
        proof {
            assert(enabled@.take(i + 1).drop_last() =~= enabled@.take(i as int));
            assert(enabled@.take(i + 1).last() == enabled@[i as int]);
        }
        if enabled[i] {
            r.push(i);
        }
        i = i + 1;
    }
    assert(enabled@.take(enabled@.len() as int) =~= enabled@);
    r
}

/// The auth provider among `count` registered ones: the first, with a
/// warning when there are several.
pub fn choose_auth_provider(count: usize) -> (r: (Option<usize>, bool))
    ensures
        count == 0 ==> r.0 is None,
        count > 0 ==> r.0 == Some(0usize),
        r.1 == (count > 1),
{
    if count == 0 {
        (None, false)
    } else {
        (Some(0), count > 1)
    }
}

/// The encoder the SSE and WebSocket transports use.
#[derive(Debug, Clone, Copy, PartialEq, Eq, Structural)]
pub enum EncoderKind {
    Standard,
    Datastar,
}

/// The encoder a configuration names: `datastar` selects the Datastar
/// encoder, anything else the standard one.
pub fn select_encoder(name: &str) -> (r: EncoderKind)
    ensures
        name@ == "datastar"@ ==> r == EncoderKind::Datastar,
        name@ != "datastar"@ ==> r == EncoderKind::Standard,
{
    if str_eq(name, "datastar") {
        EncoderKind::Datastar
    } else {
        EncoderKind::Standard
    }
}

/// Where the templates come from.
#[derive(Debug, Clone)]
pub enum ConduitSource {
    /// The conduit given to the builder.
    Provided,
    /// Hot reloading from this directory.
    HotReload(String),
    /// The templates embedded in the binary.
    Frozen,
}

/// The template source: the conduit given to the builder if there is one;
/// else hot reloading from the configured directory; else, in a debug
/// build, hot reloading from `templates`; else the embedded templates.
pub fn conduit_source(has_conduit: bool, template_dir: &Option<String>, debug_build: bool) -> (r:
    ConduitSource)
    ensures
        has_conduit ==> r is Provided,
        !has_conduit && template_dir is Some ==> (r matches ConduitSource::HotReload(d) && d@
            == template_dir->0@),
        !has_conduit && template_dir is None && debug_build ==> (r matches ConduitSource::HotReload(d)
            && d@ == "templates"@),
        !has_conduit && template_dir is None && !debug_build ==> r is Frozen,
{
    if has_conduit {
        ConduitSource::Provided
    } else {
        match template_dir {
            Some(d) => ConduitSource::HotReload(d.clone()),
            None => if debug_build {
                ConduitSource::HotReload("templates".to_string())
            } else {
                ConduitSource::Frozen
            },
        }
    }
}

/// The address to connect to SurrealDB at: `url` without a leading
/// `ws://` or `wss://`, since the WebSocket connector takes a bare
/// host and port.
pub open spec fn surreal_address_spec(url: Seq<char>) -> Seq<char> {
    let ws = "ws://"@;
    let wss = "wss://"@;
    if ws.len() <= url.len() && url.take(ws.len() as int) == ws {
        url.skip(ws.len() as int)
    } else if wss.len() <= url.len() && url.take(wss.len() as int) == wss {
        url.skip(wss.len() as int)
    } else {
        url
    }
}

/// The address to connect to SurrealDB at for `url`.
pub fn surreal_address(url: &str) -> (r: String)
    ensures
        r@ == surreal_address_spec(url@),
{
    let n = url.unicode_len();
    if starts_with(url, "ws://") {
        let p = "ws://".unicode_len();
        assert(url@.subrange(p as int, n as int) =~= url@.skip(p as int));
        url.substring_char(p, n).to_string()
    } else if starts_with(url, "wss://") {
        let p = "wss://".unicode_len();
        assert(url@.subrange(p as int, n as int) =~= url@.skip(p as int));
        url.substring_char(p, n).to_string()
    } else {
        url.to_string()
    }
}

/// The framework's own routes, outside the module pipeline: `/health` and
/// `/sse`, and `/ws` when WebSocket is on.
pub fn infrastructure_routes(websocket: bool) -> (r: Vec<&'static str>)
    ensures
        websocket ==> r@.len() == 3 && r@[2]@ == "/ws"@,
        !websocket ==> r@.len() == 2,
        r@[0]@ == "/health"@,
        r@[1]@ == "/sse"@,
{
    let mut r: Vec<&'static str> = Vec::new();
    r.push("/health");
    r.push("/sse");
    if websocket {
        r.push("/ws");
    }
    r
}

} // verus!
