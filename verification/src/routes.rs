//! Middleware routing: which endpoint a request path reaches, and the
//! per-frame decisions of the duplex (WebSocket) endpoints.

use vstd::prelude::*;
use crate::headers::str_eq;

verus! {

/// `p` is a prefix of `s`.
pub open spec fn is_prefix(p: Seq<char>, s: Seq<char>) -> bool {
    p.len() <= s.len() && forall|i: int| 0 <= i < p.len() ==> s[i] == p[i]
}

/// Whether the string starts with the given prefix.
pub fn starts_with(s: &str, p: &str) -> (r: bool)
    ensures
        r == is_prefix(p@, s@),
{
    let pn = p.unicode_len();
    let sn = s.unicode_len();
    if pn > sn {
        return false;
    }
    let mut i: usize = 0;
    while i < pn
        invariant
            pn == p@.len(),
            sn == s@.len(),
            pn <= sn,
            i <= pn,
            forall|j: int| 0 <= j < i ==> s@[j] == p@[j],
        decreases pn - i,
    {
        if s.get_char(i) != p.get_char(i) {
            return false;
        }
        i += 1;
    }
    true
}

/// The middleware endpoints, resolved from the request path by prefix.
#[derive(Clone, Copy, Debug, PartialEq, Eq, Structural)]
pub enum Endpoint {
    /// A plain example endpoint.
    Example,
    /// The duplex endpoint that echoes every frame back to its sender.
    WsEcho,
    /// The duplex endpoint that fans frames out to the broadcast room.
    WsBroadcast,
}

/// Which endpoint, if any, the path reaches.
pub open spec fn spec_route(path: Seq<char>) -> Option<Endpoint> {
    if is_prefix("/internal/example"@, path) {
        Some(Endpoint::Example)
    } else if is_prefix("/websocket/echo"@, path) {
        Some(Endpoint::WsEcho)
    } else if is_prefix("/websocket/broadcast"@, path) {
        Some(Endpoint::WsBroadcast)
    } else {
        None
    }
}

/// The registered name of the middleware serving the path, if any.
pub fn available(path: &str) -> (r: Option<&'static str>)
    ensures
        spec_route(path@) == Some(Endpoint::Example) ==> (r matches Some(n) && n@ == "example"@),
        spec_route(path@) == Some(Endpoint::WsEcho) ==> (r matches Some(n) && n@ == "ws-echo"@),
        spec_route(path@) == Some(Endpoint::WsBroadcast) ==> (r matches Some(n) && n@
            == "ws-broadcast"@),
        spec_route(path@) is None ==> r is None,
{
    if starts_with(path, "/internal/example") {
        Some("example")
    } else if starts_with(path, "/websocket/echo") {
        Some("ws-echo")
    } else if starts_with(path, "/websocket/broadcast") {
        Some("ws-broadcast")
    } else {
        None
    }
}

/// Which endpoint a registered middleware name denotes.
pub open spec fn spec_endpoint_of(name: Seq<char>) -> Option<Endpoint> {
    if name == "example"@ {
        Some(Endpoint::Example)
    } else if name == "ws-echo"@ {
        Some(Endpoint::WsEcho)
    } else if name == "ws-broadcast"@ {
        Some(Endpoint::WsBroadcast)
    } else {
        None
    }
}

/// Resolve a middleware name to its endpoint; an unknown name gets no
/// endpoint and the caller answers with an internal-error status.
pub fn endpoint_of(name: &str) -> (r: Option<Endpoint>)
    ensures
        r == spec_endpoint_of(name@),
{
    if str_eq(name, "example") {
        Some(Endpoint::Example)
    } else if str_eq(name, "ws-echo") {
        Some(Endpoint::WsEcho)
    } else if str_eq(name, "ws-broadcast") {
        Some(Endpoint::WsBroadcast)
    } else {
        None
    }
}

/// The kinds of frame a duplex peer can send.
#[derive(Clone, Copy, Debug, PartialEq, Eq, Structural)]
pub enum WsFrameType {
    Continuation,
    Text,
    Binary,
    Ping,
    Pong,
    Close,
}

/// What a duplex endpoint does with one received frame.
#[derive(Clone, Copy, Debug, PartialEq, Eq, Structural)]
pub enum DuplexAction {
    /// Answer the ping with a pong carrying the same payload.
    SendPong,
    /// Hand the payload on: echoed back by the echo endpoint, fanned out
    /// to the room by the broadcast endpoint.
    Deliver,
    /// Nothing to do at this layer.
    Ignore,
}

/// The per-frame decision shared by both duplex endpoints: pings are
/// answered with pongs, text and binary payloads are delivered, and all
/// other frames are ignored.
pub fn duplex_frame_action(t: WsFrameType) -> (a: DuplexAction)
    ensures
        t is Ping ==> a is SendPong,
        t is Text || t is Binary ==> a is Deliver,
        !(t is Ping) && !(t is Text) && !(t is Binary) ==> a is Ignore,
{
    match t {
        WsFrameType::Ping => DuplexAction::SendPong,
        WsFrameType::Text => DuplexAction::Deliver,
        WsFrameType::Binary => DuplexAction::Deliver,
        _ => DuplexAction::Ignore,
    }
}

/// The body a duplex endpoint answers with when the request never asked
/// for the WebSocket upgrade: the literal text `websocket`.
pub fn duplex_refusal_body() -> (v: Vec<u8>)
    ensures
        v@ =~= seq![119u8, 101u8, 98u8, 115u8, 111u8, 99u8, 107u8, 101u8, 116u8],
{
    let mut v: Vec<u8> = Vec::new();
    v.push(119);
    v.push(101);
    v.push(98);
    v.push(115);
    v.push(111);
    v.push(99);
    v.push(107);
    v.push(101);
    v.push(116);
    v
}

} // verus!
