//! The protocol classifier and the h2c upgrade detector: which pathway an
//! accepted connection takes, and when a cleartext exchange is promoted
//! to HTTP/2.

use vstd::prelude::*;
use crate::headers::{str_eq, spec_h2c_eligible, h2c_eligible, Request};

verus! {

/// The pathway the classifier selects for one accepted connection whose
/// handshake, if any, succeeded.
#[derive(Clone, Copy, Debug, PartialEq, Eq, Structural)]
pub enum ProtocolPath {
    /// Enter the HTTP/2 multiplexer directly.
    Http2Direct,
    /// Read one request and handle it as plain HTTP/1.1.
    Http1Single,
    /// Protocol unknown: read one HTTP/1.1 request and probe it for the
    /// h2c upgrade.
    H2cProbe,
}

/// The protocol a connection ends up being served with.
#[derive(Clone, Copy, Debug, PartialEq, Eq, Structural)]
pub enum Mode {
    Http1,
    Http2,
}

pub open spec fn spec_alpn_view(alpn: Option<&str>) -> Option<Seq<char>> {
    match alpn {
        Some(a) => Some(a@),
        None => None,
    }
}

/// The classifier's decision. Over TLS the negotiated ALPN token rules:
/// `h2` goes straight to the multiplexer, `http/1.1` to single-request
/// handling, anything else (a token this server never offers, or none)
/// falls through to the h2c probe. Without TLS no negotiation happened,
/// so the connection is probed, unless HTTP/2 is disabled outright, in
/// which case only plain HTTP/1.1 remains.
pub open spec fn spec_classify(tls: bool, alpn: Option<Seq<char>>, h2_enabled: bool) -> ProtocolPath {
    if tls {
        match alpn {
            Some(a) => {
                if a == "h2"@ {
                    ProtocolPath::Http2Direct
                } else if a == "http/1.1"@ {
                    ProtocolPath::Http1Single
                } else {
                    ProtocolPath::H2cProbe
                }
            },
            None => ProtocolPath::H2cProbe,
        }
    } else {
        if h2_enabled {
            ProtocolPath::H2cProbe
        } else {
            ProtocolPath::Http1Single
        }
    }
}

/// Select the pathway for one accepted connection: `tls` says whether a
/// TLS handshake succeeded, `alpn` carries the token it negotiated, and
/// `h2_enabled` whether HTTP/2 is configured on at all.
pub fn classify(tls: bool, alpn: Option<&str>, h2_enabled: bool) -> (p: ProtocolPath)
    ensures
        p == spec_classify(tls, spec_alpn_view(alpn), h2_enabled),
{
    if tls {
        match alpn {
            Some(a) => {
                if str_eq(a, "h2") {
                    ProtocolPath::Http2Direct
                } else if str_eq(a, "http/1.1") {
                    ProtocolPath::Http1Single
                } else {
                    ProtocolPath::H2cProbe
                }
            },
            None => ProtocolPath::H2cProbe,
        }
    } else {
        if h2_enabled {
            ProtocolPath::H2cProbe
        } else {
            ProtocolPath::Http1Single
        }
    }
}

/// The ALPN token offering `h2`, as protocol-name bytes.
pub open spec fn spec_h2_token() -> Seq<u8> {
    seq![104u8, 50u8]
}

/// The ALPN token offering `http/1.1`, as protocol-name bytes.
pub open spec fn spec_http11_token() -> Seq<u8> {
    seq![104u8, 116u8, 116u8, 112u8, 47u8, 49u8, 46u8, 49u8]
}

/// The ALPN protocol list the TLS handshake offers, most preferred
/// first: `http/1.1` alone when HTTP/2 is off; with `h2` appended when
/// it is on; and with `h2` additionally put first when it is preferred.
pub open spec fn spec_alpn_offer(h2_enabled: bool, h2_priority: bool) -> Seq<Seq<u8>> {
    if !h2_enabled {
        seq![spec_http11_token()]
    } else if h2_priority {
        seq![spec_h2_token(), spec_http11_token(), spec_h2_token()]
    } else {
        seq![spec_http11_token(), spec_h2_token()]
    }
}

fn h2_token() -> (v: Vec<u8>)
    ensures
        v@ =~= spec_h2_token(),
{
    let mut v: Vec<u8> = Vec::new();
    v.push(104);
    v.push(50);
    v
}

fn http11_token() -> (v: Vec<u8>)
    ensures
        v@ =~= spec_http11_token(),
{
    let mut v: Vec<u8> = Vec::new();
    v.push(104);
    v.push(116);
    v.push(116);
    v.push(112);
    v.push(47);
    v.push(49);
    v.push(46);
    v.push(49);
    v
}

/// Build the ALPN protocol list to configure the TLS acceptor with.
pub fn alpn_offer(h2_enabled: bool, h2_priority: bool) -> (offer: Vec<Vec<u8>>)
    ensures
        offer@.map_values(|p: Vec<u8>| p@) =~= spec_alpn_offer(h2_enabled, h2_priority),
{
    let mut offer: Vec<Vec<u8>> = Vec::new();
    if !h2_enabled {
        offer.push(http11_token());
    } else if h2_priority {
        offer.push(h2_token());
        offer.push(http11_token());
        offer.push(h2_token());
    } else {
        offer.push(http11_token());
        offer.push(h2_token());
    }
    offer
}

/// What the h2c upgrade detector decides once the probing read finished.
#[derive(Clone, Copy, Debug, PartialEq, Eq, Structural)]
pub enum H2cDecision {
    /// Promote the connection to HTTP/2; the request that carried the
    /// upgrade becomes stream 1 of the new session.
    Promote,
    /// Serve the request that was already read as ordinary HTTP/1.1.
    ServeHttp1,
}

/// The detector's decision: promote exactly when the probing read
/// succeeded and the request asks for `h2c`. A failed read, a missing
/// `Upgrade` header or any other token keeps the connection on HTTP/1.1.
pub open spec fn spec_h2c_decision(read_ok: bool, req: Request) -> H2cDecision {
    if read_ok && spec_h2c_eligible(req) {
        H2cDecision::Promote
    } else {
        H2cDecision::ServeHttp1
    }
}

/// Probe the request that was read for the h2c upgrade. The request
/// comes back untouched either way: on promotion it is serviced as
/// stream 1, otherwise it is forwarded into ordinary handling without a
/// second read.
pub fn h2c_decide(read_ok: bool, req: Request) -> (r: (H2cDecision, Request))
    ensures
        r.0 == spec_h2c_decision(read_ok, req),
        r.1 == req,
{
    if read_ok && h2c_eligible(&req) {
        (H2cDecision::Promote, req)
    } else {
        (H2cDecision::ServeHttp1, req)
    }
}

/// The protocol mode a connection is finally served with, once its
/// pathway ran: the probing read's outcome and the request it produced
/// settle the h2c probe.
pub open spec fn spec_terminal_mode(p: ProtocolPath, read_ok: bool, req: Request) -> Mode {
    match p {
        ProtocolPath::Http2Direct => Mode::Http2,
        ProtocolPath::Http1Single => Mode::Http1,
        ProtocolPath::H2cProbe => {
            if spec_h2c_decision(read_ok, req) is Promote {
                Mode::Http2
            } else {
                Mode::Http1
            }
        },
    }
}

/// The mode the selected pathway ends in. For the probe pathway the
/// caller passes the probing read's outcome; the other pathways ignore
/// it.
pub fn terminal_mode(p: ProtocolPath, read_ok: bool, req: &Request) -> (m: Mode)
    ensures
        m == spec_terminal_mode(p, read_ok, *req),
{
    match p {
        ProtocolPath::Http2Direct => Mode::Http2,
        ProtocolPath::Http1Single => Mode::Http1,
        ProtocolPath::H2cProbe => {
            if read_ok && h2c_eligible(req) {
                Mode::Http2
            } else {
                Mode::Http1
            }
        },
    }
}

/// For every accepted connection that survived its handshake, the
/// classifier's pathway ends in exactly one of HTTP/1.1 handling and
/// HTTP/2 multiplexing: never both, never neither.
pub proof fn lemma_exactly_one_pathway(
    tls: bool,
    alpn: Option<Seq<char>>,
    h2_enabled: bool,
    read_ok: bool,
    req: Request,
)
    ensures
        ({
            let m = spec_terminal_mode(spec_classify(tls, alpn, h2_enabled), read_ok, req);
            (m is Http1) <==> !(m is Http2)
        }),
{
}

/// Every h2c-eligible probed connection is promoted to HTTP/2, and every
/// ineligible one stays on HTTP/1.1 with the already-read request.
pub proof fn lemma_h2c_eligibility_decides(read_ok: bool, req: Request)
    ensures
        (read_ok && spec_h2c_eligible(req)) <==> (spec_h2c_decision(read_ok, req) is Promote),
        !(read_ok && spec_h2c_eligible(req)) <==> (spec_h2c_decision(read_ok, req) is ServeHttp1),
{
}

} // verus!
