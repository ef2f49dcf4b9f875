//! The parsed-request surface the dispatcher reads.
//!
//! The byte-level HTTP/1.1 parser is an external collaborator; what this
//! crate needs of its result is the request path and a case-insensitive,
//! multi-valued header lookup, used for the `Upgrade` header. Both are
//! modelled here as plain values.

use vstd::prelude::*;

verus! {

/// One header line: a field name and its values in order of appearance.
pub struct Header {
    pub name: String,
    pub values: Vec<String>,
}

/// One parsed HTTP/1.1 request, reduced to what dispatch reads.
pub struct Request {
    pub path: String,
    pub headers: Vec<Header>,
}

/// ASCII case folding of one character, by code point: uppercase letters
/// map onto their lowercase counterparts, all else stays.
pub open spec fn fold_char(c: char) -> int {
    if 65 <= c as u32 && c as u32 <= 90 {
        c as u32 + 32
    } else {
        c as u32 as int
    }
}

/// Two character sequences are equal up to ASCII case.
pub open spec fn seq_eq_fold(a: Seq<char>, b: Seq<char>) -> bool {
    a.len() == b.len() && forall|i: int| 0 <= i < a.len() ==> fold_char(a[i]) == fold_char(b[i])
}

/// ASCII-case-insensitive string equality.
pub fn eq_ignore_ascii_case(a: &str, b: &str) -> (r: bool)
    ensures
        r == seq_eq_fold(a@, b@),
{
    let an = a.unicode_len();
    let bn = b.unicode_len();
    if an != bn {
        return false;
    }
    let mut i: usize = 0;
    while i < an
        invariant
            an == a@.len(),
            bn == b@.len(),
            an == bn,
            i <= an,
            forall|j: int| 0 <= j < i ==> fold_char(a@[j]) == fold_char(b@[j]),
        decreases an - i,
    {
        let ca = a.get_char(i) as u32;
        let cb = b.get_char(i) as u32;
        let fa = if 65 <= ca && ca <= 90 {
            ca + 32
        } else {
            ca
        };
        let fb = if 65 <= cb && cb <= 90 {
            cb + 32
        } else {
            cb
        };
        if fa != fb {
            return false;
        }
        i += 1;
    }
    true
}

/// Exact string equality.
pub fn str_eq(a: &str, b: &str) -> (r: bool)
    ensures
        r == (a@ == b@),
{
    let an = a.unicode_len();
    let bn = b.unicode_len();
    if an != bn {
        return false;
    }
    let mut i: usize = 0;
    while i < an
        invariant
            an == a@.len(),
            bn == b@.len(),
            an == bn,
            i <= an,
            forall|j: int| 0 <= j < i ==> a@[j] == b@[j],
        decreases an - i,
    {
        let ca = a.get_char(i);
        let cb = b.get_char(i);
        if ca != cb {
            return false;
        }
        i += 1;
    }
    proof {
        assert(a@ =~= b@);
    }
    true
}

/// The header's name matches `name` up to ASCII case.
pub open spec fn name_matches(h: Header, name: Seq<char>) -> bool {
    seq_eq_fold(h.name@, name)
}

/// `i` is the position of the first header whose name matches `name`.
pub open spec fn spec_first_match(hs: Seq<Header>, name: Seq<char>, i: int) -> bool {
    &&& 0 <= i < hs.len()
    &&& name_matches(hs[i], name)
    &&& forall|j: int| 0 <= j < i ==> !name_matches(#[trigger] hs[j], name)
}

/// The first value of the first header whose name matches `name`, if that
/// header exists and carries a value: the case-insensitive multi-value
/// lookup the external request reader exposes.
pub open spec fn spec_first_value(req: Request, name: Seq<char>) -> Option<Seq<char>> {
    if exists|i: int| spec_first_match(req.headers@, name, i) {
        let i = choose|i: int| spec_first_match(req.headers@, name, i);
        if req.headers@[i].values@.len() > 0 {
            Some(req.headers@[i].values@[0]@)
        } else {
            None
        }
    } else {
        None
    }
}

/// At most one position is the first match.
proof fn lemma_first_match_unique(hs: Seq<Header>, name: Seq<char>, i: int, j: int)
    requires
        spec_first_match(hs, name, i),
        spec_first_match(hs, name, j),
    ensures
        i == j,
{
}

/// Position of the first header whose name matches `name` up to ASCII
/// case, if any.
pub fn find_header(req: &Request, name: &str) -> (r: Option<usize>)
    ensures
        match r {
            Some(i) => spec_first_match(req.headers@, name@, i as int),
            None => !exists|i: int| spec_first_match(req.headers@, name@, i),
        },
{
    let n = req.headers.len();
    let mut i: usize = 0;
    while i < n
        invariant
            n == req.headers@.len(),
            i <= n,
            forall|j: int| 0 <= j < i ==> !name_matches(#[trigger] req.headers@[j], name@),
        decreases n - i,
    {
        if eq_ignore_ascii_case(req.headers[i].name.as_str(), name) {
            return Some(i);
        }
        i += 1;
    }
    proof {
        if exists|k: int| spec_first_match(req.headers@, name@, k) {
            let k = choose|k: int| spec_first_match(req.headers@, name@, k);
            assert(!name_matches(req.headers@[k], name@));
        }
    }
    None
}

/// The request's `Upgrade` header names `h2c` (first value, compared up
/// to ASCII case): the condition under which a cleartext connection is
/// promoted to HTTP/2.
pub open spec fn spec_h2c_eligible(req: Request) -> bool {
    match spec_first_value(req, "upgrade"@) {
        Some(v) => seq_eq_fold(v, "h2c"@),
        None => false,
    }
}

/// The request's `Upgrade` header names `websocket` (first value, exact):
/// the condition under which a duplex middleware endpoint upgrades.
pub open spec fn spec_duplex_eligible(req: Request) -> bool {
    match spec_first_value(req, "upgrade"@) {
        Some(v) => v == "websocket"@,
        None => false,
    }
}

/// Whether the request asks for the `h2c` upgrade.
pub fn h2c_eligible(req: &Request) -> (b: bool)
    ensures
        b == spec_h2c_eligible(*req),
{
    first_value_check(req, false)
}

/// Whether the request asks for the duplex (WebSocket) upgrade.
pub fn duplex_eligible(req: &Request) -> (b: bool)
    ensures
        b == spec_duplex_eligible(*req),
{
    first_value_check(req, true)
}

/// Shared lookup of the `Upgrade` header's first value, compared against
/// the token the caller is after.
fn first_value_check(req: &Request, websocket: bool) -> (b: bool)
    ensures
        websocket ==> b == spec_duplex_eligible(*req),
        !websocket ==> b == spec_h2c_eligible(*req),
{
    match find_header(req, "upgrade") {
        Some(i) => {
            proof {
                let k = choose|k: int| spec_first_match(req.headers@, "upgrade"@, k);
                lemma_first_match_unique(req.headers@, "upgrade"@, i as int, k);
            }
            let h = &req.headers[i];
            if h.values.len() > 0 {
                if websocket {
                    str_eq(h.values[0].as_str(), "websocket")
                } else {
                    eq_ignore_ascii_case(h.values[0].as_str(), "h2c")
                }
            } else {
                false
            }
        },
        None => false,
    }
}

} // verus!
