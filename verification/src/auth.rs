use vstd::prelude::*;
use vstd::string::*;

use crate::error::Error;
use crate::json::{field, fields_view, Json, JsonV};
use crate::text::{trim, trimmed};

verus! {

broadcast use vstd::string::group_string_axioms;

/// `subtle`'s constant-time slice comparison (`ConstantTimeEq::ct_eq` on `[u8]`,
/// turned into a `bool`): true exactly when the slices have the same length and bytes.
#[verifier::external_body]
fn ct_eq_bytes(a: &[u8], b: &[u8]) -> (r: bool)
    ensures
        r == (a@ == b@),
{
    subtle::ConstantTimeEq::ct_eq(a, b).into()
}

/// Whether a header byte is visible ASCII (or a tab), as HTTP header text allows.
pub open spec fn header_byte_ok(b: u8) -> bool {
    (32 <= b && b < 127) || b == 9
}

/// The bytes of "Bearer ".
pub open spec fn bearer_prefix() -> Seq<u8> {
    seq![66u8, 101u8, 97u8, 114u8, 101u8, 114u8, 32u8]
}

/// Whether a request may use the MCP endpoint: it comes from a loopback peer (unless
/// loopback peers must present the token too), or its Authorization header is readable
/// text "Bearer " followed by exactly the configured token.
pub open spec fn authorized(
    peer_is_loopback: bool,
    require_on_loopback: bool,
    header: Option<Seq<u8>>,
    token: Option<Seq<u8>>,
) -> bool {
    (peer_is_loopback && !require_on_loopback) || match (header, token) {
        (Some(h), Some(t)) => (forall|i: int| 0 <= i < h.len() ==> header_byte_ok(#[trigger] h[i]))
            && h.len() >= 7 && h.take(7) == bearer_prefix() && h.skip(7) == t,
        _ => false,
    }
}

/// Decides whether a request is let through; see `authorized`.
#[verifier::loop_isolation(false)]
pub fn authorize(
    peer_is_loopback: bool,
    require_on_loopback: bool,
    header: Option<&[u8]>,
    token: Option<&[u8]>,
) -> (r: bool)
    ensures
        r == authorized(
            peer_is_loopback,
            require_on_loopback,
            match header {
                Some(h) => Some(h@),
                None => None,
            },
            match token {
                Some(t) => Some(t@),
                None => None,
            },
        ),
{
    if peer_is_loopback && !require_on_loopback {
        return true;
    }
    let (h, t) = match (header, token) {
        (Some(h), Some(t)) => (h, t),
        _ => {
            return false;
        },
    };
    let mut i: usize = 0;
    while i < h.len()
        invariant
            i <= h@.len(),
            forall|k: int| 0 <= k < i ==> header_byte_ok(#[trigger] h@[k]),
        decreases h.len() - i,
    {
        let b = h[i];
        if !((32 <= b && b < 127) || b == 9) {
            assert(!header_byte_ok(h@[i as int]));
            return false;
        }
        i = i + 1;
    }
    if h.len() < 7 {
        return false;
    }
    if !(h[0] == 66 && h[1] == 101 && h[2] == 97 && h[3] == 114 && h[4] == 101 && h[5] == 114
        && h[6] == 32) {
        proof {
            if h@.take(7) == bearer_prefix() {
                assert(h@.take(7)[0] == 66u8);
                assert(h@.take(7)[1] == 101u8);
                assert(h@.take(7)[2] == 97u8);
                assert(h@.take(7)[3] == 114u8);
                assert(h@.take(7)[4] == 101u8);
                assert(h@.take(7)[5] == 114u8);
                assert(h@.take(7)[6] == 32u8);
            }
        }
        return false;
    }
    proof {
        assert(h@.take(7) =~= bearer_prefix());
    }
    let mut rest: Vec<u8> = Vec::new();
    let mut k: usize = 7;
    while k < h.len()
        invariant
            7 <= k <= h@.len(),
            rest@ == h@.subrange(7, k as int),
        decreases h.len() - k,
    {
        rest.push(h[k]);
        k = k + 1;
    }
    proof {
        assert(rest@ =~= h@.skip(7));
    }
    ct_eq_bytes(rest.as_slice(), t)
}

/// The body of the answer to a request that is not let through.
pub open spec fn unauthorized_json() -> JsonV {
    JsonV::Object(seq![("error"@, JsonV::Str("unauthorized"@))])
}

/// The body of the answer to a request that is not let through: `{"error": "unauthorized"}`.
pub fn unauthorized_body() -> (r: Json)
    ensures
        r@ == unauthorized_json(),
{
    let mut f: Vec<(String, Json)> = Vec::new();
    f.push(field("error", Json::new_str("unauthorized")));
    let r = Json::object(f);
    proof {
        assert(fields_view(f@) =~= seq![("error"@, JsonV::Str("unauthorized"@))]);
    }
    r
}

/// The token the daemon requires from remote peers: the environment's, when set,
/// else the trimmed contents of the token file, when that is not empty.
pub open spec fn chosen_token(env_token: Option<Seq<char>>, file_text: Option<Seq<char>>) -> Option<Seq<char>> {
    match env_token {
        Some(t) => Some(t),
        None => match file_text {
            Some(f) => if trimmed(f).len() > 0 {
                Some(trimmed(f))
            } else {
                None
            },
            None => None,
        },
    }
}

/// Chooses the token; see `chosen_token`.
pub fn choose_token(env_token: Option<String>, file_text: Option<String>) -> (r: Option<String>)
    ensures
        match r {
            Some(t) => chosen_token(
                match env_token {
                    Some(e) => Some(e@),
                    None => None,
                },
                match file_text {
                    Some(f) => Some(f@),
                    None => None,
                },
            ) == Some(t@),
            None => chosen_token(
                match env_token {
                    Some(e) => Some(e@),
                    None => None,
                },
                match file_text {
                    Some(f) => Some(f@),
                    None => None,
                },
            ) is None,
        },
{
    match env_token {
        Some(t) => Some(t),
        None => match file_text {
            Some(f) => {
                let t = trim(f.as_str());
                if t.as_str().unicode_len() > 0 {
                    Some(t)
                } else {
                    None
                }
            },
            None => None,
        },
    }
}

/// The message for a public bind without a token.
pub open spec fn public_bind_text() -> Seq<char> {
    "refusing to bind to a non-loopback address without a token; run 'arkd token init' or set ARKD_TOKEN"@
}

/// Refuses to serve on a non-loopback address without a token.
pub fn check_bind(bind_is_loopback: bool, has_token: bool) -> (r: Result<(), Error>)
    ensures
        r is Ok <==> (bind_is_loopback || has_token),
        r matches Err(e) ==> (e matches Error::Config(m) && m@ == public_bind_text()),
{
    if !bind_is_loopback && !has_token {
        return Err(
            Error::Config(
                String::from_str(
                    "refusing to bind to a non-loopback address without a token; run 'arkd token init' or set ARKD_TOKEN",
                ),
            ),
        );
    }
    Ok(())
}

/// Remote peers (and loopback peers, when they must) get in only with the token; a
/// loopback peer otherwise always gets in.
pub proof fn remote_access_needs_the_token(
    loopback: bool,
    require_on_loopback: bool,
    header: Option<Seq<u8>>,
    token: Option<Seq<u8>>,
)
    ensures
        authorized(true, false, header, token),
        !(loopback && !require_on_loopback) && token is None ==> !authorized(
            loopback,
            require_on_loopback,
            header,
            token,
        ),
        !(loopback && !require_on_loopback) && header is None ==> !authorized(
            loopback,
            require_on_loopback,
            header,
            token,
        ),
        !(loopback && !require_on_loopback) && authorized(loopback, require_on_loopback, header, token)
            ==> (header matches Some(h) && token matches Some(t) && h == bearer_prefix() + t),
{
    if !(loopback && !require_on_loopback) && authorized(loopback, require_on_loopback, header, token) {
        if let (Some(h), Some(t)) = (header, token) {
            assert(h =~= h.take(7) + h.skip(7));
        }
    }
}

} // verus!
