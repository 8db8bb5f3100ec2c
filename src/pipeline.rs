//! The request/response pipeline: the authenticated request target, and the
//! decision on what came back.
use vstd::prelude::*;
use vstd::utf8::*;

use crate::form::{encode_pairs, lemma_query_round_trip, parse_query, query_text, utf8_pairs};
use crate::params::{pairs_map, keys_distinct, lemma_pairs_map_key, without_key, ParameterMap};

verus! {

/// The address of the service, to which endpoint names are appended.
pub open spec fn base_url() -> Seq<char> {
    "https://api.musixmatch.com/ws/1.1"@
}

/// The name of the query parameter that carries the API key.
pub open spec fn api_key_name() -> Seq<char> {
    "apikey"@
}

/// The address of an endpoint: the base address, `/`, the endpoint name.
pub open spec fn endpoint_url(endpoint: Seq<char>) -> Seq<char> {
    base_url() + seq!['/'] + endpoint
}

/// The parameters that a request sends: the API key first, then the
/// caller's parameters in order, less any that the caller set under the
/// API key's own name.
pub open spec fn request_entries(key: Seq<char>, ps: Seq<(Seq<char>, Seq<char>)>) -> Seq<
    (Seq<char>, Seq<char>),
> {
    seq![(api_key_name(), key)] + without_key(ps, api_key_name())
}

/// The full request target: the endpoint's address, `?`, the query.
pub open spec fn request_target(
    key: Seq<char>,
    endpoint: Seq<char>,
    ps: Seq<(Seq<char>, Seq<char>)>,
) -> Seq<char> {
    endpoint_url(endpoint) + seq!['?'] + query_text(request_entries(key, ps))
}

/// The configuration that every request of a client shares.
pub struct ApiConfig {
    api_key: String,
}

impl ApiConfig {
    /// The API key.
    pub closed spec fn key(&self) -> Seq<char> {
        self.api_key@
    }

    /// A configuration that authenticates with `api_key`.
    pub fn new(api_key: &str) -> (r: Self)
        ensures
            r.key() == api_key@,
    {
        ApiConfig { api_key: api_key.to_owned() }
    }

    /// The API key.
    pub fn api_key(&self) -> (r: &str)
        ensures
            r@ == self.key(),
    {
        self.api_key.as_str()
    }

    /// The address of `endpoint`.
    pub fn endpoint_url(&self, endpoint: &str) -> (r: String)
        ensures
            r@ == endpoint_url(endpoint@),
    {
        let base = "https://api.musixmatch.com/ws/1.1";
        let slash = "/";
        proof {
            reveal_strlit("/");
        }
        let r = base.to_owned().concat(slash).concat(endpoint);
        assert(slash@ =~= seq!['/']);
        r
    }

    /// The parameters that a request with the caller's `params` sends: the
    /// API key first, then the caller's entries in order, less any under the
    /// API key's name.
    pub fn request_parameters(&self, params: &ParameterMap) -> (r: ParameterMap)
        requires
            params.wf(),
        ensures
            r.wf(),
            r.entries() == request_entries(self.key(), params.entries()),
            r@ == params@.insert(api_key_name(), self.key()),
    {
        let ghost a = api_key_name();
        let ghost key = self.key();
        let ghost ps = params.entries();
        let auth = "apikey".to_owned();
        let mut r = ParameterMap::new();
        r.insert("apikey", self.api_key.clone());
        let pairs = params.pairs();
        let mut i: usize = 0;
        assert(without_key(ps.subrange(0, 0), a) =~= Seq::<(Seq<char>, Seq<char>)>::empty());
        assert(r.entries() =~= seq![(a, key)] + without_key(ps.subrange(0, 0), a));
        assert(pairs_map(ps.subrange(0, 0)) =~= Map::<Seq<char>, Seq<char>>::empty());
        while i < pairs.len()
            invariant
                0 <= i <= pairs@.len(),
                pairs@.len() == ps.len(),
                forall|j: int| 0 <= j < ps.len() ==> ps[j].0 == (#[trigger] pairs@[j]).0@ && ps[j].1
                    == pairs@[j].1@,
                keys_distinct(ps),
                auth@ == a,
                r.wf(),
                r.entries() == seq![(a, key)] + without_key(ps.subrange(0, i as int), a),
                r@ == pairs_map(ps.subrange(0, i as int)).insert(a, key),
            decreases pairs@.len() - i,
        {
            let ghost pre = ps.subrange(0, i as int);
            let ghost next = ps.subrange(0, i as int + 1);
            proof {
                assert(next.drop_last() =~= pre);
                assert(next.last() == ps[i as int]);
                assert(ps[i as int] == (pairs@[i as int].0@, pairs@[i as int].1@));
            }
            if !(pairs[i].0 == auth) {
                proof {
                    if r@.contains_key(ps[i as int].0) {
                        let j = lemma_pairs_map_key(pre, ps[i as int].0);
                        assert(pre[j] == ps[j]);
                    }
                }
                r.insert(pairs[i].0.as_str(), pairs[i].1.clone());
                assert(r.entries() =~= seq![(a, key)] + without_key(next, a));
                assert(r@ =~= pairs_map(next).insert(a, key));
            } else {
                assert(r@ =~= pairs_map(next).insert(a, key));
            }
            i += 1;
        }
        assert(ps.subrange(0, ps.len() as int) =~= ps);
        r
    }

    /// The full request target for `endpoint` with the caller's `params`:
    /// the endpoint's address, `?`, and the form-encoded query of
    /// [`ApiConfig::request_parameters`].
    pub fn request_url(&self, endpoint: &str, params: &ParameterMap) -> (r: String)
        requires
            params.wf(),
        ensures
            r@ == request_target(self.key(), endpoint@, params.entries()),
    {
        let query = self.request_parameters(params).to_query();
        let question = "?";
        proof {
            reveal_strlit("?");
        }
        let r = self.endpoint_url(endpoint).concat(question).concat(query.as_str());
        assert(question@ =~= seq!['?']);
        r
    }
}

/// Every request carries the API key: whatever parameters the caller set,
/// none at all included, the query of the request parses back to pairs of
/// which the first is the API key under its parameter name, and the request's
/// parameters map that name to the key.
pub proof fn lemma_api_key_always_sent(key: Seq<char>, ps: Seq<(Seq<char>, Seq<char>)>)
    ensures
        parse_query(encode_pairs(utf8_pairs(request_entries(key, ps)))).len() >= 1,
        parse_query(encode_pairs(utf8_pairs(request_entries(key, ps))))[0] == (
            encode_utf8(api_key_name()),
            encode_utf8(key),
        ),
        pairs_map(request_entries(key, ps)).contains_key(api_key_name()),
        pairs_map(request_entries(key, ps))[api_key_name()] == key,
{
    let es = request_entries(key, ps);
    lemma_query_round_trip(utf8_pairs(es));
    lemma_request_map(key, ps);
}

proof fn lemma_without_key_lacks(ps: Seq<(Seq<char>, Seq<char>)>, k: Seq<char>)
    ensures
        forall|i: int| 0 <= i < without_key(ps, k).len() ==> (#[trigger] without_key(ps, k)[i]).0 != k,
    decreases ps.len(),
{
    if ps.len() > 0 {
        let pre = without_key(ps.drop_last(), k);
        lemma_without_key_lacks(ps.drop_last(), k);
        let w = without_key(ps, k);
        assert forall|i: int| 0 <= i < w.len() implies (#[trigger] w[i]).0 != k by {
            if i < pre.len() {
                assert(w[i] == pre[i]);
            }
        }
    }
}

/// The API key's entry, first in a request's entries, is the only one under
/// its name, so the map of the entries holds it.
proof fn lemma_request_map(key: Seq<char>, ps: Seq<(Seq<char>, Seq<char>)>)
    ensures
        pairs_map(request_entries(key, ps)).contains_key(api_key_name()),
        pairs_map(request_entries(key, ps))[api_key_name()] == key,
{
    let es = request_entries(key, ps);
    let w = without_key(ps, api_key_name());
    lemma_without_key_lacks(ps, api_key_name());
    assert forall|i: int| 1 <= i < es.len() implies (#[trigger] es[i]).0 != es[0].0 by {
        assert(es[i] == w[i - 1]);
    }
    lemma_map_keeps_first(es, es.len() as int);
    assert(es.subrange(0, es.len() as int) =~= es);
}

proof fn lemma_map_keeps_first(es: Seq<(Seq<char>, Seq<char>)>, n: int)
    requires
        1 <= n <= es.len(),
        forall|i: int| 1 <= i < es.len() ==> (#[trigger] es[i]).0 != es[0].0,
    ensures
        pairs_map(es.subrange(0, n)).contains_key(es[0].0),
        pairs_map(es.subrange(0, n))[es[0].0] == es[0].1,
    decreases n,
{
    let s = es.subrange(0, n);
    if n > 1 {
        lemma_map_keeps_first(es, n - 1);
        assert(s.drop_last() =~= es.subrange(0, n - 1));
    } else {
        assert(s.drop_last() =~= Seq::<(Seq<char>, Seq<char>)>::empty());
    }
}

// ----- the decision on what came back -----

/// What came back for a request.
pub enum Reply {
    /// No response arrived: the connection failed, timed out, or the bytes
    /// could not be read.
    TransportFailed,
    /// A response arrived. `header_status` is the status code in the
    /// envelope's header, if the body held an envelope with one; `has_body`
    /// tells whether the envelope held a payload.
    Received { http_status: u16, header_status: Option<u64>, has_body: bool },
}

/// An application error that the service reported.
#[derive(Clone, Copy, Debug, PartialEq, Eq, Structural)]
pub struct ApiError {
    /// The status code that the service gave.
    pub status_code: u64,
}

/// What a request comes to.
#[derive(Clone, Copy, Debug, PartialEq, Eq, Structural)]
pub enum Resolution {
    /// Decode the payload into the requested type and return it.
    Deliver,
    /// Hand the error to the error callback, once, and return no value; the
    /// payload is not decoded.
    Report(ApiError),
    /// The transport failed: a hard failure, and the error callback is not
    /// called.
    TransportFailure,
    /// A success status without a payload: the service broke its contract.
    /// A hard failure, and the error callback is not called.
    SchemaViolation,
}

/// Status codes of success.
pub open spec fn is_success_status(code: u64) -> bool {
    200 <= code < 300
}

/// The status code that decides a reply: the envelope's, or the HTTP status
/// where the body held no envelope header.
pub open spec fn effective_status(http_status: u16, header_status: Option<u64>) -> u64 {
    match header_status {
        Some(c) => c,
        None => http_status as u64,
    }
}

/// Decides what a reply comes to.
pub fn resolve(reply: &Reply) -> (r: Resolution)
    ensures
        (r == Resolution::TransportFailure) <==> (*reply is TransportFailed),
        *reply matches Reply::Received { http_status, header_status, has_body } ==> {
            let code = effective_status(http_status, header_status);
            &&& !is_success_status(code) ==> r == Resolution::Report(ApiError { status_code: code })
            &&& is_success_status(code) && header_status is Some && has_body ==> r
                == Resolution::Deliver
            &&& is_success_status(code) && !(header_status is Some && has_body) ==> r
                == Resolution::SchemaViolation
        },
{
    match reply {
        Reply::TransportFailed => Resolution::TransportFailure,
        Reply::Received { http_status, header_status, has_body } => {
            let code: u64 = match header_status {
                Some(c) => *c,
                None => *http_status as u64,
            };
            if !(200 <= code && code < 300) {
                Resolution::Report(ApiError { status_code: code })
            } else if header_status.is_some() && *has_body {
                Resolution::Deliver
            } else {
                Resolution::SchemaViolation
            }
        },
    }
}

} // verus!
