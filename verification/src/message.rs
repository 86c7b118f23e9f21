//! Requests and replies as plain values, and the two replies and the one
//! request that the proxy makes up itself.

use vstd::prelude::*;
use vstd::slice::slice_to_vec;
use vstd::string::StringExecFns;
use crate::codec::{Decoded, DecodedView, Header, HeaderView, Version};
use crate::status::phrase_view;

verus! {

/// A request as it came in.
#[derive(Clone, Debug, PartialEq, Eq)]
pub struct Request {
    /// The method's token, such as `GET`.
    pub method: String,
    /// The path with its query, as the request line gave it.
    pub path: String,
    pub version: Version,
    pub headers: Vec<Header>,
    pub body: Vec<u8>,
}

/// What a request is.
pub struct RequestView {
    pub method: Seq<char>,
    pub path: Seq<char>,
    pub version: Version,
    pub headers: Seq<HeaderView>,
    pub body: Seq<u8>,
}

impl View for Request {
    type V = RequestView;

    open spec fn view(&self) -> RequestView {
        RequestView {
            method: self.method@,
            path: self.path@,
            version: self.version,
            headers: self.headers.deep_view(),
            body: self.body@,
        }
    }
}

/// A request that is to be sent upstream.
#[derive(Clone, Debug, PartialEq, Eq)]
pub struct OutboundRequest {
    pub method: String,
    /// Where the request goes: the upstream base, then the path.
    pub uri: String,
    pub version: Version,
    pub headers: Vec<Header>,
    pub body: Vec<u8>,
}

/// What an outbound request is.
pub struct OutboundRequestView {
    pub method: Seq<char>,
    pub uri: Seq<char>,
    pub version: Version,
    pub headers: Seq<HeaderView>,
    pub body: Seq<u8>,
}

impl View for OutboundRequest {
    type V = OutboundRequestView;

    open spec fn view(&self) -> OutboundRequestView {
        OutboundRequestView {
            method: self.method@,
            uri: self.uri@,
            version: self.version,
            headers: self.headers.deep_view(),
            body: self.body@,
        }
    }
}

/// What upstream answered.
#[derive(Clone, Debug, PartialEq, Eq)]
pub struct UpstreamResponse {
    pub version: Version,
    pub code: u16,
    /// The reason phrase that came beside the code, or nothing where the
    /// transport handed none over.
    pub reason: Option<Vec<u8>>,
    pub headers: Vec<Header>,
    pub body: Vec<u8>,
}

/// What an upstream response is.
pub struct UpstreamResponseView {
    pub version: Version,
    pub code: u16,
    pub reason: Option<Seq<u8>>,
    pub headers: Seq<HeaderView>,
    pub body: Seq<u8>,
}

impl View for UpstreamResponse {
    type V = UpstreamResponseView;

    open spec fn view(&self) -> UpstreamResponseView {
        UpstreamResponseView {
            version: self.version,
            code: self.code,
            reason: phrase_view(self.reason),
            headers: self.headers.deep_view(),
            body: self.body@,
        }
    }
}

/// What the proxy answers.
#[derive(Clone, Debug, PartialEq, Eq)]
pub struct Reply {
    pub code: u16,
    /// The reason phrase to send beside the code. Where there is none,
    /// whoever sends the reply writes the standard phrase for the code.
    pub reason: Option<Vec<u8>>,
    pub headers: Vec<Header>,
    pub body: Vec<u8>,
}

/// What a reply is.
pub struct ReplyView {
    pub code: u16,
    pub reason: Option<Seq<u8>>,
    pub headers: Seq<HeaderView>,
    pub body: Seq<u8>,
}

impl View for Reply {
    type V = ReplyView;

    open spec fn view(&self) -> ReplyView {
        ReplyView {
            code: self.code,
            reason: phrase_view(self.reason),
            headers: self.headers.deep_view(),
            body: self.body@,
        }
    }
}

/// The outbound request for an inbound one: it goes to the upstream base
/// followed by the path, with the method, the version, every header and the
/// body of the inbound request, unchanged.
pub open spec fn spec_build_outbound(
    method: Seq<char>,
    headers: Seq<HeaderView>,
    body: Seq<u8>,
    upstream_base: Seq<char>,
    path: Seq<char>,
    version: Version,
) -> OutboundRequestView {
    OutboundRequestView { method, uri: upstream_base + path, version, headers, body }
}

/// Makes the request that is sent upstream. No header is left out or
/// changed, and the body is passed on as it is.
pub fn build_outbound(
    method: String,
    headers: Vec<Header>,
    body: Vec<u8>,
    upstream_base: &str,
    path: &str,
    version: Version,
) -> (outbound: OutboundRequest)
    ensures
        outbound@ == spec_build_outbound(
            method@,
            headers.deep_view(),
            body@,
            upstream_base@,
            path@,
            version,
        ),
{
    let mut uri = String::from_str(upstream_base);
    uri.append(path);
    OutboundRequest { method, uri, version, headers, body }
}

/// The reply that a recording gives: the code, the headers and the body that
/// were read from it. It has no reason of its own: the phrase on the tape is
/// not played back, and the standard phrase for the code is sent.
pub open spec fn spec_playback(decoded: DecodedView) -> ReplyView {
    ReplyView { code: decoded.code, reason: None, headers: decoded.headers, body: decoded.body }
}

/// Makes the reply that plays a recording back.
pub fn playback(decoded: Decoded) -> (reply: Reply)
    ensures
        reply@ == spec_playback(decoded@),
{
    Reply { code: decoded.code, reason: None, headers: decoded.headers, body: decoded.body }
}

/// The reply that passes an upstream response on: its code, the reason
/// that came with it, its headers and its body.
pub open spec fn spec_relay(response: UpstreamResponseView) -> ReplyView {
    ReplyView {
        code: response.code,
        reason: response.reason,
        headers: response.headers,
        body: response.body,
    }
}

/// Makes the reply that passes an upstream response on.
pub fn relay(response: UpstreamResponse) -> (reply: Reply)
    ensures
        reply@ == spec_relay(response@),
{
    Reply {
        code: response.code,
        reason: response.reason,
        headers: response.headers,
        body: response.body,
    }
}

/// An ASCII letter in lower case; any other byte as it is.
pub open spec fn lower(b: u8) -> u8 {
    if 65 <= b <= 90 {
        (b + 32) as u8
    } else {
        b
    }
}

/// Two names are the same but for the case of their ASCII letters.
pub open spec fn same_name(a: Seq<u8>, b: Seq<u8>) -> bool {
    &&& a.len() == b.len()
    &&& forall|i: int| 0 <= i < a.len() ==> lower(#[trigger] a[i]) == lower(b[i])
}

/// The value of the first header that has the name, if there is one.
pub open spec fn spec_header_value(headers: Seq<HeaderView>, name: Seq<u8>) -> Option<Seq<u8>>
    decreases headers.len(),
{
    if headers.len() == 0 {
        None
    } else if same_name(headers[0].name, name) {
        Some(headers[0].value)
    } else {
        spec_header_value(headers.skip(1), name)
    }
}

/// An ASCII letter in lower case; any other byte as it is.
fn to_lower(b: u8) -> (l: u8)
    ensures
        l == lower(b),
{
    if 65 <= b && b <= 90 {
        b + 32
    } else {
        b
    }
}

/// Whether two names are the same but for the case of their ASCII letters.
pub fn names_match(a: &[u8], b: &[u8]) -> (same: bool)
    ensures
        same == same_name(a@, b@),
{
    let n: usize = a.len();
    if n != b.len() {
        return false;
    }
    let mut i: usize = 0;
    while i < n
        invariant
            n == a@.len(),
            n == b@.len(),
            i <= n,
            forall|k: int| 0 <= k < i ==> lower(#[trigger] a@[k]) == lower(b@[k]),
        decreases n - i,
    {
        if to_lower(a[i]) != to_lower(b[i]) {
            return false;
        }
        i = i + 1;
    }
    true
}

/// The value of the first header that has the name, whatever the case of
/// the letters.
pub fn header_value(headers: &[Header], name: &[u8]) -> (value: Option<Vec<u8>>)
    ensures
        match value {
            Some(v) => spec_header_value(headers.deep_view(), name@) == Some(v@),
            None => spec_header_value(headers.deep_view(), name@) is None,
        },
{
    let ghost hs = headers.deep_view();
    let n: usize = headers.len();
    let mut i: usize = 0;
    proof {
        assert(hs.skip(0) =~= hs);
    }
    while i < n
        invariant
            n == headers@.len(),
            hs == headers.deep_view(),
            i <= n,
            spec_header_value(hs, name@) == spec_header_value(hs.skip(i as int), name@),
        decreases n - i,
    {
        let ghost rest = hs.skip(i as int);
        proof {
            assert(rest[0] == headers@[i as int]@);
            assert(rest.skip(1) =~= hs.skip(i + 1));
        }
        if names_match(headers[i].name.as_slice(), name) {
            return Some(slice_to_vec(headers[i].value.as_slice()));
        }
        i = i + 1;
    }
    proof {
        assert(hs.skip(n as int).len() == 0);
    }
    None
}

/// The code of the reply to a request that no tape answers while nothing
/// may be forwarded: 501, not implemented.
pub const NOT_IMPLEMENTED: u16 = 501;

/// The name `accept`.
pub open spec fn accept() -> Seq<u8> {
    seq![97u8, 99u8, 99u8, 101u8, 112u8, 116u8]
}

/// The reply to a request that no tape answers while nothing may be
/// forwarded: code 501 with its standard phrase, an empty body, and the
/// request's first `Accept` header, if it has one, as the only header.
pub open spec fn spec_not_implemented(headers: Seq<HeaderView>) -> ReplyView {
    ReplyView {
        code: NOT_IMPLEMENTED,
        reason: None,
        headers: match spec_header_value(headers, accept()) {
            Some(value) => seq![HeaderView { name: accept(), value }],
            None => Seq::empty(),
        },
        body: Seq::empty(),
    }
}

/// The name `accept` as bytes.
fn accept_bytes() -> (name: Vec<u8>)
    ensures
        name@ == accept(),
{
    let mut name: Vec<u8> = Vec::new();
    name.push(97);
    name.push(99);
    name.push(99);
    name.push(101);
    name.push(112);
    name.push(116);
    assert(name@ =~= accept());
    name
}

/// Makes the reply to a request that cannot be answered in replay-only
/// mode, from the request's headers.
pub fn not_implemented(headers: &[Header]) -> (reply: Reply)
    ensures
        reply@ == spec_not_implemented(headers.deep_view()),
{
    let name = accept_bytes();
    let mut echoed: Vec<Header> = Vec::new();
    match header_value(headers, name.as_slice()) {
        Some(value) => {
            let ghost v = value@;
            echoed.push(Header { name, value });
            assert(echoed.deep_view() =~= seq![HeaderView { name: accept(), value: v }]);
        },
        None => {
            assert(echoed.deep_view() =~= Seq::<HeaderView>::empty());
        },
    }
    Reply { code: NOT_IMPLEMENTED, reason: None, headers: echoed, body: Vec::new() }
}

} // verus!
