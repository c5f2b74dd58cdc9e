//! Pass-through forwarding to the upstream store: which headers travel, which rank a path
//! needs, and the request that goes upstream.

use crate::auth::HeaderField;
use crate::policy::{EDIT_RANK, VIEW_RANK};
use crate::text::{chars_eq, chars_of, lower_of, lowercase, push_str, starts_with_folded, starts_with_folded_at};
use vstd::prelude::*;

verus! {

/// Lower-case header names that never cross the gateway in either direction: connection
/// management, credentials, and what a client could send to impersonate the proxy.
pub open spec fn is_withheld_name(lower: Seq<char>) -> bool {
    lower == "host"@ || lower == "connection"@ || lower == "keep-alive"@ || lower == "proxy-authenticate"@
        || lower == "proxy-authorization"@ || lower == "te"@ || lower == "trailers"@ || lower
        == "transfer-encoding"@ || lower == "upgrade"@ || lower == "x-access-token"@ || lower
        == "authorization"@ || lower == "cookie"@
}

/// A header is withheld where its name, lower-cased, is on the list.
pub open spec fn is_withheld_header(name: Seq<char>) -> bool {
    is_withheld_name(lower_of(name))
}

/// Whether a lower-case header name is on the list of withheld headers.
pub fn is_withheld_lowercase(lower: &str) -> (r: bool)
    ensures
        r == is_withheld_name(lower@),
{
    chars_eq(lower, "host") || chars_eq(lower, "connection") || chars_eq(lower, "keep-alive")
        || chars_eq(lower, "proxy-authenticate") || chars_eq(lower, "proxy-authorization")
        || chars_eq(lower, "te") || chars_eq(lower, "trailers") || chars_eq(lower, "transfer-encoding")
        || chars_eq(lower, "upgrade") || chars_eq(lower, "x-access-token") || chars_eq(lower, "authorization")
        || chars_eq(lower, "cookie")
}

/// Whether a header with this name may be forwarded: its name, lower-cased, is not on the
/// list of withheld headers.
pub fn should_forward_header(name: &str) -> (r: bool)
    ensures
        r == !is_withheld_header(name@),
{
    let lower = lowercase(name);
    !is_withheld_lowercase(lower.as_str())
}

/// The headers that are forwarded, in their order.
pub open spec fn forwarded(headers: Seq<HeaderField>) -> Seq<HeaderField> {
    headers.filter(|h: HeaderField| !is_withheld_header(h.name@))
}

/// The headers that may cross the gateway, in their order; used for requests going up and
/// responses coming back.
pub fn forward_headers(headers: &[HeaderField]) -> (r: Vec<HeaderField>)
    ensures
        r@ == forwarded(headers@),
{
    let mut out: Vec<HeaderField> = Vec::new();
    let mut i: usize = 0;
    while i < headers.len()
        invariant
            i <= headers@.len(),
            out@ == forwarded(headers@.subrange(0, i as int)),
        decreases headers@.len() - i,
    {
        let h = &headers[i];
        assert(headers@.subrange(0, i + 1).drop_last() =~= headers@.subrange(0, i as int));
        reveal(Seq::filter);
        if should_forward_header(h.name.as_str()) {
            out.push(HeaderField { name: h.name.clone(), value: h.value.clone() });
        }
        i = i + 1;
    }
    assert(headers@.subrange(0, headers@.len() as int) =~= headers@);
    out
}

/// The rank a pass-through path needs: edit for the update endpoint, view otherwise.
pub open spec fn required_rank_of(path: Seq<char>) -> int {
    if starts_with_folded(path, "/update"@) {
        EDIT_RANK as int
    } else {
        VIEW_RANK as int
    }
}

/// The rank a pass-through path needs: edit where it begins with `/update` (ASCII case
/// aside), view otherwise.
pub fn required_rank_for_path(path: &str) -> (r: i32)
    ensures
        r == required_rank_of(path@),
{
    let p = chars_of(path);
    assert(p@.subrange(0, p@.len() as int) =~= p@);
    if starts_with_folded_at(p.as_slice(), 0, "/update") {
        EDIT_RANK
    } else {
        VIEW_RANK
    }
}

/// The request methods the gateway forwards as they are.
#[derive(Debug, Clone, Copy, PartialEq, Eq, Structural)]
pub enum UpstreamMethod {
    Get,
    Post,
    Put,
    Delete,
    Head,
    Options,
    Patch,
}

/// The upstream method for a request method name; a method outside the forwarded set goes
/// up as GET.
pub open spec fn upstream_method_of(name: Seq<char>) -> UpstreamMethod {
    if name == "POST"@ {
        UpstreamMethod::Post
    } else if name == "PUT"@ {
        UpstreamMethod::Put
    } else if name == "DELETE"@ {
        UpstreamMethod::Delete
    } else if name == "HEAD"@ {
        UpstreamMethod::Head
    } else if name == "OPTIONS"@ {
        UpstreamMethod::Options
    } else if name == "PATCH"@ {
        UpstreamMethod::Patch
    } else {
        UpstreamMethod::Get
    }
}

/// The upstream method for a request method name.
pub fn upstream_method(name: &str) -> (r: UpstreamMethod)
    ensures
        r == upstream_method_of(name@),
{
    if crate::text::chars_eq(name, "POST") {
        UpstreamMethod::Post
    } else if crate::text::chars_eq(name, "PUT") {
        UpstreamMethod::Put
    } else if crate::text::chars_eq(name, "DELETE") {
        UpstreamMethod::Delete
    } else if crate::text::chars_eq(name, "HEAD") {
        UpstreamMethod::Head
    } else if crate::text::chars_eq(name, "OPTIONS") {
        UpstreamMethod::Options
    } else if crate::text::chars_eq(name, "PATCH") {
        UpstreamMethod::Patch
    } else {
        UpstreamMethod::Get
    }
}

/// The upstream URL for a path and query: appended to the base URL as it stands.
pub fn upstream_url(base: &str, path_and_query: &str) -> (r: String)
    ensures
        r@ == base@ + path_and_query@,
{
    let mut s = String::new();
    push_str(&mut s, base);
    push_str(&mut s, path_and_query);
    s
}

/// What goes upstream for a forwarded request.
pub struct UpstreamRequest {
    pub method: UpstreamMethod,
    pub url: String,
    pub headers: Vec<HeaderField>,
    /// Whether a body goes with it: only where the client sent a non-empty one.
    pub with_body: bool,
}

/// The request to send upstream for a client request with this method, path and query,
/// headers, and body length.
pub fn upstream_request(
    base: &str,
    method: &str,
    path_and_query: &str,
    headers: &[HeaderField],
    body_len: usize,
) -> (r: UpstreamRequest)
    ensures
        r.method == upstream_method_of(method@),
        r.url@ == base@ + path_and_query@,
        r.headers@ == forwarded(headers@),
        r.with_body == (body_len > 0),
{
    UpstreamRequest {
        method: upstream_method(method),
        url: upstream_url(base, path_and_query),
        headers: forward_headers(headers),
        with_body: body_len > 0,
    }
}

} // verus!
