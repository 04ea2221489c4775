//! Server-version discovery of HTTP services.

use vstd::prelude::*;
use crate::custom_errors::{Errors, error_text, is_error_with_text};
use crate::features::{FeatureView, Features};
use crate::text::{decimal, endpoint, spec_endpoint};

verus! {

/// `b` may stand in an HTTP header value (visible ASCII, tab, or a byte
/// of 128 and above).
pub open spec fn is_header_byte(b: u8) -> bool {
    b >= 32 && b != 127 || b == 9
}

/// Every byte of `value` may stand in an HTTP header value.
pub open spec fn is_header_value(value: Seq<u8>) -> bool {
    forall|i: int| 0 <= i < value.len() ==> is_header_byte(#[trigger] value[i])
}

/// `b` is shown as itself by the header value's `{:?}`: visible ASCII or
/// a tab.
pub open spec fn is_visible_ascii(b: u8) -> bool {
    b >= 32 && b < 127 || b == 9
}

/// The lowercase hexadecimal digit for `d` (0 <= d < 16).
pub open spec fn hex_digit(d: int) -> char {
    if d < 10 {
        ((48 + d) as u32) as char
    } else {
        ((87 + d) as u32) as char
    }
}

/// `b` in lowercase hexadecimal without leading zeros, as `{:x}` writes it.
pub open spec fn lower_hex(b: u8) -> Seq<char> {
    if b < 16 {
        seq![hex_digit(b as int)]
    } else {
        seq![hex_digit((b / 16) as int), hex_digit((b % 16) as int)]
    }
}

/// How the header value's `{:?}` shows one byte: `"` as `\"`, visible
/// ASCII as itself, any other byte as `\x` and its hexadecimal value.
pub open spec fn escaped_byte(b: u8) -> Seq<char> {
    if b == 34 {
        seq!['\\', '"']
    } else if is_visible_ascii(b) {
        seq![(b as u32) as char]
    } else {
        seq!['\\', 'x'] + lower_hex(b)
    }
}

/// The bytes of a header value, each shown as `escaped_byte` shows it.
pub open spec fn escaped(value: Seq<u8>) -> Seq<char>
    decreases value.len(),
{
    if value.len() == 0 {
        seq![]
    } else {
        escaped(value.drop_last()) + escaped_byte(value.last())
    }
}

/// The text that `{:?}` gives for the header value made of `value`: the
/// escaped bytes between double quotes.
pub open spec fn header_debug_text(value: Seq<u8>) -> Seq<char> {
    seq!['"'] + escaped(value) + seq!['"']
}

/// Builds a `reqwest::header::HeaderValue` from the bytes with
/// `HeaderValue::from_bytes` and renders it with `{:?}`. Claimed: the text
/// is `header_debug_text` of the bytes, which is what http's `Debug` for a
/// non-sensitive value writes (`from_bytes` makes values that are not
/// sensitive). `from_bytes` accepts exactly the bytes that
/// `is_header_value` admits, so the other arm is not taken.
#[verifier::external_body]
fn header_value_debug(value: &[u8]) -> (text: String)
    requires
        is_header_value(value@),
    ensures
        text@ == header_debug_text(value@),
{
    match reqwest::header::HeaderValue::from_bytes(value) {
        Ok(header) => format!("{:?}", header),
        Err(_) => String::new(),
    }
}

/// The URL requested from `target:port`.
pub open spec fn spec_http_url(target: Seq<char>, port: u16) -> Seq<char> {
    "http://"@ + spec_endpoint(target, port)
}

/// Renders `"http://{target}:{port}"`.
pub fn http_url(target: &str, port: u16) -> (url: String)
    ensures
        url@ == spec_http_url(target@, port),
{
    let mut url = String::from_str("http://");
    let place = endpoint(target, port);
    url.append(place.as_str());
    url
}

/// The version text reported for `target:port` whose `Server` header is
/// `header`.
pub open spec fn spec_header_line(target: Seq<char>, port: u16, header: Seq<u8>) -> Seq<char> {
    spec_endpoint(target, port) + " -> version: "@ + header_debug_text(header)
}

/// Showing two pieces of a header value one after the other is showing
/// the whole value: every byte is shown, in order, whatever the length.
pub proof fn lemma_escaped_concat(a: Seq<u8>, b: Seq<u8>)
    ensures
        escaped(a + b) == escaped(a) + escaped(b),
    decreases b.len(),
{
    if b.len() == 0 {
        assert(a + b =~= a);
        assert(escaped(b) =~= Seq::<char>::empty());
        assert(escaped(a) + escaped(b) =~= escaped(a));
    } else {
        lemma_escaped_concat(a, b.drop_last());
        assert((a + b).drop_last() =~= a + b.drop_last());
        assert((a + b).last() == b.last());
        assert(escaped(a) + escaped(b) =~= escaped(a) + escaped(b.drop_last()) + escaped_byte(
            b.last(),
        ));
    }
}

/// The bytes of a header value of visible ASCII without double quotes are
/// shown as themselves.
proof fn lemma_escaped_plain(h: Seq<u8>)
    requires
        forall|i: int| 0 <= i < h.len() ==> 32 <= #[trigger] h[i] < 127 && h[i] != 34,
    ensures
        escaped(h) == h.map_values(|b: u8| (b as u32) as char),
    decreases h.len(),
{
    if h.len() == 0 {
        assert(h.map_values(|b: u8| (b as u32) as char) =~= Seq::<char>::empty());
    } else {
        let prev = h.drop_last();
        assert forall|i: int| 0 <= i < prev.len() implies 32 <= #[trigger] prev[i] < 127
            && prev[i] != 34 by {
            assert(prev[i] == h[i]);
        }
        lemma_escaped_plain(prev);
        assert(h[h.len() - 1] == h.last());
        assert(h.map_values(|b: u8| (b as u32) as char) =~= prev.map_values(
            |b: u8| (b as u32) as char,
        ).push((h.last() as u32) as char));
        assert(escaped_byte(h.last()) =~= seq![(h.last() as u32) as char]);
    }
}

/// Every byte of a header value is shown by at least one character.
proof fn lemma_escaped_length(h: Seq<u8>)
    ensures
        escaped(h).len() >= h.len(),
    decreases h.len(),
{
    if h.len() > 0 {
        lemma_escaped_length(h.drop_last());
    }
}

/// A header value of visible ASCII without double quotes is shown as
/// itself between double quotes, and any header value is shown with at
/// least one character per byte between the two quotes.
pub proof fn lemma_header_shown_whole(h: Seq<u8>)
    ensures
        (forall|i: int| 0 <= i < h.len() ==> 32 <= #[trigger] h[i] < 127 && h[i] != 34)
            ==> header_debug_text(h) == seq!['"'] + h.map_values(|b: u8| (b as u32) as char)
            + seq!['"'],
        header_debug_text(h).len() >= h.len() + 2,
        header_debug_text(h)[0] == '"',
        header_debug_text(h).last() == '"',
{
    lemma_escaped_length(h);
    if forall|i: int| 0 <= i < h.len() ==> 32 <= #[trigger] h[i] < 127 && h[i] != 34 {
        lemma_escaped_plain(h);
    }
}

/// The version text is `"{target}:{port} -> version: "` followed by the
/// header value shown whole.
pub proof fn lemma_header_line_shape(target: Seq<char>, port: u16, header: Seq<u8>)
    ensures
        spec_header_line(target, port, header) == target + ":"@ + decimal(port as nat)
            + " -> version: "@ + header_debug_text(header),
{
}

/// The version text for `target:port` when the response carried a
/// `Server` header; nothing when it did not.
pub fn get_header(server_header: Option<&[u8]>, target: &str, port: u16) -> (version: Option<
    String,
>)
    requires
        server_header matches Some(h) ==> is_header_value(h@),
    ensures
        match server_header {
            Some(h) => version matches Some(v) && v@ == spec_header_line(target@, port, h@),
            None => version is None,
        },
{
    match server_header {
        Some(header) => {
            let mut line = endpoint(target, port);
            line.append(" -> version: ");
            let shown = header_value_debug(header);
            line.append(shown.as_str());
            Some(line)
        },
        None => None,
    }
}

/// The feature for a response from `target:port` whose `Server` header is
/// `header`.
pub open spec fn spec_http_feature(target: Seq<char>, port: u16, header: Seq<u8>) -> FeatureView {
    FeatureView::HttpVersion(spec_header_line(target, port, header))
}

/// The feature for a response from `target:port` whose `Server` header is
/// `header`.
pub fn http_feature(target: &str, port: u16, header: &[u8]) -> (feature: Features)
    requires
        is_header_value(header@),
    ensures
        feature@ == spec_http_feature(target@, port, header@),
{
    match get_header(Some(header), target, port) {
        Some(version) => Features::HttpVersion(version),
        None => Features::HttpVersion(String::new()),
    }
}

/// The address of the proxy that HTTPS traffic goes through.
pub open spec fn proxy_address() -> Seq<char> {
    "116.203.207.197:8080"@
}

/// A proxy for HTTPS traffic.
#[verifier::external_type_specification]
#[verifier::external_body]
pub struct ExProxy(reqwest::Proxy);

/// Whether `reqwest::Proxy::https` accepts `address` as a proxy URL.
pub uninterp spec fn proxy_accepted(address: Seq<char>) -> bool;

/// The URL of the proxy that `reqwest::Proxy::https` makes of `address`.
pub uninterp spec fn proxy_url(address: Seq<char>) -> Seq<char>;

/// A proxy for HTTPS traffic together with the URL it was made for.
pub struct HttpsProxy {
    pub proxy: reqwest::Proxy,
    url: Ghost<Seq<char>>,
}

impl HttpsProxy {
    /// The URL the proxy was made for.
    pub closed spec fn url(self) -> Seq<char> {
        self.url@
    }
}

/// Calls `reqwest::Proxy::https` on the address. Claimed: whether it
/// succeeds is `proxy_accepted` of the address, and the proxy it makes is
/// the one for `proxy_url` of the address; both are functions of the
/// address alone (reqwest parses it as a URL, with `http://` put in front
/// when it has no scheme, and reads nothing else). Which addresses reqwest
/// accepts, and the URL it makes of them, are left unsaid.
#[verifier::external_body]
fn proxy_https(address: &str) -> (proxy: Result<HttpsProxy, reqwest::Error>)
    ensures
        proxy is Ok <==> proxy_accepted(address@),
        proxy matches Ok(p) ==> p.url() == proxy_url(address@),
{
    match reqwest::Proxy::https(address) {
        Ok(p) => Ok(HttpsProxy { proxy: p, url: Ghost(proxy_url(address@)) }),
        Err(e) => Err(e),
    }
}

/// Renders a `reqwest::Error` with `{}`. Nothing is claimed of the text.
#[verifier::external_body]
fn reqwest_error_text(e: &reqwest::Error) -> (text: String) {
    e.to_string()
}

/// The proxy that reqwest makes for HTTPS traffic at the fixed proxy
/// address; when reqwest refuses the address, an error whose text starts
/// with the context message.
pub fn create_proxy() -> (proxy: Result<HttpsProxy, Errors>)
    ensures
        proxy is Ok <==> proxy_accepted(proxy_address()),
        proxy matches Ok(p) ==> p.url() == proxy_url(proxy_address()),
        proxy matches Err(e) ==> exists|cause: Seq<char>|
            is_error_with_text(e, error_text("Ошибка создания прокси"@, cause)),
{
    let address = "116.203.207.197:8080";
    assert(address@ == proxy_address());
    match proxy_https(address) {
        Ok(p) => Ok(p),
        Err(e) => {
            let cause = reqwest_error_text(&e);
            let err = Errors::error("Ошибка создания прокси", cause.as_str());
            assert(is_error_with_text(err, error_text("Ошибка создания прокси"@, cause@)));
            Err(err)
        },
    }
}

} // verus!
