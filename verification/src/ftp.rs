//! Anonymous-login check of FTP servers.

use vstd::prelude::*;
use vstd::utf8::{decode_utf8, valid_utf8};
use crate::features::{FeatureView, Features};
use crate::text::{contains, decimal, occurs_at, spec_contains, spec_endpoint, endpoint};
use crate::traits::{ProtocolOperation, ProtocolOperations, cow_into_string, utf8_lossy};

verus! {

/// The ports on which FTP servers are probed, in probing order.
pub open spec fn spec_ftp_ports() -> Seq<u16> {
    seq![20u16, 21u16]
}

/// The ports on which FTP servers are probed, in probing order.
pub fn ftp_ports() -> (ports: Vec<u16>)
    ensures
        ports@ == spec_ftp_ports(),
{
    let ports = vec![20u16, 21u16];
    assert(ports@ =~= spec_ftp_ports());
    ports
}

/// The bytes of `"USER anonymous\r\n"`.
pub open spec fn spec_ftp_request() -> Seq<u8> {
    seq![85u8, 83, 69, 82, 32, 97, 110, 111, 110, 121, 109, 111, 117, 115, 13, 10]
}

/// The login request sent to an FTP server: `"USER anonymous\r\n"`.
pub fn ftp_request() -> (request: Vec<u8>)
    ensures
        request@ == spec_ftp_request(),
{
    let request = vec![85u8, 83, 69, 82, 32, 97, 110, 111, 110, 121, 109, 111, 117, 115, 13, 10];
    assert(request@ =~= spec_ftp_request());
    request
}

/// The answer by which a server refuses anonymous logins.
pub open spec fn refusal_line() -> Seq<char> {
    "No anonymous login"@
}

/// What the FTP server at `target:port` is reported to allow, given the
/// text it answered the login request with.
pub open spec fn spec_status_auth(text: Seq<char>, target: Seq<char>, port: u16) -> Seq<char> {
    if spec_contains(text, refusal_line()) {
        "Authorization Rejected -> "@ + spec_endpoint(target, port)
    } else {
        "Authorization Accepted -> "@ + spec_endpoint(target, port)
    }
}

/// The feature reported for the FTP server at `target:port` that answered
/// `buffered_text`: rejected exactly when the answer holds
/// `"No anonymous login"`.
pub fn get_status_auth(buffered_text: &str, target: &str, port: u16) -> (feature: Features)
    ensures
        feature@ == FeatureView::FTPAuth(spec_status_auth(buffered_text@, target@, port)),
{
    let target_line = "No anonymous login";
    let place = endpoint(target, port);
    let mut status = if contains(buffered_text, target_line) {
        String::from_str("Authorization Rejected -> ")
    } else {
        String::from_str("Authorization Accepted -> ")
    };
    status.append(place.as_str());
    Features::FTPAuth(status)
}

/// The first `read` bytes of the answer as text, invalid UTF-8 replaced.
pub fn convert_text_to_string(not_converted_text: &[u8], read: usize) -> (text: String)
    requires
        read <= not_converted_text@.len(),
    ensures
        text@ == utf8_lossy(not_converted_text@.take(read as int)),
        valid_utf8(not_converted_text@.take(read as int)) ==> text@ == decode_utf8(
            not_converted_text@.take(read as int),
        ),
{
    let text = ProtocolOperation::get_converted_response_to_utf8(not_converted_text, read);
    cow_into_string(text)
}

/// The feature for an FTP answer of `reply` bytes from `target:port`.
pub open spec fn spec_ftp_feature(target: Seq<char>, port: u16, reply: Seq<u8>) -> FeatureView {
    FeatureView::FTPAuth(spec_status_auth(utf8_lossy(reply), target, port))
}

/// The feature for the FTP server at `target:port` that answered `reply`.
pub fn ftp_feature(target: &str, port: u16, reply: &[u8]) -> (feature: Features)
    ensures
        feature@ == spec_ftp_feature(target@, port, reply@),
{
    let text = convert_text_to_string(reply, reply.len());
    assert(reply@.take(reply@.len() as int) =~= reply@);
    get_status_auth(text.as_str(), target, port)
}

/// The login report searches the whole answer: it says "Rejected" exactly
/// when the eighteen characters "No anonymous login" stand somewhere in the
/// answer, on whatever line, and "Accepted" otherwise, followed by
/// `"{target}:{port}"`.
pub proof fn lemma_status_auth_searches_whole_reply(text: Seq<char>, target: Seq<char>, port: u16)
    ensures
        spec_status_auth(text, target, port) == if exists|i: int|
            0 <= i && i + 18 <= text.len() && #[trigger] text.subrange(i, i + 18)
                == "No anonymous login"@ {
            "Authorization Rejected -> "@ + target + ":"@ + decimal(port as nat)
        } else {
            "Authorization Accepted -> "@ + target + ":"@ + decimal(port as nat)
        },
{
    reveal_strlit("No anonymous login");
    let pat = refusal_line();
    assert(pat.len() == 18);
    if spec_contains(text, pat) {
        let i = choose|i: int| occurs_at(text, pat, i);
        assert(0 <= i && i + 18 <= text.len() && text.subrange(i, i + 18) == "No anonymous login"@);
    }
    if exists|i: int|
        0 <= i && i + 18 <= text.len() && #[trigger] text.subrange(i, i + 18)
            == "No anonymous login"@ {
        let i = choose|i: int|
            0 <= i && i + 18 <= text.len() && #[trigger] text.subrange(i, i + 18)
                == "No anonymous login"@;
        assert(occurs_at(text, pat, i));
    }
}

/// A refusal after other lines of the answer still rejects: whatever text
/// comes first, an answer whose later part holds "No anonymous login" gives
/// the same report as the later part alone, "Rejected".
pub proof fn lemma_refusal_on_a_later_line(first: Seq<char>, rest: Seq<char>, target: Seq<char>, port: u16)
    requires
        spec_contains(rest, refusal_line()),
    ensures
        spec_status_auth(first + rest, target, port) == "Authorization Rejected -> "@ + target
            + ":"@ + decimal(port as nat),
{
    let pat = refusal_line();
    let i = choose|i: int| occurs_at(rest, pat, i);
    let whole = first + rest;
    assert(whole.subrange(first.len() + i, first.len() + i + pat.len()) =~= rest.subrange(
        i,
        i + pat.len(),
    ));
    assert(occurs_at(whole, pat, first.len() + i));
}

} // verus!
