//! Version discovery of SSH servers.

use vstd::prelude::*;
use crate::features::{FeatureView, Features};
use crate::text::{first_line, lemma_first_line_characterized, spec_first_line};
use crate::traits::{ProtocolOperation, ProtocolOperations, cow_as_str, utf8_lossy};

verus! {

/// The port on which SSH servers are probed.
pub const SSH_PORT: u16 = 22;

/// The bytes of `"SSH-2.0\n"`.
pub open spec fn spec_ssh_request() -> Seq<u8> {
    seq![83u8, 83, 72, 45, 50, 46, 48, 10]
}

/// The greeting sent to an SSH server: `"SSH-2.0\n"`.
pub fn ssh_request() -> (request: Vec<u8>)
    ensures
        request@ == spec_ssh_request(),
{
    let request = vec![83u8, 83, 72, 45, 50, 46, 48, 10];
    assert(request@ =~= spec_ssh_request());
    request
}

/// The feature for an SSH server that answered `reply`: nothing for an
/// empty answer, otherwise the first line of the answer as its version.
pub open spec fn spec_ssh_version(reply: Seq<u8>) -> Option<FeatureView> {
    if reply.len() == 0 {
        None
    } else {
        match spec_first_line(utf8_lossy(reply)) {
            Some(line) => Some(FeatureView::SSHVersion(line)),
            None => None,
        }
    }
}

/// The version reported for an answer is the whole first line of the
/// decoded answer: reported exactly when the answer and its text are not
/// empty; a prefix of the text with no line feed, after which the text
/// ends (holding no line feed), or the line feed ending the line comes
/// (the version not ending in a carriage return), or a carriage return
/// directly followed by that line feed.
pub proof fn lemma_ssh_version_is_whole_first_line(reply: Seq<u8>)
    ensures
        spec_ssh_version(reply) is Some <==> (reply.len() > 0 && utf8_lossy(reply).len() > 0),
        spec_ssh_version(reply) matches Some(f) ==> f matches FeatureView::SSHVersion(l) && {
            let t = utf8_lossy(reply);
            &&& l.len() <= t.len()
            &&& l == t.take(l.len() as int)
            &&& forall|k: int| 0 <= k < l.len() ==> l[k] != '\n'
            &&& {
                ||| l.len() == t.len() && forall|k: int| 0 <= k < t.len() ==> t[k] != '\n'
                ||| l.len() < t.len() && t[l.len() as int] == '\n' && (l.len() == 0 || l.last()
                    != '\r')
                ||| l.len() + 1 < t.len() && t[l.len() as int] == '\r' && t[l.len() + 1int] == '\n'
            }
        },
{
    lemma_first_line_characterized(utf8_lossy(reply));
}

/// The version an SSH server announced in the first `read` bytes of
/// `buffer`: nothing when it sent nothing, otherwise the first line of its
/// answer.
pub fn ssh_version_from_response(buffer: &[u8], read: usize) -> (version: Option<Features>)
    requires
        read <= buffer@.len(),
    ensures
        match version {
            Some(f) => spec_ssh_version(buffer@.take(read as int)) == Some(f@),
            None => spec_ssh_version(buffer@.take(read as int)) is None,
        },
        read > 0 ==> version is Some,
{
    if read == 0 {
        return None;
    }
    let response_text = ProtocolOperation::get_converted_response_to_utf8(buffer, read);
    match first_line(cow_as_str(&response_text)) {
        Some(version) => Some(Features::SSHVersion(version)),
        None => None,
    }
}

} // verus!
