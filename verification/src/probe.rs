//! The service probes as state machines: the caller performs each action
//! (connect, write, read, HTTP request) and hands back what happened; the
//! session decides what to do next and which features the answers give.

use vstd::prelude::*;
use crate::features::{FeatureView, Features, features_view};
use crate::ftp::{ftp_feature, ftp_ports, ftp_request, spec_ftp_feature, spec_ftp_ports, spec_ftp_request};
use crate::http::{http_feature, http_url, is_header_value, spec_http_feature, spec_http_url};
use crate::ssh::{SSH_PORT, spec_ssh_request, spec_ssh_version, ssh_request, ssh_version_from_response};
use crate::text::{endpoint, spec_endpoint};

verus! {

/// How many bytes of an answer a probe reads.
pub const READ_CAPACITY: usize = 1024;

/// The service a probe session examines.
#[derive(Debug, Clone, Copy, PartialEq, Eq, Structural)]
pub enum Protocol {
    Http,
    Ftp,
    Ssh,
}

/// Where a probe session stands with the port it is examining.
#[derive(Debug, Clone, Copy, PartialEq, Eq, Structural)]
pub enum Stage {
    /// A TCP connection to the port is to be opened.
    Connecting,
    /// The request is to be written to the open connection.
    Writing,
    /// The answer is to be read from the connection.
    Reading,
    /// An HTTP GET request is to be sent to the port.
    Requesting,
    /// Every port has been examined.
    Done,
}

/// What the caller of a probe session is to do next.
#[derive(Debug)]
pub enum ProbeAction {
    /// Open a TCP connection to `endpoint` (with the probe timeout).
    Connect { endpoint: String },
    /// Write `request` to the open connection.
    Write { request: Vec<u8> },
    /// Read at most `capacity` bytes from the connection.
    Read { capacity: usize },
    /// Send an HTTP GET request to `url`.
    Get { url: String },
    /// Nothing is left to do.
    Finish,
}

/// What happened when the caller performed an action.
#[derive(Debug)]
pub enum ProbeEvent {
    Connected,
    ConnectFailed,
    Written,
    WriteFailed,
    /// The bytes that were read (possibly none).
    Received(Vec<u8>),
    ReceiveFailed,
    /// A response arrived, with the bytes of its `Server` header if it had one.
    Responded(Option<Vec<u8>>),
    RequestFailed,
}

/// The mathematical state of a probe session: what it examines, the
/// answers it has had so far (one per examined port; `None` where the port
/// gave no usable answer) and where it stands.
pub struct ProbeView {
    pub protocol: Protocol,
    pub target: Seq<char>,
    pub ports: Seq<u16>,
    pub replies: Seq<Option<Seq<u8>>>,
    pub stage: Stage,
}

/// The feature that an answer `reply` from `target:port` gives, if any.
pub open spec fn reply_feature(protocol: Protocol, target: Seq<char>, port: u16, reply: Seq<u8>) -> Option<FeatureView> {
    match protocol {
        Protocol::Ftp => Some(spec_ftp_feature(target, port, reply)),
        Protocol::Ssh => spec_ssh_version(reply),
        Protocol::Http => Some(spec_http_feature(target, port, reply)),
    }
}

/// The features that the answers `replies` from the first ports of
/// `ports` give, in port order.
pub open spec fn collected(
    protocol: Protocol,
    target: Seq<char>,
    ports: Seq<u16>,
    replies: Seq<Option<Seq<u8>>>,
) -> Seq<FeatureView>
    decreases replies.len(),
{
    if replies.len() == 0 {
        seq![]
    } else {
        let prev = collected(protocol, target, ports, replies.drop_last());
        match replies.last() {
            Some(r) => match reply_feature(protocol, target, ports[replies.len() - 1], r) {
                Some(f) => prev.push(f),
                None => prev,
            },
            None => prev,
        }
    }
}

/// The stage in which a session starts on each port.
pub open spec fn first_stage(protocol: Protocol) -> Stage {
    if protocol is Http {
        Stage::Requesting
    } else {
        Stage::Connecting
    }
}

/// The stage after `answered` of `total` ports have been examined.
pub open spec fn stage_after(protocol: Protocol, total: int, answered: int) -> Stage {
    if answered >= total {
        Stage::Done
    } else {
        first_stage(protocol)
    }
}

/// The request written to a server of the protocol.
pub open spec fn request_bytes(protocol: Protocol) -> Seq<u8> {
    match protocol {
        Protocol::Ftp => spec_ftp_request(),
        Protocol::Ssh => spec_ssh_request(),
        Protocol::Http => seq![],
    }
}

/// The bytes an optional buffer holds.
pub open spec fn bytes_view(o: Option<Vec<u8>>) -> Option<Seq<u8>> {
    match o {
        Some(b) => Some(b@),
        None => None,
    }
}

/// The state after the current port was examined with outcome `reply`.
pub open spec fn advance(v: ProbeView, reply: Option<Seq<u8>>) -> ProbeView {
    ProbeView {
        replies: v.replies.push(reply),
        stage: stage_after(v.protocol, v.ports.len() as int, v.replies.len() + 1 as int),
        ..v
    }
}

/// The events that can follow the action of the current stage.
pub open spec fn admissible(v: ProbeView, e: ProbeEvent) -> bool {
    match v.stage {
        Stage::Connecting => e is Connected || e is ConnectFailed,
        Stage::Writing => e is Written || e is WriteFailed,
        Stage::Reading => e is Received || e is ReceiveFailed,
        Stage::Requesting => e is RequestFailed || (e matches ProbeEvent::Responded(h) && (h matches Some(b) ==> is_header_value(b@))),
        Stage::Done => false,
    }
}

/// The state after event `e`: a failed connection or read ends the port
/// without an answer, a failed write is ignored, and a read or response
/// ends the port with what it brought.
pub open spec fn next_view(v: ProbeView, e: ProbeEvent) -> ProbeView {
    match e {
        ProbeEvent::Connected => ProbeView { stage: Stage::Writing, ..v },
        ProbeEvent::ConnectFailed => advance(v, None),
        ProbeEvent::Written => ProbeView { stage: Stage::Reading, ..v },
        ProbeEvent::WriteFailed => ProbeView { stage: Stage::Reading, ..v },
        ProbeEvent::Received(b) => advance(v, Some(b@)),
        ProbeEvent::ReceiveFailed => advance(v, None),
        ProbeEvent::Responded(h) => advance(v, bytes_view(h)),
        ProbeEvent::RequestFailed => advance(v, None),
    }
}

/// `a` is the action that the state `v` calls for.
pub open spec fn is_action_for(v: ProbeView, a: ProbeAction) -> bool {
    match a {
        ProbeAction::Connect { endpoint } => v.stage is Connecting && endpoint@ == spec_endpoint(
            v.target,
            v.ports[v.replies.len() as int],
        ),
        ProbeAction::Write { request } => v.stage is Writing && request@ == request_bytes(
            v.protocol,
        ),
        ProbeAction::Read { capacity } => v.stage is Reading && capacity == READ_CAPACITY,
        ProbeAction::Get { url } => v.stage is Requesting && url@ == spec_http_url(
            v.target,
            v.ports[v.replies.len() as int],
        ),
        ProbeAction::Finish => v.stage is Done,
    }
}

/// How many more events the session can take at most.
pub open spec fn remaining_steps(v: ProbeView) -> int {
    let left = v.ports.len() - v.replies.len();
    match v.stage {
        Stage::Done => 0,
        Stage::Requesting => left,
        Stage::Connecting => 3 * left,
        Stage::Writing => 3 * left - 1,
        Stage::Reading => 3 * left - 2,
    }
}

/// How many of the examined ports gave an answer.
pub open spec fn answered(replies: Seq<Option<Seq<u8>>>) -> nat
    decreases replies.len(),
{
    if replies.len() == 0 {
        0
    } else {
        answered(replies.drop_last()) + if replies.last() is Some {
            1nat
        } else {
            0nat
        }
    }
}

/// A session reports at most one feature per answering port; the FTP and
/// HTTP probes report exactly one for each answering port.
pub proof fn lemma_one_feature_per_answer(
    protocol: Protocol,
    target: Seq<char>,
    ports: Seq<u16>,
    replies: Seq<Option<Seq<u8>>>,
)
    requires
        replies.len() <= ports.len(),
    ensures
        collected(protocol, target, ports, replies).len() <= answered(replies),
        answered(replies) <= replies.len(),
        !(protocol is Ssh) ==> collected(protocol, target, ports, replies).len() == answered(
            replies,
        ),
    decreases replies.len(),
{
    if replies.len() > 0 {
        lemma_one_feature_per_answer(protocol, target, ports, replies.drop_last());
    }
}

/// The SSH probe reports at most one version.
pub proof fn lemma_ssh_reports_at_most_one(target: Seq<char>, replies: Seq<Option<Seq<u8>>>)
    requires
        replies.len() <= 1,
    ensures
        collected(Protocol::Ssh, target, seq![SSH_PORT], replies).len() <= 1,
{
    lemma_one_feature_per_answer(Protocol::Ssh, target, seq![SSH_PORT], replies);
}

/// A session with steps left is not done, and a done session has none.
pub proof fn lemma_done_iff_no_steps_left(v: ProbeView)
    requires
        v.replies.len() <= v.ports.len(),
        v.stage is Done <==> v.replies.len() == v.ports.len(),
    ensures
        (remaining_steps(v) == 0) <==> v.stage is Done,
        remaining_steps(v) >= 0,
{
}

/// What happened on one port of a TCP probe (FTP or SSH).
pub enum PortOutcome {
    /// The connection could not be opened.
    Unreachable,
    /// The connection opened, the request was written (or writing failed),
    /// and `reply` was read.
    Answered { written: bool, reply: Vec<u8> },
    /// The connection opened, the request was written (or writing failed),
    /// and reading failed.
    Unread { written: bool },
}

/// The events the caller hands a TCP probe for one port with outcome `o`.
pub open spec fn port_events(o: PortOutcome) -> Seq<ProbeEvent> {
    match o {
        PortOutcome::Unreachable => seq![ProbeEvent::ConnectFailed],
        PortOutcome::Answered { written, reply } => seq![
            ProbeEvent::Connected,
            if written {
                ProbeEvent::Written
            } else {
                ProbeEvent::WriteFailed
            },
            ProbeEvent::Received(reply),
        ],
        PortOutcome::Unread { written } => seq![
            ProbeEvent::Connected,
            if written {
                ProbeEvent::Written
            } else {
                ProbeEvent::WriteFailed
            },
            ProbeEvent::ReceiveFailed,
        ],
    }
}

/// The events for the ports with outcomes `os`, port after port.
pub open spec fn trace(os: Seq<PortOutcome>) -> Seq<ProbeEvent>
    decreases os.len(),
{
    if os.len() == 0 {
        seq![]
    } else {
        trace(os.drop_last()) + port_events(os.last())
    }
}

/// The answer a port with outcome `o` gave, if any.
pub open spec fn outcome_reply(o: PortOutcome) -> Option<Seq<u8>> {
    match o {
        PortOutcome::Answered { reply, .. } => Some(reply@),
        _ => None,
    }
}

/// The answers the ports with outcomes `os` gave.
pub open spec fn outcome_replies(os: Seq<PortOutcome>) -> Seq<Option<Seq<u8>>> {
    os.map_values(|o: PortOutcome| outcome_reply(o))
}

/// The state after the events `es`, taken in order.
pub open spec fn run(v: ProbeView, es: Seq<ProbeEvent>) -> ProbeView
    decreases es.len(),
{
    if es.len() == 0 {
        v
    } else {
        run(next_view(v, es[0]), es.drop_first())
    }
}

/// Each of the events `es` can follow the state it is handed to.
pub open spec fn runs_admissibly(v: ProbeView, es: Seq<ProbeEvent>) -> bool
    decreases es.len(),
{
    if es.len() == 0 {
        true
    } else {
        admissible(v, es[0]) && runs_admissibly(next_view(v, es[0]), es.drop_first())
    }
}

/// The state in which a session on `ports` of `target` starts.
pub open spec fn start_view(protocol: Protocol, target: Seq<char>, ports: Seq<u16>) -> ProbeView {
    ProbeView {
        protocol,
        target,
        ports,
        replies: seq![],
        stage: stage_after(protocol, ports.len() as int, 0),
    }
}

/// The progress of a state agrees with its stage.
pub open spec fn consistent(v: ProbeView) -> bool {
    &&& v.replies.len() <= v.ports.len()
    &&& (v.stage is Done <==> v.replies.len() == v.ports.len())
}

/// Running `a` then `b` is running `a + b`.
pub proof fn lemma_run_append(v: ProbeView, a: Seq<ProbeEvent>, b: Seq<ProbeEvent>)
    ensures
        run(v, a + b) == run(run(v, a), b),
        runs_admissibly(v, a + b) == (runs_admissibly(v, a) && runs_admissibly(run(v, a), b)),
    decreases a.len(),
{
    if a.len() == 0 {
        assert(a + b =~= b);
    } else {
        assert((a + b)[0] == a[0]);
        assert((a + b).drop_first() =~= a.drop_first() + b);
        lemma_run_append(next_view(v, a[0]), a.drop_first(), b);
    }
}

/// An admissible event keeps the host, the ports and the consistency of
/// the state.
pub proof fn lemma_next_view_keeps(v: ProbeView, e: ProbeEvent)
    requires
        consistent(v),
        admissible(v, e),
    ensures
        consistent(next_view(v, e)),
        next_view(v, e).protocol == v.protocol,
        next_view(v, e).target == v.target,
        next_view(v, e).ports == v.ports,
        next_view(v, e).replies.len() >= v.replies.len(),
{
}

/// Every state on the way of an admissible run keeps the host and ports of
/// the first, and stays consistent.
pub proof fn lemma_run_prefixes(v: ProbeView, es: Seq<ProbeEvent>)
    requires
        consistent(v),
        runs_admissibly(v, es),
    ensures
        forall|k: int|
            0 <= k <= es.len() ==> {
                let w = #[trigger] run(v, es.take(k));
                &&& consistent(w)
                &&& w.protocol == v.protocol
                &&& w.target == v.target
                &&& w.ports == v.ports
            },
    decreases es.len(),
{
    if es.len() > 0 {
        let e = es[0];
        let rest = es.drop_first();
        lemma_next_view_keeps(v, e);
        lemma_run_prefixes(next_view(v, e), rest);
        assert forall|k: int| 0 <= k <= es.len() implies {
            let w = #[trigger] run(v, es.take(k));
            &&& consistent(w)
            &&& w.protocol == v.protocol
            &&& w.target == v.target
            &&& w.ports == v.ports
        } by {
            if k == 0 {
                assert(es.take(0) =~= Seq::<ProbeEvent>::empty());
            } else {
                assert(es.take(k)[0] == e);
                assert(es.take(k).drop_first() =~= rest.take(k - 1));
                assert(run(v, es.take(k)) == run(next_view(v, e), rest.take(k - 1)));
            }
        }
    }
}

/// In a consistent state, a connection is only ever asked for to the port
/// being examined.
pub proof fn lemma_connect_goes_to_current_port(v: ProbeView, a: ProbeAction)
    requires
        consistent(v),
        is_action_for(v, a),
        a is Connect,
    ensures
        v.replies.len() < v.ports.len(),
        a->endpoint@ == spec_endpoint(v.target, v.ports[v.replies.len() as int]),
{
}

/// The events of one port take a TCP probe from the start of that port to
/// the next one, recording the port's answer.
pub proof fn lemma_port_events(v: ProbeView, o: PortOutcome)
    requires
        !(v.protocol is Http),
        v.stage is Connecting,
    ensures
        runs_admissibly(v, port_events(o)),
        run(v, port_events(o)) == advance(v, outcome_reply(o)),
{
    reveal_with_fuel(run, 4);
    reveal_with_fuel(runs_admissibly, 4);
    let es = port_events(o);
    match o {
        PortOutcome::Unreachable => {
            assert(es.drop_first() =~= Seq::<ProbeEvent>::empty());
        },
        PortOutcome::Answered { written, reply } => {
            let w = next_view(v, es[0]);
            let x = next_view(w, es[1]);
            assert(es.drop_first()[0] == es[1]);
            assert(es.drop_first().drop_first()[0] == es[2]);
            assert(es.drop_first().drop_first().drop_first() =~= Seq::<ProbeEvent>::empty());
            assert(x == ProbeView { stage: Stage::Reading, ..v });
        },
        PortOutcome::Unread { written } => {
            let w = next_view(v, es[0]);
            let x = next_view(w, es[1]);
            assert(es.drop_first()[0] == es[1]);
            assert(es.drop_first().drop_first()[0] == es[2]);
            assert(es.drop_first().drop_first().drop_first() =~= Seq::<ProbeEvent>::empty());
            assert(x == ProbeView { stage: Stage::Reading, ..v });
        },
    }
}

/// A TCP probe handed the events of ports with outcomes `os` takes every
/// event, examines those ports in order, and records their answers.
pub proof fn lemma_tcp_run(protocol: Protocol, target: Seq<char>, ports: Seq<u16>, os: Seq<PortOutcome>)
    requires
        !(protocol is Http),
        os.len() <= ports.len(),
    ensures
        runs_admissibly(start_view(protocol, target, ports), trace(os)),
        run(start_view(protocol, target, ports), trace(os)) == (ProbeView {
            protocol,
            target,
            ports,
            replies: outcome_replies(os),
            stage: stage_after(protocol, ports.len() as int, os.len() as int),
        }),
    decreases os.len(),
{
    let v0 = start_view(protocol, target, ports);
    if os.len() == 0 {
        assert(outcome_replies(os) =~= Seq::<Option<Seq<u8>>>::empty());
    } else {
        let prev = os.drop_last();
        lemma_tcp_run(protocol, target, ports, prev);
        let mid = run(v0, trace(prev));
        lemma_run_append(v0, trace(prev), port_events(os.last()));
        lemma_port_events(mid, os.last());
        assert(outcome_replies(prev).push(outcome_reply(os.last())) =~= outcome_replies(os));
    }
}

/// The features of an FTP probe of `target` whose ports had outcomes `os`:
/// one login report for each port that answered, in port order.
pub open spec fn ftp_answers(target: Seq<char>, os: Seq<PortOutcome>) -> Seq<FeatureView>
    decreases os.len(),
{
    if os.len() == 0 {
        seq![]
    } else {
        let prev = ftp_answers(target, os.drop_last());
        match os.last() {
            PortOutcome::Answered { reply, .. } => prev.push(
                spec_ftp_feature(target, spec_ftp_ports()[os.len() - 1], reply@),
            ),
            _ => prev,
        }
    }
}

proof fn lemma_ftp_answers(target: Seq<char>, os: Seq<PortOutcome>)
    requires
        os.len() <= 2,
    ensures
        collected(Protocol::Ftp, target, spec_ftp_ports(), outcome_replies(os)) == ftp_answers(
            target,
            os,
        ),
        ftp_answers(target, os).len() <= os.len(),
    decreases os.len(),
{
    if os.len() > 0 {
        lemma_ftp_answers(target, os.drop_last());
        assert(outcome_replies(os).drop_last() =~= outcome_replies(os.drop_last()));
        assert(outcome_replies(os).last() == outcome_reply(os.last()));
    }
}

/// The FTP probe of `target`: handed the events of its two ports with
/// outcomes `os`, it takes every event, tries port 20 and then port 21, and
/// ends with one login report for each port that answered, in port order.
pub proof fn lemma_ftp_session(target: Seq<char>, os: Seq<PortOutcome>)
    requires
        os.len() == 2,
    ensures
        runs_admissibly(start_view(Protocol::Ftp, target, spec_ftp_ports()), trace(os)),
        ({
            let v = run(start_view(Protocol::Ftp, target, spec_ftp_ports()), trace(os));
            &&& v.stage is Done
            &&& v.ports == spec_ftp_ports()
            &&& v.replies == outcome_replies(os)
            &&& collected(v.protocol, v.target, v.ports, v.replies) == ftp_answers(target, os)
        }),
        ftp_answers(target, os).len() <= 2,
{
    lemma_tcp_run(Protocol::Ftp, target, spec_ftp_ports(), os);
    lemma_ftp_answers(target, os);
}

/// What the SSH probe reports for a port with outcome `o`: the version the
/// answer gave, if it gave one, and nothing otherwise.
pub open spec fn ssh_answer(o: PortOutcome) -> Seq<FeatureView> {
    match o {
        PortOutcome::Answered { reply, .. } => match spec_ssh_version(reply@) {
            Some(f) => seq![f],
            None => seq![],
        },
        _ => seq![],
    }
}

/// The SSH probe of `target`: handed the events of its port with outcome
/// `o`, it takes every event, only ever asks for a connection to port 22,
/// and ends reporting the version the greeting gave if it gave one, and
/// nothing otherwise: at most one entry.
pub proof fn lemma_ssh_session(target: Seq<char>, o: PortOutcome)
    ensures
        runs_admissibly(start_view(Protocol::Ssh, target, seq![SSH_PORT]), port_events(o)),
        ({
            let v = run(start_view(Protocol::Ssh, target, seq![SSH_PORT]), port_events(o));
            &&& v.stage is Done
            &&& collected(v.protocol, v.target, v.ports, v.replies) == ssh_answer(o)
        }),
        ssh_answer(o).len() <= 1,
        forall|k: int, a: ProbeAction|
            0 <= k <= port_events(o).len() && #[trigger] is_action_for(
                run(start_view(Protocol::Ssh, target, seq![SSH_PORT]), port_events(o).take(k)),
                a,
            ) && a is Connect ==> a->endpoint@ == spec_endpoint(target, SSH_PORT),
{
    let v0 = start_view(Protocol::Ssh, target, seq![SSH_PORT]);
    let os = seq![o];
    assert(os.drop_last() =~= Seq::<PortOutcome>::empty());
    assert(os.last() == o);
    assert(trace(os.drop_last()) == Seq::<ProbeEvent>::empty());
    assert(trace(os) =~= port_events(o));
    lemma_tcp_run(Protocol::Ssh, target, seq![SSH_PORT], os);
    let replies = outcome_replies(os);
    assert(replies.drop_last() =~= Seq::<Option<Seq<u8>>>::empty());
    assert(replies.last() == outcome_reply(o));
    assert(collected(Protocol::Ssh, target, seq![SSH_PORT], replies.drop_last()) == Seq::<
        FeatureView,
    >::empty());
    assert(collected(Protocol::Ssh, target, seq![SSH_PORT], replies) =~= ssh_answer(o));
    lemma_run_prefixes(v0, port_events(o));
    assert forall|k: int, a: ProbeAction|
        0 <= k <= port_events(o).len() && #[trigger] is_action_for(
            run(v0, port_events(o).take(k)),
            a,
        ) && a is Connect implies a->endpoint@ == spec_endpoint(target, SSH_PORT) by {
        let w = run(v0, port_events(o).take(k));
        lemma_connect_goes_to_current_port(w, a);
    }
}

/// What happened to the HTTP request sent to one port.
pub enum HttpOutcome {
    /// The request failed.
    Failed,
    /// A response arrived, with the bytes of its `Server` header if it had
    /// one.
    Responded(Option<Vec<u8>>),
}

/// The event the caller hands the HTTP probe for a request with outcome `o`.
pub open spec fn http_event(o: HttpOutcome) -> ProbeEvent {
    match o {
        HttpOutcome::Failed => ProbeEvent::RequestFailed,
        HttpOutcome::Responded(h) => ProbeEvent::Responded(h),
    }
}

/// The events for the requests with outcomes `os`, port after port.
pub open spec fn http_trace(os: Seq<HttpOutcome>) -> Seq<ProbeEvent>
    decreases os.len(),
{
    if os.len() == 0 {
        seq![]
    } else {
        http_trace(os.drop_last()).push(http_event(os.last()))
    }
}

/// The `Server` header a request with outcome `o` brought back, if any.
pub open spec fn http_reply(o: HttpOutcome) -> Option<Seq<u8>> {
    match o {
        HttpOutcome::Responded(Some(h)) => Some(h@),
        _ => None,
    }
}

/// The `Server` headers the requests with outcomes `os` brought back.
pub open spec fn http_replies(os: Seq<HttpOutcome>) -> Seq<Option<Seq<u8>>> {
    os.map_values(|o: HttpOutcome| http_reply(o))
}

/// Every `Server` header among the outcomes is a valid header value.
pub open spec fn http_headers_valid(os: Seq<HttpOutcome>) -> bool {
    forall|i: int|
        0 <= i < os.len() ==> (#[trigger] os[i] matches HttpOutcome::Responded(Some(h))
            ==> is_header_value(h@))
}

/// The features of an HTTP probe of `target` on `ports` whose requests had
/// outcomes `os`: one version for each port whose response carried a
/// `Server` header, in list order.
pub open spec fn http_answers(target: Seq<char>, ports: Seq<u16>, os: Seq<HttpOutcome>) -> Seq<
    FeatureView,
>
    decreases os.len(),
{
    if os.len() == 0 {
        seq![]
    } else {
        let prev = http_answers(target, ports, os.drop_last());
        match os.last() {
            HttpOutcome::Responded(Some(h)) => prev.push(
                spec_http_feature(target, ports[os.len() - 1], h@),
            ),
            _ => prev,
        }
    }
}

proof fn lemma_http_run(target: Seq<char>, ports: Seq<u16>, os: Seq<HttpOutcome>)
    requires
        os.len() <= ports.len(),
        http_headers_valid(os),
    ensures
        runs_admissibly(start_view(Protocol::Http, target, ports), http_trace(os)),
        run(start_view(Protocol::Http, target, ports), http_trace(os)) == (ProbeView {
            protocol: Protocol::Http,
            target,
            ports,
            replies: http_replies(os),
            stage: stage_after(Protocol::Http, ports.len() as int, os.len() as int),
        }),
        collected(Protocol::Http, target, ports, http_replies(os)) == http_answers(
            target,
            ports,
            os,
        ),
    decreases os.len(),
{
    let v0 = start_view(Protocol::Http, target, ports);
    if os.len() == 0 {
        assert(http_replies(os) =~= Seq::<Option<Seq<u8>>>::empty());
    } else {
        let prev = os.drop_last();
        let o = os.last();
        assert(http_headers_valid(prev)) by {
            assert forall|i: int| 0 <= i < prev.len() implies (#[trigger] prev[i] matches HttpOutcome::Responded(Some(h))
                ==> is_header_value(h@)) by {
                assert(prev[i] == os[i]);
            }
        }
        assert(os[os.len() - 1] == o);
        lemma_http_run(target, ports, prev);
        let mid = run(v0, http_trace(prev));
        let e = http_event(o);
        lemma_run_append(v0, http_trace(prev), seq![e]);
        assert(http_trace(prev) + seq![e] =~= http_trace(os));
        reveal_with_fuel(run, 2);
        reveal_with_fuel(runs_admissibly, 2);
        assert(seq![e].drop_first() =~= Seq::<ProbeEvent>::empty());
        assert(http_replies(prev).push(http_reply(o)) =~= http_replies(os));
        assert(http_replies(os).drop_last() =~= http_replies(prev));
        assert(http_replies(os).last() == http_reply(o));
    }
}

/// The HTTP probe of `target` on `ports`: handed the outcome of the request
/// to each port, it takes every event, requests the ports in list order,
/// and ends with one version for each port whose response carried a
/// `Server` header, in list order.
pub proof fn lemma_http_session(target: Seq<char>, ports: Seq<u16>, os: Seq<HttpOutcome>)
    requires
        os.len() == ports.len(),
        http_headers_valid(os),
    ensures
        runs_admissibly(start_view(Protocol::Http, target, ports), http_trace(os)),
        ({
            let v = run(start_view(Protocol::Http, target, ports), http_trace(os));
            &&& v.stage is Done
            &&& v.ports == ports
            &&& v.replies == http_replies(os)
            &&& collected(v.protocol, v.target, v.ports, v.replies) == http_answers(
                target,
                ports,
                os,
            )
        }),
        http_answers(target, ports, os).len() <= os.len(),
{
    lemma_http_run(target, ports, os);
    lemma_one_feature_per_answer(Protocol::Http, target, ports, http_replies(os));
}

/// A probe of one protocol on a list of ports of one host.
pub struct ProbeSession {
    protocol: Protocol,
    target: String,
    ports: Vec<u16>,
    next: usize,
    stage: Stage,
    features: Vec<Features>,
    replies: Ghost<Seq<Option<Seq<u8>>>>,
}

impl View for ProbeSession {
    type V = ProbeView;

    closed spec fn view(&self) -> ProbeView {
        ProbeView {
            protocol: self.protocol,
            target: self.target@,
            ports: self.ports@,
            replies: self.replies@,
            stage: self.stage,
        }
    }
}

impl ProbeSession {
    /// The session's invariant: one answer per examined port, a stage that
    /// fits the protocol and the progress, and the features collected from
    /// the answers so far.
    pub closed spec fn wf(&self) -> bool {
        &&& self.next == self.replies@.len()
        &&& self.next <= self.ports@.len()
        &&& (self.stage is Done <==> self.next == self.ports@.len())
        &&& if self.protocol is Http {
            self.stage is Requesting || self.stage is Done
        } else {
            !(self.stage is Requesting)
        }
        &&& features_view(self.features@) == collected(
            self.protocol,
            self.target@,
            self.ports@,
            self.replies@,
        )
    }

    fn new(protocol: Protocol, target: &str, ports: Vec<u16>) -> (session: Self)
        ensures
            session.wf(),
            session@ == (ProbeView {
                protocol,
                target: target@,
                ports: ports@,
                replies: seq![],
                stage: stage_after(protocol, ports@.len() as int, 0),
            }),
    {
        let stage = if ports.len() == 0 {
            Stage::Done
        } else if protocol == Protocol::Http {
            Stage::Requesting
        } else {
            Stage::Connecting
        };
        let session = ProbeSession {
            protocol,
            target: String::from_str(target),
            ports,
            next: 0,
            stage,
            features: Vec::new(),
            replies: Ghost(Seq::empty()),
        };
        assert(features_view(session.features@) =~= seq![]);
        session
    }

    /// The anonymous-login check of the FTP ports of `target`.
    pub fn ftp(target: &str) -> (session: Self)
        ensures
            session.wf(),
            session@ == (ProbeView {
                protocol: Protocol::Ftp,
                target: target@,
                ports: spec_ftp_ports(),
                replies: seq![],
                stage: Stage::Connecting,
            }),
    {
        Self::new(Protocol::Ftp, target, ftp_ports())
    }

    /// The version discovery of the SSH port of `target`.
    pub fn ssh(target: &str) -> (session: Self)
        ensures
            session.wf(),
            session@ == (ProbeView {
                protocol: Protocol::Ssh,
                target: target@,
                ports: seq![SSH_PORT],
                replies: seq![],
                stage: Stage::Connecting,
            }),
    {
        let ports = vec![SSH_PORT];
        assert(ports@ =~= seq![SSH_PORT]);
        Self::new(Protocol::Ssh, target, ports)
    }

    /// The server-version discovery on the ports `port_list` of `target`,
    /// in list order.
    pub fn http(target: &str, port_list: &Vec<u16>) -> (session: Self)
        ensures
            session.wf(),
            session@ == (ProbeView {
                protocol: Protocol::Http,
                target: target@,
                ports: port_list@,
                replies: seq![],
                stage: stage_after(Protocol::Http, port_list@.len() as int, 0),
            }),
    {
        let mut ports: Vec<u16> = Vec::new();
        let n = port_list.len();
        let mut i: usize = 0;
        while i < n
            invariant
                n == port_list@.len(),
                i <= n,
                ports@ == port_list@.take(i as int),
            decreases n - i,
        {
            ports.push(port_list[i]);
            i = i + 1;
            assert(ports@ =~= port_list@.take(i as int));
        }
        assert(port_list@.take(n as int) =~= port_list@);
        Self::new(Protocol::Http, target, ports)
    }

    /// Whether every port has been examined.
    pub fn is_done(&self) -> (done: bool)
        ensures
            done == (self@.stage is Done),
    {
        self.stage == Stage::Done
    }

    /// Whether `event` can follow the action of the current stage.
    pub fn accepts(&self, event: &ProbeEvent) -> (ok: bool)
        ensures
            ok == admissible(self@, *event),
    {
        match self.stage {
            Stage::Connecting => match event {
                ProbeEvent::Connected | ProbeEvent::ConnectFailed => true,
                _ => false,
            },
            Stage::Writing => match event {
                ProbeEvent::Written | ProbeEvent::WriteFailed => true,
                _ => false,
            },
            Stage::Reading => match event {
                ProbeEvent::Received(_) | ProbeEvent::ReceiveFailed => true,
                _ => false,
            },
            Stage::Requesting => match event {
                ProbeEvent::RequestFailed => true,
                ProbeEvent::Responded(None) => true,
                ProbeEvent::Responded(Some(b)) => header_bytes_valid(b),
                _ => false,
            },
            Stage::Done => false,
        }
    }

    /// The action that the current stage calls for.
    pub fn next_action(&self) -> (action: ProbeAction)
        requires
            self.wf(),
        ensures
            is_action_for(self@, action),
    {
        match self.stage {
            Stage::Connecting => ProbeAction::Connect {
                endpoint: endpoint(self.target.as_str(), self.ports[self.next]),
            },
            Stage::Writing => {
                let request = if self.protocol == Protocol::Ftp {
                    ftp_request()
                } else {
                    ssh_request()
                };
                ProbeAction::Write { request }
            },
            Stage::Reading => ProbeAction::Read { capacity: READ_CAPACITY },
            Stage::Requesting => ProbeAction::Get {
                url: http_url(self.target.as_str(), self.ports[self.next]),
            },
            Stage::Done => ProbeAction::Finish,
        }
    }

    fn feature_for(&self, port: u16, reply: &Vec<u8>) -> (feature: Option<Features>)
        requires
            self.protocol is Http ==> is_header_value(reply@),
        ensures
            match feature {
                Some(f) => reply_feature(self.protocol, self.target@, port, reply@) == Some(f@),
                None => reply_feature(self.protocol, self.target@, port, reply@) is None,
            },
    {
        match self.protocol {
            Protocol::Ftp => Some(ftp_feature(self.target.as_str(), port, reply.as_slice())),
            Protocol::Ssh => {
                assert(reply@.take(reply@.len() as int) =~= reply@);
                ssh_version_from_response(reply.as_slice(), reply.len())
            },
            Protocol::Http => Some(http_feature(self.target.as_str(), port, reply.as_slice())),
        }
    }

    /// Ends the examination of the current port with outcome `reply`.
    fn finish_port(&mut self, reply: Option<Vec<u8>>)
        requires
            old(self).wf(),
            !(old(self)@.stage is Done),
            old(self).protocol is Http ==> (reply matches Some(b) ==> is_header_value(b@)),
        ensures
            final(self).wf(),
            final(self)@ == advance(old(self)@, bytes_view(reply)),
    {
        let total = self.ports.len();
        let port = self.ports[self.next];
        let ghost old_features = self.features@;
        let ghost new_replies = self.replies@.push(bytes_view(reply));
        match reply {
            Some(bytes) => {
                let found = self.feature_for(port, &bytes);
                match found {
                    Some(f) => {
                        self.features.push(f);
                        assert(features_view(self.features@) =~= features_view(old_features).push(
                            f@,
                        ));
                    },
                    None => {},
                }
            },
            None => {},
        }
        self.replies = Ghost(new_replies);
        assert(new_replies.drop_last() =~= old(self).replies@);
        self.next = self.next + 1;
        self.stage = if self.next == self.ports.len() {
            Stage::Done
        } else if self.protocol == Protocol::Http {
            Stage::Requesting
        } else {
            Stage::Connecting
        };
    }

    /// Takes what happened when the current action was performed and gives
    /// the next action.
    pub fn step(&mut self, event: ProbeEvent) -> (action: ProbeAction)
        requires
            old(self).wf(),
            admissible(old(self)@, event),
        ensures
            final(self).wf(),
            final(self)@ == next_view(old(self)@, event),
            is_action_for(final(self)@, action),
            0 <= remaining_steps(final(self)@) < remaining_steps(old(self)@),
    {
        match event {
            ProbeEvent::Connected => {
                self.stage = Stage::Writing;
            },
            ProbeEvent::ConnectFailed => {
                self.finish_port(None);
            },
            ProbeEvent::Written => {
                self.stage = Stage::Reading;
            },
            ProbeEvent::WriteFailed => {
                self.stage = Stage::Reading;
            },
            ProbeEvent::Received(bytes) => {
                self.finish_port(Some(bytes));
            },
            ProbeEvent::ReceiveFailed => {
                self.finish_port(None);
            },
            ProbeEvent::Responded(header) => {
                self.finish_port(header);
            },
            ProbeEvent::RequestFailed => {
                self.finish_port(None);
            },
        }
        self.next_action()
    }

    /// The features the answers have given so far, in port order; all of
    /// them once the session is done.
    pub fn into_features(self) -> (features: Vec<Features>)
        requires
            self.wf(),
        ensures
            features_view(features@) == collected(
                self@.protocol,
                self@.target,
                self@.ports,
                self@.replies,
            ),
    {
        self.features
    }
}

/// Whether every byte may stand in an HTTP header value.
pub fn header_bytes_valid(bytes: &Vec<u8>) -> (ok: bool)
    ensures
        ok == is_header_value(bytes@),
{
    let n = bytes.len();
    let mut i: usize = 0;
    while i < n
        invariant
            n == bytes@.len(),
            i <= n,
            forall|j: int| 0 <= j < i ==> crate::http::is_header_byte(#[trigger] bytes@[j]),
        decreases n - i,
    {
        let b = bytes[i];
        if !(b >= 32 && b != 127 || b == 9) {
            assert(!crate::http::is_header_byte(bytes@[i as int]));
            return false;
        }
        i = i + 1;
    }
    true
}

} // verus!
