//! The port scan: which ports are tried, and which are reported open.

use vstd::prelude::*;
use crate::ports::{Port, classifies};

verus! {

/// The number of ports in `start..=end`.
pub open spec fn range_len(start: u16, end: u16) -> int {
    if start <= end {
        end - start + 1
    } else {
        0
    }
}

/// The ports of `start..=end`, classified, in increasing order.
pub fn ports_in_range(start: u16, end: u16) -> (ports: Vec<Port>)
    ensures
        ports@.len() == range_len(start, end),
        forall|i: int| 0 <= i < ports@.len() ==> classifies(#[trigger] ports@[i], (start + i) as u16),
{
    let mut ports: Vec<Port> = Vec::new();
    if start > end {
        return ports;
    }
    let mut p: u16 = start;
    loop
        invariant_except_break
            ports@.len() == p - start,
        invariant
            start <= p <= end,
            forall|i: int| 0 <= i < ports@.len() ==> classifies(#[trigger] ports@[i], (start + i) as u16),
        ensures
            ports@.len() == end - start + 1,
            forall|i: int| 0 <= i < ports@.len() ==> classifies(#[trigger] ports@[i], (start + i) as u16),
        decreases end - p,
    {
        ports.push(Port::from(p));
        if p == end {
            break;
        }
        p = p + 1;
    }
    ports
}

/// What scanning `port` reports: its number when a connection could be
/// opened, nothing otherwise.
pub fn scan_result(port: &Port, connected: bool) -> (open: Option<u16>)
    ensures
        open == (if connected {
            Some(port.num)
        } else {
            None
        }),
{
    if connected {
        Some(port.num)
    } else {
        None
    }
}

/// The port numbers among the scan results, in order.
pub open spec fn spec_open_ports(results: Seq<Option<u16>>) -> Seq<u16>
    decreases results.len(),
{
    if results.len() == 0 {
        seq![]
    } else {
        let prev = spec_open_ports(results.drop_last());
        match results.last() {
            Some(p) => prev.push(p),
            None => prev,
        }
    }
}

/// The open ports among the scan results, in order.
pub fn open_ports(results: &Vec<Option<u16>>) -> (open: Vec<u16>)
    ensures
        open@ == spec_open_ports(results@),
{
    let mut open: Vec<u16> = Vec::new();
    let n = results.len();
    let mut i: usize = 0;
    while i < n
        invariant
            n == results@.len(),
            i <= n,
            open@ == spec_open_ports(results@.take(i as int)),
        decreases n - i,
    {
        assert(results@.take(i + 1).drop_last() =~= results@.take(i as int));
        match results[i] {
            Some(p) => open.push(p),
            None => {},
        }
        i = i + 1;
    }
    assert(results@.take(n as int) =~= results@);
    open
}

/// A port is reported open exactly when some scan result names it.
pub proof fn lemma_open_ports_contains(results: Seq<Option<u16>>, p: u16)
    ensures
        spec_open_ports(results).contains(p) <==> exists|i: int|
            0 <= i < results.len() && results[i] == Some(p),
    decreases results.len(),
{
    if results.len() == 0 {
        assert(!spec_open_ports(results).contains(p));
    } else {
        let prev = results.drop_last();
        let before = spec_open_ports(prev);
        let after = spec_open_ports(results);
        lemma_open_ports_contains(prev, p);
        if exists|i: int| 0 <= i < results.len() && results[i] == Some(p) {
            let i = choose|i: int| 0 <= i < results.len() && results[i] == Some(p);
            if i < results.len() - 1 {
                assert(prev[i] == Some(p));
                let k = choose|k: int| 0 <= k < before.len() && before[k] == p;
                assert(after[k] == p);
            } else {
                assert(after.last() == p);
            }
        }
        if after.contains(p) {
            let k = choose|k: int| 0 <= k < after.len() && after[k] == p;
            if results.last() == Some(p) {
                assert(results[results.len() - 1] == Some(p));
            } else {
                if results.last() is Some {
                    assert(k < before.len());
                }
                assert(before[k] == p);
                assert(before.contains(p));
                let i = choose|i: int| 0 <= i < prev.len() && prev[i] == Some(p);
                assert(results[i] == Some(p));
            }
        }
    }
}

/// The scan results for `start..=end` when the connection to the `i`-th
/// port of the range succeeded exactly when `connected[i]` holds.
pub open spec fn range_results(start: u16, connected: Seq<bool>) -> Seq<Option<u16>> {
    Seq::new(
        connected.len(),
        |i: int|
            if connected[i] {
                Some((start + i) as u16)
            } else {
                None
            },
    )
}

/// Scanning `start..=end` reports exactly the ports of the range that could
/// be connected to.
pub proof fn lemma_scan_reports_reachable_range_ports(start: u16, end: u16, connected: Seq<bool>, p: u16)
    requires
        connected.len() == range_len(start, end),
    ensures
        spec_open_ports(range_results(start, connected)).contains(p) <==> (start <= p <= end
            && connected[p - start]),
{
    let results = range_results(start, connected);
    lemma_open_ports_contains(results, p);
    if start <= p <= end && connected[p - start] {
        assert(results[p - start] == Some(p));
    }
}

} // verus!
