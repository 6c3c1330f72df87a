//! The decisions of the TCP port-22 sweep: which hosts to probe, how many workers and
//! which timeout to use, how outcomes are classified, and how the report is assembled.
use vstd::prelude::*;
use crate::text::{from_chars};
use crate::sorted::{sort_dedup, sort_dedup_exec, strictly_increasing};
use crate::ipv4::{
    Ipv4Subnet, ipv4_text, ipv4_to_string, is_special_ip, is_valid_probe_candidate_ip,
    parse_ipv4, parse_ipv4_spec, parse_ipv4_subnet, ipnet_v4_parse,
};

verus! {

/// The port that is probed.
pub const SSH_PORT: u16 = 22;

/// Workers of the first round for small candidate lists.
pub const SCAN_CONCURRENCY: usize = 88;

/// Connect timeout of the first round for small candidate lists, in milliseconds.
pub const SCAN_TIMEOUT: u64 = 880;

/// Workers of the first round for large candidate lists.
pub const SCAN_CONCURRENCY_BURST: usize = 112;

/// Connect timeout of the first round for large candidate lists, in milliseconds.
pub const SCAN_TIMEOUT_FAST: u64 = 760;

/// From this many candidates on, the first round uses the burst worker count.
pub const SCAN_HOST_BURST_THRESHOLD: usize = 160;

/// From this many candidates on, the first round uses the fast timeout.
pub const SCAN_HOST_FAST_TIMEOUT_THRESHOLD: usize = 192;

/// Workers of the retry round for small retry lists.
pub const RETRY_SCAN_CONCURRENCY: usize = 32;

/// Connect timeout of the retry round for small retry lists, in milliseconds.
pub const RETRY_SCAN_TIMEOUT: u64 = 1200;

/// Workers of the retry round for large retry lists.
pub const RETRY_SCAN_CONCURRENCY_BURST: usize = 48;

/// Connect timeout of the retry round for large retry lists, in milliseconds.
pub const RETRY_SCAN_TIMEOUT_FAST: u64 = 1000;

/// From this many retry hosts on, the retry round uses the burst worker count.
pub const RETRY_HOST_BURST_THRESHOLD: usize = 48;

/// From this many retry hosts on, the retry round uses the fast timeout.
pub const RETRY_HOST_FAST_TIMEOUT_THRESHOLD: usize = 80;

/// What one connection attempt to port 22 found.
#[derive(Debug, Clone, Copy, PartialEq, Eq, Structural)]
pub enum ProbeOutcome {
    Open,
    RetryableTimeout,
    Closed,
}

/// The kinds of I/O error that a connection attempt distinguishes.
#[derive(Debug, Clone, Copy, PartialEq, Eq, Structural)]
pub enum ConnectErrorKind {
    TimedOut,
    ConnectionRefused,
    NetworkUnreachable,
    HostUnreachable,
    AddrNotAvailable,
    AddrInUse,
    InvalidInput,
    PermissionDenied,
    Other,
}

/// The result of a sweep, each list sorted by address and free of duplicates.
#[derive(Debug, Clone, PartialEq, Eq, Default)]
pub struct TcpProbeReport {
    pub candidate_hosts: Vec<String>,
    pub open_hosts: Vec<String>,
    pub closed_hosts: Vec<String>,
    pub retry_exhausted_hosts: Vec<String>,
}

/// The character sequences of a list of strings.
pub open spec fn strs(v: Seq<String>) -> Seq<Seq<char>> {
    v.map_values(|s: String| s@)
}

/// The dotted-decimal texts of a list of addresses.
pub open spec fn ip_texts(v: Seq<u32>) -> Seq<Seq<char>> {
    v.map_values(|ip: u32| ipv4_text(ip))
}

/// The number of workers: the number of hosts, capped at `limit`.
pub fn scan_worker_count(total_hosts: usize, limit: usize) -> (r: usize)
    ensures
        r == if total_hosts < limit { total_hosts } else { limit },
{
    if total_hosts < limit {
        total_hosts
    } else {
        limit
    }
}

/// The worker cap of the first round.
pub fn scan_concurrency_limit(total_hosts: usize) -> (r: usize)
    ensures
        r == if total_hosts >= SCAN_HOST_BURST_THRESHOLD {
            SCAN_CONCURRENCY_BURST
        } else {
            SCAN_CONCURRENCY
        },
{
    if total_hosts >= SCAN_HOST_BURST_THRESHOLD {
        SCAN_CONCURRENCY_BURST
    } else {
        SCAN_CONCURRENCY
    }
}

/// The connect timeout of the first round, in milliseconds.
pub fn scan_timeout(total_hosts: usize) -> (r: u64)
    ensures
        r == if total_hosts >= SCAN_HOST_FAST_TIMEOUT_THRESHOLD {
            SCAN_TIMEOUT_FAST
        } else {
            SCAN_TIMEOUT
        },
{
    if total_hosts >= SCAN_HOST_FAST_TIMEOUT_THRESHOLD {
        SCAN_TIMEOUT_FAST
    } else {
        SCAN_TIMEOUT
    }
}

/// The number of workers of the retry round.
pub fn retry_worker_count(retry_hosts: usize) -> (r: usize)
    ensures
        r == if retry_hosts >= RETRY_HOST_BURST_THRESHOLD {
            RETRY_SCAN_CONCURRENCY_BURST
        } else if retry_hosts < RETRY_SCAN_CONCURRENCY {
            retry_hosts
        } else {
            RETRY_SCAN_CONCURRENCY
        },
{
    let retry_limit = if retry_hosts >= RETRY_HOST_BURST_THRESHOLD {
        RETRY_SCAN_CONCURRENCY_BURST
    } else {
        RETRY_SCAN_CONCURRENCY
    };
    scan_worker_count(retry_hosts, retry_limit)
}

/// The connect timeout of the retry round, in milliseconds.
pub fn retry_scan_timeout(retry_hosts: usize) -> (r: u64)
    ensures
        r == if retry_hosts >= RETRY_HOST_FAST_TIMEOUT_THRESHOLD {
            RETRY_SCAN_TIMEOUT_FAST
        } else {
            RETRY_SCAN_TIMEOUT
        },
{
    if retry_hosts >= RETRY_HOST_FAST_TIMEOUT_THRESHOLD {
        RETRY_SCAN_TIMEOUT_FAST
    } else {
        RETRY_SCAN_TIMEOUT
    }
}

/// A timeout is worth a retry; every other connect error means the port is closed.
pub fn classify_connect_error(kind: ConnectErrorKind) -> (r: ProbeOutcome)
    ensures
        r == if kind == ConnectErrorKind::TimedOut {
            ProbeOutcome::RetryableTimeout
        } else {
            ProbeOutcome::Closed
        },
{
    match kind {
        ConnectErrorKind::TimedOut => ProbeOutcome::RetryableTimeout,
        _ => ProbeOutcome::Closed,
    }
}

/// Only errors of binding to the local address fall back to an unbound socket.
pub fn should_retry_without_bind(kind: ConnectErrorKind) -> (r: bool)
    ensures
        r == (kind == ConnectErrorKind::AddrNotAvailable || kind == ConnectErrorKind::AddrInUse
            || kind == ConnectErrorKind::InvalidInput || kind
            == ConnectErrorKind::PermissionDenied),
{
    match kind {
        ConnectErrorKind::AddrNotAvailable
        | ConnectErrorKind::AddrInUse
        | ConnectErrorKind::InvalidInput
        | ConnectErrorKind::PermissionDenied => true,
        _ => false,
    }
}

/// A timeout counts toward progress only in the retry round.
pub fn should_report_progress(outcome: ProbeOutcome, count_timeout_in_progress: bool) -> (r: bool)
    ensures
        r == (outcome != ProbeOutcome::RetryableTimeout || count_timeout_in_progress),
{
    match outcome {
        ProbeOutcome::RetryableTimeout => count_timeout_in_progress,
        _ => true,
    }
}

/// The hosts whose outcome is `which`, in order.
pub open spec fn hosts_with(results: Seq<(u32, ProbeOutcome)>, which: ProbeOutcome) -> Seq<u32>
    decreases results.len(),
{
    if results.len() == 0 {
        Seq::empty()
    } else {
        hosts_with(results.drop_last(), which) + if results.last().1 == which {
            seq![results.last().0]
        } else {
            Seq::empty()
        }
    }
}

fn collect_hosts_with(results: &Vec<(u32, ProbeOutcome)>, which: ProbeOutcome) -> (r: Vec<u32>)
    ensures
        r@ == hosts_with(results@, which),
{
    let mut r: Vec<u32> = Vec::new();
    let mut i: usize = 0;
    while i < results.len()
        invariant
            i <= results@.len(),
            r@ == hosts_with(results@.subrange(0, i as int), which),
        decreases results@.len() - i,
    {
        proof {
            assert(results@.subrange(0, i + 1).drop_last() =~= results@.subrange(0, i as int));
        }
        let (ip, outcome) = results[i];
        if outcome == which {
            r.push(ip);
        } else {
            assert(r@ =~= r@ + Seq::<u32>::empty());
        }
        i = i + 1;
    }
    assert(results@.subrange(0, results@.len() as int) =~= results@);
    r
}

/// The hosts found open, in the order of the results.
pub fn collect_open_hosts(results: &Vec<(u32, ProbeOutcome)>) -> (r: Vec<u32>)
    ensures
        r@ == hosts_with(results@, ProbeOutcome::Open),
{
    collect_hosts_with(results, ProbeOutcome::Open)
}

/// The hosts that timed out and get a second try, in the order of the results.
pub fn collect_retry_targets(results: &Vec<(u32, ProbeOutcome)>) -> (r: Vec<u32>)
    ensures
        r@ == hosts_with(results@, ProbeOutcome::RetryableTimeout),
{
    collect_hosts_with(results, ProbeOutcome::RetryableTimeout)
}

/// The elements of `s` that do not occur in `excl`, in order.
pub open spec fn without(s: Seq<u32>, excl: Seq<u32>) -> Seq<u32>
    decreases s.len(),
{
    if s.len() == 0 {
        Seq::empty()
    } else {
        without(s.drop_last(), excl) + if excl.contains(s.last()) {
            Seq::empty()
        } else {
            seq![s.last()]
        }
    }
}

fn seq_contains_u32(v: &Vec<u32>, x: u32) -> (r: bool)
    ensures
        r == v@.contains(x),
{
    let mut i: usize = 0;
    while i < v.len()
        invariant
            i <= v@.len(),
            forall|j: int| 0 <= j < i ==> v@[j] != x,
        decreases v@.len() - i,
    {
        if v[i] == x {
            assert(v@[i as int] == x);
            return true;
        }
        i = i + 1;
    }
    false
}

fn without_exec(s: &Vec<u32>, excl: &Vec<u32>) -> (r: Vec<u32>)
    ensures
        r@ == without(s@, excl@),
{
    let mut r: Vec<u32> = Vec::new();
    let mut i: usize = 0;
    while i < s.len()
        invariant
            i <= s@.len(),
            r@ == without(s@.subrange(0, i as int), excl@),
        decreases s@.len() - i,
    {
        proof {
            assert(s@.subrange(0, i + 1).drop_last() =~= s@.subrange(0, i as int));
        }
        if !seq_contains_u32(excl, s[i]) {
            r.push(s[i]);
        } else {
            assert(r@ =~= r@ + Seq::<u32>::empty());
        }
        i = i + 1;
    }
    assert(s@.subrange(0, s@.len() as int) =~= s@);
    r
}

/// The dotted-decimal texts of the addresses, in order.
pub fn hosts_to_strings(hosts: &Vec<u32>) -> (r: Vec<String>)
    ensures
        strs(r@) == ip_texts(hosts@),
{
    let mut r: Vec<String> = Vec::new();
    let mut i: usize = 0;
    while i < hosts.len()
        invariant
            i <= hosts@.len(),
            strs(r@) =~= ip_texts(hosts@.subrange(0, i as int)),
        decreases hosts@.len() - i,
    {
        let ghost old_r = r@;
        let t = ipv4_to_string(hosts[i]);
        r.push(t);
        proof {
            assert(strs(r@) =~= strs(old_r).push(t@));
            assert(ip_texts(hosts@.subrange(0, i + 1)) =~= ip_texts(hosts@.subrange(0, i as int)).push(ipv4_text(hosts@[i as int])));
        }
        i = i + 1;
    }
    assert(hosts@.subrange(0, hosts@.len() as int) =~= hosts@);
    r
}

/// Sorts the addresses and removes duplicates.
pub fn sort_and_dedup_hosts(hosts: &mut Vec<u32>)
    ensures
        final(hosts)@ == sort_dedup(old(hosts)@),
        strictly_increasing(final(hosts)@),
{
    let r = sort_dedup_exec(hosts);
    *hosts = r;
}

/// The report of a sweep: every candidate, the open ones, the candidates not found open,
/// and the retried hosts still not open, each sorted and free of duplicates.
pub open spec fn probe_report_spec(
    candidates: Seq<u32>,
    open: Seq<u32>,
    retry: Seq<u32>,
) -> (Seq<Seq<char>>, Seq<Seq<char>>, Seq<Seq<char>>, Seq<Seq<char>>) {
    let c = sort_dedup(candidates);
    let o = sort_dedup(open);
    let r = sort_dedup(retry);
    (ip_texts(c), ip_texts(o), ip_texts(without(c, o)), ip_texts(without(r, o)))
}

/// The four lists of a report, as character sequences.
pub open spec fn report_view(r: TcpProbeReport) -> (
    Seq<Seq<char>>,
    Seq<Seq<char>>,
    Seq<Seq<char>>,
    Seq<Seq<char>>,
) {
    (strs(r.candidate_hosts@), strs(r.open_hosts@), strs(r.closed_hosts@), strs(r.retry_exhausted_hosts@))
}

/// Assembles the report from the candidates, the open hosts of both rounds and the hosts
/// that were retried.
pub fn build_probe_report(
    candidate_hosts: Vec<u32>,
    open_hosts: Vec<u32>,
    retry_hosts: Vec<u32>,
) -> (r: TcpProbeReport)
    ensures
        report_view(r) == probe_report_spec(candidate_hosts@, open_hosts@, retry_hosts@),
{
    let mut candidate_hosts = candidate_hosts;
    let mut open_hosts = open_hosts;
    let mut retry_hosts = retry_hosts;
    sort_and_dedup_hosts(&mut candidate_hosts);
    sort_and_dedup_hosts(&mut open_hosts);
    sort_and_dedup_hosts(&mut retry_hosts);
    let closed_hosts = without_exec(&candidate_hosts, &open_hosts);
    let retry_exhausted_hosts = without_exec(&retry_hosts, &open_hosts);
    TcpProbeReport {
        candidate_hosts: hosts_to_strings(&candidate_hosts),
        open_hosts: hosts_to_strings(&open_hosts),
        closed_hosts: hosts_to_strings(&closed_hosts),
        retry_exhausted_hosts: hosts_to_strings(&retry_exhausted_hosts),
    }
}

/// `ip` is a host address of `subnet`: inside it and, for prefixes below 31, neither the
/// network nor the broadcast address.
pub open spec fn is_subnet_host_spec(subnet: Ipv4Subnet, ip: u32) -> bool {
    &&& subnet.spec_network() <= ip && ip <= subnet.spec_broadcast()
    &&& (subnet.spec_prefix_len() < 31 ==> (ip != subnet.spec_network() && ip
        != subnet.spec_broadcast()))
}

/// Whether `ip` is a host address of `subnet`.
pub fn is_subnet_host_address(subnet: Ipv4Subnet, ip: u32) -> (b: bool)
    ensures
        b == is_subnet_host_spec(subnet, ip),
{
    if !subnet.contains(ip) {
        return false;
    }
    if subnet.prefix_len() < 31 {
        let network = subnet.network();
        let broadcast = subnet.broadcast();
        if ip == network || ip == broadcast {
            return false;
        }
    }
    true
}

/// The address a candidate text yields for probing, if it is one: it parses, is not the
/// local address, is not loopback, link-local or unspecified, and is a host of the subnet.
pub open spec fn probe_target(c: Seq<char>, local_ip: u32, subnet: Ipv4Subnet) -> Option<u32> {
    match parse_ipv4_spec(c) {
        Some(ip) => if ip != local_ip && !is_special_ip(ip) && is_subnet_host_spec(subnet, ip) {
            Some(ip)
        } else {
            None
        },
        None => None,
    }
}

/// The probe targets among the candidate texts, in order.
pub open spec fn probe_targets(cands: Seq<Seq<char>>, local_ip: u32, subnet: Ipv4Subnet) -> Seq<
    u32,
>
    decreases cands.len(),
{
    if cands.len() == 0 {
        Seq::empty()
    } else {
        probe_targets(cands.drop_last(), local_ip, subnet) + match probe_target(
            cands.last(),
            local_ip,
            subnet,
        ) {
            Some(ip) => seq![ip],
            None => Seq::empty(),
        }
    }
}

/// The addresses to probe: the valid candidates, sorted and free of duplicates.
pub fn normalize_probe_targets(candidate_ips: &Vec<String>, local_ip: u32, subnet: Ipv4Subnet) -> (r:
    Vec<u32>)
    ensures
        r@ == sort_dedup(probe_targets(strs(candidate_ips@), local_ip, subnet)),
{
    let mut filtered: Vec<u32> = Vec::new();
    let mut i: usize = 0;
    while i < candidate_ips.len()
        invariant
            i <= candidate_ips@.len(),
            filtered@ == probe_targets(strs(candidate_ips@.subrange(0, i as int)), local_ip, subnet),
        decreases candidate_ips@.len() - i,
    {
        proof {
            assert(strs(candidate_ips@.subrange(0, i + 1)).drop_last() =~= strs(
                candidate_ips@.subrange(0, i as int),
            ));
        }
        match parse_ipv4(candidate_ips[i].as_str()) {
            Some(ip) => {
                if ip != local_ip && is_valid_probe_candidate_ip(ip) && is_subnet_host_address(
                    subnet,
                    ip,
                ) {
                    filtered.push(ip);
                } else {
                    assert(filtered@ =~= filtered@ + Seq::<u32>::empty());
                }
            },
            None => {
                assert(filtered@ =~= filtered@ + Seq::<u32>::empty());
            },
        }
        i = i + 1;
    }
    assert(candidate_ips@.subrange(0, candidate_ips@.len() as int) =~= candidate_ips@);
    sort_and_dedup_hosts(&mut filtered);
    filtered
}

/// The start of a sweep: the local address and subnet parsed, and the sorted targets.
/// `None` where either text does not parse, which ends the sweep with an empty report.
pub fn prepare_probe_targets(local_ip: &str, subnet: &str, candidate_ips: &Vec<String>) -> (r:
    Option<(u32, Vec<u32>)>)
    ensures
        match (parse_ipv4_spec(local_ip@), ipnet_v4_parse(subnet@)) {
            (Some(l), Some((a, p))) => r matches Some((rl, t)) && rl == l && exists|n: Ipv4Subnet|
                n.spec_addr() == a && n.spec_prefix_len() == p && t@ == sort_dedup(
                    probe_targets(strs(candidate_ips@), l, n),
                ),
            _ => r is None,
        },
{
    let local = match parse_ipv4(local_ip) {
        Some(ip) => ip,
        None => return None,
    };
    let net = match parse_ipv4_subnet(subnet) {
        Some(n) => n,
        None => return None,
    };
    let targets = normalize_probe_targets(candidate_ips, local, net);
    Some((local, targets))
}

/// One round of probing: the hosts to probe in order, the number of workers, the connect
/// timeout in milliseconds, whether timeouts count toward progress, and the total that
/// progress counts toward.
#[derive(Debug, Clone, PartialEq, Eq)]
pub struct ScanRound {
    pub targets: Vec<u32>,
    pub workers: usize,
    pub timeout_ms: u64,
    pub count_timeouts: bool,
    pub progress_total: usize,
}

/// What a sweep asks for next: a round of probing, or its end with the report, where an
/// empty candidate list first reports progress zero of zero.
#[derive(Debug, Clone, PartialEq, Eq)]
pub enum ScanAction {
    RunRound(ScanRound),
    Finish { report: TcpProbeReport, report_zero_progress: bool },
}

/// Where a sweep stands.
#[derive(Debug, Clone, Copy, PartialEq, Eq, Structural)]
pub enum ScanStage {
    FirstRound,
    RetryRound,
    Done,
}

/// A sweep of port 22 over the candidate hosts: the decisions between the rounds.
#[derive(Debug)]
pub struct ScanFlow {
    pub candidates: Vec<u32>,
    pub open_hosts: Vec<u32>,
    pub retry_hosts: Vec<u32>,
    pub stage: ScanStage,
}

/// The action finishes with the empty report.
pub open spec fn finishes_empty(r: ScanAction, zero_progress: bool) -> bool {
    r matches ScanAction::Finish { report, report_zero_progress } && report_zero_progress
        == zero_progress && report_view(report) == (
        Seq::<Seq<char>>::empty(),
        Seq::<Seq<char>>::empty(),
        Seq::<Seq<char>>::empty(),
        Seq::<Seq<char>>::empty(),
    )
}

/// Every host named in `results` is one of `targets`.
pub open spec fn names_round_targets(results: Seq<(u32, ProbeOutcome)>, targets: Seq<u32>) -> bool {
    forall|i: int| 0 <= i < results.len() ==> targets.contains(#[trigger] results[i].0)
}

/// The hosts with an outcome in results that name only `targets` are among `targets`.
pub proof fn lemma_hosts_with_within(results: Seq<(u32, ProbeOutcome)>, which: ProbeOutcome, targets: Seq<u32>)
    requires
        names_round_targets(results, targets),
    ensures
        forall|k: int| 0 <= k < hosts_with(results, which).len() ==> targets.contains(
            #[trigger] hosts_with(results, which)[k],
        ),
    decreases results.len(),
{
    if results.len() > 0 {
        let d = results.drop_last();
        assert forall|i: int| 0 <= i < d.len() implies targets.contains(#[trigger] d[i].0) by {
            assert(d[i] == results[i]);
        }
        lemma_hosts_with_within(d, which, targets);
        assert(targets.contains(results[results.len() - 1].0));
        let h = hosts_with(d, which);
        let tail = if results.last().1 == which {
            seq![results.last().0]
        } else {
            Seq::<u32>::empty()
        };
        assert(hosts_with(results, which) == h + tail);
        assert forall|k: int| 0 <= k < hosts_with(results, which).len() implies targets.contains(
            #[trigger] hosts_with(results, which)[k],
        ) by {
            if k < h.len() {
                assert(hosts_with(results, which)[k] == h[k]);
            } else {
                assert(hosts_with(results, which)[k] == results.last().0);
            }
        }
    }
}

/// The action runs the first round over `targets`.
pub open spec fn runs_first_round(r: ScanAction, targets: Seq<u32>) -> bool {
    let n = targets.len();
    r matches ScanAction::RunRound(round) && round.targets@ == targets && round.workers == (if n
        < (if n >= SCAN_HOST_BURST_THRESHOLD { SCAN_CONCURRENCY_BURST } else { SCAN_CONCURRENCY }) {
        n
    } else {
        (if n >= SCAN_HOST_BURST_THRESHOLD { SCAN_CONCURRENCY_BURST } else { SCAN_CONCURRENCY }) as nat
    }) && round.timeout_ms == (if n >= SCAN_HOST_FAST_TIMEOUT_THRESHOLD {
        SCAN_TIMEOUT_FAST
    } else {
        SCAN_TIMEOUT
    }) && !round.count_timeouts && round.progress_total == n
}

/// The action runs the retry round over `targets`, counting toward `total`.
pub open spec fn runs_retry_round(r: ScanAction, targets: Seq<u32>, total: nat) -> bool {
    let n = targets.len();
    r matches ScanAction::RunRound(round) && round.targets@ == targets && round.workers == (if n
        >= RETRY_HOST_BURST_THRESHOLD {
        RETRY_SCAN_CONCURRENCY_BURST as nat
    } else if n < RETRY_SCAN_CONCURRENCY {
        n
    } else {
        RETRY_SCAN_CONCURRENCY as nat
    }) && round.timeout_ms == (if n >= RETRY_HOST_FAST_TIMEOUT_THRESHOLD {
        RETRY_SCAN_TIMEOUT_FAST
    } else {
        RETRY_SCAN_TIMEOUT
    }) && round.count_timeouts && round.progress_total == total
}

fn empty_report() -> (r: TcpProbeReport)
    ensures
        report_view(r) == (
            Seq::<Seq<char>>::empty(),
            Seq::<Seq<char>>::empty(),
            Seq::<Seq<char>>::empty(),
            Seq::<Seq<char>>::empty(),
        ),
{
    let r = TcpProbeReport {
        candidate_hosts: Vec::new(),
        open_hosts: Vec::new(),
        closed_hosts: Vec::new(),
        retry_exhausted_hosts: Vec::new(),
    };
    assert(strs(r.candidate_hosts@) =~= Seq::<Seq<char>>::empty());
    assert(strs(r.open_hosts@) =~= Seq::<Seq<char>>::empty());
    assert(strs(r.closed_hosts@) =~= Seq::<Seq<char>>::empty());
    assert(strs(r.retry_exhausted_hosts@) =~= Seq::<Seq<char>>::empty());
    r
}

impl ScanFlow {
    /// Starts a sweep from the local address, the subnet and the candidate texts: an empty
    /// report where the addresses do not parse, an empty report after progress zero of zero
    /// where no candidate is left, else the first round over the targets.
    /// The hosts found open and those to retry are all candidates.
    pub open spec fn within_candidates(self) -> bool {
        &&& forall|i: int| 0 <= i < self.open_hosts@.len() ==> self.candidates@.contains(
            #[trigger] self.open_hosts@[i],
        )
        &&& forall|i: int| 0 <= i < self.retry_hosts@.len() ==> self.candidates@.contains(
            #[trigger] self.retry_hosts@[i],
        )
    }

    /// The hosts of the round that the sweep waits for.
    pub open spec fn round_targets(self) -> Seq<u32> {
        if self.stage == ScanStage::FirstRound {
            self.candidates@
        } else {
            self.retry_hosts@
        }
    }

    /// Whether `results` name only hosts of the round that the sweep waits for.
    pub fn accepts(&self, results: &Vec<(u32, ProbeOutcome)>) -> (r: bool)
        ensures
            r == names_round_targets(results@, self.round_targets()),
    {
        let targets = match self.stage {
            ScanStage::FirstRound => &self.candidates,
            _ => &self.retry_hosts,
        };
        let mut i: usize = 0;
        while i < results.len()
            invariant
                i <= results@.len(),
                targets@ == self.round_targets(),
                forall|j: int| 0 <= j < i ==> targets@.contains(#[trigger] results@[j].0),
            decreases results@.len() - i,
        {
            let host = results[i].0;
            let mut k: usize = 0;
            let mut found = false;
            while k < targets.len()
                invariant
                    k <= targets@.len(),
                    found ==> targets@.contains(host),
                    !found ==> forall|m: int| 0 <= m < k ==> targets@[m] != host,
                decreases targets@.len() - k,
            {
                if targets[k] == host {
                    found = true;
                    assert(targets@[k as int] == host);
                }
                k = k + 1;
            }
            if !found {
                assert(!targets@.contains(host));
                return false;
            }
            i = i + 1;
        }
        true
    }

    pub fn new(local_ip: &str, subnet: &str, candidate_ips: &Vec<String>) -> (r: (ScanFlow, ScanAction))
        ensures
            match (parse_ipv4_spec(local_ip@), ipnet_v4_parse(subnet@)) {
                (Some(l), Some((a, p))) => exists|n: Ipv4Subnet|
                    n.spec_addr() == a && n.spec_prefix_len() == p && {
                        let t = sort_dedup(probe_targets(strs(candidate_ips@), l, n));
                        if t.len() == 0 {
                            r.0.stage == ScanStage::Done && finishes_empty(r.1, true)
                        } else {
                            r.0.stage == ScanStage::FirstRound && r.0.candidates@ == t
                                && r.0.open_hosts@.len() == 0 && r.0.retry_hosts@.len() == 0
                                && runs_first_round(r.1, t)
                        }
                    },
                _ => r.0.stage == ScanStage::Done && finishes_empty(r.1, false),
            },
            r.0.within_candidates(),
    {
        match prepare_probe_targets(local_ip, subnet, candidate_ips) {
            None => {
                let flow = ScanFlow {
                    candidates: Vec::new(),
                    open_hosts: Vec::new(),
                    retry_hosts: Vec::new(),
                    stage: ScanStage::Done,
                };
                (flow, ScanAction::Finish { report: empty_report(), report_zero_progress: false })
            },
            Some((_, targets)) => {
                if targets.len() == 0 {
                    let flow = ScanFlow {
                        candidates: targets,
                        open_hosts: Vec::new(),
                        retry_hosts: Vec::new(),
                        stage: ScanStage::Done,
                    };
                    (flow, ScanAction::Finish { report: empty_report(), report_zero_progress: true })
                } else {
                    let n = targets.len();
                    let round = ScanRound {
                        targets: targets.clone(),
                        workers: scan_worker_count(n, scan_concurrency_limit(n)),
                        timeout_ms: scan_timeout(n),
                        count_timeouts: false,
                        progress_total: n,
                    };
                    let flow = ScanFlow {
                        candidates: targets,
                        open_hosts: Vec::new(),
                        retry_hosts: Vec::new(),
                        stage: ScanStage::FirstRound,
                    };
                    (flow, ScanAction::RunRound(round))
                }
            },
        }
    }

    /// Takes the outcomes of the round asked for last, or `None` where the sweep was
    /// cancelled, and decides what comes next: after the first round, a retry round over the
    /// hosts that timed out, where there are any; else the report of the open hosts of both
    /// rounds.
    pub fn step(&mut self, results: Option<Vec<(u32, ProbeOutcome)>>) -> (r: ScanAction)
        requires
            old(self).stage != ScanStage::Done,
            old(self).within_candidates(),
            results matches Some(res) ==> names_round_targets(res@, old(self).round_targets()),
        ensures
            final(self).stage == ScanStage::Done || final(self).stage == ScanStage::RetryRound,
            final(self).candidates@ == old(self).candidates@,
            final(self).within_candidates(),
            match results {
                None => final(self).stage == ScanStage::Done && finishes_empty(r, false),
                Some(res) => {
                    let open = old(self).open_hosts@ + hosts_with(res@, ProbeOutcome::Open);
                    let timed_out = hosts_with(res@, ProbeOutcome::RetryableTimeout);
                    if old(self).stage == ScanStage::FirstRound && timed_out.len() > 0 {
                        final(self).stage == ScanStage::RetryRound && final(self).open_hosts@
                            == open && final(self).retry_hosts@ == timed_out && runs_retry_round(
                            r,
                            timed_out,
                            old(self).candidates@.len(),
                        )
                    } else {
                        final(self).stage == ScanStage::Done && (r matches ScanAction::Finish {
                            report,
                            report_zero_progress,
                        } && !report_zero_progress && report_view(report) == probe_report_spec(
                            old(self).candidates@,
                            open,
                            if old(self).stage == ScanStage::FirstRound {
                                Seq::empty()
                            } else {
                                old(self).retry_hosts@
                            },
                        ))
                    }
                },
            },
    {
        match results {
            None => {
                self.stage = ScanStage::Done;
                ScanAction::Finish { report: empty_report(), report_zero_progress: false }
            },
            Some(res) => {
                let opened = collect_open_hosts(&res);
                let timed_out = collect_retry_targets(&res);
                let mut open = self.open_hosts.clone();
                let mut k: usize = 0;
                let ghost start = open@;
                assert(open@ == old(self).open_hosts@);
                while k < opened.len()
                    invariant
                        k <= opened@.len(),
                        open@ == start + opened@.take(k as int),
                    decreases opened@.len() - k,
                {
                    open.push(opened[k]);
                    k = k + 1;
                    assert(open@ =~= start + opened@.take(k as int));
                }
                assert(opened@.take(opened@.len() as int) =~= opened@);
                proof {
                    lemma_hosts_with_within(res@, ProbeOutcome::Open, old(self).round_targets());
                    lemma_hosts_with_within(res@, ProbeOutcome::RetryableTimeout, old(self).round_targets());
                    assert forall|x: u32| old(self).round_targets().contains(x) implies old(self).candidates@.contains(x) by {
                        if old(self).stage != ScanStage::FirstRound {
                            let m = choose|m: int| 0 <= m < old(self).retry_hosts@.len() && old(self).retry_hosts@[m] == x;
                            assert(old(self).candidates@.contains(old(self).retry_hosts@[m]));
                        }
                    }
                    assert forall|i: int| 0 <= i < open@.len() implies old(self).candidates@.contains(#[trigger] open@[i]) by {
                        if i < start.len() {
                            assert(open@[i] == old(self).open_hosts@[i]);
                        } else {
                            assert(open@[i] == opened@[i - start.len()]);
                            assert(old(self).round_targets().contains(opened@[i - start.len()]));
                        }
                    }
                }
                let first = match self.stage {
                    ScanStage::FirstRound => true,
                    _ => false,
                };
                if first && timed_out.len() > 0 {
                    let n = timed_out.len();
                    let round = ScanRound {
                        targets: timed_out.clone(),
                        workers: retry_worker_count(n),
                        timeout_ms: retry_scan_timeout(n),
                        count_timeouts: true,
                        progress_total: self.candidates.len(),
                    };
                    self.open_hosts = open;
                    self.retry_hosts = timed_out;
                    self.stage = ScanStage::RetryRound;
                    ScanAction::RunRound(round)
                } else {
                    let retried = if first {
                        Vec::new()
                    } else {
                        self.retry_hosts.clone()
                    };
                    assert(first ==> retried@ =~= Seq::<u32>::empty());
                    self.stage = ScanStage::Done;
                    let report = build_probe_report(self.candidates.clone(), open, retried);
                    ScanAction::Finish { report, report_zero_progress: false }
                }
            },
        }
    }
}

proof fn lemma_without_contains(s: Seq<u32>, excl: Seq<u32>, x: u32)
    ensures
        without(s, excl).contains(x) <==> s.contains(x) && !excl.contains(x),
    decreases s.len(),
{
    if s.len() > 0 {
        lemma_without_contains(s.drop_last(), excl, x);
        let w = without(s.drop_last(), excl);
        let tail = if excl.contains(s.last()) {
            Seq::<u32>::empty()
        } else {
            seq![s.last()]
        };
        assert(without(s, excl) == w + tail);
        if (w + tail).contains(x) {
            let k = choose|k: int| 0 <= k < (w + tail).len() && (w + tail)[k] == x;
            if k < w.len() {
                assert(w[k] == x);
            } else {
                assert(tail[k - w.len()] == x);
            }
        }
        if w.contains(x) {
            let k = choose|k: int| 0 <= k < w.len() && w[k] == x;
            assert((w + tail)[k] == x);
        }
        if s.contains(x) && !excl.contains(x) {
            let k = choose|k: int| 0 <= k < s.len() && s[k] == x;
            if k < s.len() - 1 {
                assert(s.drop_last()[k] == x);
            } else {
                assert((w + tail)[w.len() as int] == x);
            }
        }
        if s.drop_last().contains(x) {
            let k = choose|k: int| 0 <= k < s.drop_last().len() && s.drop_last()[k] == x;
            assert(s[k] == x);
        }
    }
}

/// The report splits the candidates: a candidate is listed as closed exactly when it was not
/// found open, and a retried host is listed as exhausted exactly when it was not found open;
/// no host is listed both open and closed.
pub proof fn lemma_report_splits_candidates(candidates: Seq<u32>, open: Seq<u32>, retry: Seq<u32>, x: u32)
    ensures
        without(sort_dedup(candidates), sort_dedup(open)).contains(x) <==> candidates.contains(x)
            && !open.contains(x),
        without(sort_dedup(retry), sort_dedup(open)).contains(x) <==> retry.contains(x)
            && !open.contains(x),
        !(without(sort_dedup(candidates), sort_dedup(open)).contains(x) && sort_dedup(open).contains(x)),
{
    crate::sorted::lemma_sort_dedup(candidates);
    crate::sorted::lemma_sort_dedup(open);
    crate::sorted::lemma_sort_dedup(retry);
    lemma_without_contains(sort_dedup(candidates), sort_dedup(open), x);
    lemma_without_contains(sort_dedup(retry), sort_dedup(open), x);
}

/// What a device was recognised as.
#[derive(Debug, Clone, Copy, PartialEq, Eq)]
pub enum DeviceIdentityKind {
    RaspberryPi,
    Jetson,
    Computer,
    Unknown,
}

/// The kind of machine a device is shown as.
#[derive(Debug, Clone, Copy, PartialEq, Eq)]
pub enum DeviceType {
    Server,
    Desktop,
    Laptop,
}

/// A device found on the network, with the state of its SSH credentials.
#[derive(Debug, Clone, PartialEq, Eq)]
pub struct Device {
    pub id: String,
    pub name: String,
    pub ip: String,
    pub identity_kind: DeviceIdentityKind,
    pub device_type: DeviceType,
    pub status: crate::ssh_auth::DeviceStatus,
}

/// A device as plain values.
pub open spec fn device_view(d: Device) -> (
    Seq<char>,
    Seq<char>,
    Seq<char>,
    DeviceIdentityKind,
    DeviceType,
    crate::ssh_auth::DeviceStatus,
) {
    (d.id@, d.name@, d.ip@, d.identity_kind, d.device_type, d.status)
}

/// The plain values of a list of devices.
pub open spec fn device_views(v: Seq<Device>) -> Seq<
    (Seq<char>, Seq<char>, Seq<char>, DeviceIdentityKind, DeviceType, crate::ssh_auth::DeviceStatus),
> {
    v.map_values(|d: Device| device_view(d))
}

/// The id of the first device from `i` on whose credentials are ready.
pub open spec fn first_ready_from(ds: Seq<Device>, i: int) -> Option<Seq<char>>
    decreases ds.len() - i,
{
    if i < 0 || i >= ds.len() {
        None
    } else if ds[i].status == crate::ssh_auth::DeviceStatus::Ready {
        Some(ds[i].id@)
    } else {
        first_ready_from(ds, i + 1)
    }
}

/// The device selected by default: the first that is ready, else the first one.
pub open spec fn default_device(ds: Seq<Device>) -> Option<Seq<char>> {
    match first_ready_from(ds, 0) {
        Some(id) => Some(id),
        None => if ds.len() > 0 {
            Some(ds[0].id@)
        } else {
            None
        },
    }
}

/// The id of the device selected by default among `devices`.
pub fn default_device_id(devices: &[Device]) -> (r: Option<String>)
    ensures
        crate::credential::opt_view(r) == default_device(devices@),
{
    let mut i: usize = 0;
    while i < devices.len()
        invariant
            i <= devices@.len(),
            first_ready_from(devices@, 0) == first_ready_from(devices@, i as int),
        decreases devices@.len() - i,
    {
        if matches!(devices[i].status, crate::ssh_auth::DeviceStatus::Ready) {
            return Some(devices[i].id.clone());
        }
        i = i + 1;
    }
    if devices.len() > 0 {
        Some(devices[0].id.clone())
    } else {
        None
    }
}

proof fn lemma_probe_targets_are_hosts(cands: Seq<Seq<char>>, local_ip: u32, subnet: Ipv4Subnet)
    ensures
        forall|x: u32| #[trigger] probe_targets(cands, local_ip, subnet).contains(x) ==> {
            &&& x != local_ip
            &&& subnet.spec_network() <= x <= subnet.spec_broadcast()
            &&& (subnet.spec_prefix_len() < 31 ==> x != subnet.spec_network() && x
                != subnet.spec_broadcast())
        },
    decreases cands.len(),
{
    if cands.len() > 0 {
        lemma_probe_targets_are_hosts(cands.drop_last(), local_ip, subnet);
        let prev = probe_targets(cands.drop_last(), local_ip, subnet);
        let tail = match probe_target(cands.last(), local_ip, subnet) {
            Some(ip) => seq![ip],
            None => Seq::<u32>::empty(),
        };
        assert forall|x: u32| #[trigger] probe_targets(cands, local_ip, subnet).contains(x) implies {
            &&& x != local_ip
            &&& subnet.spec_network() <= x <= subnet.spec_broadcast()
            &&& (subnet.spec_prefix_len() < 31 ==> x != subnet.spec_network() && x
                != subnet.spec_broadcast())
        } by {
            let all = probe_targets(cands, local_ip, subnet);
            assert(all == prev + tail);
            let k = choose|k: int| 0 <= k < all.len() && all[k] == x;
            if k < prev.len() {
                assert(prev[k] == x);
                assert(prev.contains(x));
            } else {
                assert(tail[k - prev.len()] == x);
            }
        }
    }
}

/// Only hosts of the subnet are probed: every target lies between the subnet's network and
/// broadcast addresses, is not the local address, and, where the prefix is shorter than 31
/// bits, is neither the network nor the broadcast address itself.
pub proof fn lemma_targets_are_subnet_hosts(cands: Seq<Seq<char>>, local_ip: u32, subnet: Ipv4Subnet)
    ensures
        forall|k: int| 0 <= k < sort_dedup(probe_targets(cands, local_ip, subnet)).len() ==> {
            let x = #[trigger] sort_dedup(probe_targets(cands, local_ip, subnet))[k];
            &&& x != local_ip
            &&& subnet.spec_network() <= x <= subnet.spec_broadcast()
            &&& (subnet.spec_prefix_len() < 31 ==> x != subnet.spec_network() && x
                != subnet.spec_broadcast())
        },
{
    let t = sort_dedup(probe_targets(cands, local_ip, subnet));
    lemma_probe_targets_are_hosts(cands, local_ip, subnet);
    crate::sorted::lemma_sort_dedup(probe_targets(cands, local_ip, subnet));
    assert forall|k: int| 0 <= k < t.len() implies {
        let x = #[trigger] t[k];
        &&& x != local_ip
        &&& subnet.spec_network() <= x <= subnet.spec_broadcast()
        &&& (subnet.spec_prefix_len() < 31 ==> x != subnet.spec_network() && x
            != subnet.spec_broadcast())
    } by {
        assert(t.contains(t[k]));
        assert(probe_targets(cands, local_ip, subnet).contains(t[k]));
    }
}

} // verus!
