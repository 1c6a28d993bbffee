use vstd::prelude::*;
use vstd::string::StringExecFns;
use crate::addr::IpAddress;
use crate::net::{Link, LinkView, ProcessView};
use crate::table::ProcessTable;

verus! {

/// The byte counts that an iperf run reports, per protocol and family.
#[derive(Clone, Copy, Debug, PartialEq, Eq, Structural)]
pub struct IperfCounters {
    pub tcp4_rx: i64,
    pub tcp4_tx: i64,
    pub tcp6_rx: i64,
    pub tcp6_tx: i64,
    pub udp4_rx: i64,
    pub udp4_tx: i64,
    pub udp6_rx: i64,
    pub udp6_tx: i64,
}

/// The process name whose links are reported.
pub open spec fn iperf_name() -> Seq<char> {
    "iperf3"@
}

/// A TCP link of the bulk side: one with nothing received gives the sent
/// count, one with nothing sent gives the received count.
pub open spec fn tcp_step(c: IperfCounters, l: LinkView) -> IperfCounters {
    if l.rx == 0 {
        if l.saddr is V4 {
            IperfCounters { tcp4_tx: l.tx, ..c }
        } else {
            IperfCounters { tcp6_tx: l.tx, ..c }
        }
    } else if l.tx == 0 {
        if l.saddr is V4 {
            IperfCounters { tcp4_rx: l.rx, ..c }
        } else {
            IperfCounters { tcp6_rx: l.rx, ..c }
        }
    } else {
        c
    }
}

pub open spec fn daddr_unspecified(l: LinkView) -> bool {
    match l.daddr {
        IpAddress::V4(x) => x == 0,
        IpAddress::V6(x) => x == 0,
    }
}

/// A UDP link to a specified address whose opposite direction holds
/// exactly 4 bytes gives its count.
pub open spec fn udp_step(c: IperfCounters, l: LinkView) -> IperfCounters {
    if l.rx == 4 && !daddr_unspecified(l) {
        if l.saddr is V4 {
            IperfCounters { udp4_tx: l.tx, ..c }
        } else {
            IperfCounters { udp6_tx: l.tx, ..c }
        }
    } else if l.tx == 4 && !daddr_unspecified(l) {
        if l.saddr is V4 {
            IperfCounters { udp4_rx: l.rx, ..c }
        } else {
            IperfCounters { udp6_rx: l.rx, ..c }
        }
    } else {
        c
    }
}

pub open spec fn fold_tcp(c: IperfCounters, links: Seq<LinkView>) -> IperfCounters
    decreases links.len(),
{
    if links.len() == 0 {
        c
    } else {
        tcp_step(fold_tcp(c, links.drop_last()), links.last())
    }
}

pub open spec fn fold_udp(c: IperfCounters, links: Seq<LinkView>) -> IperfCounters
    decreases links.len(),
{
    if links.len() == 0 {
        c
    } else {
        udp_step(fold_udp(c, links.drop_last()), links.last())
    }
}

pub open spec fn process_step(c: IperfCounters, p: ProcessView) -> IperfCounters {
    if p.name == iperf_name() {
        fold_udp(fold_tcp(c, p.tlinks), p.ulinks)
    } else {
        c
    }
}

/// The counters over the processes `procs`, all zero at first; where
/// several links qualify, the last one seen wins.
pub open spec fn fold_procs(c: IperfCounters, procs: Seq<ProcessView>) -> IperfCounters
    decreases procs.len(),
{
    if procs.len() == 0 {
        c
    } else {
        process_step(fold_procs(c, procs.drop_last()), procs.last())
    }
}

pub open spec fn zero_counters() -> IperfCounters {
    IperfCounters {
        tcp4_rx: 0,
        tcp4_tx: 0,
        tcp6_rx: 0,
        tcp6_tx: 0,
        udp4_rx: 0,
        udp4_tx: 0,
        udp6_rx: 0,
        udp6_tx: 0,
    }
}

fn tcp_links(c: &mut IperfCounters, links: &Vec<Link>)
    ensures
        *final(c) == fold_tcp(*old(c), crate::net::links_view(links@)),
{
    let ghost lv = crate::net::links_view(links@);
    let mut j: usize = 0;
    while j < links.len()
        invariant
            0 <= j <= links@.len(),
            lv == crate::net::links_view(links@),
            *c == fold_tcp(*old(c), lv.subrange(0, j as int)),
        decreases links@.len() - j,
    {
        let l = &links[j];
        proof {
            let s = lv.subrange(0, j + 1);
            assert(s.drop_last() =~= lv.subrange(0, j as int));
            assert(s.last() == l@);
        }
        if l.rx == 0 {
            if l.saddr.is_ipv4() {
                c.tcp4_tx = l.tx;
            } else {
                c.tcp6_tx = l.tx;
            }
        } else if l.tx == 0 {
            if l.saddr.is_ipv4() {
                c.tcp4_rx = l.rx;
            } else {
                c.tcp6_rx = l.rx;
            }
        }
        j = j + 1;
    }
    proof {
        assert(lv.subrange(0, links@.len() as int) =~= lv);
    }
}

fn udp_links(c: &mut IperfCounters, links: &Vec<Link>)
    ensures
        *final(c) == fold_udp(*old(c), crate::net::links_view(links@)),
{
    let ghost lv = crate::net::links_view(links@);
    let mut j: usize = 0;
    while j < links.len()
        invariant
            0 <= j <= links@.len(),
            lv == crate::net::links_view(links@),
            *c == fold_udp(*old(c), lv.subrange(0, j as int)),
        decreases links@.len() - j,
    {
        let l = &links[j];
        proof {
            let s = lv.subrange(0, j + 1);
            assert(s.drop_last() =~= lv.subrange(0, j as int));
            assert(s.last() == l@);
        }
        let specified = !l.daddr.is_unspecified();
        if l.rx == 4 && specified {
            if l.saddr.is_ipv4() {
                c.udp4_tx = l.tx;
            } else {
                c.udp6_tx = l.tx;
            }
        } else if l.tx == 4 && specified {
            if l.saddr.is_ipv4() {
                c.udp4_rx = l.rx;
            } else {
                c.udp6_rx = l.rx;
            }
        }
        j = j + 1;
    }
    proof {
        assert(lv.subrange(0, links@.len() as int) =~= lv);
    }
}

/// The counters that an iperf run reports: over the processes named
/// "iperf3", the TCP links with nothing received or nothing sent, and the
/// UDP links to a specified address with exactly 4 bytes the other way.
pub fn iperf_counters(table: &ProcessTable) -> (r: IperfCounters)
    ensures
        r == fold_procs(zero_counters(), table@),
{
    proof {
        reveal_strlit("iperf3");
    }
    let target = String::from_str("iperf3");
    let procs = table.processes();
    let mut c = IperfCounters {
        tcp4_rx: 0,
        tcp4_tx: 0,
        tcp6_rx: 0,
        tcp6_tx: 0,
        udp4_rx: 0,
        udp4_tx: 0,
        udp6_rx: 0,
        udp6_tx: 0,
    };
    let mut i: usize = 0;
    while i < procs.len()
        invariant
            0 <= i <= procs@.len(),
            target@ == iperf_name(),
            crate::table::procs_view(procs@) == table@,
            c == fold_procs(zero_counters(), table@.subrange(0, i as int)),
        decreases procs@.len() - i,
    {
        let p = &procs[i];
        proof {
            let s = table@.subrange(0, i + 1);
            assert(s.drop_last() =~= table@.subrange(0, i as int));
            assert(s.last() == p@);
        }
        if p.name == target {
            tcp_links(&mut c, &p.tlinks);
            udp_links(&mut c, &p.ulinks);
        }
        i = i + 1;
    }
    proof {
        assert(table@.subrange(0, procs@.len() as int) =~= table@);
    }
    c
}

} // verus!
