use vstd::prelude::*;
use crate::addr::IpAddress;

verus! {

/// Transport protocol of a link. Its store id is its position: TCP is 0,
/// UDP is 1 and NONE is 2.
#[derive(Clone, Copy, Debug, PartialEq, Eq, Structural)]
pub enum Prot {
    TCP,
    UDP,
    NONE,
}

pub open spec fn prot_id(p: Prot) -> u8 {
    match p {
        Prot::TCP => 0,
        Prot::UDP => 1,
        Prot::NONE => 2,
    }
}

pub open spec fn prot_name(p: Prot) -> Seq<char> {
    match p {
        Prot::TCP => "TCP"@,
        Prot::UDP => "UDP"@,
        Prot::NONE => "NONE"@,
    }
}

impl Prot {
    /// The protocol's id in the store.
    pub fn id(&self) -> (r: u8)
        ensures
            r == prot_id(*self),
    {
        match self {
            Prot::TCP => 0,
            Prot::UDP => 1,
            Prot::NONE => 2,
        }
    }

    /// The protocol whose store id is `id`; ids other than 0 and 1 are NONE.
    pub fn from_id(id: i64) -> (r: Prot)
        ensures
            r == (if id == 0 {
                Prot::TCP
            } else if id == 1 {
                Prot::UDP
            } else {
                Prot::NONE
            }),
    {
        if id == 0 {
            Prot::TCP
        } else if id == 1 {
            Prot::UDP
        } else {
            Prot::NONE
        }
    }

    /// The protocol's display name.
    pub fn name(&self) -> (r: &'static str)
        ensures
            r@ == prot_name(*self),
    {
        proof {
            reveal_strlit("TCP");
            reveal_strlit("UDP");
            reveal_strlit("NONE");
        }
        match self {
            Prot::TCP => "TCP",
            Prot::UDP => "UDP",
            Prot::NONE => "NONE",
        }
    }
}

/// The two's-complement sum of a counter and a delta, as a 64-bit counter
/// would hold it.
pub open spec fn add_count(c: i64, d: i64) -> i64 {
    if c + d > i64::MAX {
        (c + d - 0x1_0000_0000_0000_0000) as i64
    } else if c + d < i64::MIN {
        (c + d + 0x1_0000_0000_0000_0000) as i64
    } else {
        (c + d) as i64
    }
}

/// A connection seen by one process: the 5-tuple
/// (saddr, daddr, lport, dport, prot), its received and transmitted byte
/// counts, and the host name of the destination (empty when unknown).
#[derive(Clone, Debug)]
pub struct Link {
    pub saddr: IpAddress,
    pub daddr: IpAddress,
    pub lport: u16,
    pub dport: u16,
    pub rx: i64,
    pub tx: i64,
    pub prot: Prot,
    pub domain: String,
}

pub struct LinkView {
    pub saddr: IpAddress,
    pub daddr: IpAddress,
    pub lport: u16,
    pub dport: u16,
    pub rx: i64,
    pub tx: i64,
    pub prot: Prot,
    pub domain: Seq<char>,
}

impl View for Link {
    type V = LinkView;

    open spec fn view(&self) -> LinkView {
        LinkView {
            saddr: self.saddr,
            daddr: self.daddr,
            lport: self.lport,
            dport: self.dport,
            rx: self.rx,
            tx: self.tx,
            prot: self.prot,
            domain: self.domain@,
        }
    }
}

/// The counters after `size` bytes went in direction `is_rx`: received when
/// `is_rx == 1`, transmitted otherwise.
pub open spec fn link_add(l: LinkView, size: i64, is_rx: u32) -> LinkView {
    if is_rx == 1 {
        LinkView { rx: add_count(l.rx, size), ..l }
    } else {
        LinkView { tx: add_count(l.tx, size), ..l }
    }
}

/// Two links are the same link when their 5-tuples are equal.
pub open spec fn same_tuple(a: LinkView, b: LinkView) -> bool {
    a.saddr == b.saddr && a.daddr == b.daddr && a.lport == b.lport && a.dport == b.dport
        && a.prot == b.prot
}

impl Link {
    /// A link with no traffic, no domain and protocol NONE.
    pub fn new(saddr: IpAddress, daddr: IpAddress, lport: u16, dport: u16) -> (r: Link)
        ensures
            r@ == (LinkView {
                saddr,
                daddr,
                lport,
                dport,
                rx: 0,
                tx: 0,
                prot: Prot::NONE,
                domain: Seq::empty(),
            }),
    {
        Link { saddr, daddr, lport, dport, rx: 0, tx: 0, prot: Prot::NONE, domain: String::new() }
    }

    /// Counts `size` bytes as received when `is_rx == 1`, as transmitted
    /// otherwise.
    pub fn add_data(&mut self, size: i64, is_rx: u32)
        ensures
            final(self)@ == link_add(old(self)@, size, is_rx),
    {
        if is_rx == 1 {
            self.rx = self.rx.wrapping_add(size);
        } else {
            self.tx = self.tx.wrapping_add(size);
        }
    }

    pub fn rx(&mut self, rx: i64) -> (r: &mut Self)
        ensures
            (*r)@ == (LinkView { rx, ..old(self)@ }),
            *final(self) == *final(r),
    {
        self.rx = rx;
        self
    }

    pub fn tx(&mut self, tx: i64) -> (r: &mut Self)
        ensures
            (*r)@ == (LinkView { tx, ..old(self)@ }),
            *final(self) == *final(r),
    {
        self.tx = tx;
        self
    }

    pub fn prot(&mut self, prot: Prot) -> (r: &mut Self)
        ensures
            (*r)@ == (LinkView { prot, ..old(self)@ }),
            *final(self) == *final(r),
    {
        self.prot = prot;
        self
    }

    pub fn domain(&mut self, name: String) -> (r: &mut Self)
        ensures
            (*r)@ == (LinkView { domain: name@, ..old(self)@ }),
            *final(self) == *final(r),
    {
        self.domain = name;
        self
    }

    pub fn get_saddr(&self) -> (r: IpAddress)
        ensures
            r == self.saddr,
    {
        self.saddr
    }

    pub fn get_daddr(&self) -> (r: IpAddress)
        ensures
            r == self.daddr,
    {
        self.daddr
    }

    pub fn get_lport(&self) -> (r: u16)
        ensures
            r == self.lport,
    {
        self.lport
    }

    pub fn get_dport(&self) -> (r: u16)
        ensures
            r == self.dport,
    {
        self.dport
    }

    pub fn get_rx_tx(&self) -> (r: (i64, i64))
        ensures
            r == (self.rx, self.tx),
    {
        (self.rx, self.tx)
    }

    /// The store id of the link's protocol.
    pub fn get_prot(&self) -> (r: u8)
        ensures
            r == prot_id(self.prot),
    {
        self.prot.id()
    }

    pub fn get_domain(&self) -> (r: &String)
        ensures
            r@ == self.domain@,
    {
        &self.domain
    }
}

impl Link {
    /// The tuple, the counters, the protocol id and the domain, in that
    /// order.
    pub fn get_all_info(&self) -> (r: (IpAddress, IpAddress, u16, u16, i64, i64, u8, &String))
        ensures
            r.0 == self.saddr && r.1 == self.daddr && r.2 == self.lport && r.3 == self.dport,
            r.4 == self.rx && r.5 == self.tx,
            r.6 == prot_id(self.prot),
            r.7@ == self.domain@,
    {
        (self.saddr, self.daddr, self.lport, self.dport, self.rx, self.tx, self.prot.id(), &self.domain)
    }
}

impl PartialEq for Link {
    fn eq(&self, other: &Link) -> (r: bool)
        ensures
            r == same_tuple(self@, other@),
    {
        self.saddr == other.saddr && self.daddr == other.daddr && self.lport == other.lport
            && self.dport == other.dport && self.prot == other.prot
    }
}

impl vstd::std_specs::cmp::PartialEqSpecImpl for Link {
    open spec fn obeys_eq_spec() -> bool {
        true
    }

    open spec fn eq_spec(&self, other: &Link) -> bool {
        same_tuple(self@, other@)
    }
}


/// A process that used the network: its pid and name, its TCP and UDP
/// links in the order they were first seen, its received and transmitted
/// byte counts, and the date (YYYYMMDD) the record belongs to.
#[derive(Clone, Debug)]
pub struct Process {
    pub pid: u32,
    pub name: String,
    pub tlinks: Vec<Link>,
    pub ulinks: Vec<Link>,
    pub rx: i64,
    pub tx: i64,
    pub date: u32,
}

pub struct ProcessView {
    pub pid: u32,
    pub name: Seq<char>,
    pub tlinks: Seq<LinkView>,
    pub ulinks: Seq<LinkView>,
    pub rx: i64,
    pub tx: i64,
    pub date: u32,
}

pub open spec fn links_view(v: Seq<Link>) -> Seq<LinkView> {
    v.map_values(|l: Link| l@)
}

impl View for Process {
    type V = ProcessView;

    open spec fn view(&self) -> ProcessView {
        ProcessView {
            pid: self.pid,
            name: self.name@,
            tlinks: links_view(self.tlinks@),
            ulinks: links_view(self.ulinks@),
            rx: self.rx,
            tx: self.tx,
            date: self.date,
        }
    }
}

/// The process counters after `size` bytes went in direction `is_rx`.
pub open spec fn process_add(p: ProcessView, size: i64, is_rx: u32) -> ProcessView {
    if is_rx == 1 {
        ProcessView { rx: add_count(p.rx, size), ..p }
    } else {
        ProcessView { tx: add_count(p.tx, size), ..p }
    }
}

impl Process {
    /// A process with an empty name, no links, no traffic and date 0.
    pub fn new(pid: u32) -> (r: Process)
        ensures
            r@ == (ProcessView {
                pid,
                name: Seq::empty(),
                tlinks: Seq::empty(),
                ulinks: Seq::empty(),
                rx: 0,
                tx: 0,
                date: 0,
            }),
    {
        let r = Process {
            pid,
            name: String::new(),
            tlinks: Vec::new(),
            ulinks: Vec::new(),
            rx: 0,
            tx: 0,
            date: 0,
        };
        proof {
            assert(links_view(r.tlinks@) =~= Seq::empty());
            assert(links_view(r.ulinks@) =~= Seq::empty());
        }
        r
    }

    /// Counts `size` bytes as received when `is_rx == 1`, as transmitted
    /// otherwise.
    pub fn add_data(&mut self, size: i64, is_rx: u32)
        ensures
            final(self)@ == process_add(old(self)@, size, is_rx),
    {
        if is_rx == 1 {
            self.rx = self.rx.wrapping_add(size);
        } else {
            self.tx = self.tx.wrapping_add(size);
        }
    }

    pub fn name(&mut self, name: String) -> (r: &mut Self)
        ensures
            (*r)@ == (ProcessView { name: name@, ..old(self)@ }),
            *final(self) == *final(r),
    {
        self.name = name;
        self
    }

    pub fn rx(&mut self, rx: i64) -> (r: &mut Self)
        ensures
            (*r)@ == (ProcessView { rx, ..old(self)@ }),
            *final(self) == *final(r),
    {
        self.rx = rx;
        self
    }

    pub fn tx(&mut self, tx: i64) -> (r: &mut Self)
        ensures
            (*r)@ == (ProcessView { tx, ..old(self)@ }),
            *final(self) == *final(r),
    {
        self.tx = tx;
        self
    }

    pub fn date(&mut self, date: u32) -> (r: &mut Self)
        ensures
            (*r)@ == (ProcessView { date, ..old(self)@ }),
            *final(self) == *final(r),
    {
        self.date = date;
        self
    }

    pub fn get_pid(&self) -> (r: u32)
        ensures
            r == self.pid,
    {
        self.pid
    }

    pub fn get_name(&self) -> (r: &String)
        ensures
            r@ == self.name@,
    {
        &self.name
    }

    pub fn get_tlinks(&self) -> (r: &Vec<Link>)
        ensures
            r@ == self.tlinks@,
    {
        &self.tlinks
    }

    pub fn get_ulinks(&self) -> (r: &Vec<Link>)
        ensures
            r@ == self.ulinks@,
    {
        &self.ulinks
    }

    pub fn get_rx_tx(&self) -> (r: (i64, i64))
        ensures
            r == (self.rx, self.tx),
    {
        (self.rx, self.tx)
    }

    pub fn get_date(&self) -> (r: u32)
        ensures
            r == self.date,
    {
        self.date
    }

    pub fn get_all_info(&self) -> (r: (u32, &String, &Vec<Link>, &Vec<Link>, i64, i64))
        ensures
            r.0 == self.pid,
            r.1@ == self.name@,
            r.2@ == self.tlinks@,
            r.3@ == self.ulinks@,
            r.4 == self.rx,
            r.5 == self.tx,
    {
        (self.pid, &self.name, &self.tlinks, &self.ulinks, self.rx, self.tx)
    }
}

impl PartialEq for Process {
    fn eq(&self, other: &Process) -> (r: bool)
        ensures
            r == (self.pid == other.pid),
    {
        self.pid == other.pid
    }
}

impl vstd::std_specs::cmp::PartialEqSpecImpl for Process {
    open spec fn obeys_eq_spec() -> bool {
        true
    }

    open spec fn eq_spec(&self, other: &Process) -> bool {
        self.pid == other.pid
    }
}

/// Unit of a grouped byte count; its index is the number of divisions by
/// 1024.
#[derive(Clone, Copy, Debug, PartialEq, Eq, Structural)]
pub enum DataUnit {
    Bytes,
    KBytes,
    MBytes,
    GBytes,
    TBytes,
}

pub open spec fn unit_index(u: DataUnit) -> nat {
    match u {
        DataUnit::Bytes => 0,
        DataUnit::KBytes => 1,
        DataUnit::MBytes => 2,
        DataUnit::GBytes => 3,
        DataUnit::TBytes => 4,
    }
}

pub open spec fn unit_symbol(u: DataUnit) -> Seq<char> {
    match u {
        DataUnit::Bytes => "B"@,
        DataUnit::KBytes => "KB"@,
        DataUnit::MBytes => "MB"@,
        DataUnit::GBytes => "GB"@,
        DataUnit::TBytes => "TB"@,
    }
}

/// 1024 to the power `n`.
pub open spec fn pow1024(n: nat) -> int
    decreases n,
{
    if n == 0 {
        1
    } else {
        1024 * pow1024((n - 1) as nat)
    }
}

/// The unit of `bytes`: the number of times 1024 divides into it, capped
/// at TB; counts below 1024 (negative ones too) are in bytes.
pub open spec fn spec_unit_of(bytes: i64) -> DataUnit {
    if bytes < 1024 {
        DataUnit::Bytes
    } else if bytes < 1024 * 1024 {
        DataUnit::KBytes
    } else if bytes < 1024 * 1024 * 1024 {
        DataUnit::MBytes
    } else if bytes < 1024 * 1024 * 1024 * 1024 {
        DataUnit::GBytes
    } else {
        DataUnit::TBytes
    }
}

/// `bytes` expressed in its unit `u`: the quotient and the remainder of
/// `bytes` by `1024^index(u)`, so that the value shown is
/// `whole + rem / 1024^index(u)`.
pub open spec fn spec_group_bytes(bytes: i64) -> (i64, i64, DataUnit) {
    let u = spec_unit_of(bytes);
    ((bytes as int / pow1024(unit_index(u))) as i64, (bytes as int % pow1024(unit_index(u))) as i64, u)
}

impl DataUnit {
    pub fn index(&self) -> (r: u32)
        ensures
            r == unit_index(*self),
    {
        match self {
            DataUnit::Bytes => 0,
            DataUnit::KBytes => 1,
            DataUnit::MBytes => 2,
            DataUnit::GBytes => 3,
            DataUnit::TBytes => 4,
        }
    }

    /// The unit of index `i`, or `None` past TB.
    pub fn from_index(i: u32) -> (r: Option<DataUnit>)
        ensures
            i <= 4 ==> r is Some && unit_index(r->0) == i,
            i > 4 ==> r is None,
    {
        match i {
            0 => Some(DataUnit::Bytes),
            1 => Some(DataUnit::KBytes),
            2 => Some(DataUnit::MBytes),
            3 => Some(DataUnit::GBytes),
            4 => Some(DataUnit::TBytes),
            _ => None,
        }
    }

    /// The unit's symbol: B, KB, MB, GB or TB.
    pub fn symbol(&self) -> (r: &'static str)
        ensures
            r@ == unit_symbol(*self),
    {
        proof {
            reveal_strlit("B");
            reveal_strlit("KB");
            reveal_strlit("MB");
            reveal_strlit("GB");
            reveal_strlit("TB");
        }
        match self {
            DataUnit::Bytes => "B",
            DataUnit::KBytes => "KB",
            DataUnit::MBytes => "MB",
            DataUnit::GBytes => "GB",
            DataUnit::TBytes => "TB",
        }
    }
}

pub(crate) proof fn lemma_pow1024_values()
    ensures
        pow1024(0) == 1,
        pow1024(1) == 1024,
        pow1024(2) == 1024 * 1024,
        pow1024(3) == 1024 * 1024 * 1024,
        pow1024(4) == 1024 * 1024 * 1024 * 1024,
{
    reveal_with_fuel(pow1024, 5);
}

/// Groups a byte count for display: divides it by 1024 while it stays at
/// or above 1024, at most four times. Returns the quotient, the remainder
/// and the unit.
pub fn group_bytes(bytes: i64) -> (r: (i64, i64, DataUnit))
    ensures
        r == spec_group_bytes(bytes),
{
    proof {
        lemma_pow1024_values();
    }
    if bytes < 1024 {
        return (bytes, 0, DataUnit::Bytes);
    }
    let mut div: i64 = 1;
    let mut i: u32 = 0;
    while i < 4 && bytes >= div * 1024
        invariant
            0 <= i <= 4,
            div == pow1024(i as nat),
            bytes >= div,
            pow1024(0) == 1,
            pow1024(1) == 1024,
            pow1024(2) == 1024 * 1024,
            pow1024(3) == 1024 * 1024 * 1024,
            pow1024(4) == 1024 * 1024 * 1024 * 1024,
        decreases 4 - i,
    {
        div = div * 1024;
        i = i + 1;
    }
    let unit = match DataUnit::from_index(i) {
        Some(u) => u,
        None => DataUnit::Bytes,
    };
    (bytes / div, bytes % div, unit)
}

/// The grouped form of a byte count gives the count back, and its
/// quotient stays below 1024 unless the unit is TB.
pub proof fn law_group_bytes_round_trip(bytes: i64)
    ensures
        ({
            let (whole, rem, u) = spec_group_bytes(bytes);
            &&& whole * pow1024(unit_index(u)) + rem == bytes
            &&& (unit_index(u) < 4 ==> whole < 1024)
            &&& (bytes >= 0 ==> 0 <= rem < pow1024(unit_index(u)))
        }),
{
    lemma_pow1024_values();
    let b = bytes as int;
    let u = spec_unit_of(bytes);
    let p = pow1024(unit_index(u));
    if b < 1024 {
        assert(b / 1 == b && b % 1 == 0) by (nonlinear_arith);
    } else {
        assert(p >= 1 && p <= b);
        vstd::arithmetic::div_mod::lemma_fundamental_div_mod(b, p);
        vstd::arithmetic::div_mod::lemma_mod_pos_bound(b, p);
        let q = b / p;
        let r = b % p;
        assert(q >= 0 && q <= b) by (nonlinear_arith)
            requires
                b == p * q + r,
                0 <= r < p,
                p >= 1,
                b >= 0,
        ;
        if unit_index(u) < 4 {
            assert(b < 1024 * p);
            assert(q < 1024) by (nonlinear_arith)
                requires
                    b == p * q + r,
                    0 <= r,
                    p >= 1,
                    b < 1024 * p,
            ;
        }
        assert(p * q == q * p) by (nonlinear_arith);
    }
}

} // verus!
