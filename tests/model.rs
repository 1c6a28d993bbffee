use sekhmet::addr::IpAddress;
use sekhmet::date::{current_date, pack_date, Date};
use sekhmet::display::amount_str;
use sekhmet::enrich::process_name;
use sekhmet::iperf::iperf_counters;
use sekhmet::net::{group_bytes, DataUnit, Link, Process, Prot};
use sekhmet::record::{decode_ipv4, decode_ipv6, Event, IPV4_RECORD_LEN, IPV6_RECORD_LEN};
use sekhmet::store::{get_procs, snapshot_rows};
use sekhmet::table::ProcessTable;
use sekhmet::util::{Signal, StatefulList, TabsState};

fn event(pid: u32, daddr: IpAddress, dport: u16, size: u32, is_rx: u32, prot: Prot) -> Event {
    Event {
        pid,
        saddr: IpAddress::v4(192, 168, 1, 2),
        daddr,
        lport: 4321,
        dport,
        size,
        is_rx,
        prot,
    }
}

fn private_dst() -> IpAddress {
    IpAddress::v4(10, 10, 100, 200)
}

fn feed(table: &mut ProcessTable, ev: &Event, name: &str, domain: &str) {
    let needs = table.lookups_needed(ev);
    let name = if needs.name { name.to_string() } else { String::new() };
    let domain = if needs.domain { domain.to_string() } else { String::new() };
    table.ingest(ev, name, domain);
}

#[test]
fn two_directions_share_one_link() {
    let mut t = ProcessTable::new(20210703);
    feed(&mut t, &event(1234, private_dst(), 80, 56789, 1, Prot::TCP), "curl", "");
    feed(&mut t, &event(1234, private_dst(), 80, 567890, 0, Prot::TCP), "curl", "");
    let p = &t.processes()[0];
    assert_eq!(t.len(), 1);
    assert_eq!((p.rx, p.tx), (56789, 567890));
    assert_eq!(p.tlinks.len(), 1);
    assert_eq!(p.ulinks.len(), 0);
    assert_eq!(p.tlinks[0].get_rx_tx(), (56789, 567890));
    assert_eq!(p.name, "curl");
    assert_eq!(p.date, 20210703);
}

#[test]
fn two_processes_on_one_tuple() {
    let mut t = ProcessTable::new(0);
    feed(&mut t, &event(1234, private_dst(), 80, 56789, 1, Prot::TCP), "a", "");
    feed(&mut t, &event(5678, private_dst(), 80, 56789, 1, Prot::TCP), "b", "");
    assert_eq!(t.len(), 2);
    for p in t.processes() {
        assert_eq!(p.tlinks.len(), 1);
    }
    assert_eq!(t.processes()[0].pid, 1234);
    assert_eq!(t.processes()[1].pid, 5678);
}

#[test]
fn udp_events_fill_the_udp_list() {
    let mut t = ProcessTable::new(0);
    feed(&mut t, &event(1234, private_dst(), 80, 56789, 1, Prot::UDP), "a", "");
    feed(&mut t, &event(1234, private_dst(), 80, 567890, 0, Prot::UDP), "a", "");
    let p = &t.processes()[0];
    assert_eq!(p.tlinks.len(), 0);
    assert_eq!(p.ulinks.len(), 1);
    assert_eq!(p.ulinks[0].prot, Prot::UDP);
    assert_eq!((p.rx, p.tx), (56789, 567890));
}

#[test]
fn snapshot_then_query_round_trip() {
    let mut t = ProcessTable::new(0);
    feed(&mut t, &event(1234, private_dst(), 80, 56789, 1, Prot::TCP), "curl", "");
    feed(&mut t, &event(1234, private_dst(), 80, 567890, 0, Prot::TCP), "curl", "");
    let snap = snapshot_rows(&t, 20210703);
    assert_eq!(snap.processes.len(), 1);
    assert_eq!(snap.links.len(), 1);
    assert_eq!(snap.links[0].prot_id, 0);
    let procs = get_procs(&snap.processes, &snap.links);
    assert_eq!(procs.len(), 1);
    let p = &procs[0];
    assert_eq!((p.pid, p.rx, p.tx, p.date), (1234, 56789, 567890, 20210703));
    assert_eq!(p.name, "curl");
    assert_eq!(p.tlinks.len(), 1);
    let l = &p.tlinks[0];
    assert_eq!((l.saddr, l.daddr, l.lport, l.dport, l.prot), (IpAddress::v4(192, 168, 1, 2), private_dst(), 4321, 80, Prot::TCP));
    assert_eq!(l.get_rx_tx(), (56789, 567890));
}

#[test]
fn snapshot_twice_gives_the_same_rows() {
    let mut t = ProcessTable::new(0);
    feed(&mut t, &event(1, private_dst(), 80, 10, 1, Prot::TCP), "a", "");
    feed(&mut t, &event(1, private_dst(), 53, 20, 0, Prot::UDP), "a", "");
    feed(&mut t, &event(2, private_dst(), 80, 30, 0, Prot::TCP), "b", "");
    let s1 = snapshot_rows(&t, 7);
    let s2 = snapshot_rows(&t, 7);
    assert_eq!(s1.processes.len(), 2);
    assert_eq!(s1.links.len(), 3);
    for (a, b) in s1.processes.iter().zip(s2.processes.iter()) {
        assert_eq!((a.pid, a.date, &a.name, a.rx, a.tx), (b.pid, b.date, &b.name, b.rx, b.tx));
    }
    for (a, b) in s1.links.iter().zip(s2.links.iter()) {
        assert_eq!((a.pid, a.saddr, a.daddr, a.lport, a.dport, a.rx, a.tx, a.prot_id), (b.pid, b.saddr, b.daddr, b.lport, b.dport, b.rx, b.tx, b.prot_id));
    }
    assert_eq!(s1.links[1].prot_id, 1);
}

#[test]
fn get_procs_drops_other_dates_and_protocols() {
    let mut t = ProcessTable::new(0);
    feed(&mut t, &event(1, private_dst(), 80, 10, 1, Prot::TCP), "a", "");
    let mut snap = snapshot_rows(&t, 7);
    let mut other = snap.links[0].clone();
    other.date = 8;
    snap.links.push(other);
    let mut none = snap.links[0].clone();
    none.prot_id = 2;
    snap.links.push(none);
    let procs = get_procs(&snap.processes, &snap.links);
    assert_eq!(procs[0].tlinks.len(), 1);
    assert_eq!(procs[0].ulinks.len(), 0);
}

#[test]
fn counters_never_decrease() {
    let mut t = ProcessTable::new(0);
    let mut last = (0i64, 0i64);
    for (i, size) in [5u32, 0, 70, 1, 9999].iter().enumerate() {
        feed(&mut t, &event(9, private_dst(), 80, *size, (i % 2) as u32, Prot::TCP), "n", "");
        let now = t.processes()[0].get_rx_tx();
        assert!(now.0 >= last.0 && now.1 >= last.1);
        last = now;
    }
}

#[test]
fn one_record_per_pid_and_one_link_per_tuple() {
    let mut t = ProcessTable::new(0);
    for _ in 0..3 {
        feed(&mut t, &event(9, private_dst(), 80, 1, 1, Prot::TCP), "n", "");
        feed(&mut t, &event(9, private_dst(), 443, 1, 1, Prot::TCP), "n", "");
    }
    assert_eq!(t.len(), 1);
    assert_eq!(t.processes()[0].tlinks.len(), 2);
    assert_eq!(t.processes()[0].tlinks[0].dport, 80);
    assert_eq!(t.processes()[0].tlinks[1].dport, 443);
}

#[test]
fn counter_conservation_over_a_flow() {
    let mut t = ProcessTable::new(0);
    let evs = [(100u32, 1u32), (7, 0), (50, 1), (3, 5), (1, 1)];
    for (size, dir) in evs.iter() {
        feed(&mut t, &event(42, private_dst(), 80, *size, *dir, Prot::UDP), "n", "");
    }
    let p = &t.processes()[0];
    assert_eq!(p.ulinks[0].get_rx_tx(), (151, 10));
    assert_eq!(p.get_rx_tx(), (151, 10));
}

#[test]
fn name_and_domain_are_set_once() {
    let mut t = ProcessTable::new(0);
    let global = IpAddress::v4(8, 8, 8, 8);
    let ev = event(3, global, 53, 10, 0, Prot::UDP);
    let needs = t.lookups_needed(&ev);
    assert!(needs.name && needs.domain);
    t.ingest(&ev, "dig".to_string(), "dns.google".to_string());
    let needs = t.lookups_needed(&ev);
    assert!(!needs.name && !needs.domain);
    t.ingest(&ev, "other".to_string(), "other".to_string());
    let p = &t.processes()[0];
    assert_eq!(p.name, "dig");
    assert_eq!(p.ulinks[0].get_domain(), "dns.google");
    assert_eq!(p.ulinks[0].tx, 20);
    let local = event(3, private_dst(), 53, 10, 0, Prot::UDP);
    assert!(!t.lookups_needed(&local).domain);
    t.ingest(&local, String::new(), "ignored".to_string());
    assert_eq!(t.processes()[0].ulinks[1].domain, "");
}

#[test]
fn negative_delta_counts_down() {
    let mut l = Link::new(IpAddress::v4(1, 2, 3, 4), IpAddress::v4(5, 6, 7, 8), 1, 2);
    l.add_data(100, 1);
    l.add_data(-30, 1);
    l.add_data(5, 2);
    assert_eq!(l.get_rx_tx(), (70, 5));
    assert_eq!(l.get_prot(), 2);
    l.rx(i64::MAX).add_data(1, 1);
    assert_eq!(l.rx, i64::MIN);
}

#[test]
fn process_builders_and_equality() {
    let mut p = Process::new(1);
    p.name("init".to_string()).rx(10).tx(200).date(20210703);
    assert_eq!(p.get_all_info().0, 1);
    assert_eq!(p.get_all_info().1, "init");
    assert_eq!(p.get_rx_tx(), (10, 200));
    assert_eq!(p.get_date(), 20210703);
    let mut q = Process::new(1);
    q.rx(40);
    assert!(p == q);
    assert!(p != Process::new(2));
    let mut a = Link::new(IpAddress::v4(127, 0, 0, 1), IpAddress::v4(217, 1, 1, 0), 12345, 443);
    a.prot(Prot::TCP).rx(12000).tx(3400).domain("somewhere.inthe.cloud".to_string());
    let mut b = Link::new(IpAddress::v4(127, 0, 0, 1), IpAddress::v4(217, 1, 1, 0), 12345, 443);
    b.prot(Prot::TCP);
    assert!(a == b);
    b.prot(Prot::UDP);
    assert!(a != b);
}

#[test]
fn byte_grouping_round_trip_and_cap() {
    for b in [0i64, 1, 1023, 1024, 1536, 1048575, 1048576, 5368709120, 1i64 << 40, (1i64 << 50) + 17, i64::MAX] {
        let (whole, rem, unit) = group_bytes(b);
        let div = 1i64 << (10 * unit.index());
        assert_eq!(whole * div + rem, b);
        assert!(rem >= 0 && rem < div);
        if unit.index() < 4 {
            assert!(whole < 1024);
        }
    }
    assert_eq!(group_bytes(1i64 << 50), (1024, 0, DataUnit::TBytes));
    assert_eq!(group_bytes(-5), (-5, 0, DataUnit::Bytes));
    assert_eq!(group_bytes(1023), (1023, 0, DataUnit::Bytes));
    assert_eq!(group_bytes(1024), (1, 0, DataUnit::KBytes));
    assert_eq!(DataUnit::MBytes.symbol(), "MB");
    assert_eq!(DataUnit::from_index(5), None);
}

#[test]
fn decoder_reads_fields_at_their_offsets() {
    let mut b = vec![0u8; IPV4_RECORD_LEN];
    b[0..4].copy_from_slice(&0x01020304u32.to_le_bytes());
    b[4..8].copy_from_slice(&[192, 168, 1, 2]);
    b[8..12].copy_from_slice(&[8, 8, 4, 4]);
    b[12..14].copy_from_slice(&4321u16.to_le_bytes());
    b[14..16].copy_from_slice(&443u16.to_le_bytes());
    b[16..20].copy_from_slice(&70000u32.to_le_bytes());
    b[20..24].copy_from_slice(&1u32.to_le_bytes());
    let ev = decode_ipv4(&b, Prot::TCP);
    assert_eq!(ev.pid, 0x01020304);
    assert_eq!(ev.saddr, IpAddress::V4(0xC0A80102));
    assert_eq!(ev.daddr, IpAddress::v4(8, 8, 4, 4));
    assert_eq!((ev.lport, ev.dport, ev.size, ev.is_rx), (4321, 443, 70000, 1));
    let mut c = vec![0u8; IPV6_RECORD_LEN];
    c[15] = 1;
    c[16] = 0x20;
    c[17] = 0x01;
    c[32..36].copy_from_slice(&77u32.to_le_bytes());
    c[40..44].copy_from_slice(&9u32.to_le_bytes());
    c[44..48].copy_from_slice(&3u32.to_le_bytes());
    let ev = decode_ipv6(&c, Prot::UDP);
    assert_eq!(ev.saddr, IpAddress::V6(1));
    assert_eq!(ev.daddr, IpAddress::V6(0x2001u128 << 112));
    assert_eq!((ev.pid, ev.size, ev.is_rx, ev.prot), (77, 9, 3, Prot::UDP));
}

#[test]
fn global_addresses() {
    assert!(IpAddress::v4(8, 8, 8, 8).is_global());
    assert!(IpAddress::v4(172, 32, 0, 1).is_global());
    for a in [
        IpAddress::v4(0, 0, 0, 0),
        IpAddress::v4(127, 0, 0, 1),
        IpAddress::v4(10, 1, 2, 3),
        IpAddress::v4(172, 16, 0, 1),
        IpAddress::v4(172, 31, 255, 255),
        IpAddress::v4(192, 168, 0, 1),
        IpAddress::v4(169, 254, 1, 1),
        IpAddress::v4(224, 0, 0, 1),
        IpAddress::v6([0, 0, 0, 0, 0, 0, 0, 0]),
        IpAddress::v6([0, 0, 0, 0, 0, 0, 0, 1]),
        IpAddress::v6([0xfe80, 0, 0, 0, 0, 0, 0, 1]),
        IpAddress::v6([0xfd00, 0, 0, 0, 0, 0, 0, 1]),
        IpAddress::v6([0xff02, 0, 0, 0, 0, 0, 0, 1]),
    ] {
        assert!(!a.is_global(), "{:?}", a);
    }
    assert!(IpAddress::v6([0x2606, 0x4700, 0x3033, 0, 0, 0, 0x681f, 0x4bdf]).is_global());
    assert!(IpAddress::v4(0, 0, 0, 0).is_unspecified());
    assert!(!IpAddress::v6([0x2001, 0, 0, 0, 0, 0, 0, 0]).is_ipv4());
}

#[test]
fn comm_contents_to_name() {
    assert_eq!(process_name(Some("bash\n".to_string())), "bash");
    assert_eq!(process_name(Some("bash".to_string())), "bash");
    assert_eq!(process_name(Some(String::new())), "");
    assert_eq!(process_name(None), "file not found");
}

#[test]
fn dates_pack_and_label() {
    assert_eq!(pack_date(2021, 7, 3), Some(20210703));
    assert_eq!(pack_date(-1, 7, 3), None);
    assert_eq!(pack_date(500000, 7, 3), None);
    let d = Date::from_packed(20211225);
    assert_eq!(d.str_form, "12/25");
    assert_eq!(Date::from_packed(20210703).str_form, "07/03");
    let labels = Date::get_dates_str(&vec![Date::from_packed(20210101), d]);
    assert_eq!(labels, vec!["01/01".to_string(), "12/25".to_string()]);
    let today = current_date().unwrap();
    assert!(today > 20200101);
    let month = (today / 100) % 100;
    assert!((1..=12).contains(&month));
}

#[test]
fn iperf_picks_bulk_links() {
    let mut t = ProcessTable::new(0);
    let srv = IpAddress::v4(10, 0, 10, 200);
    feed(&mut t, &event(1, srv, 5201, 411, 1, Prot::TCP), "iperf3", "");
    feed(&mut t, &event(1, srv, 5201, 299, 0, Prot::TCP), "iperf3", "");
    feed(&mut t, &event(1, srv, 5202, 1_000_000, 0, Prot::TCP), "iperf3", "");
    feed(&mut t, &event(1, srv, 6000, 4, 1, Prot::UDP), "iperf3", "");
    feed(&mut t, &event(1, srv, 6000, 500, 0, Prot::UDP), "iperf3", "");
    feed(&mut t, &event(2, srv, 5203, 777, 1, Prot::TCP), "curl", "");
    let c = iperf_counters(&t);
    assert_eq!(c.tcp4_tx, 1_000_000);
    assert_eq!(c.tcp4_rx, 0);
    assert_eq!(c.udp4_tx, 500);
    assert_eq!(c.udp4_rx, 0);
    assert_eq!((c.tcp6_rx, c.tcp6_tx, c.udp6_rx, c.udp6_tx), (0, 0, 0, 0));
}

#[test]
fn tabs_wrap_around() {
    let mut t = TabsState::new(vec![Date::from_packed(20210101), Date::from_packed(20210102), Date::from_packed(20210103)]);
    t.previous();
    assert_eq!(t.index, 2);
    t.next();
    assert_eq!(t.index, 0);
    t.next();
    assert_eq!(t.index, 1);
}

#[test]
fn list_selection_wraps() {
    let mut l: StatefulList<u32> = StatefulList::new();
    assert_eq!(l.state, None);
    l.next();
    assert_eq!(l.state, Some(0));
    l.nb_entries = 3;
    l.previous();
    assert_eq!(l.state, Some(2));
    l.next();
    assert_eq!(l.state, Some(0));
    l.unselect();
    assert_eq!(l.state, None);
    let w = StatefulList::with_items(vec![1, 2]);
    assert_eq!(w.state, Some(0));
    assert_eq!(w.items.len(), 2);
}

#[test]
fn signal_slides() {
    let mut s = Signal { points: vec![1, 2, 3, 4], tick_rate: 2 };
    s.on_tick(vec![5, 6, 7]);
    assert_eq!(s.points, vec![3, 4, 5, 6]);
    s.on_tick(vec![8]);
    assert_eq!(s.points, vec![5, 6, 8]);
}

#[test]
fn protocol_ids_and_names() {
    assert_eq!(Prot::UDP.id(), 1);
    assert_eq!(Prot::from_id(0), Prot::TCP);
    assert_eq!(Prot::from_id(9), Prot::NONE);
    assert_eq!(Prot::NONE.name(), "NONE");
}

#[test]
fn amounts_with_two_decimals() {
    assert_eq!(amount_str(56789), "55.46KB");
    assert_eq!(amount_str(567890), "554.58KB");
    assert_eq!(amount_str(123), "123.00B");
    assert_eq!(amount_str(1536), "1.50KB");
    assert_eq!(amount_str(-5), "-5.00B");
    assert_eq!(amount_str(0), "0.00B");
    assert_eq!(amount_str(1 << 50), "1024.00TB");
    assert_eq!(amount_str(i64::MAX), "8388608.00TB");
}

#[test]
fn amounts_agree_with_float_formatting() {
    let mut b: i64 = 0;
    let mut step: i64 = 1;
    while b < (1i64 << 52) {
        let (whole, rem, unit) = group_bytes(b);
        let v = whole as f64 + rem as f64 / 1024f64.powi(unit.index() as i32);
        let expected = format!("{:.2}{}", v, unit.symbol());
        assert_eq!(amount_str(b), expected, "bytes {}", b);
        b += step;
        step = step * 3 / 2 + 1;
    }
    for b in [1152i64, 1408, 1664, 1920, 1_179_648] {
        let (whole, rem, unit) = group_bytes(b);
        let v = whole as f64 + rem as f64 / 1024f64.powi(unit.index() as i32);
        assert_eq!(amount_str(b), format!("{:.2}{}", v, unit.symbol()), "bytes {}", b);
    }
}

#[test]
fn process_lines() {
    let mut p = Process::new(1234);
    p.name("curl".to_string()).rx(56789).tx(567890);
    assert_eq!(p.overview_str(), "curl (1234)");
    assert_eq!(p.data_amount_str(), " RX:55.46KB TX:554.58KB");
    assert_eq!(p.to_string(), "curl (1234) RX:55.46KB TX:554.58KB");
}
