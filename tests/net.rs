use sekhmet::addr::IpAddress;
use sekhmet::enrich::process_name;
use sekhmet::net::{group_bytes, DataUnit, Prot};
use sekhmet::record::{tcp4_cb, tcp6_cb, udp4_cb, udp6_cb, Event};
use sekhmet::table::ProcessTable;

fn ipv4_record(pid: u32, saddr: u32, daddr: u32, lport: u16, dport: u16, size: u32, is_rx: u32) -> Vec<u8> {
    let mut b = Vec::new();
    b.extend_from_slice(&pid.to_le_bytes());
    b.extend_from_slice(&saddr.to_le_bytes());
    b.extend_from_slice(&daddr.to_le_bytes());
    b.extend_from_slice(&lport.to_le_bytes());
    b.extend_from_slice(&dport.to_le_bytes());
    b.extend_from_slice(&size.to_le_bytes());
    b.extend_from_slice(&is_rx.to_le_bytes());
    b
}

fn ipv6_record(pid: u32, saddr: u128, daddr: u128, lport: u16, dport: u16, size: u32, is_rx: u32) -> Vec<u8> {
    let mut b = Vec::new();
    b.extend_from_slice(&saddr.to_le_bytes());
    b.extend_from_slice(&daddr.to_le_bytes());
    b.extend_from_slice(&pid.to_le_bytes());
    b.extend_from_slice(&lport.to_le_bytes());
    b.extend_from_slice(&dport.to_le_bytes());
    b.extend_from_slice(&size.to_le_bytes());
    b.extend_from_slice(&is_rx.to_le_bytes());
    b.extend_from_slice(&[0u8; 4]);
    b
}

/// Ingests an event the way the probe poller does: reads what the table
/// asks for (no metadata file, no resolver here), then merges.
fn feed(table: &mut ProcessTable, ev: &Event) {
    let needs = table.lookups_needed(ev);
    let name = if needs.name { process_name(None) } else { String::new() };
    table.ingest(ev, name, String::new());
}

const V6: u128 = 267854308077474350974080065079001252094;

fn fe80() -> IpAddress {
    IpAddress::v6([0xfe80, 0, 0, 0, 0x4c9f, 0x5cff, 0xfedc, 0x82c9])
}

fn check_one_process(table: &ProcessTable, udp: bool, src: IpAddress, dst: IpAddress) {
    let procs = table.processes();
    assert_eq!(procs.len(), 1, "number of process incorrect");
    let p = &procs[0];
    let c = if udp { &p.get_ulinks()[0] } else { &p.get_tlinks()[0] };
    assert_eq!(p.get_pid(), 1234, "pid incorrect");
    assert_ne!(p.get_name(), "", "process name empty");
    assert_eq!(p.get_rx_tx().0, 56789, "process rx incorrect");
    assert_eq!(p.get_rx_tx().1, 567890, "process tx incorrect");
    assert_eq!(c.get_saddr(), src, "source ip address incorrect");
    assert_eq!(c.get_daddr(), dst, "destination ip address incorrect");
    assert_eq!(c.get_lport(), 4321, "local port incorrect");
    assert_eq!(c.get_dport(), 80, "destination port incorrect");
    assert_eq!(c.get_rx_tx().0, 56789, "rx size incorrect");
    assert_eq!(c.get_rx_tx().1, 567890, "tx size incorrect");
    if udp {
        assert_eq!(c.prot, Prot::UDP, "protocol is incorrect");
    } else {
        assert_eq!(c.prot, Prot::TCP);
    }
}

#[test]
fn net_tcp4_cb_one_process_multiple_links() {
    let mut table = ProcessTable::new(0);
    let data0 = ipv4_record(1234, 33663168, 3361999370, 4321, 80, 56789, 1);
    let data1 = ipv4_record(1234, 33663168, 3361999370, 4321, 80, 567890, 0);
    feed(&mut table, &tcp4_cb(&data0));
    feed(&mut table, &tcp4_cb(&data1));
    check_one_process(&table, false, IpAddress::v4(192, 168, 1, 2), IpAddress::v4(10, 10, 100, 200));
}

#[test]
fn net_tcp4_cb_multiple_process_one_link() {
    let mut table = ProcessTable::new(0);
    let data0 = ipv4_record(1234, 33663168, 3361999370, 4321, 80, 56789, 1);
    let data1 = ipv4_record(5678, 33663168, 3361999370, 4321, 80, 56789, 0);
    feed(&mut table, &tcp4_cb(&data0));
    feed(&mut table, &tcp4_cb(&data1));
    assert_eq!(table.len(), 2, "number of process incorrect");
}

#[test]
fn tcp6_cb_one_process_multiple_links() {
    let mut table = ProcessTable::new(0);
    let data0 = ipv6_record(1234, V6, V6, 4321, 80, 56789, 1);
    let data1 = ipv6_record(1234, V6, V6, 4321, 80, 567890, 0);
    feed(&mut table, &tcp6_cb(&data0));
    feed(&mut table, &tcp6_cb(&data1));
    check_one_process(&table, false, fe80(), fe80());
}

#[test]
fn tcp6_cb_multiple_process_one_link() {
    let mut table = ProcessTable::new(0);
    let data0 = ipv6_record(1234, V6, V6, 4321, 80, 56789, 1);
    let data1 = ipv6_record(5678, V6, V6, 4321, 80, 56789, 0);
    feed(&mut table, &tcp6_cb(&data0));
    feed(&mut table, &tcp6_cb(&data1));
    assert_eq!(table.len(), 2, "number of process incorrect");
}

#[test]
fn udp4_cb_one_process_multiple_links() {
    let mut table = ProcessTable::new(0);
    let data0 = ipv4_record(1234, 33663168, 3361999370, 4321, 80, 56789, 1);
    let data1 = ipv4_record(1234, 33663168, 3361999370, 4321, 80, 567890, 0);
    feed(&mut table, &udp4_cb(&data0));
    feed(&mut table, &udp4_cb(&data1));
    check_one_process(&table, true, IpAddress::v4(192, 168, 1, 2), IpAddress::v4(10, 10, 100, 200));
}

#[test]
fn udp4_cb_multiple_process_one_link() {
    let mut table = ProcessTable::new(0);
    let data0 = ipv4_record(1234, 33663168, 3361999370, 4321, 80, 56789, 1);
    let data1 = ipv4_record(5678, 33663168, 3361999370, 4321, 80, 56789, 0);
    feed(&mut table, &udp4_cb(&data0));
    feed(&mut table, &udp4_cb(&data1));
    assert_eq!(table.len(), 2, "number of process incorrect");
}

#[test]
fn udp6_cb_one_process_multiple_links() {
    let mut table = ProcessTable::new(0);
    let data0 = ipv6_record(1234, V6, V6, 4321, 80, 56789, 1);
    let data1 = ipv6_record(1234, V6, V6, 4321, 80, 567890, 0);
    feed(&mut table, &udp6_cb(&data0));
    feed(&mut table, &udp6_cb(&data1));
    check_one_process(&table, true, fe80(), fe80());
}

#[test]
fn udp6_cb_multiple_process_one_link() {
    let mut table = ProcessTable::new(0);
    let data0 = ipv6_record(1234, V6, V6, 4321, 80, 56789, 1);
    let data1 = ipv6_record(5678, V6, V6, 4321, 80, 56789, 0);
    feed(&mut table, &udp6_cb(&data0));
    feed(&mut table, &udp6_cb(&data1));
    assert_eq!(table.len(), 2, "number of process incorrect");
}

#[test]
fn mod_tcp4_cb_one_process_multiple_links() {
    let mut table = ProcessTable::new(0);
    let data0 = ipv4_record(1234, 33663168, 3361999370, 4321, 80, 56789, 1);
    let data1 = ipv4_record(1234, 33663168, 3361999370, 4321, 80, 567890, 0);
    feed(&mut table, &tcp4_cb(&data0));
    feed(&mut table, &tcp4_cb(&data1));
    let procs = table.processes();
    assert_eq!(procs.len(), 1, "number of process incorrect");
    let p = &procs[0];
    let c = &p.tlinks[0];
    assert_eq!(p.pid, 1234, "pid incorrect");
    assert_ne!(p.name, "", "process name empty");
    assert_eq!(p.rx, 56789, "process rx incorrect");
    assert_eq!(p.tx, 567890, "process tx incorrect");
    assert_eq!(c.saddr, IpAddress::v4(192, 168, 1, 2), "source ip address incorrect");
    assert_eq!(c.daddr, IpAddress::v4(10, 10, 100, 200), "destination ip address incorrect");
    assert_eq!(c.lport, 4321, "local port incorrect");
    assert_eq!(c.dport, 80, "destination port incorrect");
    assert_eq!(c.rx, 56789, "rx size incorrect");
    assert_eq!(c.tx, 567890, "tx size incorrect");
}

#[test]
fn mod_tcp4_cb_multiple_process_one_link() {
    let mut table = ProcessTable::new(0);
    let data0 = ipv4_record(1234, 33663168, 3361999370, 4321, 80, 56789, 1);
    let data1 = ipv4_record(5678, 3232235778, 168453320, 4321, 80, 56789, 0);
    feed(&mut table, &tcp4_cb(&data0));
    feed(&mut table, &tcp4_cb(&data1));
    assert_eq!(table.len(), 2, "number of process incorrect");
}

fn grouped_value(bytes: i64) -> (f64, DataUnit) {
    let (whole, rem, unit) = group_bytes(bytes);
    let div = 1024f64.powi(unit.index() as i32);
    (whole as f64 + rem as f64 / div, unit)
}

#[test]
fn net_group_bytes_bytes() {
    let (grouped, unit) = grouped_value(123);
    assert_eq!(grouped, 123.0);
    assert_eq!(unit.index(), DataUnit::Bytes.index());
}

#[test]
fn net_group_bytes_kbytes() {
    let (grouped, unit) = grouped_value(1024 + 512);
    assert_eq!(grouped, 1.5);
    assert_eq!(unit.index(), DataUnit::KBytes.index());
}

#[test]
fn net_group_bytes_mbytes() {
    let (grouped, unit) = grouped_value(1024 * 1024 + 512 * 1024);
    assert_eq!(grouped, 1.5);
    assert_eq!(unit.index(), DataUnit::MBytes.index());
}

#[test]
fn net_group_bytes_gbytes() {
    let (grouped, unit) = grouped_value(1024 * 1024 * 1024 + 512 * 1024 * 1024);
    assert_eq!(grouped, 1.5);
    assert_eq!(unit.index(), DataUnit::GBytes.index());
}

#[test]
fn net_group_bytes_tbytes() {
    let (grouped, unit) = grouped_value(1024 * 1024 * 1024 * 1024 + 512 * 1024 * 1024 * 1024);
    assert_eq!(grouped, 1.5);
    assert_eq!(unit.index(), DataUnit::TBytes.index());
}

#[test]
fn mod_group_bytes_bytes() {
    let (grouped, unit) = grouped_value(123);
    assert_eq!(grouped, 123.0);
    assert_eq!(unit.index(), DataUnit::Bytes.index());
}

#[test]
fn mod_group_bytes_kbytes() {
    let (grouped, unit) = grouped_value(1024 + 512);
    assert_eq!(grouped, 1.5);
    assert_eq!(unit.index(), DataUnit::KBytes.index());
}

#[test]
fn mod_group_bytes_mbytes() {
    let (grouped, unit) = grouped_value(1024 * 1024 + 512 * 1024);
    assert_eq!(grouped, 1.5);
    assert_eq!(unit.index(), DataUnit::MBytes.index());
}

#[test]
fn mod_group_bytes_gbytes() {
    let (grouped, unit) = grouped_value(1024 * 1024 * 1024 + 512 * 1024 * 1024);
    assert_eq!(grouped, 1.5);
    assert_eq!(unit.index(), DataUnit::GBytes.index());
}

#[test]
fn mod_group_bytes_tbytes() {
    let (grouped, unit) = grouped_value(1024 * 1024 * 1024 * 1024 + 512 * 1024 * 1024 * 1024);
    assert_eq!(grouped, 1.5);
    assert_eq!(unit.index(), DataUnit::TBytes.index());
}
