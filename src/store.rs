use vstd::prelude::*;
use crate::addr::IpAddress;
use crate::net::{Link, LinkView, Process, ProcessView, Prot, prot_id, links_view};
use crate::table::{ProcessTable, procs_view};

verus! {

/// The `dates` table: one row per calendar day seen; `date_str` is the
/// day packed as YYYYMMDD, in decimal.
pub const CREATE_DATES: &'static str = "CREATE TABLE IF NOT EXISTS dates (
    date_id     INTEGER PRIMARY KEY ASC,
    date_str    TEXT UNIQUE NOT NULL
);";

/// The `protocols` lookup table.
pub const CREATE_PROTOCOLS: &'static str = "CREATE TABLE IF NOT EXISTS protocols (
    prot_id     INTEGER PRIMARY KEY ASC,
    prot_name   TEXT NOT NULL DEFAULT ''
);";

/// The protocol rows: TCP is 0, UDP is 1, NONE is 2.
pub const FILL_PROTOCOLS: &'static str = "INSERT OR IGNORE INTO protocols (prot_id, prot_name)
    VALUES (0, 'TCP'), (1, 'UDP'), (2, 'NONE');";

/// The `processes` table, keyed by (pid, date).
pub const CREATE_PROCESSES: &'static str = "CREATE TABLE IF NOT EXISTS processes (
    p_pid       INTEGER NOT NULL,
    p_date_id   TEXT NOT NULL,
    p_name      TEXT NOT NULL DEFAULT '',
    p_rx        INTEGER,
    p_tx        INTEGER,
    CONSTRAINT processes_fk_0 FOREIGN KEY (p_date_id) REFERENCES dates(date_id),
    PRIMARY KEY (p_pid, p_date_id)
);";

/// The `links` table, keyed by (pid, date, saddr, daddr, lport, dport).
pub const CREATE_LINKS: &'static str = "CREATE TABLE IF NOT EXISTS links (
    l_p_pid     INTEGER,
    l_date_id   TEXT NOT NULL,
    l_saddr     TEXT NULL DEFAULT '',
    l_daddr     TEXT NULL DEFAULT '',
    l_lport     INTEGER,
    l_dport     INTEGER,
    l_rx        INTEGER,
    l_tx        INTEGER,
    l_prot_id   INTEGER,
    l_domain    TEXT NOT NULL DEFAULT '',
    CONSTRAINT links_fk_1 FOREIGN KEY (l_date_id) REFERENCES dates(date_id),
    CONSTRAINT links_fk_2 FOREIGN KEY (l_prot_id) REFERENCES protocols(prot_id),
    PRIMARY KEY (l_p_pid, l_date_id, l_saddr, l_daddr, l_lport, l_dport)
);";

/// Records a date; a date already present is left as it is.
/// Parameter: the date string.
pub const INSERT_DATE: &'static str = "INSERT INTO dates (date_str) VALUES (?1)
    ON CONFLICT(date_str) DO NOTHING";

/// Upserts a process row: the stored counters are replaced by the given
/// ones. Parameters: pid, date string, name, rx, tx.
pub const UPSERT_PROCESS: &'static str = "INSERT INTO processes (p_pid, p_date_id, p_name, p_rx, p_tx)
    VALUES (?1, (SELECT date_id FROM dates WHERE date_str = ?2), ?3, ?4, ?5)
    ON CONFLICT(p_pid, p_date_id)
    DO UPDATE SET p_name = excluded.p_name, p_rx = excluded.p_rx, p_tx = excluded.p_tx";

/// Upserts a link row: the stored counters are replaced by the given ones.
/// Parameters: pid, date string, saddr, daddr, lport, dport, rx, tx,
/// protocol id, domain.
pub const UPSERT_LINK: &'static str = "INSERT INTO links (l_p_pid, l_date_id,
        l_saddr, l_daddr, l_lport, l_dport, l_rx, l_tx, l_prot_id, l_domain)
    VALUES (?1, (SELECT date_id FROM dates WHERE date_str = ?2),
        ?3, ?4, ?5, ?6, ?7, ?8, ?9, ?10)
    ON CONFLICT(l_p_pid, l_date_id, l_saddr, l_daddr, l_lport, l_dport)
    DO UPDATE SET l_rx = excluded.l_rx, l_tx = excluded.l_tx,
        l_prot_id = excluded.l_prot_id, l_domain = excluded.l_domain";

/// Columns: pid, name, rx, tx, date string.
pub const SELECT_PROCESSES: &'static str = "SELECT p.p_pid, p.p_name, p.p_rx, p.p_tx, dates.date_str
    FROM processes p
    JOIN dates ON dates.date_id = p.p_date_id";

/// Columns: pid, date string, saddr, daddr, lport, dport, rx, tx, protocol
/// id, domain.
pub const SELECT_LINKS: &'static str = "SELECT l.l_p_pid, dates.date_str, l.l_saddr, l.l_daddr,
        l.l_lport, l.l_dport, l.l_rx, l.l_tx, l.l_prot_id, l.l_domain
    FROM links l
    JOIN dates ON dates.date_id = l.l_date_id";

/// Column: date string, oldest first.
pub const SELECT_DATES: &'static str = "SELECT DISTINCT date_str FROM dates ORDER BY date_id";

/// A row of the `processes` table: one process on one date.
#[derive(Clone, Debug)]
pub struct ProcessRow {
    pub pid: u32,
    pub date: u32,
    pub name: String,
    pub rx: i64,
    pub tx: i64,
}

pub struct ProcessRowView {
    pub pid: u32,
    pub date: u32,
    pub name: Seq<char>,
    pub rx: i64,
    pub tx: i64,
}

impl View for ProcessRow {
    type V = ProcessRowView;

    open spec fn view(&self) -> ProcessRowView {
        ProcessRowView {
            pid: self.pid,
            date: self.date,
            name: self.name@,
            rx: self.rx,
            tx: self.tx,
        }
    }
}

/// A row of the `links` table: one link of one process on one date.
#[derive(Clone, Debug)]
pub struct LinkRow {
    pub pid: u32,
    pub date: u32,
    pub saddr: IpAddress,
    pub daddr: IpAddress,
    pub lport: u16,
    pub dport: u16,
    pub rx: i64,
    pub tx: i64,
    pub prot_id: u8,
    pub domain: String,
}

pub struct LinkRowView {
    pub pid: u32,
    pub date: u32,
    pub saddr: IpAddress,
    pub daddr: IpAddress,
    pub lport: u16,
    pub dport: u16,
    pub rx: i64,
    pub tx: i64,
    pub prot_id: u8,
    pub domain: Seq<char>,
}

impl View for LinkRow {
    type V = LinkRowView;

    open spec fn view(&self) -> LinkRowView {
        LinkRowView {
            pid: self.pid,
            date: self.date,
            saddr: self.saddr,
            daddr: self.daddr,
            lport: self.lport,
            dport: self.dport,
            rx: self.rx,
            tx: self.tx,
            prot_id: self.prot_id,
            domain: self.domain@,
        }
    }
}

pub open spec fn process_rows_view(v: Seq<ProcessRow>) -> Seq<ProcessRowView> {
    v.map_values(|r: ProcessRow| r@)
}

pub open spec fn link_rows_view(v: Seq<LinkRow>) -> Seq<LinkRowView> {
    v.map_values(|r: LinkRow| r@)
}

/// The row that stores process `p` under `date`.
pub open spec fn process_row(p: ProcessView, date: u32) -> ProcessRowView {
    ProcessRowView { pid: p.pid, date, name: p.name, rx: p.rx, tx: p.tx }
}

/// The row that stores link `l` of process `pid` under `date`.
pub open spec fn link_row(pid: u32, date: u32, l: LinkView) -> LinkRowView {
    LinkRowView {
        pid,
        date,
        saddr: l.saddr,
        daddr: l.daddr,
        lport: l.lport,
        dport: l.dport,
        rx: l.rx,
        tx: l.tx,
        prot_id: prot_id(l.prot),
        domain: l.domain,
    }
}

/// The rows of the links `links` of process `pid` under `date`.
pub open spec fn link_rows(pid: u32, date: u32, links: Seq<LinkView>) -> Seq<LinkRowView> {
    links.map_values(|l: LinkView| link_row(pid, date, l))
}

/// The link rows of every process of `procs`, process by process, TCP
/// links before UDP links.
pub open spec fn all_link_rows(procs: Seq<ProcessView>, date: u32) -> Seq<LinkRowView>
    decreases procs.len(),
{
    if procs.len() == 0 {
        Seq::empty()
    } else {
        let p = procs.last();
        all_link_rows(procs.drop_last(), date) + link_rows(p.pid, date, p.tlinks) + link_rows(
            p.pid,
            date,
            p.ulinks,
        )
    }
}

/// The rows that a snapshot of a table writes to the store.
pub struct Snapshot {
    pub processes: Vec<ProcessRow>,
    pub links: Vec<LinkRow>,
}

fn push_link_rows(out: &mut Vec<LinkRow>, pid: u32, date: u32, links: &Vec<Link>)
    ensures
        link_rows_view(final(out)@) == link_rows_view(old(out)@) + link_rows(
            pid,
            date,
            links_view(links@),
        ),
{
    let ghost start = link_rows_view(out@);
    let mut j: usize = 0;
    while j < links.len()
        invariant
            0 <= j <= links@.len(),
            link_rows_view(out@) == start + link_rows(
                pid,
                date,
                links_view(links@).subrange(0, j as int),
            ),
        decreases links@.len() - j,
    {
        let l = &links[j];
        let row = LinkRow {
            pid,
            date,
            saddr: l.saddr,
            daddr: l.daddr,
            lport: l.lport,
            dport: l.dport,
            rx: l.rx,
            tx: l.tx,
            prot_id: l.prot.id(),
            domain: l.domain.clone(),
        };
        let ghost before = out@;
        out.push(row);
        proof {
            assert(link_rows_view(out@) =~= link_rows_view(before).push(row@));
            assert(links_view(links@)[j as int] == links@[j as int]@);
            assert(link_rows(pid, date, links_view(links@).subrange(0, j + 1)) =~= link_rows(
                pid,
                date,
                links_view(links@).subrange(0, j as int),
            ).push(link_row(pid, date, links@[j as int]@)));
        }
        j = j + 1;
    }
    proof {
        assert(links_view(links@).subrange(0, links@.len() as int) =~= links_view(links@));
    }
}

/// The rows that store the table under `date`: one process row per record,
/// in table order, and one link row per link.
pub fn snapshot_rows(table: &ProcessTable, date: u32) -> (r: Snapshot)
    ensures
        process_rows_view(r.processes@) == table@.map_values(
            |p: ProcessView| process_row(p, date),
        ),
        link_rows_view(r.links@) == all_link_rows(table@, date),
{
    let procs = table.processes();
    let mut prows: Vec<ProcessRow> = Vec::new();
    let mut lrows: Vec<LinkRow> = Vec::new();
    let mut i: usize = 0;
    while i < procs.len()
        invariant
            0 <= i <= procs@.len(),
            procs_view(procs@) == table@,
            process_rows_view(prows@) == table@.subrange(0, i as int).map_values(
                |p: ProcessView| process_row(p, date),
            ),
            link_rows_view(lrows@) == all_link_rows(table@.subrange(0, i as int), date),
        decreases procs@.len() - i,
    {
        let p = &procs[i];
        let ghost pv = p@;
        proof {
            assert(table@[i as int] == pv);
        }
        let row = ProcessRow { pid: p.pid, date, name: p.name.clone(), rx: p.rx, tx: p.tx };
        let ghost before = prows@;
        prows.push(row);
        proof {
            assert(process_rows_view(prows@) =~= process_rows_view(before).push(row@));
            assert(table@.subrange(0, i + 1).map_values(|p: ProcessView| process_row(p, date))
                =~= table@.subrange(0, i as int).map_values(
                |p: ProcessView| process_row(p, date),
            ).push(process_row(pv, date)));
        }
        push_link_rows(&mut lrows, p.pid, date, &p.tlinks);
        push_link_rows(&mut lrows, p.pid, date, &p.ulinks);
        proof {
            let s = table@.subrange(0, i + 1);
            assert(s.drop_last() =~= table@.subrange(0, i as int));
            assert(s.last() == pv);
        }
        i = i + 1;
    }
    proof {
        assert(table@.subrange(0, procs@.len() as int) =~= table@);
    }
    Snapshot { processes: prows, links: lrows }
}

/// The key of a process row: `(pid, date)`.
pub open spec fn process_key(r: ProcessRowView) -> (u32, u32) {
    (r.pid, r.date)
}

/// The key of a link row: `(pid, date, saddr, daddr, lport, dport)`.
pub open spec fn link_key(r: LinkRowView) -> (u32, u32, IpAddress, IpAddress, u16, u16) {
    (r.pid, r.date, r.saddr, r.daddr, r.lport, r.dport)
}

/// A table of the store after upserting `rows` in order, each keyed by
/// `key`: a row replaces the stored row of its key, or is inserted.
pub open spec fn upsert_all<K, V>(stored: Map<K, V>, rows: Seq<V>, key: spec_fn(V) -> K) -> Map<
    K,
    V,
>
    decreases rows.len(),
{
    if rows.len() == 0 {
        stored
    } else {
        upsert_all(stored, rows.drop_last(), key).insert(key(rows.last()), rows.last())
    }
}

pub open spec fn has_key<K, V>(rows: Seq<V>, key: spec_fn(V) -> K, k: K) -> bool {
    exists|j: int| 0 <= j < rows.len() && key(#[trigger] rows[j]) == k
}

proof fn lemma_upsert_untouched<K, V>(stored: Map<K, V>, rows: Seq<V>, key: spec_fn(V) -> K, k: K)
    requires
        !has_key(rows, key, k),
    ensures
        upsert_all(stored, rows, key).contains_key(k) == stored.contains_key(k),
        upsert_all(stored, rows, key)[k] == stored[k],
    decreases rows.len(),
{
    if rows.len() > 0 {
        let front = rows.drop_last();
        assert(!has_key(front, key, k)) by {
            if has_key(front, key, k) {
                let j = choose|j: int| 0 <= j < front.len() && key(#[trigger] front[j]) == k;
                assert(rows[j] == front[j]);
            }
        }
        assert(key(rows[rows.len() - 1]) != k);
        lemma_upsert_untouched(stored, front, key, k);
    }
}

proof fn lemma_upsert_overrides<K, V>(
    a: Map<K, V>,
    b: Map<K, V>,
    rows: Seq<V>,
    key: spec_fn(V) -> K,
    k: K,
)
    requires
        has_key(rows, key, k),
    ensures
        upsert_all(a, rows, key).contains_key(k),
        upsert_all(b, rows, key).contains_key(k),
        upsert_all(a, rows, key)[k] == upsert_all(b, rows, key)[k],
    decreases rows.len(),
{
    let front = rows.drop_last();
    if key(rows.last()) != k {
        let j = choose|j: int| 0 <= j < rows.len() && key(#[trigger] rows[j]) == k;
        assert(j < rows.len() - 1);
        assert(front[j] == rows[j]);
        lemma_upsert_overrides(a, b, front, key, k);
    }
}

/// Upserting the same rows twice leaves the table as upserting them once.
pub proof fn lemma_upsert_idempotent<K, V>(stored: Map<K, V>, rows: Seq<V>, key: spec_fn(V) -> K)
    ensures
        upsert_all(upsert_all(stored, rows, key), rows, key) == upsert_all(stored, rows, key),
{
    let once = upsert_all(stored, rows, key);
    let twice = upsert_all(once, rows, key);
    assert forall|k: K| #[trigger] twice.contains_key(k) == once.contains_key(k) && (
    once.contains_key(k) ==> twice[k] == once[k]) by {
        if has_key(rows, key, k) {
            lemma_upsert_overrides(once, stored, rows, key, k);
        } else {
            lemma_upsert_untouched(once, rows, key, k);
        }
    }
    assert(twice =~= once);
}

/// Storing the snapshot of one table state twice gives the same stored
/// rows as storing it once: each row replaces the stored row of its key.
pub proof fn law_snapshot_upsert_idempotent(
    procs: Seq<ProcessView>,
    date: u32,
    stored_procs: Map<(u32, u32), ProcessRowView>,
    stored_links: Map<(u32, u32, IpAddress, IpAddress, u16, u16), LinkRowView>,
)
    ensures
        ({
            let prows = procs.map_values(|p: ProcessView| process_row(p, date));
            let lrows = all_link_rows(procs, date);
            let pk = |r: ProcessRowView| process_key(r);
            let lk = |r: LinkRowView| link_key(r);
            &&& upsert_all(upsert_all(stored_procs, prows, pk), prows, pk) == upsert_all(
                stored_procs,
                prows,
                pk,
            )
            &&& upsert_all(upsert_all(stored_links, lrows, lk), lrows, lk) == upsert_all(
                stored_links,
                lrows,
                lk,
            )
        }),
{
    let prows = procs.map_values(|p: ProcessView| process_row(p, date));
    let lrows = all_link_rows(procs, date);
    lemma_upsert_idempotent(stored_procs, prows, |r: ProcessRowView| process_key(r));
    lemma_upsert_idempotent(stored_links, lrows, |r: LinkRowView| link_key(r));
}

/// The link that a stored row describes; protocol ids other than 0 and 1
/// read as NONE.
pub open spec fn link_of_row(r: LinkRowView) -> LinkView {
    LinkView {
        saddr: r.saddr,
        daddr: r.daddr,
        lport: r.lport,
        dport: r.dport,
        rx: r.rx,
        tx: r.tx,
        prot: if r.prot_id == 0 {
            Prot::TCP
        } else if r.prot_id == 1 {
            Prot::UDP
        } else {
            Prot::NONE
        },
        domain: r.domain,
    }
}

/// The links of `rows` that belong to process `pid` on `date` and have
/// protocol id `id`, in row order.
pub open spec fn stored_links(rows: Seq<LinkRowView>, pid: u32, date: u32, id: u8) -> Seq<LinkView>
    decreases rows.len(),
{
    if rows.len() == 0 {
        Seq::empty()
    } else {
        let rest = stored_links(rows.drop_last(), pid, date, id);
        let r = rows.last();
        if r.pid == pid && r.date == date && r.prot_id == id {
            rest.push(link_of_row(r))
        } else {
            rest
        }
    }
}

/// The process that a stored process row and the stored link rows
/// describe: TCP links (id 0) and UDP links (id 1) of its pid and date go
/// to their lists; links of other protocols are not shown.
pub open spec fn stored_process(row: ProcessRowView, links: Seq<LinkRowView>) -> ProcessView {
    ProcessView {
        pid: row.pid,
        name: row.name,
        tlinks: stored_links(links, row.pid, row.date, 0),
        ulinks: stored_links(links, row.pid, row.date, 1),
        rx: row.rx,
        tx: row.tx,
        date: row.date,
    }
}

/// Rebuilds one process from its stored row and the stored link rows.
pub fn get_links(row: &ProcessRow, links: &Vec<LinkRow>) -> (r: Process)
    ensures
        r@ == stored_process(row@, link_rows_view(links@)),
{
    let mut p = Process::new(row.pid);
    p.name = row.name.clone();
    p.rx = row.rx;
    p.tx = row.tx;
    p.date = row.date;
    let ghost lv = link_rows_view(links@);
    let mut j: usize = 0;
    while j < links.len()
        invariant
            0 <= j <= links@.len(),
            lv == link_rows_view(links@),
            p.pid == row.pid,
            p.name@ == row.name@,
            p.rx == row.rx,
            p.tx == row.tx,
            p.date == row.date,
            links_view(p.tlinks@) == stored_links(lv.subrange(0, j as int), row.pid, row.date, 0),
            links_view(p.ulinks@) == stored_links(lv.subrange(0, j as int), row.pid, row.date, 1),
        decreases links@.len() - j,
    {
        let lr = &links[j];
        proof {
            let s = lv.subrange(0, j + 1);
            assert(s.drop_last() =~= lv.subrange(0, j as int));
            assert(s.last() == lr@);
        }
        if lr.pid == row.pid && lr.date == row.date && (lr.prot_id == 0 || lr.prot_id == 1) {
            let l = Link {
                saddr: lr.saddr,
                daddr: lr.daddr,
                lport: lr.lport,
                dport: lr.dport,
                rx: lr.rx,
                tx: lr.tx,
                prot: Prot::from_id(lr.prot_id as i64),
                domain: lr.domain.clone(),
            };
            assert(l@ == link_of_row(lr@));
            if lr.prot_id == 0 {
                let ghost before = p.tlinks@;
                p.tlinks.push(l);
                proof {
                    assert(links_view(p.tlinks@) =~= links_view(before).push(l@));
                }
            } else {
                let ghost before = p.ulinks@;
                p.ulinks.push(l);
                proof {
                    assert(links_view(p.ulinks@) =~= links_view(before).push(l@));
                }
            }
        }
        j = j + 1;
    }
    proof {
        assert(lv.subrange(0, links@.len() as int) =~= lv);
    }
    p
}

/// Rebuilds the stored processes, in row order, each with its links.
pub fn get_procs(rows: &Vec<ProcessRow>, links: &Vec<LinkRow>) -> (r: Vec<Process>)
    ensures
        procs_view(r@) == process_rows_view(rows@).map_values(
            |row: ProcessRowView| stored_process(row, link_rows_view(links@)),
        ),
{
    let mut out: Vec<Process> = Vec::new();
    let mut i: usize = 0;
    while i < rows.len()
        invariant
            0 <= i <= rows@.len(),
            procs_view(out@) == process_rows_view(rows@).subrange(0, i as int).map_values(
                |row: ProcessRowView| stored_process(row, link_rows_view(links@)),
            ),
        decreases rows@.len() - i,
    {
        let p = get_links(&rows[i], links);
        let ghost before = out@;
        out.push(p);
        proof {
            assert(procs_view(out@) =~= procs_view(before).push(p@));
            assert(process_rows_view(rows@).subrange(0, i + 1).map_values(
                |row: ProcessRowView| stored_process(row, link_rows_view(links@)),
            ) =~= process_rows_view(rows@).subrange(0, i as int).map_values(
                |row: ProcessRowView| stored_process(row, link_rows_view(links@)),
            ).push(stored_process(rows@[i as int]@, link_rows_view(links@))));
        }
        i = i + 1;
    }
    proof {
        assert(process_rows_view(rows@).subrange(0, rows@.len() as int) =~= process_rows_view(
            rows@,
        ));
    }
    out
}

} // verus!
