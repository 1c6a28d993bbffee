use vstd::prelude::*;
use crate::addr::{IpAddress, spec_is_global};
use crate::net::{Link, LinkView, Process, ProcessView, Prot, add_count, link_add, process_add, same_tuple, links_view};
use crate::record::Event;

verus! {

/// Whether link `l` carries the 5-tuple of event `ev`.
pub open spec fn link_matches(l: LinkView, ev: Event) -> bool {
    l.saddr == ev.saddr && l.daddr == ev.daddr && l.lport == ev.lport && l.dport == ev.dport
        && l.prot == ev.prot
}

pub open spec fn has_link(links: Seq<LinkView>, ev: Event) -> bool {
    exists|j: int| 0 <= j < links.len() && link_matches(#[trigger] links[j], ev)
}

/// The position of the link that carries the tuple of `ev` (meaningful when
/// `has_link(links, ev)`).
pub open spec fn link_index(links: Seq<LinkView>, ev: Event) -> int {
    choose|j: int| 0 <= j < links.len() && link_matches(#[trigger] links[j], ev)
}

pub open spec fn has_process(procs: Seq<ProcessView>, pid: u32) -> bool {
    exists|i: int| 0 <= i < procs.len() && (#[trigger] procs[i]).pid == pid
}

/// The position of the record of `pid` (meaningful when
/// `has_process(procs, pid)`).
pub open spec fn process_index(procs: Seq<ProcessView>, pid: u32) -> int {
    choose|i: int| 0 <= i < procs.len() && (#[trigger] procs[i]).pid == pid
}

/// The link that a first event on a tuple creates: its counters hold the
/// event's bytes, and its domain is the resolved host name `domain` when
/// the destination is globally routable, empty otherwise.
pub open spec fn new_link(ev: Event, domain: Seq<char>) -> LinkView {
    link_add(
        LinkView {
            saddr: ev.saddr,
            daddr: ev.daddr,
            lport: ev.lport,
            dport: ev.dport,
            rx: 0,
            tx: 0,
            prot: ev.prot,
            domain: if spec_is_global(ev.daddr) {
                domain
            } else {
                Seq::empty()
            },
        },
        ev.size as i64,
        ev.is_rx,
    )
}

/// A link list after event `ev`: the matching link counts the bytes, or a
/// new link is appended.
pub open spec fn links_apply(links: Seq<LinkView>, ev: Event, domain: Seq<char>) -> Seq<
    LinkView,
> {
    if has_link(links, ev) {
        let j = link_index(links, ev);
        links.update(j, link_add(links[j], ev.size as i64, ev.is_rx))
    } else {
        links.push(new_link(ev, domain))
    }
}

/// A known process after event `ev`: its counters, then the link list of
/// the event's protocol (TCP links, or UDP links for any other protocol).
pub open spec fn process_apply(p: ProcessView, ev: Event, domain: Seq<char>) -> ProcessView {
    let q = process_add(p, ev.size as i64, ev.is_rx);
    if ev.prot == Prot::TCP {
        ProcessView { tlinks: links_apply(p.tlinks, ev, domain), ..q }
    } else {
        ProcessView { ulinks: links_apply(p.ulinks, ev, domain), ..q }
    }
}

/// The record that a first event of a process creates, named `name` and
/// dated `date`.
pub open spec fn new_process(ev: Event, name: Seq<char>, domain: Seq<char>, date: u32) -> ProcessView {
    let p = ProcessView {
        pid: ev.pid,
        name,
        tlinks: Seq::empty(),
        ulinks: Seq::empty(),
        rx: 0,
        tx: 0,
        date,
    };
    process_apply(p, ev, domain)
}

/// The table after event `ev`. `name` is the name read for the process and
/// `domain` the host name resolved for the destination; each is used only
/// where the event creates the record that holds it.
pub open spec fn apply_event(
    procs: Seq<ProcessView>,
    ev: Event,
    name: Seq<char>,
    domain: Seq<char>,
    date: u32,
) -> Seq<ProcessView> {
    if has_process(procs, ev.pid) {
        let i = process_index(procs, ev.pid);
        procs.update(i, process_apply(procs[i], ev, domain))
    } else {
        procs.push(new_process(ev, name, domain, date))
    }
}

/// No two links of a list share a 5-tuple.
pub open spec fn links_unique(links: Seq<LinkView>) -> bool {
    forall|j: int, k: int|
        0 <= j < links.len() && 0 <= k < links.len() && j != k ==> !same_tuple(
            #[trigger] links[j],
            #[trigger] links[k],
        )
}

/// No two records share a pid, and no list of a record holds two links
/// with one 5-tuple.
pub open spec fn table_wf(procs: Seq<ProcessView>) -> bool {
    &&& forall|i: int, k: int|
        0 <= i < procs.len() && 0 <= k < procs.len() && i != k ==> (#[trigger] procs[i]).pid
            != (#[trigger] procs[k]).pid
    &&& forall|i: int|
        0 <= i < procs.len() ==> links_unique((#[trigger] procs[i]).tlinks) && links_unique(
            procs[i].ulinks,
        )
}

/// The lookups that ingesting an event needs: the process name when the
/// event creates a record, and the destination's host name when it creates
/// a link to a globally routable address.
pub struct Lookups {
    pub name: bool,
    pub domain: bool,
}

pub open spec fn spec_lookups(procs: Seq<ProcessView>, ev: Event) -> Lookups {
    let known = has_process(procs, ev.pid);
    let p = procs[process_index(procs, ev.pid)];
    let links = if ev.prot == Prot::TCP {
        p.tlinks
    } else {
        p.ulinks
    };
    Lookups {
        name: !known,
        domain: spec_is_global(ev.daddr) && !(known && has_link(links, ev)),
    }
}

/// The in-memory table of processes, each at most once, in the order they
/// were first seen. `date` is the date given to the records it creates.
pub struct ProcessTable {
    procs: Vec<Process>,
    date: u32,
}

pub open spec fn procs_view(v: Seq<Process>) -> Seq<ProcessView> {
    v.map_values(|p: Process| p@)
}

impl View for ProcessTable {
    type V = Seq<ProcessView>;

    closed spec fn view(&self) -> Seq<ProcessView> {
        procs_view(self.procs@)
    }
}

fn find_link(links: &Vec<Link>, ev: &Event) -> (r: Option<usize>)
    ensures
        r is Some <==> has_link(links_view(links@), *ev),
        r is Some ==> r->0 < links@.len() && link_matches(links@[r->0 as int]@, *ev),
{
    let mut j: usize = 0;
    while j < links.len()
        invariant
            0 <= j <= links@.len(),
            forall|k: int| 0 <= k < j ==> !link_matches(#[trigger] links@[k]@, *ev),
        decreases links@.len() - j,
    {
        let l = &links[j];
        if l.saddr == ev.saddr && l.daddr == ev.daddr && l.lport == ev.lport && l.dport == ev.dport
            && l.prot == ev.prot {
            assert(links_view(links@)[j as int] == links@[j as int]@);
            return Some(j);
        }
        j = j + 1;
    }
    proof {
        assert forall|k: int| 0 <= k < links_view(links@).len() implies !link_matches(
            #[trigger] links_view(links@)[k],
            *ev,
        ) by {
            assert(links_view(links@)[k] == links@[k]@);
        }
    }
    None
}

/// The first link that `ev` creates, as an executable value.
fn make_link(ev: &Event, domain: String) -> (r: Link)
    ensures
        r@ == new_link(*ev, domain@),
{
    let mut l = Link::new(ev.saddr, ev.daddr, ev.lport, ev.dport);
    l.prot = ev.prot;
    if ev.daddr.is_global() {
        l.domain = domain;
    }
    l.add_data(ev.size as i64, ev.is_rx);
    l
}

proof fn lemma_links_view_update(v: Seq<Link>, j: int, l: Link)
    requires
        0 <= j < v.len(),
    ensures
        links_view(v.update(j, l)) == links_view(v).update(j, l@),
{
    assert(links_view(v.update(j, l)) =~= links_view(v).update(j, l@));
}

proof fn lemma_links_view_push(v: Seq<Link>, l: Link)
    ensures
        links_view(v.push(l)) == links_view(v).push(l@),
{
    assert(links_view(v.push(l)) =~= links_view(v).push(l@));
}

/// Applies `ev` to one link list.
fn links_ingest(links: &mut Vec<Link>, ev: &Event, domain: String)
    requires
        links_unique(links_view(old(links)@)),
    ensures
        links_view(final(links)@) == links_apply(links_view(old(links)@), *ev, domain@),
        links_unique(links_view(final(links)@)),
{
    match find_link(links, ev) {
        Some(j) => {
            let ghost v = links_view(links@);
            proof {
                assert(v[j as int] == links@[j as int]@);
                assert(link_matches(v[j as int], *ev));
                lemma_link_index_unique(v, *ev, j as int);
            }
            let l = &mut links[j];
            l.add_data(ev.size as i64, ev.is_rx);
            proof {
                lemma_links_view_update(old(links)@, j as int, links@[j as int]);
                lemma_links_update_unique(links_view(old(links)@), *ev, domain@);
            }
        },
        None => {
            let l = make_link(ev, domain);
            links.push(l);
            proof {
                lemma_links_view_push(old(links)@, l);
                lemma_links_push_unique(links_view(old(links)@), *ev, domain@);
            }
        },
    }
}

/// Under unique tuples, the link that matches `ev` is the one at `j`.
proof fn lemma_link_index_unique(links: Seq<LinkView>, ev: Event, j: int)
    requires
        links_unique(links),
        0 <= j < links.len(),
        link_matches(links[j], ev),
    ensures
        has_link(links, ev),
        link_index(links, ev) == j,
{
    let k = link_index(links, ev);
    assert(link_matches(links[k], ev));
    if k != j {
        assert(same_tuple(links[j], links[k]));
    }
}

proof fn lemma_links_update_unique(links: Seq<LinkView>, ev: Event, domain: Seq<char>)
    requires
        links_unique(links),
        has_link(links, ev),
    ensures
        links_unique(links_apply(links, ev, domain)),
{
    let r = links_apply(links, ev, domain);
    assert forall|a: int, b: int|
        0 <= a < r.len() && 0 <= b < r.len() && a != b implies !same_tuple(
        #[trigger] r[a],
        #[trigger] r[b],
    ) by {
        assert(same_tuple(r[a], links[a]));
        assert(same_tuple(r[b], links[b]));
        assert(!same_tuple(links[a], links[b]));
    }
}

proof fn lemma_links_push_unique(links: Seq<LinkView>, ev: Event, domain: Seq<char>)
    requires
        links_unique(links),
        !has_link(links, ev),
    ensures
        links_unique(links_apply(links, ev, domain)),
{
    let r = links_apply(links, ev, domain);
    let n = links.len() as int;
    assert forall|a: int, b: int|
        0 <= a < r.len() && 0 <= b < r.len() && a != b implies !same_tuple(
        #[trigger] r[a],
        #[trigger] r[b],
    ) by {
        if a == n {
            assert(!link_matches(links[b], ev));
        } else if b == n {
            assert(!link_matches(links[a], ev));
        } else {
            assert(!same_tuple(links[a], links[b]));
        }
    }
}

proof fn lemma_process_index_unique(procs: Seq<ProcessView>, pid: u32, i: int)
    requires
        table_wf(procs),
        0 <= i < procs.len(),
        procs[i].pid == pid,
    ensures
        has_process(procs, pid),
        process_index(procs, pid) == i,
{
    let k = process_index(procs, pid);
    assert(procs[k].pid == pid);
}

proof fn lemma_procs_view_update(v: Seq<Process>, i: int, p: Process)
    requires
        0 <= i < v.len(),
    ensures
        procs_view(v.update(i, p)) == procs_view(v).update(i, p@),
{
    assert(procs_view(v.update(i, p)) =~= procs_view(v).update(i, p@));
}

proof fn lemma_procs_view_push(v: Seq<Process>, p: Process)
    ensures
        procs_view(v.push(p)) == procs_view(v).push(p@),
{
    assert(procs_view(v.push(p)) =~= procs_view(v).push(p@));
}

impl ProcessTable {
    /// The table's invariant: pids are unique, and so are the 5-tuples of
    /// each link list.
    pub open spec fn wf(&self) -> bool {
        table_wf(self@)
    }

    /// The date given to the records that the table creates.
    pub closed spec fn spec_date(&self) -> u32 {
        self.date
    }

    /// An empty table whose new records are dated `date`.
    pub fn new(date: u32) -> (r: ProcessTable)
        ensures
            r.wf(),
            r@ == Seq::<ProcessView>::empty(),
            r.spec_date() == date,
    {
        let r = ProcessTable { procs: Vec::new(), date };
        proof {
            assert(procs_view(r.procs@) =~= Seq::<ProcessView>::empty());
        }
        r
    }

    pub fn get_date(&self) -> (r: u32)
        ensures
            r == self.spec_date(),
    {
        self.date
    }

    pub fn len(&self) -> (r: usize)
        ensures
            r == self@.len(),
    {
        self.procs.len()
    }

    /// The records, in the order they were first seen.
    pub fn processes(&self) -> (r: &Vec<Process>)
        ensures
            procs_view(r@) == self@,
    {
        &self.procs
    }

    fn find_process(&self, pid: u32) -> (r: Option<usize>)
        ensures
            r is Some <==> has_process(self@, pid),
            r is Some ==> r->0 < self@.len() && self@[r->0 as int].pid == pid,
    {
        let mut i: usize = 0;
        while i < self.procs.len()
            invariant
                0 <= i <= self.procs@.len(),
                forall|k: int| 0 <= k < i ==> (#[trigger] self.procs@[k]).pid != pid,
            decreases self.procs@.len() - i,
        {
            if self.procs[i].pid == pid {
                assert(self@[i as int] == self.procs@[i as int]@);
                return Some(i);
            }
            i = i + 1;
        }
        proof {
            assert forall|k: int| 0 <= k < self@.len() implies (#[trigger] self@[k]).pid
                != pid by {
                assert(self@[k] == self.procs@[k]@);
            }
        }
        None
    }

    /// The lookups that ingesting `ev` will use.
    pub fn lookups_needed(&self, ev: &Event) -> (r: Lookups)
        requires
            self.wf(),
        ensures
            r == spec_lookups(self@, *ev),
    {
        let global = ev.daddr.is_global();
        match self.find_process(ev.pid) {
            Some(i) => {
                proof {
                    lemma_process_index_unique(self@, ev.pid, i as int);
                    assert(self@[i as int] == self.procs@[i as int]@);
                }
                let p = &self.procs[i];
                let known_link = if ev.prot == Prot::TCP {
                    find_link(&p.tlinks, ev).is_some()
                } else {
                    find_link(&p.ulinks, ev).is_some()
                };
                Lookups { name: false, domain: global && !known_link }
            },
            None => Lookups { name: true, domain: global },
        }
    }

    /// Merges one event into the table. A known process counts the bytes,
    /// then its matching link counts them too, or a new link is appended;
    /// an unknown process is appended with its first link. `name` and
    /// `domain` are the results of the lookups that `lookups_needed`
    /// reports; they are used only where it reports them needed.
    pub fn ingest(&mut self, ev: &Event, name: String, domain: String)
        requires
            old(self).wf(),
        ensures
            final(self).wf(),
            final(self)@ == apply_event(old(self)@, *ev, name@, domain@, old(self).spec_date()),
            final(self).spec_date() == old(self).spec_date(),
    {
        match self.find_process(ev.pid) {
            Some(i) => {
                let ghost v = self@;
                proof {
                    lemma_process_index_unique(v, ev.pid, i as int);
                    assert(v[i as int] == self.procs@[i as int]@);
                }
                let p = &mut self.procs[i];
                p.add_data(ev.size as i64, ev.is_rx);
                if ev.prot == Prot::TCP {
                    links_ingest(&mut p.tlinks, ev, domain);
                } else {
                    links_ingest(&mut p.ulinks, ev, domain);
                }
                proof {
                    lemma_procs_view_update(old(self).procs@, i as int, self.procs@[i as int]);
                    assert(self@ == apply_event(v, *ev, name@, domain@, self.date));
                    assert forall|a: int, b: int|
                        0 <= a < self@.len() && 0 <= b < self@.len() && a != b implies (
                        #[trigger] self@[a]).pid != (#[trigger] self@[b]).pid by {
                        assert(self@[a].pid == v[a].pid);
                        assert(self@[b].pid == v[b].pid);
                    }
                }
            },
            None => {
                let mut p = Process::new(ev.pid);
                p.name = name;
                p.date = self.date;
                p.add_data(ev.size as i64, ev.is_rx);
                proof {
                    assert(links_unique(links_view(p.tlinks@)));
                    assert(links_unique(links_view(p.ulinks@)));
                }
                if ev.prot == Prot::TCP {
                    links_ingest(&mut p.tlinks, ev, domain);
                } else {
                    links_ingest(&mut p.ulinks, ev, domain);
                }
                self.procs.push(p);
                proof {
                    lemma_procs_view_push(old(self).procs@, p);
                    assert(p@ == new_process(*ev, name@, domain@, self.date));
                }
            },
        }
    }
}

/// Ingesting an event keeps the table's invariant: at most one record per
/// pid, and at most one link per 5-tuple in each link list of a record.
pub proof fn law_apply_event_keeps_table_wf(
    procs: Seq<ProcessView>,
    ev: Event,
    name: Seq<char>,
    domain: Seq<char>,
    date: u32,
)
    requires
        table_wf(procs),
    ensures
        table_wf(apply_event(procs, ev, name, domain, date)),
{
    let r = apply_event(procs, ev, name, domain, date);
    if has_process(procs, ev.pid) {
        let i = process_index(procs, ev.pid);
        let p = procs[i];
        if ev.prot == Prot::TCP {
            if has_link(p.tlinks, ev) {
                lemma_links_update_unique(p.tlinks, ev, domain);
            } else {
                lemma_links_push_unique(p.tlinks, ev, domain);
            }
        } else {
            if has_link(p.ulinks, ev) {
                lemma_links_update_unique(p.ulinks, ev, domain);
            } else {
                lemma_links_push_unique(p.ulinks, ev, domain);
            }
        }
        assert forall|a: int, b: int|
            0 <= a < r.len() && 0 <= b < r.len() && a != b implies (#[trigger] r[a]).pid != (
            #[trigger] r[b]).pid by {
            assert(r[a].pid == procs[a].pid);
            assert(r[b].pid == procs[b].pid);
        }
        assert forall|a: int| 0 <= a < r.len() implies links_unique((#[trigger] r[a]).tlinks)
            && links_unique(r[a].ulinks) by {
            if a != i {
                assert(r[a] == procs[a]);
            }
        }
    } else {
        let e = Seq::<LinkView>::empty();
        lemma_links_push_unique(e, ev, domain);
        assert forall|a: int| 0 <= a < r.len() implies links_unique((#[trigger] r[a]).tlinks)
            && links_unique(r[a].ulinks) by {
            if a < procs.len() {
                assert(r[a] == procs[a]);
            } else {
                assert(links_unique(e));
            }
        }
        assert forall|a: int, b: int|
            0 <= a < r.len() && 0 <= b < r.len() && a != b implies (#[trigger] r[a]).pid != (
            #[trigger] r[b]).pid by {
            if a < procs.len() && b < procs.len() {
                assert(r[a] == procs[a] && r[b] == procs[b]);
            } else if a < procs.len() {
                assert(r[a] == procs[a]);
            } else {
                assert(r[b] == procs[b]);
            }
        }
    }
}

/// Every counter of the table can take `size` more bytes without passing
/// `i64::MAX`.
pub open spec fn has_headroom(procs: Seq<ProcessView>, size: u32) -> bool {
    forall|i: int|
        0 <= i < procs.len() ==> {
            let p = #[trigger] procs[i];
            &&& p.rx + size <= i64::MAX
            &&& p.tx + size <= i64::MAX
            &&& links_have_headroom(p.tlinks, size)
            &&& links_have_headroom(p.ulinks, size)
        }
}

pub open spec fn links_have_headroom(links: Seq<LinkView>, size: u32) -> bool {
    forall|j: int|
        0 <= j < links.len() ==> (#[trigger] links[j]).rx + size <= i64::MAX && links[j].tx + size
            <= i64::MAX
}

/// `b` is link `a` later: same tuple, counters no lower.
pub open spec fn link_grown(a: LinkView, b: LinkView) -> bool {
    same_tuple(a, b) && b.rx >= a.rx && b.tx >= a.tx
}

pub open spec fn links_grown(a: Seq<LinkView>, b: Seq<LinkView>) -> bool {
    a.len() <= b.len() && forall|j: int| 0 <= j < a.len() ==> link_grown(a[j], #[trigger] b[j])
}

/// `b` is record `a` later: same pid, counters no lower, every link still
/// in place with counters no lower.
pub open spec fn process_grown(a: ProcessView, b: ProcessView) -> bool {
    &&& a.pid == b.pid
    &&& b.rx >= a.rx
    &&& b.tx >= a.tx
    &&& links_grown(a.tlinks, b.tlinks)
    &&& links_grown(a.ulinks, b.ulinks)
}

proof fn lemma_links_apply_grown(links: Seq<LinkView>, ev: Event, domain: Seq<char>)
    requires
        links_have_headroom(links, ev.size),
    ensures
        links_grown(links, links_apply(links, ev, domain)),
{
    let r = links_apply(links, ev, domain);
    assert forall|j: int| 0 <= j < links.len() implies link_grown(links[j], #[trigger] r[j]) by {
        if has_link(links, ev) && j == link_index(links, ev) {
        } else {
            assert(r[j] == links[j]);
        }
    }
}

/// Across an ingest, no record or link disappears or moves, and no counter
/// decreases, as long as no counter passes `i64::MAX`.
pub proof fn law_apply_event_monotonic(
    procs: Seq<ProcessView>,
    ev: Event,
    name: Seq<char>,
    domain: Seq<char>,
    date: u32,
)
    requires
        has_headroom(procs, ev.size),
    ensures
        ({
            let r = apply_event(procs, ev, name, domain, date);
            &&& procs.len() <= r.len()
            &&& forall|i: int| 0 <= i < procs.len() ==> process_grown(procs[i], #[trigger] r[i])
        }),
{
    let r = apply_event(procs, ev, name, domain, date);
    assert forall|i: int| 0 <= i < procs.len() implies process_grown(procs[i], #[trigger] r[i]) by {
        let p = procs[i];
        lemma_links_apply_grown(p.tlinks, ev, domain);
        lemma_links_apply_grown(p.ulinks, ev, domain);
        assert(links_grown(p.tlinks, p.tlinks));
        assert(links_grown(p.ulinks, p.ulinks));
        if !(has_process(procs, ev.pid) && i == process_index(procs, ev.pid)) {
            assert(r[i] == p);
        }
    }
}

/// The table after the events `evs`, in order, each ingested with the same
/// lookup results.
pub open spec fn apply_events(
    procs: Seq<ProcessView>,
    evs: Seq<Event>,
    name: Seq<char>,
    domain: Seq<char>,
    date: u32,
) -> Seq<ProcessView>
    decreases evs.len(),
{
    if evs.len() == 0 {
        procs
    } else {
        apply_event(apply_events(procs, evs.drop_last(), name, domain, date), evs.last(), name, domain, date)
    }
}

/// The bytes that `evs` received.
pub open spec fn sum_rx(evs: Seq<Event>) -> int
    decreases evs.len(),
{
    if evs.len() == 0 {
        0
    } else {
        sum_rx(evs.drop_last()) + if evs.last().is_rx == 1 {
            evs.last().size as int
        } else {
            0
        }
    }
}

/// The bytes that `evs` sent.
pub open spec fn sum_tx(evs: Seq<Event>) -> int
    decreases evs.len(),
{
    if evs.len() == 0 {
        0
    } else {
        sum_tx(evs.drop_last()) + if evs.last().is_rx != 1 {
            evs.last().size as int
        } else {
            0
        }
    }
}

/// Events of one process on one 5-tuple.
pub open spec fn same_flow(evs: Seq<Event>) -> bool {
    forall|k: int|
        0 <= k < evs.len() ==> {
            let e = #[trigger] evs[k];
            &&& e.pid == evs[0].pid
            &&& e.saddr == evs[0].saddr
            &&& e.daddr == evs[0].daddr
            &&& e.lport == evs[0].lport
            &&& e.dport == evs[0].dport
            &&& e.prot == evs[0].prot
        }
}

/// The link list that events of protocol `prot` go to.
pub open spec fn links_of(p: ProcessView, prot: Prot) -> Seq<LinkView> {
    if prot == Prot::TCP {
        p.tlinks
    } else {
        p.ulinks
    }
}

pub open spec fn other_links_of(p: ProcessView, prot: Prot) -> Seq<LinkView> {
    if prot == Prot::TCP {
        p.ulinks
    } else {
        p.tlinks
    }
}

proof fn lemma_sums_grow(evs: Seq<Event>)
    ensures
        sum_rx(evs) >= 0,
        sum_tx(evs) >= 0,
    decreases evs.len(),
{
    if evs.len() > 0 {
        lemma_sums_grow(evs.drop_last());
    }
}

/// Ingesting the events of one flow into a table that does not know the
/// process yields one new record with one link: the link's received bytes
/// are the sum of the sizes of the events with `is_rx == 1`, its
/// transmitted bytes the sum of the others, and the record's counters
/// equal the link's. Sums are taken as long as they fit in an `i64`.
pub proof fn law_counter_conservation(
    procs: Seq<ProcessView>,
    evs: Seq<Event>,
    name: Seq<char>,
    domain: Seq<char>,
    date: u32,
)
    requires
        table_wf(procs),
        evs.len() > 0,
        same_flow(evs),
        !has_process(procs, evs[0].pid),
        sum_rx(evs) <= i64::MAX,
        sum_tx(evs) <= i64::MAX,
    ensures
        ({
            let r = apply_events(procs, evs, name, domain, date);
            let p = r[procs.len() as int];
            let links = links_of(p, evs[0].prot);
            &&& table_wf(r)
            &&& r.len() == procs.len() + 1
            &&& has_process(r, evs[0].pid)
            &&& process_index(r, evs[0].pid) == procs.len()
            &&& links.len() == 1
            &&& link_matches(links[0], evs[0])
            &&& other_links_of(p, evs[0].prot).len() == 0
            &&& links[0].rx == sum_rx(evs)
            &&& links[0].tx == sum_tx(evs)
            &&& p.rx == links[0].rx
            &&& p.tx == links[0].tx
        }),
    decreases evs.len(),
{
    let e0 = evs[0];
    let n = procs.len() as int;
    let last = evs.last();
    let front = evs.drop_last();
    let r = apply_events(procs, evs, name, domain, date);
    lemma_sums_grow(front);
    if evs.len() == 1 {
        assert(front.len() == 0);
        assert(apply_events(procs, front, name, domain, date) == procs);
        assert(last == e0);
        law_apply_event_keeps_table_wf(procs, e0, name, domain, date);
        assert(r == procs.push(new_process(e0, name, domain, date)));
        assert(r[n].pid == e0.pid);
        lemma_process_index_unique(r, e0.pid, n);
        assert(!has_link(Seq::<LinkView>::empty(), e0));
    } else {
        assert(same_flow(front)) by {
            assert forall|k: int| 0 <= k < front.len() implies #[trigger] front[k] == evs[k] by {}
        }
        assert(front[0] == e0);
        assert(sum_rx(front) <= sum_rx(evs) && sum_tx(front) <= sum_tx(evs));
        law_counter_conservation(procs, front, name, domain, date);
        let r1 = apply_events(procs, front, name, domain, date);
        let p1 = r1[n];
        assert(last == evs[evs.len() - 1]);
        lemma_process_index_unique(r1, e0.pid, n);
        assert(r == apply_event(r1, last, name, domain, date));
        law_apply_event_keeps_table_wf(r1, last, name, domain, date);
        let l1 = links_of(p1, e0.prot);
        assert(link_matches(l1[0], last));
        lemma_link_index_unique(l1, last, 0);
        assert(r[n].pid == e0.pid);
        lemma_process_index_unique(r, e0.pid, n);
    }
}

} // verus!
