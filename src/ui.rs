use vstd::prelude::*;
use vstd::string::StringExecFns;
use crate::date::Date;
use crate::net::{Process, ProcessView};
use crate::table::procs_view;
use crate::util::{StatefulList, TabsState};

verus! {

/// One line of the process pane: a process, or one of its TCP or UDP links
/// (by position in the process list and in the link list).
#[derive(Clone, Copy, Debug, PartialEq, Eq, Structural)]
pub enum Entry {
    Process(usize),
    Tcp(usize, usize),
    Udp(usize, usize),
}

/// The state of the viewer: which panes and link kinds are shown, the date
/// tabs, and the process, log and help lists.
pub struct App {
    pub title: String,
    pub should_quit: bool,
    pub tabs: TabsState,
    pub show_logs: bool,
    pub show_help: bool,
    pub show_tcp: bool,
    pub show_udp: bool,
    pub show_all: bool,
    pub procs: StatefulList<Process>,
    pub logs: StatefulList<String>,
    pub help: StatefulList<String>,
    pub enhanced_graphics: bool,
}

pub open spec fn help_text() -> Seq<Seq<char>> {
    seq![
        "H: display/hide help"@,
        "L: display/hide logs"@,
        "t: display/hide TCP"@,
        "u: display/hide UDP"@,
        "a: display/hide all (TCP+UDP)"@,
        ""@,
        "Arrows or hjkl: move around (main pane and tabs)"@,
        "q: quit"@,
    ]
}

fn help_lines() -> (r: Vec<String>)
    ensures
        r@.len() == help_text().len(),
        forall|i: int| 0 <= i < r@.len() ==> (#[trigger] r@[i])@ == help_text()[i],
{
    proof {
        reveal_strlit("H: display/hide help");
        reveal_strlit("L: display/hide logs");
        reveal_strlit("t: display/hide TCP");
        reveal_strlit("u: display/hide UDP");
        reveal_strlit("a: display/hide all (TCP+UDP)");
        reveal_strlit("");
        reveal_strlit("Arrows or hjkl: move around (main pane and tabs)");
        reveal_strlit("q: quit");
    }
    let mut v: Vec<String> = Vec::new();
    v.push(String::from_str("H: display/hide help"));
    v.push(String::from_str("L: display/hide logs"));
    v.push(String::from_str("t: display/hide TCP"));
    v.push(String::from_str("u: display/hide UDP"));
    v.push(String::from_str("a: display/hide all (TCP+UDP)"));
    v.push(String::from_str(""));
    v.push(String::from_str("Arrows or hjkl: move around (main pane and tabs)"));
    v.push(String::from_str("q: quit"));
    v
}

/// The lines that show process `i`: the process, then its TCP links when
/// `tcp`, then its UDP links when `udp`.
pub open spec fn process_entries(p: ProcessView, i: int, tcp: bool, udp: bool) -> Seq<Entry> {
    seq![Entry::Process(i as usize)] + (if tcp {
        Seq::new(p.tlinks.len(), |j: int| Entry::Tcp(i as usize, j as usize))
    } else {
        Seq::empty()
    }) + (if udp {
        Seq::new(p.ulinks.len(), |j: int| Entry::Udp(i as usize, j as usize))
    } else {
        Seq::empty()
    })
}

/// The lines that show the processes of `procs` dated `date`, in order.
pub open spec fn visible_entries(procs: Seq<ProcessView>, date: u32, tcp: bool, udp: bool) -> Seq<
    Entry,
>
    decreases procs.len(),
{
    if procs.len() == 0 {
        Seq::empty()
    } else {
        let i = procs.len() - 1;
        visible_entries(procs.drop_last(), date, tcp, udp) + if procs[i].date == date {
            process_entries(procs[i], i, tcp, udp)
        } else {
            Seq::empty()
        }
    }
}

impl App {
    /// A viewer over the date tabs `dates` and the log lines `logs`, with
    /// logs and help shown and no process loaded.
    pub fn new(title: String, enhanced_graphics: bool, dates: Vec<Date>, logs: Vec<String>) -> (r:
        App)
        ensures
            r.title@ == title@,
            !r.should_quit,
            r.show_logs && r.show_help,
            !r.show_tcp && !r.show_udp && !r.show_all,
            r.tabs.titles@ == dates@,
            r.tabs.index == 0,
            r.procs.items@.len() == 0,
            r.procs.state is None,
            r.logs.items@ == logs@,
            r.help.items@.len() == help_text().len(),
            forall|i: int| 0 <= i < r.help.items@.len() ==> (#[trigger] r.help.items@[i])@ == help_text()[i],
            r.enhanced_graphics == enhanced_graphics,
    {
        App {
            title,
            should_quit: false,
            tabs: TabsState::new(dates),
            show_logs: true,
            show_help: true,
            show_tcp: false,
            show_udp: false,
            show_all: false,
            procs: StatefulList::new(),
            logs: StatefulList::with_items(logs),
            help: StatefulList::with_items(help_lines()),
            enhanced_graphics,
        }
    }

    /// Loads the processes to show, the first line selected.
    pub fn procs(&mut self, procs: Vec<Process>) -> (r: &mut Self)
        ensures
            (*r).procs.items@ == procs@,
            (*r).procs.state == Some(0usize),
            (*r).procs.nb_entries == 0,
            (*r).tabs == old(self).tabs,
            (*r).logs == old(self).logs,
            *final(self) == *final(r),
    {
        self.procs = StatefulList::with_items(procs);
        self
    }

    pub fn on_up(&mut self)
        requires
            old(self).procs.state == Some(0usize) ==> old(self).procs.nb_entries > 0,
        ensures
            final(self).procs.state == Some(
                match old(self).procs.state {
                    Some(i) => if i == 0 {
                        (old(self).procs.nb_entries - 1) as usize
                    } else {
                        (i - 1) as usize
                    },
                    None => 0usize,
                },
            ),
            final(self).tabs == old(self).tabs,
    {
        self.procs.previous();
    }

    pub fn on_down(&mut self)
        requires
            old(self).procs.state is Some ==> old(self).procs.nb_entries > 0,
        ensures
            final(self).procs.state == Some(
                match old(self).procs.state {
                    Some(i) => if i >= old(self).procs.nb_entries - 1 {
                        0usize
                    } else {
                        (i + 1) as usize
                    },
                    None => 0usize,
                },
            ),
            final(self).tabs == old(self).tabs,
    {
        self.procs.next();
    }

    pub fn on_right(&mut self)
        requires
            old(self).tabs.titles@.len() > 0,
        ensures
            final(self).tabs.titles@ == old(self).tabs.titles@,
            final(self).tabs.index == (old(self).tabs.index + 1) % (
            old(self).tabs.titles@.len() as int),
            final(self).procs.state == old(self).procs.state,
    {
        self.tabs.next();
    }

    pub fn on_left(&mut self)
        requires
            old(self).tabs.titles@.len() > 0,
        ensures
            final(self).tabs.titles@ == old(self).tabs.titles@,
            final(self).tabs.index == if old(self).tabs.index > 0 {
                old(self).tabs.index - 1
            } else {
                old(self).tabs.titles@.len() - 1
            },
            final(self).procs.state == old(self).procs.state,
    {
        self.tabs.previous();
    }

    /// Handles a key: `q` quits, `h`/`l` move between tabs, `j`/`k` move in
    /// the process list, `L`, `H`, `t`, `u` and `a` show or hide the logs,
    /// the help, the TCP links, the UDP links and all links.
    pub fn on_key(&mut self, c: char)
        requires
            (c == 'h' || c == 'l') ==> old(self).tabs.titles@.len() > 0,
            c == 'j' ==> (old(self).procs.state is Some ==> old(self).procs.nb_entries > 0),
            c == 'k' ==> (old(self).procs.state == Some(0usize) ==> old(self).procs.nb_entries
                > 0),
        ensures
            final(self).should_quit == (old(self).should_quit || c == 'q'),
            final(self).show_logs == (old(self).show_logs != (c == 'L')),
            final(self).show_help == (old(self).show_help != (c == 'H')),
            final(self).show_tcp == (old(self).show_tcp != (c == 't')),
            final(self).show_udp == (old(self).show_udp != (c == 'u')),
            final(self).show_all == (old(self).show_all != (c == 'a')),
            !(c == 'h' || c == 'l') ==> final(self).tabs == old(self).tabs,
            c == 'l' ==> final(self).tabs.index == (old(self).tabs.index + 1) % (
            old(self).tabs.titles@.len() as int),
            c == 'h' ==> final(self).tabs.index == if old(self).tabs.index > 0 {
                old(self).tabs.index - 1
            } else {
                old(self).tabs.titles@.len() - 1
            },
            !(c == 'j' || c == 'k') ==> final(self).procs.state == old(self).procs.state,
    {
        match c {
            'q' => {
                self.should_quit = true;
            },
            'h' => {
                self.tabs.previous();
            },
            'j' => {
                self.procs.next();
            },
            'k' => {
                self.procs.previous();
            },
            'l' => {
                self.tabs.next();
            },
            'L' => {
                self.show_logs = !self.show_logs;
            },
            'H' => {
                self.show_help = !self.show_help;
            },
            't' => {
                self.show_tcp = !self.show_tcp;
            },
            'u' => {
                self.show_udp = !self.show_udp;
            },
            'a' => {
                self.show_all = !self.show_all;
            },
            _ => {},
        }
    }

    /// Reloads the processes, the logs and the date tabs, keeping the
    /// selected process line and tab.
    pub fn on_tick(&mut self, procs: Vec<Process>, logs: Vec<String>, dates: Vec<Date>)
        ensures
            final(self).procs.items@ == procs@,
            final(self).procs.state == Some(
                match old(self).procs.state {
                    Some(i) => i,
                    None => 0usize,
                },
            ),
            final(self).logs.items@ == logs@,
            final(self).tabs.titles@ == dates@,
            final(self).tabs.index == old(self).tabs.index,
    {
        let sel = match self.procs.state {
            Some(i) => i,
            None => 0,
        };
        let index = self.tabs.index;
        self.procs = StatefulList::with_items(procs);
        self.procs.state = Some(sel);
        self.logs = StatefulList::with_items(logs);
        self.tabs = TabsState::new(dates);
        self.tabs.index = index;
    }

    /// The date of the selected tab, or 0 without tabs.
    pub fn selected_date(&self) -> (r: u32)
        requires
            self.tabs.titles@.len() > 0 ==> self.tabs.index < self.tabs.titles@.len(),
        ensures
            r == if self.tabs.titles@.len() > 0 {
                self.tabs.titles@[self.tabs.index as int].int_form
            } else {
                0
            },
    {
        if self.tabs.titles.len() > 0 {
            self.tabs.titles[self.tabs.index].int_form
        } else {
            0
        }
    }

    /// The lines of the process pane: the processes of the selected date,
    /// each followed by its TCP links when TCP or all links are shown and
    /// by its UDP links when UDP or all links are shown.
    pub fn entries(&self) -> (r: Vec<Entry>)
        requires
            self.tabs.titles@.len() > 0 ==> self.tabs.index < self.tabs.titles@.len(),
        ensures
            r@ == visible_entries(
                procs_view(self.procs.items@),
                if self.tabs.titles@.len() > 0 {
                    self.tabs.titles@[self.tabs.index as int].int_form
                } else {
                    0
                },
                self.show_tcp || self.show_all,
                self.show_udp || self.show_all,
            ),
    {
        let date = self.selected_date();
        let tcp = self.show_tcp || self.show_all;
        let udp = self.show_udp || self.show_all;
        let items = &self.procs.items;
        let ghost pv = procs_view(items@);
        let mut out: Vec<Entry> = Vec::new();
        let mut i: usize = 0;
        while i < items.len()
            invariant
                0 <= i <= items@.len(),
                pv == procs_view(items@),
                out@ == visible_entries(pv.subrange(0, i as int), date, tcp, udp),
            decreases items@.len() - i,
        {
            let p = &items[i];
            proof {
                let s = pv.subrange(0, i + 1);
                assert(s.drop_last() =~= pv.subrange(0, i as int));
                assert(s[i as int] == p@);
            }
            if p.date == date {
                let ghost before = out@;
                out.push(Entry::Process(i));
                let mut j: usize = 0;
                if tcp {
                    while j < p.tlinks.len()
                        invariant
                            0 <= j <= p.tlinks@.len(),
                            out@ == before + seq![Entry::Process(i)] + Seq::new(
                                j as nat,
                                |k: int| Entry::Tcp(i, k as usize),
                            ),
                        decreases p.tlinks@.len() - j,
                    {
                        out.push(Entry::Tcp(i, j));
                        proof {
                            assert(out@ =~= before + seq![Entry::Process(i)] + Seq::new(
                                (j + 1) as nat,
                                |k: int| Entry::Tcp(i, k as usize),
                            ));
                        }
                        j = j + 1;
                    }
                }
                let ghost mid = out@;
                let mut j: usize = 0;
                if udp {
                    while j < p.ulinks.len()
                        invariant
                            0 <= j <= p.ulinks@.len(),
                            out@ == mid + Seq::new(j as nat, |k: int| Entry::Udp(i, k as usize)),
                        decreases p.ulinks@.len() - j,
                    {
                        out.push(Entry::Udp(i, j));
                        proof {
                            assert(out@ =~= mid + Seq::new(
                                (j + 1) as nat,
                                |k: int| Entry::Udp(i, k as usize),
                            ));
                        }
                        j = j + 1;
                    }
                }
                proof {
                    let pe = process_entries(p@, i as int, tcp, udp);
                    assert(p@.tlinks.len() == p.tlinks@.len());
                    assert(p@.ulinks.len() == p.ulinks@.len());
                    if tcp {
                        assert(mid =~= before + seq![Entry::Process(i)] + Seq::new(
                            p.tlinks@.len(),
                            |k: int| Entry::Tcp(i, k as usize),
                        ));
                    } else {
                        assert(mid =~= before + seq![Entry::Process(i)] + Seq::<Entry>::empty());
                    }
                    if !udp {
                        assert(out@ =~= mid + Seq::<Entry>::empty());
                    }
                    assert(out@ =~= before + pe);
                }
            }
            i = i + 1;
        }
        proof {
            assert(pv.subrange(0, items@.len() as int) =~= pv);
        }
        out
    }
}

} // verus!
