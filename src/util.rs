use vstd::prelude::*;
use crate::date::Date;

verus! {

/// The date tabs of the viewer and the index of the selected one.
pub struct TabsState {
    pub titles: Vec<Date>,
    pub index: usize,
}

impl TabsState {
    /// Tabs over `titles`, the first one selected.
    pub fn new(titles: Vec<Date>) -> (r: TabsState)
        ensures
            r.titles@ == titles@,
            r.index == 0,
    {
        TabsState { titles, index: 0 }
    }

    /// Selects the next tab, wrapping around after the last.
    pub fn next(&mut self)
        requires
            old(self).titles@.len() > 0,
        ensures
            final(self).titles@ == old(self).titles@,
            final(self).index == (old(self).index + 1) % (old(self).titles@.len() as int),
    {
        let n = self.titles.len();
        self.index = (self.index % n + 1) % n;
        proof {
            let i = old(self).index as int;
            let m = n as int;
            vstd::arithmetic::div_mod::lemma_add_mod_noop(i, 1, m);
            if m > 1 {
                vstd::arithmetic::div_mod::lemma_small_mod(1nat, m as nat);
            }
            if m == 1 {
                assert((i % m + 1) % m == 0) by (nonlinear_arith)
                    requires
                        m == 1,
                ;
                assert((i + 1) % m == 0) by (nonlinear_arith)
                    requires
                        m == 1,
                ;
            }
        }
    }

    /// Selects the previous tab, wrapping around before the first.
    pub fn previous(&mut self)
        requires
            old(self).titles@.len() > 0,
        ensures
            final(self).titles@ == old(self).titles@,
            final(self).index == if old(self).index > 0 {
                old(self).index - 1
            } else {
                old(self).titles@.len() - 1
            },
    {
        if self.index > 0 {
            self.index = self.index - 1;
        } else {
            self.index = self.titles.len() - 1;
        }
    }
}

/// A list of entries with an optional selection. `nb_entries` is the
/// number of lines that the list shows, which bounds the selection.
pub struct StatefulList<T> {
    pub state: Option<usize>,
    pub items: Vec<T>,
    pub nb_entries: usize,
}

impl<T> StatefulList<T> {
    /// An empty list with nothing selected.
    pub fn new() -> (r: StatefulList<T>)
        ensures
            r.state is None,
            r.items@.len() == 0,
            r.nb_entries == 0,
    {
        StatefulList { state: None, items: Vec::new(), nb_entries: 0 }
    }

    /// A list of `items` with the first entry selected.
    pub fn with_items(items: Vec<T>) -> (r: StatefulList<T>)
        ensures
            r.state == Some(0usize),
            r.items@ == items@,
            r.nb_entries == 0,
    {
        StatefulList { state: Some(0), items, nb_entries: 0 }
    }

    /// Selects the next line, wrapping to the first after the last; with
    /// nothing selected, selects the first.
    pub fn next(&mut self)
        requires
            old(self).state is Some ==> old(self).nb_entries > 0,
        ensures
            final(self).items@ == old(self).items@,
            final(self).nb_entries == old(self).nb_entries,
            final(self).state == Some(
                match old(self).state {
                    Some(i) => if i >= old(self).nb_entries - 1 {
                        0usize
                    } else {
                        (i + 1) as usize
                    },
                    None => 0usize,
                },
            ),
    {
        let i = match self.state {
            Some(i) => {
                if i >= self.nb_entries - 1 {
                    0
                } else {
                    i + 1
                }
            },
            None => 0,
        };
        self.state = Some(i);
    }

    /// Selects the previous line, wrapping to the last before the first;
    /// with nothing selected, selects the first.
    pub fn previous(&mut self)
        requires
            old(self).state == Some(0usize) ==> old(self).nb_entries > 0,
        ensures
            final(self).items@ == old(self).items@,
            final(self).nb_entries == old(self).nb_entries,
            final(self).state == Some(
                match old(self).state {
                    Some(i) => if i == 0 {
                        (old(self).nb_entries - 1) as usize
                    } else {
                        (i - 1) as usize
                    },
                    None => 0usize,
                },
            ),
    {
        let i = match self.state {
            Some(i) => {
                if i == 0 {
                    self.nb_entries - 1
                } else {
                    i - 1
                }
            },
            None => 0,
        };
        self.state = Some(i);
    }

    /// Clears the selection.
    pub fn unselect(&mut self)
        ensures
            final(self).state is None,
            final(self).items@ == old(self).items@,
            final(self).nb_entries == old(self).nb_entries,
    {
        self.state = None;
    }
}

/// A sliding window of points: each tick drops the `tick_rate` oldest
/// points and appends up to `tick_rate` fresh ones.
pub struct Signal<T> {
    pub points: Vec<T>,
    pub tick_rate: usize,
}

impl<T> Signal<T> {
    /// Slides the window by one tick, taking the new points from the front
    /// of `fresh`.
    pub fn on_tick(&mut self, fresh: Vec<T>)
        requires
            old(self).points@.len() >= old(self).tick_rate,
        ensures
            final(self).tick_rate == old(self).tick_rate,
            final(self).points@ == old(self).points@.subrange(
                old(self).tick_rate as int,
                old(self).points@.len() as int,
            ) + fresh@.take(
                if fresh@.len() < old(self).tick_rate {
                    fresh@.len() as int
                } else {
                    old(self).tick_rate as int
                },
            ),
    {
        let mut k: usize = 0;
        while k < self.tick_rate
            invariant
                0 <= k <= self.tick_rate,
                self.tick_rate == old(self).tick_rate,
                old(self).points@.len() >= old(self).tick_rate,
                self.points@ == old(self).points@.subrange(k as int, old(self).points@.len() as int),
            decreases self.tick_rate - k,
        {
            self.points.remove(0);
            proof {
                assert(self.points@ =~= old(self).points@.subrange(
                    k + 1,
                    old(self).points@.len() as int,
                ));
            }
            k = k + 1;
        }
        let ghost given = fresh@;
        let mut fresh = fresh;
        if fresh.len() > self.tick_rate {
            fresh.truncate(self.tick_rate);
        }
        let ghost kept = fresh@;
        self.points.append(&mut fresh);
        proof {
            assert(kept =~= given.take(kept.len() as int));
        }
    }
}

} // verus!
