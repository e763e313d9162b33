//! The control loop's decisions: how one event from the merged
//! producer queue changes the application state, and when the loop
//! terminates.
//!
//! The loop itself — reading keys, ticking, painting — lives outside
//! the library; it feeds events here one at a time, in arrival order.

use crate::tabs::{next_sel, prev_sel, MyTabs};
use vstd::prelude::*;

verus! {

/// One decoded key press, reduced to what the control loop reads: the
/// two arrows, a character (the quit key is 'q'), or anything else.
#[derive(Clone, Copy, PartialEq, Eq, Structural, Debug)]
pub enum Key {
    Char(char),
    Left,
    Right,
    Other,
}

/// One event from the merged queue: a key press or a periodic tick.
#[derive(Clone, Copy, PartialEq, Eq, Structural, Debug)]
pub enum Event {
    Input(Key),
    Tick,
}

/// Whether an event is the quit key.
pub open spec fn is_quit(e: Event) -> bool {
    e == Event::Input(Key::Char('q'))
}

/// The selection after the loop handles one event: the left and right
/// arrows move it with wrap-around; every other event leaves it.
pub open spec fn step_sel(s: int, n: int, e: Event) -> int {
    match e {
        Event::Input(k) => match k {
            Key::Left => prev_sel(s, n),
            Key::Right => next_sel(s, n),
            _ => s,
        },
        Event::Tick => s,
    }
}

/// The selection after the loop consumes a whole event sequence in
/// order, stopping at the first quit key.
pub open spec fn run_sel(s: int, n: int, evs: Seq<Event>) -> int
    decreases evs.len(),
{
    if evs.len() == 0 {
        s
    } else if is_quit(evs[0]) {
        s
    } else {
        run_sel(step_sel(s, n, evs[0]), n, evs.drop_first())
    }
}

/// Whether the loop terminates while consuming these events.
pub open spec fn runs_quit(evs: Seq<Event>) -> bool
    decreases evs.len(),
{
    if evs.len() == 0 {
        false
    } else if is_quit(evs[0]) {
        true
    } else {
        runs_quit(evs.drop_first())
    }
}

/// Handle one event: true means the loop must terminate (the quit
/// key); otherwise the selection moves as the arrows say and every
/// other event is ignored.
pub fn step(tabs: &mut MyTabs, e: Event) -> (quit: bool)
    requires
        old(tabs).wf(),
    ensures
        final(tabs).wf(),
        final(tabs).titles == old(tabs).titles,
        quit == is_quit(e),
        final(tabs).selection == step_sel(
            old(tabs).selection as int,
            old(tabs).titles.len() as int,
            e,
        ),
{
    match e {
        Event::Input(k) => match k {
            Key::Char(c) => c == 'q',
            Key::Left => {
                tabs.previous();
                false
            },
            Key::Right => {
                tabs.next();
                false
            },
            Key::Other => false,
        },
        Event::Tick => false,
    }
}

/// Feed a whole event sequence to the control loop, in order,
/// stopping at the first quit key; returns whether it quit.
#[verifier::loop_isolation(false)]
pub fn run_events(tabs: &mut MyTabs, events: &Vec<Event>) -> (quit: bool)
    requires
        old(tabs).wf(),
    ensures
        final(tabs).wf(),
        final(tabs).titles == old(tabs).titles,
        final(tabs).selection == run_sel(
            old(tabs).selection as int,
            old(tabs).titles.len() as int,
            events@,
        ),
        quit == runs_quit(events@),
{
    let ghost s0: int = old(tabs).selection as int;
    let ghost n0: int = old(tabs).titles.len() as int;
    let mut i: usize = 0;
    let mut quit: bool = false;
    proof {
        assert(events@.skip(0) =~= events@);
    }
    while i < events.len() && !quit
        invariant
            i <= events@.len(),
            tabs.wf(),
            tabs.titles == old(tabs).titles,
            run_sel(s0, n0, events@) == if quit {
                tabs.selection as int
            } else {
                run_sel(tabs.selection as int, n0, events@.skip(i as int))
            },
            runs_quit(events@) == (quit || runs_quit(events@.skip(i as int))),
        decreases events@.len() - i,
    {
        let e = events[i];
        proof {
            assert(events@.skip(i as int)[0] == e);
            assert(events@.skip(i as int).drop_first() =~= events@.skip(i as int + 1));
        }
        let q = step(tabs, e);
        if q {
            quit = true;
        }
        i += 1;
    }
    proof {
        if !quit {
            assert(events@.skip(i as int) =~= Seq::<Event>::empty());
        }
    }
    quit
}

} // verus!
