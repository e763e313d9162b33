//! Tab selector: an ordered, non-empty list of section titles and the
//! index of the active one.  Navigation wraps around at both ends.

use vstd::prelude::*;

verus! {

/// The selection after one "next": one step right, wrapping from the
/// last tab to the first.
pub open spec fn next_sel(s: int, n: int) -> int {
    (s + 1) % n
}

/// The selection after one "previous": one step left, wrapping from
/// the first tab to the last.
pub open spec fn prev_sel(s: int, n: int) -> int {
    (s + n - 1) % n
}

/// The selection after `k` repetitions of "next".
pub open spec fn iter_next(s: int, n: int, k: nat) -> int
    decreases k,
{
    if k == 0 {
        s
    } else {
        next_sel(iter_next(s, n, (k - 1) as nat), n)
    }
}

/// The selection after `k` repetitions of "previous".
pub open spec fn iter_prev(s: int, n: int, k: nat) -> int
    decreases k,
{
    if k == 0 {
        s
    } else {
        prev_sel(iter_prev(s, n, (k - 1) as nat), n)
    }
}

/// The tab bar state: the section titles, fixed at startup, and the
/// index of the selected tab.
///
/// Well-formedness (`wf`) asks that the title list is non-empty and
/// the selection stays inside it; `next` and `previous` preserve it.
pub struct MyTabs<'a> {
    pub titles: Vec<&'a str>,
    pub selection: usize,
}

impl<'a> MyTabs<'a> {
    /// The selection is a valid index into a non-empty title list.
    pub open spec fn wf(&self) -> bool {
        self.titles.len() > 0 && self.selection < self.titles.len()
    }

    /// Move the selection one tab to the right, wrapping from the last
    /// tab back to the first.
    pub fn next(&mut self)
        requires
            old(self).wf(),
        ensures
            final(self).wf(),
            final(self).titles == old(self).titles,
            final(self).selection == next_sel(
                old(self).selection as int,
                old(self).titles.len() as int,
            ),
    {
        self.selection = (self.selection + 1) % self.titles.len();
    }

    /// Move the selection one tab to the left, wrapping from the first
    /// tab to the last.
    pub fn previous(&mut self)
        requires
            old(self).wf(),
        ensures
            final(self).wf(),
            final(self).titles == old(self).titles,
            final(self).selection == prev_sel(
                old(self).selection as int,
                old(self).titles.len() as int,
            ),
    {
        if self.selection > 0 {
            self.selection -= 1;
        } else {
            self.selection = self.titles.len() - 1;
        }
        proof {
            let n = old(self).titles.len() as int;
            let s = old(self).selection as int;
            if s > 0 {
                vstd::arithmetic::div_mod::lemma_mod_multiples_vanish(1, s - 1, n);
                vstd::arithmetic::div_mod::lemma_small_mod((s - 1) as nat, n as nat);
            } else {
                vstd::arithmetic::div_mod::lemma_small_mod((n - 1) as nat, n as nat);
            }
        }
    }
}

/// Repeated "next" walks the indices in order: after `k` steps the
/// selection sits `k` places to the right of where it started, modulo
/// the tab count.
pub proof fn lemma_iter_next_mod(s: int, n: int, k: nat)
    requires
        0 <= s < n,
    ensures
        iter_next(s, n, k) == (s + k) % n,
    decreases k,
{
    if k == 0 {
        vstd::arithmetic::div_mod::lemma_small_mod(s as nat, n as nat);
    } else {
        lemma_iter_next_mod(s, n, (k - 1) as nat);
        vstd::arithmetic::div_mod::lemma_add_mod_noop_right(1, s + k - 1, n);
    }
}

/// Repeated "previous" walks the indices backwards: after `k` steps
/// the selection sits `k * (n - 1)` places to the right, modulo the
/// tab count, which is `k` places to the left.
pub proof fn lemma_iter_prev_mod(s: int, n: int, k: nat)
    requires
        0 <= s < n,
    ensures
        iter_prev(s, n, k) == (s + k * (n - 1)) % n,
    decreases k,
{
    if k == 0 {
        vstd::arithmetic::div_mod::lemma_small_mod(s as nat, n as nat);
    } else {
        lemma_iter_prev_mod(s, n, (k - 1) as nat);
        vstd::arithmetic::div_mod::lemma_add_mod_noop_right(n - 1, s + (k - 1) * (n - 1), n);
        assert((k - 1) * (n - 1) + (n - 1) == k * (n - 1)) by (nonlinear_arith);
    }
}

/// Law: on a non-empty tab list, repeating "next" as many times as
/// there are tabs returns the selection to where it started.
pub proof fn lemma_next_cycle(s: int, n: int)
    requires
        0 <= s < n,
    ensures
        iter_next(s, n, n as nat) == s,
{
    lemma_iter_next_mod(s, n, n as nat);
    vstd::arithmetic::div_mod::lemma_mod_multiples_vanish(1, s, n);
    vstd::arithmetic::div_mod::lemma_small_mod(s as nat, n as nat);
}

/// Law: on a non-empty tab list, repeating "previous" as many times
/// as there are tabs returns the selection to where it started.
pub proof fn lemma_prev_cycle(s: int, n: int)
    requires
        0 <= s < n,
    ensures
        iter_prev(s, n, n as nat) == s,
{
    lemma_iter_prev_mod(s, n, n as nat);
    assert(s + n * (n - 1) == n * (n - 1) + s);
    vstd::arithmetic::div_mod::lemma_mod_multiples_vanish(n - 1, s, n);
    vstd::arithmetic::div_mod::lemma_small_mod(s as nat, n as nat);
}

/// Law: with a single tab, both "next" and "previous" leave the
/// selection at zero.
pub proof fn lemma_single_tab_noop()
    ensures
        next_sel(0, 1) == 0,
        prev_sel(0, 1) == 0,
{
}

/// Law: one "next" and one "previous" undo each other, in either
/// order.
pub proof fn lemma_next_prev_inverse(s: int, n: int)
    requires
        0 <= s < n,
    ensures
        prev_sel(next_sel(s, n), n) == s,
        next_sel(prev_sel(s, n), n) == s,
{
    vstd::arithmetic::div_mod::lemma_add_mod_noop_right(n - 1, s + 1, n);
    vstd::arithmetic::div_mod::lemma_add_mod_noop_right(1, s + n - 1, n);
    vstd::arithmetic::div_mod::lemma_mod_multiples_vanish(1, s, n);
    vstd::arithmetic::div_mod::lemma_small_mod(s as nat, n as nat);
}

} // verus!
