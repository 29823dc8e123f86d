//! The rotation of resolver settings over time.
//!
//! Times are readings of a clock that never runs backwards, in whatever
//! unit the caller counts; an interval is in the same unit.
//!
//! A switch moves the rotation on whether or not the new setting could then
//! be applied: a setting that fails is passed over at the next switch, not
//! tried again and again.

use vstd::arithmetic::div_mod::{
    lemma_add_mod_noop, lemma_mod_add_multiples_vanish, lemma_small_mod,
};
use vstd::prelude::*;

verus! {

/// One slot of the rotation.
#[derive(Clone, Debug)]
pub struct DNSSchedule {
    pub name: String,
    pub primary: String,
    pub secondary: String,
}

/// The mathematical value of a `DNSSchedule`.
pub struct ScheduleView {
    pub name: Seq<char>,
    pub primary: Seq<char>,
    pub secondary: Seq<char>,
}

impl View for DNSSchedule {
    type V = ScheduleView;

    open spec fn view(&self) -> ScheduleView {
        ScheduleView { name: self.name@, primary: self.primary@, secondary: self.secondary@ }
    }
}

/// Whether a switch is due at `now`: when there was none yet, or when the
/// interval has passed since the last.
pub open spec fn due(now: u64, last_switch: Option<u64>, interval: u64) -> bool {
    match last_switch {
        None => true,
        Some(last) => now - last >= interval,
    }
}

/// The slot that `index` stands for in a rotation of `len` slots.
pub open spec fn slot(len: nat, index: nat) -> nat
    recommends
        len > 0,
{
    index % len
}

/// The index that follows `index` in a rotation of `len` slots.
pub open spec fn next_index(len: nat, index: nat) -> nat
    recommends
        len > 0,
{
    (index + 1) % len
}

/// The index that is reached from `index` in `steps` steps.
pub open spec fn index_after(len: nat, index: nat, steps: nat) -> nat
    recommends
        len > 0,
    decreases steps,
{
    if steps == 0 {
        index
    } else {
        next_index(len, index_after(len, index, (steps - 1) as nat))
    }
}

/// Whether a switch is due at `now`.
pub fn should_switch(now: u64, last_switch: Option<u64>, interval: u64) -> (r: bool)
    ensures
        r == due(now, last_switch, interval),
{
    match last_switch {
        None => true,
        Some(last) => now >= last && now - last >= interval,
    }
}

/// A copy of `entry`.
pub fn copy_schedule(entry: &DNSSchedule) -> (out: DNSSchedule)
    ensures
        out@ == entry@,
{
    DNSSchedule {
        name: entry.name.clone(),
        primary: entry.primary.clone(),
        secondary: entry.secondary.clone(),
    }
}

/// The index that follows `current_index`, and the slot that
/// `current_index` stands for; `None` for an empty rotation, of which
/// nothing is to be done. An index past the end stands for the slot it
/// wraps round to.
pub fn advance(rotation: &Vec<DNSSchedule>, current_index: usize) -> (r: Option<
    (usize, DNSSchedule),
>)
    ensures
        r is None <==> rotation@.len() == 0,
        r matches Some(step) ==> step.0 == next_index(rotation@.len(), current_index as nat)
            && step.1@ == rotation@[slot(rotation@.len(), current_index as nat) as int]@,
{
    let len = rotation.len();
    if len == 0 {
        return None;
    }
    let here = current_index % len;
    let next = (here + 1) % len;
    proof {
        lemma_add_mod_noop(current_index as int, 1, len as int);
        if len == 1 {
            assert(next == 0);
            assert((current_index + 1) % 1 == 0);
        } else {
            lemma_small_mod(1, len as nat);
        }
    }
    Some((next, copy_schedule(&rotation[here])))
}

/// After `steps` steps the rotation stands at the index that lies `steps`
/// further on, counted round the rotation.
pub proof fn index_after_is_sum(len: nat, index: nat, steps: nat)
    requires
        len > 0,
        index < len,
    ensures
        index_after(len, index, steps) == (index + steps) % len,
    decreases steps,
{
    if steps == 0 {
        lemma_small_mod(index, len);
    } else {
        let before = (steps - 1) as nat;
        index_after_is_sum(len, index, before);
        lemma_add_mod_noop((index + before) as int, 1, len as int);
        if len == 1 {
            assert((index + steps) % 1 == 0);
            assert(((index + before) % 1 + 1) % 1 == 0);
        } else {
            lemma_small_mod(1, len);
        }
    }
}

/// A rotation of `len` slots is back where it began after `len` steps.
pub proof fn rotation_wraps_around(len: nat, index: nat)
    requires
        len > 0,
        index < len,
    ensures
        index_after(len, index, len) == index,
{
    index_after_is_sum(len, index, len);
    lemma_mod_add_multiples_vanish(index as int, len as int);
    lemma_small_mod(index, len);
}

/// The rotation with its place and the time of its last switch.
#[derive(Debug)]
pub struct DnsScheduler {
    pub rotation: Vec<DNSSchedule>,
    /// The slot that the next switch applies.
    pub current_index: usize,
    /// When the last switch was made; `None` before the first.
    pub last_switch: Option<u64>,
    pub interval: u64,
}

/// What the scheduler asks of its caller at one check.
#[derive(Debug)]
pub enum SchedulerAction {
    /// The rotation is empty: there is nothing to do, now or later.
    Disabled,
    /// No switch is due yet.
    Wait,
    /// Apply this setting now.
    Switch(DNSSchedule),
}

/// The mathematical value of a `SchedulerAction`.
pub enum ActionView {
    Disabled,
    Wait,
    Switch(ScheduleView),
}

impl View for SchedulerAction {
    type V = ActionView;

    open spec fn view(&self) -> ActionView {
        match self {
            SchedulerAction::Disabled => ActionView::Disabled,
            SchedulerAction::Wait => ActionView::Wait,
            SchedulerAction::Switch(entry) => ActionView::Switch(entry@),
        }
    }
}

impl DnsScheduler {
    /// A scheduler that stands at the first slot of `rotation` and has made
    /// no switch yet, so that the first check switches at once.
    pub fn new(rotation: Vec<DNSSchedule>, interval: u64) -> (out: DnsScheduler)
        ensures
            out.rotation == rotation,
            out.current_index == 0,
            out.last_switch is None,
            out.interval == interval,
    {
        DnsScheduler { rotation, current_index: 0, last_switch: None, interval }
    }

    /// One check at the time `now`. With an empty rotation nothing happens.
    /// Where no switch is due nothing happens either. Else the caller is
    /// handed the current slot to apply, the scheduler moves to the next
    /// slot and takes `now` for the time of its last switch, whatever
    /// becomes of the setting that was handed out.
    pub fn tick(&mut self, now: u64) -> (action: SchedulerAction)
        ensures
            final(self).rotation == old(self).rotation,
            final(self).interval == old(self).interval,
            old(self).rotation@.len() == 0 ==> action@ == ActionView::Disabled
                && *final(self) == *old(self),
            old(self).rotation@.len() > 0 && !due(now, old(self).last_switch, old(self).interval)
                ==> action@ == ActionView::Wait && *final(self) == *old(self),
            old(self).rotation@.len() > 0 && due(now, old(self).last_switch, old(self).interval)
                ==> {
                let len = old(self).rotation@.len();
                &&& action@ == ActionView::Switch(
                    old(self).rotation@[slot(len, old(self).current_index as nat) as int]@,
                )
                &&& final(self).current_index == next_index(len, old(self).current_index as nat)
                &&& final(self).last_switch == Some(now)
            },
    {
        if !should_switch(now, self.last_switch, self.interval) {
            if self.rotation.len() == 0 {
                return SchedulerAction::Disabled;
            }
            return SchedulerAction::Wait;
        }
        match advance(&self.rotation, self.current_index) {
            None => SchedulerAction::Disabled,
            Some(step) => {
                self.current_index = step.0;
                self.last_switch = Some(now);
                SchedulerAction::Switch(step.1)
            },
        }
    }
}

} // verus!
