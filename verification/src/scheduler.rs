//! Refresh scheduler: the shared snapshot store and the state machine
//! that drives the refresh cycle.
//!
//! The store owns the authoritative `Portfolio` and is its only writer:
//! a publish replaces the whole snapshot and bumps the update counter in
//! the same step, so a reader sees either the old snapshot or the new one,
//! never a counter that has moved ahead of the positions.  Waiting,
//! fetching and the actual lock live outside this crate; the decisions —
//! what to do in which state on which event — live here.

use vstd::prelude::*;

use crate::portfolio::Portfolio;

verus! {

/// What a publish does: the incoming snapshot replaces the whole held
/// one, with the update counter carried forward and incremented by one.
pub open spec fn spec_publish_step(pre: Portfolio, fresh: Portfolio, post: Portfolio) -> bool {
    pre.update_count < i128::MAX && post == (Portfolio {
        update_count: (pre.update_count + 1) as i128,
        ..fresh
    })
}

/// The shared, read-mostly snapshot store.  In the running application one
/// writer and many readers reach it through a lock; every way the held
/// snapshot can change is a whole-value replacement here.
#[derive(Debug)]
pub struct PortfolioStore {
    /// The current snapshot.
    pub current: Portfolio,
}

impl PortfolioStore {
    /// A store holding the empty portfolio a process starts with.
    pub fn new() -> (r: Self)
        ensures
            r.current.positions@.len() == 0,
            r.current.update_count == 0,
    {
        PortfolioStore { current: Portfolio::default() }
    }

    /// The current snapshot, for readers.
    pub fn snapshot(&self) -> (r: &Portfolio)
        ensures
            r == &self.current,
    {
        &self.current
    }

    /// Atomically publishes a freshly assembled snapshot: the stored
    /// portfolio is replaced as a whole and the update counter increases
    /// by exactly one.  Nothing else ever writes the counter, so it never
    /// decreases, and no reader can see the new counter with the old
    /// positions or the old counter with the new positions.
    pub fn publish(&mut self, fresh: Portfolio)
        requires
            old(self).current.update_count < i128::MAX,
        ensures
            spec_publish_step(old(self).current, fresh, final(self).current),
            final(self).current.update_count == old(self).current.update_count + 1,
            final(self).current.positions@ == fresh.positions@,
            final(self).current.total_value == fresh.total_value,
            final(self).current.last_updated == fresh.last_updated,
    {
        let next_count = self.current.update_count + 1;
        self.current = fresh;
        self.current.update_count = next_count;
    }
}

/// No torn publish: any snapshot reachable from `pre` by the publish step
/// that shows the incremented update counter also already shows the new
/// positions and rollups — a counter moved ahead of the positions is not
/// a reachable state of the store.
pub proof fn lemma_no_partial_publish(pre: Portfolio, fresh: Portfolio, post: Portfolio)
    requires
        spec_publish_step(pre, fresh, post),
    ensures
        post.update_count == pre.update_count + 1,
        post.positions == fresh.positions,
        post.total_value == fresh.total_value,
        post.total_cost == fresh.total_cost,
        post.total_ppl == fresh.total_ppl,
        post.total_ppl_percent == fresh.total_ppl_percent,
        post.last_updated == fresh.last_updated,
{
}

/// States of the refresh scheduler.
#[derive(Debug, Clone, Copy, PartialEq, Eq, Structural)]
pub enum SchedulerState {
    /// Waiting for the refresh interval or an update signal.
    Idle,
    /// Fetching upstream data and assembling a new snapshot.
    Assembling,
    /// Swapping the assembled snapshot into the shared store.
    Publishing,
}

/// Events the scheduler reacts to.
#[derive(Debug, Clone, Copy, PartialEq, Eq, Structural)]
pub enum SchedulerEvent {
    /// The configured refresh interval elapsed.
    IntervalElapsed,
    /// An explicit update-now signal arrived.
    UpdateSignal,
    /// Fetching upstream data failed.
    FetchFailed,
    /// Assembly failed (for example, no positions).
    AssemblyFailed,
    /// Assembly produced a snapshot ready to publish.
    AssemblySucceeded,
    /// The snapshot was swapped into the shared store.
    Published,
}

/// What the loop around the scheduler must do next.
#[derive(Debug, Clone, Copy, PartialEq, Eq, Structural)]
pub enum SchedulerAction {
    /// Wait for the next event; the held snapshot stays authoritative.
    Wait,
    /// Fetch upstream data and assemble a new snapshot.
    BeginAssembly,
    /// Swap the assembled snapshot into the shared store.
    PublishSnapshot,
}

/// The scheduler's transition table.
pub open spec fn spec_scheduler_step(s: SchedulerState, e: SchedulerEvent) -> (
    SchedulerState,
    SchedulerAction,
) {
    match (s, e) {
        (SchedulerState::Idle, SchedulerEvent::IntervalElapsed) => (
            SchedulerState::Assembling,
            SchedulerAction::BeginAssembly,
        ),
        (SchedulerState::Idle, SchedulerEvent::UpdateSignal) => (
            SchedulerState::Assembling,
            SchedulerAction::BeginAssembly,
        ),
        (SchedulerState::Assembling, SchedulerEvent::AssemblySucceeded) => (
            SchedulerState::Publishing,
            SchedulerAction::PublishSnapshot,
        ),
        (SchedulerState::Assembling, SchedulerEvent::FetchFailed) => (
            SchedulerState::Idle,
            SchedulerAction::Wait,
        ),
        (SchedulerState::Assembling, SchedulerEvent::AssemblyFailed) => (
            SchedulerState::Idle,
            SchedulerAction::Wait,
        ),
        (SchedulerState::Publishing, SchedulerEvent::Published) => (
            SchedulerState::Idle,
            SchedulerAction::Wait,
        ),
        // A duplicate or stray event is coalesced: the state stands.
        _ => (s, SchedulerAction::Wait),
    }
}

/// One decision of the refresh scheduler: from a state and an event to
/// the next state and the action the surrounding loop must perform.
pub fn scheduler_step(s: SchedulerState, e: SchedulerEvent) -> (r: (
    SchedulerState,
    SchedulerAction,
))
    ensures
        r == spec_scheduler_step(s, e),
{
    match (s, e) {
        (SchedulerState::Idle, SchedulerEvent::IntervalElapsed) => (
            SchedulerState::Assembling,
            SchedulerAction::BeginAssembly,
        ),
        (SchedulerState::Idle, SchedulerEvent::UpdateSignal) => (
            SchedulerState::Assembling,
            SchedulerAction::BeginAssembly,
        ),
        (SchedulerState::Assembling, SchedulerEvent::AssemblySucceeded) => (
            SchedulerState::Publishing,
            SchedulerAction::PublishSnapshot,
        ),
        (SchedulerState::Assembling, SchedulerEvent::FetchFailed) => (
            SchedulerState::Idle,
            SchedulerAction::Wait,
        ),
        (SchedulerState::Assembling, SchedulerEvent::AssemblyFailed) => (
            SchedulerState::Idle,
            SchedulerAction::Wait,
        ),
        (SchedulerState::Publishing, SchedulerEvent::Published) => (
            SchedulerState::Idle,
            SchedulerAction::Wait,
        ),
        (s2, _) => (s2, SchedulerAction::Wait),
    }
}

/// A publish can only follow a successful assembly: every transition that
/// asks the loop to publish starts in `Assembling` with
/// `AssemblySucceeded`, so a fetch or assembly failure never reaches the
/// shared store and the previous snapshot stays visible.
pub proof fn lemma_publish_only_after_success(s: SchedulerState, e: SchedulerEvent)
    ensures
        spec_scheduler_step(s, e).1 == SchedulerAction::PublishSnapshot ==> s
            == SchedulerState::Assembling && e == SchedulerEvent::AssemblySucceeded,
        (e == SchedulerEvent::FetchFailed || e == SchedulerEvent::AssemblyFailed)
            ==> spec_scheduler_step(s, e).1 != SchedulerAction::PublishSnapshot,
{
}

/// Whether the timer makes a refresh due: a zero interval disables the
/// timer, leaving only explicit update signals.
pub fn due_for_refresh(interval_secs: u64, elapsed_secs: u64) -> (r: bool)
    ensures
        r == (interval_secs != 0 && elapsed_secs >= interval_secs),
{
    interval_secs != 0 && elapsed_secs >= interval_secs
}

} // verus!
