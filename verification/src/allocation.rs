//! Allocating an address: choosing it, bounding the time it is lent for, and recording the lease.
//!
//! An `Allocation` holds how far this has come. It names what has to be done next outside the
//! library, and goes on when that has happened.
use vstd::prelude::*;

use crate::clock::{low_half, truncate};
use crate::guarantees::begun;
use crate::ipv4::Ipv4Addr;
use crate::pool::{DbFailure, DbFailureView, Error, ErrorView, Lease, Pools};
use crate::selection::{reply_view, request_at};
use crate::selection::{LeaseQuery, LeaseQueryView, LeaseRow, LeaseRowView, PoolMap, Progress};
use crate::selection::{ProgressView, Request, Selection, SelectionView, StageView};

verus! {

/// The shortest time that an address is lent for, in seconds.
pub const DEFAULT_MIN_LEASE: u64 = 300;

/// The longest time that an address is lent for, in seconds.
pub const DEFAULT_MAX_LEASE: u64 = 86400;

/// A row of the lease database.
#[derive(Debug, PartialEq, Eq)]
pub struct LeaseRecord {
    pub pool: String,
    pub address: String,
    pub clientid: Vec<u8>,
    pub start: u32,
    pub expiry: u32,
}

/// The meaning of a `LeaseRecord`.
pub struct LeaseRecordView {
    pub pool: Seq<char>,
    pub address: Seq<char>,
    pub clientid: Seq<u8>,
    pub start: u32,
    pub expiry: u32,
}

impl View for LeaseRecord {
    type V = LeaseRecordView;

    open spec fn view(&self) -> LeaseRecordView {
        LeaseRecordView {
            pool: self.pool@,
            address: self.address@,
            clientid: self.clientid@,
            start: self.start,
            expiry: self.expiry,
        }
    }
}

/// `expire`, brought between the two bounds; the upper one prevails.
pub open spec fn bounded(expire: u64, min: u64, max: u64) -> u64 {
    let raised = if expire < min {
        min
    } else {
        expire
    };
    if raised > max {
        max
    } else {
        raised
    }
}

/// Brings a lease time between two bounds.
pub fn bound_lease_time(expire: u64, min: u64, max: u64) -> (r: u64)
    ensures
        r == bounded(expire, min, max),
{
    let raised: u64 = if expire < min {
        min
    } else {
        expire
    };
    if raised > max {
        max
    } else {
        raised
    }
}

/// The lease that is made of a chosen address.
pub open spec fn timed(lease: Lease) -> Lease {
    Lease { expire: bounded(lease.expire, DEFAULT_MIN_LEASE, DEFAULT_MAX_LEASE), ..lease }
}

/// The record of a lease that starts at `now`.
pub open spec fn record_of(pool: Seq<char>, clientid: Seq<u8>, lease: Lease, now: u64)
    -> LeaseRecordView {
    LeaseRecordView {
        pool,
        address: lease.ip.text(),
        clientid,
        start: low_half(now),
        expiry: low_half((now + lease.expire) as u64),
    }
}

/// What has to be done next.
#[derive(Debug, PartialEq, Eq)]
pub enum Action {
    /// Make a query of the lease database.
    Ask(LeaseQuery),
    /// Read the time in seconds since the epoch.
    ReadClock,
    /// Write a row into the lease database, in place of the row with the same pool and address.
    Store(LeaseRecord),
}

/// What has happened.
pub enum Event {
    /// The query was answered.
    Reply(Result<LeaseRow, DbFailure>),
    /// The clock was read.
    Clock(u64),
    /// The row was written.
    Stored,
}

/// The meaning of an `Action`.
pub enum ActionView {
    Ask(LeaseQueryView),
    ReadClock,
    Store(LeaseRecordView),
}

/// The meaning of an `Event`.
pub enum EventView {
    Reply(Result<LeaseRowView, DbFailureView>),
    Clock(u64),
    Stored,
}

impl View for Action {
    type V = ActionView;

    open spec fn view(&self) -> ActionView {
        match *self {
            Action::Ask(query) => ActionView::Ask(query@),
            Action::ReadClock => ActionView::ReadClock,
            Action::Store(record) => ActionView::Store(record@),
        }
    }
}

impl View for Event {
    type V = EventView;

    open spec fn view(&self) -> EventView {
        match *self {
            Event::Reply(reply) => EventView::Reply(reply_view(reply)),
            Event::Clock(now) => EventView::Clock(now),
            Event::Stored => EventView::Stored,
        }
    }
}

enum Phase {
    Selecting(Selection),
    Timing(Lease),
    Storing(Lease, u64),
}

/// The phase of an allocation.
pub enum PhaseView {
    /// The address is being chosen.
    Selecting(SelectionView),
    /// The address is chosen, and the start of the lease is to be read from the clock.
    Timing(Lease),
    /// The lease that starts at the time given is to be recorded.
    Storing(Lease, u64),
}

/// The allocation of an address, between two actions.
pub struct Allocation {
    name: String,
    clientid: Vec<u8>,
    phase: Phase,
}

/// The meaning of an `Allocation`.
pub struct AllocationView {
    pub pool: Seq<char>,
    pub clientid: Seq<u8>,
    pub phase: PhaseView,
}

impl View for Allocation {
    type V = AllocationView;

    closed spec fn view(&self) -> AllocationView {
        AllocationView {
            pool: self.name@,
            clientid: self.clientid@,
            phase: match self.phase {
                Phase::Selecting(selection) => PhaseView::Selecting(selection@),
                Phase::Timing(lease) => PhaseView::Timing(lease),
                Phase::Storing(lease, now) => PhaseView::Storing(lease, now),
            },
        }
    }
}

/// How far an allocation has come.
pub enum Outcome {
    /// The action of the allocation has to be done.
    Pending(Allocation),
    /// The allocation has ended.
    Finished(Result<Lease, Error>),
}

/// The meaning of an `Outcome`.
pub enum OutcomeView {
    Pending(AllocationView),
    Finished(Result<Lease, ErrorView>),
}

impl View for Outcome {
    type V = OutcomeView;

    open spec fn view(&self) -> OutcomeView {
        match *self {
            Outcome::Pending(allocation) => OutcomeView::Pending(allocation@),
            Outcome::Finished(Ok(lease)) => OutcomeView::Finished(Ok(lease)),
            Outcome::Finished(Err(e)) => OutcomeView::Finished(Err(e@)),
        }
    }
}

impl AllocationView {
    /// The selection can go on, and the end of the lease can be computed.
    pub open spec fn valid(self) -> bool {
        match self.phase {
            PhaseView::Selecting(selection) => selection.valid(),
            PhaseView::Timing(lease) => lease.expire <= DEFAULT_MAX_LEASE,
            PhaseView::Storing(lease, now) => now + lease.expire <= u64::MAX,
        }
    }

    /// The allocation in another phase.
    pub open spec fn in_phase(self, phase: PhaseView) -> AllocationView {
        AllocationView { phase, ..self }
    }

    /// What the allocation has to have done next.
    pub open spec fn action(self) -> ActionView {
        match self.phase {
            PhaseView::Selecting(selection) => ActionView::Ask(selection.query()),
            PhaseView::Timing(_) => ActionView::ReadClock,
            PhaseView::Storing(lease, now) => ActionView::Store(
                record_of(self.pool, self.clientid, lease, now),
            ),
        }
    }

    /// Whether an event can be what the action leads to. The clock is a day before its end at
    /// the latest.
    pub open spec fn fits(self, event: EventView) -> bool {
        match event {
            EventView::Reply(reply) => self.phase matches PhaseView::Selecting(selection)
                && selection.fits(reply),
            EventView::Clock(now) => self.phase is Timing && now + DEFAULT_MAX_LEASE <= u64::MAX,
            EventView::Stored => self.phase is Storing,
        }
    }

    /// How the allocation goes on once the selection has come to `progress`.
    pub open spec fn selected(self, progress: ProgressView) -> OutcomeView {
        match progress {
            ProgressView::Ask(selection) => OutcomeView::Pending(
                self.in_phase(PhaseView::Selecting(selection)),
            ),
            ProgressView::Done(Ok(lease)) => OutcomeView::Pending(
                self.in_phase(PhaseView::Timing(timed(lease))),
            ),
            ProgressView::Done(Err(e)) => OutcomeView::Finished(Err(e)),
        }
    }

    /// What follows an event.
    pub open spec fn follows(self, pools: PoolMap, event: EventView, next: OutcomeView) -> bool {
        match (self.phase, event) {
            (PhaseView::Selecting(selection), EventView::Reply(reply)) => exists|
                progress: ProgressView,
            | #[trigger]
                selection.follows(pools, reply, progress) && next == self.selected(progress),
            (PhaseView::Timing(lease), EventView::Clock(now)) => next == OutcomeView::Pending(
                self.in_phase(PhaseView::Storing(lease, now)),
            ),
            (PhaseView::Storing(lease, _), EventView::Stored) => next == OutcomeView::Finished(
                Ok(lease),
            ),
            _ => false,
        }
    }
}

impl Allocation {
    /// What has to be done next.
    pub fn action(&self) -> (action: Action)
        requires
            self@.valid(),
        ensures
            action@ == self@.action(),
    {
        match &self.phase {
            Phase::Selecting(selection) => Action::Ask(selection.query()),
            Phase::Timing(_) => Action::ReadClock,
            Phase::Storing(lease, now) => {
                let clientid = self.clientid.clone();
                assert(clientid@ =~= self.clientid@);
                Action::Store(
                    LeaseRecord {
                        pool: self.name.clone(),
                        address: lease.ip.to_string(),
                        clientid,
                        start: truncate(*now),
                        expiry: truncate(*now + lease.expire),
                    },
                )
            },
        }
    }
}

impl Pools {
    /// Begins to allocate an address of a pool to a client. `ts` is the time in seconds since
    /// the epoch.
    pub fn allocate_address(
        &self,
        name: &str,
        clientid: &[u8],
        requested: Option<Ipv4Addr>,
        ts: u64,
    ) -> (allocation: Allocation)
        ensures
            allocation@ == (AllocationView {
                pool: name@,
                clientid: clientid@,
                phase: PhaseView::Selecting(
                    SelectionView {
                        request: Request {
                            pool: name@,
                            clientid: clientid@,
                            requested,
                            at: low_half(ts),
                        },
                        stage: StageView::Current,
                    },
                ),
            }),
            allocation@ == begun(request_at(name@, clientid@, requested, ts)),
            allocation@.valid(),
    {
        Allocation {
            name: name.to_owned(),
            clientid: vstd::slice::slice_to_vec(clientid),
            phase: Phase::Selecting(self.select_address(name, clientid, requested, ts)),
        }
    }

    /// Goes on with an allocation whose action was done.
    pub fn proceed(&self, allocation: Allocation, event: Event) -> (next: Outcome)
        requires
            allocation@.valid(),
            allocation@.fits(event@),
        ensures
            allocation@.follows(self@, event@, next@),
            next@ matches OutcomeView::Pending(a) ==> a.valid(),
    {
        match (allocation.phase, event) {
            (Phase::Selecting(selection), Event::Reply(reply)) => {
                let ghost seen = reply_view(reply);
                let ghost before = selection@;
                let progress = self.resume(selection, reply);
                assert(before.follows(self@, seen, progress@));
                match progress {
                    Progress::Ask(selection) => Outcome::Pending(
                        Allocation { phase: Phase::Selecting(selection), ..allocation },
                    ),
                    Progress::Done(Ok(lease)) => {
                        let expire: u64 = bound_lease_time(
                            lease.expire,
                            DEFAULT_MIN_LEASE,
                            DEFAULT_MAX_LEASE,
                        );
                        Outcome::Pending(
                            Allocation {
                                phase: Phase::Timing(Lease { ip: lease.ip, expire }),
                                ..allocation
                            },
                        )
                    },
                    Progress::Done(Err(e)) => Outcome::Finished(Err(e)),
                }
            },
            (Phase::Timing(lease), Event::Clock(now)) => Outcome::Pending(
                Allocation { phase: Phase::Storing(lease, now), ..allocation },
            ),
            (Phase::Storing(lease, _), Event::Stored) => Outcome::Finished(Ok(lease)),
            (_, _) => vstd::pervasive::unreached(),
        }
    }
}

} // verus!
