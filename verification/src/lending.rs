//! What whole allocations lead to: which address, for how long, and what is recorded.
use vstd::prelude::*;

use crate::allocation::{bounded, ActionView, AllocationView, EventView, LeaseRecordView};
use crate::allocation::{OutcomeView, PhaseView};
use crate::clock::low_half;
use crate::guarantees::{allocation_gives_what_is_due, begun, is_run, is_step};
use crate::ipv4::Ipv4Addr;
use crate::leases::{bound, bound_after, has_binding, has_current, in_use, LeaseTable};
use crate::leases::{assignable, lemma_current_is_binding};
use crate::pool::{DbFailureView, ErrorView, Lease};
use crate::selection::{LeaseQueryView, LeaseRowView, PoolMap, ProgressView, Request};
use crate::selection::{request_at, SelectionView, StageView};
use crate::text::debug_quoted;

verus! {

/// A time in 32 bits is the remainder of the whole time by two to the power of 32.
pub proof fn times_keep_their_low_half(n: u64)
    ensures
        low_half(n) == n as int % 0x1_0000_0000,
{
}

/// A time within its bounds stays, a shorter one becomes the lower bound and a longer one the upper
/// bound; a longer time is never cut to less than a shorter one. If the bounds are crossed, every
/// time becomes the upper one.
pub proof fn times_are_brought_between_their_bounds(x: u64, y: u64, min: u64, max: u64)
    ensures
        min <= x <= max ==> bounded(x, min, max) == x,
        x <= min <= max ==> bounded(x, min, max) == min,
        max <= x && min <= max ==> bounded(x, min, max) == max,
        max <= min ==> bounded(x, min, max) == max,
        x <= y ==> bounded(x, min, max) <= bounded(y, min, max),
{
}

/// The client is bound to the address in the pool.
pub open spec fn holds(table: LeaseTable, request: Request, address: Seq<char>) -> bool {
    table.contains_key((request.pool, address)) && table[(request.pool, address)].clientid
        == request.clientid
}

/// The client is bound to the address in the pool until after now.
pub open spec fn holds_still(table: LeaseTable, request: Request, address: Seq<char>) -> bool {
    holds(table, request, address) && table[(request.pool, address)].expiry > request.at
}

/// The pool has the address, and nobody is bound to it until now or later.
pub open spec fn is_free(
    pools: PoolMap,
    table: LeaseTable,
    request: Request,
    addr: Ipv4Addr,
) -> bool {
    &&& pools.contains_key(request.pool)
    &&& pools[request.pool].contains(addr)
    &&& !(table.contains_key((request.pool, addr.text())) && table[(
        request.pool,
        addr.text(),
    )].expiry >= request.at)
}

proof fn lemma_holds(table: LeaseTable, request: Request)
    ensures
        has_binding(table, request.pool, request.clientid) <==> exists|address: Seq<char>| #[trigger]
            holds(table, request, address),
        has_current(table, request.pool, request.clientid, request.at) <==> exists|
            address: Seq<char>,
        | #[trigger] holds_still(table, request, address),
{
    let pool = request.pool;
    let id = request.clientid;
    if has_binding(table, pool, id) {
        let a = choose|a: Seq<char>| #[trigger] bound(table, pool, a, id);
        assert(holds(table, request, a));
    }
    if exists|a: Seq<char>| #[trigger] holds(table, request, a) {
        let a = choose|a: Seq<char>| #[trigger] holds(table, request, a);
        assert(bound(table, pool, a, id));
    }
    if has_current(table, pool, id, request.at) {
        let a = choose|a: Seq<char>| #[trigger] bound_after(table, pool, a, id, request.at);
        assert(holds_still(table, request, a));
    }
    if exists|a: Seq<char>| #[trigger] holds_still(table, request, a) {
        let a = choose|a: Seq<char>| #[trigger] holds_still(table, request, a);
        assert(bound_after(table, pool, a, id, request.at));
    }
}

/// A client that is still bound is given the address of such a binding, for the seconds that are
/// left of it; fewer than five minutes become five minutes, more than a day a day.
pub proof fn current_client_keeps_its_time(
    pools: PoolMap,
    table: LeaseTable,
    request: Request,
    states: Seq<AllocationView>,
    events: Seq<EventView>,
    lease: Lease,
)
    requires
        is_run(pools, table, request, states, events, Ok(lease)),
        exists|address: Seq<char>| #[trigger] holds_still(table, request, address),
    ensures
        holds_still(table, request, lease.ip.text()),
        ({
            let left = table[(request.pool, lease.ip.text())].expiry - request.at;
            &&& left <= 300 ==> lease.expire == 300
            &&& 300 <= left <= 86400 ==> lease.expire == left
            &&& left >= 86400 ==> lease.expire == 86400
        }),
{
    allocation_gives_what_is_due(pools, table, request, states, events, Ok(lease));
    lemma_holds(table, request);
    let chosen = choose|chosen: Lease| #[trigger]
        crate::leases::grants(pools, table, request, Ok(chosen)) && lease
            == crate::allocation::timed(chosen);
    let address = choose|address: Seq<char>| #[trigger]
        bound_after(table, request.pool, address, request.clientid, request.at) && Ok::<
            Lease,
            ErrorView,
        >(chosen) == crate::selection::current_lease(
            address,
            table[(request.pool, address)].expiry,
            request.at,
        );
    assert(address == lease.ip.text());
}

/// A client whose bindings have all ended is given the address of one of them, for twice as long as
/// it lasted; less than five minutes become five minutes, more than a day a day.
pub proof fn returning_client_gets_twice_its_time(
    pools: PoolMap,
    table: LeaseTable,
    request: Request,
    states: Seq<AllocationView>,
    events: Seq<EventView>,
    lease: Lease,
)
    requires
        is_run(pools, table, request, states, events, Ok(lease)),
        exists|address: Seq<char>| #[trigger] holds(table, request, address),
        forall|address: Seq<char>| !#[trigger] holds_still(table, request, address),
    ensures
        holds(table, request, lease.ip.text()),
        ({
            let binding = table[(request.pool, lease.ip.text())];
            let twice = 2 * (binding.expiry - binding.start);
            &&& 0 <= twice <= 300 ==> lease.expire == 300
            &&& 300 <= twice <= 86400 ==> lease.expire == twice
            &&& twice >= 86400 ==> lease.expire == 86400
        }),
{
    allocation_gives_what_is_due(pools, table, request, states, events, Ok(lease));
    lemma_holds(table, request);
    let chosen = choose|chosen: Lease| #[trigger]
        crate::leases::grants(pools, table, request, Ok(chosen)) && lease
            == crate::allocation::timed(chosen);
    let address = choose|address: Seq<char>| #[trigger]
        bound(table, request.pool, address, request.clientid) && Ok::<Lease, ErrorView>(chosen)
            == crate::selection::revived_lease(
            address,
            table[(request.pool, address)].start,
            table[(request.pool, address)].expiry,
        );
    assert(address == lease.ip.text());
}

/// A client without a binding is given a free address of the pool for five minutes: the one that it
/// asks for, if that is free.
pub proof fn new_client_gets_a_free_address(
    pools: PoolMap,
    table: LeaseTable,
    request: Request,
    states: Seq<AllocationView>,
    events: Seq<EventView>,
    lease: Lease,
)
    requires
        is_run(pools, table, request, states, events, Ok(lease)),
        forall|address: Seq<char>| !#[trigger] holds(table, request, address),
    ensures
        is_free(pools, table, request, lease.ip),
        lease.expire == 300,
        request.requested is Some && is_free(pools, table, request, request.requested->0)
            ==> lease.ip == request.requested->0,
{
    allocation_gives_what_is_due(pools, table, request, states, events, Ok(lease));
    lemma_holds(table, request);
    lemma_current_is_binding(table, request.pool, request.clientid, request.at);
}

/// An allocation fails only with a query of the database; or for a client that is bound to an
/// address that cannot be read; or for a client without a binding, because there is no such pool,
/// or because the pool has no free address.
pub proof fn failures_have_a_reason(
    pools: PoolMap,
    table: LeaseTable,
    request: Request,
    states: Seq<AllocationView>,
    events: Seq<EventView>,
    error: ErrorView,
)
    requires
        is_run(pools, table, request, states, events, Err(error)),
    ensures
        match error {
            ErrorView::DbError(reason, failure) => reason == "Database query Error"@
                && failure is Other,
            ErrorView::CorruptDatabase(_) => exists|address: Seq<char>| #[trigger]
                holds(table, request, address) && forall|ip: Ipv4Addr|
                    address != #[trigger] ip.text(),
            ErrorView::NoSuchPool(name) => name == request.pool && !pools.contains_key(name)
                && forall|address: Seq<char>| !#[trigger] holds(table, request, address),
            ErrorView::NoAssignableAddress => pools.contains_key(request.pool) && (forall|
                address: Seq<char>,
            | !#[trigger] holds(table, request, address)) && forall|ip: Ipv4Addr|
                !#[trigger] is_free(pools, table, request, ip),
            ErrorView::DuplicatePool(_) => false,
        },
{
    let outcome = Err::<Lease, ErrorView>(error);
    allocation_gives_what_is_due(pools, table, request, states, events, outcome);
    lemma_holds(table, request);
    lemma_current_is_binding(table, request.pool, request.clientid, request.at);
    if !crate::leases::outage(outcome) {
        if has_current(table, request.pool, request.clientid, request.at) {
            let address = choose|address: Seq<char>| #[trigger]
                bound_after(table, request.pool, address, request.clientid, request.at) && outcome
                    == crate::selection::current_lease(
                    address,
                    table[(request.pool, address)].expiry,
                    request.at,
                );
            assert(holds(table, request, address));
        } else if has_binding(table, request.pool, request.clientid) {
            let address = choose|address: Seq<char>| #[trigger]
                bound(table, request.pool, address, request.clientid) && outcome
                    == crate::selection::revived_lease(
                    address,
                    table[(request.pool, address)].start,
                    table[(request.pool, address)].expiry,
                );
            assert(holds(table, request, address));
        } else if pools.contains_key(request.pool) {
            assert forall|ip: Ipv4Addr| !#[trigger] is_free(pools, table, request, ip) by {
                assert(!assignable(pools, table, request, ip));
                assert(in_use(table, request.pool, ip.text(), request.at) == (table.contains_key(
                    (request.pool, ip.text()),
                ) && table[(request.pool, ip.text())].expiry >= request.at));
            }
        }
    }
}

/// As long as no query of the database fails, no allocation fails with the database.
pub proof fn without_a_failed_query_none_is_reported(
    pools: PoolMap,
    table: LeaseTable,
    request: Request,
    states: Seq<AllocationView>,
    events: Seq<EventView>,
    outcome: Result<Lease, ErrorView>,
)
    requires
        is_run(pools, table, request, states, events, outcome),
        forall|i: int|
            0 <= i < events.len() ==> !(#[trigger] events[i] matches EventView::Reply(
                Err(DbFailureView::Other(_)),
            )),
    ensures
        !(outcome matches Err(ErrorView::DbError(_, _))),
{
    let n = states.len() - 1;
    assert(is_step(pools, table, states, events, outcome, n));
    let a = states[n];
    let next = OutcomeView::Finished(outcome);
    if let (PhaseView::Selecting(s), EventView::Reply(reply)) = (a.phase, events[n]) {
        let progress = choose|progress: ProgressView| #[trigger]
            s.follows(pools, reply, progress) && next == a.selected(progress);
    }
}

/// Every lease that is given was recorded just before: for the client and the address, from the
/// second in which the clock was read, for the time of the lease; both times in 32 bits.
pub proof fn leases_are_recorded_as_given(
    pools: PoolMap,
    table: LeaseTable,
    request: Request,
    states: Seq<AllocationView>,
    events: Seq<EventView>,
    lease: Lease,
)
    requires
        is_run(pools, table, request, states, events, Ok(lease)),
    ensures
        states.len() >= 3,
        events[states.len() - 1] == EventView::Stored,
        states[states.len() - 2].action() == ActionView::ReadClock,
        events[states.len() - 2] matches EventView::Clock(now) && (now + 86400 <= u64::MAX ==> (
        states[states.len() - 1].action() matches ActionView::Store(record) && record == (
        LeaseRecordView {
            pool: request.pool,
            address: lease.ip.text(),
            clientid: request.clientid,
            start: (now as int % 0x1_0000_0000) as u32,
            expiry: ((now + lease.expire) % 0x1_0000_0000) as u32,
        }))),
        300 <= lease.expire <= 86400,
{
    let outcome = Ok::<Lease, ErrorView>(lease);
    allocation_gives_what_is_due(pools, table, request, states, events, outcome);
    let n = states.len() - 1;
    assert(is_step(pools, table, states, events, outcome, n));
    assert(states[n].phase is Storing);
    assert(n > 0);
    assert(is_step(pools, table, states, events, outcome, n - 1));
    let a = states[n - 1];
    let next = OutcomeView::Pending(states[n]);
    if let (PhaseView::Selecting(s), EventView::Reply(reply)) = (a.phase, events[n - 1]) {
        let progress = choose|progress: ProgressView| #[trigger]
            s.follows(pools, reply, progress) && next == a.selected(progress);
        assert(false);
    }
    assert(a.phase is Timing);
    assert(n > 1);
}

/// A request is for the pool, the client and the address given, at the low 32 bits of the time.
/// An allocation begins by asking for the current binding of the client.
pub proof fn allocations_begin_with_the_request(
    pool: Seq<char>,
    clientid: Seq<u8>,
    requested: Option<Ipv4Addr>,
    ts: u64,
)
    ensures
        ({
            let request = request_at(pool, clientid, requested, ts);
            &&& request.pool == pool
            &&& request.clientid == clientid
            &&& request.requested == requested
            &&& request.at == ts as int % 0x1_0000_0000
            &&& begun(request).pool == pool
            &&& begun(request).clientid == clientid
            &&& begun(request).action() == ActionView::Ask(
                LeaseQueryView::Current { pool, clientid, at: request.at },
            )
        }),
{
}

/// A reply can be handed on if the query failed or no row matched; if the row is what was asked for
/// and its times do not run backwards; and, whatever its times, if its address cannot be read. The
/// clock can be handed on up to a day before its end, and that the record was stored always.
pub proof fn replies_can_be_handed_on(
    a: AllocationView,
    s: SelectionView,
    failure: DbFailureView,
    address: Seq<char>,
    start: u32,
    expiry: u32,
    now: u64,
)
    ensures
        s.fits(Err(failure)),
        s.stage is Current && (s.request.at <= expiry || forall|ip: Ipv4Addr|
            address != #[trigger] ip.text()) ==> s.fits(
            Ok(LeaseRowView::Current { address, expiry }),
        ),
        s.stage is Previous && (start <= expiry || forall|ip: Ipv4Addr|
            address != #[trigger] ip.text()) ==> s.fits(
            Ok(LeaseRowView::Previous { address, start, expiry }),
        ),
        s.stage is Requested || s.stage is Fresh ==> s.fits(Ok(LeaseRowView::InUse)),
        forall|reply: Result<LeaseRowView, DbFailureView>|
            a.phase == PhaseView::Selecting(s) && #[trigger] s.fits(reply) ==> a.fits(
                EventView::Reply(reply),
            ),
        a.phase is Timing && now + 86400 <= u64::MAX ==> a.fits(EventView::Clock(now)),
        a.phase is Storing ==> a.fits(EventView::Stored),
{
}

/// The queries that a selection makes are for the pool, the client and the time of the request; an
/// address is asked for by its text.
pub proof fn queries_are_for_the_request(s: SelectionView, addr: Ipv4Addr)
    ensures
        s.stage == StageView::Current ==> s.query() == (LeaseQueryView::Current {
            pool: s.request.pool,
            clientid: s.request.clientid,
            at: s.request.at,
        }),
        s.stage == StageView::Previous ==> s.query() == (LeaseQueryView::Previous {
            pool: s.request.pool,
            clientid: s.request.clientid,
        }),
        s.stage == StageView::Requested(addr) ==> s.query() == (LeaseQueryView::InUse {
            pool: s.request.pool,
            address: addr.text(),
            at: s.request.at,
        }),
{
}

/// Candidates are asked for one after the other, from the first on, until one is not in use: that
/// one is given. If all are in use, none is.
pub proof fn candidates_are_asked_for_in_order(
    pools: PoolMap,
    s: SelectionView,
    candidates: Seq<Ipv4Addr>,
    i: int,
    reply: Result<LeaseRowView, DbFailureView>,
    next: ProgressView,
)
    requires
        0 <= i < candidates.len(),
        s.stage == StageView::Fresh(candidates, i),
        s.follows(pools, reply, next),
    ensures
        s.query() == (LeaseQueryView::InUse {
            pool: s.request.pool,
            address: candidates[i].text(),
            at: s.request.at,
        }),
        reply == Ok::<LeaseRowView, DbFailureView>(LeaseRowView::InUse) ==> if i + 1
            < candidates.len() {
            next matches ProgressView::Ask(t) && t.request == s.request && t.stage
                == StageView::Fresh(candidates, i + 1)
        } else {
            next == ProgressView::Done(Err(ErrorView::NoAssignableAddress))
        },
        reply == Err::<LeaseRowView, DbFailureView>(DbFailureView::QueryReturnedNoRows) ==> next
            == ProgressView::Done(Ok(Lease { ip: candidates[i], expire: 0 })),
        s.in_order(candidates) matches ProgressView::Ask(t) && t.request == s.request && t.stage
            == StageView::Fresh(candidates, 0),
        s.in_order(Seq::empty()) == ProgressView::Done(Err(ErrorView::NoAssignableAddress)),
{
}

/// A selection of a new address is over all addresses of the pool, each as often as the pool has it.
pub proof fn every_address_is_a_candidate(
    pools: PoolMap,
    s: SelectionView,
    next: ProgressView,
)
    requires
        s.fresh(pools, next),
    ensures
        match next {
            ProgressView::Ask(t) => t.request == s.request && pools.contains_key(s.request.pool) && (
            t.stage matches StageView::Fresh(candidates, i) && i == 0 && candidates.to_multiset()
                == pools[s.request.pool].to_multiset()),
            ProgressView::Done(outcome) => if pools.contains_key(s.request.pool) {
                outcome == Err::<Lease, ErrorView>(ErrorView::NoAssignableAddress)
                    && pools[s.request.pool].len() == 0
            } else {
                outcome == Err::<Lease, ErrorView>(ErrorView::NoSuchPool(s.request.pool))
            },
        },
{
    if pools.contains_key(s.request.pool) {
        let candidates = choose|candidates: Seq<Ipv4Addr>|
            candidates.to_multiset() == pools[s.request.pool].to_multiset() && next
                == #[trigger] s.in_order(candidates);
        candidates.to_multiset_ensures();
        pools[s.request.pool].to_multiset_ensures();
        assert(candidates.to_multiset().len() == pools[s.request.pool].to_multiset().len());
    }
}

/// The address that a client asks for is leased to it exactly when the pool has it and nobody is
/// bound to it until now or later, whoever that is; a binding that ends now still counts.
pub proof fn requested_address_is_leased_when_free(
    pools: PoolMap,
    table: LeaseTable,
    s: SelectionView,
    addr: Ipv4Addr,
    reply: Result<LeaseRowView, DbFailureView>,
)
    requires
        reply is Ok <==> table.contains_key((s.request.pool, addr.text())) && table[(
            s.request.pool,
            addr.text(),
        )].expiry >= s.request.at,
        reply is Err ==> reply->Err_0 == DbFailureView::QueryReturnedNoRows,
    ensures
        ({
            let outcome = match s.on_request(pools, addr) {
                ProgressView::Ask(t) => crate::selection::requested_lease(addr, reply),
                ProgressView::Done(outcome) => outcome,
            };
            outcome == if !pools.contains_key(s.request.pool) {
                Err(ErrorView::NoSuchPool(s.request.pool))
            } else if is_free(pools, table, s.request, addr) {
                Ok(Lease { ip: addr, expire: 0 })
            } else {
                Err(ErrorView::NoAssignableAddress)
            }
        }),
        s.on_request(pools, addr) matches ProgressView::Ask(t) ==> t.request == s.request && t.query()
            == (LeaseQueryView::InUse {
            pool: s.request.pool,
            address: addr.text(),
            at: s.request.at,
        }),
{
}

/// A row whose address cannot be read ends the selection, and the error quotes the address.
pub proof fn unreadable_rows_are_reported(
    pools: PoolMap,
    s: SelectionView,
    address: Seq<char>,
    start: u32,
    expiry: u32,
    next: ProgressView,
)
    requires
        forall|ip: Ipv4Addr| address != #[trigger] ip.text(),
    ensures
        s.follows(pools, Ok(LeaseRowView::Current { address, expiry }), next) ==> next
            == ProgressView::Done(
            Err(
                ErrorView::CorruptDatabase(
                    "Failed to parse IP: invalid IPv4 address syntax"@ + " ("@ + debug_quoted(
                        address,
                    ) + ")"@,
                ),
            ),
        ),
        s.follows(pools, Ok(LeaseRowView::Previous { address, start, expiry }), next) ==> next
            == ProgressView::Done(
            Err(
                ErrorView::CorruptDatabase(
                    "Failed to parse IP: \"invalid IPv4 address syntax\""@ + " ("@ + debug_quoted(
                        address,
                    ) + ")"@,
                ),
            ),
        ),
{
}

/// A query that fails ends the selection at every stage with the failure, and the absence of a row
/// never does.
pub proof fn failed_queries_are_reported(
    pools: PoolMap,
    s: SelectionView,
    failure: Seq<char>,
    next: ProgressView,
)
    requires
        s.follows(pools, Err(DbFailureView::Other(failure)), next),
    ensures
        next == ProgressView::Done(
            Err(ErrorView::DbError("Database query Error"@, DbFailureView::Other(failure))),
        ),
        crate::pool::no_row_view(DbFailureView::Other(failure)) == Some(
            ErrorView::DbError("Database query Error"@, DbFailureView::Other(failure)),
        ),
        crate::pool::no_row_view(DbFailureView::QueryReturnedNoRows) is None,
{
}

} // verus!
