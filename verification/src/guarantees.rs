//! What clients can rely on: the properties of whole allocations.
use vstd::prelude::*;

use crate::allocation::{record_of, timed, DEFAULT_MAX_LEASE, DEFAULT_MIN_LEASE};
use crate::allocation::{AllocationView, EventView, LeaseRecordView, OutcomeView, PhaseView};
use crate::ipv4::{reading_undoes_writing, Ipv4Addr};
use crate::leases::{answers, assignable, bound, bound_after, grants, has_binding, has_current};
use crate::leases::{in_use, informed, orderly, outage, queries_left, true_reply_leads_on};
use crate::leases::{lemma_current_is_binding, Binding, LeaseTable};
use crate::pool::{ErrorView, Lease};
use crate::selection::{PoolMap, ProgressView, Request, SelectionView, StageView};

verus! {

/// The allocation for a request, at its beginning.
pub open spec fn begun(request: Request) -> AllocationView {
    AllocationView {
        pool: request.pool,
        clientid: request.clientid,
        phase: PhaseView::Selecting(SelectionView { request, stage: StageView::Current }),
    }
}

/// A reply that came is true of the table.
pub open spec fn truthful(table: LeaseTable, allocation: AllocationView, event: EventView) -> bool {
    match (allocation.phase, event) {
        (PhaseView::Selecting(selection), EventView::Reply(reply)) => answers(
            table,
            selection.query(),
            reply,
        ),
        _ => true,
    }
}

/// At the state `i`, what happened was true, and led to the next state, or to the outcome.
pub open spec fn is_step(
    pools: PoolMap,
    table: LeaseTable,
    states: Seq<AllocationView>,
    events: Seq<EventView>,
    outcome: Result<Lease, ErrorView>,
    i: int,
) -> bool {
    truthful(table, states[i], events[i]) && states[i].follows(
        pools,
        events[i],
        if i + 1 < states.len() {
            OutcomeView::Pending(states[i + 1])
        } else {
            OutcomeView::Finished(outcome)
        },
    )
}

/// An allocation from its beginning to its end: the states that it went through, and what
/// happened at each.
pub open spec fn is_run(
    pools: PoolMap,
    table: LeaseTable,
    request: Request,
    states: Seq<AllocationView>,
    events: Seq<EventView>,
    outcome: Result<Lease, ErrorView>,
) -> bool {
    &&& states.len() == events.len()
    &&& states.len() > 0
    &&& states[0] == begun(request)
    &&& forall|i: int|
        0 <= i < states.len() ==> #[trigger] is_step(pools, table, states, events, outcome, i)
}

/// The lease is one that the client is to be given, with its time brought between the bounds.
pub open spec fn granted(pools: PoolMap, table: LeaseTable, request: Request, lease: Lease)
    -> bool {
    exists|chosen: Lease| #[trigger]
        grants(pools, table, request, Ok(chosen)) && lease == timed(chosen)
}

/// What holds of an allocation at every moment.
pub open spec fn sound(
    pools: PoolMap,
    table: LeaseTable,
    request: Request,
    a: AllocationView,
) -> bool {
    &&& a.pool == request.pool
    &&& a.clientid == request.clientid
    &&& match a.phase {
        PhaseView::Selecting(s) => s.request == request && informed(pools, table, s),
        PhaseView::Timing(lease) => granted(pools, table, request, lease),
        PhaseView::Storing(lease, _) => granted(pools, table, request, lease),
    }
}

/// How many actions an allocation can still need at most.
pub open spec fn actions_left(pools: PoolMap, a: AllocationView) -> int {
    match a.phase {
        PhaseView::Selecting(s) => queries_left(pools, s) + 2,
        PhaseView::Timing(_) => 2,
        PhaseView::Storing(_, _) => 1,
    }
}

proof fn lemma_sound_step(
    pools: PoolMap,
    table: LeaseTable,
    request: Request,
    a: AllocationView,
    event: EventView,
    next: OutcomeView,
)
    requires
        sound(pools, table, request, a),
        truthful(table, a, event),
        a.follows(pools, event, next),
    ensures
        match next {
            OutcomeView::Pending(b) => sound(pools, table, request, b) && 0 < actions_left(pools, b)
                < actions_left(pools, a),
            OutcomeView::Finished(Ok(lease)) => granted(pools, table, request, lease) && (a.phase
                matches PhaseView::Storing(stored, _) && stored == lease),
            OutcomeView::Finished(Err(e)) => outage(Err(e)) || grants(
                pools,
                table,
                request,
                Err(e),
            ),
        },
{
    match (a.phase, event) {
        (PhaseView::Selecting(s), EventView::Reply(reply)) => {
            let progress = choose|progress: ProgressView| #[trigger]
                s.follows(pools, reply, progress) && next == a.selected(progress);
            true_reply_leads_on(pools, table, s, reply, progress);
            if let ProgressView::Done(Ok(lease)) = progress {
                assert(grants(pools, table, request, Ok(lease)));
            }
            assert(queries_left(pools, s) > 0);
        },
        _ => {},
    }
}

proof fn lemma_sound_until(
    pools: PoolMap,
    table: LeaseTable,
    request: Request,
    states: Seq<AllocationView>,
    events: Seq<EventView>,
    outcome: Result<Lease, ErrorView>,
    n: int,
)
    requires
        is_run(pools, table, request, states, events, outcome),
        0 <= n < states.len(),
    ensures
        sound(pools, table, request, states[n]),
        n + actions_left(pools, states[n]) <= pools[request.pool].len() + 5,
        actions_left(pools, states[n]) > 0,
    decreases n,
{
    if n > 0 {
        lemma_sound_until(pools, table, request, states, events, outcome, n - 1);
        assert(is_step(pools, table, states, events, outcome, n - 1));
        lemma_sound_step(
            pools,
            table,
            request,
            states[n - 1],
            events[n - 1],
            OutcomeView::Pending(states[n]),
        );
    }
}

/// Every allocation whose replies are true of the table ends after at most as many actions as
/// the pool has addresses and five more. It ends with what the client is to be given, or with
/// the failure of a query. A lease that it ends with has been recorded for the client.
pub proof fn allocation_gives_what_is_due(
    pools: PoolMap,
    table: LeaseTable,
    request: Request,
    states: Seq<AllocationView>,
    events: Seq<EventView>,
    outcome: Result<Lease, ErrorView>,
)
    requires
        is_run(pools, table, request, states, events, outcome),
    ensures
        states.len() <= pools[request.pool].len() + 5,
        match outcome {
            Ok(lease) => granted(pools, table, request, lease) && states.last().pool
                == request.pool && states.last().clientid == request.clientid && (
            states.last().phase matches PhaseView::Storing(stored, _) && stored == lease),
            Err(e) => outage(outcome) || grants(pools, table, request, outcome),
        },
{
    let n = states.len() - 1;
    lemma_sound_until(pools, table, request, states, events, outcome, n);
    assert(is_step(pools, table, states, events, outcome, n));
    lemma_sound_step(
        pools,
        table,
        request,
        states[n],
        events[n],
        OutcomeView::Finished(outcome),
    );
}

/// Every lease lasts at least the shortest and at most the longest time allowed, and a time
/// between the two is left as it is.
pub proof fn lease_time_is_bounded(lease: Lease)
    ensures
        DEFAULT_MIN_LEASE <= timed(lease).expire <= DEFAULT_MAX_LEASE,
        timed(lease).ip == lease.ip,
        DEFAULT_MIN_LEASE <= lease.expire <= DEFAULT_MAX_LEASE ==> timed(lease) == lease,
{
}

/// No client is given an address that another client has in use.
pub proof fn address_in_use_is_not_given_away(
    pools: PoolMap,
    table: LeaseTable,
    request: Request,
    lease: Lease,
)
    requires
        granted(pools, table, request, lease),
        in_use(table, request.pool, lease.ip.text(), request.at),
    ensures
        bound(table, request.pool, lease.ip.text(), request.clientid),
{
}

/// Every address on record can be read.
pub open spec fn readable(table: LeaseTable) -> bool {
    forall|key: (Seq<char>, Seq<char>)| #[trigger]
        table.contains_key(key) ==> Ipv4Addr::from_text(key.1) is Some
}

/// A client with a current binding is given the address of one, for the time that is left.
pub proof fn current_address_is_kept(
    pools: PoolMap,
    table: LeaseTable,
    request: Request,
    outcome: Result<Lease, ErrorView>,
)
    requires
        readable(table),
        has_current(table, request.pool, request.clientid, request.at),
        grants(pools, table, request, outcome),
    ensures
        outcome matches Ok(lease) && bound_after(
            table,
            request.pool,
            lease.ip.text(),
            request.clientid,
            request.at,
        ) && lease.expire == table[(request.pool, lease.ip.text())].expiry - request.at
            && lease.expire > 0,
{
    let address = choose|address: Seq<char>| #[trigger]
        bound_after(table, request.pool, address, request.clientid, request.at) && outcome
            == crate::selection::current_lease(
            address,
            table[(request.pool, address)].expiry,
            request.at,
        );
    assert(table.contains_key((request.pool, address)));
}

/// A client whose bindings have all expired is given the address of one, for twice as long as
/// it had it.
pub proof fn previous_address_is_revived(
    pools: PoolMap,
    table: LeaseTable,
    request: Request,
    outcome: Result<Lease, ErrorView>,
)
    requires
        readable(table),
        orderly(table),
        has_binding(table, request.pool, request.clientid),
        !has_current(table, request.pool, request.clientid, request.at),
        grants(pools, table, request, outcome),
    ensures
        outcome matches Ok(lease) && bound(
            table,
            request.pool,
            lease.ip.text(),
            request.clientid,
        ) && lease.expire == 2 * (table[(request.pool, lease.ip.text())].expiry - table[(
            request.pool,
            lease.ip.text(),
        )].start),
{
    let address = choose|address: Seq<char>| #[trigger]
        bound(table, request.pool, address, request.clientid) && outcome
            == crate::selection::revived_lease(
            address,
            table[(request.pool, address)].start,
            table[(request.pool, address)].expiry,
        );
    assert(table.contains_key((request.pool, address)));
}

/// A client without a binding is given the address that it asked for whenever that is free.
pub proof fn free_requested_address_is_given(
    pools: PoolMap,
    table: LeaseTable,
    request: Request,
    addr: Ipv4Addr,
    outcome: Result<Lease, ErrorView>,
)
    requires
        pools.contains_key(request.pool),
        !has_binding(table, request.pool, request.clientid),
        request.requested == Some(addr),
        assignable(pools, table, request, addr),
        grants(pools, table, request, outcome),
    ensures
        outcome matches Ok(lease) && lease.ip == addr,
{
    lemma_current_is_binding(table, request.pool, request.clientid, request.at);
}

/// A client without a binding is only given a free address of the pool.
pub proof fn new_address_is_free_and_of_the_pool(
    pools: PoolMap,
    table: LeaseTable,
    request: Request,
    lease: Lease,
)
    requires
        !has_binding(table, request.pool, request.clientid),
        granted(pools, table, request, lease),
    ensures
        pools.contains_key(request.pool),
        assignable(pools, table, request, lease.ip),
{
    lemma_current_is_binding(table, request.pool, request.clientid, request.at);
}

/// A client without a binding is refused exactly when every address of the pool is in use, as
/// in an empty pool.
pub proof fn refused_only_by_an_exhausted_pool(
    pools: PoolMap,
    table: LeaseTable,
    request: Request,
    outcome: Result<Lease, ErrorView>,
)
    requires
        pools.contains_key(request.pool),
        !has_binding(table, request.pool, request.clientid),
        grants(pools, table, request, outcome),
    ensures
        outcome is Err <==> forall|addr: Ipv4Addr| #[trigger]
            pools[request.pool].contains(addr) ==> in_use(
                table,
                request.pool,
                addr.text(),
                request.at,
            ),
        outcome is Err ==> outcome == Err::<Lease, ErrorView>(ErrorView::NoAssignableAddress),
{
    lemma_current_is_binding(table, request.pool, request.clientid, request.at);
    if outcome is Err {
        assert forall|addr: Ipv4Addr| #[trigger] pools[request.pool].contains(addr) implies in_use(
            table,
            request.pool,
            addr.text(),
            request.at,
        ) by {
            assert(!assignable(pools, table, request, addr));
        }
    } else {
        let ip = outcome->Ok_0.ip;
        assert(pools[request.pool].contains(ip));
    }
}

/// The two tables have the same bindings in the pool.
pub open spec fn same_pool(a: LeaseTable, b: LeaseTable, pool: Seq<char>) -> bool {
    forall|address: Seq<char>|
        #![trigger a.contains_key((pool, address))]
        #![trigger b.contains_key((pool, address))]
        a.contains_key((pool, address)) == b.contains_key((pool, address)) && (a.contains_key(
            (pool, address),
        ) ==> a[(pool, address)] == b[(pool, address)])
}

proof fn lemma_other_pools_do_not_matter(
    pools: PoolMap,
    a: LeaseTable,
    b: LeaseTable,
    request: Request,
    outcome: Result<Lease, ErrorView>,
)
    requires
        same_pool(a, b, request.pool),
        grants(pools, a, request, outcome),
    ensures
        grants(pools, b, request, outcome),
{
    let pool = request.pool;
    let clientid = request.clientid;
    assert forall|address: Seq<char>| #[trigger] bound(b, pool, address, clientid) == bound(
        a,
        pool,
        address,
        clientid,
    ) by {}
    assert forall|address: Seq<char>| #[trigger]
        bound_after(b, pool, address, clientid, request.at) == bound_after(
        a,
        pool,
        address,
        clientid,
        request.at,
    ) by {}
    assert forall|address: Seq<char>| #[trigger] bound(a, pool, address, clientid) implies bound(
        b,
        pool,
        address,
        clientid,
    ) by {}
    assert forall|address: Seq<char>| #[trigger]
        bound_after(a, pool, address, clientid, request.at) implies bound_after(
        b,
        pool,
        address,
        clientid,
        request.at,
    ) by {}
    assert forall|addr: Ipv4Addr| #[trigger] assignable(pools, b, request, addr) == assignable(
        pools,
        a,
        request,
        addr,
    ) by {}
}

/// What a client is given does not depend on the bindings of other pools.
pub proof fn other_pools_do_not_matter(
    pools: PoolMap,
    a: LeaseTable,
    b: LeaseTable,
    request: Request,
    outcome: Result<Lease, ErrorView>,
)
    requires
        same_pool(a, b, request.pool),
    ensures
        grants(pools, a, request, outcome) == grants(pools, b, request, outcome),
{
    if grants(pools, a, request, outcome) {
        lemma_other_pools_do_not_matter(pools, a, b, request, outcome);
    }
    if grants(pools, b, request, outcome) {
        lemma_other_pools_do_not_matter(pools, b, a, request, outcome);
    }
}

/// The table after a record was stored.
pub open spec fn stored(table: LeaseTable, record: LeaseRecordView) -> LeaseTable {
    table.insert(
        (record.pool, record.address),
        Binding { clientid: record.clientid, start: record.start, expiry: record.expiry },
    )
}

/// Recording a lease leaves the bindings of all other addresses as they are, and of all other
/// clients that have theirs in use.
pub proof fn recording_disturbs_no_other_lease(
    pools: PoolMap,
    table: LeaseTable,
    request: Request,
    lease: Lease,
    now: u64,
    key: (Seq<char>, Seq<char>),
)
    requires
        granted(pools, table, request, lease),
        table.contains_key(key),
        key != (request.pool, lease.ip.text()) || (table[key].clientid != request.clientid
            && table[key].expiry >= request.at),
    ensures
        ({
            let after = stored(table, record_of(request.pool, request.clientid, lease, now));
            after.contains_key(key) && after[key] == table[key]
        }),
{
    if key == (request.pool, lease.ip.text()) {
        address_in_use_is_not_given_away(pools, table, request, lease);
    }
}

/// The client has at most one binding in the pool.
pub open spec fn one_binding(table: LeaseTable, pool: Seq<char>, clientid: Seq<u8>) -> bool {
    forall|a: Seq<char>, b: Seq<char>| #[trigger]
        bound(table, pool, a, clientid) && #[trigger] bound(table, pool, b, clientid) ==> a == b
}

/// A client with a binding is granted an address that it is bound to.
proof fn lemma_bound_client_keeps_an_address(
    pools: PoolMap,
    table: LeaseTable,
    request: Request,
    chosen: Lease,
)
    requires
        has_binding(table, request.pool, request.clientid),
        grants(pools, table, request, Ok(chosen)),
    ensures
        bound(table, request.pool, chosen.ip.text(), request.clientid),
{
    if has_current(table, request.pool, request.clientid, request.at) {
        let address = choose|address: Seq<char>| #[trigger]
            bound_after(table, request.pool, address, request.clientid, request.at) && Ok::<
                Lease,
                ErrorView,
            >(chosen) == crate::selection::current_lease(
                address,
                table[(request.pool, address)].expiry,
                request.at,
            );
        assert(bound(table, request.pool, address, request.clientid));
    }
}

/// Recording what a client is given leaves every client with at most one binding in each pool,
/// if it had no more before.
pub proof fn clients_keep_at_most_one_binding(
    pools: PoolMap,
    table: LeaseTable,
    request: Request,
    lease: Lease,
    now: u64,
    pool: Seq<char>,
    clientid: Seq<u8>,
)
    requires
        granted(pools, table, request, lease),
        one_binding(table, pool, clientid),
    ensures
        one_binding(
            stored(table, record_of(request.pool, request.clientid, lease, now)),
            pool,
            clientid,
        ),
{
    let after = stored(table, record_of(request.pool, request.clientid, lease, now));
    let own = pool == request.pool && clientid == request.clientid;
    assert forall|address: Seq<char>| #[trigger] bound(after, pool, address, clientid) implies (own
        && address == lease.ip.text()) || bound(table, pool, address, clientid) by {}
    if own && has_binding(table, pool, clientid) {
        let chosen = choose|chosen: Lease| #[trigger]
            grants(pools, table, request, Ok(chosen)) && lease == timed(chosen);
        lemma_bound_client_keeps_an_address(pools, table, request, chosen);
    }
}

/// A recorded lease keeps the table readable, and orderly unless it ends after the last second
/// that 32 bits can count.
pub proof fn recording_keeps_the_table_sound(
    table: LeaseTable,
    pool: Seq<char>,
    clientid: Seq<u8>,
    lease: Lease,
    now: u64,
)
    requires
        readable(table),
        orderly(table),
        now + lease.expire <= u32::MAX,
    ensures
        readable(stored(table, record_of(pool, clientid, lease, now))),
        orderly(stored(table, record_of(pool, clientid, lease, now))),
{
    reading_undoes_writing(lease.ip);
    let after = stored(table, record_of(pool, clientid, lease, now));
    assert forall|key: (Seq<char>, Seq<char>)| #[trigger] after.contains_key(key) implies
        Ipv4Addr::from_text(key.1) is Some && after[key].start <= after[key].expiry by {
        if key != (pool, lease.ip.text()) {
            assert(table.contains_key(key));
        }
    }
}

/// A client that asks again before its lease ends is given the same address, for the time that
/// is left, if it has no other current binding.
pub proof fn recorded_lease_is_given_again(
    pools: PoolMap,
    table: LeaseTable,
    lease: Lease,
    now: u64,
    request: Request,
    outcome: Result<Lease, ErrorView>,
)
    requires
        now + lease.expire <= u32::MAX,
        request.at < now + lease.expire,
        forall|address: Seq<char>| #[trigger]
            bound_after(table, request.pool, address, request.clientid, request.at) ==> address
                == lease.ip.text(),
        grants(
            pools,
            stored(table, record_of(request.pool, request.clientid, lease, now)),
            request,
            outcome,
        ),
    ensures
        outcome == Ok::<Lease, ErrorView>(
            Lease { ip: lease.ip, expire: (now + lease.expire - request.at) as u64 },
        ),
{
    let after = stored(table, record_of(request.pool, request.clientid, lease, now));
    reading_undoes_writing(lease.ip);
    assert(bound_after(
        after,
        request.pool,
        lease.ip.text(),
        request.clientid,
        request.at,
    ));
    let address = choose|address: Seq<char>| #[trigger]
        bound_after(after, request.pool, address, request.clientid, request.at) && outcome
            == crate::selection::current_lease(
            address,
            after[(request.pool, address)].expiry,
            request.at,
        );
    if address != lease.ip.text() {
        assert(bound_after(table, request.pool, address, request.clientid, request.at));
    }
}

/// A client that asks again once its lease has ended is given the same address, for twice as long
/// as it had it, if it has no other binding.
pub proof fn expired_lease_is_doubled(
    pools: PoolMap,
    table: LeaseTable,
    lease: Lease,
    now: u64,
    request: Request,
    outcome: Result<Lease, ErrorView>,
)
    requires
        now + lease.expire <= u32::MAX,
        now + lease.expire <= request.at,
        forall|address: Seq<char>| #[trigger]
            bound(table, request.pool, address, request.clientid) ==> address == lease.ip.text(),
        grants(
            pools,
            stored(table, record_of(request.pool, request.clientid, lease, now)),
            request,
            outcome,
        ),
    ensures
        outcome == Ok::<Lease, ErrorView>(
            Lease { ip: lease.ip, expire: (2 * lease.expire) as u64 },
        ),
{
    let after = stored(table, record_of(request.pool, request.clientid, lease, now));
    reading_undoes_writing(lease.ip);
    assert forall|address: Seq<char>| #[trigger]
        bound(after, request.pool, address, request.clientid) implies address
        == lease.ip.text() by {
        if address != lease.ip.text() {
            assert(bound(table, request.pool, address, request.clientid));
        }
    }
    assert(bound(after, request.pool, lease.ip.text(), request.clientid));
    if has_current(after, request.pool, request.clientid, request.at) {
        let address = choose|address: Seq<char>| #[trigger]
            bound_after(after, request.pool, address, request.clientid, request.at);
        assert(bound(after, request.pool, address, request.clientid));
    }
}

} // verus!
