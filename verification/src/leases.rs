//! What the choice of an address means for the leases on record.
//!
//! The lease database is modelled as a map from pool and address to a binding. The proof
//! functions say which addresses are given out when the replies to the queries are true of it.
use vstd::prelude::*;

use crate::ipv4::Ipv4Addr;
use crate::pool::{DbFailureView, ErrorView, Lease};
use crate::selection::{current_lease, requested_lease, revived_lease, unbound_lease};
use crate::selection::{
    LeaseQueryView, LeaseRowView, PoolMap, ProgressView, Request, SelectionView, StageView,
};

verus! {

/// To whom an address is bound, and from when until when.
pub struct Binding {
    pub clientid: Seq<u8>,
    pub start: u32,
    pub expiry: u32,
}

/// The leases on record: at most one binding for each pool and address text.
pub type LeaseTable = Map<(Seq<char>, Seq<char>), Binding>;

/// The address is bound to the client.
pub open spec fn bound(
    table: LeaseTable,
    pool: Seq<char>,
    address: Seq<char>,
    clientid: Seq<u8>,
) -> bool {
    table.contains_key((pool, address)) && table[(pool, address)].clientid == clientid
}

/// The address is bound to the client until after `at`.
pub open spec fn bound_after(
    table: LeaseTable,
    pool: Seq<char>,
    address: Seq<char>,
    clientid: Seq<u8>,
    at: u32,
) -> bool {
    bound(table, pool, address, clientid) && table[(pool, address)].expiry > at
}

/// The client has a binding.
pub open spec fn has_binding(table: LeaseTable, pool: Seq<char>, clientid: Seq<u8>) -> bool {
    exists|address: Seq<char>| #[trigger] bound(table, pool, address, clientid)
}

/// The client has a binding until after `at`.
pub open spec fn has_current(
    table: LeaseTable,
    pool: Seq<char>,
    clientid: Seq<u8>,
    at: u32,
) -> bool {
    exists|address: Seq<char>| #[trigger] bound_after(table, pool, address, clientid, at)
}

/// The address is bound, to whomever, until `at` or later.
pub open spec fn in_use(table: LeaseTable, pool: Seq<char>, address: Seq<char>, at: u32) -> bool {
    table.contains_key((pool, address)) && table[(pool, address)].expiry >= at
}

/// The reply is true of the table. Any query can fail.
pub open spec fn answers(
    table: LeaseTable,
    query: LeaseQueryView,
    reply: Result<LeaseRowView, DbFailureView>,
) -> bool {
    match reply {
        Err(DbFailureView::Other(_)) => true,
        Err(DbFailureView::QueryReturnedNoRows) => match query {
            LeaseQueryView::Current { pool, clientid, at } => !has_current(
                table,
                pool,
                clientid,
                at,
            ),
            LeaseQueryView::Previous { pool, clientid } => !has_binding(table, pool, clientid),
            LeaseQueryView::InUse { pool, address, at } => !in_use(table, pool, address, at),
        },
        Ok(LeaseRowView::Current { address, expiry }) => query matches LeaseQueryView::Current {
            pool,
            clientid,
            at,
        } && bound_after(table, pool, address, clientid, at) && table[(pool, address)].expiry
            == expiry,
        Ok(LeaseRowView::Previous { address, start, expiry }) => query matches
            LeaseQueryView::Previous { pool, clientid } && bound(table, pool, address, clientid)
            && table[(pool, address)].start == start && table[(pool, address)].expiry == expiry,
        Ok(LeaseRowView::InUse) => query matches LeaseQueryView::InUse { pool, address, at }
            && in_use(table, pool, address, at),
    }
}

/// No binding ends before it starts.
pub open spec fn orderly(table: LeaseTable) -> bool {
    forall|key: (Seq<char>, Seq<char>)| #[trigger]
        table.contains_key(key) ==> table[key].start <= table[key].expiry
}

/// A reply that is true of an orderly table can be handed to the selection.
pub proof fn true_reply_fits(
    table: LeaseTable,
    s: SelectionView,
    reply: Result<LeaseRowView, DbFailureView>,
)
    requires
        orderly(table),
        answers(table, s.query(), reply),
    ensures
        s.fits(reply),
{
}

/// The pool has the address, and it is not in use.
pub open spec fn assignable(
    pools: PoolMap,
    table: LeaseTable,
    request: Request,
    addr: Ipv4Addr,
) -> bool {
    pools[request.pool].contains(addr) && !in_use(table, request.pool, addr.text(), request.at)
}

/// The address that a client asks for is leased to it exactly when the pool has it and nobody,
/// the client included, has it in use; otherwise it cannot be assigned. Without such a pool that
/// is the error.
pub proof fn requested_address_is_leased_exactly_when_free(
    pools: PoolMap,
    table: LeaseTable,
    s: SelectionView,
    requested: Ipv4Addr,
    reply: Result<LeaseRowView, DbFailureView>,
)
    requires
        s.on_request(pools, requested) matches ProgressView::Ask(asked) ==> answers(
            table,
            asked.query(),
            reply,
        ) && !(reply matches Err(DbFailureView::Other(_))),
    ensures
        (match s.on_request(pools, requested) {
            ProgressView::Ask(_) => requested_lease(requested, reply),
            ProgressView::Done(outcome) => outcome,
        }) == if !pools.contains_key(s.request.pool) {
            Err(ErrorView::NoSuchPool(s.request.pool))
        } else if pools[s.request.pool].contains(requested) && !in_use(
            table,
            s.request.pool,
            requested.text(),
            s.request.at,
        ) {
            Ok(unbound_lease(requested))
        } else {
            Err(ErrorView::NoAssignableAddress)
        },
{
}

/// A client with a current binding is given its address, for the time that is left.
pub open spec fn grants_current(
    table: LeaseTable,
    request: Request,
    outcome: Result<Lease, ErrorView>,
) -> bool {
    exists|address: Seq<char>| #[trigger]
        bound_after(table, request.pool, address, request.clientid, request.at) && outcome
            == current_lease(address, table[(request.pool, address)].expiry, request.at)
}

/// A client with an expired binding is given its address, for twice as long as before.
pub open spec fn grants_previous(
    table: LeaseTable,
    request: Request,
    outcome: Result<Lease, ErrorView>,
) -> bool {
    exists|address: Seq<char>| #[trigger]
        bound(table, request.pool, address, request.clientid) && outcome == revived_lease(
            address,
            table[(request.pool, address)].start,
            table[(request.pool, address)].expiry,
        )
}

/// A client without a binding is given the address that it asked for if that is free, else any
/// free address of the pool.
pub open spec fn grants_unbound(
    pools: PoolMap,
    table: LeaseTable,
    request: Request,
    outcome: Result<Lease, ErrorView>,
) -> bool {
    if !pools.contains_key(request.pool) {
        outcome == Err::<Lease, ErrorView>(ErrorView::NoSuchPool(request.pool))
    } else if request.requested is Some && assignable(
        pools,
        table,
        request,
        request.requested.unwrap(),
    ) {
        outcome == Ok::<Lease, ErrorView>(unbound_lease(request.requested.unwrap()))
    } else {
        match outcome {
            Ok(lease) => assignable(pools, table, request, lease.ip) && lease == unbound_lease(
                lease.ip,
            ),
            Err(e) => e == ErrorView::NoAssignableAddress && forall|addr: Ipv4Addr|
                !#[trigger] assignable(pools, table, request, addr),
        }
    }
}

/// What a client is given, by RFC2131 Section 4.3.1.
pub open spec fn grants(
    pools: PoolMap,
    table: LeaseTable,
    request: Request,
    outcome: Result<Lease, ErrorView>,
) -> bool {
    if has_current(table, request.pool, request.clientid, request.at) {
        grants_current(table, request, outcome)
    } else if has_binding(table, request.pool, request.clientid) {
        grants_previous(table, request, outcome)
    } else {
        grants_unbound(pools, table, request, outcome)
    }
}

/// A query of the database failed, and the selection with it.
pub open spec fn outage(outcome: Result<Lease, ErrorView>) -> bool {
    outcome matches Err(ErrorView::DbError(reason, DbFailureView::Other(_))) && reason
        == "Database query Error"@
}

/// What the replies so far have shown of the table.
pub open spec fn informed(pools: PoolMap, table: LeaseTable, s: SelectionView) -> bool {
    let request = s.request;
    match s.stage {
        StageView::Current => true,
        StageView::Previous => !has_current(table, request.pool, request.clientid, request.at),
        StageView::Requested(addr) => {
            &&& !has_binding(table, request.pool, request.clientid)
            &&& pools.contains_key(request.pool)
            &&& request.requested == Some(addr)
            &&& pools[request.pool].contains(addr)
        },
        StageView::Fresh(candidates, i) => {
            &&& !has_binding(table, request.pool, request.clientid)
            &&& pools.contains_key(request.pool)
            &&& candidates.to_multiset() == pools[request.pool].to_multiset()
            &&& 0 <= i < candidates.len()
            &&& forall|k: int|
                0 <= k < i ==> in_use(
                    table,
                    request.pool,
                    (#[trigger] candidates[k]).text(),
                    request.at,
                )
            &&& request.requested is Some ==> !assignable(
                pools,
                table,
                request,
                request.requested.unwrap(),
            )
        },
    }
}

/// How many queries a selection can still make at most.
pub open spec fn queries_left(pools: PoolMap, s: SelectionView) -> int {
    match s.stage {
        StageView::Current => pools[s.request.pool].len() as int + 3,
        StageView::Previous => pools[s.request.pool].len() as int + 2,
        StageView::Requested(_) => pools[s.request.pool].len() as int + 1,
        StageView::Fresh(candidates, i) => candidates.len() - i,
    }
}

/// What follows brings the selection nearer to its end, or is what the client is to be given.
pub open spec fn leads_on(
    pools: PoolMap,
    table: LeaseTable,
    s: SelectionView,
    next: ProgressView,
) -> bool {
    match next {
        ProgressView::Ask(t) => {
            &&& t.request == s.request
            &&& informed(pools, table, t)
            &&& 0 < queries_left(pools, t) < queries_left(pools, s)
        },
        ProgressView::Done(outcome) => outage(outcome) || grants(
            pools,
            table,
            s.request,
            outcome,
        ),
    }
}

proof fn lemma_permuted(a: Seq<Ipv4Addr>, b: Seq<Ipv4Addr>)
    requires
        a.to_multiset() == b.to_multiset(),
    ensures
        a.len() == b.len(),
        forall|x: Ipv4Addr| a.contains(x) <==> b.contains(x),
{
    a.to_multiset_ensures();
    b.to_multiset_ensures();
    assert forall|x: Ipv4Addr| a.contains(x) <==> b.contains(x) by {
        assert(a.contains(x) <==> a.to_multiset().count(x) > 0);
        assert(b.contains(x) <==> b.to_multiset().count(x) > 0);
    }
}

pub(crate) proof fn lemma_current_is_binding(
    table: LeaseTable,
    pool: Seq<char>,
    clientid: Seq<u8>,
    at: u32,
)
    ensures
        has_current(table, pool, clientid, at) ==> has_binding(table, pool, clientid),
{
    if has_current(table, pool, clientid, at) {
        let address = choose|address: Seq<char>| #[trigger]
            bound_after(table, pool, address, clientid, at);
        assert(bound(table, pool, address, clientid));
    }
}

/// The search among the addresses of the pool begins.
proof fn lemma_fresh(pools: PoolMap, table: LeaseTable, s: SelectionView, next: ProgressView)
    requires
        !has_binding(table, s.request.pool, s.request.clientid),
        s.request.requested is Some && pools.contains_key(s.request.pool) ==> !assignable(
            pools,
            table,
            s.request,
            s.request.requested.unwrap(),
        ),
        s.stage is Previous || s.stage is Requested,
        s.fresh(pools, next),
    ensures
        leads_on(pools, table, s, next),
{
    let pool = s.request.pool;
    lemma_current_is_binding(table, pool, s.request.clientid, s.request.at);
    if pools.contains_key(pool) {
        let candidates = choose|candidates: Seq<Ipv4Addr>|
            candidates.to_multiset() == pools[pool].to_multiset() && next == #[trigger] s.in_order(
                candidates,
            );
        lemma_permuted(candidates, pools[pool]);
        if candidates.len() == 0 {
            assert forall|addr: Ipv4Addr| !#[trigger] assignable(pools, table, s.request, addr) by {
                assert(!candidates.contains(addr));
            }
        }
    }
}

/// The law of one reply, for a reply in which no row matched.
proof fn lemma_without_row(
    pools: PoolMap,
    table: LeaseTable,
    s: SelectionView,
    next: ProgressView,
)
    requires
        informed(pools, table, s),
        answers(table, s.query(), Err(DbFailureView::QueryReturnedNoRows)),
        s.without_row(pools, next),
    ensures
        leads_on(pools, table, s, next),
{
    let pool = s.request.pool;
    lemma_current_is_binding(table, pool, s.request.clientid, s.request.at);
    match s.stage {
        StageView::Current => {},
        StageView::Previous => {
            match s.request.requested {
                Some(addr) if !pools.contains_key(pool) => {},
                Some(addr) if pools[pool].contains(addr) => {},
                _ => {
                    lemma_fresh(pools, table, s, next);
                },
            }
        },
        StageView::Requested(addr) => {
            assert(assignable(pools, table, s.request, addr));
        },
        StageView::Fresh(candidates, i) => {
            lemma_permuted(candidates, pools[pool]);
            assert(candidates.contains(candidates[i]));
            assert(assignable(pools, table, s.request, candidates[i]));
        },
    }
}

/// The law of one reply, for the reply that an address is in use.
proof fn lemma_in_use(pools: PoolMap, table: LeaseTable, s: SelectionView, next: ProgressView)
    requires
        informed(pools, table, s),
        answers(table, s.query(), Ok(LeaseRowView::InUse)),
        s.with_row(pools, LeaseRowView::InUse, next),
    ensures
        leads_on(pools, table, s, next),
{
    let pool = s.request.pool;
    lemma_current_is_binding(table, pool, s.request.clientid, s.request.at);
    match s.stage {
        StageView::Requested(addr) => {
            lemma_fresh(pools, table, s, next);
        },
        StageView::Fresh(candidates, i) => {
            lemma_permuted(candidates, pools[pool]);
            if i + 1 >= candidates.len() {
                assert forall|addr: Ipv4Addr| !#[trigger] assignable(
                    pools,
                    table,
                    s.request,
                    addr,
                ) by {
                    if pools[pool].contains(addr) {
                        assert(candidates.contains(addr));
                        let k = choose|k: int| 0 <= k < candidates.len() && candidates[k] == addr;
                        assert(in_use(table, pool, candidates[k].text(), s.request.at));
                    }
                }
            }
        },
        _ => {},
    }
}

/// One reply that is true of the table brings the selection nearer to its end, and what it ends
/// with is what the client is to be given.
pub proof fn true_reply_leads_on(
    pools: PoolMap,
    table: LeaseTable,
    s: SelectionView,
    reply: Result<LeaseRowView, DbFailureView>,
    next: ProgressView,
)
    requires
        informed(pools, table, s),
        answers(table, s.query(), reply),
        s.follows(pools, reply, next),
    ensures
        leads_on(pools, table, s, next),
{
    match reply {
        Err(DbFailureView::Other(_)) => {},
        Ok(LeaseRowView::Current { address, expiry }) => {
            assert(bound_after(
                table,
                s.request.pool,
                address,
                s.request.clientid,
                s.request.at,
            ));
        },
        Ok(LeaseRowView::Previous { address, start, expiry }) => {
            assert(bound(table, s.request.pool, address, s.request.clientid));
        },
        Ok(LeaseRowView::InUse) => {
            lemma_in_use(pools, table, s, next);
        },
        Err(DbFailureView::QueryReturnedNoRows) => {
            lemma_without_row(pools, table, s, next);
        },
    }
}

} // verus!
