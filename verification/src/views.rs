//! The meanings of values leave nothing out: each part of a value is in its meaning.
use vstd::prelude::*;

use crate::allocation::{Action, ActionView, Event, EventView, LeaseRecord, Outcome, OutcomeView};
use crate::dhcppkt::{DhcpOption, DhcpOptions, DHCP};
use crate::handler::{pending_view, reply_view, AddressRequest, DhcpError, DhcpErrorView, Pending};
use crate::handler::PendingView;
use crate::options::setting;
use crate::policy::Response;
use crate::pool::{result_view, DbFailure, DbFailureView, Error, ErrorView, Lease};
use crate::request::DHCPRequest;
use crate::selection;
use crate::selection::{LeaseQuery, LeaseQueryView, LeaseRow, LeaseRowView, Progress, ProgressView};

verus! {

/// The meaning of options has the bytes of each option, and no other options.
pub proof fn options_mean_their_bytes(options: DhcpOptions, c: DhcpOption, v: Option<Vec<u8>>)
    ensures
        options@.contains_key(c) <==> options.other@.contains_key(c),
        options.other@.contains_key(c) ==> options@[c] == options.other@[c]@,
        v is None ==> setting(v) is None,
        v is Some ==> setting(v) == Some(v->0@),
{
}

/// The meaning of a request has every field of the packet and where it was received.
pub proof fn requests_mean_their_fields(request: DHCPRequest, pkt: DHCP)
    ensures
        request@.pkt == request.pkt@,
        request@.serverip == request.serverip,
        request@.ifindex == request.ifindex,
        pkt@.op == pkt.op,
        pkt@.htype == pkt.htype,
        pkt@.hlen == pkt.hlen,
        pkt@.hops == pkt.hops,
        pkt@.xid == pkt.xid,
        pkt@.secs == pkt.secs,
        pkt@.flags == pkt.flags,
        pkt@.ciaddr == pkt.ciaddr,
        pkt@.yiaddr == pkt.yiaddr,
        pkt@.siaddr == pkt.siaddr,
        pkt@.giaddr == pkt.giaddr,
        pkt@.chaddr == pkt.chaddr@,
        pkt@.sname == pkt.sname@,
        pkt@.file == pkt.file@,
        pkt@.options == pkt.options@,
{
}

/// The meaning of a reply in the making has its options, its addresses and its bounds.
pub proof fn responses_mean_their_fields(response: Response, pending: Pending, a: AddressRequest)
    ensures
        response@.options == response.options@,
        response.address is None ==> response@.address is None,
        response.address is Some ==> response@.address == Some(response.address->0@),
        response@.minlease == response.minlease,
        response@.maxlease == response.maxlease,
        pending@.exchange == pending.exchange,
        pending@.address == pending.address@,
        pending@.options == pending.options@,
        a@.clientid == a.clientid@,
        a@.requested == a.requested,
        a@.addresses == a.addresses@,
        a@.minlease == a.minlease,
        a@.maxlease == a.maxlease,
{
}

/// The meaning of an error of a request tells which error it is, and what it holds.
pub proof fn request_errors_mean_themselves(e: DhcpError, r: Result<Pending, DhcpError>)
    ensures
        match e {
            DhcpError::UnknownMessageType(m) => e@ == DhcpErrorView::UnknownMessageType(m),
            DhcpError::NoLeasesAvailable => e@ == DhcpErrorView::NoLeasesAvailable,
            DhcpError::ParseError(p) => e@ == DhcpErrorView::ParseError(p),
            DhcpError::InternalError(s) => e@ == DhcpErrorView::InternalError(s@),
            DhcpError::OtherServer(s) => e@ == DhcpErrorView::OtherServer(s),
            DhcpError::NoPolicyConfigured => e@ == DhcpErrorView::NoPolicyConfigured,
        },
        match r {
            Ok(pending) => pending_view(r) == Ok::<PendingView, DhcpErrorView>(pending@),
            Err(e) => pending_view(r) == Err::<PendingView, DhcpErrorView>(e@),
        },
{
}

/// The meaning of an answer is that of the packet, or that of the error.
pub proof fn answers_mean_their_parts(r: Result<DHCP, DhcpError>)
    ensures
        r is Ok <==> reply_view(r) is Ok,
        r is Ok ==> reply_view(r)->Ok_0 == r->Ok_0@,
        r is Err ==> reply_view(r)->Err_0 == r->Err_0@,
{
}

/// The meaning of an error of the pools tells which error it is, and what it holds.
pub proof fn pool_errors_mean_themselves(e: Error, f: DbFailure, r: Result<Lease, Error>)
    ensures
        match e {
            Error::DbError(reason, failure) => e@ == ErrorView::DbError(reason@, failure@),
            Error::NoSuchPool(name) => e@ == ErrorView::NoSuchPool(name@),
            Error::DuplicatePool(name) => e@ == ErrorView::DuplicatePool(name@),
            Error::CorruptDatabase(reason) => e@ == ErrorView::CorruptDatabase(reason@),
            Error::NoAssignableAddress => e@ == ErrorView::NoAssignableAddress,
        },
        match f {
            DbFailure::QueryReturnedNoRows => f@ == DbFailureView::QueryReturnedNoRows,
            DbFailure::Other(reason) => f@ == DbFailureView::Other(reason@),
        },
        match r {
            Ok(lease) => result_view(r) == Ok::<Lease, ErrorView>(lease),
            Err(e) => result_view(r) == Err::<Lease, ErrorView>(e@),
        },
{
}

/// The meaning of a query, of a row and of a record has all that they hold.
pub proof fn queries_mean_their_fields(q: LeaseQuery, row: LeaseRow, record: LeaseRecord)
    ensures
        match q {
            LeaseQuery::Current { pool, clientid, at } => q@ == (LeaseQueryView::Current {
                pool: pool@,
                clientid: clientid@,
                at,
            }),
            LeaseQuery::Previous { pool, clientid } => q@ == (LeaseQueryView::Previous {
                pool: pool@,
                clientid: clientid@,
            }),
            LeaseQuery::InUse { pool, address, at } => q@ == (LeaseQueryView::InUse {
                pool: pool@,
                address: address@,
                at,
            }),
        },
        match row {
            LeaseRow::Current { address, expiry } => row@ == (LeaseRowView::Current {
                address: address@,
                expiry,
            }),
            LeaseRow::Previous { address, start, expiry } => row@ == (LeaseRowView::Previous {
                address: address@,
                start,
                expiry,
            }),
            LeaseRow::InUse => row@ == LeaseRowView::InUse,
        },
        record@.pool == record.pool@,
        record@.address == record.address@,
        record@.clientid == record.clientid@,
        record@.start == record.start,
        record@.expiry == record.expiry,
{
}

/// The meaning of what an allocation asks for, is told and comes to has all of it.
pub proof fn steps_mean_their_parts(
    action: Action,
    event: Event,
    outcome: Outcome,
    progress: Progress,
    reply: Result<LeaseRow, DbFailure>,
)
    ensures
        match action {
            Action::Ask(query) => action@ == ActionView::Ask(query@),
            Action::ReadClock => action@ == ActionView::ReadClock,
            Action::Store(record) => action@ == ActionView::Store(record@),
        },
        match event {
            Event::Reply(r) => event@ == EventView::Reply(selection::reply_view(r)),
            Event::Clock(now) => event@ == EventView::Clock(now),
            Event::Stored => event@ == EventView::Stored,
        },
        match outcome {
            Outcome::Pending(a) => outcome@ == OutcomeView::Pending(a@),
            Outcome::Finished(r) => outcome@ == OutcomeView::Finished(result_view(r)),
        },
        match progress {
            Progress::Ask(s) => progress@ == ProgressView::Ask(s@),
            Progress::Done(r) => progress@ == ProgressView::Done(result_view(r)),
        },
        match reply {
            Ok(row) => selection::reply_view(reply) == Ok::<LeaseRowView, DbFailureView>(row@),
            Err(e) => selection::reply_view(reply) == Err::<LeaseRowView, DbFailureView>(e@),
        },
{
}

} // verus!
