//! Choosing the address that a client is given.
//!
//! The leases are kept in a database. A `Selection` holds how far the choice has come; it names
//! the query to make next, and goes on with the reply.
use vstd::prelude::*;

use crate::clock::{low_half, truncate};
use crate::dhcppkt::copy_bytes;
use crate::ipv4::Ipv4Addr;
use crate::pool::{DbFailure, DbFailureView, Error, ErrorView, Lease, Pools};
use crate::pool::{map_no_row_to_none, shuffle};
use crate::text;

verus! {

/// A query of the lease database.
#[derive(Debug, PartialEq, Eq)]
pub enum LeaseQuery {
    /// The address and the expiry of a lease of the client in the pool that expires after `at`.
    Current { pool: String, clientid: Vec<u8>, at: u32 },
    /// The address, the start and the latest expiry of a lease of the client in the pool.
    Previous { pool: String, clientid: Vec<u8> },
    /// Whether the address is leased in the pool until `at` or later.
    InUse { pool: String, address: String, at: u32 },
}

/// The first row that a query of the lease database gave.
#[derive(Debug, PartialEq, Eq)]
pub enum LeaseRow {
    Current { address: String, expiry: u32 },
    Previous { address: String, start: u32, expiry: u32 },
    InUse,
}

/// The meaning of a `LeaseQuery`.
pub enum LeaseQueryView {
    Current { pool: Seq<char>, clientid: Seq<u8>, at: u32 },
    Previous { pool: Seq<char>, clientid: Seq<u8> },
    InUse { pool: Seq<char>, address: Seq<char>, at: u32 },
}

/// The meaning of a `LeaseRow`.
pub enum LeaseRowView {
    Current { address: Seq<char>, expiry: u32 },
    Previous { address: Seq<char>, start: u32, expiry: u32 },
    InUse,
}

impl View for LeaseQuery {
    type V = LeaseQueryView;

    open spec fn view(&self) -> LeaseQueryView {
        match *self {
            LeaseQuery::Current { pool, clientid, at } => LeaseQueryView::Current {
                pool: pool@,
                clientid: clientid@,
                at,
            },
            LeaseQuery::Previous { pool, clientid } => LeaseQueryView::Previous {
                pool: pool@,
                clientid: clientid@,
            },
            LeaseQuery::InUse { pool, address, at } => LeaseQueryView::InUse {
                pool: pool@,
                address: address@,
                at,
            },
        }
    }
}

impl View for LeaseRow {
    type V = LeaseRowView;

    open spec fn view(&self) -> LeaseRowView {
        match *self {
            LeaseRow::Current { address, expiry } => LeaseRowView::Current {
                address: address@,
                expiry,
            },
            LeaseRow::Previous { address, start, expiry } => LeaseRowView::Previous {
                address: address@,
                start,
                expiry,
            },
            LeaseRow::InUse => LeaseRowView::InUse,
        }
    }
}

/// The meaning of a reply to a query.
pub open spec fn reply_view(reply: Result<LeaseRow, DbFailure>) -> Result<
    LeaseRowView,
    DbFailureView,
> {
    match reply {
        Ok(row) => Ok(row@),
        Err(e) => Err(e@),
    }
}

/// What is being looked for.
enum Stage {
    /// The client's current binding.
    Current,
    /// The client's previous binding.
    Previous,
    /// Whether the address that the client asked for is free.
    Requested(Ipv4Addr),
    /// The first free one of these addresses; those before the index are known to be in use.
    Fresh(Vec<Ipv4Addr>, usize),
}

/// The meaning of a `Stage`.
pub enum StageView {
    Current,
    Previous,
    Requested(Ipv4Addr),
    Fresh(Seq<Ipv4Addr>, int),
}

impl View for Stage {
    type V = StageView;

    closed spec fn view(&self) -> StageView {
        match *self {
            Stage::Current => StageView::Current,
            Stage::Previous => StageView::Previous,
            Stage::Requested(addr) => StageView::Requested(addr),
            Stage::Fresh(candidates, next) => StageView::Fresh(candidates@, next as int),
        }
    }
}

/// The choice of an address, between two queries.
pub struct Selection {
    name: String,
    clientid: Vec<u8>,
    requested: Option<Ipv4Addr>,
    ts: u32,
    stage: Stage,
}

/// Who asks for an address, of which pool, and when.
pub struct Request {
    pub pool: Seq<char>,
    pub clientid: Seq<u8>,
    pub requested: Option<Ipv4Addr>,
    pub at: u32,
}

/// What a client asks for at a time, in seconds since the epoch.
pub open spec fn request_at(
    pool: Seq<char>,
    clientid: Seq<u8>,
    requested: Option<Ipv4Addr>,
    ts: u64,
) -> Request {
    Request { pool, clientid, requested, at: low_half(ts) }
}

/// The meaning of a `Selection`.
pub struct SelectionView {
    pub request: Request,
    pub stage: StageView,
}

impl View for Selection {
    type V = SelectionView;

    closed spec fn view(&self) -> SelectionView {
        SelectionView {
            request: Request {
                pool: self.name@,
                clientid: self.clientid@,
                requested: self.requested,
                at: self.ts,
            },
            stage: self.stage@,
        }
    }
}

/// How far a selection has come.
pub enum Progress {
    /// The query of the selection has to be made.
    Ask(Selection),
    /// The selection has ended.
    Done(Result<Lease, Error>),
}

/// The meaning of a `Progress`.
pub enum ProgressView {
    Ask(SelectionView),
    Done(Result<Lease, ErrorView>),
}

impl View for Progress {
    type V = ProgressView;

    open spec fn view(&self) -> ProgressView {
        match *self {
            Progress::Ask(selection) => ProgressView::Ask(selection@),
            Progress::Done(Ok(lease)) => ProgressView::Done(Ok(lease)),
            Progress::Done(Err(e)) => ProgressView::Done(Err(e@)),
        }
    }
}

/// The pools, by name.
pub type PoolMap = Map<Seq<char>, Seq<Ipv4Addr>>;

impl SelectionView {
    /// The next of the candidates exists.
    pub open spec fn valid(self) -> bool {
        self.stage matches StageView::Fresh(candidates, next) ==> 0 <= next < candidates.len()
    }

    /// The selection at another stage.
    pub open spec fn at_stage(self, stage: StageView) -> SelectionView {
        SelectionView { stage, ..self }
    }

    /// The query that the selection makes next.
    pub open spec fn query(self) -> LeaseQueryView {
        match self.stage {
            StageView::Current => LeaseQueryView::Current {
                pool: self.request.pool,
                clientid: self.request.clientid,
                at: self.request.at,
            },
            StageView::Previous => LeaseQueryView::Previous {
                pool: self.request.pool,
                clientid: self.request.clientid,
            },
            StageView::Requested(addr) => LeaseQueryView::InUse {
                pool: self.request.pool,
                address: addr.text(),
                at: self.request.at,
            },
            StageView::Fresh(candidates, next) => LeaseQueryView::InUse {
                pool: self.request.pool,
                address: candidates[next].text(),
                at: self.request.at,
            },
        }
    }

    /// Whether a reply can be one to the query: it failed, no row matched, or the row has the
    /// columns asked for. Of an address that can be read, a lease that is current ends no earlier
    /// than now, and a previous lease no earlier than it starts.
    pub open spec fn fits(self, reply: Result<LeaseRowView, DbFailureView>) -> bool {
        match reply {
            Err(_) => true,
            Ok(LeaseRowView::Current { address, expiry }) => self.stage is Current && (
            self.request.at <= expiry || Ipv4Addr::from_text(address) is None),
            Ok(LeaseRowView::Previous { address, start, expiry }) => self.stage is Previous && (
            start <= expiry || Ipv4Addr::from_text(address) is None),
            Ok(LeaseRowView::InUse) => self.stage is Requested || self.stage is Fresh,
        }
    }
}

/// What to say of an address that cannot be read.
pub open spec fn unreadable(complaint: Seq<char>, quoted: Seq<char>) -> Seq<char> {
    complaint + " ("@ + quoted + ")"@
}

/// The lease of an address of the database, unless it cannot be read.
pub open spec fn bound_lease(address: Seq<char>, expire: u64, complaint: Seq<char>) -> Result<
    Lease,
    ErrorView,
> {
    match Ipv4Addr::from_text(address) {
        Some(ip) => Ok(Lease { ip, expire }),
        None => Err(
            ErrorView::CorruptDatabase(unreadable(complaint, text::debug_quoted(address))),
        ),
    }
}

/// The lease of a binding that has not expired: what is left of it.
pub open spec fn current_lease(address: Seq<char>, expiry: u32, at: u32) -> Result<
    Lease,
    ErrorView,
> {
    bound_lease(
        address,
        (expiry - at) as u64,
        "Failed to parse IP: invalid IPv4 address syntax"@,
    )
}

/// The lease of a binding that has expired: the address again, for twice as long.
pub open spec fn revived_lease(address: Seq<char>, start: u32, expiry: u32) -> Result<
    Lease,
    ErrorView,
> {
    bound_lease(
        address,
        (2 * (expiry - start)) as u64,
        "Failed to parse IP: \"invalid IPv4 address syntax\""@,
    )
}

/// A lease of a free address. Its time is set when the lease is recorded.
pub open spec fn unbound_lease(ip: Ipv4Addr) -> Lease {
    Lease { ip, expire: 0 }
}

/// What becomes of the address that a client asked for, by the reply to whether it is in use.
pub open spec fn requested_lease(
    requested: Ipv4Addr,
    reply: Result<LeaseRowView, DbFailureView>,
) -> Result<Lease, ErrorView> {
    match reply {
        Ok(_) => Err(ErrorView::NoAssignableAddress),
        Err(DbFailureView::QueryReturnedNoRows) => Ok(unbound_lease(requested)),
        Err(e) => Err(ErrorView::DbError("Database query Error"@, e)),
    }
}

impl SelectionView {
    /// The start of the search for a free address among `candidates`.
    pub open spec fn in_order(self, candidates: Seq<Ipv4Addr>) -> ProgressView {
        if candidates.len() == 0 {
            ProgressView::Done(Err(ErrorView::NoAssignableAddress))
        } else {
            ProgressView::Ask(self.at_stage(StageView::Fresh(candidates, 0)))
        }
    }

    /// The start of the search for a free address of the pool: in some order of its addresses.
    pub open spec fn fresh(self, pools: PoolMap, next: ProgressView) -> bool {
        if pools.contains_key(self.request.pool) {
            exists|candidates: Seq<Ipv4Addr>|
                candidates.to_multiset() == pools[self.request.pool].to_multiset() && next
                    == #[trigger] self.in_order(candidates)
        } else {
            next == ProgressView::Done(Err(ErrorView::NoSuchPool(self.request.pool)))
        }
    }

    /// The look at the address that the client asked for: whether it is in use, if the pool has
    /// it.
    pub open spec fn on_request(self, pools: PoolMap, requested: Ipv4Addr) -> ProgressView {
        if !pools.contains_key(self.request.pool) {
            ProgressView::Done(Err(ErrorView::NoSuchPool(self.request.pool)))
        } else if pools[self.request.pool].contains(requested) {
            ProgressView::Ask(self.at_stage(StageView::Requested(requested)))
        } else {
            ProgressView::Done(Err(ErrorView::NoAssignableAddress))
        }
    }

    /// How a client without a binding is served: with the address that it asked for if the pool
    /// has it, else with any address of the pool.
    pub open spec fn unbound(self, pools: PoolMap, next: ProgressView) -> bool {
        match self.request.requested {
            Some(addr) if !pools.contains_key(self.request.pool) => next == ProgressView::Done(
                Err(ErrorView::NoSuchPool(self.request.pool)),
            ),
            Some(addr) if pools[self.request.pool].contains(addr) => next == ProgressView::Ask(
                self.at_stage(StageView::Requested(addr)),
            ),
            _ => self.fresh(pools, next),
        }
    }

    /// What follows a reply in which no row matched.
    pub open spec fn without_row(self, pools: PoolMap, next: ProgressView) -> bool {
        match self.stage {
            StageView::Current => next == ProgressView::Ask(self.at_stage(StageView::Previous)),
            StageView::Previous => self.unbound(pools, next),
            StageView::Requested(addr) => next == ProgressView::Done(Ok(unbound_lease(addr))),
            StageView::Fresh(candidates, i) => next == ProgressView::Done(
                Ok(unbound_lease(candidates[i])),
            ),
        }
    }

    /// What follows a row.
    pub open spec fn with_row(self, pools: PoolMap, row: LeaseRowView, next: ProgressView) -> bool {
        match row {
            LeaseRowView::Current { address, expiry } => next == ProgressView::Done(
                current_lease(address, expiry, self.request.at),
            ),
            LeaseRowView::Previous { address, start, expiry } => next == ProgressView::Done(
                revived_lease(address, start, expiry),
            ),
            LeaseRowView::InUse => match self.stage {
                StageView::Fresh(candidates, i) if i + 1 < candidates.len() => next
                    == ProgressView::Ask(self.at_stage(StageView::Fresh(candidates, i + 1))),
                StageView::Fresh(_, _) => next == ProgressView::Done(
                    Err(ErrorView::NoAssignableAddress),
                ),
                _ => self.fresh(pools, next),
            },
        }
    }

    /// What follows a reply.
    pub open spec fn follows(
        self,
        pools: PoolMap,
        reply: Result<LeaseRowView, DbFailureView>,
        next: ProgressView,
    ) -> bool {
        match reply {
            Ok(row) => self.with_row(pools, row, next),
            Err(DbFailureView::QueryReturnedNoRows) => self.without_row(pools, next),
            Err(e) => next == ProgressView::Done(
                Err(ErrorView::DbError("Database query Error"@, e)),
            ),
        }
    }
}

/// Says that an address, given between quotes, cannot be read.
pub fn unreadable_address(complaint: &str, quoted: &str) -> (s: String)
    ensures
        s@ == unreadable(complaint@, quoted@),
{
    complaint.to_owned().concat(" (").concat(quoted).concat(")")
}

/// How long after `from` the time `until` is; nothing if it is before.
fn seconds_between(from: u32, until: u32) -> (n: u64)
    ensures
        n == if from <= until {
            until - from
        } else {
            0
        },
{
    if from <= until {
        (until - from) as u64
    } else {
        0
    }
}

/// Reads an address of the database.
fn read_address(address: &String, expire: u64, complaint: &str) -> (r: Result<Lease, Error>)
    ensures
        crate::pool::result_view(r) == bound_lease(address@, expire, complaint@),
{
    match Ipv4Addr::parse(address.as_str()) {
        Some(ip) => Ok(Lease { ip, expire }),
        None => {
            let quoted = text::quoted(address.as_str());
            Err(Error::CorruptDatabase(unreadable_address(complaint, quoted.as_str())))
        },
    }
}

/// Ends the look at the address that a client asked for: it is leased if it is not in use.
pub fn lease_requested_address(requested: Ipv4Addr, reply: Result<LeaseRow, DbFailure>) -> (r:
    Result<Lease, Error>)
    ensures
        crate::pool::result_view(r) == requested_lease(requested, reply_view(reply)),
{
    let row = match reply {
        Ok(row) => Some(row),
        Err(e) => map_no_row_to_none::<LeaseRow>(e)?,
    };
    match row {
        None => Ok(Lease { ip: requested, expire: 0 }),
        Some(_) => Err(Error::NoAssignableAddress),
    }
}

impl Selection {
    /// The same selection, at another stage.
    fn copy_at(&self, stage: Stage) -> (copy: Selection)
        ensures
            copy@ == self@.at_stage(stage@),
    {
        Selection {
            name: self.name.clone(),
            clientid: copy_bytes(&self.clientid),
            requested: self.requested,
            ts: self.ts,
            stage,
        }
    }

    /// The query to make next.
    pub fn query(&self) -> (q: LeaseQuery)
        requires
            self@.valid(),
        ensures
            q@ == self@.query(),
    {
        let pool = self.name.clone();
        match &self.stage {
            Stage::Current => LeaseQuery::Current {
                pool,
                clientid: copy_bytes(&self.clientid),
                at: self.ts,
            },
            Stage::Previous => LeaseQuery::Previous { pool, clientid: copy_bytes(&self.clientid) },
            Stage::Requested(addr) => LeaseQuery::InUse {
                pool,
                address: addr.to_string(),
                at: self.ts,
            },
            Stage::Fresh(candidates, next) => LeaseQuery::InUse {
                pool,
                address: candidates[*next].to_string(),
                at: self.ts,
            },
        }
    }

    /// Looks for a free address among `candidates`, first to last.
    pub fn in_order(self, candidates: Vec<Ipv4Addr>) -> (next: Progress)
        ensures
            next@ == self@.in_order(candidates@),
    {
        if candidates.len() == 0 {
            Progress::Done(Err(Error::NoAssignableAddress))
        } else {
            Progress::Ask(Selection { stage: Stage::Fresh(candidates, 0), ..self })
        }
    }
}

impl Pools {
    /// Begins to choose an address for a client.
    ///
    /// The choice follows RFC2131 Section 4.3.1: the client's current address, else its previous
    /// address, else the address that it asked for if it is free, else a free address of the
    /// pool. `ts` is the time in seconds since the epoch.
    pub fn select_address(
        &self,
        name: &str,
        clientid: &[u8],
        requested: Option<Ipv4Addr>,
        ts: u64,
    ) -> (selection: Selection)
        ensures
            selection@ == (SelectionView {
                request: Request {
                    pool: name@,
                    clientid: clientid@,
                    requested,
                    at: low_half(ts),
                },
                stage: StageView::Current,
            }),
            selection@.request == request_at(name@, clientid@, requested, ts),
            selection@.valid(),
    {
        Selection {
            name: name.to_owned(),
            clientid: vstd::slice::slice_to_vec(clientid),
            requested,
            ts: truncate(ts),
            stage: Stage::Current,
        }
    }

    /// Goes on with a selection whose query was answered.
    pub fn resume(&self, selection: Selection, reply: Result<LeaseRow, DbFailure>) -> (next:
        Progress)
        requires
            selection@.valid(),
            selection@.fits(reply_view(reply)),
        ensures
            selection@.follows(self@, reply_view(reply), next@),
            next@ matches ProgressView::Ask(s) ==> s.valid(),
    {
        if let Stage::Requested(addr) = &selection.stage {
            return match lease_requested_address(*addr, reply) {
                Err(Error::NoAssignableAddress) => self.select_new_address(selection),
                outcome => Progress::Done(outcome),
            };
        }
        let row = match reply {
            Ok(row) => Some(row),
            Err(e) => match map_no_row_to_none::<LeaseRow>(e) {
                Ok(none) => none,
                Err(e) => return Progress::Done(Err(e)),
            },
        };
        match row {
            Some(LeaseRow::Current { address, expiry }) => Progress::Done(
                read_address(
                    &address,
                    seconds_between(selection.ts, expiry),
                    "Failed to parse IP: invalid IPv4 address syntax",
                ),
            ),
            Some(LeaseRow::Previous { address, start, expiry }) => Progress::Done(
                read_address(
                    &address,
                    2 * seconds_between(start, expiry),
                    "Failed to parse IP: \"invalid IPv4 address syntax\"",
                ),
            ),
            Some(LeaseRow::InUse) => match selection.stage {
                Stage::Fresh(candidates, i) => {
                    if candidates.len() - i > 1 {
                        Progress::Ask(
                            Selection { stage: Stage::Fresh(candidates, i + 1), ..selection },
                        )
                    } else {
                        Progress::Done(Err(Error::NoAssignableAddress))
                    }
                },
                _ => vstd::pervasive::unreached(),
            },
            None => match &selection.stage {
                Stage::Current => Progress::Ask(Selection { stage: Stage::Previous, ..selection }),
                Stage::Previous => self.select_unbound(selection),
                Stage::Requested(_) => vstd::pervasive::unreached(),
                Stage::Fresh(candidates, i) => Progress::Done(
                    Ok(Lease { ip: candidates[*i], expire: 0 }),
                ),
            },
        }
    }

    /// Serves a client without a binding: with the address that it asked for, unless that cannot
    /// be assigned, else with any free address of the pool.
    fn select_unbound(&self, selection: Selection) -> (next: Progress)
        requires
            selection@.stage is Previous,
        ensures
            selection@.unbound(self@, next@),
            next@ matches ProgressView::Ask(s) ==> s.valid(),
    {
        if let Some(addr) = selection.requested {
            match self.select_requested_address(selection.copy_at(Stage::Previous), addr) {
                Progress::Done(Err(Error::NoAssignableAddress)) => {},
                next => return next,
            }
        }
        self.select_new_address(selection)
    }

    /// Begins to look whether the address that a client asked for can be assigned. It cannot if
    /// the pool does not have it; else it has to be asked whether the address is in use, and
    /// `lease_requested_address` ends the look with the reply.
    pub fn select_requested_address(&self, selection: Selection, requested: Ipv4Addr) -> (next:
        Progress)
        ensures
            next@ == selection@.on_request(self@, requested),
            next@ matches ProgressView::Ask(s) ==> s.valid(),
    {
        match self.has_address(selection.name.as_str(), requested) {
            Err(e) => Progress::Done(Err(e)),
            Ok(true) => Progress::Ask(
                Selection { stage: Stage::Requested(requested), ..selection },
            ),
            Ok(false) => Progress::Done(Err(Error::NoAssignableAddress)),
        }
    }

    /// Looks for any free address of the pool, in random order.
    pub fn select_new_address(&self, selection: Selection) -> (next: Progress)
        ensures
            selection@.fresh(self@, next@),
            next@ matches ProgressView::Ask(s) ==> s.valid(),
    {
        match self.addresses(selection.name.as_str()) {
            Err(e) => Progress::Done(Err(e)),
            Ok(addresses) => {
                let mut candidates = addresses;
                shuffle(&mut candidates);
                selection.in_order(candidates)
            },
        }
    }
}

} // verus!
