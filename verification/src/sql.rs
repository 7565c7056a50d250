//! The statements in which the lease database is asked and told.
use vstd::prelude::*;

use crate::selection::LeaseQuery;

verus! {

/// Creates the table of leases. It takes no parameters.
pub const CREATE_LEASES: &'static str = "CREATE TABLE IF NOT EXISTS leases (
              pool  TEXT NOT NULL,
              address TEXT NOT NULL,
              clientid BLOB NOT NULL,
              start INTEGER NOT NULL,
              expiry INTEGER NOT NULL,
              PRIMARY KEY (pool, address)
            )";

/// Asks for the address and the expiry of a current lease. The parameters are the pool, the
/// client and the time.
pub const SELECT_CURRENT: &'static str = "SELECT
               address,
               expiry
             FROM
               leases
             WHERE pool = ?1
             AND clientid = ?2
             AND expiry > ?3";

/// Asks for the address, the start and the expiry of a lease. The parameters are the pool and
/// the client.
pub const SELECT_PREVIOUS: &'static str = "SELECT
               address,
               start,
               max(expiry)
             FROM
               leases
             WHERE pool = ?1
             AND clientid = ?2
             GROUP BY 1";

/// Asks whether an address is in use. The parameters are the pool, the time and the address.
pub const SELECT_IN_USE: &'static str = "SELECT
                      true
                     FROM
                      leases
                     WHERE pool = ?1
                     AND expiry >= ?2
                     AND address = ?3";

/// Records a lease. The parameters are the pool, the address, the client, the start and the
/// expiry.
pub const STORE_LEASE: &'static str = "INSERT INTO leases (pool, address, clientid, start, expiry)
             VALUES (?1, ?2, ?3, ?4, ?5)
             ON CONFLICT (pool, address) DO
             UPDATE SET clientid=?3, start=?4, expiry=?5";

impl LeaseQuery {
    /// The statement that asks the query.
    pub fn statement(&self) -> (s: &'static str)
        ensures
            s@ == match *self {
                LeaseQuery::Current { .. } => SELECT_CURRENT@,
                LeaseQuery::Previous { .. } => SELECT_PREVIOUS@,
                LeaseQuery::InUse { .. } => SELECT_IN_USE@,
            },
    {
        match self {
            LeaseQuery::Current { .. } => SELECT_CURRENT,
            LeaseQuery::Previous { .. } => SELECT_PREVIOUS,
            LeaseQuery::InUse { .. } => SELECT_IN_USE,
        }
    }
}

} // verus!
