# erbium_dhcp

The DHCP server of erbium, with its rules stated as contracts and proved by Verus.

A request is handled in three steps. `handler::handle_pkt` applies the policies of the
configuration and says what address to allocate. `Pools::allocate_address` and `Pools::proceed`
choose the address; they name each query of the lease database, each reading of the clock and the
record to store, and go on with what came of it. `handler::complete` makes the reply.

- `policy`, `options`, `config`, `properties`: which policies a request falls under, what they put
  into the reply, and what follows of that.
- `pool`, `selection`, `allocation`, `leases`, `guarantees`: how an address is chosen, bounded in
  time and recorded, and what clients can rely on.
- `handler`, `service`, `format`, `request`, `dhcppkt`: requests, replies and what is said of them.
- `ipv4`, `subnet`, `text`, `clock`, `sql`: what the others are built on.
- `app/`: the sockets, the clock and the SQLite database around the library.
