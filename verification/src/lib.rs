//! A filesystem served over one duplex connection.
//!
//! * [`proto`] is the service contract: the operations, their results and
//!   the codes they may report ([`errno`], [`mode`]).
//! * [`store`] is the in-memory backend that answers it. [`table`] is the
//!   mathematical model that the store's contracts are stated over,
//!   [`wellformed`] shows that every operation keeps the model a filesystem,
//!   and [`laws`] holds what the operations promise of one another.
//! * [`channel`] numbers the calls of both endpoints of a connection so
//!   that they never collide, and routes what arrives.
//! * [`duplex`] is the small service pair in which the server calls the
//!   client back while it answers.
//! * [`bridge`] flattens results for a foreign caller.

pub mod errno;
pub mod mode;
pub mod proto;
pub mod table;
pub mod wellformed;
pub mod store;
pub mod laws;
pub mod channel;
pub mod duplex;
pub mod bridge;
