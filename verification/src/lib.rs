//! A request/response mailbox between the cooperative tasks of a process
//! and its kernel, over two framed byte rings and in bounded memory.
//!
//! A call is given a correlation id and goes out as a frame that opens with
//! that id. Replies come back in any order; a poll moves them from the
//! inbound ring into a table of 32 places, and each call takes the reply
//! that stands under its own id. A full outbound ring makes callers wait
//! until a poll finds room again; a full table makes the poll leave
//! further replies in the ring.
//!
//! - `ids`: the correlation ids.
//! - `frame`: the wire format of a frame.
//! - `codec`: the encoding of requests and replies.
//! - `table`: the response table.
//! - `once`: the ring handles and the slot that holds them.
//! - `rings`: the calls into the rings.
//! - `model`: the state of a mailbox and the steps of the protocol, as the
//!   contracts state them.
//! - `mailbox`: the mailbox itself.
//! - `laws`: what holds of the protocol.

pub mod codec;
pub mod frame;
pub mod ids;
pub mod laws;
pub mod mailbox;
pub mod model;
pub mod once;
pub mod rings;
pub mod table;
