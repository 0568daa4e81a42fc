//! Stop-and-wait ARQ: a sender and a receiver state machine that together
//! deliver a bounded run of data units, in order, over a transport that may
//! lose or delay packets.
//!
//! The engine never blocks and never touches a clock or a socket. A driver
//! feeds it events (a unit is to be started, the timer expired, a packet
//! arrived) and carries out what it answers.

pub mod driver;
pub mod packet;
pub mod receiver;
pub mod sender;
pub mod session;
