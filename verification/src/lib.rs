//! The decisions behind a FUSE connection whose reads and writes go through an io_uring ring.
//!
//! Requests travel over a channel to a ring thread, which submits them to the kernel, keeps them
//! until their completions arrive and answers the callers. This library decides what the ring
//! thread does next ([`ring`]), what the calls on a connection return ([`connection`]) and how a
//! connection comes about ([`setup`]). It performs no input or output itself: it is told what
//! happened and says what is to be done.
//!
//! Requests that wait for a completion are kept in a [`slot_table`], one per sort of request
//! ([`lane`]). That none of them is lost or answered twice is proved in [`ring_laws`].

pub mod connection;
pub mod error;
pub mod foreign;
pub mod lane;
pub mod request;
pub mod ring;
pub mod ring_laws;
pub mod setup;
pub mod slot_table;
pub mod text;
