//! A node of a small mesh on a LAN, and the server that offers it as tools over the Model
//! Context Protocol.
//!
//! Nodes find each other with probes and announcements to a multicast group ([`net`],
//! [`scan`]) and send each other messages, one line of JSON each ([`mail`]). A client drives
//! a node over JSON-RPC ([`mcp`], [`tools`]). [`state`] is what a node knows; [`json`] and
//! [`text`] are what the rest is written in.
//!
//! [`laws`] states what holds of several of them together or of every state. [`shown`],
//! [`notation`], [`table`], [`post`], [`replies`] and [`protocol`] say what the functions that
//! the contracts speak of mean: for each operation, what its result must be.
//!
//! The library decides and computes; it waits for nothing. Where work has to be done in
//! between, such as sending a packet or sleeping, a function says what to do next after what
//! has happened, and its caller does it.
pub mod json;
pub mod laws;
pub mod mail;
pub mod mcp;
pub mod net;
pub mod notation;
pub mod post;
pub mod protocol;
pub mod replies;
pub mod scan;
pub mod shown;
pub mod state;
pub mod table;
pub mod text;
pub mod tools;
