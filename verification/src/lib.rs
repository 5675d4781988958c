//! Per-host traffic telemetry.
//!
//! A classifier on the datapath reduces every packet to a flow label and adds
//! its length to a record in a bounded table ([`packet`], [`flow`],
//! [`table`]). An agent drains the tables of both directions on every poll
//! tick, attributes the bytes to the addresses of the host, smooths the
//! counts with a moving average, and once per report period encodes the
//! counters as one datagram ([`agent`], [`counter`], [`report`]). The hooks
//! that feed the tables are attached step by step and given back in the
//! reverse order ([`lifecycle`], [`hook`], [`command`]).
//!
//! Nothing here touches the system: the caller reads the tables, runs the
//! commands and sends the datagrams, and tells the library what came of it.

pub mod agent;
pub mod command;
pub mod counter;
pub mod flow;
pub mod hook;
pub mod lifecycle;
pub mod packet;
pub mod report;
pub mod table;
