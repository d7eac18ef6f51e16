//! Resolution of loosely phrased user requests into candidate actions, and the
//! requester side of the byte protocol that hands a chosen action to a companion
//! process.

pub mod command;
pub mod protocol;
pub mod resolve;
pub mod simple;
pub mod text;
