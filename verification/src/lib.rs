//! A node of a gossiping cluster: it answers the requests of clients,
//! keeps every value that was broadcast to it, and pushes to each neighbour
//! what that neighbour has not reported to hold, with some of the rest.
//!
//! `model` states the protocol over mathematical values, `laws` what
//! follows from it, `node` the executable node that implements it, and
//! `event_loop` the loop that feeds the node. Reading lines, decoding them
//! and writing the answers is left to the program around the library.

pub mod event_loop;
pub mod laws;
pub mod message;
pub mod model;
pub mod node;
pub mod node_map;
pub mod node_set;
pub mod selector;
pub mod unique;
