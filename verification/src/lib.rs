//! A peer-to-peer community: its members, what they say to each other, how that is kept between
//! them alone, and what a user sees of it.

use vstd::prelude::*;

pub mod address;
pub mod audio;
pub mod bytes;
pub mod community;
pub mod config;
pub mod connection;
pub mod crypto;
pub mod debug;
pub mod decoding;
pub mod decoding_laws;
pub mod egregore;
pub mod exchange;
pub mod fault;
pub mod filing;
pub mod forms;
pub mod handler;
pub mod identity;
pub mod launch;
pub mod metrics;
pub mod model;
pub mod names;
pub mod opening;
pub mod operations;
pub mod outcome;
pub mod panels;
pub mod playout;
pub mod primitives;
pub mod protobuf;
pub mod replica;
pub mod rows;
pub mod session;
pub mod shell;
pub mod snapshot;
pub mod sorted;
pub mod state;
pub mod state_laws;
pub mod text;
pub mod text_input;
pub mod timeline;
pub mod utf;
pub mod voice;
pub mod window;
pub mod wire;

verus! {

} // verus!
