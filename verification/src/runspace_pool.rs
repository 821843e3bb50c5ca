//! Runspace-pool state, streams and lifecycle.
use vstd::prelude::*;

pub mod enums;
pub mod incoming;
pub mod key_exchange;
pub mod lifecycle;
pub mod streams;
