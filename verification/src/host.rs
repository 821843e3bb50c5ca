//! Host-call classification and host data types.
use vstd::prelude::*;

pub mod call;
pub mod conversions;
pub mod error;
pub mod methods;
