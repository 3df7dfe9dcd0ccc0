//! The preprocessing-based protocol layers: offline precompute followed by
//! an online exchange.

pub mod opprf;
