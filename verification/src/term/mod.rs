//! Term representations: the packed runtime word and the load-time enum.

pub mod lterm;
pub mod bignum;
pub mod fterm;
pub mod resolve;
