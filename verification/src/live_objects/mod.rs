//! The entities of the lake and the resources they share.

pub mod exchange;
pub mod inspector;
pub mod lake;
pub mod live_object;
pub mod main_lock;
pub mod passenger;
pub mod rendezvous;
pub mod ship;
