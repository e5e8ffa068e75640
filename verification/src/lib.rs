//! Verified core of a menu-bar focus timer: the timer state machine, the daily
//! extension quota, streak and badge bookkeeping, statistics retention, task
//! archiving and backup restoration.

pub mod text;
pub mod date;
pub mod date_map;
pub mod store;
pub mod timer;
pub mod backup;
pub mod audio;
pub mod laws;
