//! Supervision of gateway shards: restart coordination, session resumption
//! and event relay.

pub mod command;
pub mod dispatch;
pub mod forward;
pub mod payload;
pub mod resume;
pub mod worker;
