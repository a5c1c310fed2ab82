//! Core vocabulary shared by every Disco component: protocol versions,
//! devices and heartbeats, messages, task queues and metrics.

pub mod addr;
pub mod capability;
pub mod clock;
pub mod device;
pub mod error;
pub mod ids;
pub mod macros;
pub mod message;
pub mod metrics;
pub mod prelude;
pub mod protocol;
pub mod queue;
pub mod table;
pub mod task;
