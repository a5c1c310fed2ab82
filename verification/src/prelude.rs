//! Common imports for building Disco networks.

pub use crate::addr::SocketAddress;
pub use crate::capability::{Capability, CapabilityAdvert, CapabilitySet};
pub use crate::clock::{LogicalClock, Timestamp};
pub use crate::device::{
    Device, DeviceId, DeviceInfo, DeviceRegistry, DeviceState, Heartbeat, HeartbeatConfig, HeartbeatMonitor,
    HeartbeatSink, HeartbeatSource, InMemoryDeviceRegistry, Liveness, NodeRole, TcpConfig,
};
pub use crate::error::{DispatchError, ProtocolError, TaskError};
pub use crate::message::{encode_frame, BincodeCodec, Envelope, Message, MessageId, Register, RegisterAck};
pub use crate::metrics::{MetricKey, NoopMetrics, TaskMetrics, Timer};
pub use crate::protocol::{ErrorCode, ProtocolVersion, Versioned};
pub use crate::queue::{DeadLetterQueue, InMemoryTaskQueue, Priority, QueueError, TaskEnvelope, TaskQueue};
pub use crate::task::{CancelReason, TaskAttempt, TaskId, TaskRegistry, TaskRequest, TaskResponse, TaskStatus};
