use disco_foundation::clock::Timestamp;
use disco_foundation::device::{DeviceId, Heartbeat};
use disco_foundation::message::{encode_frame, Envelope, HeartbeatAck, Message, MessageId, Shutdown, TaskCancel};
use disco_foundation::metrics::{MetricKey, TaskMetrics, Timer};
use disco_foundation::protocol::{ProtocolVersion, Versioned};
use disco_foundation::task::{CancelReason, TaskId, TaskRequest};

fn heartbeat() -> Message {
    Message::Heartbeat(Heartbeat::new(DeviceId(1), 1, Timestamp::from_millis(0)))
}

#[test]
fn reply_and_loss_classes() {
    assert!(heartbeat().expects_reply());
    assert!(heartbeat().is_lossy());
    let ack = Message::HeartbeatAck(HeartbeatAck { seq: 1, at: Timestamp::from_millis(2) });
    assert!(!ack.expects_reply());
    assert!(ack.is_lossy());
    let req = Message::TaskRequest(TaskRequest::new(TaskId(1), "multiply".to_string(), vec![]));
    assert!(req.expects_reply());
    assert!(!req.is_lossy());
    let cancel = Message::TaskCancel(TaskCancel { task_id: TaskId(1), reason: CancelReason::Requested });
    assert!(cancel.expects_reply());
    let bye = Message::Shutdown(Shutdown { reason: "done".to_string() });
    assert!(!bye.expects_reply());
    assert!(!bye.is_lossy());
}

#[test]
fn envelope_addressing() {
    let e = Envelope::new(DeviceId(1), DeviceId(2), heartbeat(), Timestamp::from_millis(10));
    assert_eq!(e.from, DeviceId(1));
    assert_eq!(e.to, Some(DeviceId(2)));
    assert_eq!(e.correlation, None);
    assert_eq!(e.ttl_ms, None);
    assert_eq!(e.version(), ProtocolVersion::new(1, 0));
    assert_eq!((e.id.0 >> 76) & 0xf, 7);
    let b = Envelope::broadcast(DeviceId(1), heartbeat(), Timestamp::from_millis(10));
    assert_eq!(b.to, None);
    let reply = b.in_reply_to(MessageId(99)).with_ttl_ms(5);
    assert_eq!(reply.correlation, Some(MessageId(99)));
    assert_eq!(reply.ttl_ms, Some(5));
}

#[test]
fn envelope_expiry() {
    let e = Envelope::new(DeviceId(1), DeviceId(2), heartbeat(), Timestamp::from_millis(100));
    assert!(!e.is_expired(Timestamp::from_millis(1_000_000)));
    let e = e.with_ttl_ms(50);
    assert!(!e.is_expired(Timestamp::from_millis(150)));
    assert!(e.is_expired(Timestamp::from_millis(151)));
    assert!(!e.is_expired(Timestamp::from_millis(10)));
}

#[test]
fn frame_prefixes_big_endian_length() {
    assert_eq!(encode_frame(&[7, 8, 9]), vec![0, 0, 0, 3, 7, 8, 9]);
    assert_eq!(encode_frame(&[]), vec![0, 0, 0, 0]);
    let body = vec![1u8; 0x0102];
    let framed = encode_frame(&body);
    assert_eq!(&framed[..4], &[0, 0, 1, 2]);
    assert_eq!(&framed[4..], &body[..]);
}

#[test]
fn task_metrics_balance() {
    let mut m = TaskMetrics::default();
    m.on_dispatch();
    m.on_dispatch();
    m.on_dispatch();
    m.on_dispatch();
    m.on_complete();
    m.on_failure();
    m.on_cancel();
    assert_eq!((m.dispatched, m.completed, m.failed, m.cancelled, m.in_flight), (4, 1, 1, 1, 1));
    let mut w = TaskMetrics { dispatched: u64::MAX, completed: 0, failed: 0, cancelled: 0, in_flight: i64::MAX };
    w.on_dispatch();
    assert_eq!((w.dispatched, w.in_flight), (0, i64::MIN));
    w.on_complete();
    assert_eq!(w.in_flight, i64::MAX);
}

#[test]
fn metric_keys_and_timers() {
    assert_eq!(MetricKey::new("latency".to_string()).0, "latency");
    let t = Timer::start();
    assert!(t.started.elapsed().as_secs() < 60);
    assert_eq!(Timestamp::from_millis(5).elapsed_since(Timestamp::from_millis(9)), 0);
    assert_eq!(Timestamp::from_millis(9).elapsed_since(Timestamp::from_millis(5)), 4);
    assert_eq!(Timestamp::from_millis(9).as_millis(), 9);
    assert_eq!((TaskId::new().0 >> 76) & 0xf, 7);
    assert_ne!(MessageId::new(), MessageId::new());
}

#[test]
fn ids_display_as_hyphenated_lower_hex() {
    let bits: u128 = 0x67e5_5044_10b1_426f_9247_bb68_0e5f_e0c8;
    assert_eq!(DeviceId(bits).to_string(), "67e55044-10b1-426f-9247-bb680e5fe0c8");
    assert_eq!(MessageId(0).to_string(), "00000000-0000-0000-0000-000000000000");
    let fresh = TaskId::new();
    assert_eq!(fresh.to_string(), uuid::Uuid::from_u128(fresh.0).to_string());
    assert_eq!(DeviceId(u128::MAX).to_string(), uuid::Uuid::from_u128(u128::MAX).to_string());
}
