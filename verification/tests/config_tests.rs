use pingbench::config::{Mode, RunConfig, Transport};
use pingbench::load::busy_step;

#[test]
fn config_rejects_payload_smaller_than_prefix() {
    let r = RunConfig::new(Transport::Tcp, 7, 0, false, 0, false, 0);
    assert!(r.is_none());
}

#[test]
fn config_accepts_minimum_payload() {
    let c = RunConfig::new(Transport::Udp, 8, 10_000_000, true, 3, true, 60_000_000_000)
        .expect("payload of 8 bytes is valid");
    assert_eq!(c.transport, Transport::Udp);
    assert_eq!(c.payload_len, 8);
    assert_eq!(c.interval_ns, 10_000_000);
    assert!(c.wait_only);
    assert_eq!(c.load_tasks, 3);
    assert!(c.structured);
    assert_eq!(c.duration_ns, 60_000_000_000);
}

#[test]
fn wait_flag_selects_synchronous_mode() {
    let sync = RunConfig::new(Transport::Tcp, 16, 0, true, 0, false, 0).unwrap();
    assert_eq!(sync.mode(), Mode::Synchronous);
    let pipelined = RunConfig::new(Transport::Tcp, 16, 0, false, 0, false, 0).unwrap();
    assert_eq!(pipelined.mode(), Mode::Pipelined);
}

#[test]
fn busy_step_doubles() {
    assert_eq!(busy_step(0), 0);
    assert_eq!(busy_step(3), 6);
    assert_eq!(busy_step(1 << 20), 1 << 21);
}

#[test]
fn busy_step_wraps() {
    assert_eq!(busy_step(usize::MAX / 2 + 1), 0);
    assert_eq!(busy_step(usize::MAX), usize::MAX - 1);
}
