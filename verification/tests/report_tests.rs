use pingbench::config::Transport;
use pingbench::engine::Sample;
use pingbench::report::{decimal, format_sample, transport_label, ReportContext};

#[test]
fn decimal_renders_digits() {
    assert_eq!(decimal(0), b"0".to_vec());
    assert_eq!(decimal(7), b"7".to_vec());
    assert_eq!(decimal(10), b"10".to_vec());
    assert_eq!(decimal(1234567890), b"1234567890".to_vec());
    assert_eq!(decimal(u64::MAX), b"18446744073709551615".to_vec());
}

#[test]
fn transport_labels() {
    assert_eq!(transport_label(Transport::Tcp), b"tcp".to_vec());
    assert_eq!(transport_label(Transport::Udp), b"udp".to_vec());
}

#[test]
fn human_record_shape() {
    let ctx = ReportContext {
        runtime: b"std".to_vec(),
        transport: Transport::Tcp,
        interval_ns: 10_000_000,
        payload_len: 16,
        load_tasks: 0,
        structured: false,
    };
    let line = format_sample(&ctx, Sample { seq: 3, elapsed_ns: 12345 });
    assert_eq!(line, b"16 bytes: seq=3 time=12345ns".to_vec());
}

#[test]
fn csv_record_shape() {
    let ctx = ReportContext {
        runtime: b"std".to_vec(),
        transport: Transport::Udp,
        interval_ns: 10_000_000,
        payload_len: 16,
        load_tasks: 2,
        structured: true,
    };
    let line = format_sample(&ctx, Sample { seq: 7, elapsed_ns: 999 });
    assert_eq!(line, b"std,udp,rtt,7,10000000,16,2,999,ns".to_vec());
}

#[test]
fn csv_record_zero_fields() {
    let ctx = ReportContext {
        runtime: b"tokio".to_vec(),
        transport: Transport::Tcp,
        interval_ns: 0,
        payload_len: 8,
        load_tasks: 0,
        structured: true,
    };
    let line = format_sample(&ctx, Sample { seq: 0, elapsed_ns: 0 });
    assert_eq!(line, b"tokio,tcp,rtt,0,0,8,0,0,ns".to_vec());
}
