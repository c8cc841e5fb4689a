use pingbench::codec;
use pingbench::engine::{recv_step, PipelinedSender, Sample, SyncEngine};
use pingbench::pending::PendingTable;

const MS: u64 = 1_000_000;

#[test]
fn sync_one_shot_measures_elapsed() {
    let mut e = SyncEngine::new(0);
    let mut payload = vec![0u8; 16];
    e.prepare_send(&mut payload, 1_000);
    assert_eq!(codec::decode(&payload), 0);
    let s = e.complete_reply(1_500);
    assert_eq!(s, Sample { seq: 0, elapsed_ns: 500 });
    assert_eq!(e.sample_count(), 1);
    assert_eq!(e.into_samples(), vec![Sample { seq: 0, elapsed_ns: 500 }]);
}

#[test]
fn sync_pacing_deadline_is_send_time_plus_interval() {
    let mut e = SyncEngine::new(10 * MS);
    let mut payload = vec![0u8; 8];
    assert_eq!(e.next_send_deadline(), 0);
    e.prepare_send(&mut payload, 2 * MS);
    assert_eq!(e.next_send_deadline(), 12 * MS);
    e.complete_reply(3 * MS);
    assert_eq!(e.next_send_deadline(), 12 * MS);
}

#[test]
fn sync_non_monotonic_clock_clamps_elapsed_to_zero() {
    let mut e = SyncEngine::new(0);
    let mut payload = vec![0u8; 8];
    e.prepare_send(&mut payload, 900);
    let s = e.complete_reply(800);
    assert_eq!(s.elapsed_ns, 0);
}

// A synchronous run against a simulated loopback echo: payload 16 bytes,
// interval 10 ms, duration bound 500 ms, echo latency 1 ms. The run stops at
// the first iteration that starts past the deadline, reporting one sample per
// completed iteration: 50 of them, sequence numbers strictly increasing from
// 0, each elapsed time positive and far under 100 ms.
#[test]
fn sync_run_duration_bounded() {
    let interval = 10 * MS;
    let duration = 500 * MS;
    let echo_latency = 1 * MS;

    let mut e = SyncEngine::new(interval);
    let mut payload = vec![0u8; 16];
    let mut now: u64 = 0;
    loop {
        // the keep-running flag, flipped once the duration elapses
        if now >= duration {
            break;
        }
        // the pacing sleep has already brought `now` past the deadline
        let send_at = now.max(e.next_send_deadline());
        e.prepare_send(&mut payload, send_at);
        // the peer echoes the payload back after the loopback latency
        let reply_at = send_at + echo_latency;
        e.complete_reply(reply_at);
        now = send_at + interval;
    }
    let samples = e.into_samples();
    assert_eq!(samples.len(), 50);
    for (i, s) in samples.iter().enumerate() {
        assert_eq!(s.seq, i as u64);
        assert!(s.elapsed_ns > 0);
        assert!(s.elapsed_ns < 100 * MS);
    }
}

#[test]
fn pipelined_send_and_receive_correlate() {
    let mut sender = PipelinedSender::new(0);
    let mut table = PendingTable::new();
    let mut payload = vec![0u8; 16];

    sender.send_step(&mut table, &mut payload, 100);
    assert_eq!(codec::decode(&payload), 0);
    assert!(table.contains(0));

    // the echo returns the payload unchanged
    let reply = payload.clone();
    let sample = recv_step(&mut table, &reply, 175).expect("reply must correlate");
    assert_eq!(sample, Sample { seq: 0, elapsed_ns: 75 });
    assert!(table.is_empty());
}

#[test]
fn pipelined_replies_may_arrive_out_of_order() {
    let mut sender = PipelinedSender::new(0);
    let mut table = PendingTable::new();
    let mut sent: Vec<Vec<u8>> = Vec::new();
    for i in 0..4u64 {
        let mut payload = vec![0u8; 16];
        sender.send_step(&mut table, &mut payload, 10 * i);
        sent.push(payload);
    }
    for i in (0..4u64).rev() {
        let reply = sent[i as usize].clone();
        let sample = recv_step(&mut table, &reply, 100).expect("reply must correlate");
        assert_eq!(sample.seq, i);
        assert_eq!(sample.elapsed_ns, 100 - 10 * i);
    }
    assert!(table.is_empty());
}

#[test]
fn reply_for_unknown_seq_is_a_correlation_fault() {
    let mut table = PendingTable::new();
    let mut reply = vec![0u8; 16];
    codec::encode(&mut reply, 99);
    assert_eq!(recv_step(&mut table, &reply, 50), None);
}

#[test]
fn duplicate_reply_is_a_correlation_fault() {
    let mut sender = PipelinedSender::new(0);
    let mut table = PendingTable::new();
    let mut payload = vec![0u8; 16];
    sender.send_step(&mut table, &mut payload, 10);
    let reply = payload.clone();
    assert!(recv_step(&mut table, &reply, 20).is_some());
    assert_eq!(recv_step(&mut table, &reply, 30), None);
}

// Force the sequence counter to 2^64 - 2: after two sends the third encoded
// sequence number is 0 (wrapped), and correlation still succeeds.
#[test]
fn wrap_scenario() {
    let mut sender = PipelinedSender::with_seq(0, u64::MAX - 1);
    let mut table = PendingTable::new();
    let mut replies: Vec<Vec<u8>> = Vec::new();
    let expected = [u64::MAX - 1, u64::MAX, 0u64];
    for (i, &want) in expected.iter().enumerate() {
        let mut payload = vec![0u8; 16];
        sender.send_step(&mut table, &mut payload, i as u64);
        assert_eq!(codec::decode(&payload), want);
        replies.push(payload);
    }
    for (i, reply) in replies.iter().enumerate() {
        let sample = recv_step(&mut table, reply, 10).expect("reply must correlate");
        assert_eq!(sample.seq, expected[i]);
    }
    assert!(table.is_empty());
}

#[test]
fn sync_wrap_scenario() {
    let mut e = SyncEngine::with_seq(0, u64::MAX - 1);
    let mut payload = vec![0u8; 8];
    let mut seen: Vec<u64> = Vec::new();
    for t in 0..3u64 {
        e.prepare_send(&mut payload, t);
        seen.push(codec::decode(&payload));
        e.complete_reply(t);
    }
    assert_eq!(seen, vec![u64::MAX - 1, u64::MAX, 0]);
}
