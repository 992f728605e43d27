use backstage::dependencies::{count_ready, all_ready, missing_dependency, wait_plan, DependencyKind, WaitPlan, WAIT_CHANNEL_CAPACITY};
use backstage::bundles::{query, BUNDLE_STATEMENT};
use backstage::connection::cql::{failure_message, is_known_opcode, ConnectFailure, choose_shard, get_body_length_usize, is_ready, options_frame, shard_info, startup_frame, ShardChoice, ShardInfo};
use backstage::shutdown_stream::{is_terminated, poll_plan, PollPlan};

fn push_string(v: &mut Vec<u8>, s: &str) {
    v.extend_from_slice(&(s.len() as u16).to_be_bytes());
    v.extend_from_slice(s.as_bytes());
}

fn supported(entries: &[(&str, &[&str])]) -> Vec<u8> {
    let mut v = Vec::new();
    v.extend_from_slice(&(entries.len() as u16).to_be_bytes());
    for (key, values) in entries {
        push_string(&mut v, key);
        v.extend_from_slice(&(values.len() as u16).to_be_bytes());
        for value in values.iter() {
            push_string(&mut v, value);
        }
    }
    v
}

#[test]
fn body_length_is_big_endian() {
    assert_eq!(get_body_length_usize(&[0, 0, 0, 0, 0, 0, 0, 0, 5]), 5);
    assert_eq!(get_body_length_usize(&[4, 0, 0, 0, 6, 0x01, 0x02, 0x03, 0x04, 0xff]), 0x01020304);
    assert_eq!(get_body_length_usize(&[0, 0, 0, 0, 0, 0xff, 0xff, 0xff, 0xff]), 0xffff_ffff);
}

#[test]
fn handshake_frames() {
    let startup = startup_frame();
    assert_eq!(startup.len(), 31);
    assert_eq!(startup[0], 4);
    assert_eq!(startup[1], 0);
    assert_eq!(startup[4], 1);
    assert_eq!(&startup[5..9], &[0, 0, 0, 22]);
    assert_eq!(&startup[9..13], &[0, 1, 0, 11]);
    assert_eq!(&startup[13..24], b"CQL_VERSION");
    assert_eq!(&startup[24..26], &[0, 5]);
    assert_eq!(&startup[26..31], b"3.0.0");
    let options = options_frame();
    assert_eq!(options.len(), 9);
    assert_eq!(options[0], 4);
    assert_eq!(options[4], 5);
    assert_eq!(&options[5..9], &[0, 0, 0, 0]);
}

#[test]
fn known_opcodes_and_failures() {
    assert!(is_known_opcode(0));
    assert!(is_known_opcode(0x10));
    assert!(!is_known_opcode(4));
    assert!(!is_known_opcode(0x11));
    assert_eq!(failure_message(ConnectFailure::NotReady), "CQL connection failed.");
    assert_eq!(failure_message(ConnectFailure::NoSuchShard), "shard_id does not exist.");
}

#[test]
fn ready_opcode() {
    assert!(is_ready(&[0x84, 0, 0, 0, 2, 0, 0, 0, 0]));
    assert!(!is_ready(&[0x84, 0, 0, 0, 0, 0, 0, 0, 0]));
    assert!(!is_ready(&[0x84, 0, 0, 0, 6, 0, 0, 0, 0]));
}

#[test]
fn shard_info_of_supported_body() {
    let body = supported(&[
        ("SCYLLA_SHARD", &["3"]),
        ("SCYLLA_NR_SHARDS", &["+12", "ignored"]),
        ("SCYLLA_SHARDING_IGNORE_MSB", &["012"]),
        ("COMPRESSION", &["lz4", "snappy"]),
    ]);
    assert_eq!(shard_info(&body), Some(ShardInfo { shard: 3, nr_shards: 12, ignore_msb: 12 }));
}

#[test]
fn shard_info_missing_or_bad_options() {
    let missing = supported(&[("SCYLLA_SHARD", &["3"]), ("SCYLLA_NR_SHARDS", &["12"])]);
    assert_eq!(shard_info(&missing), None);
    let empty_list = supported(&[("SCYLLA_SHARD", &[]), ("SCYLLA_NR_SHARDS", &["12"]), ("SCYLLA_SHARDING_IGNORE_MSB", &["1"])]);
    assert_eq!(shard_info(&empty_list), None);
    let too_big = supported(&[("SCYLLA_SHARD", &["256"]), ("SCYLLA_NR_SHARDS", &["12"]), ("SCYLLA_SHARDING_IGNORE_MSB", &["1"])]);
    assert_eq!(shard_info(&too_big), None);
    let not_a_number = supported(&[("SCYLLA_SHARD", &["-1"]), ("SCYLLA_NR_SHARDS", &["12"]), ("SCYLLA_SHARDING_IGNORE_MSB", &["1"])]);
    assert_eq!(shard_info(&not_a_number), None);
    assert_eq!(shard_info(&[0, 5, 0]), None);
}

#[test]
fn connection_shard_choice() {
    let info = ShardInfo { shard: 2, nr_shards: 4, ignore_msb: 12 };
    assert_eq!(choose_shard(info, 2), ShardChoice::Keep);
    assert_eq!(choose_shard(info, 1), ShardChoice::Retry);
    assert_eq!(choose_shard(info, 4), ShardChoice::NoSuchShard);
    assert_eq!(choose_shard(info, 200), ShardChoice::NoSuchShard);
}

#[test]
fn bundle_query_frame() {
    let frame = query("ABC".to_string());
    let statement = BUNDLE_STATEMENT.as_bytes();
    let body_len = 4 + statement.len() + 2 + 1 + 2 + 4 + 3;
    assert_eq!(&frame[0..5], &[4, 0, 0, 0, 7]);
    assert_eq!(&frame[5..9], &(body_len as u32).to_be_bytes());
    assert_eq!(frame.len(), 9 + body_len);
    assert_eq!(&frame[9..13], &(statement.len() as u32).to_be_bytes());
    assert_eq!(&frame[13..13 + statement.len()], statement);
    let rest = &frame[13 + statement.len()..];
    assert_eq!(rest, &[0, 1, 3, 0, 1, 0, 0, 0, 3, b'A', b'B', b'C']);
}

#[test]
fn shutdown_checked_before_stream() {
    assert_eq!(poll_plan(false, false, false), PollPlan::PollStream);
    assert_eq!(poll_plan(false, true, false), PollPlan::End);
    assert_eq!(poll_plan(false, false, true), PollPlan::End);
    assert_eq!(poll_plan(true, false, false), PollPlan::End);
    assert!(is_terminated(true, false));
    assert!(is_terminated(false, true));
    assert!(!is_terminated(false, false));
}

#[test]
fn dependency_decisions() {
    assert_eq!(wait_plan(true), WaitPlan::Subscribe);
    assert_eq!(wait_plan(false), WaitPlan::CreateChannel { capacity: 8 });
    assert_eq!(WAIT_CHANNEL_CAPACITY, 8);
    assert_eq!(count_ready(&[true, false, true]), 2);
    assert_eq!(count_ready(&[]), 0);
    assert!(all_ready(3, count_ready(&[true, true, true])));
    assert!(all_ready(3, 3));
    assert!(!all_ready(3, 2));
    assert_eq!(missing_dependency(DependencyKind::System, "my::Sys"), "Missing system dependency: my::Sys");
    assert_eq!(missing_dependency(DependencyKind::Actor, "A"), "Missing actor dependency: A");
    assert_eq!(missing_dependency(DependencyKind::Resource, "R"), "Missing resource dependency: R");
}

#[test]
fn shard_info_number_edges() {
    let opts = |shard: &str, nr: &str, msb: &str| {
        supported(&[("SCYLLA_SHARD", &[shard]), ("SCYLLA_NR_SHARDS", &[nr]), ("SCYLLA_SHARDING_IGNORE_MSB", &[msb])])
    };
    assert_eq!(shard_info(&opts("255", "65535", "+0")), Some(ShardInfo { shard: 255, nr_shards: 65535, ignore_msb: 0 }));
    assert_eq!(shard_info(&opts("0", "65536", "1")), None);
    assert_eq!(shard_info(&opts("+", "1", "1")), None);
    assert_eq!(shard_info(&opts("", "1", "1")), None);
    assert_eq!(shard_info(&opts("1a", "1", "1")), None);
    assert_eq!(shard_info(&opts("1", "1", "++1")), None);
    assert_eq!(shard_info(&opts("0007", "00012", "1")), Some(ShardInfo { shard: 7, nr_shards: 12, ignore_msb: 1 }));
}
