use telemetry_agent::clock::{timestamp_of, unix_nanos};
use telemetry_agent::config::{instance_id_from, to_hex};
use telemetry_agent::{generate_instance_id, Config};

#[test]
fn the_default_configuration() {
    let config = Config::default();
    assert_eq!(config.aggregator_addr, "http://localhost:9000");
    assert_eq!(config.service_name, "default");
    assert_eq!(config.push_interval_ms, 20);
    assert!(!config.instance_id.is_empty());
}

#[test]
fn hexadecimal_without_leading_zeros() {
    assert_eq!(to_hex(0), "0");
    assert_eq!(to_hex(9), "9");
    assert_eq!(to_hex(10), "a");
    assert_eq!(to_hex(15), "f");
    assert_eq!(to_hex(16), "10");
    assert_eq!(to_hex(255), "ff");
    assert_eq!(to_hex(0xdead_beef), "deadbeef");
    assert_eq!(to_hex(u64::MAX), "ffffffffffffffff");
    for n in [1u64, 17, 4095, 4096, 65535, 1 << 32, 0x0123_4567_89ab_cdef] {
        assert_eq!(to_hex(n), format!("{:x}", n));
    }
}

#[test]
fn an_instance_identifier_from_a_time() {
    assert_eq!(instance_id_from(0), "0");
    assert_eq!(instance_id_from(255), "ff");
    assert_eq!(instance_id_from(0xFFFF_FFFE), "fffffffe");
    assert_eq!(instance_id_from(0xFFFF_FFFF), "0");
    assert_eq!(instance_id_from(0x1_0000_0000), "1");
    let nanos: u128 = 1_700_000_000_123_456_789;
    assert_eq!(instance_id_from(nanos), format!("{:x}", nanos % 0xFFFFFFFF));
    assert_eq!(instance_id_from(u128::MAX), format!("{:x}", u128::MAX % 0xFFFFFFFF));
}

#[test]
fn a_generated_instance_identifier_is_hexadecimal() {
    let id = generate_instance_id();
    assert!(!id.is_empty() && id.len() <= 8);
    assert!(id.chars().all(|c| c.is_ascii_digit() || ('a'..='f').contains(&c)));
    assert!(u64::from_str_radix(&id, 16).unwrap() < 0xFFFF_FFFF);
    assert!(id == "0" || !id.starts_with('0'));
}

#[test]
fn a_timestamp_is_the_low_64_bits() {
    assert_eq!(timestamp_of(0), 0);
    assert_eq!(timestamp_of(12345), 12345);
    assert_eq!(timestamp_of(u64::MAX as u128), u64::MAX);
    assert_eq!(timestamp_of((1u128 << 64) + 5), 5);
    assert_eq!(timestamp_of(u128::MAX), u64::MAX);
}

#[test]
fn the_clock_is_past_2020() {
    assert!(unix_nanos() > 1_577_836_800_000_000_000);
}
