use std::collections::{BTreeMap, HashMap};

use mineshaft::addr::{IpAddr, SocketAddr};
use mineshaft::bytes::{be_u32, read_be_u32};
use mineshaft::maps::{keys_of, sorted_keys_of};
use mineshaft::text::{joined, parse_unsigned, push_decimal, split_pieces};
use mineshaft::time::{Duration, Instant};
use mineshaft::vec_map::VecMap;

#[test]
fn addresses_are_numbers() {
    assert_eq!(IpAddr::v4(127, 0, 0, 1), IpAddr::V4(0x7f00_0001));
    assert_eq!(IpAddr::v4(1, 2, 3, 4), IpAddr::V4(0x0102_0304));
    assert_eq!(
        SocketAddr::new(IpAddr::v4(1, 2, 3, 4), 5),
        SocketAddr::V4 { ip: 0x0102_0304, port: 5 }
    );
}

#[test]
fn bytes_are_big_endian() {
    assert_eq!(be_u32(0x0a0b_0c0d), [10, 11, 12, 13]);
    assert_eq!(read_be_u32(&[9, 10, 11, 12, 13], 1), 0x0a0b_0c0d);
}

#[test]
fn durations_and_instants() {
    assert_eq!(Duration::from_secs(2).nanos, 2_000_000_000);
    assert_eq!(Duration::from_millis(3).nanos, 3_000_000);
    assert!(Duration::from_secs(0).is_zero());
    assert_eq!(Duration { nanos: 1_999_999 }.millis_timestamp(), 1);
    let long = Duration { nanos: (u64::MAX as u128 + 2) * 1_000_000 };
    assert_eq!(long.millis_timestamp(), 1);
    let start = Instant { nanos: 10 };
    let later = Instant { nanos: 20 };
    assert!(later.timed_out(start, Duration { nanos: 9 }));
    assert!(!later.timed_out(start, Duration { nanos: 10 }));
    assert!(!start.timed_out(later, Duration { nanos: 0 }));
}

#[test]
fn numbers_are_read_as_std_reads_them() {
    for s in ["0", "7", "+7", "007", "", "+", "-1", "1 ", "4294967295", "4294967296", "٣"] {
        assert_eq!(parse_unsigned(s, u32::MAX as u64), s.parse::<u32>().ok().map(|n| n as u64));
    }
    for s in ["18446744073709551615", "18446744073709551616", "99999999999999999999"] {
        assert_eq!(parse_unsigned(s, u64::MAX), s.parse::<u64>().ok());
    }
    let mut out = String::from("n=");
    push_decimal(&mut out, u64::MAX);
    assert_eq!(out, "n=18446744073709551615");
    assert_eq!(joined("a", "b"), "ab");
}

#[test]
fn text_is_split_as_std_splits_it() {
    for s in ["", ";", "a", "a;", "a;;b", ";;", "a;b;c;"] {
        let pieces: Vec<&str> = s.split_terminator(';').collect();
        assert_eq!(split_pieces(s, ';'), pieces);
    }
}

#[test]
fn list_map_is_a_map() {
    let key = |port| SocketAddr::new(IpAddr::v4(1, 1, 1, 1), port);
    let mut map: VecMap<SocketAddr, u32> = VecMap::new();
    assert_eq!(map.insert(key(1), 10), None);
    assert_eq!(map.insert(key(2), 20), None);
    assert_eq!(map.insert(key(1), 11), Some(10));
    assert_eq!(map.len(), 2);
    assert_eq!(map.get(&key(1)), Some(&11));
    assert_eq!(map.get(&key(3)), None);
    assert_eq!(map.remove(&key(2)), Some(20));
    assert_eq!(map.remove(&key(2)), None);
    assert_eq!(map.entry(0), &(key(1), 11));
}

#[test]
fn keys_are_listed() {
    let map: HashMap<u32, char> = [(3, 'c'), (1, 'a'), (2, 'b')].into_iter().collect();
    let mut keys = keys_of(&map);
    keys.sort();
    assert_eq!(keys, vec![1, 2, 3]);
    let map: BTreeMap<u32, char> = [(3, 'c'), (1, 'a'), (2, 'b')].into_iter().collect();
    assert_eq!(sorted_keys_of(&map), vec![1, 2, 3]);
}
