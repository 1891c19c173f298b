use paper_client::{Command, PaperClientError, PaperPolicy, Reply, Stats, Status};

fn field(data: &[u8]) -> Vec<u8> {
    let mut out = (data.len() as u32).to_le_bytes().to_vec();
    out.extend_from_slice(data);
    out
}

fn status_bytes(policy: &str) -> Vec<u8> {
    let mut b = vec![b'!'];
    b.extend_from_slice(&42u32.to_le_bytes());
    for v in [1000u64, 500, 10, 300, 400, 1, 2, 3] {
        b.extend_from_slice(&v.to_le_bytes());
    }
    b.extend_from_slice(&0.25f64.to_bits().to_le_bytes());
    b.extend_from_slice(&2u32.to_le_bytes());
    b.extend(field(b"lfu"));
    b.extend(field(b"2q-0.25-0.5"));
    b.extend(field(policy.as_bytes()));
    b.push(b'?');
    b.extend_from_slice(&77u64.to_le_bytes());
    b
}

#[test]
fn status_response() {
    let buf = status_bytes("lfu");
    match Command::Status.parse_status_stream(&buf, false) {
        Reply::Done(Ok(s), n) => {
            assert_eq!(n, buf.len());
            assert_eq!(s.pid(), 42);
            assert_eq!(s.max_size(), 1000);
            assert_eq!(s.used_size(), 500);
            assert_eq!(s.num_objects(), 10);
            assert_eq!(s.rss(), 300);
            assert_eq!(s.hwm(), 400);
            assert_eq!(s.total_gets(), 1);
            assert_eq!(s.total_sets(), 2);
            assert_eq!(s.total_dels(), 3);
            assert_eq!(f64::from_bits(s.miss_ratio_bits()), 0.25);
            assert_eq!(
                s.policies(),
                &[PaperPolicy::Lfu, PaperPolicy::TwoQ("0.25".to_string(), "0.5".to_string())]
            );
            assert_eq!(s.policy(), &PaperPolicy::Lfu);
            assert!(!s.is_auto_policy());
            assert_eq!(s.uptime(), 77);
        },
        _ => panic!("expected a status"),
    }
    for cut in 0..buf.len() {
        assert!(matches!(Command::Status.parse_status_stream(&buf[..cut], false), Reply::Incomplete));
    }
}

#[test]
fn status_with_unknown_policy_is_invalid() {
    let buf = status_bytes("nope");
    assert!(matches!(
        Command::Status.parse_status_stream(&buf, false),
        Reply::Done(Err(PaperClientError::InvalidResponse), _)
    ));
}

fn stats_bytes(policy: &str, auto: bool) -> Vec<u8> {
    let mut b = vec![b'!'];
    for v in [1000u64, 500, 10, 1, 2, 3] {
        b.extend_from_slice(&v.to_le_bytes());
    }
    b.extend_from_slice(&1.0f64.to_bits().to_le_bytes());
    b.extend(field(policy.as_bytes()));
    b.push(if auto { b'!' } else { b'?' });
    b.extend_from_slice(&5u64.to_le_bytes());
    b
}

#[test]
fn stats_response() {
    let buf = stats_bytes("lru", true);
    match Command::Status.parse_stats_stream(&buf, false) {
        Reply::Done(Ok(s), n) => {
            assert_eq!(n, buf.len());
            assert_eq!(s.get_max_size(), 1000);
            assert_eq!(s.get_used_size(), 500);
            assert_eq!(s.get_num_objects(), 10);
            assert_eq!(s.get_total_gets(), 1);
            assert_eq!(s.get_total_sets(), 2);
            assert_eq!(s.get_total_dels(), 3);
            assert_eq!(f64::from_bits(s.get_miss_ratio_bits()), 1.0);
            assert_eq!(s.get_policy(), &PaperPolicy::Lru);
            assert!(s.get_policies().is_empty());
            assert!(s.is_auto_policy());
            assert_eq!(s.get_uptime(), 5);
        },
        _ => panic!("expected statistics"),
    }
}

#[test]
fn stats_policy_is_read_last() {
    let buf = stats_bytes("nope", false);
    assert!(matches!(
        Command::Status.parse_stats_stream(&buf, false),
        Reply::Done(Err(PaperClientError::InvalidResponse), n) if n == buf.len()
    ));
    assert!(matches!(Command::Status.parse_stats_stream(&buf[..buf.len() - 1], false), Reply::Incomplete));
}

fn lru_stats(max: u64, used: u64, objects: u64, gets: u64, sets: u64, dels: u64, miss: f64, auto: bool, uptime: u64) -> Stats {
    Stats::new(max, used, objects, gets, sets, dels, miss.to_bits(), vec![PaperPolicy::Lru], PaperPolicy::Lru, auto, uptime)
}

#[test]
fn stats_getters() {
    assert_eq!(lru_stats(1000, 0, 0, 0, 0, 0, 0.0, false, 0).get_max_size(), 1000);
    assert_eq!(lru_stats(1000, 500, 0, 0, 0, 0, 0.0, false, 0).get_used_size(), 500);
    assert_eq!(lru_stats(1000, 500, 10, 0, 0, 0, 0.0, false, 0).get_num_objects(), 10);
    assert_eq!(lru_stats(0, 0, 0, 10, 0, 0, 0.0, false, 0).get_total_gets(), 10);
    assert_eq!(lru_stats(0, 0, 0, 0, 10, 0, 0.0, false, 0).get_total_sets(), 10);
    assert_eq!(lru_stats(0, 0, 0, 0, 0, 10, 0.0, false, 0).get_total_dels(), 10);
    assert_eq!(f64::from_bits(lru_stats(0, 0, 0, 0, 0, 0, 1.0, false, 0).get_miss_ratio_bits()), 1.0);
    assert_eq!(lru_stats(0, 0, 0, 0, 0, 0, 0.0, false, 0).get_policies(), &[PaperPolicy::Lru]);
    assert_eq!(lru_stats(0, 0, 0, 0, 0, 0, 0.0, false, 0).get_policy(), &PaperPolicy::Lru);
    assert!(lru_stats(0, 0, 0, 0, 0, 0, 0.0, true, 0).is_auto_policy());
    assert_eq!(lru_stats(0, 0, 0, 0, 0, 0, 0.0, false, 1).get_uptime(), 1);
}

#[test]
fn status_getters() {
    let s = Status::new(7, 1, 2, 3, 4, 5, 6, 8, 9, 0.5f64.to_bits(), vec![PaperPolicy::Auto], PaperPolicy::Mru, true, 11);
    assert_eq!(s.pid(), 7);
    assert_eq!(s.max_size(), 1);
    assert_eq!(s.used_size(), 2);
    assert_eq!(s.num_objects(), 3);
    assert_eq!(s.rss(), 4);
    assert_eq!(s.hwm(), 5);
    assert_eq!(s.total_gets(), 6);
    assert_eq!(s.total_sets(), 8);
    assert_eq!(s.total_dels(), 9);
    assert_eq!(f64::from_bits(s.miss_ratio_bits()), 0.5);
    assert_eq!(s.policies(), &[PaperPolicy::Auto]);
    assert_eq!(s.policy(), &PaperPolicy::Mru);
    assert!(s.is_auto_policy());
    assert_eq!(s.uptime(), 11);
}

#[test]
fn reports_with_non_numeric_two_q_are_invalid() {
    let buf = status_bytes("2q-a-b");
    assert!(matches!(
        Command::Status.parse_status_stream(&buf, false),
        Reply::Done(Err(PaperClientError::InvalidResponse), _)
    ));
    let buf = stats_bytes("2q-a-b", false);
    assert!(matches!(
        Command::Status.parse_stats_stream(&buf, false),
        Reply::Done(Err(PaperClientError::InvalidResponse), _)
    ));
    let buf = stats_bytes("2q-0.1-0.9", false);
    assert!(matches!(Command::Status.parse_stats_stream(&buf, false), Reply::Done(Ok(_), _)));
}
