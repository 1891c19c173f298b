use paper_client::response::parse_handshake;
use paper_client::{
    Command, PaperCacheError, PaperClientError, PaperPolicy, PaperServerError, PaperValue, Reply,
};

fn error_of<T>(r: Reply<T>) -> Option<(PaperClientError, usize)> {
    match r {
        Reply::Done(Err(e), n) => Some((e, n)),
        _ => None,
    }
}

#[test]
fn refusals_are_reported_by_every_response() {
    let cases: [(&[u8], PaperClientError); 3] = [
        (&[b'?', 0, 1], PaperClientError::CacheError(PaperCacheError::KeyNotFound)),
        (&[b'?', 0, 6], PaperClientError::CacheError(PaperCacheError::InvalidPolicy)),
        (&[b'?', 3], PaperClientError::ServerError(PaperServerError::Unauthorized)),
    ];
    for (buf, e) in cases {
        let expected = Some((e, buf.len()));
        let c = Command::Ping;
        assert_eq!(error_of(c.parse_stream(buf, false)), expected);
        assert_eq!(error_of(c.parse_buf_stream(buf, false)), expected);
        assert_eq!(error_of(c.parse_has_stream(buf, false)), expected);
        assert_eq!(error_of(c.parse_size_stream(buf, true)), expected);
        assert_eq!(error_of(c.parse_status_stream(buf, false)), expected);
        assert_eq!(error_of(c.parse_stats_stream(buf, true)), expected);
        assert_eq!(error_of(parse_handshake(buf, false)), expected);
    }
}

#[test]
fn stored_value_reads_back() {
    let value = b"the value".to_vec();
    let command = Command::Store("key", PaperValue::from(value.clone()), 7);
    let sheet = command.to_sheet();
    let bytes = sheet.serialize();
    let start = 1 + 4 + 3;
    let field = &bytes[start..start + 4 + value.len()];
    let mut response = vec![b'!'];
    response.extend_from_slice(field);
    match Command::Get("key").parse_buf_stream(&response, false) {
        Reply::Done(Ok(v), n) => {
            assert_eq!(v.as_bytes(), value.as_slice());
            assert_eq!(n, 5 + value.len());
        },
        _ => panic!("expected the value"),
    }
}

#[test]
fn policy_set_is_policy_reported() {
    for policy in [PaperPolicy::Fifo, PaperPolicy::Lfu, PaperPolicy::TwoQ("0.1".into(), "0.9".into())] {
        let sheet = Command::Policy(policy.clone()).to_sheet();
        let request = sheet.serialize();
        let field = &request[1..];
        let mut response = vec![b'!'];
        for v in [1u64, 2, 3, 4, 5, 6, 7] {
            response.extend_from_slice(&v.to_le_bytes());
        }
        response.extend_from_slice(field);
        response.push(b'?');
        response.extend_from_slice(&0u64.to_le_bytes());
        match Command::Status.parse_stats_stream(&response, false) {
            Reply::Done(Ok(stats), _) => assert_eq!(stats.get_policy(), &policy),
            _ => panic!("expected statistics"),
        }
    }
}

#[test]
fn resize_reported_back() {
    let size: u64 = 20 * 1024u64.pow(2);
    let sheet = Command::Resize(size).to_sheet();
    let request = sheet.serialize();
    let mut response = vec![b'!'];
    response.extend_from_slice(&request[1..]);
    for v in [0u64, 0, 0, 0, 0, 0] {
        response.extend_from_slice(&v.to_le_bytes());
    }
    response.extend_from_slice(&3u32.to_le_bytes());
    response.extend_from_slice(b"lru");
    response.push(b'?');
    response.extend_from_slice(&0u64.to_le_bytes());
    match Command::Status.parse_stats_stream(&response, false) {
        Reply::Done(Ok(stats), _) => assert_eq!(stats.get_max_size(), size),
        _ => panic!("expected statistics"),
    }
}

#[test]
fn end_of_stream_completes_every_response() {
    let bufs: [&[u8]; 4] = [&[], &[b'!'], &[b'!', 1, 0], &[b'?', 0]];
    for buf in bufs {
        let c = Command::Ping;
        assert!(matches!(c.parse_stream(buf, true), Reply::Done(_, _)));
        assert!(matches!(c.parse_buf_stream(buf, true), Reply::Done(_, _)));
        assert!(matches!(c.parse_has_stream(buf, true), Reply::Done(_, _)));
        assert!(matches!(c.parse_size_stream(buf, true), Reply::Done(_, _)));
        assert!(matches!(c.parse_status_stream(buf, true), Reply::Done(_, _)));
        assert!(matches!(c.parse_stats_stream(buf, true), Reply::Done(_, _)));
        assert!(matches!(parse_handshake(buf, true), Reply::Done(_, _)));
    }
}
