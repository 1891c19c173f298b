use paper_client::response::parse_handshake;
use paper_client::{Command, PaperCacheError, PaperClientError, PaperClientResponse, PaperServerError, Reply};

const T: u8 = b'!';
const F: u8 = b'?';

fn field(data: &[u8]) -> Vec<u8> {
    let mut out = (data.len() as u32).to_le_bytes().to_vec();
    out.extend_from_slice(data);
    out
}

fn unit(buf: &[u8], at_end: bool) -> Reply<()> {
    Command::Ping.parse_stream(buf, at_end)
}

#[test]
fn unit_response() {
    assert!(matches!(unit(&[T], false), Reply::Done(Ok(()), 1)));
    assert!(matches!(unit(&[T, 1, 2], false), Reply::Done(Ok(()), 1)));
    assert!(matches!(unit(&[], false), Reply::Incomplete));
    assert!(matches!(unit(&[], true), Reply::Done(Err(PaperClientError::InvalidResponse), 0)));
    assert!(matches!(unit(&[7], false), Reply::Done(Err(PaperClientError::InvalidResponse), 1)));
}

#[test]
fn error_reports() {
    assert!(matches!(
        unit(&[F, 0, 1], false),
        Reply::Done(Err(PaperClientError::CacheError(PaperCacheError::KeyNotFound)), 3)
    ));
    assert!(matches!(
        unit(&[F, 0, 9], false),
        Reply::Done(Err(PaperClientError::CacheError(PaperCacheError::Internal)), 3)
    ));
    assert!(matches!(
        unit(&[F, 3], false),
        Reply::Done(Err(PaperClientError::ServerError(PaperServerError::Unauthorized)), 2)
    ));
    assert!(matches!(
        unit(&[F, 2], false),
        Reply::Done(Err(PaperClientError::ServerError(PaperServerError::MaxConnectionsExceeded)), 2)
    ));
    assert!(matches!(unit(&[F, 0], false), Reply::Incomplete));
    assert!(matches!(unit(&[F], false), Reply::Incomplete));
    assert!(matches!(unit(&[F, 0], true), Reply::Done(Err(PaperClientError::InvalidResponse), 2)));
    assert!(matches!(unit(&[F], true), Reply::Done(Err(PaperClientError::InvalidResponse), 1)));
}

#[test]
fn value_response() {
    let buf = [vec![T], field(b"pong")].concat();
    match Command::Ping.parse_buf_stream(&buf, false) {
        Reply::Done(Ok(v), n) => {
            assert_eq!(v.as_bytes(), b"pong");
            assert_eq!(n, buf.len());
            let text: String = v.try_into().unwrap();
            assert_eq!(text, "pong");
        },
        _ => panic!("expected a value"),
    }
    assert!(matches!(Command::Ping.parse_buf_stream(&buf[..6], false), Reply::Incomplete));
    assert!(matches!(
        Command::Ping.parse_buf_stream(&buf[..6], true),
        Reply::Done(Err(PaperClientError::InvalidResponse), 6)
    ));
    let empty = [vec![T], field(b"")].concat();
    assert!(matches!(Command::Get("k").parse_buf_stream(&empty, false), Reply::Done(Ok(_), 5)));
    assert!(matches!(
        Command::Get("k").parse_buf_stream(&[F, 0, 1], false),
        Reply::Done(Err(PaperClientError::CacheError(PaperCacheError::KeyNotFound)), 3)
    ));
}

#[test]
fn has_response() {
    assert!(matches!(Command::Has("k").parse_has_stream(&[T, T], false), Reply::Done(Ok(true), 2)));
    assert!(matches!(Command::Has("k").parse_has_stream(&[T, F], false), Reply::Done(Ok(false), 2)));
    assert!(matches!(Command::Has("k").parse_has_stream(&[T], false), Reply::Incomplete));
    assert!(matches!(
        Command::Has("k").parse_has_stream(&[T, 0], false),
        Reply::Done(Err(PaperClientError::InvalidResponse), 2)
    ));
}

#[test]
fn size_response() {
    assert!(matches!(
        Command::Size("k").parse_size_stream(&[T, 5, 0, 0, 0], false),
        Reply::Done(Ok(5), 5)
    ));
    assert!(matches!(
        Command::Size("k").parse_size_stream(&[T, 0, 1, 0, 0, 99], false),
        Reply::Done(Ok(256), 5)
    ));
    assert!(matches!(Command::Size("k").parse_size_stream(&[T, 5, 0, 0], false), Reply::Incomplete));
    assert!(matches!(
        Command::Size("k").parse_size_stream(&[T, 5, 0, 0], true),
        Reply::Done(Err(PaperClientError::InvalidResponse), 4)
    ));
}

#[test]
fn handshake() {
    assert!(matches!(parse_handshake(&[T], false), Reply::Done(Ok(()), 1)));
    assert!(matches!(parse_handshake(&[], false), Reply::Incomplete));
    assert!(matches!(parse_handshake(&[], true), Reply::Done(Err(PaperClientError::UnreachableServer), 0)));
    assert!(matches!(parse_handshake(&[1], false), Reply::Done(Err(PaperClientError::UnreachableServer), 1)));
    assert!(matches!(
        parse_handshake(&[F, 2], false),
        Reply::Done(Err(PaperClientError::ServerError(PaperServerError::MaxConnectionsExceeded)), 2)
    ));
}

#[test]
fn responses_settle_once_complete() {
    let buf = [vec![T], field(b"value")].concat();
    for cut in 0..=buf.len() {
        let early = Command::Ping.parse_buf_stream(&buf[..cut], false);
        if let Reply::Done(_, n) = early {
            assert!(n <= cut);
            let later = Command::Ping.parse_buf_stream(&buf, true);
            assert!(matches!(later, Reply::Done(Ok(_), m) if m == n));
        }
        assert!(matches!(Command::Ping.parse_buf_stream(&buf[..cut], true), Reply::Done(_, _)));
    }
    let mut longer = buf.clone();
    longer.extend_from_slice(&[1, 2, 3]);
    assert!(matches!(Command::Ping.parse_buf_stream(&longer, false), Reply::Done(Ok(_), 10)));
}

fn text_of<T: paper_client::response::BasicResponseData>(v: T) -> Vec<u8> {
    let r: PaperClientResponse<Box<[u8]>> = PaperClientResponse::new(Ok(v)).into();
    r.data().unwrap().to_vec()
}

#[test]
fn response_data_as_text() {
    assert_eq!(text_of(0u8), b"0");
    assert_eq!(text_of(205u32), b"205");
    assert_eq!(text_of(u64::MAX), u64::MAX.to_string().into_bytes());
    assert_eq!(text_of(usize::MAX), usize::MAX.to_string().into_bytes());
    assert_eq!(text_of(65535u16), b"65535");
    assert_eq!(text_of(-128i8), b"-128");
    assert_eq!(text_of(-1i16), b"-1");
    assert_eq!(text_of(i32::MIN), i32::MIN.to_string().into_bytes());
    assert_eq!(text_of(i64::MIN), i64::MIN.to_string().into_bytes());
    assert_eq!(text_of(i64::MAX), i64::MAX.to_string().into_bytes());
    assert_eq!(text_of(isize::MIN), isize::MIN.to_string().into_bytes());
    assert_eq!(text_of(10i64), b"10");
    assert_eq!(text_of(true), b"true");
    assert_eq!(text_of(false), b"false");
}

#[test]
fn response_error_text_is_kept() {
    let r: PaperClientResponse<Box<[u8]>> = PaperClientResponse::<u32>::new(Err("no".to_string())).into();
    assert!(!r.is_ok());
    assert_eq!(r.data().err(), Some("no"));
}
