use paper_client::pool::next_index;
use paper_client::session::send_error;
use paper_client::{PaperCacheError, PaperClientError, Session, Step, StreamFailure};

#[test]
fn good_response_resets_count() {
    let mut s = Session::new("127.0.0.1:3145".to_string());
    assert_eq!(s.addr(), "127.0.0.1:3145");
    assert!(matches!(s.on_response::<()>(Err(PaperClientError::InvalidResponse)), Step::Reconnect));
    assert_eq!(s.reconnect_attempts(), 1);
    assert!(matches!(s.on_response(Ok(5u32)), Step::Finish(Ok(5))));
    assert_eq!(s.reconnect_attempts(), 0);
}

#[test]
fn other_errors_finish() {
    let mut s = Session::new("h:1".to_string());
    let e = PaperClientError::CacheError(PaperCacheError::KeyNotFound);
    assert!(matches!(s.on_response::<()>(Err(e)), Step::Finish(Err(x)) if x == e));
    assert_eq!(s.reconnect_attempts(), 0);
    assert!(matches!(s.on_send_failure::<()>(PaperClientError::Disconnected), Step::Finish(Err(PaperClientError::Disconnected))));
    assert!(matches!(s.on_send_failure::<()>(PaperClientError::InvalidResponse), Step::Reconnect));
    assert_eq!(s.reconnect_attempts(), 1);
}

#[test]
fn gives_up_after_three_reconnects() {
    let mut s = Session::new("h:1".to_string());
    for n in 1..=3u8 {
        assert!(matches!(s.on_response::<()>(Err(PaperClientError::InvalidResponse)), Step::Reconnect));
        assert_eq!(s.reconnect_attempts(), n);
        assert_eq!(s.begin_reconnect(), Ok(None));
    }
    assert!(matches!(s.on_response::<()>(Err(PaperClientError::InvalidResponse)), Step::Reconnect));
    assert_eq!(s.begin_reconnect(), Err(PaperClientError::Disconnected));
}

#[test]
fn reconnect_presents_token_again() {
    let mut s = Session::new("h:1".to_string());
    s.record_auth("auth_token");
    assert_eq!(s.begin_reconnect(), Ok(Some("auth_token".to_string())));
    s.record_auth("other");
    assert_eq!(s.begin_reconnect(), Ok(Some("other".to_string())));
}

#[test]
fn send_errors() {
    assert_eq!(send_error(StreamFailure::InvalidStream), PaperClientError::Disconnected);
    assert_eq!(send_error(StreamFailure::ClosedStream), PaperClientError::InvalidCommand);
    assert_eq!(send_error(StreamFailure::InvalidData), PaperClientError::InvalidCommand);
}

#[test]
fn round_robin() {
    let mut index = 0;
    let mut seen = Vec::new();
    for _ in 0..6 {
        seen.push(index);
        index = next_index(index, 4);
    }
    assert_eq!(seen, vec![0, 1, 2, 3, 0, 1]);
    assert_eq!(next_index(0, 1), 0);
}
