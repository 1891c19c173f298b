use paper_client::{PaperCacheError, PaperClientError, PaperServerError};

#[test]
fn server_error_codes() {
    assert_eq!(PaperServerError::from_code(2), PaperServerError::MaxConnectionsExceeded);
    assert_eq!(PaperServerError::from_code(3), PaperServerError::Unauthorized);
    assert_eq!(PaperServerError::from_code(1), PaperServerError::Internal);
    assert_eq!(PaperServerError::from_code(0), PaperServerError::Internal);
    assert_eq!(PaperServerError::from_code(255), PaperServerError::Internal);
}

#[test]
fn cache_error_codes() {
    assert_eq!(PaperCacheError::from_code(1), PaperCacheError::KeyNotFound);
    assert_eq!(PaperCacheError::from_code(2), PaperCacheError::ZeroValueSize);
    assert_eq!(PaperCacheError::from_code(3), PaperCacheError::ExceedingValueSize);
    assert_eq!(PaperCacheError::from_code(4), PaperCacheError::ZeroCacheSize);
    assert_eq!(PaperCacheError::from_code(5), PaperCacheError::UnconfiguredPolicy);
    assert_eq!(PaperCacheError::from_code(6), PaperCacheError::InvalidPolicy);
    assert_eq!(PaperCacheError::from_code(0), PaperCacheError::Internal);
    assert_eq!(PaperCacheError::from_code(7), PaperCacheError::Internal);
}

#[test]
fn client_error_from_parts() {
    let e: PaperClientError = PaperServerError::Unauthorized.into();
    assert_eq!(e, PaperClientError::ServerError(PaperServerError::Unauthorized));
    let e: PaperClientError = PaperCacheError::KeyNotFound.into();
    assert_eq!(e, PaperClientError::CacheError(PaperCacheError::KeyNotFound));
}
