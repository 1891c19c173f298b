use paper_client::{FromPaperAddr, PaperClientError};

#[test]
fn address_without_scheme_is_invalid() {
    assert_eq!("127.0.0.1:3145".to_addr(), Err(PaperClientError::InvalidAddress));
    assert_eq!("".to_addr(), Err(PaperClientError::InvalidAddress));
    assert_eq!("paper:/127.0.0.1:3145".to_addr(), Err(PaperClientError::InvalidAddress));
    assert_eq!("http://paper://x".to_addr(), Err(PaperClientError::InvalidAddress));
}

#[test]
fn address_scheme_is_removed() {
    assert_eq!("paper://127.0.0.1:3145".to_addr(), Ok("127.0.0.1:3145".to_string()));
    assert_eq!("paper://".to_addr(), Ok(String::new()));
    let owned = String::from("paper://localhost:3145");
    assert_eq!(owned.to_addr(), Ok("localhost:3145".to_string()));
    assert_eq!((&owned).to_addr(), Ok("localhost:3145".to_string()));
}

#[test]
fn every_scheme_occurrence_is_removed() {
    assert_eq!("paper://a.paper://b".to_addr(), Ok("a.b".to_string()));
    assert_eq!("paper://paper://".to_addr(), Ok(String::new()));
    assert_eq!("paper://papér://x".to_addr(), Ok("papér://x".to_string()));
}
