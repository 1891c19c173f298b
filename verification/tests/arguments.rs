use paper_client::{AsPaperAuthToken, AsPaperKey};

#[test]
fn keys_and_tokens_pass_through() {
    assert_eq!("key".as_paper_key(), "key");
    let owned = String::from("other");
    assert_eq!(owned.as_paper_key(), "other");
    assert_eq!((&owned).as_paper_key(), "other");
    assert_eq!("auth_token".as_paper_auth_token(), "auth_token");
    assert_eq!(owned.as_paper_auth_token(), "other");
    assert_eq!((&owned).as_paper_auth_token(), "other");
}
