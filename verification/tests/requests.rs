use paper_client::{Command, PaperPolicy, PaperValue};

fn bytes_of(command: &Command) -> Vec<u8> {
    let sheet = command.to_sheet();
    sheet.serialize().to_vec()
}

fn field(text: &str) -> Vec<u8> {
    let mut out = (text.len() as u32).to_le_bytes().to_vec();
    out.extend_from_slice(text.as_bytes());
    out
}

#[test]
fn requests_without_arguments() {
    assert_eq!(bytes_of(&Command::Ping), vec![0]);
    assert_eq!(bytes_of(&Command::Version), vec![1]);
    assert_eq!(bytes_of(&Command::Wipe), vec![10]);
    assert_eq!(bytes_of(&Command::Status), vec![13]);
}

#[test]
fn requests_with_a_key() {
    assert_eq!(bytes_of(&Command::Auth("auth_token")), [vec![2], field("auth_token")].concat());
    assert_eq!(bytes_of(&Command::Get("key")), vec![3, 3, 0, 0, 0, b'k', b'e', b'y']);
    assert_eq!(bytes_of(&Command::Del("key")), [vec![5], field("key")].concat());
    assert_eq!(bytes_of(&Command::Has("key")), [vec![6], field("key")].concat());
    assert_eq!(bytes_of(&Command::Peek("key")), [vec![7], field("key")].concat());
    assert_eq!(bytes_of(&Command::Size("key")), [vec![9], field("key")].concat());
    assert_eq!(bytes_of(&Command::Get("é")), vec![3, 2, 0, 0, 0, 0xc3, 0xa9]);
}

#[test]
fn store_request() {
    let command = Command::Store("key", PaperValue::from("value"), 0);
    assert_eq!(
        bytes_of(&command),
        [vec![4], field("key"), field("value"), vec![0, 0, 0, 0]].concat()
    );
    let command = Command::Store("k", PaperValue::from(vec![9u8]), 0x01020304);
    assert_eq!(bytes_of(&command), vec![4, 1, 0, 0, 0, b'k', 1, 0, 0, 0, 9, 4, 3, 2, 1]);
}

#[test]
fn numeric_requests() {
    assert_eq!(bytes_of(&Command::Ttl("key", 5)), [vec![8], field("key"), vec![5, 0, 0, 0]].concat());
    let size: u64 = 10 * 1024u64.pow(2);
    assert_eq!(bytes_of(&Command::Resize(size)), [vec![11], size.to_le_bytes().to_vec()].concat());
    assert_eq!(
        bytes_of(&Command::Resize(u64::MAX)),
        vec![11, 255, 255, 255, 255, 255, 255, 255, 255]
    );
}

#[test]
fn policy_request() {
    assert_eq!(bytes_of(&Command::Policy(PaperPolicy::Lru)), [vec![12], field("lru")].concat());
    let two_q = PaperPolicy::TwoQ("0.25".to_string(), "0.5".to_string());
    assert_eq!(bytes_of(&Command::Policy(two_q)), [vec![12], field("2q-0.25-0.5")].concat());
}
