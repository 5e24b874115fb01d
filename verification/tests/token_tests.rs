use anup::err::Error;
use anup::remote::AccessToken;

#[test]
fn token_round_trip() {
    let token = AccessToken::encode("test".as_bytes());
    assert_eq!(token.decode().unwrap(), "test".as_bytes());
}

#[test]
fn token_round_trip_arbitrary_bytes() {
    let raw: Vec<u8> = (0..=255u8).collect();
    let token = AccessToken::encode(raw.as_slice());
    assert_eq!(token.decode().unwrap(), raw);
}

#[test]
fn token_round_trip_empty() {
    let token = AccessToken::encode(&[]);
    assert_eq!(token.decode().unwrap(), Vec::<u8>::new());
    assert_eq!(token.as_encoded().as_str(), "");
}

#[test]
fn token_is_stored_encoded() {
    let token = AccessToken::encode("hello world".as_bytes());
    assert_eq!(token.as_encoded().as_str(), "aGVsbG8gd29ybGQ=");
}

#[test]
fn stored_token_decodes_after_reload() {
    let token = AccessToken::encode("SECRET-REDACTED".as_bytes());
    let reloaded = AccessToken::from_encoded(token.as_encoded().clone());
    assert_eq!(reloaded.decode().unwrap(), "SECRET-REDACTED".as_bytes());
}

#[test]
fn invalid_base64_fails_to_decode() {
    let token = AccessToken::from_encoded(String::from("!!!not base64!!!"));
    assert!(matches!(token.decode(), Err(Error::Base64Decode)));
}
