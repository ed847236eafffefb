//! Building the outbound notification request, response payloads,
//! and the error taxonomy's messages.

use esp32_laser_sms::errors::{DriverError, StorageError, ValidationError, WifiError};
use esp32_laser_sms::responses::{data, server_error, success};
use esp32_laser_sms::sms::{build_sms_request, is_success_status};

#[test]
fn request_has_account_url_auth_header_and_encoded_body() {
    let req = build_sms_request("+1", "a b", "2", "AC1", "t");
    assert_eq!(
        req.url,
        "https://@api.twilio.com/2010-04-01/Accounts/AC1/Messages.json"
    );
    // base64 of "AC1:t".
    assert_eq!(req.auth_header, "Basic QUMxOnQ=");
    assert_eq!(req.form_body, "To=%2B1&From=2&Body=a%20b");
}

#[test]
fn body_encoding_keeps_safe_bytes_and_escapes_the_rest() {
    let req = build_sms_request("Az0-._~", "x&y=z", "100%", "AC", "");
    assert_eq!(
        req.form_body,
        "To=Az0-._~&From=100%25&Body=x%26y%3Dz"
    );
    // base64 of "AC:".
    assert_eq!(req.auth_header, "Basic QUM6");
}

#[test]
fn multibyte_text_is_percent_encoded_bytewise() {
    let req = build_sms_request("+1", "é", "2", "AC", "t");
    assert_eq!(req.form_body, "To=%2B1&From=2&Body=%C3%A9");
}

#[test]
fn success_statuses_are_the_two_hundreds() {
    assert!(!is_success_status(199));
    assert!(is_success_status(200));
    assert!(is_success_status(299));
    assert!(!is_success_status(300));
    assert!(!is_success_status(404));
}

#[test]
fn response_payloads_carry_their_contents() {
    assert_eq!(server_error("boom").message(), "boom");
    assert_eq!(success("done").message(), "done");
    assert_eq!(*data(41u32).data(), 41);
    assert_eq!(data("text").data(), &"text");
}

#[test]
fn error_messages_name_their_kind() {
    assert_eq!(StorageError::Io.message(), "storage i/o failure");
    assert_eq!(StorageError::Encode.message(), "storage encode failure");
    assert_eq!(DriverError::AssociationFailed.message(), "association failed");
    assert_eq!(ValidationError::SsidTooLong.message(), "ssid too long");
    assert_eq!(ValidationError::PskTooLong.message(), "psk too long");
    assert_eq!(
        WifiError::Driver(DriverError::AssociationFailed).message(),
        "association failed"
    );
    assert_eq!(
        WifiError::Validation(ValidationError::PskTooLong).message(),
        "psk too long"
    );
    assert_eq!(WifiError::Storage(StorageError::Io).message(), "storage i/o failure");
}
