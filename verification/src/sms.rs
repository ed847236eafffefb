//! Building the outbound notification request: the messaging API
//! URL, the basic-auth header, and the form-encoded body.
//!
//! Only the construction lives here — it is pure text work with an
//! exact contract. Performing the HTTP call is the surrounding
//! glue's business.

use vstd::prelude::*;
use vstd::string::StringSliceAdditionalSpecFns;
use vstd::utf8::encode_utf8;

use base64::Engine;

verus! {

/// The standard base64 encoding (with padding) of a byte sequence,
/// as the base64 crate's standard engine computes it. The result is
/// a function of the bytes alone.
pub uninterp spec fn base64_std_of(bytes: Seq<u8>) -> Seq<char>;

/// Relies on the base64 crate's `STANDARD` engine `encode`: the
/// standard alphabet with padding, four output characters for every
/// three input bytes. The input here is the UTF-8 text
/// `account_sid:auth_token`, exactly as the messaging API's
/// basic-auth scheme wants it.
#[verifier::external_body]
fn basic_auth_b64(account_sid: &str, auth_token: &str) -> (r: String)
    requires
        (account_sid@.len() + auth_token@.len() + 1) * 16 <= usize::MAX,
    ensures
        r@ == base64_std_of(
            encode_utf8(account_sid@) + encode_utf8(":"@) + encode_utf8(auth_token@),
        ),
        r@.len() == 4 * (((encode_utf8(account_sid@) + encode_utf8(":"@) + encode_utf8(
            auth_token@,
        )).len() + 2) / 3),
{
    base64::engine::general_purpose::STANDARD.encode(format!("{}:{}", account_sid, auth_token))
}

/// Whether a byte passes through URL encoding unchanged: ASCII
/// letters, digits, `-`, `.`, `_` and `~`.
pub open spec fn is_url_safe_byte(b: u8) -> bool {
    (0x30 <= b && b <= 0x39) || (0x41 <= b && b <= 0x5a) || (0x61 <= b && b <= 0x7a) || b == 0x2d
        || b == 0x2e || b == 0x5f || b == 0x7e
}

/// The uppercase hexadecimal digit for a value below 16.
pub open spec fn hex_digit_char(d: u8) -> char
    recommends
        d < 16,
{
    if d < 10 {
        ((0x30 + d) as u8) as char
    } else {
        ((0x37 + d) as u8) as char
    }
}

/// The URL encoding of one byte: itself if safe, else a percent sign
/// and two uppercase hexadecimal digits.
pub open spec fn urlenc_byte(b: u8) -> Seq<char> {
    if is_url_safe_byte(b) {
        seq![b as char]
    } else {
        seq!['%', hex_digit_char(b >> 4), hex_digit_char(b & 15)]
    }
}

/// The URL encoding of a byte sequence, byte by byte.
pub open spec fn urlencoded(bytes: Seq<u8>) -> Seq<char>
    decreases bytes.len(),
{
    if bytes.len() == 0 {
        Seq::empty()
    } else {
        urlenc_byte(bytes[0]) + urlencoded(bytes.drop_first())
    }
}

/// Relies on `urlencoding::encode`: it percent-encodes every byte of
/// the UTF-8 text except ASCII alphanumerics and `-`, `.`, `_`, `~`,
/// with uppercase hexadecimal digits.
#[verifier::external_body]
fn url_encode(data: &str) -> (r: String)
    ensures
        r@ == urlencoded(data.spec_bytes()),
{
    urlencoding::encode(data).into_owned()
}

/// One outbound notification request, ready for the HTTP glue.
pub struct SmsRequest {
    /// The messaging API endpoint for the account.
    pub url: String,
    /// The `Authorization` header value.
    pub auth_header: String,
    /// The form-encoded request body.
    pub form_body: String,
}

/// Builds the outbound notification request: the account's message
/// endpoint, a basic-auth header over `account_sid:auth_token`, and
/// a form body with the URL-encoded recipient, sender and text.
pub fn build_sms_request(
    to_phone_number: &str,
    body: &str,
    from_phone_number: &str,
    account_sid: &str,
    auth_token: &str,
) -> (r: SmsRequest)
    requires
        (account_sid@.len() + auth_token@.len() + 1) * 16 <= usize::MAX,
    ensures
        r.url@ == "https://@api.twilio.com/2010-04-01/Accounts/"@ + account_sid@
            + "/Messages.json"@,
        r.auth_header@ == "Basic "@ + base64_std_of(
            encode_utf8(account_sid@) + encode_utf8(":"@) + encode_utf8(auth_token@),
        ),
        r.form_body@ == "To="@ + urlencoded(to_phone_number.spec_bytes()) + "&From="@ + urlencoded(
            from_phone_number.spec_bytes(),
        ) + "&Body="@ + urlencoded(body.spec_bytes()),
{
    let mut url = "https://@api.twilio.com/2010-04-01/Accounts/".to_owned();
    url.append(account_sid);
    url.append("/Messages.json");

    let encoded = basic_auth_b64(account_sid, auth_token);
    let mut auth_header = "Basic ".to_owned();
    auth_header.append(encoded.as_str());

    let mut form_body = "To=".to_owned();
    let to_enc = url_encode(to_phone_number);
    form_body.append(to_enc.as_str());
    form_body.append("&From=");
    let from_enc = url_encode(from_phone_number);
    form_body.append(from_enc.as_str());
    form_body.append("&Body=");
    let body_enc = url_encode(body);
    form_body.append(body_enc.as_str());

    SmsRequest { url, auth_header, form_body }
}

/// Whether an HTTP status reports success: the two-hundreds, and
/// nothing else.
pub fn is_success_status(status: u16) -> (r: bool)
    ensures
        r == (200 <= status && status < 300),
{
    200 <= status && status < 300
}

} // verus!
