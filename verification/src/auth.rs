//! Username and password as returned by the chat server's auth endpoints:
//! the username is the lowercase hexadecimal of the account uid, the
//! password is `"timestamp:hex(otp)"` where the one-time password is the
//! first twenty hexadecimal digits of an HMAC-SHA-256 over
//! `"username:timestamp"` under the caller's secret.

use vstd::prelude::*;

use crate::crypto::hmac_sha256;
use crate::crypto::hmac_sha256_of;
use crate::textfmt::ascii_bytes;
use crate::textfmt::dec_of;
use crate::textfmt::decimal_string;
use crate::textfmt::hex_encode;
use crate::textfmt::hex_of;
use crate::textfmt::lemma_hex_of_len;
use crate::textfmt::push_decimal_ascii;

verus! {

/// Credentials for HTTP basic authentication.
pub trait HttpBasicAuth {
    fn username(&self) -> &str;

    fn password(&self) -> &str;
}

/// Length, in characters, of the rendered one-time password.
pub const OTP_LEN: usize = 20;

/// A username/password pair for the chat server.
#[derive(Clone)]
pub struct Auth {
    pub username: String,
    pub password: String,
}

/// The one-time password line for `username` at second `now_secs`: the
/// timestamp, a colon, and the first twenty lowercase hexadecimal digits of
/// the HMAC-SHA-256 of `"username:timestamp"` under `secret`.  The MAC input
/// is the UTF-8 bytes of the username, the colon byte, and the ASCII digits
/// of the timestamp.
pub open spec fn spec_otp(username: Seq<char>, secret: Seq<u8>, now_secs: u64) -> Seq<char> {
    let stamp = dec_of(now_secs as nat);
    let msg = vstd::utf8::encode_utf8(username) + seq![58u8] + ascii_bytes(stamp);
    stamp + ":"@ + hex_of(hmac_sha256_of(secret, msg)).take(OTP_LEN as int)
}

/// Relies on std::time::SystemTime::now and duration_since(UNIX_EPOCH): the
/// seconds since the Unix epoch, or zero should the clock stand before it.
/// The value depends on the machine's clock, so nothing is promised of it.
#[verifier::external_body]
fn now_unix_secs() -> u64 {
    std::time::SystemTime::now()
        .duration_since(std::time::SystemTime::UNIX_EPOCH)
        .map(|d| d.as_secs())
        .unwrap_or(0)
}

impl Auth {
    /// Renders the one-time password line for `username` at `now_secs`.
    pub fn otp(username: &str, secret: &[u8], now_secs: u64) -> (r: String)
        ensures
            r@ == spec_otp(username@, secret@, now_secs),
    {
        let mut msg: Vec<u8> = Vec::new();
        crate::kdf::push_all(&mut msg, username.as_bytes());
        msg.push(58u8);
        push_decimal_ascii(&mut msg, now_secs);
        proof {
            assert(msg@ =~= vstd::utf8::encode_utf8(username@) + seq![58u8] + ascii_bytes(
                dec_of(now_secs as nat),
            ));
        }
        let digest = hmac_sha256(secret, msg.as_slice());
        let khex = hex_encode(digest.as_slice());
        proof {
            lemma_hex_of_len(digest@);
        }
        let prefix = khex.as_str().substring_ascii(0, OTP_LEN);
        let mut pw = decimal_string(now_secs);
        pw.append(":");
        pw.append(prefix);
        proof {
            assert(khex@.subrange(0, OTP_LEN as int) =~= hex_of(
                hmac_sha256_of(secret@, msg@),
            ).take(OTP_LEN as int));
            assert(pw@ =~= spec_otp(username@, secret@, now_secs));
        }
        pw
    }

    /// Builds credentials for the account `uid` under `secret`: the username
    /// is the hexadecimal of the uid, the password the one-time password
    /// line for the clock's current second.
    pub fn from_uid_and_secret(uid: [u8; 16], secret: [u8; 32]) -> (r: Auth)
        ensures
            r.username@ == hex_of(uid@),
            exists|ts: u64| r.password@ == spec_otp(hex_of(uid@), secret@, ts),
    {
        let username = hex_encode(uid.as_slice());
        let now = now_unix_secs();
        let password = Self::otp(username.as_str(), secret.as_slice(), now);
        proof {
            assert(password@ == spec_otp(hex_of(uid@), secret@, now));
        }
        Auth { username, password }
    }
}

impl HttpBasicAuth for Auth {
    fn username(&self) -> &str {
        self.username.as_str()
    }

    fn password(&self) -> &str {
        self.password.as_str()
    }
}

} // verus!
