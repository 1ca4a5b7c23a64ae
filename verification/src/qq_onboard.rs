//! QQ bot onboarding by QR code: the bind key, the answers of the portal
//! read into outcomes, the decryption of the bot secret, and the steps of
//! the scan-and-wait loop. The HTTP calls, the printing and the waiting stay
//! with the caller.

use vstd::prelude::*;

use aes_gcm::aead::Aead;
use aes_gcm::KeyInit;
use base64::Engine;

use crate::entropy::random_bytes;
use crate::platform::push_str;
use crate::text::{push_decimal, push_signed_decimal, signed_decimal};

verus! {

/// Times a fresh QR code may be asked for.
pub const MAX_REFRESHES: usize = 3;

/// Bytes of the bind key.
pub const BIND_KEY_BYTES: usize = 32;

/// Scan status: waiting for the scan.
pub const STATUS_WAITING: i32 = 0;

/// Scan status: scanned, waiting for confirmation.
pub const STATUS_SCANNED: i32 = 1;

/// Scan status: complete.
pub const STATUS_COMPLETE: i32 = 2;

/// Scan status: cancelled or expired.
pub const STATUS_CANCELLED: i32 = 3;

/// The outcome of a completed onboarding.
#[derive(Debug)]
pub struct QQOnboardResult {
    pub app_id: String,
    pub client_secret: String,
    pub user_openid: Option<String>,
}

/// The character of a 6-bit value in the standard base64 alphabet.
pub open spec fn b64_char(v: int) -> char {
    if v < 26 {
        ('A' as int + v) as char
    } else if v < 52 {
        ('a' as int + (v - 26)) as char
    } else if v < 62 {
        ('0' as int + (v - 52)) as char
    } else if v == 62 {
        '+'
    } else {
        '/'
    }
}

/// Standard base64 with padding: every three bytes become four characters
/// of six bits each; a last group of one or two bytes is filled with zero
/// bits and padded with `=` to four characters.
pub open spec fn base64_encoded(b: Seq<u8>) -> Seq<char>
    decreases b.len(),
{
    if b.len() == 0 {
        seq![]
    } else if b.len() == 1 {
        let x = b[0] as int;
        seq![b64_char(x / 4), b64_char((x % 4) * 16), '=', '=']
    } else if b.len() == 2 {
        let x = b[0] as int;
        let y = b[1] as int;
        seq![b64_char(x / 4), b64_char((x % 4) * 16 + y / 16), b64_char((y % 16) * 4), '=']
    } else {
        let x = b[0] as int;
        let y = b[1] as int;
        let z = b[2] as int;
        seq![b64_char(x / 4), b64_char((x % 4) * 16 + y / 16), b64_char((y % 16) * 4 + z / 64), b64_char(z % 64)]
            + base64_encoded(b.skip(3))
    }
}

/// What the standard engine decodes a text to: it accepts exactly the
/// canonical encodings (padding required, no stray bits in the last
/// character, nothing outside the alphabet), and gives the bytes encoded.
pub open spec fn base64_decoded(s: Seq<char>) -> Option<Seq<u8>> {
    if exists|b: Seq<u8>| #[trigger] base64_encoded(b) == s {
        Some(choose|b: Seq<u8>| #[trigger] base64_encoded(b) == s)
    } else {
        None
    }
}

/// What AES-256-GCM opening of `sealed` (ciphertext and tag) under `key`
/// and nonce `iv` gives (`None` when the tag does not match).
pub uninterp spec fn gcm_opened(key: Seq<u8>, iv: Seq<u8>, sealed: Seq<u8>) -> Option<Seq<u8>>;

/// The text that bytes hold as UTF-8 (`None` when they are not UTF-8).
pub uninterp spec fn utf8_text(b: Seq<u8>) -> Option<Seq<char>>;

/// Calls `base64::engine::general_purpose::STANDARD.decode`, whose
/// configuration requires canonical padding and refuses trailing bits, so
/// that it accepts a text exactly when it is the encoding of some bytes.
/// On refusal the error's text is returned; that text is not described.
#[verifier::external_body]
fn base64_decode(s: &str) -> (r: Result<Vec<u8>, String>)
    ensures
        match r {
            Ok(b) => base64_decoded(s@) == Some(b@),
            Err(_) => base64_decoded(s@) is None,
        },
{
    base64::engine::general_purpose::STANDARD.decode(s).map_err(|e| e.to_string())
}

/// Calls `base64::engine::general_purpose::STANDARD.encode` (standard
/// alphabet, with padding).
#[verifier::external_body]
fn base64_encode(b: &[u8]) -> (s: String)
    ensures
        s@ == base64_encoded(b@),
{
    base64::engine::general_purpose::STANDARD.encode(b)
}

/// Calls `Aes256Gcm::new_from_slice` (which refuses only a key that is not
/// 32 bytes, ruled out by `requires`) and `Aead::decrypt` with the 12-byte
/// nonce.
#[verifier::external_body]
fn aes256gcm_open(key: &[u8], iv: &[u8], sealed: &[u8]) -> (r: Option<Vec<u8>>)
    requires
        key@.len() == 32,
        iv@.len() == 12,
    ensures
        match r {
            Some(p) => gcm_opened(key@, iv@, sealed@) == Some(p@),
            None => gcm_opened(key@, iv@, sealed@) is None,
        },
{
    let cipher = aes_gcm::Aes256Gcm::new_from_slice(key).ok()?;
    cipher.decrypt(aes_gcm::Nonce::from_slice(iv), sealed).ok()
}

/// Calls `String::from_utf8`. On refusal the error's text is returned;
/// that text is not described.
#[verifier::external_body]
fn utf8_decode(b: Vec<u8>) -> (r: Result<String, String>)
    ensures
        match r {
            Ok(s) => utf8_text(b@) == Some(s@),
            Err(_) => utf8_text(b@) is None,
        },
{
    String::from_utf8(b).map_err(|e| e.to_string())
}

/// A fresh bind key: 32 random bytes, base64-encoded.
pub fn new_bind_key() -> (k: String)
    ensures
        exists|b: Seq<u8>| b.len() == BIND_KEY_BYTES && k@ == base64_encoded(b),
{
    let b = random_bytes(BIND_KEY_BYTES);
    base64_encode(b.as_slice())
}

/// What decrypting the bot secret gives: the plain text of the sealed
/// bytes (after a 12-byte nonce) under the key, or why not.
pub open spec fn secret_outcome(encrypted_b64: Seq<char>, key_b64: Seq<char>) -> Option<Seq<char>> {
    match base64_decoded(key_b64) {
        None => None,
        Some(key) => match base64_decoded(encrypted_b64) {
            None => None,
            Some(raw) => if raw.len() < 29 || key.len() != 32 {
                None
            } else {
                match gcm_opened(key, raw.take(12), raw.skip(12)) {
                    None => None,
                    Some(p) => utf8_text(p),
                }
            },
        },
    }
}

/// Decrypts the bot secret: both texts are base64; the secret is a
/// 12-byte nonce followed by the AES-256-GCM ciphertext and tag (at least
/// 29 bytes in all) and its plain text must be UTF-8.
pub fn decrypt_secret(encrypted_b64: &str, key_b64: &str) -> (r: Result<String, String>)
    ensures
        match r {
            Ok(s) => secret_outcome(encrypted_b64@, key_b64@) == Some(s@),
            Err(_) => secret_outcome(encrypted_b64@, key_b64@) is None,
        },
{
    let key = base64_decode(key_b64)?;
    let raw = base64_decode(encrypted_b64)?;
    if raw.len() < 29 {
        let mut e = "Encrypted secret too short: ".to_owned();
        push_decimal(&mut e, raw.len() as u64);
        push_str(&mut e, " bytes");
        return Err(e);
    }
    if key.len() != 32 {
        return Err("Bad AES key".to_owned());
    }
    let mut iv: Vec<u8> = Vec::new();
    let mut sealed: Vec<u8> = Vec::new();
    let mut i: usize = 0;
    while i < raw.len()
        invariant
            i <= raw@.len(),
            raw@.len() >= 29,
            i <= 12 ==> iv@ == raw@.take(i as int) && sealed@.len() == 0,
            i > 12 ==> iv@ == raw@.take(12) && sealed@ == raw@.subrange(12, i as int),
        decreases raw.len() - i,
    {
        if i < 12 {
            iv.push(raw[i]);
            proof {
                assert(iv@ =~= raw@.take(i + 1));
            }
        } else {
            sealed.push(raw[i]);
            proof {
                assert(sealed@ =~= raw@.subrange(12, i + 1));
            }
        }
        i = i + 1;
    }
    proof {
        assert(sealed@ =~= raw@.skip(12));
    }
    let plain = match aes256gcm_open(key.as_slice(), iv.as_slice(), sealed.as_slice()) {
        Some(p) => p,
        None => return Err("AES-GCM decrypt failed: aead::Error".to_owned()),
    };
    match utf8_decode(plain) {
        Ok(s) => Ok(s),
        Err(e) => {
            let mut m = "Not valid UTF-8: ".to_owned();
            push_str(&mut m, e.as_str());
            Err(m)
        },
    }
}

/// The page a phone opens to bind the bot for a task.
pub fn build_qr_url(task_id: &str) -> (r: String)
    ensures
        r@ == "https://q.qq.com/qqbot/openclaw/connect.html?task_id="@ + task_id@
            + "&_wv=2&source=obenmatrix"@,
{
    let mut r = "https://q.qq.com/qqbot/openclaw/connect.html?task_id=".to_owned();
    push_str(&mut r, task_id);
    push_str(&mut r, "&_wv=2&source=obenmatrix");
    r
}

/// What the user is told of a scan status.
pub open spec fn status_message(status: i32) -> Seq<char> {
    if status == STATUS_WAITING {
        "Waiting for scan..."@
    } else if status == STATUS_SCANNED {
        "QR scanned, confirm on phone"@
    } else if status == STATUS_COMPLETE {
        "Complete!"@
    } else if status == STATUS_CANCELLED {
        "Cancelled"@
    } else {
        "Unknown status"@
    }
}

/// What the user is told of a scan status.
pub fn scan_status_message(status: i32) -> (r: &'static str)
    ensures
        r@ == status_message(status),
{
    if status == STATUS_WAITING {
        "Waiting for scan..."
    } else if status == STATUS_SCANNED {
        "QR scanned, confirm on phone"
    } else if status == STATUS_COMPLETE {
        "Complete!"
    } else if status == STATUS_CANCELLED {
        "Cancelled"
    } else {
        "Unknown status"
    }
}

/// Reads the portal's answer to a bind-task request: a failed HTTP status
/// (with its text and the first 200 characters of the body), a non-zero
/// `retcode` (`-1` when absent, with `msg` or `unknown`), or a missing
/// `data.task_id` (with the whole body) is an error; else the task id.
pub fn bind_task_result(
    http_ok: bool,
    status_text: &str,
    body: &str,
    retcode: Option<i64>,
    msg: Option<String>,
    task_id: Option<String>,
) -> (r: Result<String, String>)
    ensures
        !http_ok ==> (r matches Err(e) && e@ == "create_bind_task failed "@ + status_text@ + ": "@ + body@.take(
            if body@.len() < 200 {
                body@.len() as int
            } else {
                200
            },
        )),
        http_ok && retcode != Some(0i64) ==> (r matches Err(e) && e@ == "create_bind_task retcode="@ + signed_decimal(
            match retcode {
                Some(c) => c as int,
                None => -1,
            },
        ) + ": "@ + match msg {
            Some(m) => m@,
            None => "unknown"@,
        }),
        http_ok && retcode == Some(0i64) ==> match task_id {
            Some(t) => (r matches Ok(id) && id@ == t@),
            None => (r matches Err(e) && e@ == "Missing task_id in response: "@ + body@),
        },
{
    if !http_ok {
        let v = crate::text::chars_of(body);
        let n = if v.len() < 200 {
            v.len()
        } else {
            200
        };
        let head = crate::text::string_of_range(v.as_slice(), 0, n);
        let mut e = "create_bind_task failed ".to_owned();
        push_str(&mut e, status_text);
        push_str(&mut e, ": ");
        push_str(&mut e, head.as_str());
        proof {
            assert(head@ =~= body@.take(n as int));
        }
        return Err(e);
    }
    let code: i64 = match retcode {
        Some(c) => c,
        None => -1,
    };
    if code != 0 {
        let mut e = "create_bind_task retcode=".to_owned();
        push_signed_decimal(&mut e, code);
        push_str(&mut e, ": ");
        match &msg {
            Some(m) => push_str(&mut e, m.as_str()),
            None => push_str(&mut e, "unknown"),
        }
        return Err(e);
    }
    match task_id {
        Some(t) => Ok(t),
        None => {
            let mut e = "Missing task_id in response: ".to_owned();
            push_str(&mut e, body);
            Err(e)
        },
    }
}

/// The fields of a poll answer that the flow reads.
#[derive(Debug)]
pub struct BindPoll {
    pub status: i32,
    pub app_id: Option<String>,
    pub encrypted_secret: Option<String>,
    pub user_openid: Option<String>,
}

/// Reads the portal's answer to a poll: a failed HTTP status is an error,
/// a non-zero `retcode` (`-1` when absent) is an error naming `msg` (or
/// `unknown`); otherwise the fields of `data`, the status taken as a 32-bit
/// number (0 when absent).
pub fn poll_result(
    http_ok: bool,
    retcode: Option<i64>,
    msg: Option<String>,
    status: Option<i64>,
    app_id: Option<String>,
    encrypted_secret: Option<String>,
    user_openid: Option<String>,
) -> (r: Result<BindPoll, String>)
    ensures
        !http_ok ==> (r matches Err(e) && e@ == "HTTP error"@),
        http_ok && retcode != Some(0i64) ==> (r matches Err(e) && e@ == "retcode: "@ + match msg {
            Some(m) => m@,
            None => "unknown"@,
        }),
        http_ok && retcode == Some(0i64) ==> (r matches Ok(p) && p.status == (match status {
            Some(s) => s,
            None => 0,
        }) as i32 && p.app_id == app_id && p.encrypted_secret == encrypted_secret && p.user_openid
            == user_openid),
{
    if !http_ok {
        return Err("HTTP error".to_owned());
    }
    let code: i64 = match retcode {
        Some(c) => c,
        None => -1,
    };
    if code != 0 {
        let mut e = "retcode: ".to_owned();
        match &msg {
            Some(m) => push_str(&mut e, m.as_str()),
            None => push_str(&mut e, "unknown"),
        }
        return Err(e);
    }
    let s: i64 = match status {
        Some(s) => s,
        None => 0,
    };
    Ok(BindPoll { status: s as i32, app_id, encrypted_secret, user_openid })
}

/// What the flow does after a poll.
#[derive(Debug)]
pub enum PollNext {
    /// Poll again after a pause.
    Wait,
    /// The code expired or was cancelled: ask for a fresh one.
    NewCode,
    /// The flow ends with this outcome.
    Finish(Result<QQOnboardResult, String>),
}

/// The state of the scan-and-wait loop: the round (how many fresh codes
/// were asked for before the current one) and the last status shown.
#[derive(Debug)]
pub struct OnboardFlow {
    pub round: usize,
    pub last_status: Option<i32>,
}

impl OnboardFlow {
    /// The flow before its first code.
    pub fn new() -> (f: Self)
        ensures
            f.round == 0,
            f.last_status is None,
    {
        OnboardFlow { round: 0, last_status: None }
    }

    /// Starts round `round`: after `MAX_REFRESHES` rounds the flow fails;
    /// otherwise the round begins with no status shown.
    pub fn begin_round(&mut self, round: usize) -> (r: Result<(), String>)
        ensures
            round >= MAX_REFRESHES ==> (r matches Err(e) && e@ == "Max refreshes (3) reached"@),
            round < MAX_REFRESHES ==> r is Ok && final(self).round == round && final(self).last_status is None,
    {
        if round >= MAX_REFRESHES {
            return Err("Max refreshes (3) reached".to_owned());
        }
        self.round = round;
        self.last_status = None;
        Ok(())
    }

    /// Takes a poll answer: returns the status message to show when the
    /// status changed, and what to do next. A complete scan decrypts the
    /// secret with the bind key (a missing or undecryptable secret fails
    /// the flow); a cancelled one asks for a fresh code; any other waits.
    pub fn on_poll(&mut self, poll: BindPoll, bind_key: &str) -> (r: (Option<String>, PollNext))
        ensures
            final(self).round == old(self).round,
            final(self).last_status == Some(poll.status),
            old(self).last_status == Some(poll.status) ==> r.0 is None,
            old(self).last_status != Some(poll.status) ==> (r.0 matches Some(m) && m@ == status_message(poll.status)),
            poll.status == STATUS_COMPLETE ==> (r.1 matches PollNext::Finish(out) && match poll.encrypted_secret {
                None => (out matches Err(e) && e@ == "Missing encrypted_secret in poll response"@),
                Some(enc) => match secret_outcome(enc@, bind_key@) {
                    None => (out matches Err(e) && e@ == "Failed to decrypt client_secret"@),
                    Some(s) => (out matches Ok(res) && res.client_secret@ == s && res.app_id@ == match poll.app_id {
                        Some(a) => a@,
                        None => Seq::<char>::empty(),
                    } && res.user_openid == poll.user_openid),
                },
            }),
            poll.status == STATUS_CANCELLED ==> r.1 is NewCode,
            poll.status != STATUS_COMPLETE && poll.status != STATUS_CANCELLED ==> r.1 is Wait,
    {
        let shown = if self.last_status != Some(poll.status) {
            self.last_status = Some(poll.status);
            Some(scan_status_message(poll.status).to_owned())
        } else {
            None
        };
        if poll.status == STATUS_COMPLETE {
            let enc = match poll.encrypted_secret {
                Some(e) => e,
                None => {
                    return (
                        shown,
                        PollNext::Finish(Err("Missing encrypted_secret in poll response".to_owned())),
                    );
                },
            };
            let client_secret = match decrypt_secret(enc.as_str(), bind_key) {
                Ok(s) => s,
                Err(_) => return (shown, PollNext::Finish(Err("Failed to decrypt client_secret".to_owned()))),
            };
            let app_id = match poll.app_id {
                Some(a) => a,
                None => String::new(),
            };
            return (
                shown,
                PollNext::Finish(Ok(QQOnboardResult { app_id, client_secret, user_openid: poll.user_openid })),
            );
        }
        if poll.status == STATUS_CANCELLED {
            return (shown, PollNext::NewCode);
        }
        (shown, PollNext::Wait)
    }
}

} // verus!
