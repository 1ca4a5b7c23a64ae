use aes_gcm::aead::Aead;
use aes_gcm::KeyInit;
use base64::Engine;
use oben_gateway::qq_onboard::{
    bind_task_result, build_qr_url, decrypt_secret, new_bind_key, poll_result, scan_status_message, BindPoll,
    OnboardFlow, PollNext,
};

fn b64(b: &[u8]) -> String {
    base64::engine::general_purpose::STANDARD.encode(b)
}

fn seal(key: &[u8; 32], iv: &[u8; 12], plain: &str) -> String {
    let cipher = aes_gcm::Aes256Gcm::new_from_slice(key).unwrap();
    let mut out = iv.to_vec();
    out.extend(cipher.encrypt(aes_gcm::Nonce::from_slice(iv), plain.as_bytes()).unwrap());
    b64(&out)
}

#[test]
fn test_decrypt_secret_round_trip() {
    let key = [7u8; 32];
    let iv = [3u8; 12];
    let enc = seal(&key, &iv, "super-secret");
    assert_eq!(decrypt_secret(&enc, &b64(&key)).unwrap(), "super-secret");
}

#[test]
fn test_decrypt_secret_errors() {
    let key = [7u8; 32];
    assert_eq!(
        decrypt_secret(&b64(&[1u8; 10]), &b64(&key)).err(),
        Some("Encrypted secret too short: 10 bytes".to_string())
    );
    assert_eq!(decrypt_secret(&b64(&[1u8; 40]), &b64(&[1u8; 16])).err(), Some("Bad AES key".to_string()));
    assert_eq!(
        decrypt_secret(&b64(&[1u8; 40]), &b64(&key)).err(),
        Some("AES-GCM decrypt failed: aead::Error".to_string())
    );
    assert!(decrypt_secret("***", &b64(&key)).is_err());
}

#[test]
fn test_bind_key_is_32_bytes() {
    let k = new_bind_key();
    let raw = base64::engine::general_purpose::STANDARD.decode(&k).unwrap();
    assert_eq!(raw.len(), 32);
}

#[test]
fn test_qr_url() {
    assert_eq!(
        build_qr_url("T1"),
        "https://q.qq.com/qqbot/openclaw/connect.html?task_id=T1&_wv=2&source=obenmatrix"
    );
}

#[test]
fn test_status_messages() {
    assert_eq!(scan_status_message(0), "Waiting for scan...");
    assert_eq!(scan_status_message(1), "QR scanned, confirm on phone");
    assert_eq!(scan_status_message(2), "Complete!");
    assert_eq!(scan_status_message(3), "Cancelled");
    assert_eq!(scan_status_message(9), "Unknown status");
}

#[test]
fn test_bind_task_result_cases() {
    assert_eq!(
        bind_task_result(false, "500 Internal Server Error", "oops", None, None, None).err(),
        Some("create_bind_task failed 500 Internal Server Error: oops".to_string())
    );
    assert_eq!(
        bind_task_result(true, "200 OK", "{}", None, None, None).err(),
        Some("create_bind_task retcode=-1: unknown".to_string())
    );
    assert_eq!(
        bind_task_result(true, "200 OK", "{}", Some(4), Some("bad".into()), None).err(),
        Some("create_bind_task retcode=4: bad".to_string())
    );
    assert_eq!(
        bind_task_result(true, "200 OK", "{\"retcode\":0}", Some(0), None, None).err(),
        Some("Missing task_id in response: {\"retcode\":0}".to_string())
    );
    assert_eq!(bind_task_result(true, "200 OK", "x", Some(0), None, Some("t9".into())), Ok("t9".to_string()));
}

#[test]
fn test_poll_result_cases() {
    assert_eq!(poll_result(false, None, None, None, None, None, None).err(), Some("HTTP error".to_string()));
    assert_eq!(
        poll_result(true, Some(1), Some("nope".into()), None, None, None, None).err(),
        Some("retcode: nope".to_string())
    );
    let p = poll_result(true, Some(0), None, None, Some("app".into()), None, None).unwrap();
    assert_eq!(p.status, 0);
    assert_eq!(p.app_id, Some("app".to_string()));
}

#[test]
fn test_onboard_flow_steps() {
    let mut flow = OnboardFlow::new();
    assert!(flow.begin_round(0).is_ok());
    let (shown, next) = flow.on_poll(
        BindPoll { status: 0, app_id: None, encrypted_secret: None, user_openid: None },
        "key",
    );
    assert_eq!(shown, Some("Waiting for scan...".to_string()));
    assert!(matches!(next, PollNext::Wait));
    let (shown, _) = flow.on_poll(
        BindPoll { status: 0, app_id: None, encrypted_secret: None, user_openid: None },
        "key",
    );
    assert_eq!(shown, None);
    let (_, next) = flow.on_poll(
        BindPoll { status: 3, app_id: None, encrypted_secret: None, user_openid: None },
        "key",
    );
    assert!(matches!(next, PollNext::NewCode));
    assert_eq!(flow.begin_round(3).err(), Some("Max refreshes (3) reached".to_string()));
}

#[test]
fn test_onboard_flow_completes() {
    let key = [9u8; 32];
    let enc = seal(&key, &[1u8; 12], "s3cr3t");
    let mut flow = OnboardFlow::new();
    let (_, next) = flow.on_poll(
        BindPoll { status: 2, app_id: Some("A1".into()), encrypted_secret: Some(enc), user_openid: Some("o".into()) },
        &b64(&key),
    );
    match next {
        PollNext::Finish(Ok(r)) => {
            assert_eq!(r.app_id, "A1");
            assert_eq!(r.client_secret, "s3cr3t");
            assert_eq!(r.user_openid, Some("o".to_string()));
        }
        _ => panic!("expected completion"),
    }
    let (_, next) = flow.on_poll(
        BindPoll { status: 2, app_id: None, encrypted_secret: None, user_openid: None },
        &b64(&key),
    );
    assert!(matches!(next, PollNext::Finish(Err(ref e)) if e == "Missing encrypted_secret in poll response"));
}

#[test]
fn decrypt_secret_accepts_only_canonical_base64() {
    let key = [7u8; 32];
    let iv = [3u8; 12];
    let enc = seal(&key, &iv, "super-secret");
    let good = b64(&key);
    assert!(good.ends_with("Bwc="));
    assert_eq!(decrypt_secret(&enc, &good).unwrap(), "super-secret");
    let stray_bits = format!("{}d=", &good[..good.len() - 2]);
    assert!(decrypt_secret(&enc, &stray_bits).is_err());
    let unpadded = good.trim_end_matches('=').to_string();
    assert!(decrypt_secret(&enc, &unpadded).is_err());
}

#[test]
fn bind_key_is_padded_standard_base64() {
    let k = new_bind_key();
    assert_eq!(k.len(), 44);
    assert!(k.ends_with('=') && !k.ends_with("=="));
    assert!(k[..43].chars().all(|c| c.is_ascii_alphanumeric() || c == '+' || c == '/'));
}
